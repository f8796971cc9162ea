//! The closed taxonomy of semantic file events, and the emitted event record.

use vstd::prelude::*;

verus! {

/// Event types that can be monitored.
#[derive(Debug, Clone, Copy, PartialEq, Eq, Hash, Structural)]
pub enum EventType {
    Read,
    Write,
    Execute,
    Access,
    Modify,
    Create,
    Delete,
}

impl EventType {
    /// The canonical textual label of this event type.
    pub open spec fn label(self) -> Seq<char> {
        match self {
            EventType::Read => "Read"@,
            EventType::Write => "Write"@,
            EventType::Execute => "Execute"@,
            EventType::Access => "Access"@,
            EventType::Modify => "Modify"@,
            EventType::Create => "Create"@,
            EventType::Delete => "Delete"@,
        }
    }

    /// The fixed order in which the taxonomy is enumerated.
    pub open spec fn all_spec() -> Seq<EventType> {
        seq![
            EventType::Read,
            EventType::Write,
            EventType::Execute,
            EventType::Access,
            EventType::Modify,
            EventType::Create,
            EventType::Delete,
        ]
    }

    /// The event type whose label is `s`, if any.
    pub open spec fn from_label_spec(s: Seq<char>) -> Option<EventType> {
        if s == "Read"@ {
            Some(EventType::Read)
        } else if s == "Write"@ {
            Some(EventType::Write)
        } else if s == "Execute"@ {
            Some(EventType::Execute)
        } else if s == "Access"@ {
            Some(EventType::Access)
        } else if s == "Modify"@ {
            Some(EventType::Modify)
        } else if s == "Create"@ {
            Some(EventType::Create)
        } else if s == "Delete"@ {
            Some(EventType::Delete)
        } else {
            None
        }
    }

    pub fn as_str(&self) -> (s: &'static str)
        ensures
            s@ == self.label(),
    {
        match self {
            EventType::Read => "Read",
            EventType::Write => "Write",
            EventType::Execute => "Execute",
            EventType::Access => "Access",
            EventType::Modify => "Modify",
            EventType::Create => "Create",
            EventType::Delete => "Delete",
        }
    }

    pub fn all() -> (v: Vec<EventType>)
        ensures
            v@ == EventType::all_spec(),
    {
        let mut v: Vec<EventType> = Vec::new();
        v.push(EventType::Read);
        v.push(EventType::Write);
        v.push(EventType::Execute);
        v.push(EventType::Access);
        v.push(EventType::Modify);
        v.push(EventType::Create);
        v.push(EventType::Delete);
        proof {
            assert(v@ =~= EventType::all_spec());
        }
        v
    }

    /// Parses a canonical label back into its event type.
    pub fn from_label(s: &str) -> (r: Option<EventType>)
        ensures
            r == EventType::from_label_spec(s@),
    {
        if crate::chars::str_eq(s, "Read") {
            Some(EventType::Read)
        } else if crate::chars::str_eq(s, "Write") {
            Some(EventType::Write)
        } else if crate::chars::str_eq(s, "Execute") {
            Some(EventType::Execute)
        } else if crate::chars::str_eq(s, "Access") {
            Some(EventType::Access)
        } else if crate::chars::str_eq(s, "Modify") {
            Some(EventType::Modify)
        } else if crate::chars::str_eq(s, "Create") {
            Some(EventType::Create)
        } else if crate::chars::str_eq(s, "Delete") {
            Some(EventType::Delete)
        } else {
            None
        }
    }
}

/// Establishes the distinguishing facts about the seven labels: their
/// lengths and their first characters, which are pairwise distinct.
pub proof fn lemma_label_facts()
    ensures
        "Read"@.len() == 4,
        "Write"@.len() == 5,
        "Execute"@.len() == 7,
        "Access"@.len() == 6,
        "Modify"@.len() == 6,
        "Create"@.len() == 6,
        "Delete"@.len() == 6,
        "Read"@[0] == 'R',
        "Write"@[0] == 'W',
        "Execute"@[0] == 'E',
        "Access"@[0] == 'A',
        "Modify"@[0] == 'M',
        "Create"@[0] == 'C',
        "Delete"@[0] == 'D',
{
    reveal_strlit("Read");
    reveal_strlit("Write");
    reveal_strlit("Execute");
    reveal_strlit("Access");
    reveal_strlit("Modify");
    reveal_strlit("Create");
    reveal_strlit("Delete");
}

/// No two event types share a label: `label` is injective.
pub proof fn lemma_label_injective()
    ensures
        forall|a: EventType, b: EventType| a.label() == b.label() ==> a == b,
{
    lemma_label_facts();
}

/// The enumeration lists every event type, each exactly once.
pub proof fn lemma_all_exactly_once()
    ensures
        EventType::all_spec().no_duplicates(),
        forall|e: EventType| EventType::all_spec().contains(e),
{
    assert forall|e: EventType| EventType::all_spec().contains(e) by {
        let s = EventType::all_spec();
        match e {
            EventType::Read => assert(s[0] == e),
            EventType::Write => assert(s[1] == e),
            EventType::Execute => assert(s[2] == e),
            EventType::Access => assert(s[3] == e),
            EventType::Modify => assert(s[4] == e),
            EventType::Create => assert(s[5] == e),
            EventType::Delete => assert(s[6] == e),
        }
    }
}

/// Parsing a label undoes printing it: `from_label_spec` inverts `label`.
pub proof fn lemma_label_roundtrip()
    ensures
        forall|e: EventType| EventType::from_label_spec(e.label()) == Some(e),
{
    lemma_label_facts();
}

/// A file monitoring event, as delivered to the consumer.
#[derive(Debug)]
pub struct FileEvent {
    pub file_path: String,
    pub event_type: EventType,
    pub timestamp: u64,
    pub process_info: Option<String>,
}

impl Clone for FileEvent {
    fn clone(&self) -> (r: Self)
        ensures
            r@ == self@,
    {
        let r = FileEvent {
            file_path: self.file_path.clone(),
            event_type: self.event_type,
            timestamp: self.timestamp,
            process_info: match &self.process_info {
                Option::Some(p) => Option::Some(p.clone()),
                Option::None => Option::None,
            },
        };
        proof {
            assert(r@ =~= self@);
        }
        r
    }
}

/// The mathematical model of a `FileEvent`.
#[verifier::ext_equal]
pub ghost struct EventView {
    pub file_path: Seq<char>,
    pub event_type: EventType,
    pub timestamp: u64,
    pub process_info: Option<Seq<char>>,
}

impl View for FileEvent {
    type V = EventView;

    open spec fn view(&self) -> EventView {
        EventView {
            file_path: self.file_path@,
            event_type: self.event_type,
            timestamp: self.timestamp,
            process_info: match self.process_info {
                Option::Some(p) => Option::Some(p@),
                Option::None => Option::None,
            },
        }
    }
}

impl DeepView for FileEvent {
    type V = EventView;

    open spec fn deep_view(&self) -> EventView {
        self.view()
    }
}

/// Relies on `std::time::SystemTime::now`: reads the wall clock and returns
/// whole seconds since the Unix epoch (zero if the clock reads before it).
/// The clock is not a function of any argument, so nothing is promised of
/// the result.
#[verifier::external_body]
fn now_unix_seconds() -> u64 {
    std::time::SystemTime::now()
        .duration_since(std::time::UNIX_EPOCH)
        .unwrap_or_default()
        .as_secs()
}

impl FileEvent {
    /// Builds an event stamped with the current wall-clock time.
    pub fn new(file_path: String, event_type: EventType) -> (r: FileEvent)
        ensures
            r.file_path == file_path,
            r.event_type == event_type,
            r.process_info is None,
    {
        let timestamp = now_unix_seconds();
        FileEvent { file_path, event_type, timestamp, process_info: None }
    }
}

} // verus!
