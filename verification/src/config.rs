//! Per-path monitoring policy: which events matter for a watched file, and
//! what to do when one fires.

use vstd::prelude::*;
use vstd::string::StringExecFns;

use crate::event::EventType;

verus! {

/// Configuration for one honey file.
#[derive(Debug)]
pub struct HoneyFileConfig {
    pub file_path: String,
    pub enabled: bool,
    pub monitored_events: Vec<EventType>,
    pub script_handler: Option<String>,
    pub description: String,
}

/// The mathematical model of a `HoneyFileConfig`.
#[verifier::ext_equal]
pub ghost struct ConfigView {
    pub file_path: Seq<char>,
    pub enabled: bool,
    pub monitored_events: Seq<EventType>,
    pub script_handler: Option<Seq<char>>,
    pub description: Seq<char>,
}

impl View for HoneyFileConfig {
    type V = ConfigView;

    open spec fn view(&self) -> ConfigView {
        ConfigView {
            file_path: self.file_path@,
            enabled: self.enabled,
            monitored_events: self.monitored_events@,
            script_handler: match self.script_handler {
                Option::Some(s) => Option::Some(s@),
                Option::None => Option::None,
            },
            description: self.description@,
        }
    }
}

impl DeepView for HoneyFileConfig {
    type V = ConfigView;

    open spec fn deep_view(&self) -> ConfigView {
        self.view()
    }
}

impl Clone for HoneyFileConfig {
    fn clone(&self) -> (r: Self)
        ensures
            r@ == self@,
    {
        let r = HoneyFileConfig {
            file_path: self.file_path.clone(),
            enabled: self.enabled,
            monitored_events: clone_events(&self.monitored_events),
            script_handler: match &self.script_handler {
                Option::Some(s) => Option::Some(s.clone()),
                Option::None => Option::None,
            },
            description: self.description.clone(),
        };
        proof {
            assert(r@ =~= self@);
        }
        r
    }
}

/// Copies a list of event types element by element.
fn clone_events(events: &Vec<EventType>) -> (r: Vec<EventType>)
    ensures
        r@ == events@,
{
    let mut r: Vec<EventType> = Vec::new();
    let mut i: usize = 0;
    while i < events.len()
        invariant
            i <= events.len(),
            r@ == events@.subrange(0, i as int),
        decreases events.len() - i,
    {
        r.push(events[i]);
        proof {
            assert(r@ =~= events@.subrange(0, i + 1 as int));
        }
        i += 1;
    }
    proof {
        assert(events@.subrange(0, events@.len() as int) =~= events@);
    }
    r
}

/// The predicate that keeps every event type other than `e`.
pub open spec fn not_event(e: EventType) -> spec_fn(EventType) -> bool {
    |x: EventType| x != e
}

/// What an enable/disable edit of one event type does to the monitored set:
/// turning it on appends it unless already present, turning it off drops
/// every occurrence.
pub open spec fn toggle_spec(s: Seq<EventType>, e: EventType, on: bool) -> Seq<EventType> {
    if on {
        if s.contains(e) {
            s
        } else {
            s.push(e)
        }
    } else {
        s.filter(not_event(e))
    }
}

impl HoneyFileConfig {
    /// The monitored set never holds the same event type twice.
    pub open spec fn wf(self) -> bool {
        self@.monitored_events.no_duplicates()
    }

    /// The default policy for a newly added path: enabled, watching writes
    /// and modifications, no response handler.
    pub fn new(file_path: String) -> (r: HoneyFileConfig)
        ensures
            r@.file_path == file_path@,
            r@.enabled == true,
            r@.monitored_events == seq![EventType::Write, EventType::Modify],
            r@.script_handler is None,
            r@.description == "Monitor "@ + file_path@,
            r.wf(),
    {
        let description = String::from_str("Monitor ").concat(file_path.as_str());
        let mut monitored_events: Vec<EventType> = Vec::new();
        monitored_events.push(EventType::Write);
        monitored_events.push(EventType::Modify);
        proof {
            assert(monitored_events@ =~= seq![EventType::Write, EventType::Modify]);
            assert(monitored_events@.no_duplicates());
        }
        HoneyFileConfig {
            file_path,
            enabled: true,
            monitored_events,
            script_handler: None,
            description,
        }
    }

    /// Turns monitoring of one event type on or off for this file.
    pub fn set_event_monitored(&mut self, event_type: EventType, monitored: bool)
        requires
            old(self).wf(),
        ensures
            final(self).wf(),
            final(self)@ == (ConfigView {
                monitored_events: toggle_spec(old(self)@.monitored_events, event_type, monitored),
                ..old(self)@
            }),
    {
        if monitored {
            if !contains_event(&self.monitored_events, event_type) {
                self.monitored_events.push(event_type);
            }
        } else {
            let filtered = remove_event(&self.monitored_events, event_type);
            self.monitored_events = filtered;
            proof {
                lemma_filter_no_duplicates(old(self)@.monitored_events, not_event(event_type));
            }
        }
        proof {
            assert(self@ =~= (ConfigView {
                monitored_events: toggle_spec(old(self)@.monitored_events, event_type, monitored),
                ..old(self)@
            }));
        }
    }
}

/// One catalogue entry: a path under the home directory, disabled until the
/// user opts in, with no response handler.
pub open spec fn catalogue_entry_spec(
    home: Seq<char>,
    rel: Seq<char>,
    desc: Seq<char>,
    with_access: bool,
) -> ConfigView {
    ConfigView {
        file_path: home + rel,
        enabled: false,
        monitored_events: if with_access {
            seq![EventType::Write, EventType::Modify, EventType::Access]
        } else {
            seq![EventType::Write, EventType::Modify]
        },
        script_handler: None,
        description: desc,
    }
}

/// The built-in catalogue of commonly targeted files, resolved against the
/// given home directory.
pub open spec fn catalogue_spec(home: Seq<char>) -> Seq<ConfigView> {
    seq![
        catalogue_entry_spec(home, "/.bashrc"@, "Bash configuration file"@, false),
        catalogue_entry_spec(home, "/.bash_profile"@, "Bash profile configuration"@, false),
        catalogue_entry_spec(home, "/.zshrc"@, "Zsh configuration file"@, false),
        catalogue_entry_spec(home, "/.gitconfig"@, "Global Git configuration"@, true),
        catalogue_entry_spec(home, "/.git-credentials"@, "Global Git configuration"@, true),
        catalogue_entry_spec(home, "/.ssh/config"@, "SSH client configuration"@, true),
        catalogue_entry_spec(home, "/.ssh/authorized_keys"@, "SSH authorized keys"@, true),
    ]
}

/// Builds one catalogue entry.
fn catalogue_entry(home: &str, rel: &str, desc: &str, with_access: bool) -> (r: HoneyFileConfig)
    ensures
        r@ == catalogue_entry_spec(home@, rel@, desc@, with_access),
        r.wf(),
{
    let file_path = String::from_str(home).concat(rel);
    let mut monitored_events: Vec<EventType> = Vec::new();
    monitored_events.push(EventType::Write);
    monitored_events.push(EventType::Modify);
    if with_access {
        monitored_events.push(EventType::Access);
    }
    let r = HoneyFileConfig {
        file_path,
        enabled: false,
        monitored_events,
        script_handler: None,
        description: String::from_str(desc),
    };
    proof {
        if with_access {
            assert(r@.monitored_events =~= seq![
                EventType::Write,
                EventType::Modify,
                EventType::Access,
            ]);
        } else {
            assert(r@.monitored_events =~= seq![EventType::Write, EventType::Modify]);
        }
        assert(r@ =~= catalogue_entry_spec(home@, rel@, desc@, with_access));
        assert(r@.monitored_events.no_duplicates());
    }
    r
}

impl HoneyFileConfig {
    /// The built-in catalogue of commonly targeted sensitive files, resolved
    /// against the given home directory.  Every entry starts disabled, so
    /// that activating surveillance is an explicit user action.
    pub fn get_common_files(home: &str) -> (r: Vec<HoneyFileConfig>)
        ensures
            r.deep_view() == catalogue_spec(home@),
            forall|i: int| 0 <= i < r@.len() ==> !(#[trigger] r@[i])@.enabled,
            forall|i: int| 0 <= i < r@.len() ==> (#[trigger] r@[i]).wf(),
    {
        let mut r: Vec<HoneyFileConfig> = Vec::new();
        r.push(catalogue_entry(home, "/.bashrc", "Bash configuration file", false));
        r.push(catalogue_entry(home, "/.bash_profile", "Bash profile configuration", false));
        r.push(catalogue_entry(home, "/.zshrc", "Zsh configuration file", false));
        r.push(catalogue_entry(home, "/.gitconfig", "Global Git configuration", true));
        r.push(catalogue_entry(home, "/.git-credentials", "Global Git configuration", true));
        r.push(catalogue_entry(home, "/.ssh/config", "SSH client configuration", true));
        r.push(catalogue_entry(home, "/.ssh/authorized_keys", "SSH authorized keys", true));
        proof {
            assert(r.deep_view() =~= catalogue_spec(home@));
        }
        r
    }
}

/// Resolves the home directory the catalogue is planted under: the value the
/// environment supplied, or a fixed placeholder when it had none.
pub fn resolve_home(home: Option<String>) -> (r: String)
    ensures
        r@ == match home {
            Option::Some(h) => h@,
            Option::None => "/home/user"@,
        },
{
    match home {
        Option::Some(h) => h,
        Option::None => String::from_str("/home/user"),
    }
}

/// Whether the list holds the given event type.
fn contains_event(events: &Vec<EventType>, e: EventType) -> (r: bool)
    ensures
        r == events@.contains(e),
{
    let mut i: usize = 0;
    while i < events.len()
        invariant
            i <= events.len(),
            forall|j: int| 0 <= j < i ==> events@[j] != e,
        decreases events.len() - i,
    {
        if events[i] == e {
            return true;
        }
        i += 1;
    }
    false
}

/// A copy of the list with every occurrence of the given event type dropped.
fn remove_event(events: &Vec<EventType>, e: EventType) -> (r: Vec<EventType>)
    ensures
        r@ == events@.filter(not_event(e)),
{
    let mut r: Vec<EventType> = Vec::new();
    let mut i: usize = 0;
    proof {
        reveal(Seq::filter);
        assert(events@.subrange(0, 0).filter(not_event(e)) =~= Seq::<EventType>::empty());
    }
    while i < events.len()
        invariant
            i <= events.len(),
            r@ == events@.subrange(0, i as int).filter(not_event(e)),
        decreases events.len() - i,
    {
        let x = events[i];
        if x != e {
            r.push(x);
        }
        proof {
            reveal(Seq::filter);
            let big = events@.subrange(0, i as int + 1);
            assert(big.drop_last() =~= events@.subrange(0, i as int));
            assert(big.last() == events@[i as int]);
            assert(r@ =~= big.filter(not_event(e)));
        }
        i += 1;
    }
    proof {
        assert(events@.subrange(0, events@.len() as int) =~= events@);
    }
    r
}

/// Everything the filter keeps was in the original sequence.
proof fn lemma_filter_membership(s: Seq<EventType>, pred: spec_fn(EventType) -> bool)
    ensures
        forall|x: EventType| #[trigger] s.filter(pred).contains(x) ==> s.contains(x),
    decreases s.len(),
{
    reveal(Seq::filter);
    if s.len() > 0 {
        lemma_filter_membership(s.drop_last(), pred);
        assert forall|x: EventType| #[trigger] s.filter(pred).contains(x) implies s.contains(x) by {
            if s.drop_last().filter(pred).contains(x) {
                assert(s.drop_last().contains(x));
                let j = choose|j: int|
                    0 <= j < s.drop_last().len() && s.drop_last()[j] == x;
                assert(s[j] == x);
            } else {
                assert(x == s.last());
                assert(s[s.len() - 1] == x);
            }
        }
    }
}

/// Dropping elements never introduces a duplicate.
proof fn lemma_filter_no_duplicates(s: Seq<EventType>, pred: spec_fn(EventType) -> bool)
    requires
        s.no_duplicates(),
    ensures
        s.filter(pred).no_duplicates(),
    decreases s.len(),
{
    reveal(Seq::filter);
    if s.len() > 0 {
        lemma_filter_no_duplicates(s.drop_last(), pred);
        lemma_filter_membership(s.drop_last(), pred);
        if pred(s.last()) {
            let f = s.drop_last().filter(pred);
            assert forall|i: int| 0 <= i < f.len() implies f[i] != s.last() by {
                assert(f.contains(f[i]));
                assert(s.drop_last().contains(f[i]));
                if f[i] == s.last() {
                    let j = choose|j: int|
                        0 <= j < s.drop_last().len() && s.drop_last()[j] == f[i];
                    assert(s[j] == s[s.len() - 1]);
                }
            }
            assert(s.filter(pred) =~= f.push(s.last()));
            assert(s.filter(pred).no_duplicates()) by {
                assert(f.no_duplicates());
                assert forall|i: int, j: int|
                    0 <= i < j < f.push(s.last()).len() implies f.push(s.last())[i] != f.push(
                    s.last(),
                )[j] by {
                    if j == f.len() {
                        assert(f.push(s.last())[i] == f[i]);
                    }
                }
            }
        }
    }
}

/// A filter that drops nothing returns the sequence unchanged.
proof fn lemma_filter_keeps_all(s: Seq<EventType>, pred: spec_fn(EventType) -> bool)
    requires
        forall|i: int| 0 <= i < s.len() ==> pred(#[trigger] s[i]),
    ensures
        s.filter(pred) == s,
    decreases s.len(),
{
    reveal(Seq::filter);
    if s.len() > 0 {
        lemma_filter_keeps_all(s.drop_last(), pred);
        assert(s.filter(pred) =~= s);
    } else {
        assert(s.filter(pred) =~= s);
    }
}

/// Toggling an event type on and then off restores the original monitored
/// set, provided the type was not monitored to begin with.
pub proof fn lemma_toggle_on_then_off(s: Seq<EventType>, e: EventType)
    requires
        !s.contains(e),
    ensures
        toggle_spec(toggle_spec(s, e, true), e, false) == s,
{
    let pred = not_event(e);
    reveal(Seq::filter);
    assert(s.push(e).drop_last() =~= s);
    assert(s.push(e).last() == e);
    assert forall|i: int| 0 <= i < s.len() implies pred(#[trigger] s[i]) by {
        if s[i] == e {
            assert(s.contains(e));
        }
    }
    lemma_filter_keeps_all(s, pred);
}

/// Toggling an event type on twice stores it only once.
pub proof fn lemma_toggle_idempotent(s: Seq<EventType>, e: EventType)
    ensures
        toggle_spec(toggle_spec(s, e, true), e, true) == toggle_spec(s, e, true),
{
    if !s.contains(e) {
        assert(s.push(e)[s.len() as int] == e);
        assert(s.push(e).contains(e));
    }
}

} // verus!
