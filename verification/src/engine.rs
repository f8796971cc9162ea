//! The watch engine's decisions: which OS-level watch categories a policy
//! asks for, how a raw notification is classified, which snapshot entry a
//! notification belongs to, and what the response to it is.
//!
//! The engine's loop itself blocks on the OS notification source and runs
//! with the caller; every step of it that decides or computes is here, on
//! plain values.

use vstd::prelude::*;
use vstd::string::StrSliceExecFns;
use vstd::string::StringExecFns;

use crate::config::ConfigView;
use crate::config::HoneyFileConfig;
use crate::event::EventType;
use crate::event::FileEvent;
use crate::numrep::dec_rep;
use crate::numrep::u64_to_string;

verus! {

/// The OS-level watch categories to subscribe a path to: the union of the
/// categories its monitored event types map to.
#[derive(Debug, Clone, Copy, PartialEq, Eq, Structural)]
pub struct WatchRequest {
    pub access: bool,
    pub modify: bool,
    pub close_write: bool,
    pub create: bool,
    pub delete: bool,
    pub delete_self: bool,
}

/// Whether an event type asks for the generic access category.  Read and
/// Access map there directly; Execute is approximated by Access because the
/// platform has no dedicated execute-watch primitive.
pub open spec fn wants_access(e: EventType) -> bool {
    e == EventType::Read || e == EventType::Access || e == EventType::Execute
}

/// Whether an event type asks for the modify and close-after-write categories.
pub open spec fn wants_modify(e: EventType) -> bool {
    e == EventType::Write || e == EventType::Modify
}

/// The watch categories requested by a set of monitored event types.
pub open spec fn watch_request_spec(events: Seq<EventType>) -> WatchRequest {
    WatchRequest {
        access: exists|i: int| 0 <= i < events.len() && wants_access(#[trigger] events[i]),
        modify: exists|i: int| 0 <= i < events.len() && wants_modify(#[trigger] events[i]),
        close_write: exists|i: int| 0 <= i < events.len() && wants_modify(#[trigger] events[i]),
        create: events.contains(EventType::Create),
        delete: events.contains(EventType::Delete),
        delete_self: events.contains(EventType::Delete),
    }
}

/// Computes the watch categories for a policy's monitored event types.
pub fn watch_request_for(events: &Vec<EventType>) -> (r: WatchRequest)
    ensures
        r == watch_request_spec(events@),
{
    let mut r = WatchRequest {
        access: false,
        modify: false,
        close_write: false,
        create: false,
        delete: false,
        delete_self: false,
    };
    let mut i: usize = 0;
    while i < events.len()
        invariant
            i <= events@.len(),
            r == watch_request_spec(events@.subrange(0, i as int)),
        decreases events@.len() - i,
    {
        let e = events[i];
        match e {
            EventType::Read | EventType::Access | EventType::Execute => {
                r.access = true;
            },
            EventType::Write | EventType::Modify => {
                r.modify = true;
                r.close_write = true;
            },
            EventType::Create => {
                r.create = true;
            },
            EventType::Delete => {
                r.delete = true;
                r.delete_self = true;
            },
        }
        proof {
            let pre = events@.subrange(0, i as int);
            let cur = events@.subrange(0, i as int + 1);
            assert(cur =~= pre.push(events@[i as int]));
            assert(r == watch_request_spec(cur)) by {
                lemma_watch_request_step(pre, events@[i as int], r);
            }
        }
        i += 1;
    }
    proof {
        assert(events@.subrange(0, events@.len() as int) =~= events@);
    }
    r
}

/// How adding one event type extends the requested categories.
proof fn lemma_watch_request_step(pre: Seq<EventType>, e: EventType, r: WatchRequest)
    requires
        r.access == (watch_request_spec(pre).access || wants_access(e)),
        r.modify == (watch_request_spec(pre).modify || wants_modify(e)),
        r.close_write == (watch_request_spec(pre).close_write || wants_modify(e)),
        r.create == (watch_request_spec(pre).create || e == EventType::Create),
        r.delete == (watch_request_spec(pre).delete || e == EventType::Delete),
        r.delete_self == (watch_request_spec(pre).delete_self || e == EventType::Delete),
    ensures
        r == watch_request_spec(pre.push(e)),
{
    let cur = pre.push(e);
    assert(cur.len() == pre.len() + 1);
    assert(cur[pre.len() as int] == e);
    assert forall|j: int| 0 <= j < pre.len() implies cur[j] == pre[j] by {}
    if r.access {
        if wants_access(e) {
            assert(wants_access(cur[pre.len() as int]));
        } else {
            let j = choose|j: int| 0 <= j < pre.len() && wants_access(#[trigger] pre[j]);
            assert(wants_access(cur[j]));
        }
    }
    if r.modify {
        if wants_modify(e) {
            assert(wants_modify(cur[pre.len() as int]));
        } else {
            let j = choose|j: int| 0 <= j < pre.len() && wants_modify(#[trigger] pre[j]);
            assert(wants_modify(cur[j]));
        }
    }
    if r.create {
        if e == EventType::Create {
            assert(cur[pre.len() as int] == EventType::Create);
        } else {
            let j = choose|j: int| 0 <= j < pre.len() && pre[j] == EventType::Create;
            assert(cur[j] == EventType::Create);
        }
    }
    if r.delete {
        if e == EventType::Delete {
            assert(cur[pre.len() as int] == EventType::Delete);
        } else {
            let j = choose|j: int| 0 <= j < pre.len() && pre[j] == EventType::Delete;
            assert(cur[j] == EventType::Delete);
        }
    }
    assert forall|j: int| 0 <= j < cur.len() && wants_access(#[trigger] cur[j]) implies r.access by {
        if j < pre.len() {
            assert(wants_access(pre[j]));
        }
    }
    assert forall|j: int| 0 <= j < cur.len() && wants_modify(#[trigger] cur[j]) implies r.modify by {
        if j < pre.len() {
            assert(wants_modify(pre[j]));
        }
    }
    if cur.contains(EventType::Create) {
        let j = choose|j: int| 0 <= j < cur.len() && cur[j] == EventType::Create;
        if j < pre.len() {
            assert(pre[j] == EventType::Create);
        }
        assert(r.create);
    }
    if cur.contains(EventType::Delete) {
        let j = choose|j: int| 0 <= j < cur.len() && cur[j] == EventType::Delete;
        if j < pre.len() {
            assert(pre[j] == EventType::Delete);
        }
        assert(r.delete);
    }
}

/// The categories flagged on one raw notification from the OS source.
#[derive(Debug, Clone, Copy, PartialEq, Eq, Structural)]
pub struct RawNotification {
    pub access: bool,
    pub modify: bool,
    pub close_write: bool,
    pub create: bool,
    pub delete: bool,
}

/// Classification precedence: Access, then Modify (covering the generic
/// modify signal and close-after-write), then Create, then Delete; the first
/// match wins, and a notification with no matching category falls back to
/// Access.  One raw notification yields exactly one event type.
pub open spec fn classify_spec(n: RawNotification) -> EventType {
    if n.access {
        EventType::Access
    } else if n.modify || n.close_write {
        EventType::Modify
    } else if n.create {
        EventType::Create
    } else if n.delete {
        EventType::Delete
    } else {
        EventType::Access
    }
}

/// Classifies one raw notification into the event taxonomy.
pub fn classify(n: &RawNotification) -> (r: EventType)
    ensures
        r == classify_spec(*n),
{
    if n.access {
        EventType::Access
    } else if n.modify || n.close_write {
        EventType::Modify
    } else if n.create {
        EventType::Create
    } else if n.delete {
        EventType::Delete
    } else {
        EventType::Access
    }
}

/// The final path component: everything after the last `/`, or the whole
/// string when it has none.
pub open spec fn file_name_spec(s: Seq<char>) -> Seq<char>
    decreases s.len(),
{
    if s.len() == 0 {
        s
    } else if s.last() == '/' {
        Seq::empty()
    } else {
        file_name_spec(s.drop_last()).push(s.last())
    }
}

/// A suffix holding no `/` and starting just after one (or at the start) is
/// the final path component.
proof fn lemma_file_name_suffix(s: Seq<char>, i: int)
    requires
        0 <= i <= s.len(),
        forall|j: int| i <= j < s.len() ==> s[j] != '/',
        i > 0 ==> s[i - 1] == '/',
    ensures
        file_name_spec(s) == s.subrange(i, s.len() as int),
    decreases s.len() - i,
{
    if i == s.len() {
        if i > 0 {
            assert(s.last() == '/');
            assert(file_name_spec(s) =~= s.subrange(i, s.len() as int));
        } else {
            assert(s.len() == 0);
            assert(file_name_spec(s) =~= s.subrange(0, 0));
        }
    } else {
        assert(s.last() != '/');
        lemma_file_name_suffix(s.drop_last(), i);
        assert(file_name_spec(s) == file_name_spec(s.drop_last()).push(s.last()));
        assert(s.drop_last().subrange(i, s.drop_last().len() as int) =~= s.subrange(
            i,
            s.len() - 1,
        ));
        assert(s.subrange(i, s.len() - 1).push(s.last()) =~= s.subrange(i, s.len() as int));
    }
}

/// Returns the final path component of a path.
pub fn file_name_of(path: &str) -> (r: &str)
    ensures
        r@ == file_name_spec(path@),
{
    let n = path.unicode_len();
    let mut i: usize = n;
    let mut found = false;
    while !found && i > 0
        invariant
            i <= n,
            n == path@.len(),
            forall|j: int| i <= j < n ==> path@[j] != '/',
            found ==> i > 0 && path@[i - 1] == '/',
        decreases i + (if found { 0int } else { 1int }),
    {
        if path.get_char(i - 1) == '/' {
            found = true;
        } else {
            i -= 1;
        }
    }
    proof {
        lemma_file_name_suffix(path@, i as int);
    }
    path.substring_char(i, n)
}

/// Whether the path carries the expected executable-script extension: its
/// final component ends in `.sh` and has a non-empty stem.
pub open spec fn has_sh_extension_spec(p: Seq<char>) -> bool {
    let f = file_name_spec(p);
    f.len() >= 4 && f.subrange(f.len() - 3, f.len() as int) == ".sh"@
}

/// Tests a response-handler path for the expected script extension.
pub fn has_sh_extension(path: &str) -> (r: bool)
    ensures
        r == has_sh_extension_spec(path@),
{
    proof {
        reveal_strlit(".sh");
    }
    let f = file_name_of(path);
    let n = f.unicode_len();
    if n < 4 {
        return false;
    }
    let r = f.get_char(n - 3) == '.' && f.get_char(n - 2) == 's' && f.get_char(n - 1) == 'h';
    proof {
        if r {
            assert(f@.subrange(n as int - 3, n as int) =~= ".sh"@);
        } else {
            assert(f@.subrange(n as int - 3, n as int) != ".sh"@) by {
                if f@.subrange(n as int - 3, n as int) == ".sh"@ {
                    assert(f@.subrange(n as int - 3, n as int)[0] == f@[n as int - 3]);
                    assert(f@.subrange(n as int - 3, n as int)[1] == f@[n as int - 2]);
                    assert(f@.subrange(n as int - 3, n as int)[2] == f@[n as int - 1]);
                }
            }
        }
    }
    r
}

/// Whether snapshot entry `i` is the first whose configured path has the
/// same final component as the notification's name.
pub open spec fn match_at(views: Seq<ConfigView>, name: Seq<char>, i: int) -> bool {
    &&& 0 <= i < views.len()
    &&& file_name_spec(views[i].file_path) == file_name_spec(name)
    &&& forall|j: int|
        0 <= j < i ==> file_name_spec((#[trigger] views[j]).file_path) != file_name_spec(name)
}

/// Finds the first snapshot entry matching a notification name, by final
/// path component.  Matching by name rather than full path tolerates
/// directory-relative notification naming.
pub fn find_matching_config(configs: &Vec<HoneyFileConfig>, name: &str) -> (r: Option<usize>)
    ensures
        match r {
            Some(i) => match_at(configs.deep_view(), name@, i as int),
            None => forall|i: int| !match_at(configs.deep_view(), name@, i),
        },
{
    let target = file_name_of(name);
    let mut i: usize = 0;
    while i < configs.len()
        invariant
            i <= configs@.len(),
            target@ == file_name_spec(name@),
            forall|j: int|
                0 <= j < i ==> file_name_spec(
                    (#[trigger] configs.deep_view()[j]).file_path,
                ) != file_name_spec(name@),
        decreases configs@.len() - i,
    {
        let candidate = file_name_of(configs[i].file_path.as_str());
        if crate::chars::str_eq(candidate, target) {
            proof {
                assert(configs.deep_view()[i as int] == configs@[i as int]@);
            }
            return Some(i);
        }
        proof {
            assert(configs.deep_view()[i as int] == configs@[i as int]@);
        }
        i += 1;
    }
    None
}

/// The model of an optional owned string.
pub open spec fn opt_str_view(o: Option<String>) -> Option<Seq<char>> {
    match o {
        Option::Some(h) => Option::Some(h@),
        Option::None => Option::None,
    }
}

/// What one engine step guarantees: the emitted event carries the
/// notification's name, its classification and no process attribution, and
/// the planned response is the handler of the first matching entry, if that
/// entry configured one.
pub open spec fn step_post(
    views: Seq<ConfigView>,
    name: Seq<char>,
    note: RawNotification,
    ev: crate::event::EventView,
    handler: Option<Seq<char>>,
) -> bool {
    &&& ev.file_path == name
    &&& ev.event_type == classify_spec(note)
    &&& ev.process_info is None
    &&& ((forall|k: int| !match_at(views, name, k)) ==> handler is None)
    &&& forall|k: int|
        match_at(views, name, k) ==> match (handler, views[k].script_handler) {
            (Option::Some(h), Option::Some(s)) => h == s,
            (Option::None, Option::None) => true,
            _ => false,
        }
}

/// The engine's step for one raw notification: the event it emits, and the
/// response handler to run first, if the matching entry configured one.
/// The event is produced whatever the handler later does: handler failures
/// are isolated by design and never stop delivery.
pub fn handle_notification(configs: &Vec<HoneyFileConfig>, name: &str, note: &RawNotification) -> (r:
    (FileEvent, Option<String>))
    ensures
        step_post(configs.deep_view(), name@, *note, r.0@, opt_str_view(r.1)),
{
    let event_type = classify(note);
    let event = FileEvent::new(String::from_str(name), event_type);
    let handler: Option<String> = match find_matching_config(configs, name) {
        Some(i) => {
            proof {
                let views = configs.deep_view();
                assert(views[i as int] == configs@[i as int]@);
                assert forall|k: int| match_at(views, name@, k) implies k == i as int by {
                    if k < i as int {
                        assert(file_name_spec((#[trigger] views[k]).file_path) != file_name_spec(
                            name@,
                        ));
                    } else if k > i as int {
                        assert(file_name_spec(views[i as int].file_path) != file_name_spec(name@));
                    }
                }
            }
            match &configs[i].script_handler {
                Some(h) => Some(h.clone()),
                None => None,
            }
        },
        None => None,
    };
    (event, handler)
}

/// The engine's steps for one burst of raw notifications, in the order the
/// OS notification source produced them: the emitted events keep that
/// order, one per notification, whatever each planned handler later does.
pub fn handle_notifications(
    configs: &Vec<HoneyFileConfig>,
    notes: &Vec<(String, RawNotification)>,
) -> (r: Vec<(FileEvent, Option<String>)>)
    ensures
        r@.len() == notes@.len(),
        forall|i: int|
            0 <= i < notes@.len() ==> step_post(
                configs.deep_view(),
                (#[trigger] notes@[i]).0@,
                notes@[i].1,
                r@[i].0@,
                opt_str_view(r@[i].1),
            ),
{
    let mut r: Vec<(FileEvent, Option<String>)> = Vec::new();
    let mut i: usize = 0;
    while i < notes.len()
        invariant
            i <= notes@.len(),
            r@.len() == i,
            forall|j: int|
                0 <= j < i ==> step_post(
                    configs.deep_view(),
                    (#[trigger] notes@[j]).0@,
                    notes@[j].1,
                    r@[j].0@,
                    opt_str_view(r@[j].1),
                ),
        decreases notes@.len() - i,
    {
        let step = handle_notification(configs, notes[i].0.as_str(), &notes[i].1);
        r.push(step);
        i += 1;
    }
    r
}

/// The names and values of the environment the response handler is invoked
/// with: the affected path, the event-type label, and the timestamp in
/// decimal seconds.
pub fn handler_env(event: &FileEvent) -> (r: Vec<(String, String)>)
    ensures
        r@.len() == 3,
        r@[0].0@ == "HONEY_FILE_PATH"@ && r@[0].1@ == event@.file_path,
        r@[1].0@ == "HONEY_EVENT_TYPE"@ && r@[1].1@ == event@.event_type.label(),
        r@[2].0@ == "HONEY_TIMESTAMP"@ && r@[2].1@ == dec_rep(event@.timestamp as nat),
{
    let mut r: Vec<(String, String)> = Vec::new();
    r.push((String::from_str("HONEY_FILE_PATH"), event.file_path.clone()));
    r.push((String::from_str("HONEY_EVENT_TYPE"), String::from_str(event.event_type.as_str())));
    r.push((String::from_str("HONEY_TIMESTAMP"), u64_to_string(event.timestamp)));
    r
}

} // verus!
