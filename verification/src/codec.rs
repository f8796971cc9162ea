//! The persisted record form of configurations and events.
//!
//! A record is a field-keyed, human-diffable text: one line per attribute,
//! free-text values carried behind a decimal length prefix so that any
//! content round-trips, and event types written as their canonical labels,
//! never as integers.

use vstd::prelude::*;
use vstd::string::StrSliceExecFns;
use vstd::string::StringExecFns;

use crate::config::ConfigView;
use crate::config::HoneyFileConfig;
use crate::event::EventType;
use crate::event::EventView;
use crate::event::FileEvent;
use crate::numrep::dec_rep;
use crate::numrep::is_digit;
use crate::numrep::lemma_dec_rep_digits;
use crate::numrep::lemma_parse_dec_of_rep;
use crate::numrep::parse_dec;
use crate::numrep::parse_dec_rec;
use crate::numrep::parse_u64_at;
use crate::numrep::u64_to_string;

verus! {

/// A free-text value: its length in decimal, a colon, then the text itself.
pub open spec fn len_str(s: Seq<char>) -> Seq<char> {
    dec_rep(s.len()) + ":"@ + s
}

/// An optional free-text value: `-` for none.
pub open spec fn opt_len_str(o: Option<Seq<char>>) -> Seq<char> {
    match o {
        Option::Some(s) => len_str(s),
        Option::None => "-"@,
    }
}

pub open spec fn bool_str(b: bool) -> Seq<char> {
    if b {
        "true"@
    } else {
        "false"@
    }
}

/// Event-type labels joined by commas.
pub open spec fn labels_str(s: Seq<EventType>) -> Seq<char>
    decreases s.len(),
{
    if s.len() == 0 {
        Seq::empty()
    } else if s.len() == 1 {
        s[0].label()
    } else {
        labels_str(s.drop_last()) + ","@ + s.last().label()
    }
}

/// The record form of a configuration.
pub open spec fn encode_config_spec(c: ConfigView) -> Seq<char> {
    "path="@ + len_str(c.file_path) + "\nenabled="@ + bool_str(c.enabled) + "\nevents="@
        + labels_str(c.monitored_events) + "\nhandler="@ + opt_len_str(c.script_handler)
        + "\ndescription="@ + len_str(c.description) + "\n"@
}

/// Consumes a fixed literal at position `i`.
pub open spec fn expect_lit(s: Seq<char>, i: int, lit: Seq<char>) -> Option<int> {
    if 0 <= i && i + lit.len() <= s.len() && s.subrange(i, i + lit.len()) == lit {
        Some(i + lit.len())
    } else {
        None
    }
}

/// Reads a length-prefixed value at position `i`.
pub open spec fn parse_len_str(s: Seq<char>, i: int) -> Option<(Seq<char>, int)> {
    match parse_dec(s, i) {
        Option::Some((n, j)) => if j < s.len() && s[j] == ':' && j + 1 + n <= s.len() {
            Some((s.subrange(j + 1, j + 1 + n), j + 1 + n))
        } else {
            None
        },
        Option::None => None,
    }
}

/// Reads an optional length-prefixed value at position `i`.
pub open spec fn parse_opt_len_str(s: Seq<char>, i: int) -> Option<(Option<Seq<char>>, int)> {
    if 0 <= i < s.len() && s[i] == '-' {
        Some((Option::None, i + 1))
    } else {
        match parse_len_str(s, i) {
            Option::Some((v, j)) => Some((Option::Some(v), j)),
            Option::None => None,
        }
    }
}

/// Reads `true` or `false` at position `i`.
pub open spec fn parse_bool(s: Seq<char>, i: int) -> Option<(bool, int)> {
    if expect_lit(s, i, "true"@) is Some {
        Some((true, i + "true"@.len()))
    } else if expect_lit(s, i, "false"@) is Some {
        Some((false, i + "false"@.len()))
    } else {
        None
    }
}

/// Reads one event-type label at position `i`.
pub open spec fn parse_label(s: Seq<char>, i: int) -> Option<(EventType, int)> {
    if expect_lit(s, i, "Read"@) is Some {
        Some((EventType::Read, i + "Read"@.len()))
    } else if expect_lit(s, i, "Write"@) is Some {
        Some((EventType::Write, i + "Write"@.len()))
    } else if expect_lit(s, i, "Execute"@) is Some {
        Some((EventType::Execute, i + "Execute"@.len()))
    } else if expect_lit(s, i, "Access"@) is Some {
        Some((EventType::Access, i + "Access"@.len()))
    } else if expect_lit(s, i, "Modify"@) is Some {
        Some((EventType::Modify, i + "Modify"@.len()))
    } else if expect_lit(s, i, "Create"@) is Some {
        Some((EventType::Create, i + "Create"@.len()))
    } else if expect_lit(s, i, "Delete"@) is Some {
        Some((EventType::Delete, i + "Delete"@.len()))
    } else {
        None
    }
}

/// Every label is at least four characters long.
pub proof fn lemma_parse_label_advances(s: Seq<char>, i: int)
    ensures
        match parse_label(s, i) {
            Option::Some((e, j)) => j >= i + 4,
            Option::None => true,
        },
{
    crate::event::lemma_label_facts();
}

/// Reads a comma-separated list of labels at position `i`, stopping before
/// a newline; the list may be empty only directly before a newline.
pub open spec fn parse_labels(s: Seq<char>, i: int) -> Option<(Seq<EventType>, int)>
    decreases s.len() - i,
{
    if !(0 <= i < s.len()) {
        None
    } else if s[i] == '\n' {
        Some((Seq::empty(), i))
    } else {
        match parse_label(s, i) {
            Option::Some((e, j)) => if j < s.len() && s[j] == ',' {
                // A label is never empty, so `j > i` always holds; the guard
                // keeps the recursion visibly decreasing.
                if j + 1 > i {
                    match parse_labels(s, j + 1) {
                        Option::Some((rest, k)) => Some((seq![e] + rest, k)),
                        Option::None => None,
                    }
                } else {
                    None
                }
            } else {
                Some((seq![e], j))
            },
            Option::None => None,
        }
    }
}

/// Reads a whole configuration record; the record must be consumed exactly.
pub open spec fn decode_config_spec(s: Seq<char>) -> Option<ConfigView> {
    match expect_lit(s, 0, "path="@) {
        Option::Some(i1) => match parse_len_str(s, i1) {
            Option::Some((path, i2)) => match expect_lit(s, i2, "\nenabled="@) {
                Option::Some(i3) => match parse_bool(s, i3) {
                    Option::Some((enabled, i4)) => match expect_lit(s, i4, "\nevents="@) {
                        Option::Some(i5) => match parse_labels(s, i5) {
                            Option::Some((events, i6)) => match expect_lit(s, i6, "\nhandler="@) {
                                Option::Some(i7) => match parse_opt_len_str(s, i7) {
                                    Option::Some((handler, i8)) => match expect_lit(
                                        s,
                                        i8,
                                        "\ndescription="@,
                                    ) {
                                        Option::Some(i9) => match parse_len_str(s, i9) {
                                            Option::Some((desc, i10)) => match expect_lit(
                                                s,
                                                i10,
                                                "\n"@,
                                            ) {
                                                Option::Some(i11) => if i11 == s.len() {
                                                    Some(
                                                        ConfigView {
                                                            file_path: path,
                                                            enabled,
                                                            monitored_events: events,
                                                            script_handler: handler,
                                                            description: desc,
                                                        },
                                                    )
                                                } else {
                                                    None
                                                },
                                                Option::None => None,
                                            },
                                            Option::None => None,
                                        },
                                        Option::None => None,
                                    },
                                    Option::None => None,
                                },
                                Option::None => None,
                            },
                            Option::None => None,
                        },
                        Option::None => None,
                    },
                    Option::None => None,
                },
                Option::None => None,
            },
            Option::None => None,
        },
        Option::None => None,
    }
}

/// The record form of an emitted event.
pub open spec fn encode_event_spec(e: EventView) -> Seq<char> {
    "path="@ + len_str(e.file_path) + "\ntype="@ + e.event_type.label() + "\ntimestamp="@
        + dec_rep(e.timestamp as nat) + "\nprocess="@ + opt_len_str(e.process_info) + "\n"@
}

/// Reads a whole event record; the record must be consumed exactly.
pub open spec fn decode_event_spec(s: Seq<char>) -> Option<EventView> {
    match expect_lit(s, 0, "path="@) {
        Option::Some(i1) => match parse_len_str(s, i1) {
            Option::Some((path, i2)) => match expect_lit(s, i2, "\ntype="@) {
                Option::Some(i3) => match parse_label(s, i3) {
                    Option::Some((event_type, i4)) => match expect_lit(s, i4, "\ntimestamp="@) {
                        Option::Some(i5) => match parse_dec(s, i5) {
                            Option::Some((ts, i6)) => if ts <= u64::MAX {
                                match expect_lit(s, i6, "\nprocess="@) {
                                    Option::Some(i7) => match parse_opt_len_str(s, i7) {
                                        Option::Some((process_info, i8)) => match expect_lit(
                                            s,
                                            i8,
                                            "\n"@,
                                        ) {
                                            Option::Some(i9) => if i9 == s.len() {
                                                Some(
                                                    EventView {
                                                        file_path: path,
                                                        event_type,
                                                        timestamp: ts as u64,
                                                        process_info,
                                                    },
                                                )
                                            } else {
                                                None
                                            },
                                            Option::None => None,
                                        },
                                        Option::None => None,
                                    },
                                    Option::None => None,
                                }
                            } else {
                                None
                            },
                            Option::None => None,
                        },
                        Option::None => None,
                    },
                    Option::None => None,
                },
                Option::None => None,
            },
            Option::None => None,
        },
        Option::None => None,
    }
}

/// A literal cannot match where the first characters differ.
proof fn lemma_expect_lit_mismatch(s: Seq<char>, i: int, lit: Seq<char>, c: char)
    requires
        0 <= i < s.len(),
        s[i] == c,
        lit.len() >= 1,
        lit[0] != c,
    ensures
        expect_lit(s, i, lit) is None,
{
    if 0 <= i && i + lit.len() <= s.len() && s.subrange(i, i + lit.len()) == lit {
        assert(s.subrange(i, i + lit.len())[0] == s[i]);
    }
}

/// Every label starts with its distinguishing letter, is at least four
/// characters long, and holds neither a newline nor a comma first.
proof fn lemma_label_head(e: EventType)
    ensures
        e.label().len() >= 4,
        e.label()[0] != '\n',
        e.label()[0] != ',',
        e.label()[0] != ':',
{
    crate::event::lemma_label_facts();
    match e {
        EventType::Read => assert(e.label()[0] == 'R'),
        EventType::Write => assert(e.label()[0] == 'W'),
        EventType::Execute => assert(e.label()[0] == 'E'),
        EventType::Access => assert(e.label()[0] == 'A'),
        EventType::Modify => assert(e.label()[0] == 'M'),
        EventType::Create => assert(e.label()[0] == 'C'),
        EventType::Delete => assert(e.label()[0] == 'D'),
    }
}

/// A length-prefixed value written at position `i` reads back exactly.
proof fn lemma_parse_len_str_at(s: Seq<char>, i: int, content: Seq<char>)
    requires
        0 <= i,
        i + len_str(content).len() <= s.len(),
        s.subrange(i, i + len_str(content).len()) == len_str(content),
    ensures
        parse_len_str(s, i) == Some((content, i + len_str(content).len())),
{
    reveal_strlit(":");
    let rep = dec_rep(content.len());
    let piece = len_str(content);
    assert(piece.len() == rep.len() + 1 + content.len());
    let j = i + rep.len();
    assert(s.subrange(i, i + rep.len()) =~= rep) by {
        assert forall|k: int| 0 <= k < rep.len() implies s.subrange(i, i + rep.len())[k]
            == rep[k] by {
            assert(s.subrange(i, i + piece.len())[k] == s[i + k]);
            assert(piece[k] == rep[k]);
        }
    }
    assert(s[j] == ':') by {
        assert(s.subrange(i, i + piece.len())[rep.len() as int] == s[j]);
        assert(piece[rep.len() as int] == ':');
    }
    assert(!is_digit(':'));
    lemma_parse_dec_of_rep(s, i, content.len());
    assert(parse_dec(s, i) == Some((content.len(), j)));
    assert(s.subrange(j + 1, j + 1 + content.len()) =~= content) by {
        assert forall|k: int| 0 <= k < content.len() implies s.subrange(
            j + 1,
            j + 1 + content.len(),
        )[k] == content[k] by {
            assert(s.subrange(i, i + piece.len())[rep.len() + 1 + k] == s[j + 1 + k]);
            assert(piece[rep.len() + 1 + k] == content[k]);
        }
    }
}

/// A boolean written at position `i` reads back exactly.
proof fn lemma_parse_bool_at(s: Seq<char>, i: int, b: bool)
    requires
        0 <= i,
        i + bool_str(b).len() <= s.len(),
        s.subrange(i, i + bool_str(b).len()) == bool_str(b),
    ensures
        parse_bool(s, i) == Some((b, i + bool_str(b).len())),
{
    reveal_strlit("true");
    reveal_strlit("false");
    if b {
        assert(expect_lit(s, i, "true"@) is Some);
    } else {
        assert(s.subrange(i, i + 5)[0] == s[i]);
        assert(s[i] == 'f');
        lemma_expect_lit_mismatch(s, i, "true"@, 'f');
        assert(expect_lit(s, i, "false"@) is Some);
    }
}

/// A label written at position `i` reads back exactly.
proof fn lemma_parse_label_at(s: Seq<char>, i: int, e: EventType)
    requires
        0 <= i,
        i + e.label().len() <= s.len(),
        s.subrange(i, i + e.label().len()) == e.label(),
    ensures
        parse_label(s, i) == Some((e, i + e.label().len())),
{
    crate::event::lemma_label_facts();
    lemma_label_head(e);
    assert(s.subrange(i, i + e.label().len())[0] == s[i]);
    assert(s[i] == e.label()[0]);
    match e {
        EventType::Read => {
            assert(expect_lit(s, i, "Read"@) is Some);
        },
        EventType::Write => {
            lemma_expect_lit_mismatch(s, i, "Read"@, 'W');
            assert(expect_lit(s, i, "Write"@) is Some);
        },
        EventType::Execute => {
            lemma_expect_lit_mismatch(s, i, "Read"@, 'E');
            lemma_expect_lit_mismatch(s, i, "Write"@, 'E');
            assert(expect_lit(s, i, "Execute"@) is Some);
        },
        EventType::Access => {
            lemma_expect_lit_mismatch(s, i, "Read"@, 'A');
            lemma_expect_lit_mismatch(s, i, "Write"@, 'A');
            lemma_expect_lit_mismatch(s, i, "Execute"@, 'A');
            assert(expect_lit(s, i, "Access"@) is Some);
        },
        EventType::Modify => {
            lemma_expect_lit_mismatch(s, i, "Read"@, 'M');
            lemma_expect_lit_mismatch(s, i, "Write"@, 'M');
            lemma_expect_lit_mismatch(s, i, "Execute"@, 'M');
            lemma_expect_lit_mismatch(s, i, "Access"@, 'M');
            assert(expect_lit(s, i, "Modify"@) is Some);
        },
        EventType::Create => {
            lemma_expect_lit_mismatch(s, i, "Read"@, 'C');
            lemma_expect_lit_mismatch(s, i, "Write"@, 'C');
            lemma_expect_lit_mismatch(s, i, "Execute"@, 'C');
            lemma_expect_lit_mismatch(s, i, "Access"@, 'C');
            lemma_expect_lit_mismatch(s, i, "Modify"@, 'C');
            assert(expect_lit(s, i, "Create"@) is Some);
        },
        EventType::Delete => {
            lemma_expect_lit_mismatch(s, i, "Read"@, 'D');
            lemma_expect_lit_mismatch(s, i, "Write"@, 'D');
            lemma_expect_lit_mismatch(s, i, "Execute"@, 'D');
            lemma_expect_lit_mismatch(s, i, "Access"@, 'D');
            lemma_expect_lit_mismatch(s, i, "Modify"@, 'D');
            lemma_expect_lit_mismatch(s, i, "Create"@, 'D');
            assert(expect_lit(s, i, "Delete"@) is Some);
        },
    }
}

/// The label list decomposes from the front as well.
proof fn lemma_labels_str_front(s: Seq<EventType>)
    requires
        s.len() >= 1,
    ensures
        s.len() == 1 ==> labels_str(s) == s[0].label(),
        s.len() >= 2 ==> labels_str(s) == s[0].label() + ","@ + labels_str(
            s.subrange(1, s.len() as int),
        ),
    decreases s.len(),
{
    if s.len() == 2 {
        assert(s.drop_last() =~= seq![s[0]]);
        assert(labels_str(s.drop_last()) == s[0].label());
        let tail = s.subrange(1, 2);
        assert(tail =~= seq![s[1]]);
        assert(labels_str(tail) == s[1].label());
        assert(s.last() == s[1]);
    } else if s.len() > 2 {
        let dl = s.drop_last();
        lemma_labels_str_front(dl);
        let tail = s.subrange(1, s.len() as int);
        assert(tail.drop_last() =~= dl.subrange(1, dl.len() as int));
        assert(tail.last() == s.last());
        assert(labels_str(tail) == labels_str(tail.drop_last()) + ","@ + tail.last().label());
        assert(dl[0] == s[0]);
        assert(labels_str(s) == (s[0].label() + ","@ + labels_str(tail.drop_last())) + ","@
            + s.last().label());
        assert((s[0].label() + ","@ + labels_str(tail.drop_last())) + ","@ + s.last().label() =~= s[0].label()
            + ","@ + labels_str(tail));
    }
}

/// A label list written at position `i`, followed by a newline, reads back
/// exactly.
proof fn lemma_parse_labels_at(s: Seq<char>, i: int, evts: Seq<EventType>)
    requires
        0 <= i,
        i + labels_str(evts).len() < s.len(),
        s.subrange(i, i + labels_str(evts).len()) == labels_str(evts),
        s[i + labels_str(evts).len()] == '\n',
    ensures
        parse_labels(s, i) == Some((evts, i + labels_str(evts).len())),
    decreases evts.len(),
{
    reveal_strlit(",");
    let piece = labels_str(evts);
    if evts.len() == 0 {
        assert(s[i] == '\n');
    } else {
        lemma_labels_str_front(evts);
        let e0 = evts[0];
        lemma_label_head(e0);
        let l0 = e0.label().len() as int;
        assert(s.subrange(i, i + l0) =~= e0.label()) by {
            assert forall|k: int| 0 <= k < l0 implies s.subrange(i, i + l0)[k]
                == e0.label()[k] by {
                assert(s.subrange(i, i + piece.len())[k] == s[i + k]);
                assert(piece[k] == e0.label()[k]);
            }
        }
        lemma_parse_label_at(s, i, e0);
        assert(s[i] == e0.label()[0]);
        assert(s[i] != '\n');
        let j = i + l0;
        if evts.len() == 1 {
            assert(piece == e0.label());
            assert(s[j] == '\n');
            assert(seq![e0] =~= evts);
        } else {
            let tail = evts.subrange(1, evts.len() as int);
            assert(piece == e0.label() + ","@ + labels_str(tail));
            assert(piece.len() == l0 + 1 + labels_str(tail).len());
            assert(s[j] == ',') by {
                assert(s.subrange(i, i + piece.len())[l0] == s[j]);
                assert(piece[l0] == ',');
            }
            assert(s.subrange(j + 1, j + 1 + labels_str(tail).len()) =~= labels_str(tail)) by {
                assert forall|k: int| 0 <= k < labels_str(tail).len() implies s.subrange(
                    j + 1,
                    j + 1 + labels_str(tail).len(),
                )[k] == labels_str(tail)[k] by {
                    assert(s.subrange(i, i + piece.len())[l0 + 1 + k] == s[j + 1 + k]);
                    assert(piece[l0 + 1 + k] == labels_str(tail)[k]);
                }
            }
            assert(s[j + 1 + labels_str(tail).len()] == '\n');
            lemma_parse_labels_at(s, j + 1, tail);
            assert(seq![e0] + tail =~= evts);
        }
    }
}

/// An optional value written at position `i` reads back exactly.
proof fn lemma_parse_opt_len_str_at(s: Seq<char>, i: int, o: Option<Seq<char>>)
    requires
        0 <= i,
        i + opt_len_str(o).len() <= s.len(),
        s.subrange(i, i + opt_len_str(o).len()) == opt_len_str(o),
    ensures
        parse_opt_len_str(s, i) == Some((o, i + opt_len_str(o).len())),
{
    reveal_strlit("-");
    match o {
        Option::None => {
            assert(s.subrange(i, i + 1)[0] == s[i]);
            assert(s[i] == '-');
        },
        Option::Some(content) => {
            lemma_dec_rep_digits(content.len());
            assert(s.subrange(i, i + opt_len_str(o).len())[0] == s[i]);
            assert(s[i] == dec_rep(content.len())[0]);
            assert(is_digit(s[i]));
            assert(s[i] != '-');
            lemma_parse_len_str_at(s, i, content);
        },
    }
}

/// Decoding a configuration's record gives the configuration back: the
/// record form loses nothing, whatever the paths, description, handler and
/// monitored events hold.
pub proof fn lemma_config_record_roundtrip(c: ConfigView)
    ensures
        decode_config_spec(encode_config_spec(c)) == Some(c),
{
    reveal_strlit("\nhandler=");
    let a1 = "path="@;
    let a2 = len_str(c.file_path);
    let a3 = "\nenabled="@;
    let a4 = bool_str(c.enabled);
    let a5 = "\nevents="@;
    let a6 = labels_str(c.monitored_events);
    let a7 = "\nhandler="@;
    let a8 = opt_len_str(c.script_handler);
    let a9 = "\ndescription="@;
    let a10 = len_str(c.description);
    let a11 = "\n"@;
    let s = encode_config_spec(c);
    assert(s == a1 + a2 + a3 + a4 + a5 + a6 + a7 + a8 + a9 + a10 + a11);
    let o1 = a1.len() as int;
    let o2 = o1 + a2.len();
    let o3 = o2 + a3.len();
    let o4 = o3 + a4.len();
    let o5 = o4 + a5.len();
    let o6 = o5 + a6.len();
    let o7 = o6 + a7.len();
    let o8 = o7 + a8.len();
    let o9 = o8 + a9.len();
    let o10 = o9 + a10.len();
    let o11 = o10 + a11.len();
    assert(s.len() == o11);
    assert(s.subrange(0, o1) =~= a1);
    assert(s.subrange(o1, o2) =~= a2);
    assert(s.subrange(o2, o3) =~= a3);
    assert(s.subrange(o3, o4) =~= a4);
    assert(s.subrange(o4, o5) =~= a5);
    assert(s.subrange(o5, o6) =~= a6);
    assert(s.subrange(o6, o7) =~= a7);
    assert(s.subrange(o7, o8) =~= a8);
    assert(s.subrange(o8, o9) =~= a9);
    assert(s.subrange(o9, o10) =~= a10);
    assert(s.subrange(o10, o11) =~= a11);
    assert(expect_lit(s, 0, a1) == Some(o1));
    lemma_parse_len_str_at(s, o1, c.file_path);
    assert(expect_lit(s, o2, a3) == Some(o3));
    lemma_parse_bool_at(s, o3, c.enabled);
    assert(expect_lit(s, o4, a5) == Some(o5));
    assert(s[o6] == s.subrange(o6, o7)[0]);
    assert(s[o6] == '\n');
    lemma_parse_labels_at(s, o5, c.monitored_events);
    assert(expect_lit(s, o6, a7) == Some(o7));
    lemma_parse_opt_len_str_at(s, o7, c.script_handler);
    assert(expect_lit(s, o8, a9) == Some(o9));
    lemma_parse_len_str_at(s, o9, c.description);
    assert(expect_lit(s, o10, a11) == Some(o11));
    assert(decode_config_spec(s) == Some(
        ConfigView {
            file_path: c.file_path,
            enabled: c.enabled,
            monitored_events: c.monitored_events,
            script_handler: c.script_handler,
            description: c.description,
        },
    ));
    assert(ConfigView {
        file_path: c.file_path,
        enabled: c.enabled,
        monitored_events: c.monitored_events,
        script_handler: c.script_handler,
        description: c.description,
    } =~= c);
}

/// Decoding an event's record gives the event back.
pub proof fn lemma_event_record_roundtrip(e: EventView)
    ensures
        decode_event_spec(encode_event_spec(e)) == Some(e),
{
    reveal_strlit("\nprocess=");
    let a1 = "path="@;
    let a2 = len_str(e.file_path);
    let a3 = "\ntype="@;
    let a4 = e.event_type.label();
    let a5 = "\ntimestamp="@;
    let a6 = dec_rep(e.timestamp as nat);
    let a7 = "\nprocess="@;
    let a8 = opt_len_str(e.process_info);
    let a9 = "\n"@;
    let s = encode_event_spec(e);
    assert(s == a1 + a2 + a3 + a4 + a5 + a6 + a7 + a8 + a9);
    let o1 = a1.len() as int;
    let o2 = o1 + a2.len();
    let o3 = o2 + a3.len();
    let o4 = o3 + a4.len();
    let o5 = o4 + a5.len();
    let o6 = o5 + a6.len();
    let o7 = o6 + a7.len();
    let o8 = o7 + a8.len();
    let o9 = o8 + a9.len();
    assert(s.len() == o9);
    assert(s.subrange(0, o1) =~= a1);
    assert(s.subrange(o1, o2) =~= a2);
    assert(s.subrange(o2, o3) =~= a3);
    assert(s.subrange(o3, o4) =~= a4);
    assert(s.subrange(o4, o5) =~= a5);
    assert(s.subrange(o5, o6) =~= a6);
    assert(s.subrange(o6, o7) =~= a7);
    assert(s.subrange(o7, o8) =~= a8);
    assert(s.subrange(o8, o9) =~= a9);
    assert(expect_lit(s, 0, a1) == Some(o1));
    lemma_parse_len_str_at(s, o1, e.file_path);
    assert(expect_lit(s, o2, a3) == Some(o3));
    lemma_parse_label_at(s, o3, e.event_type);
    assert(expect_lit(s, o4, a5) == Some(o5));
    assert(s[o6] == s.subrange(o6, o7)[0]);
    assert(s[o6] == '\n');
    assert(!is_digit('\n'));
    lemma_parse_dec_of_rep(s, o5, e.timestamp as nat);
    assert(parse_dec(s, o5) == Some((e.timestamp as nat, o6)));
    assert(expect_lit(s, o6, a7) == Some(o7));
    lemma_parse_opt_len_str_at(s, o7, e.process_info);
    assert(expect_lit(s, o8, a9) == Some(o9));
    assert(decode_event_spec(s) == Some(
        EventView {
            file_path: e.file_path,
            event_type: e.event_type,
            timestamp: e.timestamp,
            process_info: e.process_info,
        },
    ));
    assert(EventView {
        file_path: e.file_path,
        event_type: e.event_type,
        timestamp: e.timestamp,
        process_info: e.process_info,
    } =~= e);
}

impl FileEvent {
    /// Writes this event in its record form.
    pub fn to_record(&self) -> (r: String)
        ensures
            r@ == encode_event_spec(self@),
    {
        let mut out = String::from_str("path=");
        append_len_str(&mut out, self.file_path.as_str());
        out.append("\ntype=");
        out.append(self.event_type.as_str());
        out.append("\ntimestamp=");
        let ts = u64_to_string(self.timestamp);
        out.append(ts.as_str());
        out.append("\nprocess=");
        match &self.process_info {
            Option::Some(p) => append_len_str(&mut out, p.as_str()),
            Option::None => out.append("-"),
        }
        out.append("\n");
        proof {
            assert(out@ =~= encode_event_spec(self@));
        }
        out
    }

    /// Reads an event back from its record form.  Returns the event exactly
    /// when the text is a well-formed record, read in full; anything else
    /// gives nothing.
    pub fn from_record(s: &str) -> (r: Option<FileEvent>)
        ensures
            match r {
                Option::Some(e) => decode_event_spec(s@) == Some(e@),
                Option::None => decode_event_spec(s@) is None,
            },
    {
        let i1 = match expect_lit_at(s, 0, "path=") {
            Option::Some(j) => j,
            Option::None => {
                return None;
            },
        };
        let (path, i2) = match parse_len_str_at(s, i1) {
            Option::Some(p) => p,
            Option::None => {
                return None;
            },
        };
        let i3 = match expect_lit_at(s, i2, "\ntype=") {
            Option::Some(j) => j,
            Option::None => {
                return None;
            },
        };
        let (event_type, i4) = match parse_label_at(s, i3) {
            Option::Some(p) => p,
            Option::None => {
                return None;
            },
        };
        let i5 = match expect_lit_at(s, i4, "\ntimestamp=") {
            Option::Some(j) => j,
            Option::None => {
                return None;
            },
        };
        let (timestamp, i6) = match parse_u64_at(s, i5) {
            Option::Some(p) => p,
            Option::None => {
                return None;
            },
        };
        let i7 = match expect_lit_at(s, i6, "\nprocess=") {
            Option::Some(j) => j,
            Option::None => {
                return None;
            },
        };
        let (process_info, i8) = match parse_opt_len_str_at(s, i7) {
            Option::Some(p) => p,
            Option::None => {
                return None;
            },
        };
        let i9 = match expect_lit_at(s, i8, "\n") {
            Option::Some(j) => j,
            Option::None => {
                return None;
            },
        };
        if i9 != s.unicode_len() {
            return None;
        }
        let e = FileEvent { file_path: path, event_type, timestamp, process_info };
        proof {
            assert(decode_event_spec(s@) == Some(e@)) by {
                assert(e@ =~= decode_event_spec(s@).unwrap());
            }
        }
        Some(e)
    }
}

/// Appends a length-prefixed value.
fn append_len_str(out: &mut String, s: &str)
    ensures
        final(out)@ == old(out)@ + len_str(s@),
{
    let n = s.unicode_len();
    let num = u64_to_string(n as u64);
    out.append(num.as_str());
    out.append(":");
    out.append(s);
    proof {
        assert(out@ =~= old(out)@ + len_str(s@));
    }
}

/// Appends the comma-joined labels of a list of event types.
fn append_labels(out: &mut String, events: &Vec<EventType>)
    ensures
        final(out)@ == old(out)@ + labels_str(events@),
{
    if events.len() == 0 {
        proof {
            assert(out@ =~= old(out)@ + labels_str(events@));
        }
        return ;
    }
    out.append(events[0].as_str());
    proof {
        assert(events@.subrange(0, 1) =~= seq![events@[0]]);
        assert(out@ =~= old(out)@ + labels_str(events@.subrange(0, 1)));
    }
    let mut i: usize = 1;
    while i < events.len()
        invariant
            1 <= i <= events@.len(),
            out@ == old(out)@ + labels_str(events@.subrange(0, i as int)),
        decreases events@.len() - i,
    {
        out.append(",");
        out.append(events[i].as_str());
        proof {
            let big = events@.subrange(0, i as int + 1);
            assert(big.drop_last() =~= events@.subrange(0, i as int));
            assert(big.last() == events@[i as int]);
            assert(big.len() >= 2);
            assert(labels_str(big) == labels_str(big.drop_last()) + ","@ + big.last().label());
            assert(out@ =~= old(out)@ + labels_str(big));
        }
        i += 1;
    }
    proof {
        assert(events@.subrange(0, events@.len() as int) =~= events@);
    }
}

impl HoneyFileConfig {
    /// Writes this configuration in its record form.
    pub fn to_record(&self) -> (r: String)
        ensures
            r@ == encode_config_spec(self@),
    {
        let mut out = String::from_str("path=");
        append_len_str(&mut out, self.file_path.as_str());
        out.append("\nenabled=");
        if self.enabled {
            out.append("true");
        } else {
            out.append("false");
        }
        out.append("\nevents=");
        append_labels(&mut out, &self.monitored_events);
        out.append("\nhandler=");
        match &self.script_handler {
            Option::Some(h) => append_len_str(&mut out, h.as_str()),
            Option::None => out.append("-"),
        }
        out.append("\ndescription=");
        append_len_str(&mut out, self.description.as_str());
        out.append("\n");
        proof {
            assert(out@ =~= encode_config_spec(self@));
        }
        out
    }

    /// Reads a configuration back from its record form.  Returns the
    /// configuration exactly when the text is a well-formed record, read in
    /// full; anything else gives nothing.
    pub fn from_record(s: &str) -> (r: Option<HoneyFileConfig>)
        ensures
            match r {
                Option::Some(c) => decode_config_spec(s@) == Some(c@),
                Option::None => decode_config_spec(s@) is None,
            },
    {
        let i1 = match expect_lit_at(s, 0, "path=") {
            Option::Some(j) => j,
            Option::None => {
                return None;
            },
        };
        let (path, i2) = match parse_len_str_at(s, i1) {
            Option::Some(p) => p,
            Option::None => {
                return None;
            },
        };
        let i3 = match expect_lit_at(s, i2, "\nenabled=") {
            Option::Some(j) => j,
            Option::None => {
                return None;
            },
        };
        let (enabled, i4) = match parse_bool_at(s, i3) {
            Option::Some(p) => p,
            Option::None => {
                return None;
            },
        };
        let i5 = match expect_lit_at(s, i4, "\nevents=") {
            Option::Some(j) => j,
            Option::None => {
                return None;
            },
        };
        let (events, i6) = match parse_labels_at(s, i5) {
            Option::Some(p) => p,
            Option::None => {
                return None;
            },
        };
        let i7 = match expect_lit_at(s, i6, "\nhandler=") {
            Option::Some(j) => j,
            Option::None => {
                return None;
            },
        };
        let (handler, i8) = match parse_opt_len_str_at(s, i7) {
            Option::Some(p) => p,
            Option::None => {
                return None;
            },
        };
        let i9 = match expect_lit_at(s, i8, "\ndescription=") {
            Option::Some(j) => j,
            Option::None => {
                return None;
            },
        };
        let (desc, i10) = match parse_len_str_at(s, i9) {
            Option::Some(p) => p,
            Option::None => {
                return None;
            },
        };
        let i11 = match expect_lit_at(s, i10, "\n") {
            Option::Some(j) => j,
            Option::None => {
                return None;
            },
        };
        if i11 != s.unicode_len() {
            return None;
        }
        let c = HoneyFileConfig {
            file_path: path,
            enabled,
            monitored_events: events,
            script_handler: handler,
            description: desc,
        };
        proof {
            assert(decode_config_spec(s@) == Some(c@)) by {
                assert(c@ =~= decode_config_spec(s@).unwrap());
            }
        }
        Some(c)
    }
}

/// Consumes a fixed literal at position `i` of a string.
fn expect_lit_at(s: &str, i: usize, lit: &str) -> (r: Option<usize>)
    ensures
        match r {
            Option::Some(j) => expect_lit(s@, i as int, lit@) == Some(j as int),
            Option::None => expect_lit(s@, i as int, lit@) is None,
        },
{
    let n = s.unicode_len();
    let m = lit.unicode_len();
    if i > n || m > n - i {
        return None;
    }
    let mut k: usize = 0;
    while k < m
        invariant
            k <= m,
            i + m <= n,
            n == s@.len(),
            m == lit@.len(),
            forall|j: int| 0 <= j < k ==> s@[i + j] == lit@[j],
        decreases m - k,
    {
        if s.get_char(i + k) != lit.get_char(k) {
            proof {
                if s@.subrange(i as int, i as int + lit@.len()) == lit@ {
                    assert(s@.subrange(i as int, i as int + lit@.len())[k as int] == s@[i + k]);
                }
            }
            return None;
        }
        k += 1;
    }
    proof {
        assert(s@.subrange(i as int, i as int + lit@.len()) =~= lit@);
    }
    Some(i + m)
}

/// Reads a length-prefixed value at position `i` of a string.
fn parse_len_str_at(s: &str, i: usize) -> (r: Option<(String, usize)>)
    ensures
        match r {
            Option::Some((v, j)) => parse_len_str(s@, i as int) == Some((v@, j as int)),
            Option::None => parse_len_str(s@, i as int) is None,
        },
{
    let n = s.unicode_len();
    match parse_u64_at(s, i) {
        Option::None => {
            proof {
                if let Option::Some((v, j)) = parse_dec(s@, i as int) {
                    assert(v > u64::MAX);
                    crate::numrep::lemma_parse_dec_rec_end_ge(s@, i as int, 0);
                    assert(j >= i);
                    assert(j + 1 + v > s@.len());
                }
            }
            None
        },
        Option::Some((v, j)) => {
            if j >= n {
                return None;
            }
            if s.get_char(j) != ':' {
                return None;
            }
            let rem = n - (j + 1);
            if v > rem as u64 {
                return None;
            }
            let vz = v as usize;
            let content = s.substring_char(j + 1, j + 1 + vz);
            let owned = String::from_str(content);
            Some((owned, j + 1 + vz))
        },
    }
}

/// Reads `true` or `false` at position `i` of a string.
fn parse_bool_at(s: &str, i: usize) -> (r: Option<(bool, usize)>)
    ensures
        match r {
            Option::Some((b, j)) => parse_bool(s@, i as int) == Some((b, j as int)),
            Option::None => parse_bool(s@, i as int) is None,
        },
{
    match expect_lit_at(s, i, "true") {
        Option::Some(j) => Some((true, j)),
        Option::None => match expect_lit_at(s, i, "false") {
            Option::Some(j) => Some((false, j)),
            Option::None => None,
        },
    }
}

/// Reads one event-type label at position `i` of a string.
fn parse_label_at(s: &str, i: usize) -> (r: Option<(EventType, usize)>)
    ensures
        match r {
            Option::Some((e, j)) => parse_label(s@, i as int) == Some((e, j as int)),
            Option::None => parse_label(s@, i as int) is None,
        },
{
    match expect_lit_at(s, i, "Read") {
        Option::Some(j) => {
            return Some((EventType::Read, j));
        },
        Option::None => {},
    }
    match expect_lit_at(s, i, "Write") {
        Option::Some(j) => {
            return Some((EventType::Write, j));
        },
        Option::None => {},
    }
    match expect_lit_at(s, i, "Execute") {
        Option::Some(j) => {
            return Some((EventType::Execute, j));
        },
        Option::None => {},
    }
    match expect_lit_at(s, i, "Access") {
        Option::Some(j) => {
            return Some((EventType::Access, j));
        },
        Option::None => {},
    }
    match expect_lit_at(s, i, "Modify") {
        Option::Some(j) => {
            return Some((EventType::Modify, j));
        },
        Option::None => {},
    }
    match expect_lit_at(s, i, "Create") {
        Option::Some(j) => {
            return Some((EventType::Create, j));
        },
        Option::None => {},
    }
    match expect_lit_at(s, i, "Delete") {
        Option::Some(j) => {
            return Some((EventType::Delete, j));
        },
        Option::None => {},
    }
    None
}

/// Reads a comma-separated label list at position `i` of a string.
fn parse_labels_at(s: &str, i: usize) -> (r: Option<(Vec<EventType>, usize)>)
    ensures
        match r {
            Option::Some((v, j)) => parse_labels(s@, i as int) == Some((v@, j as int)),
            Option::None => parse_labels(s@, i as int) is None,
        },
    decreases s@.len() - i,
{
    let n = s.unicode_len();
    if i >= n {
        return None;
    }
    if s.get_char(i) == '\n' {
        let empty: Vec<EventType> = Vec::new();
        proof {
            assert(empty@ =~= Seq::<EventType>::empty());
        }
        return Some((empty, i));
    }
    match parse_label_at(s, i) {
        Option::None => None,
        Option::Some((e, j)) => {
            proof {
                lemma_parse_label_advances(s@, i as int);
            }
            if j < n && s.get_char(j) == ',' {
                match parse_labels_at(s, j + 1) {
                    Option::Some((rest, k)) => {
                        let mut v: Vec<EventType> = Vec::new();
                        v.push(e);
                        let mut rest_v = rest;
                        v.append(&mut rest_v);
                        proof {
                            assert(v@ =~= seq![e] + parse_labels(
                                s@,
                                j as int + 1,
                            ).unwrap().0);
                        }
                        Some((v, k))
                    },
                    Option::None => None,
                }
            } else {
                let mut v: Vec<EventType> = Vec::new();
                v.push(e);
                proof {
                    assert(v@ =~= seq![e]);
                }
                Some((v, j))
            }
        },
    }
}

/// Reads an optional length-prefixed value at position `i` of a string.
fn parse_opt_len_str_at(s: &str, i: usize) -> (r: Option<(Option<String>, usize)>)
    ensures
        match r {
            Option::Some((v, j)) => match (v, parse_opt_len_str(s@, i as int)) {
                (Option::Some(h), Option::Some((Option::Some(hs), sj))) => h@ == hs && j == sj,
                (Option::None, Option::Some((Option::None, sj))) => j == sj,
                _ => false,
            },
            Option::None => parse_opt_len_str(s@, i as int) is None,
        },
{
    let n = s.unicode_len();
    if i < n && s.get_char(i) == '-' {
        return Some((None, i + 1));
    }
    match parse_len_str_at(s, i) {
        Option::Some((v, j)) => Some((Some(v), j)),
        Option::None => None,
    }
}

} // verus!
