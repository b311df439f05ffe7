//! Codec for the persisted store: a text document holding an array of
//! records, each with a quoted name and a quoted status label.
//!
//! Serialization is deterministic: fields in a fixed order, no
//! whitespace, quotes and backslashes in names escaped with a
//! backslash. Parsing accepts the same shape with optional whitespace
//! between tokens; text that does not parse is treated as an empty
//! store, while a parsed record with an unrecognized status label is a
//! reported decode error.

use vstd::prelude::*;
use crate::config::{Status, Task, TaskView};
use crate::distance::chars_of;
use crate::text::{push_char, str_eq, string_from_chars};
use vstd::string::{StrSliceExecFns, StringExecFns};

verus! {

/// The label under which a status is persisted.
pub open spec fn status_label(st: Status) -> Seq<char> {
    match st {
        Status::Todo => seq!['T', 'o', 'd', 'o'],
        Status::InProgress => seq!['I', 'n', 'P', 'r', 'o', 'g', 'r', 'e', 's', 's'],
        Status::Done => seq!['D', 'o', 'n', 'e'],
    }
}

/// The status a stored label denotes, if any.
pub open spec fn status_of(s: Seq<char>) -> Option<Status> {
    if s == status_label(Status::Todo) {
        Some(Status::Todo)
    } else if s == status_label(Status::InProgress) {
        Some(Status::InProgress)
    } else if s == status_label(Status::Done) {
        Some(Status::Done)
    } else {
        None
    }
}

/// How one character is written inside a quoted string: quotes and
/// backslashes get a backslash in front, all else stands as is.
pub open spec fn esc_char(c: char) -> Seq<char> {
    if c == '"' || c == '\\' {
        seq!['\\', c]
    } else {
        seq![c]
    }
}

/// The escaped form of a whole string body.
pub open spec fn esc(s: Seq<char>) -> Seq<char>
    decreases s.len(),
{
    if s.len() == 0 {
        Seq::empty()
    } else {
        esc_char(s[0]) + esc(s.drop_first())
    }
}

/// A quoted, escaped string.
pub open spec fn ser_string(s: Seq<char>) -> Seq<char> {
    seq!['"'] + esc(s) + seq!['"']
}

/// The field name under which a task's name is persisted.
pub open spec fn name_key() -> Seq<char> {
    seq!['n', 'a', 'm', 'e']
}

/// The field name under which a task's status is persisted.
pub open spec fn status_key() -> Seq<char> {
    seq!['s', 't', 'a', 't', 'u', 's']
}

/// One persisted record: both fields quoted, name first.
pub open spec fn ser_record(t: TaskView) -> Seq<char> {
    seq!['{'] + ser_string(name_key()) + seq![':'] + ser_string(t.name) + seq![','] + ser_string(
        status_key()) + seq![':'] + ser_string(status_label(t.status)) + seq!['}']
}

/// The records of the store, comma-separated.
pub open spec fn ser_items(ts: Seq<TaskView>) -> Seq<char>
    decreases ts.len(),
{
    if ts.len() == 0 {
        Seq::empty()
    } else if ts.len() == 1 {
        ser_record(ts[0])
    } else {
        ser_record(ts[0]) + seq![','] + ser_items(ts.drop_first())
    }
}

/// The full persisted document for a store.
pub open spec fn spec_serialize(ts: Seq<TaskView>) -> Seq<char> {
    seq!['['] + ser_items(ts) + seq![']']
}

/// Escaping distributes over appending one character at the end.
proof fn lemma_esc_snoc(s: Seq<char>, c: char)
    ensures
        esc(s.push(c)) == esc(s) + esc_char(c),
    decreases s.len(),
{
    if s.len() == 0 {
        assert(s.push(c)[0] == c);
        assert(s.push(c).drop_first() =~= Seq::<char>::empty());
        assert(esc(s.push(c)) == esc_char(c) + esc(Seq::<char>::empty()));
        assert(esc(s.push(c)) =~= esc(s) + esc_char(c));
    } else {
        assert(s.push(c).drop_first() =~= s.drop_first().push(c));
        lemma_esc_snoc(s.drop_first(), c);
        assert(esc(s.push(c)) =~= esc(s) + esc_char(c));
    }
}

/// Serialization of the items distributes over appending one record.
proof fn lemma_ser_items_snoc(ts: Seq<TaskView>, t: TaskView)
    ensures
        ser_items(ts.push(t)) == if ts.len() == 0 {
            ser_record(t)
        } else {
            ser_items(ts) + seq![','] + ser_record(t)
        },
    decreases ts.len(),
{
    if ts.len() == 0 {
        assert(ts.push(t)[0] == t);
    } else {
        assert(ts.push(t).drop_first() =~= ts.drop_first().push(t));
        lemma_ser_items_snoc(ts.drop_first(), t);
        assert(ser_items(ts.push(t)) =~= ser_items(ts) + seq![','] + ser_record(t));
    }
}

/// Appends the quoted, escaped form of `s`.
fn append_quoted(out: &mut String, s: &str)
    ensures
        final(out)@ == old(out)@ + ser_string(s@),
{
    push_char(out, '"');
    let n = s.unicode_len();
    let mut i: usize = 0;
    while i < n
        invariant
            i <= n,
            n == s@.len(),
            out@ == old(out)@ + seq!['"'] + esc(s@.take(i as int)),
        decreases n - i,
    {
        let c = s.get_char(i);
        proof {
            assert(s@.take(i + 1) =~= s@.take(i as int).push(s@[i as int]));
            lemma_esc_snoc(s@.take(i as int), s@[i as int]);
        }
        if c == '"' || c == '\\' {
            push_char(out, '\\');
            push_char(out, c);
        } else {
            push_char(out, c);
        }
        proof {
            assert(out@ =~= old(out)@ + seq!['"'] + esc(s@.take(i + 1)));
        }
        i = i + 1;
    }
    proof {
        assert(s@.take(n as int) =~= s@);
    }
    push_char(out, '"');
    proof {
        assert(out@ =~= old(out)@ + ser_string(s@));
    }
}

/// Appends the persisted record for one task.
fn append_record(out: &mut String, t: &Task)
    ensures
        final(out)@ == old(out)@ + ser_record(t@),
{
    proof {
        reveal_strlit("name");
        reveal_strlit("status");
        reveal_strlit("Todo");
        reveal_strlit("InProgress");
        reveal_strlit("Done");
        assert("name"@ =~= name_key());
        assert("status"@ =~= status_key());
        assert("Todo"@ =~= status_label(Status::Todo));
        assert("InProgress"@ =~= status_label(Status::InProgress));
        assert("Done"@ =~= status_label(Status::Done));
    }
    push_char(out, '{');
    append_quoted(out, "name");
    push_char(out, ':');
    append_quoted(out, t.name.as_str());
    push_char(out, ',');
    append_quoted(out, "status");
    push_char(out, ':');
    match t.status {
        Status::Todo => append_quoted(out, "Todo"),
        Status::InProgress => append_quoted(out, "InProgress"),
        Status::Done => append_quoted(out, "Done"),
    }
    push_char(out, '}');
    proof {
        assert(out@ =~= old(out)@ + ser_record(t@));
    }
}

/// Serializes the whole store deterministically; what this returns is
/// exactly what the parser reads back.
pub fn serialize_tasks(tasks: &Vec<Task>) -> (out: String)
    ensures
        out@ == spec_serialize(tasks.deep_view()),
{
    let ghost dv = tasks.deep_view();
    proof {
        assert(dv.len() == tasks@.len());
    }
    let mut out = String::new();
    push_char(&mut out, '[');
    let n = tasks.len();
    let mut i: usize = 0;
    while i < n
        invariant
            i <= n,
            n == tasks@.len(),
            dv == tasks.deep_view(),
            dv.len() == n,
            forall|k: int| 0 <= k < n ==> dv[k] == tasks@[k]@,
            out@ == seq!['['] + ser_items(dv.take(i as int)),
        decreases n - i,
    {
        if i > 0 {
            push_char(&mut out, ',');
        }
        append_record(&mut out, &tasks[i]);
        proof {
            lemma_ser_items_snoc(dv.take(i as int), dv[i as int]);
            assert(dv.take(i + 1) =~= dv.take(i as int).push(dv[i as int]));
            assert(out@ =~= seq!['['] + ser_items(dv.take(i + 1)));
        }
        i = i + 1;
    }
    push_char(&mut out, ']');
    proof {
        assert(dv.take(n as int) =~= dv);
        assert(out@ =~= spec_serialize(dv));
    }
    out
}

/// Whitespace accepted between tokens of the persisted document.
pub open spec fn is_ws(c: char) -> bool {
    c == ' ' || c == '\n' || c == '\t' || c == '\r'
}

/// First position at or after `i` holding no whitespace.
pub open spec fn skip_ws(s: Seq<char>, i: int) -> int
    decreases s.len() - i,
{
    if 0 <= i < s.len() && is_ws(s[i]) {
        skip_ws(s, i + 1)
    } else {
        i
    }
}

/// Consumes optional whitespace and then the expected character.
pub open spec fn parse_exact(s: Seq<char>, i: int, c: char) -> Option<int> {
    let j = skip_ws(s, i);
    if j < s.len() && s[j] == c {
        Some(j + 1)
    } else {
        None
    }
}

/// Consumes a quoted string's body up to and including the closing
/// quote, undoing the escapes; `i` stands just after the opening
/// quote.
pub open spec fn parse_str_body(s: Seq<char>, i: int) -> Option<(Seq<char>, int)>
    decreases s.len() - i,
{
    if i < 0 || i >= s.len() {
        None
    } else if s[i] == '"' {
        Some((Seq::empty(), i + 1))
    } else if s[i] == '\\' {
        if i + 1 < s.len() {
            match parse_str_body(s, i + 2) {
                Some((t, j)) => Some((seq![s[i + 1]] + t, j)),
                None => None,
            }
        } else {
            None
        }
    } else {
        match parse_str_body(s, i + 1) {
            Some((t, j)) => Some((seq![s[i]] + t, j)),
            None => None,
        }
    }
}

/// Consumes optional whitespace and a quoted string.
pub open spec fn parse_string(s: Seq<char>, i: int) -> Option<(Seq<char>, int)> {
    let j = skip_ws(s, i);
    if j < s.len() && s[j] == '"' {
        parse_str_body(s, j + 1)
    } else {
        None
    }
}

/// Consumes one record: both fields quoted, name first; yields the
/// name and the raw status label.
pub open spec fn parse_record(s: Seq<char>, i: int) -> Option<((Seq<char>, Seq<char>), int)> {
    match parse_exact(s, i, '{') {
        None => None,
        Some(j0) => match parse_string(s, j0) {
            None => None,
            Some((k1, j1)) => if k1 != name_key() {
                None
            } else {
                match parse_exact(s, j1, ':') {
                    None => None,
                    Some(j2) => match parse_string(s, j2) {
                        None => None,
                        Some((nm, j3)) => match parse_exact(s, j3, ',') {
                            None => None,
                            Some(j4) => match parse_string(s, j4) {
                                None => None,
                                Some((k2, j5)) => if k2 != status_key() {
                                    None
                                } else {
                                    match parse_exact(s, j5, ':') {
                                        None => None,
                                        Some(j6) => match parse_string(s, j6) {
                                            None => None,
                                            Some((stv, j7)) => match parse_exact(s, j7, '}') {
                                                None => None,
                                                Some(j8) => Some(((nm, stv), j8)),
                                            },
                                        },
                                    }
                                },
                            },
                        },
                    },
                }
            },
        },
    }
}

/// Consumes one or more comma-separated records and the closing
/// bracket. `fuel` bounds the recursion; one unit is spent per record,
/// so any fuel at least the record count behaves alike.
pub open spec fn parse_items(s: Seq<char>, i: int, fuel: nat) -> Option<
    (Seq<(Seq<char>, Seq<char>)>, int),
>
    decreases fuel,
{
    if fuel == 0 {
        None
    } else {
        match parse_record(s, i) {
            None => None,
            Some((p, j)) => {
                let j2 = skip_ws(s, j);
                if j2 < s.len() && s[j2] == ',' {
                    match parse_items(s, j2 + 1, (fuel - 1) as nat) {
                        None => None,
                        Some((ps, j3)) => Some((seq![p] + ps, j3)),
                    }
                } else if j2 < s.len() && s[j2] == ']' {
                    Some((seq![p], j2 + 1))
                } else {
                    None
                }
            },
        }
    }
}

/// Parses a whole document into raw (name, status label) pairs; `None`
/// when the text has any other shape.
pub open spec fn parse_pairs(s: Seq<char>) -> Option<Seq<(Seq<char>, Seq<char>)>> {
    match parse_exact(s, 0, '[') {
        None => None,
        Some(j) => {
            let j2 = skip_ws(s, j);
            if j2 < s.len() && s[j2] == ']' {
                if skip_ws(s, j2 + 1) == s.len() {
                    Some(Seq::empty())
                } else {
                    None
                }
            } else {
                match parse_items(s, j, s.len() as nat) {
                    None => None,
                    Some((ps, j3)) => if skip_ws(s, j3) == s.len() {
                        Some(ps)
                    } else {
                        None
                    },
                }
            }
        },
    }
}

/// Maps raw pairs to tasks; the error carries the first unrecognized
/// status label.
pub open spec fn decode_pairs(ps: Seq<(Seq<char>, Seq<char>)>) -> Result<Seq<TaskView>, Seq<char>>
    decreases ps.len(),
{
    if ps.len() == 0 {
        Ok(Seq::empty())
    } else {
        match status_of(ps[0].1) {
            None => Err(ps[0].1),
            Some(st) => match decode_pairs(ps.drop_first()) {
                Err(e) => Err(e),
                Ok(r) => Ok(seq![TaskView { name: ps[0].0, status: st }] + r),
            },
        }
    }
}

/// What loading stored text yields: tasks on well-formed text, the
/// offending label on a bad status, and the empty store on text that
/// does not parse at all.
pub open spec fn spec_decode(text: Seq<char>) -> Result<Seq<TaskView>, Seq<char>> {
    match parse_pairs(text) {
        None => Ok(Seq::empty()),
        Some(ps) => decode_pairs(ps),
    }
}

/// First position at or after `i` holding no whitespace.
fn skip_ws_exec(s: &Vec<char>, i: usize) -> (j: usize)
    requires
        i <= s@.len(),
    ensures
        j as int == skip_ws(s@, i as int),
        i <= j <= s@.len(),
{
    let mut j = i;
    while j < s.len() && (s[j] == ' ' || s[j] == '\n' || s[j] == '\t' || s[j] == '\r')
        invariant
            i <= j <= s@.len(),
            skip_ws(s@, i as int) == skip_ws(s@, j as int),
        decreases s@.len() - j,
    {
        j = j + 1;
    }
    j
}

/// Consumes optional whitespace and then the expected character.
fn parse_exact_exec(s: &Vec<char>, i: usize, c: char) -> (r: Option<usize>)
    requires
        i <= s@.len(),
    ensures
        (match r {
            Some(j) => parse_exact(s@, i as int, c) == Some(j as int) && i <= j <= s@.len(),
            None => parse_exact(s@, i as int, c) is None,
        }),
{
    let j = skip_ws_exec(s, i);
    if j < s.len() && s[j] == c {
        Some(j + 1)
    } else {
        None
    }
}

/// Consumes a quoted string's body up to and including the closing
/// quote, undoing the escapes.
fn parse_str_body_exec(s: &Vec<char>, i: usize) -> (r: Option<(Vec<char>, usize)>)
    requires
        i <= s@.len(),
    ensures
        (match r {
            Some(p) => parse_str_body(s@, i as int) == Some((p.0@, p.1 as int)) && i <= p.1
                <= s@.len(),
            None => parse_str_body(s@, i as int) is None,
        }),
    decreases s@.len() - i,
{
    if i >= s.len() {
        return None;
    }
    let c = s[i];
    if c == '"' {
        return Some((Vec::new(), i + 1));
    }
    if c == '\\' {
        if i + 1 < s.len() {
            match parse_str_body_exec(s, i + 2) {
                Some((t, j)) => {
                    let mut t = t;
                    t.insert(0, s[i + 1]);
                    proof {
                        assert(t@ =~= seq![s@[i + 1]] + t@.drop_first());
                    }
                    Some((t, j))
                },
                None => None,
            }
        } else {
            None
        }
    } else {
        match parse_str_body_exec(s, i + 1) {
            Some((t, j)) => {
                let mut t = t;
                t.insert(0, c);
                proof {
                    assert(t@ =~= seq![s@[i as int]] + t@.drop_first());
                }
                Some((t, j))
            },
            None => None,
        }
    }
}

/// Consumes optional whitespace and a quoted string.
fn parse_string_exec(s: &Vec<char>, i: usize) -> (r: Option<(Vec<char>, usize)>)
    requires
        i <= s@.len(),
    ensures
        (match r {
            Some(p) => parse_string(s@, i as int) == Some((p.0@, p.1 as int)) && i <= p.1
                <= s@.len(),
            None => parse_string(s@, i as int) is None,
        }),
{
    let j = skip_ws_exec(s, i);
    if j < s.len() && s[j] == '"' {
        match parse_str_body_exec(s, j + 1) {
            Some(p) => Some(p),
            None => None,
        }
    } else {
        None
    }
}

/// Character-wise equality of a character vector and a string slice.
fn chars_eq_str(v: &Vec<char>, s: &str) -> (r: bool)
    ensures
        r == (v@ == s@),
{
    let n = s.unicode_len();
    if v.len() != n {
        return false;
    }
    let mut i: usize = 0;
    while i < n
        invariant
            i <= n,
            n == s@.len(),
            n == v@.len(),
            forall|k: int| 0 <= k < i ==> v@[k] == s@[k],
        decreases n - i,
    {
        if v[i] != s.get_char(i) {
            return false;
        }
        i = i + 1;
    }
    proof {
        assert(v@ =~= s@);
    }
    true
}

/// Consumes one record and yields its raw name and status label.
fn parse_record_exec(s: &Vec<char>, i: usize) -> (r: Option<((Vec<char>, Vec<char>), usize)>)
    requires
        i <= s@.len(),
    ensures
        (match r {
            Some(p) => parse_record(s@, i as int) == Some(((p.0.0@, p.0.1@), p.1 as int)) && i
                <= p.1 <= s@.len(),
            None => parse_record(s@, i as int) is None,
        }),
{
    proof {
        reveal_strlit("name");
        reveal_strlit("status");
        assert("name"@ =~= name_key());
        assert("status"@ =~= status_key());
    }
    let j0 = match parse_exact_exec(s, i, '{') {
        Some(j) => j,
        None => {
            return None;
        },
    };
    let (k1, j1) = match parse_string_exec(s, j0) {
        Some(p) => p,
        None => {
            return None;
        },
    };
    if !chars_eq_str(&k1, "name") {
        return None;
    }
    let j2 = match parse_exact_exec(s, j1, ':') {
        Some(j) => j,
        None => {
            return None;
        },
    };
    let (nm, j3) = match parse_string_exec(s, j2) {
        Some(p) => p,
        None => {
            return None;
        },
    };
    let j4 = match parse_exact_exec(s, j3, ',') {
        Some(j) => j,
        None => {
            return None;
        },
    };
    let (k2, j5) = match parse_string_exec(s, j4) {
        Some(p) => p,
        None => {
            return None;
        },
    };
    if !chars_eq_str(&k2, "status") {
        return None;
    }
    let j6 = match parse_exact_exec(s, j5, ':') {
        Some(j) => j,
        None => {
            return None;
        },
    };
    let (stv, j7) = match parse_string_exec(s, j6) {
        Some(p) => p,
        None => {
            return None;
        },
    };
    let j8 = match parse_exact_exec(s, j7, '}') {
        Some(j) => j,
        None => {
            return None;
        },
    };
    Some(((nm, stv), j8))
}

/// The views of raw pairs, element by element.
spec fn pair_views(ps: Seq<(Vec<char>, Vec<char>)>) -> Seq<(Seq<char>, Seq<char>)> {
    Seq::new(ps.len(), |k: int| (ps[k].0@, ps[k].1@))
}

/// Consumes comma-separated records and the closing bracket.
fn parse_items_exec(s: &Vec<char>, i: usize, fuel: usize) -> (r: Option<
    (Vec<(Vec<char>, Vec<char>)>, usize),
>)
    requires
        i <= s@.len(),
    ensures
        (match r {
            Some(p) => parse_items(s@, i as int, fuel as nat) == Some(
                (pair_views(p.0@), p.1 as int),
            ) && i <= p.1 <= s@.len(),
            None => parse_items(s@, i as int, fuel as nat) is None,
        }),
    decreases fuel,
{
    if fuel == 0 {
        return None;
    }
    let (p, j) = match parse_record_exec(s, i) {
        Some(p) => p,
        None => {
            return None;
        },
    };
    let j2 = skip_ws_exec(s, j);
    if j2 < s.len() && s[j2] == ',' {
        match parse_items_exec(s, j2 + 1, fuel - 1) {
            Some((ps, j3)) => {
                let mut ps = ps;
                ps.insert(0, p);
                proof {
                    assert(pair_views(ps@) =~= seq![(ps@[0].0@, ps@[0].1@)] + pair_views(
                        ps@.drop_first()));
                }
                Some((ps, j3))
            },
            None => None,
        }
    } else if j2 < s.len() && s[j2] == ']' {
        let mut ps: Vec<(Vec<char>, Vec<char>)> = Vec::new();
        ps.push(p);
        proof {
            assert(pair_views(ps@) =~= seq![(ps@[0].0@, ps@[0].1@)]);
        }
        Some((ps, j2 + 1))
    } else {
        None
    }
}

/// Parses a whole document into raw pairs; `None` when the text has
/// any other shape.
fn parse_pairs_exec(s: &Vec<char>) -> (r: Option<Vec<(Vec<char>, Vec<char>)>>)
    ensures
        (match r {
            Some(ps) => parse_pairs(s@) == Some(pair_views(ps@)),
            None => parse_pairs(s@) is None,
        }),
{
    let j = match parse_exact_exec(s, 0, '[') {
        Some(j) => j,
        None => {
            return None;
        },
    };
    let j2 = skip_ws_exec(s, j);
    if j2 < s.len() && s[j2] == ']' {
        if skip_ws_exec(s, j2 + 1) == s.len() {
            let ps: Vec<(Vec<char>, Vec<char>)> = Vec::new();
            proof {
                assert(pair_views(ps@) =~= Seq::<(Seq<char>, Seq<char>)>::empty());
            }
            Some(ps)
        } else {
            None
        }
    } else {
        match parse_items_exec(s, j, s.len()) {
            Some((ps, j3)) => {
                if skip_ws_exec(s, j3) == s.len() {
                    Some(ps)
                } else {
                    None
                }
            },
            None => None,
        }
    }
}

/// A stored status label that names no known status; the operation
/// aborts without touching the store.
#[derive(Debug)]
pub struct DecodeError {
    pub status_text: String,
}

/// Maps the raw pairs from `idx` on to tasks, failing on the first
/// unrecognized status label.
fn decode_from(pairs: &Vec<(Vec<char>, Vec<char>)>, idx: usize) -> (r: Result<
    Vec<Task>,
    DecodeError,
>)
    requires
        idx <= pairs@.len(),
    ensures
        (match r {
            Ok(v) => decode_pairs(pair_views(pairs@).skip(idx as int)) == Ok::<
                Seq<TaskView>,
                Seq<char>,
            >(v.deep_view()),
            Err(e) => decode_pairs(pair_views(pairs@).skip(idx as int)) == Err::<
                Seq<TaskView>,
                Seq<char>,
            >(e.status_text@),
        }),
    decreases pairs@.len() - idx,
{
    let ghost tail = pair_views(pairs@).skip(idx as int);
    if idx == pairs.len() {
        let empty_tasks: Vec<Task> = Vec::new();
        proof {
            assert(tail =~= Seq::<(Seq<char>, Seq<char>)>::empty());
            assert(empty_tasks.deep_view() =~= Seq::<TaskView>::empty());
        }
        return Ok(empty_tasks);
    }
    proof {
        assert(tail[0] == (pairs@[idx as int].0@, pairs@[idx as int].1@));
        assert(tail.drop_first() =~= pair_views(pairs@).skip(idx + 1));
    }
    let st_string = string_from_chars(&pairs[idx].1);
    let st: Status;
    if str_eq(st_string.as_str(), "Todo") {
        proof {
            reveal_strlit("Todo");
            assert("Todo"@ =~= status_label(Status::Todo));
        }
        st = Status::Todo;
    } else if str_eq(st_string.as_str(), "InProgress") {
        proof {
            reveal_strlit("InProgress");
            assert("InProgress"@ =~= status_label(Status::InProgress));
        }
        st = Status::InProgress;
    } else if str_eq(st_string.as_str(), "Done") {
        proof {
            reveal_strlit("Done");
            assert("Done"@ =~= status_label(Status::Done));
        }
        st = Status::Done;
    } else {
        proof {
            reveal_strlit("Todo");
            reveal_strlit("InProgress");
            reveal_strlit("Done");
            assert("Todo"@ =~= status_label(Status::Todo));
            assert("InProgress"@ =~= status_label(Status::InProgress));
            assert("Done"@ =~= status_label(Status::Done));
            assert(status_of(tail[0].1) is None);
        }
        return Err(DecodeError { status_text: st_string });
    }
    proof {
        assert(status_of(tail[0].1) == Some(st));
    }
    match decode_from(pairs, idx + 1) {
        Err(e) => Err(e),
        Ok(v) => {
            let mut v = v;
            let ghost pre = v.deep_view();
            let ghost prev = v@;
            let ghost tv = TaskView { name: tail[0].0, status: st };
            let name = string_from_chars(&pairs[idx].0);
            let t = Task { name, status: st };
            proof {
                assert(t.deep_view() == tv);
            }
            v.insert(0, t);
            proof {
                assert forall|k: int| 0 <= k < v.deep_view().len() implies v.deep_view()[k] == (
                    seq![tv] + pre)[k] by {
                    if k == 0 {
                        assert(v@[0] == t);
                    } else {
                        assert(v@[k] == prev[k - 1]);
                    }
                }
                assert(v.deep_view() =~= seq![tv] + pre);
            }
            Ok(v)
        },
    }
}

/// Loads stored text into tasks. Text that does not parse stands for
/// an empty store; a parsed record whose status label is unrecognized
/// is a decode error carrying that label, and the first such label
/// wins.
pub fn deserialize_tasks(text: &str) -> (r: Result<Vec<Task>, DecodeError>)
    ensures
        (match r {
            Ok(v) => spec_decode(text@) == Ok::<Seq<TaskView>, Seq<char>>(v.deep_view()),
            Err(e) => spec_decode(text@) == Err::<Seq<TaskView>, Seq<char>>(e.status_text@),
        }),
{
    let chars = chars_of(text);
    match parse_pairs_exec(&chars) {
        None => {
            let empty_tasks: Vec<Task> = Vec::new();
            proof {
                assert(empty_tasks.deep_view() =~= Seq::<TaskView>::empty());
            }
            Ok(empty_tasks)
        },
        Some(pairs) => {
            proof {
                assert(pair_views(pairs@).skip(0) =~= pair_views(pairs@));
            }
            decode_from(&pairs, 0)
        },
    }
}

/// The raw pairs that parsing the serialized form of `ts` yields.
spec fn pairs_of(ts: Seq<TaskView>) -> Seq<(Seq<char>, Seq<char>)> {
    Seq::new(ts.len(), |k: int| (ts[k].name, status_label(ts[k].status)))
}

/// A prefix of a split concatenation is the first part, the rest the
/// second.
proof fn lemma_split_prefix(s: Seq<char>, i: int, a: Seq<char>, b: Seq<char>)
    requires
        0 <= i,
        i + a.len() + b.len() <= s.len(),
        s.subrange(i, i + a.len() + b.len()) == a + b,
    ensures
        s.subrange(i, i + a.len()) == a,
        s.subrange(i + a.len(), i + a.len() + b.len()) == b,
{
    let whole = s.subrange(i, i + a.len() + b.len());
    assert forall|k: int| 0 <= k < a.len() implies s[i + k] == a[k] by {
        assert(whole[k] == s[i + k]);
        assert(whole[k] == (a + b)[k]);
        assert((a + b)[k] == a[k]);
    }
    assert forall|k: int| 0 <= k < b.len() implies s[i + a.len() + k] == b[k] by {
        assert(whole[a.len() + k] == s[i + a.len() + k]);
        assert(whole[a.len() + k] == (a + b)[a.len() + k]);
        assert((a + b)[a.len() + k] == b[k]);
    }
    assert(s.subrange(i, i + a.len()) =~= a);
    assert(s.subrange(i + a.len(), i + a.len() + b.len()) =~= b);
}

/// Scanning the escaped form of `name` followed by a closing quote
/// recovers `name` exactly.
proof fn lemma_parse_str_body_esc(s: Seq<char>, i: int, name: Seq<char>)
    requires
        0 <= i,
        i + esc(name).len() + 1 <= s.len(),
        s.subrange(i, i + esc(name).len()) == esc(name),
        s[i + esc(name).len()] == '"',
    ensures
        parse_str_body(s, i) == Some((name, i + esc(name).len() + 1)),
    decreases name.len(),
{
    if name.len() == 0 {
        assert(s[i] == '"');
        assert(name =~= Seq::<char>::empty());
    } else {
        let c = name[0];
        let rest = name.drop_first();
        let ec = esc_char(c);
        assert(esc(name) == ec + esc(rest));
        lemma_split_prefix(s, i, ec, esc(rest));
        let pre = s.subrange(i, i + ec.len());
        assert forall|k: int| 0 <= k < ec.len() implies s[i + k] == ec[k] by {
            assert(pre[k] == s[i + k]);
            assert(pre[k] == ec[k]);
        }
        if c == '"' || c == '\\' {
            assert(s[i + 0] == ec[0] && s[i + 1] == ec[1]);
            assert(s[i] == '\\');
            assert(s[i + 1] == c);
            lemma_parse_str_body_esc(s, i + 2, rest);
            assert(seq![s[i + 1]] + rest =~= name);
        } else {
            assert(s[i + 0] == ec[0]);
            assert(s[i] == c);
            lemma_parse_str_body_esc(s, i + 1, rest);
            assert(seq![s[i]] + rest =~= name);
        }
    }
}

/// Parsing at the start of a serialized string recovers it exactly.
proof fn lemma_parse_string_ser(s: Seq<char>, i: int, name: Seq<char>)
    requires
        0 <= i,
        i + ser_string(name).len() <= s.len(),
        s.subrange(i, i + ser_string(name).len()) == ser_string(name),
    ensures
        parse_string(s, i) == Some((name, i + ser_string(name).len())),
{
    let q: Seq<char> = seq!['"'];
    let tail = esc(name) + q;
    assert(ser_string(name) =~= q + tail);
    lemma_split_prefix(s, i, q, tail);
    assert(s[i] == '"') by {
        assert(s.subrange(i, i + 1)[0] == s[i]);
    }
    lemma_split_prefix(s, i + 1, esc(name), q);
    assert(s[i + 1 + esc(name).len()] == '"') by {
        assert(s.subrange(i + 1 + esc(name).len(), i + 1 + esc(name).len() + 1)[0] == s[i + 1
            + esc(name).len()]);
    }
    assert(skip_ws(s, i) == i);
    lemma_parse_str_body_esc(s, i + 1, name);
}

/// Parsing at the start of a serialized record recovers its name and
/// status label exactly.
proof fn lemma_parse_record_ser(s: Seq<char>, i: int, t: TaskView)
    requires
        0 <= i,
        i + ser_record(t).len() <= s.len(),
        s.subrange(i, i + ser_record(t).len()) == ser_record(t),
    ensures
        parse_record(s, i) == Some(((t.name, status_label(t.status)), i + ser_record(t).len())),
{
    let p0: Seq<char> = seq!['{'];
    let p1 = ser_string(name_key());
    let p2: Seq<char> = seq![':'];
    let p3 = ser_string(t.name);
    let p4: Seq<char> = seq![','];
    let p5 = ser_string(status_key());
    let p6: Seq<char> = seq![':'];
    let p7 = ser_string(status_label(t.status));
    let p8: Seq<char> = seq!['}'];
    let r = ser_record(t);
    assert(r =~= p0 + (p1 + (p2 + (p3 + (p4 + (p5 + (p6 + (p7 + p8))))))));

    let i0 = i;
    lemma_split_prefix(s, i0, p0, p1 + (p2 + (p3 + (p4 + (p5 + (p6 + (p7 + p8)))))));
    let i1 = i0 + 1;
    lemma_split_prefix(s, i1, p1, p2 + (p3 + (p4 + (p5 + (p6 + (p7 + p8))))));
    let i2 = i1 + p1.len();
    lemma_split_prefix(s, i2, p2, p3 + (p4 + (p5 + (p6 + (p7 + p8)))));
    let i3 = i2 + 1;
    lemma_split_prefix(s, i3, p3, p4 + (p5 + (p6 + (p7 + p8))));
    let i4 = i3 + p3.len();
    lemma_split_prefix(s, i4, p4, p5 + (p6 + (p7 + p8)));
    let i5 = i4 + 1;
    lemma_split_prefix(s, i5, p5, p6 + (p7 + p8));
    let i6 = i5 + p5.len();
    lemma_split_prefix(s, i6, p6, p7 + p8);
    let i7 = i6 + 1;
    lemma_split_prefix(s, i7, p7, p8);
    let i8 = i7 + p7.len();

    assert(s[i0] == '{') by {
        assert(s.subrange(i0, i0 + 1)[0] == s[i0]);
    }
    assert(s[i2] == ':') by {
        assert(s.subrange(i2, i2 + 1)[0] == s[i2]);
    }
    assert(s[i4] == ',') by {
        assert(s.subrange(i4, i4 + 1)[0] == s[i4]);
    }
    assert(s[i6] == ':') by {
        assert(s.subrange(i6, i6 + 1)[0] == s[i6]);
    }
    assert(s[i8] == '}') by {
        assert(s.subrange(i8, i8 + 1)[0] == s[i8]);
    }

    assert(skip_ws(s, i0) == i0);
    assert(parse_exact(s, i0, '{') == Some(i1));
    lemma_parse_string_ser(s, i1, name_key());
    assert(skip_ws(s, i2) == i2);
    assert(parse_exact(s, i2, ':') == Some(i3));
    lemma_parse_string_ser(s, i3, t.name);
    assert(skip_ws(s, i4) == i4);
    assert(parse_exact(s, i4, ',') == Some(i5));
    lemma_parse_string_ser(s, i5, status_key());
    assert(skip_ws(s, i6) == i6);
    assert(parse_exact(s, i6, ':') == Some(i7));
    lemma_parse_string_ser(s, i7, status_label(t.status));
    assert(skip_ws(s, i8) == i8);
    assert(parse_exact(s, i8, '}') == Some(i8 + 1));
    assert(i8 + 1 == i + r.len());
}

/// Each record contributes at least one character to the document.
proof fn lemma_ser_items_len(ts: Seq<TaskView>)
    ensures
        ser_items(ts).len() >= ts.len(),
    decreases ts.len(),
{
    if ts.len() > 1 {
        lemma_ser_items_len(ts.drop_first());
    }
}

/// Parsing the serialized records followed by the closing bracket
/// recovers the raw pairs exactly, for any sufficient fuel.
proof fn lemma_parse_items_ser(s: Seq<char>, i: int, ts: Seq<TaskView>, fuel: nat)
    requires
        ts.len() >= 1,
        fuel >= ts.len(),
        0 <= i,
        i + ser_items(ts).len() + 1 <= s.len(),
        s.subrange(i, i + ser_items(ts).len()) == ser_items(ts),
        s[i + ser_items(ts).len()] == ']',
    ensures
        parse_items(s, i, fuel) == Some((pairs_of(ts), i + ser_items(ts).len() + 1)),
    decreases ts.len(),
{
    let r0 = ser_record(ts[0]);
    let li = ser_items(ts).len();
    if ts.len() == 1 {
        assert(ser_items(ts) == r0);
        lemma_parse_record_ser(s, i, ts[0]);
        let j = i + r0.len();
        assert(skip_ws(s, j) == j);
        assert(seq![(ts[0].name, status_label(ts[0].status))] =~= pairs_of(ts));
    } else {
        let rest = ts.drop_first();
        let comma: Seq<char> = seq![','];
        assert(ser_items(ts) =~= r0 + (comma + ser_items(rest)));
        lemma_split_prefix(s, i, r0, comma + ser_items(rest));
        let j = i + r0.len();
        lemma_split_prefix(s, j, comma, ser_items(rest));
        assert(s[j] == ',') by {
            assert(s.subrange(j, j + 1)[0] == s[j]);
        }
        lemma_parse_record_ser(s, i, ts[0]);
        assert(skip_ws(s, j) == j);
        lemma_parse_items_ser(s, j + 1, rest, (fuel - 1) as nat);
        assert(seq![(ts[0].name, status_label(ts[0].status))] + pairs_of(rest) =~= pairs_of(ts));
    }
}

/// Decoding the raw pairs of a store restores the store.
proof fn lemma_decode_pairs_of(ts: Seq<TaskView>)
    ensures
        decode_pairs(pairs_of(ts)) == Ok::<Seq<TaskView>, Seq<char>>(ts),
    decreases ts.len(),
{
    if ts.len() == 0 {
        assert(pairs_of(ts) =~= Seq::<(Seq<char>, Seq<char>)>::empty());
        assert(ts =~= Seq::<TaskView>::empty());
    } else {
        let st = ts[0].status;
        assert(status_of(status_label(st)) == Some(st)) by {
            assert(status_label(Status::Todo).len() == 4);
            assert(status_label(Status::InProgress).len() == 10);
            assert(status_label(Status::Done).len() == 4);
            assert(status_label(Status::Todo)[0] == 'T');
            assert(status_label(Status::Done)[0] == 'D');
        }
        lemma_decode_pairs_of(ts.drop_first());
        assert(pairs_of(ts).drop_first() =~= pairs_of(ts.drop_first()));
        assert(pairs_of(ts)[0] == (ts[0].name, status_label(st)));
        assert((TaskView { name: ts[0].name, status: st }) == ts[0]);
        assert(seq![ts[0]] + ts.drop_first() =~= ts);
    }
}

/// Round trip: loading what was saved restores the store, order and
/// content alike, for every task sequence.
pub proof fn lemma_serialize_round_trip(ts: Seq<TaskView>)
    ensures
        spec_decode(spec_serialize(ts)) == Ok::<Seq<TaskView>, Seq<char>>(ts),
{
    let s = spec_serialize(ts);
    let li = ser_items(ts).len() as int;
    assert(s.len() == li + 2);
    assert(s[0] == '[');
    assert(skip_ws(s, 0) == 0);
    assert(parse_exact(s, 0, '[') == Some(1int));
    if ts.len() == 0 {
        assert(s[1] == ']');
        assert(skip_ws(s, 1) == 1);
        assert(skip_ws(s, 2) == 2);
        assert(parse_pairs(s) == Some(Seq::<(Seq<char>, Seq<char>)>::empty()));
        lemma_decode_pairs_of(ts);
        assert(pairs_of(ts) =~= Seq::<(Seq<char>, Seq<char>)>::empty());
    } else {
        assert(s.subrange(1, 1 + li) =~= ser_items(ts));
        assert(s[1 + li] == ']');
        assert(s[1] == ser_items(ts)[0]);
        assert(ser_items(ts)[0] == ser_record(ts[0])[0]);
        assert(ser_record(ts[0])[0] == '{');
        assert(skip_ws(s, 1) == 1);
        lemma_ser_items_len(ts);
        lemma_parse_items_ser(s, 1, ts, s.len() as nat);
        assert(skip_ws(s, s.len() as int) == s.len());
        assert(parse_pairs(s) == Some(pairs_of(ts)));
        lemma_decode_pairs_of(ts);
    }
}

impl Status {
    /// The label under which this status is persisted and displayed.
    pub fn label_string(&self) -> (s: String)
        ensures
            s@ == status_label(*self),
    {
        proof {
            reveal_strlit("Todo");
            reveal_strlit("InProgress");
            reveal_strlit("Done");
            assert("Todo"@ =~= status_label(Status::Todo));
            assert("InProgress"@ =~= status_label(Status::InProgress));
            assert("Done"@ =~= status_label(Status::Done));
        }
        match self {
            Status::Todo => String::from_str("Todo"),
            Status::InProgress => String::from_str("InProgress"),
            Status::Done => String::from_str("Done"),
        }
    }
}

} // verus!
