//! Line handling for the pipe to the WinForms helper and for script output
//! shown in its log.
use vstd::prelude::*;
use crate::bundle::{same_chars, sub_bytes};
use crate::text::{chars_of, slice_chars, string_of, trim_chars, trimmed};

verus! {

/// Index of the first newline byte at or after `from`, or -1.
pub open spec fn first_newline(p: Seq<u8>, from: int) -> int
    decreases p.len() - from,
{
    if from < 0 || from >= p.len() {
        -1
    } else if p[from] == 10 {
        from
    } else {
        first_newline(p, from + 1)
    }
}

/// The complete lines from `from` on, each with its newline, and what is
/// left after the last one.
pub open spec fn lines_from(p: Seq<u8>, from: int) -> (Seq<Seq<u8>>, Seq<u8>)
    decreases p.len() - from,
{
    let k = first_newline(p, from);
    if from < 0 || from > p.len() || k < from || k >= p.len() {
        (seq![], p.subrange(from, p.len() as int))
    } else {
        let (ls, rest) = lines_from(p, k + 1);
        (seq![p.subrange(from, k + 1)] + ls, rest)
    }
}

/// The views of a list of byte vectors.
pub open spec fn bytes_view(v: Seq<Vec<u8>>) -> Seq<Seq<u8>> {
    v.map_values(|x: Vec<u8>| x@)
}

proof fn lemma_first_newline_bounds(p: Seq<u8>, from: int)
    ensures
        first_newline(p, from) == -1 || (from <= first_newline(p, from) < p.len() && p[first_newline(
            p,
            from,
        )] == 10),
    decreases p.len() - from,
{
    if 0 <= from < p.len() && p[from] != 10 {
        lemma_first_newline_bounds(p, from + 1);
    }
}

/// Takes every complete line (through its newline byte) off the front of
/// `pending`, in order, and leaves the unfinished rest there.
pub fn take_complete_lines(pending: &mut Vec<u8>) -> (lines: Vec<Vec<u8>>)
    ensures
        bytes_view(lines@) == lines_from(old(pending)@, 0).0,
        final(pending)@ == lines_from(old(pending)@, 0).1,
{
    let ghost p = pending@;
    let mut lines: Vec<Vec<u8>> = Vec::new();
    let mut start: usize = 0;
    let mut i: usize = 0;
    assert(bytes_view(lines@) + lines_from(p, 0).0 =~= lines_from(p, 0).0);
    while i < pending.len()
        invariant
            p == pending@,
            start <= i <= pending@.len(),
            first_newline(p, start as int) == first_newline(p, i as int),
            lines_from(p, 0).0 == bytes_view(lines@) + lines_from(p, start as int).0,
            lines_from(p, 0).1 == lines_from(p, start as int).1,
        decreases pending@.len() - i,
    {
        if pending[i] == 10 {
            proof {
                lemma_first_newline_bounds(p, start as int);
            }
            assert(first_newline(p, start as int) == i);
            let line = sub_bytes(pending.as_slice(), start, i + 1);
            let ghost before = bytes_view(lines@);
            lines.push(line);
            assert(bytes_view(lines@) =~= before.push(line@));
            assert(lines_from(p, start as int).0 == seq![line@] + lines_from(p, i + 1).0);
            assert(bytes_view(lines@) + lines_from(p, i + 1).0 =~= before + (seq![line@]
                + lines_from(p, i + 1).0));
            start = i + 1;
        }
        i = i + 1;
    }
    assert(first_newline(p, i as int) == -1);
    let rest = sub_bytes(pending.as_slice(), start, pending.len());
    assert(lines_from(p, start as int).0 =~= Seq::<Seq<u8>>::empty());
    assert(bytes_view(lines@) + Seq::<Seq<u8>>::empty() =~= bytes_view(lines@));
    *pending = rest;
    lines
}

/// A complete line: it ends with its newline, and holds no other.
pub open spec fn is_complete_line(line: Seq<u8>) -> bool {
    &&& line.len() > 0
    &&& line.last() == 10
    &&& forall|i: int| 0 <= i < line.len() - 1 ==> line[i] != 10
}

proof fn lemma_no_newline_before(p: Seq<u8>, from: int, i: int)
    requires
        0 <= from <= i < p.len(),
        first_newline(p, from) == -1 || i < first_newline(p, from),
    ensures
        p[i] != 10,
    decreases i - from,
{
    if from < i {
        lemma_no_newline_before(p, from + 1, i);
    }
}

proof fn lemma_lines_from_split(p: Seq<u8>, from: int)
    requires
        0 <= from <= p.len(),
    ensures
        lines_from(p, from).0.flatten() + lines_from(p, from).1 == p.subrange(from, p.len() as int),
        forall|j: int|
            0 <= j < lines_from(p, from).0.len() ==> is_complete_line(
                #[trigger] lines_from(p, from).0[j],
            ),
        forall|i: int|
            0 <= i < lines_from(p, from).1.len() ==> #[trigger] lines_from(p, from).1[i] != 10,
    decreases p.len() - from,
{
    lemma_first_newline_bounds(p, from);
    let k = first_newline(p, from);
    if k < from || k >= p.len() {
        let rest = p.subrange(from, p.len() as int);
        assert(lines_from(p, from).0 =~= Seq::<Seq<u8>>::empty());
        assert(Seq::<Seq<u8>>::empty().flatten() =~= Seq::<u8>::empty());
        assert(Seq::<u8>::empty() + rest =~= rest);
        assert forall|i: int| 0 <= i < rest.len() implies #[trigger] rest[i] != 10 by {
            lemma_no_newline_before(p, from, from + i);
        }
    } else {
        lemma_lines_from_split(p, k + 1);
        let line = p.subrange(from, k + 1);
        let (ls, rest) = lines_from(p, k + 1);
        let all = seq![line] + ls;
        assert(lines_from(p, from).0 == all);
        assert(all.first() == line);
        assert(all.drop_first() =~= ls);
        assert(all.flatten() == line + ls.flatten());
        assert((line + ls.flatten()) + rest =~= line + (ls.flatten() + rest));
        assert(line + p.subrange(k + 1, p.len() as int) =~= p.subrange(from, p.len() as int));
        assert forall|i: int| 0 <= i < line.len() - 1 implies line[i] != 10 by {
            lemma_no_newline_before(p, from, from + i);
        }
        assert(is_complete_line(line));
        assert forall|j: int| 0 <= j < all.len() implies is_complete_line(#[trigger] all[j]) by {
            if j > 0 {
                assert(all[j] == ls[j - 1]);
            }
        }
    }
}

/// Taking complete lines off the pipe input loses and reorders nothing:
/// the lines, joined, followed by the rest, are the input; every line taken
/// ends with its newline and holds no other; the rest holds no newline.
pub proof fn law_pipe_lines_lose_nothing(p: Seq<u8>)
    ensures
        lines_from(p, 0).0.flatten() + lines_from(p, 0).1 == p,
        forall|j: int|
            0 <= j < lines_from(p, 0).0.len() ==> is_complete_line(#[trigger] lines_from(p, 0).0[j]),
        forall|i: int| 0 <= i < lines_from(p, 0).1.len() ==> #[trigger] lines_from(p, 0).1[i] != 10,
{
    lemma_lines_from_split(p, 0);
    assert(p.subrange(0, p.len() as int) =~= p);
}

/// The string under `key` in a line of JSON, when the line is a JSON value
/// with a string at that key.
pub uninterp spec fn json_string_field(line: Seq<char>, key: Seq<char>) -> Option<Seq<char>>;

/// `serde_json::from_str::<serde_json::Value>`, then `Value::get` with the
/// key and `Value::as_str`: the contract claims only that the result is
/// `json_string_field` of the line and the key; the JSON grammar is left to
/// serde_json.
#[verifier::external_body]
fn json_string_at(line: &str, key: &str) -> (r: Option<String>)
    ensures
        crate::journal::opt_view(r) == json_string_field(line@, key@),
{
    match serde_json::from_str::<serde_json::Value>(line) {
        Ok(value) => match value.get(key) {
            Some(field) => match field.as_str() {
                Some(text) => Some(text.to_owned()),
                None => None,
            },
            None => None,
        },
        Err(_) => None,
    }
}

/// A line from the helper that asks to cancel: a JSON message whose `type`
/// is `cancel_request`.
pub open spec fn is_cancel_line(line: Seq<char>) -> bool {
    json_string_field(line, "type"@) == Some("cancel_request"@)
}

/// Whether a line from the helper asks to cancel: a JSON message whose
/// `type` is `cancel_request`.
pub fn is_cancel_request(line: &str) -> (r: bool)
    ensures
        r == is_cancel_line(line@),
{
    match json_string_at(line, "type") {
        Some(t) => crate::ui::is_text(t.as_str(), "cancel_request"),
        None => false,
    }
}

/// The lines other than cancel requests, in order.
pub open spec fn queued_lines(lines: Seq<Seq<char>>) -> Seq<Seq<char>>
    decreases lines.len(),
{
    if lines.len() == 0 {
        seq![]
    } else {
        let rest = queued_lines(lines.drop_last());
        if is_cancel_line(lines.last()) {
            rest
        } else {
            rest.push(lines.last())
        }
    }
}

/// Lines that arrived from the helper, sorted.
pub struct SortedLines {
    /// Some line asked to cancel.
    pub cancel: bool,
    /// The other lines, in order, for the reads that wait for them.
    pub queued: Vec<String>,
}

/// Sorts lines that arrived from the helper: a cancel request among them
/// sets the cancel flag, and every other line is queued, in order.
pub fn sort_pipe_lines(lines: &Vec<String>) -> (r: SortedLines)
    ensures
        r.cancel == exists|i: int| 0 <= i < lines@.len() && is_cancel_line(#[trigger] lines@[i]@),
        crate::journal::strings_view(r.queued@) == queued_lines(
            crate::journal::strings_view(lines@),
        ),
{
    let ghost v = crate::journal::strings_view(lines@);
    let mut cancel = false;
    let mut queued: Vec<String> = Vec::new();
    let mut i: usize = 0;
    assert(v.take(0) =~= Seq::<Seq<char>>::empty());
    while i < lines.len()
        invariant
            i <= lines@.len(),
            v == crate::journal::strings_view(lines@),
            crate::journal::strings_view(queued@) == queued_lines(v.take(i as int)),
            cancel == exists|j: int| 0 <= j < i && is_cancel_line(#[trigger] lines@[j]@),
        decreases lines@.len() - i,
    {
        let c = is_cancel_request(lines[i].as_str());
        assert(v.take(i + 1).drop_last() =~= v.take(i as int));
        assert(v.take(i + 1).last() == lines@[i as int]@);
        if c {
            cancel = true;
        } else {
            let ghost before = crate::journal::strings_view(queued@);
            queued.push(lines[i].clone());
            assert(crate::journal::strings_view(queued@) =~= before.push(lines@[i as int]@));
        }
        i = i + 1;
    }
    assert(v.take(i as int) =~= v);
    SortedLines { cancel, queued }
}

/// Index of the first `\n` at or after `from`, or -1.
pub open spec fn first_lf(s: Seq<char>, from: int) -> int
    decreases s.len() - from,
{
    if from < 0 || from >= s.len() {
        -1
    } else if s[from] == '\n' {
        from
    } else {
        first_lf(s, from + 1)
    }
}

/// A line without the `\r` of a `\r\n` ending.
pub open spec fn strip_cr(l: Seq<char>) -> Seq<char> {
    if l.len() > 0 && l.last() == '\r' {
        l.drop_last()
    } else {
        l
    }
}

/// `str::lines` from `from` on: split at `\n`, a `\r` before it dropped,
/// no empty line after a final `\n`.
pub open spec fn text_lines(s: Seq<char>, from: int) -> Seq<Seq<char>>
    decreases s.len() - from,
{
    if from < 0 || from >= s.len() {
        seq![]
    } else {
        let k = first_lf(s, from);
        if k < from || k >= s.len() {
            seq![s.subrange(from, s.len() as int)]
        } else {
            seq![strip_cr(s.subrange(from, k))] + text_lines(s, k + 1)
        }
    }
}

/// The lines that hold more than whitespace.
pub open spec fn shown_lines(ls: Seq<Seq<char>>) -> Seq<Seq<char>>
    decreases ls.len(),
{
    if ls.len() == 0 {
        seq![]
    } else if trimmed(ls[0]).len() == 0 {
        shown_lines(ls.skip(1))
    } else {
        seq![ls[0]] + shown_lines(ls.skip(1))
    }
}

proof fn lemma_first_lf_bounds(s: Seq<char>, from: int)
    ensures
        first_lf(s, from) == -1 || (from <= first_lf(s, from) < s.len() && s[first_lf(s, from)]
            == '\n'),
    decreases s.len() - from,
{
    if 0 <= from < s.len() && s[from] != '\n' {
        lemma_first_lf_bounds(s, from + 1);
    }
}

proof fn lemma_shown_lines_push(ls: Seq<Seq<char>>, x: Seq<char>)
    ensures
        shown_lines(ls.push(x)) == shown_lines(ls) + if trimmed(x).len() == 0 {
            Seq::<Seq<char>>::empty()
        } else {
            seq![x]
        },
    decreases ls.len(),
{
    if ls.len() == 0 {
        assert(ls.push(x).skip(1) =~= Seq::<Seq<char>>::empty());
        assert(ls.push(x)[0] == x);
        assert(shown_lines(Seq::<Seq<char>>::empty()) =~= Seq::<Seq<char>>::empty());
        assert(shown_lines(ls) =~= Seq::<Seq<char>>::empty());
        assert(seq![x] + Seq::<Seq<char>>::empty() =~= seq![x]);
        assert(Seq::<Seq<char>>::empty() + seq![x] =~= seq![x]);
        assert(Seq::<Seq<char>>::empty() + Seq::<Seq<char>>::empty() =~= Seq::<Seq<char>>::empty());
    } else {
        lemma_shown_lines_push(ls.skip(1), x);
        assert(ls.push(x).skip(1) =~= ls.skip(1).push(x));
        assert(ls.push(x)[0] == ls[0]);
        if trimmed(ls[0]).len() != 0 {
            assert(seq![ls[0]] + (shown_lines(ls.skip(1)) + if trimmed(x).len() == 0 {
                Seq::<Seq<char>>::empty()
            } else {
                seq![x]
            }) =~= (seq![ls[0]] + shown_lines(ls.skip(1))) + if trimmed(x).len() == 0 {
                Seq::<Seq<char>>::empty()
            } else {
                seq![x]
            });
        }
    }
}

proof fn lemma_text_lines_step(s: Seq<char>, from: int)
    requires
        0 <= from < s.len(),
    ensures
        first_lf(s, from) == -1 ==> text_lines(s, from) == seq![s.subrange(from, s.len() as int)],
        first_lf(s, from) != -1 ==> text_lines(s, from) == seq![
            strip_cr(s.subrange(from, first_lf(s, from)))
        ] + text_lines(s, first_lf(s, from) + 1),
{
    lemma_first_lf_bounds(s, from);
}

/// The lines of a script's output that the progress log shows: every line
/// (`str::lines`) that holds more than whitespace, in order.
pub fn shell_output_lines(text: &str) -> (r: Vec<String>)
    ensures
        crate::journal::strings_view(r@) == shown_lines(text_lines(text@, 0)),
{
    let s = chars_of(text);
    let mut out: Vec<String> = Vec::new();
    let mut start: usize = 0;
    let mut i: usize = 0;
    let ghost acc: Seq<Seq<char>> = seq![];
    assert(crate::journal::strings_view(out@) =~= Seq::<Seq<char>>::empty());
    while i < s.len()
        invariant
            s@ == text@,
            start <= i <= s@.len(),
            first_lf(s@, start as int) == first_lf(s@, i as int),
            text_lines(s@, 0) == acc + text_lines(s@, start as int),
            crate::journal::strings_view(out@) == shown_lines(acc),
        decreases s@.len() - i,
    {
        if s[i] == '\n' {
            proof {
                lemma_first_lf_bounds(s@, start as int);
                lemma_text_lines_step(s@, start as int);
            }
            let mut line = slice_chars(&s, start, i);
            if line.len() > 0 && line[line.len() - 1] == '\r' {
                line.pop();
            }
            assert(line@ == strip_cr(s@.subrange(start as int, i as int)));
            let t = trim_chars(&line);
            proof {
                lemma_shown_lines_push(acc, line@);
                assert(acc + text_lines(s@, start as int) =~= acc.push(line@) + text_lines(
                    s@,
                    i + 1,
                ));
                acc = acc.push(line@);
            }
            if t.len() > 0 {
                let ghost before = crate::journal::strings_view(out@);
                out.push(string_of(line.as_slice()));
                assert(crate::journal::strings_view(out@) =~= before.push(line@));
            } else {
                assert(shown_lines(acc) =~= crate::journal::strings_view(out@));
            }
            start = i + 1;
        }
        i = i + 1;
    }
    if start < s.len() {
        proof {
            lemma_first_lf_bounds(s@, start as int);
            lemma_text_lines_step(s@, start as int);
        }
        let line = slice_chars(&s, start, s.len());
        let t = trim_chars(&line);
        proof {
            lemma_shown_lines_push(acc, line@);
            assert(text_lines(s@, 0) =~= acc.push(line@));
            acc = acc.push(line@);
        }
        if t.len() > 0 {
            let ghost before = crate::journal::strings_view(out@);
            out.push(string_of(line.as_slice()));
            assert(crate::journal::strings_view(out@) =~= before.push(line@));
        }
    } else {
        assert(text_lines(s@, start as int) =~= Seq::<Seq<char>>::empty());
        assert(text_lines(s@, 0) =~= acc);
    }
    out
}

} // verus!
