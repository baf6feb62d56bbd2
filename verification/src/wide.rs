//! UTF-16 text as Win32 takes and gives it.
use vstd::prelude::*;
use crate::error::AppError;
use crate::text::{chars_of, string_of};

verus! {

/// The UTF-16 code units of one character.
pub open spec fn utf16_of(c: char) -> Seq<u16> {
    let u = c as u32;
    if u < 0x10000 {
        seq![u as u16]
    } else {
        let v = (u - 0x10000) as int;
        seq![(0xD800 + v / 0x400) as u16, (0xDC00 + v % 0x400) as u16]
    }
}

/// The UTF-16 code units of a text.
pub open spec fn utf16_seq(s: Seq<char>) -> Seq<u16>
    decreases s.len(),
{
    if s.len() == 0 {
        seq![]
    } else {
        utf16_seq(s.drop_last()) + utf16_of(s.last())
    }
}

/// The little-endian bytes of code units.
pub open spec fn le16_seq(u: Seq<u16>) -> Seq<u8>
    decreases u.len(),
{
    if u.len() == 0 {
        seq![]
    } else {
        le16_seq(u.drop_last()) + seq![(u.last() % 256) as u8, (u.last() / 256) as u8]
    }
}

/// A NUL-terminated UTF-16 string for a Win32 call.
#[derive(Debug, Clone, PartialEq, Eq)]
pub struct Utf16Arg {
    pub inner: Vec<u16>,
}

impl Utf16Arg {
    /// The text's UTF-16 code units followed by a NUL.
    pub fn from_str(value: &str) -> (r: Utf16Arg)
        ensures
            r.inner@ == utf16_seq(value@).push(0),
    {
        let s = chars_of(value);
        let mut inner: Vec<u16> = Vec::new();
        let mut i: usize = 0;
        while i < s.len()
            invariant
                i <= s@.len(),
                s@ == value@,
                inner@ == utf16_seq(s@.take(i as int)),
            decreases s@.len() - i,
        {
            let c = s[i];
            let u = c as u32;
            let ghost before = inner@;
            if u < 0x10000 {
                inner.push(u as u16);
            } else {
                let v = u - 0x10000;
                inner.push((0xD800 + v / 0x400) as u16);
                inner.push((0xDC00 + v % 0x400) as u16);
            }
            assert(inner@ =~= before + utf16_of(c));
            i = i + 1;
            assert(s@.take(i as int).drop_last() =~= s@.take(i - 1));
        }
        assert(s@.take(s@.len() as int) =~= s@);
        inner.push(0);
        Utf16Arg { inner }
    }

    /// The code units as little-endian bytes, the terminator included.
    pub fn as_bytes(&self) -> (r: Vec<u8>)
        ensures
            r@ == le16_seq(self.inner@),
            r@.len() == 2 * self.inner@.len(),
    {
        let mut r: Vec<u8> = Vec::new();
        let mut i: usize = 0;
        while i < self.inner.len()
            invariant
                i <= self.inner@.len(),
                r@ == le16_seq(self.inner@.take(i as int)),
                r@.len() == 2 * i,
            decreases self.inner@.len() - i,
        {
            let v = self.inner[i];
            r.push((v % 256) as u8);
            r.push((v / 256) as u8);
            i = i + 1;
            assert(self.inner@.take(i as int).drop_last() =~= self.inner@.take(i - 1));
            assert(r@ =~= le16_seq(self.inner@.take(i as int)));
        }
        assert(self.inner@.take(self.inner@.len() as int) =~= self.inner@);
        r
    }
}

/// The text that code units from `i` on encode, or none when they hold an
/// unpaired surrogate (`String::from_utf16`).
pub open spec fn decode16_from(u: Seq<u16>, i: int) -> Option<Seq<char>>
    decreases u.len() - i,
{
    if i < 0 || i >= u.len() {
        Some(seq![])
    } else {
        let a = u[i];
        if a < 0xD800 || a > 0xDFFF {
            match decode16_from(u, i + 1) {
                Some(rest) => Some(seq![a as char] + rest),
                None => None,
            }
        } else if a <= 0xDBFF && i + 1 < u.len() && 0xDC00 <= u[i + 1] <= 0xDFFF {
            let c = ((a - 0xD800) * 0x400 + (u[i + 1] - 0xDC00) + 0x10000) as char;
            match decode16_from(u, i + 2) {
                Some(rest) => Some(seq![c] + rest),
                None => None,
            }
        } else {
            None
        }
    }
}

/// The code units before the first NUL (all of them when there is none).
pub open spec fn until_nul(u: Seq<u16>) -> Seq<u16> {
    let k = first_nul(u, 0);
    if 0 <= k < u.len() {
        u.take(k)
    } else {
        u
    }
}

/// Index of the first NUL at or after `from`, or -1.
pub open spec fn first_nul(u: Seq<u16>, from: int) -> int
    decreases u.len() - from,
{
    if from < 0 || from >= u.len() {
        -1
    } else if u[from] == 0 {
        from
    } else {
        first_nul(u, from + 1)
    }
}

/// `char::from_u32`: the character with that scalar value, or `None` for a
/// surrogate or a value above `0x10FFFF`, as its documentation states.
#[verifier::external_body]
fn char_from_u32(u: u32) -> (r: Option<char>)
    ensures
        (u <= 0xD7FF || (0xE000 <= u <= 0x10FFFF)) ==> r == Some(u as char),
        !(u <= 0xD7FF || (0xE000 <= u <= 0x10FFFF)) ==> r is None,
{
    char::from_u32(u)
}

/// The text a NUL-terminated UTF-16 buffer from Win32 holds.
pub fn text_from_wide(buffer: &[u16]) -> (r: Result<String, AppError>)
    ensures
        match decode16_from(until_nul(buffer@), 0) {
            Some(s) => r matches Ok(t) && t@ == s,
            None => r matches Err(AppError::Message(m)) && m@ == "Invalid UTF-16 from Win32"@,
        },
{
    let mut n: usize = 0;
    while n < buffer.len() && buffer[n] != 0
        invariant
            n <= buffer@.len(),
            first_nul(buffer@, 0) == first_nul(buffer@, n as int),
        decreases buffer@.len() - n,
    {
        n = n + 1;
    }
    let ghost u = until_nul(buffer@);
    assert(u =~= buffer@.take(n as int)) by {
        if n < buffer@.len() {
            assert(first_nul(buffer@, n as int) == n);
        } else {
            assert(first_nul(buffer@, n as int) == -1);
        }
    }
    let mut out: Vec<char> = Vec::new();
    let mut i: usize = 0;
    while i < n
        invariant
            i <= n <= buffer@.len(),
            u == buffer@.take(n as int),
            u == until_nul(buffer@),
            decode16_from(u, 0) == match decode16_from(u, i as int) {
                Some(rest) => Some(out@ + rest),
                None => None::<Seq<char>>,
            },
        decreases n - i,
    {
        let a = buffer[i];
        assert(u[i as int] == a);
        if a < 0xD800 || a > 0xDFFF {
            match char_from_u32(a as u32) {
                Some(c) => {
                    proof {
                        match decode16_from(u, i + 1) {
                            Some(rest) => {
                                assert(out@ + (seq![c] + rest) =~= out@.push(c) + rest);
                            },
                            None => {},
                        }
                    }
                    out.push(c);
                    i = i + 1;
                },
                None => {
                    return Err(AppError::Message("Invalid UTF-16 from Win32".to_owned()));
                },
            }
        } else if a <= 0xDBFF && i + 1 < n && 0xDC00 <= buffer[i + 1] && buffer[i + 1] <= 0xDFFF {
            let b = buffer[i + 1];
            assert(u[i + 1] == b);
            let code = (a as u32 - 0xD800) * 0x400 + (b as u32 - 0xDC00) + 0x10000;
            match char_from_u32(code) {
                Some(c) => {
                    proof {
                        match decode16_from(u, i + 2) {
                            Some(rest) => {
                                assert(out@ + (seq![c] + rest) =~= out@.push(c) + rest);
                            },
                            None => {},
                        }
                    }
                    out.push(c);
                    i = i + 2;
                },
                None => {
                    return Err(AppError::Message("Invalid UTF-16 from Win32".to_owned()));
                },
            }
        } else {
            proof {
                if i + 1 < n {
                    assert(u[i + 1] == buffer@[i + 1]);
                }
            }
            assert(decode16_from(u, i as int) is None);
            return Err(AppError::Message("Invalid UTF-16 from Win32".to_owned()));
        }
    }
    assert(out@ + Seq::<char>::empty() =~= out@);
    Ok(string_of(out.as_slice()))
}

proof fn lemma_decode_one(c: char, rest: Seq<u16>)
    ensures
        decode16_from(utf16_of(c) + rest, 0) == match decode16_from(rest, 0) {
            Some(t) => Some(seq![c] + t),
            None => None::<Seq<char>>,
        },
{
    let u = c as u32;
    let s = utf16_of(c) + rest;
    if u < 0x10000 {
        assert(s.len() == rest.len() + 1);
        assert(s[0] == u as u16);
        assert(((u as u16) as char) == c);
        assert(s.skip(1) =~= rest);
        lemma_decode_shift(s, 1, rest);
    } else {
        let v = (u - 0x10000) as int;
        assert(0 <= v <= 0xFFFFF);
        let hi = 0xD800 + v / 0x400;
        let lo = 0xDC00 + v % 0x400;
        assert(0 <= v / 0x400 <= 0x3FF) by (nonlinear_arith)
            requires
                0 <= v <= 0xFFFFF,
        ;
        assert(0 <= v % 0x400 < 0x400) by (nonlinear_arith)
            requires
                0 <= v,
        ;
        assert((v / 0x400) * 0x400 + v % 0x400 == v) by (nonlinear_arith);
        assert(s[0] == hi as u16);
        assert(s[1] == lo as u16);
        assert(((hi - 0xD800) * 0x400 + (lo - 0xDC00) + 0x10000) == u);
        assert((u as char) == c);
        assert(s.skip(2) =~= rest);
        lemma_decode_shift(s, 2, rest);
    }
}

proof fn lemma_decode_shift(s: Seq<u16>, k: int, rest: Seq<u16>)
    requires
        0 <= k <= s.len(),
        s.skip(k) == rest,
    ensures
        decode16_from(s, k) == decode16_from(rest, 0),
    decreases rest.len(),
{
    lemma_decode_shift_from(s, k, rest, 0);
}

proof fn lemma_decode_shift_from(s: Seq<u16>, k: int, rest: Seq<u16>, j: int)
    requires
        0 <= k <= s.len(),
        s.skip(k) == rest,
        0 <= j <= rest.len(),
    ensures
        decode16_from(s, k + j) == decode16_from(rest, j),
    decreases rest.len() - j,
{
    if j < rest.len() {
        assert(s[k + j] == rest[j]);
        if j + 1 < rest.len() {
            assert(s[k + j + 1] == rest[j + 1]);
        }
        lemma_decode_shift_from(s, k, rest, j + 1);
        if j + 2 <= rest.len() {
            lemma_decode_shift_from(s, k, rest, j + 2);
        }
    }
}

/// Decoding gives back what encoding wrote: the UTF-16 of any text reads
/// back as exactly that text.
pub proof fn law_utf16_round_trip(s: Seq<char>)
    ensures
        decode16_from(utf16_seq(s), 0) == Some(s),
    decreases s.len(),
{
    if s.len() == 0 {
        assert(utf16_seq(s) =~= Seq::<u16>::empty());
    } else {
        lemma_decode_prefix(s.drop_last(), s.last());
        law_utf16_round_trip(s.drop_last());
        assert(s.drop_last().push(s.last()) =~= s);
    }
}

/// Decoding the UTF-16 of `t` followed by that of `c`.
proof fn lemma_decode_prefix(t: Seq<char>, c: char)
    ensures
        decode16_from(utf16_seq(t) + utf16_of(c), 0) == match decode16_from(utf16_seq(t), 0) {
            Some(x) => Some(x.push(c)),
            None => None::<Seq<char>>,
        },
    decreases t.len(),
{
    if t.len() == 0 {
        assert(utf16_seq(t) =~= Seq::<u16>::empty());
        assert(utf16_seq(t) + utf16_of(c) =~= utf16_of(c) + Seq::<u16>::empty());
        lemma_decode_one(c, Seq::<u16>::empty());
        assert(decode16_from(Seq::<u16>::empty(), 0) == Some(Seq::<char>::empty()));
        assert(seq![c] + Seq::<char>::empty() =~= Seq::<char>::empty().push(c));
    } else {
        let f = t[0];
        let tail = t.skip(1);
        lemma_utf16_seq_cons(f, tail);
        assert(seq![f] + tail =~= t);
        lemma_decode_prefix(tail, c);
        assert(utf16_seq(t) + utf16_of(c) =~= utf16_of(f) + (utf16_seq(tail) + utf16_of(c)));
        lemma_decode_one(f, utf16_seq(tail) + utf16_of(c));
        lemma_decode_one(f, utf16_seq(tail));
        match decode16_from(utf16_seq(tail), 0) {
            Some(x) => {
                assert(seq![f] + x.push(c) =~= (seq![f] + x).push(c));
            },
            None => {},
        }
    }
}

proof fn lemma_utf16_seq_cons(f: char, tail: Seq<char>)
    ensures
        utf16_seq(seq![f] + tail) == utf16_of(f) + utf16_seq(tail),
    decreases tail.len(),
{
    if tail.len() == 0 {
        assert(seq![f] + tail =~= seq![f]);
        assert(seq![f].drop_last() =~= Seq::<char>::empty());
        assert(utf16_seq(Seq::<char>::empty()) =~= Seq::<u16>::empty());
        assert(utf16_of(f) + Seq::<u16>::empty() =~= utf16_of(f));
        assert(Seq::<u16>::empty() + utf16_of(f) =~= utf16_of(f));
    } else {
        lemma_utf16_seq_cons(f, tail.drop_last());
        assert((seq![f] + tail).drop_last() =~= seq![f] + tail.drop_last());
        assert((seq![f] + tail).last() == tail.last());
        assert(utf16_of(f) + utf16_seq(tail.drop_last()) + utf16_of(tail.last()) =~= utf16_of(f)
            + (utf16_seq(tail.drop_last()) + utf16_of(tail.last())));
    }
}

} // verus!
