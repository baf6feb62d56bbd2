//! Windows path text, handled as character sequences.
//!
//! The model: `\` and `/` are both separators; a path may open with a drive
//! (`C:`) or with two separators (a UNC or verbatim path); it is absolute when
//! it has a drive followed by a separator, or opens with two separators.
//! `parent`, `file_name` and `join` follow `std::path::Path` on Windows for
//! paths of that shape.
use vstd::prelude::*;
use crate::text::{
    append_chars, chars_of, concat_chars, has_prefix, lower, lower_chars, lower_seq, slice_chars,
    starts_with, string_of,
};

verus! {

/// A path separator on Windows.
pub open spec fn is_sep(c: char) -> bool {
    c == '\\' || c == '/'
}

/// An ASCII letter.
pub open spec fn is_alpha(c: char) -> bool {
    ('a' <= c <= 'z') || ('A' <= c <= 'Z')
}

/// The path opens with a drive prefix such as `C:`.
pub open spec fn has_drive(p: Seq<char>) -> bool {
    p.len() >= 2 && is_alpha(p[0]) && p[1] == ':'
}

/// The path is absolute: a drive and a separator, or two leading separators.
pub open spec fn is_absolute(p: Seq<char>) -> bool {
    ||| (has_drive(p) && p.len() >= 3 && is_sep(p[2]))
    ||| (p.len() >= 2 && is_sep(p[0]) && is_sep(p[1]))
}

/// Length of the part of a path that `parent` never removes: `C:\`, `C:`,
/// or a single leading separator.
pub open spec fn root_len(p: Seq<char>) -> int {
    if has_drive(p) {
        if p.len() >= 3 && is_sep(p[2]) {
            3
        } else {
            2
        }
    } else if p.len() >= 1 && is_sep(p[0]) {
        1
    } else {
        0
    }
}

/// Drops trailing separators that lie after the root.
pub open spec fn trim_seps(p: Seq<char>) -> Seq<char>
    decreases p.len(),
{
    if p.len() > root_len(p) && p.len() > 0 && is_sep(p.last()) {
        trim_seps(p.drop_last())
    } else {
        p
    }
}

/// Index of the last separator at or after `from` and before `end`, if any.
pub open spec fn last_sep_before(p: Seq<char>, from: int, end: int) -> int
    decreases end - from,
{
    if end <= from {
        -1
    } else if is_sep(p[end - 1]) {
        end - 1
    } else {
        last_sep_before(p, from, end - 1)
    }
}

/// `Path::parent`: the path without its last component, or `None` for an
/// empty path or a bare root.
pub open spec fn parent_of(p: Seq<char>) -> Option<Seq<char>> {
    let t = trim_seps(p);
    let r = root_len(t);
    if t.len() <= r {
        None
    } else {
        let k = last_sep_before(t, r, t.len() as int);
        if k < 0 {
            Some(t.take(r))
        } else {
            Some(trim_seps(t.take(k)))
        }
    }
}

/// `Path::file_name`: the last component, unless it is empty or `..`.
pub open spec fn file_name_of(p: Seq<char>) -> Option<Seq<char>> {
    let t = trim_seps(p);
    let r = root_len(t);
    let k = last_sep_before(t, r, t.len() as int);
    let start = if k < 0 {
        r
    } else {
        k + 1
    };
    let name = t.subrange(start, t.len() as int);
    if name.len() == 0 || name == seq!['.', '.'] {
        None
    } else {
        Some(name)
    }
}

/// `PathBuf::push` on Windows: an absolute or drive-prefixed `p` replaces
/// `base`; a rooted `p` keeps only the drive of `base`; otherwise `p` is
/// appended after a separator unless `base` is empty, a bare drive, or
/// already ends with one.
pub open spec fn join_path(base: Seq<char>, p: Seq<char>) -> Seq<char> {
    if is_absolute(p) || has_drive(p) {
        p
    } else if p.len() > 0 && is_sep(p[0]) {
        if has_drive(base) {
            base.take(2) + p
        } else {
            p
        }
    } else if base.len() == 0 || is_sep(base.last()) || (base.len() == 2 && has_drive(base)) {
        base + p
    } else {
        base + seq!['\\'] + p
    }
}

pub(crate) fn is_sep_char(c: char) -> (r: bool)
    ensures
        r == is_sep(c),
{
    c == '\\' || c == '/'
}

pub(crate) fn has_drive_chars(p: &Vec<char>) -> (r: bool)
    ensures
        r == has_drive(p@),
{
    p.len() >= 2 && (('a' <= p[0] && p[0] <= 'z') || ('A' <= p[0] && p[0] <= 'Z')) && p[1] == ':'
}

/// Whether a path is absolute.
pub fn is_absolute_chars(p: &Vec<char>) -> (r: bool)
    ensures
        r == is_absolute(p@),
{
    (has_drive_chars(p) && p.len() >= 3 && is_sep_char(p[2])) || (p.len() >= 2 && is_sep_char(
        p[0],
    ) && is_sep_char(p[1]))
}

fn root_len_chars(p: &Vec<char>) -> (r: usize)
    ensures
        r == root_len(p@),
        r <= p.len(),
{
    if has_drive_chars(p) {
        if p.len() >= 3 && is_sep_char(p[2]) {
            3
        } else {
            2
        }
    } else if p.len() >= 1 && is_sep_char(p[0]) {
        1
    } else {
        0
    }
}

proof fn lemma_root_len_prefix(p: Seq<char>, n: int)
    requires
        root_len(p) <= n <= p.len(),
    ensures
        root_len(p.take(n)) == root_len(p),
{
}

fn trim_seps_chars(p: &Vec<char>) -> (r: Vec<char>)
    ensures
        r@ == trim_seps(p@),
{
    let r0 = root_len_chars(p);
    let mut n = p.len();
    assert(p@.take(n as int) == p@);
    while n > r0 && n > 0 && is_sep_char(p[n - 1])
        invariant
            r0 == root_len(p@),
            r0 <= n <= p.len(),
            trim_seps(p@) == trim_seps(p@.take(n as int)),
        decreases n,
    {
        proof {
            lemma_root_len_prefix(p@, n as int);
            assert(p@.take(n as int).drop_last() == p@.take(n - 1));
        }
        n = n - 1;
    }
    proof {
        lemma_root_len_prefix(p@, n as int);
    }
    slice_chars(p, 0, n)
}

pub(crate) fn last_sep_before_chars(p: &Vec<char>, from: usize, end: usize) -> (r: Option<usize>)
    requires
        from <= end <= p.len(),
    ensures
        match r {
            Some(k) => k as int == last_sep_before(p@, from as int, end as int) && from <= k < end,
            None => last_sep_before(p@, from as int, end as int) < 0,
        },
{
    let mut e = end;
    while e > from
        invariant
            from <= e <= end <= p.len(),
            last_sep_before(p@, from as int, end as int) == last_sep_before(
                p@,
                from as int,
                e as int,
            ),
        decreases e,
    {
        if is_sep_char(p[e - 1]) {
            return Some(e - 1);
        }
        e = e - 1;
    }
    None
}

/// The last separator before `end`, when there is one, lies in `from..end`.
pub proof fn lemma_last_sep_bounds(p: Seq<char>, from: int, end: int)
    ensures
        last_sep_before(p, from, end) == -1 || from <= last_sep_before(p, from, end) < end,
    decreases end - from,
{
    if end > from && !is_sep(p[end - 1]) {
        lemma_last_sep_bounds(p, from, end - 1);
    }
}

/// `Path::parent` of a path.
pub fn parent_chars(p: &Vec<char>) -> (r: Option<Vec<char>>)
    ensures
        match r {
            Some(v) => parent_of(p@) == Some(v@),
            None => parent_of(p@) is None,
        },
{
    let t = trim_seps_chars(p);
    let r = root_len_chars(&t);
    if t.len() <= r {
        return None;
    }
    match last_sep_before_chars(&t, r, t.len()) {
        None => Some(slice_chars(&t, 0, r)),
        Some(k) => {
            let head = slice_chars(&t, 0, k);
            Some(trim_seps_chars(&head))
        },
    }
}

/// `Path::file_name` of a path.
pub fn file_name_chars(p: &Vec<char>) -> (r: Option<Vec<char>>)
    ensures
        match r {
            Some(v) => file_name_of(p@) == Some(v@),
            None => file_name_of(p@) is None,
        },
{
    let t = trim_seps_chars(p);
    let r = root_len_chars(&t);
    let start = match last_sep_before_chars(&t, r, t.len()) {
        None => r,
        Some(k) => k + 1,
    };
    let name = slice_chars(&t, start, t.len());
    if name.len() == 0 || (name.len() == 2 && name[0] == '.' && name[1] == '.') {
        assert(name.len() == 0 || name@ == seq!['.', '.']);
        None
    } else {
        assert(name@ != seq!['.', '.']);
        Some(name)
    }
}

/// `base` joined with `p` as `PathBuf::push` does on Windows.
pub fn join_chars(base: &Vec<char>, p: &Vec<char>) -> (r: Vec<char>)
    ensures
        r@ == join_path(base@, p@),
{
    if is_absolute_chars(p) || has_drive_chars(p) {
        p.clone()
    } else if p.len() > 0 && is_sep_char(p[0]) {
        if has_drive_chars(base) {
            let d = slice_chars(base, 0, 2);
            concat_chars(&d, p)
        } else {
            p.clone()
        }
    } else if base.len() == 0 || is_sep_char(base[base.len() - 1]) || (base.len() == 2
        && has_drive_chars(base)) {
        concat_chars(base, p)
    } else {
        let mut r = base.clone();
        r.push('\\');
        append_chars(&mut r, p);
        r
    }
}

/// `base` joined with `p`.
pub fn join_str(base: &str, p: &str) -> (r: String)
    ensures
        r@ == join_path(base@, p@),
{
    let b = chars_of(base);
    let v = chars_of(p);
    let j = join_chars(&b, &v);
    string_of(j.as_slice())
}

/// A value taken as given when it is an absolute path, else joined onto
/// `base` (or onto `.` when there is no base).
pub open spec fn absolutize_spec(base: Option<Seq<char>>, value: Seq<char>) -> Seq<char> {
    if is_absolute(value) {
        value
    } else {
        match base {
            Some(b) => join_path(b, value),
            None => join_path(seq!['.'], value),
        }
    }
}

/// Resolves a manifest-relative value against the manifest's directory.
pub fn absolutize(base: Option<&str>, value: &str) -> (r: String)
    ensures
        r@ == absolutize_spec(
            match base {
                Some(b) => Some(b@),
                None => None,
            },
            value@,
        ),
{
    let v = chars_of(value);
    if is_absolute_chars(&v) {
        return string_of(v.as_slice());
    }
    let b = match base {
        Some(b) => chars_of(b),
        None => {
            let mut d: Vec<char> = Vec::new();
            d.push('.');
            d
        },
    };
    let j = join_chars(&b, &v);
    string_of(j.as_slice())
}

/// The non-empty pieces of a path between separators.
pub open spec fn parts(p: Seq<char>) -> Seq<Seq<char>>
    decreases p.len(),
{
    if p.len() == 0 {
        seq![]
    } else {
        let k = last_sep_before(p, 0, p.len() as int);
        proof {
            lemma_last_sep_bounds(p, 0, p.len() as int);
        }
        let tail = p.subrange(k + 1, p.len() as int);
        let init = parts(p.take(if k < 0 {
            0
        } else {
            k
        }));
        if tail.len() == 0 {
            init
        } else {
            init.push(tail)
        }
    }
}

/// A path opens with a separator.
pub open spec fn rooted(p: Seq<char>) -> bool {
    p.len() > 0 && is_sep(p[0])
}

/// `Path::starts_with`: `b`'s components are a prefix of `a`'s.
pub open spec fn path_starts_with(a: Seq<char>, b: Seq<char>) -> bool {
    &&& rooted(a) == rooted(b)
    &&& parts(b).len() <= parts(a).len()
    &&& parts(a).take(parts(b).len() as int) == parts(b)
}

/// The non-empty pieces of a path between separators.
pub fn parts_chars(p: &Vec<char>) -> (r: Vec<Vec<char>>)
    ensures
        r@.len() == parts(p@).len(),
        forall|i: int| 0 <= i < r@.len() ==> #[trigger] r@[i]@ == parts(p@)[i],
    decreases p.len(),
{
    if p.len() == 0 {
        return Vec::new();
    }
    proof {
        lemma_last_sep_bounds(p@, 0, p@.len() as int);
    }
    let (k1, init_len) = match last_sep_before_chars(p, 0, p.len()) {
        None => (0usize, 0usize),
        Some(k) => (k + 1, k),
    };
    let tail = slice_chars(p, k1, p.len());
    let head = slice_chars(p, 0, init_len);
    let ghost k = last_sep_before(p@, 0, p@.len() as int);
    assert(head@ == p@.take(if k < 0 { 0 } else { k }));
    assert(tail@ == p@.subrange(k + 1, p@.len() as int));
    let mut r = parts_chars(&head);
    if tail.len() != 0 {
        r.push(tail);
        assert(parts(p@) == parts(head@).push(tail@));
    } else {
        assert(parts(p@) == parts(head@));
    }
    r
}

/// Whether path `a` starts with path `b`, component by component.
pub fn path_starts_with_chars(a: &Vec<char>, b: &Vec<char>) -> (r: bool)
    ensures
        r == path_starts_with(a@, b@),
{
    let ra = a.len() > 0 && is_sep_char(a[0]);
    let rb = b.len() > 0 && is_sep_char(b[0]);
    if ra != rb {
        return false;
    }
    let pa = parts_chars(a);
    let pb = parts_chars(b);
    if pb.len() > pa.len() {
        return false;
    }
    let mut i: usize = 0;
    while i < pb.len()
        invariant
            pb.len() <= pa.len(),
            pa@.len() == parts(a@).len(),
            pb@.len() == parts(b@).len(),
            forall|j: int| 0 <= j < pa@.len() ==> #[trigger] pa@[j]@ == parts(a@)[j],
            forall|j: int| 0 <= j < pb@.len() ==> #[trigger] pb@[j]@ == parts(b@)[j],
            i <= pb.len(),
            forall|j: int| 0 <= j < i ==> parts(a@)[j] == parts(b@)[j],
        decreases pb.len() - i,
    {
        let x = &pa[i];
        let y = &pb[i];
        assert(x@ == parts(a@)[i as int]);
        assert(y@ == parts(b@)[i as int]);
        if x.len() != y.len() || !has_prefix(x, y) {
            proof {
                if x@.len() == y@.len() {
                    assert(x@.take(y@.len() as int) =~= x@);
                }
            }
            assert(parts(a@)[i as int] != parts(b@)[i as int]);
            assert(parts(a@).take(parts(b@).len() as int)[i as int] != parts(b@)[i as int]);
            return false;
        }
        assert(x@.take(y@.len() as int) == x@);
        i = i + 1;
    }
    assert(parts(a@).take(parts(b@).len() as int) == parts(b@));
    true
}

/// The last component of a path without its extension (`Path::file_stem`).
pub open spec fn stem_of(name: Seq<char>) -> Seq<char> {
    let k = last_dot(name, name.len() as int);
    if name == seq!['.', '.'] || k <= 0 {
        name
    } else {
        name.take(k)
    }
}

/// Index of the last `.` before `end`, or -1.
pub open spec fn last_dot(s: Seq<char>, end: int) -> int
    decreases end,
{
    if end <= 0 {
        -1
    } else if s[end - 1] == '.' {
        end - 1
    } else {
        last_dot(s, end - 1)
    }
}

/// The stem of a file name (`Path::file_stem` of its last component).
pub fn stem_chars(name: &Vec<char>) -> (r: Vec<char>)
    ensures
        r@ == stem_of(name@),
{
    let mut k: usize = name.len();
    while k > 0 && name[k - 1] != '.'
        invariant
            k <= name.len(),
            last_dot(name@, name@.len() as int) == last_dot(name@, k as int),
        decreases k,
    {
        k = k - 1;
    }
    let is_dotdot = name.len() == 2 && name[0] == '.' && name[1] == '.';
    proof {
        if name@.len() == 2 && name@[0] == '.' && name@[1] == '.' {
            assert(name@ =~= seq!['.', '.']);
        }
        if is_dotdot == false {
            assert(name@ != seq!['.', '.']) by {
                if name@ == seq!['.', '.'] {
                    assert(name@.len() == 2 && name@[0] == '.' && name@[1] == '.');
                }
            }
        }
    }
    if is_dotdot || k <= 1 {
        name.clone()
    } else {
        slice_chars(name, 0, k - 1)
    }
}

/// A Windows drive root such as `C:\`, or a UNC root such as
/// `\\server\share` (a leading `\\` followed by at most one more `\`).
/// The drive case compares bytes: a non-ASCII first character never
/// leaves `:` at byte one.
pub open spec fn is_windows_root_spec(s: Seq<char>) -> bool {
    ||| (s.len() == 3 && (s[0] as u32) < 128 && s[1] == ':' && s[2] == '\\')
    ||| (starts_with(s, seq!['\\', '\\']) && count_backslashes(s.skip(2)) <= 1)
}

/// Number of `\` characters in a sequence.
pub open spec fn count_backslashes(s: Seq<char>) -> nat
    decreases s.len(),
{
    if s.len() == 0 {
        0
    } else {
        count_backslashes(s.drop_last()) + if s.last() == '\\' {
            1nat
        } else {
            0nat
        }
    }
}

fn count_backslashes_from(s: &Vec<char>, from: usize) -> (r: usize)
    requires
        from <= s.len(),
    ensures
        r == count_backslashes(s@.skip(from as int)),
{
    let mut n: usize = 0;
    let mut i: usize = from;
    while i < s.len()
        invariant
            from <= i <= s.len(),
            n == count_backslashes(s@.subrange(from as int, i as int)),
            n <= i - from,
        decreases s.len() - i,
    {
        assert(s@.subrange(from as int, i + 1).drop_last() == s@.subrange(from as int, i as int));
        if s[i] == '\\' {
            n = n + 1;
        }
        i = i + 1;
    }
    assert(s@.subrange(from as int, s.len() as int) == s@.skip(from as int));
    n
}

/// Whether the text is a bare Windows root (`C:\` or `\\server\share`).
pub fn is_windows_root_chars(s: &Vec<char>) -> (r: bool)
    ensures
        r == is_windows_root_spec(s@),
{
    if s.len() == 3 && (s[0] as u32) < 128 && s[1] == ':' && s[2] == '\\' {
        return true;
    }
    let mut pre: Vec<char> = Vec::new();
    pre.push('\\');
    pre.push('\\');
    assert(pre@ == seq!['\\', '\\']);
    if has_prefix(s, &pre) {
        count_backslashes_from(s, 2) <= 1
    } else {
        false
    }
}

/// Whether the text is a bare Windows root (`C:\` or `\\server\share`).
pub fn is_windows_root(path: &str) -> (r: bool)
    ensures
        r == is_windows_root_spec(path@),
{
    let s = chars_of(path);
    is_windows_root_chars(&s)
}

/// `/` turned into `\`.
pub open spec fn backslashed(c: char) -> char {
    if c == '/' {
        '\\'
    } else {
        c
    }
}

/// A path with verbatim prefixes removed: `\\?\UNC\x` becomes `\\x` and
/// `\\?\x` becomes `x`.
pub open spec fn strip_verbatim(s: Seq<char>) -> Seq<char> {
    let unc = seq!['\\', '\\', '?', '\\', 'U', 'N', 'C', '\\'];
    let verb = seq!['\\', '\\', '?', '\\'];
    if starts_with(s, unc) {
        seq!['\\', '\\'] + s.skip(8)
    } else if starts_with(s, verb) {
        s.skip(4)
    } else {
        s
    }
}

/// Drops trailing `\` characters until the text is empty, is a root, or no
/// longer ends with `\`.
pub open spec fn trim_compare_tail(s: Seq<char>) -> Seq<char>
    decreases s.len(),
{
    if s.len() > 0 && s.last() == '\\' && !is_windows_root_spec(s) {
        trim_compare_tail(s.drop_last())
    } else {
        s
    }
}

/// The text two paths are compared by when they cannot be canonicalized:
/// separators unified to `\`, verbatim prefixes removed, trailing `\`
/// dropped (roots excepted) and ASCII letters lower-cased.
pub open spec fn normalized_for_compare(p: Seq<char>) -> Seq<char> {
    lower_seq(trim_compare_tail(strip_verbatim(p.map_values(|c: char| backslashed(c)))))
}

/// Normalizes a path for a case-insensitive comparison.
pub fn normalize_path_for_compare(path: &str) -> (r: String)
    ensures
        r@ == normalized_for_compare(path@),
{
    let src = chars_of(path);
    let mut v: Vec<char> = Vec::new();
    let mut i: usize = 0;
    while i < src.len()
        invariant
            i <= src.len(),
            v@ == src@.take(i as int).map_values(|c: char| backslashed(c)),
        decreases src.len() - i,
    {
        let c = src[i];
        v.push(if c == '/' { '\\' } else { c });
        i = i + 1;
        assert(v@ == src@.take(i as int).map_values(|c: char| backslashed(c)));
    }
    assert(src@.take(src.len() as int) == src@);
    let ghost mapped = v@;
    let unc = chars_of("\\\\?\\UNC\\");
    let verb = chars_of("\\\\?\\");
    proof {
        reveal_strlit("\\\\?\\UNC\\");
        reveal_strlit("\\\\?\\");
        assert(unc@ == seq!['\\', '\\', '?', '\\', 'U', 'N', 'C', '\\']);
        assert(verb@ == seq!['\\', '\\', '?', '\\']);
    }
    let mut w: Vec<char> = if has_prefix(&v, &unc) {
        let mut w: Vec<char> = Vec::new();
        w.push('\\');
        w.push('\\');
        let rest = slice_chars(&v, 8, v.len());
        append_chars(&mut w, &rest);
        assert(w@ == seq!['\\', '\\'] + v@.skip(8));
        w
    } else if has_prefix(&v, &verb) {
        slice_chars(&v, 4, v.len())
    } else {
        v
    };
    assert(w@ == strip_verbatim(mapped));
    while w.len() > 0 && w[w.len() - 1] == '\\' && !is_windows_root_chars(&w)
        invariant
            trim_compare_tail(w@) == trim_compare_tail(strip_verbatim(mapped)),
        decreases w.len(),
    {
        w.pop();
    }
    let low = lower_chars(&w);
    string_of(low.as_slice())
}

/// A character kept by `sanitize_registry_component`.
pub open spec fn registry_safe(c: char) -> bool {
    ('a' <= c <= 'z') || ('A' <= c <= 'Z') || ('0' <= c <= '9') || c == '-' || c == '_'
}

/// Each character outside `[A-Za-z0-9_-]` replaced by `_`.
pub open spec fn sanitized(s: Seq<char>) -> Seq<char> {
    s.map_values(
        |c: char|
            if registry_safe(c) {
                c
            } else {
                '_'
            },
    )
}

/// A registry key component derived from free text: unsafe characters become
/// `_`, and empty text becomes `covenant_setup`.
pub fn sanitize_registry_component(value: &str) -> (r: String)
    ensures
        value@.len() == 0 ==> r@ == "covenant_setup"@,
        value@.len() > 0 ==> r@ == sanitized(value@),
{
    let src = chars_of(value);
    if src.len() == 0 {
        return String::from_str("covenant_setup");
    }
    let mut v: Vec<char> = Vec::new();
    let mut i: usize = 0;
    while i < src.len()
        invariant
            i <= src.len(),
            v@ == sanitized(src@.take(i as int)),
        decreases src.len() - i,
    {
        let c = src[i];
        let keep = ('a' <= c && c <= 'z') || ('A' <= c && c <= 'Z') || ('0' <= c && c <= '9') || c
            == '-' || c == '_';
        v.push(if keep { c } else { '_' });
        i = i + 1;
        assert(v@ == sanitized(src@.take(i as int)));
    }
    assert(src@.take(src.len() as int) == src@);
    string_of(v.as_slice())
}

/// Every `'` doubled, for a PowerShell single-quoted literal.
pub open spec fn ps_quoted(s: Seq<char>) -> Seq<char>
    decreases s.len(),
{
    if s.len() == 0 {
        seq![]
    } else {
        ps_quoted(s.drop_last()) + if s.last() == '\'' {
            seq!['\'', '\'']
        } else {
            seq![s.last()]
        }
    }
}

/// Escapes a value for a PowerShell single-quoted string by doubling `'`.
pub fn powershell_single_quote(value: &str) -> (r: String)
    ensures
        r@ == ps_quoted(value@),
{
    let src = chars_of(value);
    let mut v: Vec<char> = Vec::new();
    let mut i: usize = 0;
    while i < src.len()
        invariant
            i <= src.len(),
            v@ == ps_quoted(src@.take(i as int)),
        decreases src.len() - i,
    {
        assert(src@.take(i + 1).drop_last() == src@.take(i as int));
        if src[i] == '\'' {
            v.push('\'');
            v.push('\'');
        } else {
            v.push(src[i]);
        }
        i = i + 1;
    }
    assert(src@.take(src.len() as int) == src@);
    string_of(v.as_slice())
}

/// What `sanitize_registry_component` returns for a text.
pub open spec fn sanitized_component(value: Seq<char>) -> Seq<char> {
    if value.len() == 0 {
        "covenant_setup"@
    } else {
        sanitized(value)
    }
}

/// A sanitized component is never empty and holds only `[A-Za-z0-9_-]`;
/// non-empty text keeps its length.
pub proof fn law_sanitized_component_is_registry_safe(value: Seq<char>)
    ensures
        sanitized_component(value).len() > 0,
        forall|i: int|
            0 <= i < sanitized_component(value).len() ==> registry_safe(
                #[trigger] sanitized_component(value)[i],
            ),
        value.len() > 0 ==> sanitized_component(value).len() == value.len(),
{
    reveal_strlit("covenant_setup");
}

/// The text a PowerShell single-quoted literal's body stands for: each
/// `''` is one `'`.
pub open spec fn ps_unquoted(s: Seq<char>) -> Seq<char>
    decreases s.len(),
{
    if s.len() == 0 {
        seq![]
    } else if s.len() >= 2 && s[0] == '\'' && s[1] == '\'' {
        seq!['\''] + ps_unquoted(s.skip(2))
    } else {
        seq![s[0]] + ps_unquoted(s.skip(1))
    }
}

proof fn lemma_ps_quoted_push(s: Seq<char>, c: char)
    ensures
        ps_quoted(s.push(c)) == ps_quoted(s) + if c == '\'' {
            seq!['\'', '\'']
        } else {
            seq![c]
        },
{
    assert(s.push(c).drop_last() =~= s);
}

proof fn lemma_ps_quoted_cons(c: char, s: Seq<char>)
    ensures
        ps_quoted(seq![c] + s) == (if c == '\'' {
            seq!['\'', '\'']
        } else {
            seq![c]
        }) + ps_quoted(s),
    decreases s.len(),
{
    let head = if c == '\'' {
        seq!['\'', '\'']
    } else {
        seq![c]
    };
    if s.len() == 0 {
        assert(seq![c] + s =~= Seq::<char>::empty().push(c));
        lemma_ps_quoted_push(Seq::<char>::empty(), c);
        assert(ps_quoted(Seq::<char>::empty()) =~= Seq::<char>::empty());
        assert(head + ps_quoted(s) =~= head);
        assert(Seq::<char>::empty() + head =~= head);
    } else {
        let init = s.drop_last();
        let last = s.last();
        lemma_ps_quoted_cons(c, init);
        assert(seq![c] + s =~= (seq![c] + init).push(last));
        lemma_ps_quoted_push(seq![c] + init, last);
        lemma_ps_quoted_push(init, last);
        assert(s == init.push(last));
        let tail = if last == '\'' {
            seq!['\'', '\'']
        } else {
            seq![last]
        };
        assert((head + ps_quoted(init)) + tail =~= head + (ps_quoted(init) + tail));
    }
}

/// Quoting for PowerShell loses nothing: reading the quoted body back as a
/// single-quoted literal gives back the text it started from.
pub proof fn law_powershell_quote_round_trip(s: Seq<char>)
    ensures
        ps_unquoted(ps_quoted(s)) == s,
    decreases s.len(),
{
    if s.len() == 0 {
        assert(ps_quoted(s) =~= Seq::<char>::empty());
    } else {
        let c = s[0];
        let rest = s.skip(1);
        assert(s =~= seq![c] + rest);
        lemma_ps_quoted_cons(c, rest);
        law_powershell_quote_round_trip(rest);
        let q = ps_quoted(s);
        if c == '\'' {
            assert(q == seq!['\'', '\''] + ps_quoted(rest));
            assert(q.skip(2) =~= ps_quoted(rest));
        } else {
            assert(q == seq![c] + ps_quoted(rest));
            assert(q.skip(1) =~= ps_quoted(rest));
            if q.len() >= 2 && q[0] == '\'' {
                assert(false);
            }
        }
    }
}

} // verus!
