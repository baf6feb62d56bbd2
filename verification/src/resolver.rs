//! Expansion of the manifest's known-folder tokens and the test of whether
//! a path lies under a folder that needs administrator rights.
use vstd::prelude::*;
use crate::paths::backslashed;
use crate::text::{
    chars_of, has_prefix, lower_chars, lower_seq, replace_all, replace_chars, starts_with,
    string_of,
};

verus! {

/// Resolves `{ProgramFilesX64}`, `{ProgramFilesX86}`, `{LocalAppData}` and
/// `{Desktop}` to the machine's folders, and knows which roots are
/// administrator-only.
pub struct PathResolver {
    pub program_files_x64: String,
    pub program_files_x86: String,
    pub local_app_data: String,
    pub desktop: String,
    pub admin_roots: Vec<String>,
}

/// A path as compared against administrator roots: `/` unified to `\`,
/// ASCII letters lower-cased, and every trailing `\` dropped.
pub open spec fn admin_form(p: Seq<char>) -> Seq<char> {
    trim_backslashes(lower_seq(p.map_values(|c: char| backslashed(c))))
}

/// Drops every trailing `\`.
pub open spec fn trim_backslashes(s: Seq<char>) -> Seq<char>
    decreases s.len(),
{
    if s.len() > 0 && s.last() == '\\' {
        trim_backslashes(s.drop_last())
    } else {
        s
    }
}

/// The administrator roots built from the given folders: each in
/// [`admin_form`], empty ones left out, order kept.
pub open spec fn admin_roots_of(folders: Seq<Seq<char>>) -> Seq<Seq<char>>
    decreases folders.len(),
{
    if folders.len() == 0 {
        seq![]
    } else {
        let init = admin_roots_of(folders.drop_last());
        let f = admin_form(folders.last());
        if f.len() == 0 {
            init
        } else {
            init.push(f)
        }
    }
}

/// `path` is one of `roots` or lies below one of them.
pub open spec fn under_admin_root(roots: Seq<Seq<char>>, path: Seq<char>) -> bool {
    let c = admin_form(path);
    exists|i: int|
        0 <= i < roots.len() && (c == #[trigger] roots[i] || starts_with(c, roots[i] + seq!['\\']))
}

/// Puts a path into [`admin_form`].
pub fn normalize_for_admin_match(path: &str) -> (r: Vec<char>)
    ensures
        r@ == admin_form(path@),
{
    let src = chars_of(path);
    let mut v: Vec<char> = Vec::new();
    let mut i: usize = 0;
    while i < src.len()
        invariant
            i <= src.len(),
            v@ == src@.take(i as int).map_values(|c: char| backslashed(c)),
        decreases src.len() - i,
    {
        let c = src[i];
        v.push(if c == '/' { '\\' } else { c });
        i = i + 1;
        assert(v@ == src@.take(i as int).map_values(|c: char| backslashed(c)));
    }
    assert(src@.take(src.len() as int) == src@);
    let mut low = lower_chars(&v);
    while low.len() > 0 && low[low.len() - 1] == '\\'
        invariant
            trim_backslashes(low@) == admin_form(path@),
        decreases low.len(),
    {
        low.pop();
    }
    low
}

/// The administrator roots for a list of folders.
pub fn build_admin_roots(roots: &Vec<String>) -> (r: Vec<String>)
    ensures
        r@.map_values(|s: String| s@) == admin_roots_of(roots@.map_values(|s: String| s@)),
{
    let ghost folders = roots@.map_values(|s: String| s@);
    let mut out: Vec<String> = Vec::new();
    let mut i: usize = 0;
    while i < roots.len()
        invariant
            i <= roots.len(),
            folders == roots@.map_values(|s: String| s@),
            out@.map_values(|s: String| s@) == admin_roots_of(folders.take(i as int)),
        decreases roots.len() - i,
    {
        let f = normalize_for_admin_match(roots[i].as_str());
        let ghost prev = out@;
        assert(folders.take(i + 1).drop_last() == folders.take(i as int));
        assert(folders.take(i + 1).last() == roots@[i as int]@);
        if f.len() > 0 {
            out.push(string_of(f.as_slice()));
            assert(out@.map_values(|s: String| s@) =~= prev.map_values(|s: String| s@).push(f@));
        }
        i = i + 1;
    }
    assert(folders.take(roots.len() as int) == folders);
    out
}

/// `input` with each known-folder token replaced, in the order
/// `{ProgramFilesX64}`, `{ProgramFilesX86}`, `{LocalAppData}`, `{Desktop}`.
pub open spec fn resolved(
    pf64: Seq<char>,
    pf86: Seq<char>,
    local: Seq<char>,
    desktop: Seq<char>,
    input: Seq<char>,
) -> Seq<char> {
    replace_all(
        replace_all(
            replace_all(replace_all(input, "{ProgramFilesX64}"@, pf64), "{ProgramFilesX86}"@, pf86),
            "{LocalAppData}"@,
            local,
        ),
        "{Desktop}"@,
        desktop,
    )
}

impl PathResolver {
    /// The administrator roots, normalized.
    pub open spec fn roots(&self) -> Seq<Seq<char>> {
        self.admin_roots@.map_values(|s: String| s@)
    }

    /// What `resolve` gives for `input`.
    pub open spec fn resolve_spec(&self, input: Seq<char>) -> Seq<char> {
        resolved(
            self.program_files_x64@,
            self.program_files_x86@,
            self.local_app_data@,
            self.desktop@,
            input,
        )
    }

    /// A resolver for the given known folders; Program Files (both
    /// architectures) and the Windows directory are the administrator roots.
    pub fn new(
        program_files_x64: String,
        program_files_x86: String,
        local_app_data: String,
        desktop: String,
        windows_dir: String,
    ) -> (r: Self)
        ensures
            r.program_files_x64 == program_files_x64,
            r.program_files_x86 == program_files_x86,
            r.local_app_data == local_app_data,
            r.desktop == desktop,
            r.roots() == admin_roots_of(seq![program_files_x64@, program_files_x86@, windows_dir@]),
    {
        let mut folders: Vec<String> = Vec::new();
        folders.push(program_files_x64.clone());
        folders.push(program_files_x86.clone());
        folders.push(windows_dir);
        let admin_roots = build_admin_roots(&folders);
        assert(folders@.map_values(|s: String| s@) =~= seq![
            program_files_x64@,
            program_files_x86@,
            windows_dir@,
        ]);
        PathResolver { program_files_x64, program_files_x86, local_app_data, desktop, admin_roots }
    }

    /// A resolver with empty known folders and the given administrator roots.
    pub fn with_roots_for_test(roots: Vec<String>) -> (r: Self)
        ensures
            r.program_files_x64@ == Seq::<char>::empty(),
            r.program_files_x86@ == Seq::<char>::empty(),
            r.local_app_data@ == Seq::<char>::empty(),
            r.desktop@ == Seq::<char>::empty(),
            r.roots() == admin_roots_of(roots@.map_values(|s: String| s@)),
    {
        let admin_roots = build_admin_roots(&roots);
        PathResolver {
            program_files_x64: String::new(),
            program_files_x86: String::new(),
            local_app_data: String::new(),
            desktop: String::new(),
            admin_roots,
        }
    }

    /// Expands the known-folder tokens in a manifest value. With folders
    /// and a rest free of `{`, each token followed by the rest gives its
    /// own folder followed by the rest, and text free of `{` stays as it is.
    pub fn resolve(&self, input: &str) -> (r: String)
        ensures
            r@ == self.resolve_spec(input@),
            forall|s: Seq<char>|
                #![trigger brace_free(s)]
                folders_brace_free(*self) && brace_free(s) && input@ == "{ProgramFilesX64}"@ + s
                    ==> r@ == self.program_files_x64@ + s,
            forall|s: Seq<char>|
                #![trigger brace_free(s)]
                folders_brace_free(*self) && brace_free(s) && input@ == "{ProgramFilesX86}"@ + s
                    ==> r@ == self.program_files_x86@ + s,
            forall|s: Seq<char>|
                #![trigger brace_free(s)]
                folders_brace_free(*self) && brace_free(s) && input@ == "{LocalAppData}"@ + s
                    ==> r@ == self.local_app_data@ + s,
            forall|s: Seq<char>|
                #![trigger brace_free(s)]
                folders_brace_free(*self) && brace_free(s) && input@ == "{Desktop}"@ + s ==> r@
                    == self.desktop@ + s,
            folders_brace_free(*self) && brace_free(input@) ==> r@ == input@,
    {
        proof {
            if folders_brace_free(*self) {
                assert forall|s: Seq<char>| #[trigger] brace_free(s) implies {
                    &&& self.resolve_spec("{ProgramFilesX64}"@ + s) == self.program_files_x64@ + s
                    &&& self.resolve_spec("{ProgramFilesX86}"@ + s) == self.program_files_x86@ + s
                    &&& self.resolve_spec("{LocalAppData}"@ + s) == self.local_app_data@ + s
                    &&& self.resolve_spec("{Desktop}"@ + s) == self.desktop@ + s
                } by {
                    law_resolve_expands_each_token(*self, s);
                }
                if brace_free(input@) {
                    law_resolve_expands_each_token(*self, input@);
                }
            }
        }
        let v = chars_of(input);
        let t1 = chars_of("{ProgramFilesX64}");
        let t2 = chars_of("{ProgramFilesX86}");
        let t3 = chars_of("{LocalAppData}");
        let t4 = chars_of("{Desktop}");
        let f1 = chars_of(self.program_files_x64.as_str());
        let f2 = chars_of(self.program_files_x86.as_str());
        let f3 = chars_of(self.local_app_data.as_str());
        let f4 = chars_of(self.desktop.as_str());
        let r1 = replace_chars(&v, &t1, &f1);
        let r2 = replace_chars(&r1, &t2, &f2);
        let r3 = replace_chars(&r2, &t3, &f3);
        let r4 = replace_chars(&r3, &t4, &f4);
        string_of(r4.as_slice())
    }

    /// Whether a path is an administrator root or lies below one.
    pub fn requires_admin(&self, path: &str) -> (r: bool)
        ensures
            r == under_admin_root(self.roots(), path@),
    {
        let c = normalize_for_admin_match(path);
        let mut i: usize = 0;
        while i < self.admin_roots.len()
            invariant
                i <= self.admin_roots.len(),
                c@ == admin_form(path@),
                forall|j: int|
                    0 <= j < i ==> !(c@ == #[trigger] self.roots()[j] || starts_with(
                        c@,
                        self.roots()[j] + seq!['\\'],
                    )),
            decreases self.admin_roots.len() - i,
        {
            let root = chars_of(self.admin_roots[i].as_str());
            assert(root@ == self.roots()[i as int]);
            let mut with_sep = root.clone();
            with_sep.push('\\');
            assert(with_sep@ == root@ + seq!['\\']);
            let equal = c.len() == root.len() && has_prefix(&c, &root);
            proof {
                if c@.len() == root@.len() {
                    assert(c@.take(root@.len() as int) =~= c@);
                }
            }
            if equal || has_prefix(&c, &with_sep) {
                assert(c@ == self.roots()[i as int] || starts_with(c@, self.roots()[i as int] + seq!['\\']));
                return true;
            }
            i = i + 1;
        }
        false
    }
}

proof fn lemma_admin_form_chars(p: Seq<char>, q: Seq<char>)
    requires
        p.len() == q.len(),
        forall|i: int| 0 <= i < p.len() ==> crate::text::lower(backslashed(#[trigger] p[i]))
            == crate::text::lower(backslashed(q[i])),
    ensures
        admin_form(p) == admin_form(q),
{
    assert(lower_seq(p.map_values(|c: char| backslashed(c))) =~= lower_seq(
        q.map_values(|c: char| backslashed(c)),
    ));
}

/// Whether a path needs administrator rights does not depend on ASCII
/// case, on `/` versus `\`, or on a trailing `\`.
pub proof fn law_admin_check_ignores_case_and_separators(roots: Seq<Seq<char>>, p: Seq<char>)
    ensures
        under_admin_root(roots, lower_seq(p)) == under_admin_root(roots, p),
        under_admin_root(roots, p.map_values(|c: char| backslashed(c))) == under_admin_root(
            roots,
            p,
        ),
        under_admin_root(roots, p.push('\\')) == under_admin_root(roots, p),
{
    let l = lower_seq(p);
    assert forall|i: int| 0 <= i < l.len() implies crate::text::lower(backslashed(#[trigger] l[i]))
        == crate::text::lower(backslashed(p[i])) by {
        let c = p[i];
        assert(l[i] == crate::text::lower(c));
        if 'A' <= c <= 'Z' {
            assert('a' <= crate::text::lower(c) <= 'z');
        }
    }
    lemma_admin_form_chars(l, p);
    let b = p.map_values(|c: char| backslashed(c));
    assert forall|i: int| 0 <= i < b.len() implies crate::text::lower(backslashed(#[trigger] b[i]))
        == crate::text::lower(backslashed(p[i])) by {
        assert(b[i] == backslashed(p[i]));
    }
    lemma_admin_form_chars(b, p);
    let t = p.push('\\');
    let mt = lower_seq(t.map_values(|c: char| backslashed(c)));
    let mp = lower_seq(p.map_values(|c: char| backslashed(c)));
    assert(mt =~= mp.push('\\'));
    assert(mt.drop_last() =~= mp);
    assert(admin_form(t) == admin_form(p));
}

/// Text without a `{`, so without any known-folder token.
pub open spec fn brace_free(s: Seq<char>) -> bool {
    forall|i: int| 0 <= i < s.len() ==> #[trigger] s[i] != '{'
}

proof fn lemma_brace_free_concat(a: Seq<char>, b: Seq<char>)
    requires
        brace_free(a),
        brace_free(b),
    ensures
        brace_free(a + b),
{
    assert forall|i: int| 0 <= i < (a + b).len() implies #[trigger] (a + b)[i] != '{' by {
        if i < a.len() {
            assert((a + b)[i] == a[i]);
        } else {
            assert((a + b)[i] == b[i - a.len()]);
        }
    }
}

/// Replacing a pattern that opens with `{` leaves brace-free text alone.
proof fn lemma_replace_brace_free(x: Seq<char>, pat: Seq<char>, rep: Seq<char>)
    requires
        brace_free(x),
        pat.len() > 0,
        pat[0] == '{',
    ensures
        replace_all(x, pat, rep) == x,
    decreases x.len(),
{
    if x.len() >= pat.len() {
        assert(x.take(pat.len() as int)[0] == x[0]);
        assert(x.take(pat.len() as int) != pat);
        let rest = x.skip(1);
        assert forall|i: int| 0 <= i < rest.len() implies #[trigger] rest[i] != '{' by {
            assert(rest[i] == x[i + 1]);
        }
        lemma_replace_brace_free(rest, pat, rep);
        assert(seq![x[0]] + rest =~= x);
    }
}

/// Replacing a pattern at the front of the text.
proof fn lemma_replace_at_front(pat: Seq<char>, s: Seq<char>, rep: Seq<char>)
    requires
        pat.len() > 0,
    ensures
        replace_all(pat + s, pat, rep) == rep + replace_all(s, pat, rep),
{
    assert((pat + s).take(pat.len() as int) =~= pat);
    assert((pat + s).skip(pat.len() as int) =~= s);
}

/// Replacing a pattern that differs from the text's front at position `k`,
/// when the rest of the text holds no `{`, leaves the text alone.
proof fn lemma_replace_other_token(y: Seq<char>, pat: Seq<char>, rep: Seq<char>, k: int)
    requires
        pat.len() > 0,
        pat[0] == '{',
        y.len() > 0,
        brace_free(y.skip(1)),
        0 <= k < pat.len(),
        k < y.len() ==> y[k] != pat[k],
    ensures
        replace_all(y, pat, rep) == y,
{
    if y.len() >= pat.len() {
        assert(y.take(pat.len() as int)[k] == y[k]);
        assert(y.take(pat.len() as int) != pat);
        lemma_replace_brace_free(y.skip(1), pat, rep);
        assert(seq![y[0]] + y.skip(1) =~= y);
    }
}

/// A token followed by brace-free text holds no `{` after its first
/// character.
proof fn lemma_token_tail(t: Seq<char>, x: Seq<char>)
    requires
        t.len() > 0,
        brace_free(t.skip(1)),
        brace_free(x),
    ensures
        brace_free((t + x).skip(1)),
{
    assert forall|i: int| 0 <= i < (t + x).skip(1).len() implies #[trigger] (t + x).skip(1)[i]
        != '{' by {
        if i + 1 < t.len() {
            assert((t + x).skip(1)[i] == t.skip(1)[i]);
        } else {
            assert((t + x).skip(1)[i] == x[i + 1 - t.len()]);
        }
    }
}

/// The folders a resolver expands to hold no `{`.
pub open spec fn folders_brace_free(r: PathResolver) -> bool {
    &&& brace_free(r.program_files_x64@)
    &&& brace_free(r.program_files_x86@)
    &&& brace_free(r.local_app_data@)
    &&& brace_free(r.desktop@)
}

/// Each known-folder token expands to its own folder: for folders and a
/// rest without `{`, `{ProgramFilesX64}` followed by the rest resolves to the
/// 64-bit Program Files folder followed by the rest, `{ProgramFilesX86}` to
/// the 32-bit one, `{LocalAppData}` to the local application data folder
/// and `{Desktop}` to the desktop; text without `{` is left as it is.
pub proof fn law_resolve_expands_each_token(r: PathResolver, s: Seq<char>)
    requires
        folders_brace_free(r),
        brace_free(s),
    ensures
        r.resolve_spec("{ProgramFilesX64}"@ + s) == r.program_files_x64@ + s,
        r.resolve_spec("{ProgramFilesX86}"@ + s) == r.program_files_x86@ + s,
        r.resolve_spec("{LocalAppData}"@ + s) == r.local_app_data@ + s,
        r.resolve_spec("{Desktop}"@ + s) == r.desktop@ + s,
        r.resolve_spec(s) == s,
{
    reveal_strlit("{ProgramFilesX64}");
    reveal_strlit("{ProgramFilesX86}");
    reveal_strlit("{LocalAppData}");
    reveal_strlit("{Desktop}");
    let t1 = "{ProgramFilesX64}"@;
    let t2 = "{ProgramFilesX86}"@;
    let t3 = "{LocalAppData}"@;
    let t4 = "{Desktop}"@;
    let f1 = r.program_files_x64@;
    let f2 = r.program_files_x86@;
    let f3 = r.local_app_data@;
    let f4 = r.desktop@;
    lemma_brace_free_concat(f1, s);
    lemma_brace_free_concat(f2, s);
    lemma_brace_free_concat(f3, s);
    lemma_brace_free_concat(f4, s);
    assert(brace_free(t1.skip(1)));
    assert(brace_free(t2.skip(1)));
    assert(brace_free(t3.skip(1)));
    assert(brace_free(t4.skip(1)));
    lemma_token_tail(t1, s);
    lemma_token_tail(t2, s);
    lemma_token_tail(t3, s);
    lemma_token_tail(t4, s);
    assert(brace_free((t1 + s).skip(1)));
    assert(brace_free((t2 + s).skip(1)));
    assert(brace_free((t3 + s).skip(1)));
    assert(brace_free((t4 + s).skip(1)));
    // {ProgramFilesX64}
    lemma_replace_at_front(t1, s, f1);
    lemma_replace_brace_free(s, t1, f1);
    lemma_replace_brace_free(f1 + s, t2, f2);
    lemma_replace_brace_free(f1 + s, t3, f3);
    lemma_replace_brace_free(f1 + s, t4, f4);
    // {ProgramFilesX86}
    assert((t2 + s)[14] == '8');
    lemma_replace_other_token(t2 + s, t1, f1, 14);
    lemma_replace_at_front(t2, s, f2);
    lemma_replace_brace_free(s, t2, f2);
    lemma_replace_brace_free(f2 + s, t3, f3);
    lemma_replace_brace_free(f2 + s, t4, f4);
    // {LocalAppData}
    assert((t3 + s)[1] == 'L');
    lemma_replace_other_token(t3 + s, t1, f1, 1);
    lemma_replace_other_token(t3 + s, t2, f2, 1);
    lemma_replace_at_front(t3, s, f3);
    lemma_replace_brace_free(s, t3, f3);
    lemma_replace_brace_free(f3 + s, t4, f4);
    // {Desktop}
    assert((t4 + s)[1] == 'D');
    lemma_replace_other_token(t4 + s, t1, f1, 1);
    lemma_replace_other_token(t4 + s, t2, f2, 1);
    lemma_replace_other_token(t4 + s, t3, f3, 1);
    lemma_replace_at_front(t4, s, f4);
    lemma_replace_brace_free(s, t4, f4);
    // brace-free text
    lemma_replace_brace_free(s, t1, f1);
    lemma_replace_brace_free(s, t2, f2);
    lemma_replace_brace_free(s, t3, f3);
    lemma_replace_brace_free(s, t4, f4);
}

} // verus!
