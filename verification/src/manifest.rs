//! The developer-authored install manifest and the naming and spacing rules
//! it must obey.
use vstd::prelude::*;
use crate::error::AppError;
use crate::journal::PurgeSpec;
use crate::paths::{file_name_chars, file_name_of};
use crate::text::{
    append_chars, chars_of, contains_whitespace, decimal, decimal_chars, has_ws, is_ws,
    remove_whitespace, string_of, without_ws,
};

verus! {

/// What a manifest declares: the application's name and the mutations the
/// install applies, plus the namespaces an uninstall purges.
#[derive(Debug, Clone, PartialEq, Eq)]
pub struct InstallManifest {
    pub app_name: String,
    pub directories: Vec<String>,
    pub files: Vec<FileSpec>,
    pub registry: Vec<RegistrySpec>,
    pub shortcuts: Vec<ShortcutSpec>,
    pub scripts: Vec<ScriptSpec>,
    pub purge: PurgeSpec,
    pub support_contact: Option<String>,
}

/// A payload file copied to a destination.
#[derive(Debug, Clone, PartialEq, Eq)]
pub struct FileSpec {
    pub source: String,
    pub destination: String,
}

/// A registry string value to write.
#[derive(Debug, Clone, PartialEq, Eq)]
pub struct RegistrySpec {
    pub key: String,
    pub name: String,
    pub value: String,
}

/// A shell link to create.
#[derive(Debug, Clone, PartialEq, Eq)]
pub struct ShortcutSpec {
    pub path: String,
    pub target: String,
    pub arguments: Option<String>,
    pub working_directory: Option<String>,
    pub description: Option<String>,
}

/// A post-install command to run.
#[derive(Debug, Clone, PartialEq, Eq)]
pub struct ScriptSpec {
    pub command: String,
    pub args: Vec<String>,
    pub working_directory: Option<String>,
}

/// The bundled manifest's required file name: `{app}-install.toml` with all
/// whitespace removed from the application name, or `install.toml` when
/// nothing is left.
pub open spec fn expected_name(app_name: Seq<char>) -> Seq<char> {
    let n = without_ws(app_name);
    if n.len() == 0 {
        "install.toml"@
    } else {
        n + "-install.toml"@
    }
}

/// The manifest file name an application name requires.
pub fn expected_manifest_file_name(app_name: &str) -> (r: String)
    ensures
        r@ == expected_name(app_name@),
{
    let v = chars_of(app_name);
    let mut n = remove_whitespace(&v);
    if n.len() == 0 {
        String::from_str("install.toml")
    } else {
        let s = chars_of("-install.toml");
        append_chars(&mut n, &s);
        string_of(n.as_slice())
    }
}

/// The rejection text for a manifest path with whitespace.
pub open spec fn path_spacing_text(path: Seq<char>) -> Seq<char> {
    "Manifest path cannot contain spaces: "@ + path
}

/// Packaging-time rule only: the manifest's own path must hold no
/// whitespace. (Installs accept any directory, since bundled installs
/// extract under `%TEMP%`, which may contain spaces.)
pub fn enforce_manifest_path_spacing(manifest_path: &str) -> (r: Result<(), AppError>)
    ensures
        !has_ws(manifest_path@) ==> r is Ok,
        has_ws(manifest_path@) ==> (r matches Err(AppError::Message(m)) && m@ == path_spacing_text(
            manifest_path@,
        )),
{
    if contains_whitespace(manifest_path) {
        let mut m = chars_of("Manifest path cannot contain spaces: ");
        let p = chars_of(manifest_path);
        append_chars(&mut m, &p);
        return Err(AppError::Message(string_of(m.as_slice())));
    }
    Ok(())
}

/// The rejection text for a manifest whose file name breaks the convention.
pub open spec fn file_name_mismatch_text(
    expected: Seq<char>,
    app_name: Seq<char>,
    actual: Seq<char>,
) -> Seq<char> {
    "Manifest file name must be '"@ + expected + "' for app_name '"@ + app_name + "'; got '"@
        + actual + "'"@
}

/// Install-time rule: the manifest's file name must be
/// [`expected_name`] of its application name; its directory is free.
pub fn enforce_manifest_file_name(manifest_path: &str, manifest: &InstallManifest) -> (r: Result<
    (),
    AppError,
>)
    ensures
        match file_name_of(manifest_path@) {
            None => r matches Err(AppError::Message(m)) && m@
                == "Manifest path must include a file name"@,
            Some(actual) => if actual == expected_name(manifest.app_name@) {
                r is Ok
            } else {
                r matches Err(AppError::Message(m)) && m@ == file_name_mismatch_text(
                    expected_name(manifest.app_name@),
                    manifest.app_name@,
                    actual,
                )
            },
        },
{
    let expected = expected_manifest_file_name(manifest.app_name.as_str());
    let p = chars_of(manifest_path);
    let actual = match file_name_chars(&p) {
        Some(a) => a,
        None => {
            return Err(AppError::Message(String::from_str("Manifest path must include a file name")));
        },
    };
    let e = chars_of(expected.as_str());
    let same = actual.len() == e.len() && crate::text::has_prefix(&actual, &e);
    proof {
        if actual@.len() == e@.len() {
            assert(actual@.take(e@.len() as int) =~= actual@);
        }
    }
    if !same {
        let mut m = chars_of("Manifest file name must be '");
        append_chars(&mut m, &e);
        let s1 = chars_of("' for app_name '");
        append_chars(&mut m, &s1);
        let a = chars_of(manifest.app_name.as_str());
        append_chars(&mut m, &a);
        let s2 = chars_of("'; got '");
        append_chars(&mut m, &s2);
        append_chars(&mut m, &actual);
        let s3 = chars_of("'");
        append_chars(&mut m, &s3);
        return Err(AppError::Message(string_of(m.as_slice())));
    }
    Ok(())
}

/// A checked manifest field: its display name and its value.
pub type Check = (Seq<char>, Seq<char>);

/// `prefix[i]suffix`.
pub open spec fn indexed(prefix: Seq<char>, i: nat, suffix: Seq<char>) -> Seq<char> {
    prefix + "["@ + decimal(i) + "]"@ + suffix
}

/// A check for an optional value: none when the value is absent.
pub open spec fn opt_check(name: Seq<char>, value: Option<String>) -> Seq<Check> {
    match value {
        Some(v) => seq![(name, v@)],
        None => seq![],
    }
}

/// Checks `prefix[0]` .. `prefix[n-1]` for the first `n` values.
pub open spec fn list_checks(prefix: Seq<char>, values: Seq<String>, n: nat) -> Seq<Check>
    decreases n,
{
    if n == 0 {
        seq![]
    } else {
        list_checks(prefix, values, (n - 1) as nat).push(
            (indexed(prefix, (n - 1) as nat, seq![]), values[n - 1]@),
        )
    }
}

/// Checks for the first `n` file entries: source, then destination.
pub open spec fn file_checks(files: Seq<FileSpec>, n: nat) -> Seq<Check>
    decreases n,
{
    if n == 0 {
        seq![]
    } else {
        let i = (n - 1) as nat;
        file_checks(files, i) + seq![
            (indexed("files"@, i, ".source"@), files[i as int].source@),
            (indexed("files"@, i, ".destination"@), files[i as int].destination@),
        ]
    }
}

/// Checks for the first `n` registry entries: key, name, value.
pub open spec fn registry_checks(entries: Seq<RegistrySpec>, n: nat) -> Seq<Check>
    decreases n,
{
    if n == 0 {
        seq![]
    } else {
        let i = (n - 1) as nat;
        registry_checks(entries, i) + seq![
            (indexed("registry"@, i, ".key"@), entries[i as int].key@),
            (indexed("registry"@, i, ".name"@), entries[i as int].name@),
            (indexed("registry"@, i, ".value"@), entries[i as int].value@),
        ]
    }
}

/// Checks for the first `n` shortcuts: path, target, then arguments and
/// working directory when present. Descriptions may hold spaces.
pub open spec fn shortcut_checks(items: Seq<ShortcutSpec>, n: nat) -> Seq<Check>
    decreases n,
{
    if n == 0 {
        seq![]
    } else {
        let i = (n - 1) as nat;
        shortcut_checks(items, i) + seq![
            (indexed("shortcuts"@, i, ".path"@), items[i as int].path@),
            (indexed("shortcuts"@, i, ".target"@), items[i as int].target@),
        ] + opt_check(indexed("shortcuts"@, i, ".arguments"@), items[i as int].arguments)
            + opt_check(
            indexed("shortcuts"@, i, ".working_directory"@),
            items[i as int].working_directory,
        )
    }
}

/// Checks for the first `n` scripts: command, each argument, then the
/// working directory when present.
pub open spec fn script_checks(items: Seq<ScriptSpec>, n: nat) -> Seq<Check>
    decreases n,
{
    if n == 0 {
        seq![]
    } else {
        let i = (n - 1) as nat;
        let s = items[i as int];
        script_checks(items, i) + seq![(indexed("scripts"@, i, ".command"@), s.command@)]
            + list_checks(indexed("scripts"@, i, ".args"@), s.args@, s.args@.len())
            + opt_check(indexed("scripts"@, i, ".working_directory"@), s.working_directory)
    }
}

/// Every field the spacing rule covers, in the order it is checked.
pub open spec fn manifest_checks(m: InstallManifest) -> Seq<Check> {
    list_checks("directories.paths"@, m.directories@, m.directories@.len()) + file_checks(
        m.files@,
        m.files@.len(),
    ) + registry_checks(m.registry@, m.registry@.len()) + shortcut_checks(
        m.shortcuts@,
        m.shortcuts@.len(),
    ) + script_checks(m.scripts@, m.scripts@.len()) + list_checks(
        "purge.registry_branches"@,
        m.purge.registry_branches@,
        m.purge.registry_branches@.len(),
    ) + list_checks("purge.paths"@, m.purge.paths@, m.purge.paths@.len())
}

/// The rejection text for a field holding whitespace.
pub open spec fn field_spacing_text(name: Seq<char>, value: Seq<char>) -> Seq<char> {
    "Manifest field '"@ + name + "' cannot contain spaces or other whitespace: "@ + value
}

/// What a check of the given fields returns: success when no value holds
/// whitespace, else the rejection of the first field that does.
pub open spec fn spacing_result(checks: Seq<Check>, r: Result<(), AppError>) -> bool {
    match r {
        Ok(()) => forall|k: int| 0 <= k < checks.len() ==> !has_ws(#[trigger] checks[k].1),
        Err(AppError::Message(m)) => exists|k: int|
            0 <= k < checks.len() && has_ws(#[trigger] checks[k].1) && (forall|j: int|
                0 <= j < k ==> !has_ws(#[trigger] checks[j].1)) && m@ == field_spacing_text(
                checks[k].0,
                checks[k].1,
            ),
        Err(_) => false,
    }
}

/// Some field the spacing rule covers holds whitespace, stated on the
/// manifest: a directory, a file's source or destination, a registry
/// entry's key, name or value, a shortcut's path, target, arguments or
/// working directory, a script's command, one of its arguments or its
/// working directory, a purge branch or a purge path. (The application
/// name and shortcut descriptions may hold spaces.)
pub open spec fn spaced_field(m: InstallManifest) -> bool {
    ||| exists|i: int| 0 <= i < m.directories@.len() && has_ws(#[trigger] m.directories@[i]@)
    ||| exists|i: int|
        0 <= i < m.files@.len() && (has_ws((#[trigger] m.files@[i]).source@) || has_ws(
            m.files@[i].destination@,
        ))
    ||| exists|i: int|
        0 <= i < m.registry@.len() && (has_ws((#[trigger] m.registry@[i]).key@) || has_ws(
            m.registry@[i].name@,
        ) || has_ws(m.registry@[i].value@))
    ||| exists|i: int|
        0 <= i < m.shortcuts@.len() && (has_ws((#[trigger] m.shortcuts@[i]).path@) || has_ws(
            m.shortcuts@[i].target@,
        ) || (m.shortcuts@[i].arguments matches Some(a) && has_ws(a@)) || (
        m.shortcuts@[i].working_directory matches Some(w) && has_ws(w@)))
    ||| exists|i: int|
        0 <= i < m.scripts@.len() && (has_ws((#[trigger] m.scripts@[i]).command@) || (exists|k: int|
            0 <= k < m.scripts@[i].args@.len() && has_ws(#[trigger] m.scripts@[i].args@[k]@)) || (
        m.scripts@[i].working_directory matches Some(w) && has_ws(w@)))
    ||| exists|i: int|
        0 <= i < m.purge.registry_branches@.len() && has_ws(
            #[trigger] m.purge.registry_branches@[i]@,
        )
    ||| exists|i: int| 0 <= i < m.purge.paths@.len() && has_ws(#[trigger] m.purge.paths@[i]@)
}

/// Some check covers the value `v`.
pub open spec fn holds_value(cs: Seq<Check>, v: Seq<char>) -> bool {
    exists|k: int| 0 <= k < cs.len() && (#[trigger] cs[k]).1 == v
}

proof fn lemma_holds_left(a: Seq<Check>, b: Seq<Check>, v: Seq<char>)
    requires
        holds_value(a, v),
    ensures
        holds_value(a + b, v),
{
    let k = choose|k: int| 0 <= k < a.len() && (#[trigger] a[k]).1 == v;
    assert((a + b)[k] == a[k]);
}

proof fn lemma_holds_right(a: Seq<Check>, b: Seq<Check>, v: Seq<char>)
    requires
        holds_value(b, v),
    ensures
        holds_value(a + b, v),
{
    let k = choose|k: int| 0 <= k < b.len() && (#[trigger] b[k]).1 == v;
    assert((a + b)[a.len() + k] == b[k]);
}

proof fn lemma_holds_at(cs: Seq<Check>, k: int, v: Seq<char>)
    requires
        0 <= k < cs.len(),
        cs[k].1 == v,
    ensures
        holds_value(cs, v),
{
    assert((cs[k]).1 == v);
}

proof fn lemma_list_holds(prefix: Seq<char>, values: Seq<String>, n: nat, i: int)
    requires
        0 <= i < n,
    ensures
        holds_value(list_checks(prefix, values, n), values[i]@),
    decreases n,
{
    let prev = list_checks(prefix, values, (n - 1) as nat);
    let x = (indexed(prefix, (n - 1) as nat, seq![]), values[n - 1]@);
    assert(list_checks(prefix, values, n) == prev.push(x));
    if i == n - 1 {
        lemma_holds_at(prev.push(x), prev.len() as int, values[i]@);
    } else {
        lemma_list_holds(prefix, values, (n - 1) as nat, i);
        assert(prev.push(x) =~= prev + seq![x]);
        lemma_holds_left(prev, seq![x], values[i]@);
    }
}

proof fn lemma_file_holds(files: Seq<FileSpec>, n: nat, i: int)
    requires
        0 <= i < n,
    ensures
        holds_value(file_checks(files, n), files[i].source@),
        holds_value(file_checks(files, n), files[i].destination@),
    decreases n,
{
    let j = (n - 1) as nat;
    let prev = file_checks(files, j);
    let tail = seq![
        (indexed("files"@, j, ".source"@), files[j as int].source@),
        (indexed("files"@, j, ".destination"@), files[j as int].destination@),
    ];
    assert(file_checks(files, n) == prev + tail);
    if i == j {
        lemma_holds_at(tail, 0, files[i].source@);
        lemma_holds_at(tail, 1, files[i].destination@);
        lemma_holds_right(prev, tail, files[i].source@);
        lemma_holds_right(prev, tail, files[i].destination@);
    } else {
        lemma_file_holds(files, j, i);
        lemma_holds_left(prev, tail, files[i].source@);
        lemma_holds_left(prev, tail, files[i].destination@);
    }
}

proof fn lemma_registry_holds(entries: Seq<RegistrySpec>, n: nat, i: int)
    requires
        0 <= i < n,
    ensures
        holds_value(registry_checks(entries, n), entries[i].key@),
        holds_value(registry_checks(entries, n), entries[i].name@),
        holds_value(registry_checks(entries, n), entries[i].value@),
    decreases n,
{
    let j = (n - 1) as nat;
    let prev = registry_checks(entries, j);
    let tail = seq![
        (indexed("registry"@, j, ".key"@), entries[j as int].key@),
        (indexed("registry"@, j, ".name"@), entries[j as int].name@),
        (indexed("registry"@, j, ".value"@), entries[j as int].value@),
    ];
    assert(registry_checks(entries, n) == prev + tail);
    if i == j {
        lemma_holds_at(tail, 0, entries[i].key@);
        lemma_holds_at(tail, 1, entries[i].name@);
        lemma_holds_at(tail, 2, entries[i].value@);
        lemma_holds_right(prev, tail, entries[i].key@);
        lemma_holds_right(prev, tail, entries[i].name@);
        lemma_holds_right(prev, tail, entries[i].value@);
    } else {
        lemma_registry_holds(entries, j, i);
        lemma_holds_left(prev, tail, entries[i].key@);
        lemma_holds_left(prev, tail, entries[i].name@);
        lemma_holds_left(prev, tail, entries[i].value@);
    }
}

proof fn lemma_shortcut_holds(items: Seq<ShortcutSpec>, n: nat, i: int)
    requires
        0 <= i < n,
    ensures
        holds_value(shortcut_checks(items, n), items[i].path@),
        holds_value(shortcut_checks(items, n), items[i].target@),
        items[i].arguments matches Some(a) ==> holds_value(shortcut_checks(items, n), a@),
        items[i].working_directory matches Some(w) ==> holds_value(shortcut_checks(items, n), w@),
    decreases n,
{
    let j = (n - 1) as nat;
    let prev = shortcut_checks(items, j);
    let t1 = seq![
        (indexed("shortcuts"@, j, ".path"@), items[j as int].path@),
        (indexed("shortcuts"@, j, ".target"@), items[j as int].target@),
    ];
    let t2 = opt_check(indexed("shortcuts"@, j, ".arguments"@), items[j as int].arguments);
    let t3 = opt_check(
        indexed("shortcuts"@, j, ".working_directory"@),
        items[j as int].working_directory,
    );
    let all = shortcut_checks(items, n);
    assert(all == prev + t1 + t2 + t3);
    if i == j {
        lemma_holds_at(t1, 0, items[i].path@);
        lemma_holds_at(t1, 1, items[i].target@);
        lemma_holds_right(prev, t1, items[i].path@);
        lemma_holds_right(prev, t1, items[i].target@);
        lemma_holds_left(prev + t1, t2, items[i].path@);
        lemma_holds_left(prev + t1, t2, items[i].target@);
        lemma_holds_left(prev + t1 + t2, t3, items[i].path@);
        lemma_holds_left(prev + t1 + t2, t3, items[i].target@);
        if let Some(a) = items[i].arguments {
            lemma_holds_at(t2, 0, a@);
            lemma_holds_right(prev + t1, t2, a@);
            lemma_holds_left(prev + t1 + t2, t3, a@);
        }
        if let Some(w) = items[i].working_directory {
            lemma_holds_at(t3, 0, w@);
            lemma_holds_right(prev + t1 + t2, t3, w@);
        }
    } else {
        lemma_shortcut_holds(items, j, i);
        let rest = t1 + t2 + t3;
        assert(all =~= prev + rest);
        lemma_holds_left(prev, rest, items[i].path@);
        lemma_holds_left(prev, rest, items[i].target@);
        if let Some(a) = items[i].arguments {
            lemma_holds_left(prev, rest, a@);
        }
        if let Some(w) = items[i].working_directory {
            lemma_holds_left(prev, rest, w@);
        }
    }
}

proof fn lemma_script_holds(items: Seq<ScriptSpec>, n: nat, i: int)
    requires
        0 <= i < n,
    ensures
        holds_value(script_checks(items, n), items[i].command@),
        forall|k: int|
            0 <= k < items[i].args@.len() ==> holds_value(
                script_checks(items, n),
                #[trigger] items[i].args@[k]@,
            ),
        items[i].working_directory matches Some(w) ==> holds_value(script_checks(items, n), w@),
    decreases n,
{
    let j = (n - 1) as nat;
    let s = items[j as int];
    let prev = script_checks(items, j);
    let t1 = seq![(indexed("scripts"@, j, ".command"@), s.command@)];
    let t2 = list_checks(indexed("scripts"@, j, ".args"@), s.args@, s.args@.len());
    let t3 = opt_check(indexed("scripts"@, j, ".working_directory"@), s.working_directory);
    let all = script_checks(items, n);
    assert(all == prev + t1 + t2 + t3);
    if i == j {
        lemma_holds_at(t1, 0, s.command@);
        lemma_holds_right(prev, t1, s.command@);
        lemma_holds_left(prev + t1, t2, s.command@);
        lemma_holds_left(prev + t1 + t2, t3, s.command@);
        assert forall|k: int| 0 <= k < items[i].args@.len() implies holds_value(
            all,
            #[trigger] items[i].args@[k]@,
        ) by {
            lemma_list_holds(indexed("scripts"@, j, ".args"@), s.args@, s.args@.len(), k);
            lemma_holds_right(prev + t1, t2, s.args@[k]@);
            lemma_holds_left(prev + t1 + t2, t3, s.args@[k]@);
        }
        if let Some(w) = s.working_directory {
            lemma_holds_at(t3, 0, w@);
            lemma_holds_right(prev + t1 + t2, t3, w@);
        }
    } else {
        lemma_script_holds(items, j, i);
        let rest = t1 + t2 + t3;
        assert(all =~= prev + rest);
        lemma_holds_left(prev, rest, items[i].command@);
        assert forall|k: int| 0 <= k < items[i].args@.len() implies holds_value(
            all,
            #[trigger] items[i].args@[k]@,
        ) by {
            lemma_holds_left(prev, rest, items[i].args@[k]@);
        }
        if let Some(w) = items[i].working_directory {
            lemma_holds_left(prev, rest, w@);
        }
    }
}

proof fn lemma_ws_rejected(checks: Seq<Check>, v: Seq<char>, r: Result<(), AppError>)
    requires
        spacing_result(checks, r),
        holds_value(checks, v),
        has_ws(v),
    ensures
        r matches Err(AppError::Message(_)),
{
    let k = choose|k: int| 0 <= k < checks.len() && (#[trigger] checks[k]).1 == v;
    assert(has_ws(checks[k].1));
}

/// A manifest that holds whitespace in any field the rule covers is
/// rejected: whatever the field (a directory, a file's source or
/// destination, a registry key, name or value, a shortcut's path, target,
/// arguments or working directory, a script's command, argument or working
/// directory, a purge branch or path), the check fails with a message.
pub proof fn law_spaced_field_is_rejected(m: InstallManifest, r: Result<(), AppError>)
    requires
        spacing_result(manifest_checks(m), r),
        spaced_field(m),
    ensures
        r matches Err(AppError::Message(_)),
{
    let p1 = list_checks("directories.paths"@, m.directories@, m.directories@.len());
    let f = file_checks(m.files@, m.files@.len());
    let g = registry_checks(m.registry@, m.registry@.len());
    let h = shortcut_checks(m.shortcuts@, m.shortcuts@.len());
    let sc = script_checks(m.scripts@, m.scripts@.len());
    let lb = list_checks(
        "purge.registry_branches"@,
        m.purge.registry_branches@,
        m.purge.registry_branches@.len(),
    );
    let lp = list_checks("purge.paths"@, m.purge.paths@, m.purge.paths@.len());
    let p2 = p1 + f;
    let p3 = p2 + g;
    let p4 = p3 + h;
    let p5 = p4 + sc;
    let p6 = p5 + lb;
    let all = p6 + lp;
    assert(manifest_checks(m) == all);
    // The value with whitespace, found in one part and lifted to the whole.
    let v: Seq<char> = if exists|i: int|
        0 <= i < m.directories@.len() && has_ws(#[trigger] m.directories@[i]@) {
        let i = choose|i: int| 0 <= i < m.directories@.len() && has_ws(#[trigger] m.directories@[i]@);
        lemma_list_holds("directories.paths"@, m.directories@, m.directories@.len(), i);
        let v = m.directories@[i]@;
        lemma_holds_left(p1, f, v);
        lemma_holds_left(p2, g, v);
        lemma_holds_left(p3, h, v);
        lemma_holds_left(p4, sc, v);
        lemma_holds_left(p5, lb, v);
        lemma_holds_left(p6, lp, v);
        v
    } else if exists|i: int|
        0 <= i < m.files@.len() && (has_ws((#[trigger] m.files@[i]).source@) || has_ws(
            m.files@[i].destination@,
        )) {
        let i = choose|i: int|
            0 <= i < m.files@.len() && (has_ws((#[trigger] m.files@[i]).source@) || has_ws(
                m.files@[i].destination@,
            ));
        lemma_file_holds(m.files@, m.files@.len(), i);
        let v = if has_ws(m.files@[i].source@) {
            m.files@[i].source@
        } else {
            m.files@[i].destination@
        };
        lemma_holds_right(p1, f, v);
        lemma_holds_left(p2, g, v);
        lemma_holds_left(p3, h, v);
        lemma_holds_left(p4, sc, v);
        lemma_holds_left(p5, lb, v);
        lemma_holds_left(p6, lp, v);
        v
    } else if exists|i: int|
        0 <= i < m.registry@.len() && (has_ws((#[trigger] m.registry@[i]).key@) || has_ws(
            m.registry@[i].name@,
        ) || has_ws(m.registry@[i].value@)) {
        let i = choose|i: int|
            0 <= i < m.registry@.len() && (has_ws((#[trigger] m.registry@[i]).key@) || has_ws(
                m.registry@[i].name@,
            ) || has_ws(m.registry@[i].value@));
        lemma_registry_holds(m.registry@, m.registry@.len(), i);
        let e = m.registry@[i];
        let v = if has_ws(e.key@) {
            e.key@
        } else if has_ws(e.name@) {
            e.name@
        } else {
            e.value@
        };
        lemma_holds_right(p2, g, v);
        lemma_holds_left(p3, h, v);
        lemma_holds_left(p4, sc, v);
        lemma_holds_left(p5, lb, v);
        lemma_holds_left(p6, lp, v);
        v
    } else if exists|i: int|
        0 <= i < m.shortcuts@.len() && (has_ws((#[trigger] m.shortcuts@[i]).path@) || has_ws(
            m.shortcuts@[i].target@,
        ) || (m.shortcuts@[i].arguments matches Some(a) && has_ws(a@)) || (
        m.shortcuts@[i].working_directory matches Some(w) && has_ws(w@))) {
        let i = choose|i: int|
            0 <= i < m.shortcuts@.len() && (has_ws((#[trigger] m.shortcuts@[i]).path@) || has_ws(
                m.shortcuts@[i].target@,
            ) || (m.shortcuts@[i].arguments matches Some(a) && has_ws(a@)) || (
            m.shortcuts@[i].working_directory matches Some(w) && has_ws(w@)));
        lemma_shortcut_holds(m.shortcuts@, m.shortcuts@.len(), i);
        let e = m.shortcuts@[i];
        let v = if has_ws(e.path@) {
            e.path@
        } else if has_ws(e.target@) {
            e.target@
        } else if e.arguments matches Some(a) && has_ws(a@) {
            e.arguments.unwrap()@
        } else {
            e.working_directory.unwrap()@
        };
        lemma_holds_right(p3, h, v);
        lemma_holds_left(p4, sc, v);
        lemma_holds_left(p5, lb, v);
        lemma_holds_left(p6, lp, v);
        v
    } else if exists|i: int|
        0 <= i < m.scripts@.len() && (has_ws((#[trigger] m.scripts@[i]).command@) || (exists|k: int|
            0 <= k < m.scripts@[i].args@.len() && has_ws(#[trigger] m.scripts@[i].args@[k]@)) || (
        m.scripts@[i].working_directory matches Some(w) && has_ws(w@))) {
        let i = choose|i: int|
            0 <= i < m.scripts@.len() && (has_ws((#[trigger] m.scripts@[i]).command@) || (exists|
                k: int,
            |
                0 <= k < m.scripts@[i].args@.len() && has_ws(#[trigger] m.scripts@[i].args@[k]@))
                || (m.scripts@[i].working_directory matches Some(w) && has_ws(w@)));
        lemma_script_holds(m.scripts@, m.scripts@.len(), i);
        let e = m.scripts@[i];
        let v = if has_ws(e.command@) {
            e.command@
        } else if exists|k: int| 0 <= k < e.args@.len() && has_ws(#[trigger] e.args@[k]@) {
            let k = choose|k: int| 0 <= k < e.args@.len() && has_ws(#[trigger] e.args@[k]@);
            e.args@[k]@
        } else {
            e.working_directory.unwrap()@
        };
        lemma_holds_right(p4, sc, v);
        lemma_holds_left(p5, lb, v);
        lemma_holds_left(p6, lp, v);
        v
    } else if exists|i: int|
        0 <= i < m.purge.registry_branches@.len() && has_ws(
            #[trigger] m.purge.registry_branches@[i]@,
        ) {
        let i = choose|i: int|
            0 <= i < m.purge.registry_branches@.len() && has_ws(
                #[trigger] m.purge.registry_branches@[i]@,
            );
        lemma_list_holds(
            "purge.registry_branches"@,
            m.purge.registry_branches@,
            m.purge.registry_branches@.len(),
            i,
        );
        let v = m.purge.registry_branches@[i]@;
        lemma_holds_right(p5, lb, v);
        lemma_holds_left(p6, lp, v);
        v
    } else {
        let i = choose|i: int| 0 <= i < m.purge.paths@.len() && has_ws(#[trigger] m.purge.paths@[i]@);
        lemma_list_holds("purge.paths"@, m.purge.paths@, m.purge.paths@.len(), i);
        let v = m.purge.paths@[i]@;
        lemma_holds_right(p6, lp, v);
        v
    };
    lemma_ws_rejected(all, v, r);
}

/// Every check of `cs` whose value holds whitespace makes `p` true.
pub open spec fn ws_implies(cs: Seq<Check>, p: bool) -> bool {
    forall|k: int| 0 <= k < cs.len() && has_ws(#[trigger] cs[k].1) ==> p
}

proof fn lemma_ws_concat(a: Seq<Check>, b: Seq<Check>, p: bool)
    requires
        ws_implies(a, p),
        ws_implies(b, p),
    ensures
        ws_implies(a + b, p),
{
    assert forall|k: int| 0 <= k < (a + b).len() && has_ws(#[trigger] (a + b)[k].1) implies p by {
        if k < a.len() {
            assert((a + b)[k] == a[k]);
        } else {
            assert((a + b)[k] == b[k - a.len()]);
        }
    }
}

proof fn lemma_ws_weaken(a: Seq<Check>, p: bool, q: bool)
    requires
        ws_implies(a, p),
        p ==> q,
    ensures
        ws_implies(a, q),
{
}

proof fn lemma_opt_ws(name: Seq<char>, value: Option<String>)
    ensures
        ws_implies(opt_check(name, value), value matches Some(v) && has_ws(v@)),
{
}

proof fn lemma_list_ws(prefix: Seq<char>, values: Seq<String>, n: nat)
    ensures
        ws_implies(
            list_checks(prefix, values, n),
            exists|i: int| 0 <= i < n && has_ws(#[trigger] values[i]@),
        ),
    decreases n,
{
    if n > 0 {
        let j = (n - 1) as nat;
        lemma_list_ws(prefix, values, j);
        let prev = list_checks(prefix, values, j);
        let x = (indexed(prefix, j, seq![]), values[j as int]@);
        assert(list_checks(prefix, values, n) == prev + seq![x]);
        lemma_ws_weaken(
            prev,
            exists|i: int| 0 <= i < j && has_ws(#[trigger] values[i]@),
            exists|i: int| 0 <= i < n && has_ws(#[trigger] values[i]@),
        );
        assert(ws_implies(seq![x], exists|i: int| 0 <= i < n && has_ws(#[trigger] values[i]@)))
            by {
            assert forall|k: int| 0 <= k < seq![x].len() && has_ws(#[trigger] seq![x][k].1) implies exists|
                i: int,
            | 0 <= i < n && has_ws(#[trigger] values[i]@) by {
                assert(seq![x][k].1 == values[j as int]@);
            }
        }
        lemma_ws_concat(prev, seq![x], exists|i: int| 0 <= i < n && has_ws(#[trigger] values[i]@));
    }
}

proof fn lemma_file_ws(files: Seq<FileSpec>, n: nat)
    ensures
        ws_implies(
            file_checks(files, n),
            exists|i: int|
                0 <= i < n && (has_ws((#[trigger] files[i]).source@) || has_ws(
                    files[i].destination@,
                )),
        ),
    decreases n,
{
    let goal = exists|i: int|
        0 <= i < n && (has_ws((#[trigger] files[i]).source@) || has_ws(files[i].destination@));
    if n > 0 {
        let j = (n - 1) as nat;
        lemma_file_ws(files, j);
        let prev = file_checks(files, j);
        let tail = seq![
            (indexed("files"@, j, ".source"@), files[j as int].source@),
            (indexed("files"@, j, ".destination"@), files[j as int].destination@),
        ];
        assert(file_checks(files, n) == prev + tail);
        lemma_ws_weaken(
            prev,
            exists|i: int|
                0 <= i < j && (has_ws((#[trigger] files[i]).source@) || has_ws(
                    files[i].destination@,
                )),
            goal,
        );
        assert(ws_implies(tail, goal)) by {
            assert forall|k: int| 0 <= k < tail.len() && has_ws(#[trigger] tail[k].1) implies goal by {
                assert(has_ws(files[j as int].source@) || has_ws(files[j as int].destination@));
            }
        }
        lemma_ws_concat(prev, tail, goal);
    }
}

proof fn lemma_registry_ws(entries: Seq<RegistrySpec>, n: nat)
    ensures
        ws_implies(
            registry_checks(entries, n),
            exists|i: int|
                0 <= i < n && (has_ws((#[trigger] entries[i]).key@) || has_ws(entries[i].name@)
                    || has_ws(entries[i].value@)),
        ),
    decreases n,
{
    let goal = exists|i: int|
        0 <= i < n && (has_ws((#[trigger] entries[i]).key@) || has_ws(entries[i].name@) || has_ws(
            entries[i].value@,
        ));
    if n > 0 {
        let j = (n - 1) as nat;
        lemma_registry_ws(entries, j);
        let prev = registry_checks(entries, j);
        let tail = seq![
            (indexed("registry"@, j, ".key"@), entries[j as int].key@),
            (indexed("registry"@, j, ".name"@), entries[j as int].name@),
            (indexed("registry"@, j, ".value"@), entries[j as int].value@),
        ];
        assert(registry_checks(entries, n) == prev + tail);
        lemma_ws_weaken(
            prev,
            exists|i: int|
                0 <= i < j && (has_ws((#[trigger] entries[i]).key@) || has_ws(entries[i].name@)
                    || has_ws(entries[i].value@)),
            goal,
        );
        assert(ws_implies(tail, goal)) by {
            assert forall|k: int| 0 <= k < tail.len() && has_ws(#[trigger] tail[k].1) implies goal by {
                assert(has_ws(entries[j as int].key@) || has_ws(entries[j as int].name@) || has_ws(
                    entries[j as int].value@,
                ));
            }
        }
        lemma_ws_concat(prev, tail, goal);
    }
}

proof fn lemma_shortcut_ws(items: Seq<ShortcutSpec>, n: nat)
    ensures
        ws_implies(
            shortcut_checks(items, n),
            exists|i: int|
                0 <= i < n && (has_ws((#[trigger] items[i]).path@) || has_ws(items[i].target@) || (
                items[i].arguments matches Some(a) && has_ws(a@)) || (
                items[i].working_directory matches Some(w) && has_ws(w@))),
        ),
    decreases n,
{
    let goal = exists|i: int|
        0 <= i < n && (has_ws((#[trigger] items[i]).path@) || has_ws(items[i].target@) || (
        items[i].arguments matches Some(a) && has_ws(a@)) || (items[i].working_directory matches Some(
            w,
        ) && has_ws(w@)));
    if n > 0 {
        let j = (n - 1) as nat;
        lemma_shortcut_ws(items, j);
        let e = items[j as int];
        let prev = shortcut_checks(items, j);
        let t1 = seq![
            (indexed("shortcuts"@, j, ".path"@), e.path@),
            (indexed("shortcuts"@, j, ".target"@), e.target@),
        ];
        let t2 = opt_check(indexed("shortcuts"@, j, ".arguments"@), e.arguments);
        let t3 = opt_check(indexed("shortcuts"@, j, ".working_directory"@), e.working_directory);
        assert(shortcut_checks(items, n) == prev + t1 + t2 + t3);
        lemma_ws_weaken(
            prev,
            exists|i: int|
                0 <= i < j && (has_ws((#[trigger] items[i]).path@) || has_ws(items[i].target@) || (
                items[i].arguments matches Some(a) && has_ws(a@)) || (
                items[i].working_directory matches Some(w) && has_ws(w@))),
            goal,
        );
        assert(ws_implies(t1, goal)) by {
            assert forall|k: int| 0 <= k < t1.len() && has_ws(#[trigger] t1[k].1) implies goal by {
                assert(has_ws(items[j as int].path@) || has_ws(items[j as int].target@));
            }
        }
        lemma_opt_ws(indexed("shortcuts"@, j, ".arguments"@), e.arguments);
        lemma_opt_ws(indexed("shortcuts"@, j, ".working_directory"@), e.working_directory);
        if e.arguments matches Some(a) && has_ws(a@) {
            assert(items[j as int].arguments matches Some(a) && has_ws(a@));
        }
        if e.working_directory matches Some(w) && has_ws(w@) {
            assert(items[j as int].working_directory matches Some(w) && has_ws(w@));
        }
        lemma_ws_weaken(t2, e.arguments matches Some(a) && has_ws(a@), goal);
        lemma_ws_weaken(t3, e.working_directory matches Some(w) && has_ws(w@), goal);
        lemma_ws_concat(prev, t1, goal);
        lemma_ws_concat(prev + t1, t2, goal);
        lemma_ws_concat(prev + t1 + t2, t3, goal);
    }
}

proof fn lemma_script_ws(items: Seq<ScriptSpec>, n: nat)
    ensures
        ws_implies(
            script_checks(items, n),
            exists|i: int|
                0 <= i < n && (has_ws((#[trigger] items[i]).command@) || (exists|k: int|
                    0 <= k < items[i].args@.len() && has_ws(#[trigger] items[i].args@[k]@)) || (
                items[i].working_directory matches Some(w) && has_ws(w@))),
        ),
    decreases n,
{
    let goal = exists|i: int|
        0 <= i < n && (has_ws((#[trigger] items[i]).command@) || (exists|k: int|
            0 <= k < items[i].args@.len() && has_ws(#[trigger] items[i].args@[k]@)) || (
        items[i].working_directory matches Some(w) && has_ws(w@)));
    if n > 0 {
        let j = (n - 1) as nat;
        lemma_script_ws(items, j);
        let e = items[j as int];
        let prev = script_checks(items, j);
        let t1 = seq![(indexed("scripts"@, j, ".command"@), e.command@)];
        let t2 = list_checks(indexed("scripts"@, j, ".args"@), e.args@, e.args@.len());
        let t3 = opt_check(indexed("scripts"@, j, ".working_directory"@), e.working_directory);
        assert(script_checks(items, n) == prev + t1 + t2 + t3);
        lemma_ws_weaken(
            prev,
            exists|i: int|
                0 <= i < j && (has_ws((#[trigger] items[i]).command@) || (exists|k: int|
                    0 <= k < items[i].args@.len() && has_ws(#[trigger] items[i].args@[k]@)) || (
                items[i].working_directory matches Some(w) && has_ws(w@))),
            goal,
        );
        assert(ws_implies(t1, goal)) by {
            assert forall|k: int| 0 <= k < t1.len() && has_ws(#[trigger] t1[k].1) implies goal by {
                assert(has_ws(items[j as int].command@));
            }
        }
        lemma_list_ws(indexed("scripts"@, j, ".args"@), e.args@, e.args@.len());
        if exists|k: int| 0 <= k < e.args@.len() && has_ws(#[trigger] e.args@[k]@) {
            let k = choose|k: int| 0 <= k < e.args@.len() && has_ws(#[trigger] e.args@[k]@);
            assert(has_ws(items[j as int].args@[k]@));
        }
        lemma_ws_weaken(t2, exists|k: int| 0 <= k < e.args@.len() && has_ws(#[trigger] e.args@[k]@), goal);
        lemma_opt_ws(indexed("scripts"@, j, ".working_directory"@), e.working_directory);
        if e.working_directory matches Some(w) && has_ws(w@) {
            assert(items[j as int].working_directory matches Some(w) && has_ws(w@));
        }
        lemma_ws_weaken(t3, e.working_directory matches Some(w) && has_ws(w@), goal);
        lemma_ws_concat(prev, t1, goal);
        lemma_ws_concat(prev + t1, t2, goal);
        lemma_ws_concat(prev + t1 + t2, t3, goal);
    }
}

/// The application name and shortcut descriptions are free: a manifest
/// whose covered fields hold no whitespace passes the spacing rule,
/// whatever its application name and shortcut descriptions hold.
pub proof fn law_unspaced_fields_are_accepted(m: InstallManifest, r: Result<(), AppError>)
    requires
        spacing_result(manifest_checks(m), r),
        !spaced_field(m),
    ensures
        r is Ok,
{
    let p1 = list_checks("directories.paths"@, m.directories@, m.directories@.len());
    let f = file_checks(m.files@, m.files@.len());
    let g = registry_checks(m.registry@, m.registry@.len());
    let h = shortcut_checks(m.shortcuts@, m.shortcuts@.len());
    let sc = script_checks(m.scripts@, m.scripts@.len());
    let lb = list_checks(
        "purge.registry_branches"@,
        m.purge.registry_branches@,
        m.purge.registry_branches@.len(),
    );
    let lp = list_checks("purge.paths"@, m.purge.paths@, m.purge.paths@.len());
    let all = p1 + f + g + h + sc + lb + lp;
    assert(manifest_checks(m) == all);
    let goal = spaced_field(m);
    lemma_list_ws("directories.paths"@, m.directories@, m.directories@.len());
    lemma_file_ws(m.files@, m.files@.len());
    lemma_registry_ws(m.registry@, m.registry@.len());
    lemma_shortcut_ws(m.shortcuts@, m.shortcuts@.len());
    lemma_script_ws(m.scripts@, m.scripts@.len());
    lemma_list_ws(
        "purge.registry_branches"@,
        m.purge.registry_branches@,
        m.purge.registry_branches@.len(),
    );
    lemma_list_ws("purge.paths"@, m.purge.paths@, m.purge.paths@.len());
    lemma_ws_weaken(p1, exists|i: int| 0 <= i < m.directories@.len() && has_ws(#[trigger] m.directories@[i]@), goal);
    lemma_ws_weaken(
        f,
        exists|i: int|
            0 <= i < m.files@.len() && (has_ws((#[trigger] m.files@[i]).source@) || has_ws(
                m.files@[i].destination@,
            )),
        goal,
    );
    lemma_ws_weaken(
        g,
        exists|i: int|
            0 <= i < m.registry@.len() && (has_ws((#[trigger] m.registry@[i]).key@) || has_ws(
                m.registry@[i].name@,
            ) || has_ws(m.registry@[i].value@)),
        goal,
    );
    lemma_ws_weaken(
        h,
        exists|i: int|
            0 <= i < m.shortcuts@.len() && (has_ws((#[trigger] m.shortcuts@[i]).path@) || has_ws(
                m.shortcuts@[i].target@,
            ) || (m.shortcuts@[i].arguments matches Some(a) && has_ws(a@)) || (
            m.shortcuts@[i].working_directory matches Some(w) && has_ws(w@))),
        goal,
    );
    lemma_ws_weaken(
        sc,
        exists|i: int|
            0 <= i < m.scripts@.len() && (has_ws((#[trigger] m.scripts@[i]).command@) || (exists|
                k: int,
            |
                0 <= k < m.scripts@[i].args@.len() && has_ws(#[trigger] m.scripts@[i].args@[k]@))
                || (m.scripts@[i].working_directory matches Some(w) && has_ws(w@))),
        goal,
    );
    lemma_ws_weaken(
        lb,
        exists|i: int|
            0 <= i < m.purge.registry_branches@.len() && has_ws(
                #[trigger] m.purge.registry_branches@[i]@,
            ),
        goal,
    );
    lemma_ws_weaken(lp, exists|i: int| 0 <= i < m.purge.paths@.len() && has_ws(#[trigger] m.purge.paths@[i]@), goal);
    lemma_ws_concat(p1, f, goal);
    lemma_ws_concat(p1 + f, g, goal);
    lemma_ws_concat(p1 + f + g, h, goal);
    lemma_ws_concat(p1 + f + g + h, sc, goal);
    lemma_ws_concat(p1 + f + g + h + sc, lb, goal);
    lemma_ws_concat(p1 + f + g + h + sc + lb, lp, goal);
    if r is Err {
        assert(r matches Err(AppError::Message(_)));
    }
}

/// The executable checks list.
type CheckList = Vec<(Vec<char>, Vec<char>)>;

/// The views of a checks list.
pub open spec fn checks_view(v: Seq<(Vec<char>, Vec<char>)>) -> Seq<Check> {
    v.map_values(|c: (Vec<char>, Vec<char>)| (c.0@, c.1@))
}

fn indexed_name(prefix: &Vec<char>, i: usize, suffix: &str) -> (r: Vec<char>)
    ensures
        r@ == indexed(prefix@, i as nat, suffix@),
{
    let mut r = prefix.clone();
    r.push('[');
    let d = decimal_chars(i as u128);
    append_chars(&mut r, &d);
    r.push(']');
    let s = chars_of(suffix);
    append_chars(&mut r, &s);
    assert(r@ == prefix@ + "["@ + decimal(i as nat) + "]"@ + suffix@) by {
        reveal_strlit("[");
        reveal_strlit("]");
    }
    r
}

fn push_check(out: &mut CheckList, name: Vec<char>, value: &String)
    ensures
        checks_view(final(out)@) == checks_view(old(out)@).push((name@, value@)),
{
    let v = chars_of(value.as_str());
    out.push((name, v));
    assert(checks_view(out@) =~= checks_view(old(out)@).push((name@, value@)));
}

fn push_opt_check(out: &mut CheckList, name: Vec<char>, value: &Option<String>)
    ensures
        checks_view(final(out)@) == checks_view(old(out)@) + opt_check(name@, *value),
{
    match value {
        Some(v) => {
            push_check(out, name, v);
        },
        None => {
            assert(checks_view(out@) =~= checks_view(out@) + opt_check(name@, *value));
        },
    }
}

fn push_list_checks(out: &mut CheckList, prefix: &Vec<char>, values: &Vec<String>)
    ensures
        checks_view(final(out)@) == checks_view(old(out)@) + list_checks(
            prefix@,
            values@,
            values@.len(),
        ),
{
    let mut i: usize = 0;
    while i < values.len()
        invariant
            i <= values.len(),
            checks_view(out@) == checks_view(old(out)@) + list_checks(prefix@, values@, i as nat),
        decreases values.len() - i,
    {
        let name = indexed_name(prefix, i, "");
        assert(""@ == Seq::<char>::empty()) by {
            reveal_strlit("");
        }
        push_check(out, name, &values[i]);
        i = i + 1;
    }
}

fn build_checks(m: &InstallManifest) -> (out: CheckList)
    ensures
        checks_view(out@) == manifest_checks(*m),
{
    let mut out: CheckList = Vec::new();
    assert(checks_view(out@) =~= Seq::<Check>::empty());
    let dirs = chars_of("directories.paths");
    push_list_checks(&mut out, &dirs, &m.directories);
    let ghost after_dirs = checks_view(out@);
    let files = chars_of("files");
    let mut i: usize = 0;
    while i < m.files.len()
        invariant
            i <= m.files.len(),
            files@ == "files"@,
            checks_view(out@) == after_dirs + file_checks(m.files@, i as nat),
        decreases m.files.len() - i,
    {
        let n1 = indexed_name(&files, i, ".source");
        push_check(&mut out, n1, &m.files[i].source);
        let n2 = indexed_name(&files, i, ".destination");
        push_check(&mut out, n2, &m.files[i].destination);
        i = i + 1;
        assert(checks_view(out@) =~= after_dirs + file_checks(m.files@, i as nat));
    }
    let ghost after_files = checks_view(out@);
    let reg = chars_of("registry");
    let mut i: usize = 0;
    while i < m.registry.len()
        invariant
            i <= m.registry.len(),
            reg@ == "registry"@,
            checks_view(out@) == after_files + registry_checks(m.registry@, i as nat),
        decreases m.registry.len() - i,
    {
        let n1 = indexed_name(&reg, i, ".key");
        push_check(&mut out, n1, &m.registry[i].key);
        let n2 = indexed_name(&reg, i, ".name");
        push_check(&mut out, n2, &m.registry[i].name);
        let n3 = indexed_name(&reg, i, ".value");
        push_check(&mut out, n3, &m.registry[i].value);
        i = i + 1;
        assert(checks_view(out@) =~= after_files + registry_checks(m.registry@, i as nat));
    }
    let ghost after_reg = checks_view(out@);
    let sc = chars_of("shortcuts");
    let mut i: usize = 0;
    while i < m.shortcuts.len()
        invariant
            i <= m.shortcuts.len(),
            sc@ == "shortcuts"@,
            checks_view(out@) == after_reg + shortcut_checks(m.shortcuts@, i as nat),
        decreases m.shortcuts.len() - i,
    {
        let ghost before = checks_view(out@);
        let item = &m.shortcuts[i];
        let n1 = indexed_name(&sc, i, ".path");
        push_check(&mut out, n1, &item.path);
        let n2 = indexed_name(&sc, i, ".target");
        push_check(&mut out, n2, &item.target);
        let n3 = indexed_name(&sc, i, ".arguments");
        push_opt_check(&mut out, n3, &item.arguments);
        let n4 = indexed_name(&sc, i, ".working_directory");
        push_opt_check(&mut out, n4, &item.working_directory);
        i = i + 1;
        assert(checks_view(out@) =~= after_reg + shortcut_checks(m.shortcuts@, i as nat));
    }
    let ghost after_sc = checks_view(out@);
    let scr = chars_of("scripts");
    let mut i: usize = 0;
    while i < m.scripts.len()
        invariant
            i <= m.scripts.len(),
            scr@ == "scripts"@,
            checks_view(out@) == after_sc + script_checks(m.scripts@, i as nat),
        decreases m.scripts.len() - i,
    {
        let item = &m.scripts[i];
        let n1 = indexed_name(&scr, i, ".command");
        push_check(&mut out, n1, &item.command);
        let args_prefix = indexed_name(&scr, i, ".args");
        push_list_checks(&mut out, &args_prefix, &item.args);
        let n3 = indexed_name(&scr, i, ".working_directory");
        push_opt_check(&mut out, n3, &item.working_directory);
        i = i + 1;
        assert(checks_view(out@) =~= after_sc + script_checks(m.scripts@, i as nat));
    }
    let pb = chars_of("purge.registry_branches");
    push_list_checks(&mut out, &pb, &m.purge.registry_branches);
    let pp = chars_of("purge.paths");
    push_list_checks(&mut out, &pp, &m.purge.paths);
    assert(checks_view(out@) =~= manifest_checks(*m));
    out
}

fn first_spacing_violation(checks: &CheckList) -> (r: Result<(), AppError>)
    ensures
        spacing_result(checks_view(checks@), r),
{
    let ghost cv = checks_view(checks@);
    let mut i: usize = 0;
    while i < checks.len()
        invariant
            i <= checks.len(),
            cv == checks_view(checks@),
            forall|j: int| 0 <= j < i ==> !has_ws(#[trigger] cv[j].1),
        decreases checks.len() - i,
    {
        let value = &checks[i].1;
        let found = crate::text::has_ws_chars(value);
        assert(cv[i as int].1 == value@);
        if found {
            let mut m = chars_of("Manifest field '");
            append_chars(&mut m, &checks[i].0);
            let mid = chars_of("' cannot contain spaces or other whitespace: ");
            append_chars(&mut m, &mid);
            append_chars(&mut m, value);
            let r = Err(AppError::Message(string_of(m.as_slice())));
            assert(has_ws(cv[i as int].1));
            return r;
        }
        i = i + 1;
    }
    Ok(())
}

/// Rejects a manifest whose fields hold whitespace. Every field is checked
/// except the application name and shortcut descriptions, in the order of
/// [`manifest_checks`]; the error names the first offending field.
pub fn enforce_manifest_field_spacing(manifest: &InstallManifest) -> (r: Result<(), AppError>)
    ensures
        spacing_result(manifest_checks(*manifest), r),
        spaced_field(*manifest) ==> r matches Err(AppError::Message(_)),
        !spaced_field(*manifest) ==> r is Ok,
{
    let checks = build_checks(manifest);
    let r = first_spacing_violation(&checks);
    proof {
        if spaced_field(*manifest) {
            law_spaced_field_is_rejected(*manifest, r);
        } else {
            law_unspaced_fields_are_accepted(*manifest, r);
        }
    }
    r
}

/// Rejects an optional field value that holds whitespace.
pub fn enforce_optional_no_whitespace(field: &str, value: Option<&str>) -> (r: Result<(), AppError>)
    ensures
        match value {
            None => r is Ok,
            Some(v) => spacing_result(seq![(field@, v@)], r),
        },
{
    match value {
        Some(v) => enforce_no_whitespace(field, v),
        None => Ok(()),
    }
}

/// Rejects a field value that holds whitespace, naming the field.
pub fn enforce_no_whitespace(field: &str, value: &str) -> (r: Result<(), AppError>)
    ensures
        spacing_result(seq![(field@, value@)], r),
{
    let mut checks: CheckList = Vec::new();
    let name = chars_of(field);
    let v = chars_of(value);
    checks.push((name, v));
    assert(checks_view(checks@) =~= seq![(field@, value@)]);
    first_spacing_violation(&checks)
}

/// The install-time file-name rule: the rejection text, or none when the
/// manifest's file name is [`expected_name`] of its application name.
pub open spec fn file_name_problem(manifest_path: Seq<char>, app_name: Seq<char>) -> Option<
    Seq<char>,
> {
    match file_name_of(manifest_path) {
        None => Some("Manifest path must include a file name"@),
        Some(actual) => if actual == expected_name(app_name) {
            None
        } else {
            Some(file_name_mismatch_text(expected_name(app_name), app_name, actual))
        },
    }
}

/// The rules a manifest read for an install must meet, in order: its file
/// name, then the whitespace rule on its fields.
pub fn check_install_manifest(manifest_path: &str, manifest: &InstallManifest) -> (r: Result<
    (),
    AppError,
>)
    ensures
        match file_name_problem(manifest_path@, manifest.app_name@) {
            Some(t) => r matches Err(AppError::Message(m)) && m@ == t,
            None => spacing_result(manifest_checks(*manifest), r),
        },
        spaced_field(*manifest) ==> r is Err,
{
    match enforce_manifest_file_name(manifest_path, manifest) {
        Err(e) => Err(e),
        Ok(()) => enforce_manifest_field_spacing(manifest),
    }
}

} // verus!
