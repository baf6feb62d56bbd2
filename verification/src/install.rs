//! Install planning: what an install does, in order, with the progress text
//! of each step and the journal entries each step leaves once it succeeded.
//! The caller performs the steps; [`InstallSession`] keeps the journal.
use vstd::prelude::*;
use crate::error::AppError;
use crate::journal::{
    copy_opt, copy_strings, opt_view, strings_view, ActionView, DeclaredTracker, Journal,
    JournalAction, RegistryRoot,
};
use crate::manifest::{FileSpec, InstallManifest, RegistrySpec, ScriptSpec, ShortcutSpec};
use crate::paths::{absolutize, absolutize_spec, join_chars, join_path, parent_chars, parent_of};
use crate::registry::{parse_key_result, parse_registry_key, parsed_key, unsupported_root_text};
use crate::resolver::{under_admin_root, PathResolver};
use crate::text::{append_chars, chars_of, string_of};

verus! {

/// Where an install keeps its journal and how it registers itself.
#[derive(Debug, Clone, PartialEq, Eq)]
pub struct InstallRuntime {
    pub journal_path: String,
    pub install_root: Option<String>,
    pub uninstall_exe_path: Option<String>,
    pub uninstall_registry_root: RegistryRoot,
    pub uninstall_registry_key: String,
}

/// The install root: the first purge path, else the first directory, else
/// the folder of the first file's destination; all resolved.
pub open spec fn install_root_of(m: InstallManifest, r: PathResolver) -> Option<Seq<char>> {
    if m.purge.paths@.len() > 0 {
        Some(r.resolve_spec(m.purge.paths@[0]@))
    } else if m.directories@.len() > 0 {
        Some(r.resolve_spec(m.directories@[0]@))
    } else if m.files@.len() > 0 {
        parent_of(r.resolve_spec(m.files@[0].destination@))
    } else {
        None
    }
}

/// Infers the folder the application is installed into.
pub fn infer_install_root(manifest: &InstallManifest, resolver: &PathResolver) -> (r: Option<
    String,
>)
    ensures
        opt_view(r) == install_root_of(*manifest, *resolver),
{
    if manifest.purge.paths.len() > 0 {
        return Some(resolver.resolve(manifest.purge.paths[0].as_str()));
    }
    if manifest.directories.len() > 0 {
        return Some(resolver.resolve(manifest.directories[0].as_str()));
    }
    if manifest.files.len() > 0 {
        let d = resolver.resolve(manifest.files[0].destination.as_str());
        let dv = chars_of(d.as_str());
        return match parent_chars(&dv) {
            Some(p) => Some(string_of(p.as_slice())),
            None => None,
        };
    }
    None
}

/// The Installed Apps key for an application name.
pub open spec fn uninstall_key_of(app_name: Seq<char>) -> Seq<char> {
    "Software\\Microsoft\\Windows\\CurrentVersion\\Uninstall\\"@ + (if app_name.len() == 0 {
        "covenant_setup"@
    } else {
        crate::paths::sanitized(app_name)
    })
}

/// What `build_install_runtime` computes.
pub open spec fn runtime_matches(
    rt: InstallRuntime,
    m: InstallManifest,
    manifest_path: Seq<char>,
    journal_path: Option<Seq<char>>,
    requires_admin: bool,
    r: PathResolver,
) -> bool {
    let root = install_root_of(m, r);
    let base = match root {
        Some(x) => x,
        None => match parent_of(manifest_path) {
            Some(p) => p,
            None => "."@,
        },
    };
    &&& rt.journal_path@ == match journal_path {
        Some(j) => j,
        None => join_path(base, "journal.json"@),
    }
    &&& opt_view(rt.install_root) == root
    &&& opt_view(rt.uninstall_exe_path) == match root {
        Some(x) => Some(join_path(x, "covenant-setup-uninstall.exe"@)),
        None => None,
    }
    &&& rt.uninstall_registry_root == if requires_admin {
        RegistryRoot::Hklm
    } else {
        RegistryRoot::Hkcu
    }
    &&& rt.uninstall_registry_key@ == uninstall_key_of(m.app_name@)
}

/// Works out where the journal and the uninstaller go and under which hive
/// the application registers: the journal defaults to `journal.json` in the
/// install root (else beside the manifest), the uninstaller sits in the
/// install root, and an install that needs administrator rights registers
/// under HKLM.
pub fn build_install_runtime(
    manifest: &InstallManifest,
    manifest_path: &str,
    journal_path: Option<String>,
    requires_admin: bool,
    resolver: &PathResolver,
) -> (r: Result<InstallRuntime, AppError>)
    ensures
        r matches Ok(rt) && runtime_matches(
            rt,
            *manifest,
            manifest_path@,
            opt_view(journal_path),
            requires_admin,
            *resolver,
        ),
{
    let install_root = infer_install_root(manifest, resolver);
    let journal_file = chars_of("journal.json");
    let journal_path = match journal_path {
        Some(j) => j,
        None => {
            let base = match &install_root {
                Some(x) => chars_of(x.as_str()),
                None => {
                    let mp = chars_of(manifest_path);
                    match parent_chars(&mp) {
                        Some(p) => p,
                        None => chars_of("."),
                    }
                },
            };
            let j = join_chars(&base, &journal_file);
            string_of(j.as_slice())
        },
    };
    let uninstall_exe_path = match &install_root {
        Some(x) => {
            let b = chars_of(x.as_str());
            let f = chars_of("covenant-setup-uninstall.exe");
            let j = join_chars(&b, &f);
            Some(string_of(j.as_slice()))
        },
        None => None,
    };
    let uninstall_registry_root = if requires_admin {
        RegistryRoot::Hklm
    } else {
        RegistryRoot::Hkcu
    };
    let mut key = chars_of("Software\\Microsoft\\Windows\\CurrentVersion\\Uninstall\\");
    let comp = crate::paths::sanitize_registry_component(manifest.app_name.as_str());
    let cv = chars_of(comp.as_str());
    append_chars(&mut key, &cv);
    Ok(
        InstallRuntime {
            journal_path,
            install_root,
            uninstall_exe_path,
            uninstall_registry_root,
            uninstall_registry_key: string_of(key.as_slice()),
        },
    )
}

/// Number of progress steps an install of the manifest reports.
pub open spec fn install_step_count(m: InstallManifest) -> nat {
    m.directories@.len() + m.files@.len() + m.registry@.len() + m.shortcuts@.len()
        + m.scripts@.len() + 2
}

/// Number of progress steps an install of the manifest reports: one per
/// declared item, plus the uninstaller and its registration.
pub fn total_install_steps(manifest: &InstallManifest) -> (n: usize)
    requires
        install_step_count(*manifest) <= usize::MAX,
    ensures
        n == install_step_count(*manifest),
{
    manifest.directories.len() + manifest.files.len() + manifest.registry.len()
        + manifest.shortcuts.len() + manifest.scripts.len() + 2
}

/// Scans registry entries in order for the first one that is unparsable or
/// under HKLM: the former is an error, the latter needs administrator rights.
pub open spec fn registry_admin_scan(entries: Seq<RegistrySpec>) -> Result<bool, Seq<char>>
    decreases entries.len(),
{
    if entries.len() == 0 {
        Ok(false)
    } else {
        match parsed_key(entries[0].key@) {
            None => Err(unsupported_root_text(entries[0].key@)),
            Some((RegistryRoot::Hklm, _)) => Ok(true),
            Some((RegistryRoot::Hkcu, _)) => registry_admin_scan(entries.skip(1)),
        }
    }
}

/// Some directory, file destination or shortcut of the manifest resolves
/// under an administrator root.
pub open spec fn manifest_paths_need_admin(m: InstallManifest, r: PathResolver) -> bool {
    ||| exists|i: int|
        0 <= i < m.directories@.len() && under_admin_root(
            r.roots(),
            r.resolve_spec(#[trigger] m.directories@[i]@),
        )
    ||| exists|i: int|
        0 <= i < m.files@.len() && under_admin_root(
            r.roots(),
            r.resolve_spec(#[trigger] m.files@[i].destination@),
        )
    ||| exists|i: int|
        0 <= i < m.shortcuts@.len() && under_admin_root(
            r.roots(),
            r.resolve_spec(#[trigger] m.shortcuts@[i].path@),
        )
}

/// Whether installing the manifest needs administrator rights: a path under
/// an administrator root, or an HKLM registry entry. An unparsable registry
/// key met before any HKLM entry is reported as an error, unless a path
/// already decided the answer.
pub fn manifest_requires_admin(manifest: &InstallManifest, resolver: &PathResolver) -> (r: Result<
    bool,
    AppError,
>)
    ensures
        manifest_paths_need_admin(*manifest, *resolver) ==> r == Ok::<bool, AppError>(true),
        !manifest_paths_need_admin(*manifest, *resolver) ==> match registry_admin_scan(
            manifest.registry@,
        ) {
            Ok(b) => r == Ok::<bool, AppError>(b),
            Err(t) => r matches Err(AppError::Message(m)) && m@ == t,
        },
{
    let mut i: usize = 0;
    while i < manifest.directories.len()
        invariant
            i <= manifest.directories.len(),
            forall|j: int|
                0 <= j < i ==> !under_admin_root(
                    resolver.roots(),
                    resolver.resolve_spec(#[trigger] manifest.directories@[j]@),
                ),
        decreases manifest.directories.len() - i,
    {
        let p = resolver.resolve(manifest.directories[i].as_str());
        if resolver.requires_admin(p.as_str()) {
            assert(manifest_paths_need_admin(*manifest, *resolver));
            return Ok(true);
        }
        i = i + 1;
    }
    let mut i: usize = 0;
    while i < manifest.files.len()
        invariant
            i <= manifest.files.len(),
            forall|j: int|
                0 <= j < i ==> !under_admin_root(
                    resolver.roots(),
                    resolver.resolve_spec(#[trigger] manifest.files@[j].destination@),
                ),
        decreases manifest.files.len() - i,
    {
        let p = resolver.resolve(manifest.files[i].destination.as_str());
        if resolver.requires_admin(p.as_str()) {
            assert(manifest_paths_need_admin(*manifest, *resolver));
            return Ok(true);
        }
        i = i + 1;
    }
    let mut i: usize = 0;
    while i < manifest.shortcuts.len()
        invariant
            i <= manifest.shortcuts.len(),
            forall|j: int|
                0 <= j < i ==> !under_admin_root(
                    resolver.roots(),
                    resolver.resolve_spec(#[trigger] manifest.shortcuts@[j].path@),
                ),
        decreases manifest.shortcuts.len() - i,
    {
        let p = resolver.resolve(manifest.shortcuts[i].path.as_str());
        if resolver.requires_admin(p.as_str()) {
            assert(manifest_paths_need_admin(*manifest, *resolver));
            return Ok(true);
        }
        i = i + 1;
    }
    assert(!manifest_paths_need_admin(*manifest, *resolver));
    let mut i: usize = 0;
    assert(manifest.registry@.skip(0) == manifest.registry@);
    while i < manifest.registry.len()
        invariant
            i <= manifest.registry.len(),
            !manifest_paths_need_admin(*manifest, *resolver),
            registry_admin_scan(manifest.registry@) == registry_admin_scan(
                manifest.registry@.skip(i as int),
            ),
        decreases manifest.registry.len() - i,
    {
        let ghost rest = manifest.registry@.skip(i as int);
        assert(rest[0] == manifest.registry@[i as int]);
        assert(rest.skip(1) == manifest.registry@.skip(i + 1));
        match parse_registry_key(manifest.registry[i].key.as_str()) {
            Err(e) => {
                return Err(e);
            },
            Ok((root, _)) => {
                if root == RegistryRoot::Hklm {
                    return Ok(true);
                }
            },
        }
        i = i + 1;
    }
    Ok(false)
}


/// The command Installed Apps runs to uninstall: the installed uninstaller
/// on the journal, with `--elevate`, both paths in double quotes.
pub open spec fn uninstall_command_spec(uninstall_exe: Seq<char>, journal_path: Seq<char>) -> Seq<
    char,
> {
    "\""@ + uninstall_exe + "\" uninstall \""@ + journal_path + "\" --elevate"@
}

/// The registry values that list an application in Installed Apps, in the
/// order they are written. `version` is the installer's own version.
pub open spec fn uninstall_values_spec(
    app_name: Seq<char>,
    install_root: Seq<char>,
    uninstall_exe: Seq<char>,
    journal_path: Seq<char>,
    version: Seq<char>,
) -> Seq<(Seq<char>, Seq<char>)> {
    let command = uninstall_command_spec(uninstall_exe, journal_path);
    seq![
        ("DisplayName"@, app_name),
        ("Publisher"@, "covenant-setup"@),
        ("DisplayVersion"@, version),
        ("InstallLocation"@, install_root),
        ("DisplayIcon"@, uninstall_exe),
        ("UninstallString"@, command),
        ("QuietUninstallString"@, command),
    ]
}

/// The value of the first entry named `name`, if any.
pub open spec fn value_named(
    values: Seq<(Seq<char>, Seq<char>)>,
    name: Seq<char>,
) -> Option<Seq<char>>
    decreases values.len(),
{
    if values.len() == 0 {
        None
    } else if values[0].0 == name {
        Some(values[0].1)
    } else {
        value_named(values.skip(1), name)
    }
}

/// What Installed Apps is told: seven values with distinct names, where the
/// display name is the application, the publisher `covenant-setup`, the
/// version the installer's, the install location the install root, the
/// icon the uninstaller, and the (quiet) uninstall command, the same for
/// both, runs the uninstaller on the journal with `--elevate`: for paths
/// without `"` that do not end with `\`, `CommandLineToArgvW` reads it as
/// exactly those arguments.
pub proof fn law_installed_apps_values(
    app_name: Seq<char>,
    install_root: Seq<char>,
    uninstall_exe: Seq<char>,
    journal_path: Seq<char>,
    version: Seq<char>,
)
    ensures
        ({
            let vals = uninstall_values_spec(
                app_name,
                install_root,
                uninstall_exe,
                journal_path,
                version,
            );
            &&& vals.len() == 7
            &&& forall|a: int, b: int| 0 <= a < b < vals.len() ==> #[trigger] vals[a].0 != #[trigger] vals[b].0
            &&& value_named(vals, "DisplayName"@) == Some(app_name)
            &&& value_named(vals, "Publisher"@) == Some("covenant-setup"@)
            &&& value_named(vals, "DisplayVersion"@) == Some(version)
            &&& value_named(vals, "InstallLocation"@) == Some(install_root)
            &&& value_named(vals, "DisplayIcon"@) == Some(uninstall_exe)
            &&& value_named(vals, "UninstallString"@) is Some
            &&& value_named(vals, "QuietUninstallString"@) == value_named(vals, "UninstallString"@)
            &&& (crate::cmdline::quotable_path(uninstall_exe) && crate::cmdline::quotable_path(
                journal_path,
            )) ==> crate::cmdline::argv_parse(value_named(vals, "UninstallString"@).unwrap())
                == seq![uninstall_exe, "uninstall"@, journal_path, "--elevate"@]
        }),
{
    reveal_strlit("DisplayName");
    reveal_strlit("Publisher");
    reveal_strlit("DisplayVersion");
    reveal_strlit("InstallLocation");
    reveal_strlit("DisplayIcon");
    reveal_strlit("UninstallString");
    reveal_strlit("QuietUninstallString");
    reveal_with_fuel(value_named, 8);
    let vals = uninstall_values_spec(app_name, install_root, uninstall_exe, journal_path, version);
    let names = seq![
        "DisplayName"@,
        "Publisher"@,
        "DisplayVersion"@,
        "InstallLocation"@,
        "DisplayIcon"@,
        "UninstallString"@,
        "QuietUninstallString"@,
    ];
    assert(names[0][7] == 'N' && names[4][7] == 'I');
    assert(names[3][0] == 'I' && names[5][0] == 'U');
    assert forall|a: int, b: int| 0 <= a < b < 7 implies #[trigger] names[a] != #[trigger] names[b] by {
        if names[a].len() == names[b].len() {
            if a == 0 && b == 4 {
                assert(names[a][7] != names[b][7]);
            } else {
                assert(a == 3 && b == 5);
                assert(names[a][0] != names[b][0]);
            }
        }
    }
    assert forall|k: int| 0 <= k < 7 implies #[trigger] vals[k].0 == names[k] by {}
    assert forall|a: int, b: int| 0 <= a < b < vals.len() implies #[trigger] vals[a].0
        != #[trigger] vals[b].0 by {
        assert(vals[a].0 == names[a] && vals[b].0 == names[b]);
    }
    assert(vals.skip(1)[0] == vals[1]);
    assert(vals.skip(1).skip(1)[0] == vals[2]);
    assert(vals.skip(1).skip(1).skip(1)[0] == vals[3]);
    assert(vals.skip(1).skip(1).skip(1).skip(1)[0] == vals[4]);
    assert(vals.skip(1).skip(1).skip(1).skip(1).skip(1)[0] == vals[5]);
    assert(vals.skip(1).skip(1).skip(1).skip(1).skip(1).skip(1)[0] == vals[6]);
    if crate::cmdline::quotable_path(uninstall_exe) && crate::cmdline::quotable_path(journal_path) {
        crate::cmdline::law_uninstall_command_reads_back(uninstall_exe, journal_path);
    }
}

/// The views of (name, value) pairs.
pub open spec fn pairs_view(v: Seq<(String, String)>) -> Seq<(Seq<char>, Seq<char>)> {
    v.map_values(|p: (String, String)| (p.0@, p.1@))
}

fn push_pair(out: &mut Vec<(String, String)>, name: &str, value: String)
    ensures
        pairs_view(final(out)@) == pairs_view(old(out)@).push((name@, value@)),
{
    out.push((String::from_str(name), value));
    assert(pairs_view(out@) =~= pairs_view(old(out)@).push((name@, value@)));
}

/// The registry values that register an installed application with Windows'
/// Installed Apps: display name, publisher, version, location, icon, and the
/// (quiet) uninstall command, which runs the installed uninstaller on the
/// journal with `--elevate`.
pub fn uninstall_entry_values(
    app_name: &str,
    install_root: &str,
    uninstall_exe: &str,
    journal_path: &str,
    version: &str,
) -> (r: Vec<(String, String)>)
    ensures
        pairs_view(r@) == uninstall_values_spec(
            app_name@,
            install_root@,
            uninstall_exe@,
            journal_path@,
            version@,
        ),
        value_named(pairs_view(r@), "DisplayName"@) == Some(app_name@),
        value_named(pairs_view(r@), "DisplayVersion"@) == Some(version@),
        value_named(pairs_view(r@), "InstallLocation"@) == Some(install_root@),
        value_named(pairs_view(r@), "DisplayIcon"@) == Some(uninstall_exe@),
        value_named(pairs_view(r@), "QuietUninstallString"@) == value_named(
            pairs_view(r@),
            "UninstallString"@,
        ),
{
    proof {
        law_installed_apps_values(app_name@, install_root@, uninstall_exe@, journal_path@, version@);
    }
    let mut cmd = chars_of("\"");
    let u = chars_of(uninstall_exe);
    append_chars(&mut cmd, &u);
    let mid = chars_of("\" uninstall \"");
    append_chars(&mut cmd, &mid);
    let j = chars_of(journal_path);
    append_chars(&mut cmd, &j);
    let tail = chars_of("\" --elevate");
    append_chars(&mut cmd, &tail);
    let command = string_of(cmd.as_slice());
    let mut out: Vec<(String, String)> = Vec::new();
    assert(pairs_view(out@) =~= Seq::<(Seq<char>, Seq<char>)>::empty());
    push_pair(&mut out, "DisplayName", String::from_str(app_name));
    push_pair(&mut out, "Publisher", String::from_str("covenant-setup"));
    push_pair(&mut out, "DisplayVersion", String::from_str(version));
    push_pair(&mut out, "InstallLocation", String::from_str(install_root));
    push_pair(&mut out, "DisplayIcon", String::from_str(uninstall_exe));
    push_pair(&mut out, "UninstallString", command.clone());
    push_pair(&mut out, "QuietUninstallString", command);
    assert(pairs_view(out@) =~= uninstall_values_spec(
        app_name@,
        install_root@,
        uninstall_exe@,
        journal_path@,
        version@,
    ));
    out
}

/// One mutation an install applies.
#[derive(Debug, Clone, PartialEq, Eq)]
pub enum InstallOp {
    /// Create the directory and any missing ancestors.
    CreateDirectory { path: String },
    /// Create `parent` (when there is one), then copy `source` to `destination`.
    CopyFile { source: String, destination: String, parent: Option<String> },
    /// Write a string value.
    SetRegistryValue { root: RegistryRoot, subkey: String, name: String, value: String },
    /// Create `parent` (when there is one), then the shell link.
    CreateShortcut {
        path: String,
        target: String,
        arguments: Option<String>,
        working_directory: Option<String>,
        description: Option<String>,
        parent: Option<String>,
    },
    /// Run the command (found beside the manifest when it exists there).
    RunScript { command: String, args: Vec<String>, working_directory: Option<String> },
    /// Copy the running installer to `destination` as the uninstaller.
    InstallUninstaller { destination: String },
    /// Write each (name, value) under the Installed Apps key.
    RegisterUninstall { root: RegistryRoot, subkey: String, values: Vec<(String, String)> },
}

/// The mathematical value of an [`InstallOp`].
pub enum InstallOpView {
    CreateDirectory { path: Seq<char> },
    CopyFile { source: Seq<char>, destination: Seq<char>, parent: Option<Seq<char>> },
    SetRegistryValue { root: RegistryRoot, subkey: Seq<char>, name: Seq<char>, value: Seq<char> },
    CreateShortcut {
        path: Seq<char>,
        target: Seq<char>,
        arguments: Option<Seq<char>>,
        working_directory: Option<Seq<char>>,
        description: Option<Seq<char>>,
        parent: Option<Seq<char>>,
    },
    RunScript { command: Seq<char>, args: Seq<Seq<char>>, working_directory: Option<Seq<char>> },
    InstallUninstaller { destination: Seq<char> },
    RegisterUninstall { root: RegistryRoot, subkey: Seq<char>, values: Seq<(Seq<char>, Seq<char>)> },
}

impl View for InstallOp {
    type V = InstallOpView;

    open spec fn view(&self) -> InstallOpView {
        match self {
            InstallOp::CreateDirectory { path } => InstallOpView::CreateDirectory { path: path@ },
            InstallOp::CopyFile { source, destination, parent } => InstallOpView::CopyFile {
                source: source@,
                destination: destination@,
                parent: opt_view(*parent),
            },
            InstallOp::SetRegistryValue { root, subkey, name, value } =>
                InstallOpView::SetRegistryValue {
                root: *root,
                subkey: subkey@,
                name: name@,
                value: value@,
            },
            InstallOp::CreateShortcut {
                path,
                target,
                arguments,
                working_directory,
                description,
                parent,
            } => InstallOpView::CreateShortcut {
                path: path@,
                target: target@,
                arguments: opt_view(*arguments),
                working_directory: opt_view(*working_directory),
                description: opt_view(*description),
                parent: opt_view(*parent),
            },
            InstallOp::RunScript { command, args, working_directory } => InstallOpView::RunScript {
                command: command@,
                args: strings_view(args@),
                working_directory: opt_view(*working_directory),
            },
            InstallOp::InstallUninstaller { destination } =>
                InstallOpView::InstallUninstaller { destination: destination@ },
            InstallOp::RegisterUninstall { root, subkey, values } =>
                InstallOpView::RegisterUninstall {
                root: *root,
                subkey: subkey@,
                values: pairs_view(values@),
            },
        }
    }
}

/// One step of an install: the progress text shown before it and the
/// mutation it applies.
#[derive(Debug, Clone, PartialEq, Eq)]
pub struct InstallStep {
    pub message: String,
    pub op: InstallOp,
}

/// The (message, operation) value of a step.
pub type StepView = (Seq<char>, InstallOpView);

/// The views of a list of steps.
pub open spec fn steps_view(v: Seq<InstallStep>) -> Seq<StepView> {
    v.map_values(|s: InstallStep| (s.message@, s.op@))
}

/// The steps an install performs, and the error it stops with after them
/// when the manifest holds an unsupported registry key.
#[derive(Debug, Clone, PartialEq, Eq)]
pub struct InstallPlan {
    pub steps: Vec<InstallStep>,
    pub failure: Option<AppError>,
}

/// The steps that create the first `n` directories.
pub open spec fn directory_steps(dirs: Seq<String>, r: PathResolver, n: nat) -> Seq<StepView>
    decreases n,
{
    if n == 0 {
        seq![]
    } else {
        let p = r.resolve_spec(dirs[n - 1]@);
        directory_steps(dirs, r, (n - 1) as nat).push(
            ("Creating directory "@ + p, InstallOpView::CreateDirectory { path: p }),
        )
    }
}

/// The steps that copy the first `n` files.
pub open spec fn file_steps(
    files: Seq<FileSpec>,
    manifest_dir: Option<Seq<char>>,
    r: PathResolver,
    n: nat,
) -> Seq<StepView>
    decreases n,
{
    if n == 0 {
        seq![]
    } else {
        let f = files[n - 1];
        let src = absolutize_spec(manifest_dir, f.source@);
        let dst = r.resolve_spec(f.destination@);
        file_steps(files, manifest_dir, r, (n - 1) as nat).push(
            (
                "Copying file to "@ + dst,
                InstallOpView::CopyFile { source: src, destination: dst, parent: parent_of(dst) },
            ),
        )
    }
}

/// Index of the first registry entry with an unsupported key, or the
/// number of entries.
pub open spec fn first_bad_key(entries: Seq<RegistrySpec>, from: int) -> int
    decreases entries.len() - from,
{
    if from >= entries.len() {
        entries.len() as int
    } else if parsed_key(entries[from].key@) is None {
        from
    } else {
        first_bad_key(entries, from + 1)
    }
}

/// The steps that write the first `n` registry values (whose keys parse).
pub open spec fn registry_steps(entries: Seq<RegistrySpec>, r: PathResolver, n: nat) -> Seq<
    StepView,
>
    decreases n,
{
    if n == 0 {
        seq![]
    } else {
        let e = entries[n - 1];
        let (root, subkey) = parsed_key(e.key@).unwrap();
        registry_steps(entries, r, (n - 1) as nat).push(
            (
                "Writing registry value "@ + e.name@ + " in "@ + e.key@,
                InstallOpView::SetRegistryValue {
                    root,
                    subkey,
                    name: e.name@,
                    value: r.resolve_spec(e.value@),
                },
            ),
        )
    }
}

/// An optional value resolved.
pub open spec fn resolve_opt(r: PathResolver, o: Option<String>) -> Option<Seq<char>> {
    match o {
        Some(v) => Some(r.resolve_spec(v@)),
        None => None,
    }
}

/// The steps that create the first `n` shortcuts.
pub open spec fn shortcut_steps(items: Seq<ShortcutSpec>, r: PathResolver, n: nat) -> Seq<
    StepView,
>
    decreases n,
{
    if n == 0 {
        seq![]
    } else {
        let s = items[n - 1];
        let p = r.resolve_spec(s.path@);
        shortcut_steps(items, r, (n - 1) as nat).push(
            (
                "Creating shortcut "@ + p,
                InstallOpView::CreateShortcut {
                    path: p,
                    target: r.resolve_spec(s.target@),
                    arguments: opt_view(s.arguments),
                    working_directory: resolve_opt(r, s.working_directory),
                    description: opt_view(s.description),
                    parent: parent_of(p),
                },
            ),
        )
    }
}

/// The steps that run the first `n` scripts.
pub open spec fn script_steps(items: Seq<ScriptSpec>, r: PathResolver, n: nat) -> Seq<StepView>
    decreases n,
{
    if n == 0 {
        seq![]
    } else {
        let s = items[n - 1];
        script_steps(items, r, (n - 1) as nat).push(
            (
                "Running script "@ + s.command@,
                InstallOpView::RunScript {
                    command: s.command@,
                    args: strings_view(s.args@),
                    working_directory: resolve_opt(r, s.working_directory),
                },
            ),
        )
    }
}

/// The closing steps: install the uninstaller, then register the
/// application, each when the runtime knows where.
pub open spec fn closing_steps(
    app_name: Seq<char>,
    rt: InstallRuntime,
    version: Seq<char>,
) -> Seq<StepView> {
    let install = match rt.uninstall_exe_path {
        Some(u) => seq![
            (
                "Installing uninstaller "@ + u@,
                InstallOpView::InstallUninstaller { destination: u@ },
            ),
        ],
        None => seq![],
    };
    let register = match (rt.install_root, rt.uninstall_exe_path) {
        (Some(root), Some(u)) => seq![
            (
                "Registering "@ + app_name + " in Installed Apps"@,
                InstallOpView::RegisterUninstall {
                    root: rt.uninstall_registry_root,
                    subkey: rt.uninstall_registry_key@,
                    values: uninstall_values_spec(
                        app_name,
                        root@,
                        u@,
                        rt.journal_path@,
                        version,
                    ),
                },
            ),
        ],
        _ => seq![],
    };
    install + register
}

/// The whole plan: directories, files, registry values, shortcuts, scripts,
/// then the closing steps. An unsupported registry key ends the plan just
/// before its step, with that key's rejection as the failure.
pub open spec fn plan_matches(
    plan: InstallPlan,
    m: InstallManifest,
    manifest_dir: Option<Seq<char>>,
    r: PathResolver,
    rt: InstallRuntime,
    version: Seq<char>,
) -> bool {
    let k = first_bad_key(m.registry@, 0);
    let head = directory_steps(m.directories@, r, m.directories@.len()) + file_steps(
        m.files@,
        manifest_dir,
        r,
        m.files@.len(),
    ) + registry_steps(m.registry@, r, k as nat);
    if k < m.registry@.len() {
        &&& steps_view(plan.steps@) == head
        &&& plan.failure matches Some(AppError::Message(t)) && t@ == unsupported_root_text(
            m.registry@[k].key@,
        )
    } else {
        &&& steps_view(plan.steps@) == head + shortcut_steps(m.shortcuts@, r, m.shortcuts@.len())
            + script_steps(m.scripts@, r, m.scripts@.len()) + closing_steps(m.app_name@, rt, version)
        &&& plan.failure is None
    }
}

fn push_step(out: &mut Vec<InstallStep>, message: Vec<char>, op: InstallOp)
    ensures
        steps_view(final(out)@) == steps_view(old(out)@).push((message@, op@)),
{
    out.push(InstallStep { message: string_of(message.as_slice()), op });
    assert(steps_view(out@) =~= steps_view(old(out)@).push((message@, op@)));
}

fn message_with(prefix: &str, tail: &String) -> (r: Vec<char>)
    ensures
        r@ == prefix@ + tail@,
{
    let mut m = chars_of(prefix);
    let t = chars_of(tail.as_str());
    append_chars(&mut m, &t);
    m
}

fn resolve_opt_exec(r: &PathResolver, o: &Option<String>) -> (res: Option<String>)
    ensures
        opt_view(res) == resolve_opt(*r, *o),
{
    match o {
        Some(v) => Some(r.resolve(v.as_str())),
        None => None,
    }
}

fn parent_exec(p: &String) -> (r: Option<String>)
    ensures
        opt_view(r) == parent_of(p@),
{
    let v = chars_of(p.as_str());
    match parent_chars(&v) {
        Some(x) => Some(string_of(x.as_slice())),
        None => None,
    }
}

/// Plans an install of the manifest found at `manifest_path`: file sources
/// are taken relative to the manifest's folder, destinations and values are
/// resolved, and `version` is the installer version recorded in Installed
/// Apps.
pub fn plan_install(
    manifest: &InstallManifest,
    manifest_path: &str,
    resolver: &PathResolver,
    runtime: &InstallRuntime,
    version: &str,
) -> (plan: InstallPlan)
    ensures
        plan_matches(plan, *manifest, parent_of(manifest_path@), *resolver, *runtime, version@),
        forall|i: int|
            0 <= i < manifest.files@.len() ==> {
                let d = manifest.directories@.len() as int;
                let dst = resolver.resolve_spec((#[trigger] manifest.files@[i]).destination@);
                &&& d + i < plan.steps@.len()
                &&& plan.steps@[d + i].op@ == (InstallOpView::CopyFile {
                    source: absolutize_spec(parent_of(manifest_path@), manifest.files@[i].source@),
                    destination: dst,
                    parent: parent_of(dst),
                })
            },
{
    let mut steps: Vec<InstallStep> = Vec::new();
    assert(steps_view(steps@) =~= Seq::<StepView>::empty());
    let mp = chars_of(manifest_path);
    let manifest_dir: Option<String> = match parent_chars(&mp) {
        Some(x) => Some(string_of(x.as_slice())),
        None => None,
    };
    let ghost dir_view = parent_of(manifest_path@);
    assert(opt_view(manifest_dir) == dir_view);
    let mut i: usize = 0;
    while i < manifest.directories.len()
        invariant
            i <= manifest.directories.len(),
            steps_view(steps@) == directory_steps(manifest.directories@, *resolver, i as nat),
        decreases manifest.directories.len() - i,
    {
        let p = resolver.resolve(manifest.directories[i].as_str());
        let msg = message_with("Creating directory ", &p);
        push_step(&mut steps, msg, InstallOp::CreateDirectory { path: p });
        i = i + 1;
    }
    let ghost after_dirs = steps_view(steps@);
    let mut i: usize = 0;
    while i < manifest.files.len()
        invariant
            i <= manifest.files.len(),
            opt_view(manifest_dir) == dir_view,
            steps_view(steps@) == after_dirs + file_steps(
                manifest.files@,
                dir_view,
                *resolver,
                i as nat,
            ),
        decreases manifest.files.len() - i,
    {
        let f = &manifest.files[i];
        let source = match &manifest_dir {
            Some(d) => absolutize(Some(d.as_str()), f.source.as_str()),
            None => absolutize(None, f.source.as_str()),
        };
        let destination = resolver.resolve(f.destination.as_str());
        let parent = parent_exec(&destination);
        let msg = message_with("Copying file to ", &destination);
        push_step(&mut steps, msg, InstallOp::CopyFile { source, destination, parent });
        i = i + 1;
        assert(steps_view(steps@) =~= after_dirs + file_steps(
            manifest.files@,
            dir_view,
            *resolver,
            i as nat,
        ));
    }
    let ghost after_files = steps_view(steps@);
    let mut i: usize = 0;
    while i < manifest.registry.len()
        invariant
            i <= manifest.registry.len(),
            after_files == directory_steps(
                manifest.directories@,
                *resolver,
                manifest.directories@.len(),
            ) + file_steps(manifest.files@, parent_of(manifest_path@), *resolver, manifest.files@.len()),
            first_bad_key(manifest.registry@, 0) == first_bad_key(manifest.registry@, i as int),
            steps_view(steps@) == after_files + registry_steps(
                manifest.registry@,
                *resolver,
                i as nat,
            ),
        decreases manifest.registry.len() - i,
    {
        let e = &manifest.registry[i];
        match parse_registry_key(e.key.as_str()) {
            Err(err) => {
                assert(first_bad_key(manifest.registry@, i as int) == i);
                let plan = InstallPlan { steps, failure: Some(err) };
                assert(plan_matches(
                    plan,
                    *manifest,
                    parent_of(manifest_path@),
                    *resolver,
                    *runtime,
                    version@,
                ));
                proof {
                    law_plan_copies_into_created_folders(
                        plan,
                        *manifest,
                        parent_of(manifest_path@),
                        *resolver,
                        *runtime,
                        version@,
                    );
                }
                return plan;
            },
            Ok((root, subkey)) => {
                let value = resolver.resolve(e.value.as_str());
                let mut msg = message_with("Writing registry value ", &e.name);
                let mid = chars_of(" in ");
                append_chars(&mut msg, &mid);
                let k = chars_of(e.key.as_str());
                append_chars(&mut msg, &k);
                push_step(
                    &mut steps,
                    msg,
                    InstallOp::SetRegistryValue { root, subkey, name: e.name.clone(), value },
                );
                i = i + 1;
                assert(steps_view(steps@) =~= after_files + registry_steps(
                    manifest.registry@,
                    *resolver,
                    i as nat,
                ));
            },
        }
    }
    assert(first_bad_key(manifest.registry@, 0) == manifest.registry@.len());
    let ghost after_reg = steps_view(steps@);
    let mut i: usize = 0;
    while i < manifest.shortcuts.len()
        invariant
            i <= manifest.shortcuts.len(),
            steps_view(steps@) == after_reg + shortcut_steps(
                manifest.shortcuts@,
                *resolver,
                i as nat,
            ),
        decreases manifest.shortcuts.len() - i,
    {
        let s = &manifest.shortcuts[i];
        let path = resolver.resolve(s.path.as_str());
        let target = resolver.resolve(s.target.as_str());
        let working_directory = resolve_opt_exec(resolver, &s.working_directory);
        let parent = parent_exec(&path);
        let msg = message_with("Creating shortcut ", &path);
        push_step(
            &mut steps,
            msg,
            InstallOp::CreateShortcut {
                path,
                target,
                arguments: copy_opt(&s.arguments),
                working_directory,
                description: copy_opt(&s.description),
                parent,
            },
        );
        i = i + 1;
        assert(steps_view(steps@) =~= after_reg + shortcut_steps(
            manifest.shortcuts@,
            *resolver,
            i as nat,
        ));
    }
    let ghost after_sc = steps_view(steps@);
    let mut i: usize = 0;
    while i < manifest.scripts.len()
        invariant
            i <= manifest.scripts.len(),
            steps_view(steps@) == after_sc + script_steps(manifest.scripts@, *resolver, i as nat),
        decreases manifest.scripts.len() - i,
    {
        let s = &manifest.scripts[i];
        let working_directory = resolve_opt_exec(resolver, &s.working_directory);
        let msg = message_with("Running script ", &s.command);
        push_step(
            &mut steps,
            msg,
            InstallOp::RunScript {
                command: s.command.clone(),
                args: copy_strings(&s.args),
                working_directory,
            },
        );
        i = i + 1;
        assert(steps_view(steps@) =~= after_sc + script_steps(
            manifest.scripts@,
            *resolver,
            i as nat,
        ));
    }
    let ghost after_scripts = steps_view(steps@);
    if let Some(u) = &runtime.uninstall_exe_path {
        let msg = message_with("Installing uninstaller ", u);
        push_step(&mut steps, msg, InstallOp::InstallUninstaller { destination: u.clone() });
    }
    let ghost after_uninstaller = steps_view(steps@);
    match (&runtime.install_root, &runtime.uninstall_exe_path) {
        (Some(root), Some(u)) => {
            let mut msg = message_with("Registering ", &manifest.app_name);
            let tail = chars_of(" in Installed Apps");
            append_chars(&mut msg, &tail);
            let values = uninstall_entry_values(
                manifest.app_name.as_str(),
                root.as_str(),
                u.as_str(),
                runtime.journal_path.as_str(),
                version,
            );
            push_step(
                &mut steps,
                msg,
                InstallOp::RegisterUninstall {
                    root: runtime.uninstall_registry_root,
                    subkey: runtime.uninstall_registry_key.clone(),
                    values,
                },
            );
        },
        _ => {},
    }
    assert(steps_view(steps@) =~= after_scripts + closing_steps(
        manifest.app_name@,
        *runtime,
        version@,
    ));
    let plan = InstallPlan { steps, failure: None };
    assert(plan_matches(plan, *manifest, parent_of(manifest_path@), *resolver, *runtime, version@));
    proof {
        law_plan_copies_into_created_folders(
            plan,
            *manifest,
            parent_of(manifest_path@),
            *resolver,
            *runtime,
            version@,
        );
    }
    plan
}


/// The journal entries a successful operation leaves: one entry per
/// mutation, with the running installer (`current_exe`) as the source of
/// the uninstaller copy and one registry entry per Installed Apps value.
pub open spec fn records_of(op: InstallOpView, current_exe: Seq<char>) -> Seq<ActionView> {
    match op {
        InstallOpView::CreateDirectory { path } => seq![ActionView::CreateDirectory { path }],
        InstallOpView::CopyFile { source, destination, .. } => seq![
            ActionView::CopyFile { source, destination },
        ],
        InstallOpView::SetRegistryValue { root, subkey, name, .. } => seq![
            ActionView::WriteRegistry { root, subkey, name },
        ],
        InstallOpView::CreateShortcut { path, .. } => seq![ActionView::CreateShortcut { path }],
        InstallOpView::RunScript { command, args, working_directory } => seq![
            ActionView::ExecuteScript { command, args, working_directory },
        ],
        InstallOpView::InstallUninstaller { destination } => seq![
            ActionView::CopyFile { source: current_exe, destination },
        ],
        InstallOpView::RegisterUninstall { root, subkey, values } => values.map_values(
            |v: (Seq<char>, Seq<char>)| ActionView::WriteRegistry { root, subkey, name: v.0 },
        ),
    }
}

/// The journal entries left by an operation that succeeded.
pub fn journal_records(op: &InstallOp, current_exe: &str) -> (r: Vec<JournalAction>)
    ensures
        crate::journal::actions_view(r@) == records_of(op@, current_exe@),
{
    let mut r: Vec<JournalAction> = Vec::new();
    match op {
        InstallOp::CreateDirectory { path } => {
            r.push(JournalAction::CreateDirectory { path: path.clone() });
        },
        InstallOp::CopyFile { source, destination, .. } => {
            r.push(
                JournalAction::CopyFile { source: source.clone(), destination: destination.clone() },
            );
        },
        InstallOp::SetRegistryValue { root, subkey, name, .. } => {
            r.push(
                JournalAction::WriteRegistry {
                    root: *root,
                    subkey: subkey.clone(),
                    name: name.clone(),
                },
            );
        },
        InstallOp::CreateShortcut { path, .. } => {
            r.push(JournalAction::CreateShortcut { path: path.clone() });
        },
        InstallOp::RunScript { command, args, working_directory } => {
            r.push(
                JournalAction::ExecuteScript {
                    command: command.clone(),
                    args: copy_strings(args),
                    working_directory: copy_opt(working_directory),
                },
            );
        },
        InstallOp::InstallUninstaller { destination } => {
            r.push(
                JournalAction::CopyFile {
                    source: String::from_str(current_exe),
                    destination: destination.clone(),
                },
            );
        },
        InstallOp::RegisterUninstall { root, subkey, values } => {
            let mut i: usize = 0;
            let ghost f = |v: (Seq<char>, Seq<char>)|
                ActionView::WriteRegistry { root: *root, subkey: subkey@, name: v.0 };
            while i < values.len()
                invariant
                    i <= values.len(),
                    f == (|v: (Seq<char>, Seq<char>)|
                        ActionView::WriteRegistry { root: *root, subkey: subkey@, name: v.0 }),
                    crate::journal::actions_view(r@) == pairs_view(values@).take(
                        i as int,
                    ).map_values(f),
                decreases values.len() - i,
            {
                let a = JournalAction::WriteRegistry {
                    root: *root,
                    subkey: subkey.clone(),
                    name: values[i].0.clone(),
                };
                let ghost prev = r@;
                assert(a@ == f(pairs_view(values@)[i as int]));
                r.push(a);
                assert(crate::journal::actions_view(r@) =~= crate::journal::actions_view(prev).push(
                    a@,
                ));
                assert(pairs_view(values@).take(i + 1) =~= pairs_view(values@).take(i as int).push(
                    pairs_view(values@)[i as int],
                ));
                assert(pairs_view(values@).take(i + 1).map_values(f) =~= pairs_view(values@).take(
                    i as int,
                ).map_values(f).push(f(pairs_view(values@)[i as int])));
                i = i + 1;
            }
            assert(pairs_view(values@).take(values@.len() as int) =~= pairs_view(values@));
        },
    }
    assert(crate::journal::actions_view(r@) =~= records_of(op@, current_exe@));
    r
}

/// The journal entries of the first `k` steps, in order.
pub open spec fn applied(steps: Seq<StepView>, k: nat, current_exe: Seq<char>) -> Seq<ActionView>
    decreases k,
{
    if k == 0 {
        seq![]
    } else {
        applied(steps, (k - 1) as nat, current_exe) + records_of(steps[k - 1].1, current_exe)
    }
}

/// An install in progress: the planned steps, how many have succeeded, and
/// the journal entries they left.
pub struct InstallSession {
    steps: Vec<InstallStep>,
    completed: usize,
    tracker: DeclaredTracker,
    current_exe: String,
}

impl InstallSession {
    /// The planned steps.
    pub closed spec fn planned(&self) -> Seq<StepView> {
        steps_view(self.steps@)
    }

    /// How many steps have succeeded.
    pub closed spec fn done(&self) -> nat {
        self.completed as nat
    }

    /// The journal entries recorded so far.
    pub closed spec fn recorded(&self) -> Seq<ActionView> {
        self.tracker.recorded()
    }

    /// The running installer, source of the uninstaller copy.
    pub closed spec fn exe(&self) -> Seq<char> {
        self.current_exe@
    }

    /// The session's invariant: the recorded entries are exactly those of
    /// the succeeded steps.
    pub closed spec fn wf(&self) -> bool {
        &&& self.completed <= self.steps@.len()
        &&& self.tracker.recorded() == applied(
            steps_view(self.steps@),
            self.completed as nat,
            self.current_exe@,
        )
    }

    /// Starts a session over planned steps; nothing is recorded yet.
    pub fn new(steps: Vec<InstallStep>, current_exe: String) -> (s: Self)
        ensures
            s.wf(),
            s.planned() == steps_view(steps@),
            s.done() == 0,
            s.recorded() == Seq::<ActionView>::empty(),
            s.exe() == current_exe@,
    {
        InstallSession { steps, completed: 0, tracker: DeclaredTracker::new(), current_exe }
    }

    /// The next step to perform, if any remain.
    pub fn next_step(&self) -> (r: Option<&InstallStep>)
        requires
            self.wf(),
        ensures
            self.done() < self.planned().len() ==> (r matches Some(st) && (st.message@, st.op@)
                == self.planned()[self.done() as int]),
            self.done() >= self.planned().len() ==> r is None,
    {
        if self.completed < self.steps.len() {
            Some(&self.steps[self.completed])
        } else {
            None
        }
    }

    /// The 1-based number of the next step, as progress reports count.
    pub fn step_number(&self) -> (n: usize)
        requires
            self.wf(),
            self.done() < self.planned().len(),
        ensures
            n == self.done() + 1,
    {
        assert(self.planned().len() == self.steps@.len());
        let n = self.steps.len();
        assert(self.completed < n);
        self.completed + 1
    }

    /// Records that the next step succeeded.
    pub fn complete_step(&mut self)
        requires
            old(self).wf(),
            old(self).done() < old(self).planned().len(),
        ensures
            final(self).wf(),
            final(self).planned() == old(self).planned(),
            final(self).exe() == old(self).exe(),
            final(self).done() == old(self).done() + 1,
            final(self).recorded() == old(self).recorded() + records_of(
                old(self).planned()[old(self).done() as int].1,
                old(self).exe(),
            ),
    {
        assert(self.planned().len() == self.steps@.len());
        let n = self.steps.len();
        assert(self.completed < n);
        let ghost k = self.completed;
        assert(self.planned()[k as int] == (self.steps@[k as int].message@, self.steps@[k as int].op@));
        let records = journal_records(&self.steps[self.completed].op, self.current_exe.as_str());
        let ghost before = self.tracker.recorded();
        let mut i: usize = 0;
        while i < records.len()
            invariant
                i <= records.len(),
                self.completed == k,
                k < n,
                n == self.steps@.len(),
                self.steps == old(self).steps,
                self.current_exe == old(self).current_exe,
                self.tracker.recorded() == before + crate::journal::actions_view(records@).take(
                    i as int,
                ),
            decreases records.len() - i,
        {
            self.tracker.record(records[i].copy());
            i = i + 1;
            assert(self.tracker.recorded() =~= before + crate::journal::actions_view(
                records@,
            ).take(i as int));
        }
        assert(crate::journal::actions_view(records@).take(records.len() as int)
            =~= crate::journal::actions_view(records@));
        self.completed = self.completed + 1;
        assert(applied(steps_view(self.steps@), self.completed as nat, self.current_exe@) == applied(
            steps_view(self.steps@),
            k as nat,
            self.current_exe@,
        ) + records_of(steps_view(self.steps@)[k as int].1, self.current_exe@));
    }

    /// Number of journal entries recorded so far.
    pub fn recorded_len(&self) -> (n: usize)
        ensures
            n == self.recorded().len(),
    {
        self.tracker.len()
    }

    /// The journal of the session: the entries of exactly the steps that
    /// succeeded, in order.
    pub fn into_journal(
        self,
        app_name: String,
        manifest_path: Option<String>,
        purge: crate::journal::PurgeSpec,
        support_contact: Option<String>,
    ) -> (j: Journal)
        requires
            self.wf(),
        ensures
            crate::journal::actions_view(j.actions@) == applied(
                self.planned(),
                self.done(),
                self.exe(),
            ),
            j.app_name == app_name,
            j.manifest_path == manifest_path,
            j.purge == purge,
            j.support_contact == support_contact,
    {
        self.tracker.finish(app_name, manifest_path, purge, support_contact)
    }
}

proof fn lemma_directory_steps_len(dirs: Seq<String>, r: PathResolver, n: nat)
    ensures
        directory_steps(dirs, r, n).len() == n,
    decreases n,
{
    if n > 0 {
        lemma_directory_steps_len(dirs, r, (n - 1) as nat);
    }
}

proof fn lemma_file_steps_len(
    files: Seq<FileSpec>,
    manifest_dir: Option<Seq<char>>,
    r: PathResolver,
    n: nat,
)
    ensures
        file_steps(files, manifest_dir, r, n).len() == n,
    decreases n,
{
    if n > 0 {
        lemma_file_steps_len(files, manifest_dir, r, (n - 1) as nat);
    }
}

proof fn lemma_registry_steps_len(entries: Seq<RegistrySpec>, r: PathResolver, n: nat)
    ensures
        registry_steps(entries, r, n).len() == n,
    decreases n,
{
    if n > 0 {
        lemma_registry_steps_len(entries, r, (n - 1) as nat);
    }
}

proof fn lemma_shortcut_steps_len(items: Seq<ShortcutSpec>, r: PathResolver, n: nat)
    ensures
        shortcut_steps(items, r, n).len() == n,
    decreases n,
{
    if n > 0 {
        lemma_shortcut_steps_len(items, r, (n - 1) as nat);
    }
}

proof fn lemma_script_steps_len(items: Seq<ScriptSpec>, r: PathResolver, n: nat)
    ensures
        script_steps(items, r, n).len() == n,
    decreases n,
{
    if n > 0 {
        lemma_script_steps_len(items, r, (n - 1) as nat);
    }
}

proof fn lemma_no_bad_key(entries: Seq<RegistrySpec>, from: int)
    requires
        0 <= from,
        forall|i: int| 0 <= i < entries.len() ==> #[trigger] parsed_key(entries[i].key@) is Some,
    ensures
        first_bad_key(entries, from) == entries.len(),
    decreases entries.len() - from,
{
    if from < entries.len() {
        lemma_no_bad_key(entries, from + 1);
    }
}

/// The progress of an install reaches its total exactly: when every
/// registry key is supported and the manifest names an install root, the
/// plan has one step per declared item plus the uninstaller and its
/// registration, which is the total the progress window is given.
pub proof fn law_plan_fills_progress_total(
    plan: InstallPlan,
    m: InstallManifest,
    manifest_path: Seq<char>,
    journal_path: Option<Seq<char>>,
    requires_admin: bool,
    r: PathResolver,
    rt: InstallRuntime,
    version: Seq<char>,
)
    requires
        runtime_matches(rt, m, manifest_path, journal_path, requires_admin, r),
        plan_matches(plan, m, parent_of(manifest_path), r, rt, version),
        install_root_of(m, r) is Some,
        forall|i: int|
            0 <= i < m.registry@.len() ==> #[trigger] parsed_key(m.registry@[i].key@) is Some,
    ensures
        plan.failure is None,
        plan.steps@.len() == install_step_count(m),
{
    lemma_no_bad_key(m.registry@, 0);
    lemma_directory_steps_len(m.directories@, r, m.directories@.len());
    lemma_file_steps_len(m.files@, parent_of(manifest_path), r, m.files@.len());
    lemma_registry_steps_len(m.registry@, r, m.registry@.len());
    lemma_shortcut_steps_len(m.shortcuts@, r, m.shortcuts@.len());
    lemma_script_steps_len(m.scripts@, r, m.scripts@.len());
    assert(steps_view(plan.steps@).len() == plan.steps@.len());
}

proof fn lemma_file_step_at(
    files: Seq<FileSpec>,
    manifest_dir: Option<Seq<char>>,
    r: PathResolver,
    n: nat,
    i: int,
)
    requires
        0 <= i < n,
    ensures
        file_steps(files, manifest_dir, r, n)[i].1 == (InstallOpView::CopyFile {
            source: absolutize_spec(manifest_dir, files[i].source@),
            destination: r.resolve_spec(files[i].destination@),
            parent: parent_of(r.resolve_spec(files[i].destination@)),
        }),
    decreases n,
{
    lemma_file_steps_len(files, manifest_dir, r, (n - 1) as nat);
    if i < n - 1 {
        lemma_file_step_at(files, manifest_dir, r, (n - 1) as nat, i);
    }
}

/// Every file of the manifest is copied into a folder that is created
/// first: right after the directory steps, in file order, step `d + i`
/// copies file `i` from its source (taken relative to the manifest's
/// folder) to its resolved destination, and names the destination's parent
/// folder (`Path::parent`) as the folder to create before copying.
pub proof fn law_plan_copies_into_created_folders(
    plan: InstallPlan,
    m: InstallManifest,
    manifest_dir: Option<Seq<char>>,
    r: PathResolver,
    rt: InstallRuntime,
    version: Seq<char>,
)
    requires
        plan_matches(plan, m, manifest_dir, r, rt, version),
    ensures
        forall|i: int|
            0 <= i < m.files@.len() ==> {
                let d = m.directories@.len() as int;
                let dst = r.resolve_spec((#[trigger] m.files@[i]).destination@);
                &&& d + i < plan.steps@.len()
                &&& plan.steps@[d + i].op@ == (InstallOpView::CopyFile {
                    source: absolutize_spec(manifest_dir, m.files@[i].source@),
                    destination: dst,
                    parent: parent_of(dst),
                })
            },
{
    let dirs = directory_steps(m.directories@, r, m.directories@.len());
    let fs = file_steps(m.files@, manifest_dir, r, m.files@.len());
    let k = first_bad_key(m.registry@, 0);
    lemma_directory_steps_len(m.directories@, r, m.directories@.len());
    lemma_file_steps_len(m.files@, manifest_dir, r, m.files@.len());
    let head = dirs + fs + registry_steps(m.registry@, r, k as nat);
    let sv = steps_view(plan.steps@);
    assert(sv.len() == plan.steps@.len());
    assert(sv.len() >= head.len());
    assert(forall|j: int| 0 <= j < head.len() ==> sv[j] == #[trigger] head[j]);
    assert forall|i: int| 0 <= i < m.files@.len() implies {
        let d = m.directories@.len() as int;
        let dst = r.resolve_spec((#[trigger] m.files@[i]).destination@);
        &&& d + i < plan.steps@.len()
        &&& plan.steps@[d + i].op@ == (InstallOpView::CopyFile {
            source: absolutize_spec(manifest_dir, m.files@[i].source@),
            destination: dst,
            parent: parent_of(dst),
        })
    } by {
        let d = m.directories@.len() as int;
        lemma_file_step_at(m.files@, manifest_dir, r, m.files@.len(), i);
        assert(head[d + i] == fs[i]);
        assert(sv[d + i] == head[d + i]);
        assert(sv[d + i].1 == plan.steps@[d + i].op@);
    }
}

proof fn lemma_directory_step_at(dirs: Seq<String>, r: PathResolver, n: nat, i: int)
    requires
        0 <= i < n,
    ensures
        directory_steps(dirs, r, n)[i].1 == (InstallOpView::CreateDirectory {
            path: r.resolve_spec(dirs[i]@),
        }),
    decreases n,
{
    lemma_directory_steps_len(dirs, r, (n - 1) as nat);
    if i < n - 1 {
        lemma_directory_step_at(dirs, r, (n - 1) as nat, i);
    }
}

proof fn lemma_registry_step_at(entries: Seq<RegistrySpec>, r: PathResolver, n: nat, i: int)
    requires
        0 <= i < n,
    ensures
        registry_steps(entries, r, n)[i].1 == (InstallOpView::SetRegistryValue {
            root: parsed_key(entries[i].key@).unwrap().0,
            subkey: parsed_key(entries[i].key@).unwrap().1,
            name: entries[i].name@,
            value: r.resolve_spec(entries[i].value@),
        }),
    decreases n,
{
    lemma_registry_steps_len(entries, r, (n - 1) as nat);
    if i < n - 1 {
        lemma_registry_step_at(entries, r, (n - 1) as nat, i);
    }
}

proof fn lemma_shortcut_step_at(items: Seq<ShortcutSpec>, r: PathResolver, n: nat, i: int)
    requires
        0 <= i < n,
    ensures
        shortcut_steps(items, r, n)[i].1 == (InstallOpView::CreateShortcut {
            path: r.resolve_spec(items[i].path@),
            target: r.resolve_spec(items[i].target@),
            arguments: opt_view(items[i].arguments),
            working_directory: resolve_opt(r, items[i].working_directory),
            description: opt_view(items[i].description),
            parent: parent_of(r.resolve_spec(items[i].path@)),
        }),
    decreases n,
{
    lemma_shortcut_steps_len(items, r, (n - 1) as nat);
    if i < n - 1 {
        lemma_shortcut_step_at(items, r, (n - 1) as nat, i);
    }
}

proof fn lemma_script_step_at(items: Seq<ScriptSpec>, r: PathResolver, n: nat, i: int)
    requires
        0 <= i < n,
    ensures
        script_steps(items, r, n)[i].1 == (InstallOpView::RunScript {
            command: items[i].command@,
            args: strings_view(items[i].args@),
            working_directory: resolve_opt(r, items[i].working_directory),
        }),
    decreases n,
{
    lemma_script_steps_len(items, r, (n - 1) as nat);
    if i < n - 1 {
        lemma_script_step_at(items, r, (n - 1) as nat, i);
    }
}

proof fn lemma_bad_key_after(entries: Seq<RegistrySpec>, from: int, i: int)
    requires
        0 <= from <= i < entries.len(),
        forall|j: int| from <= j <= i ==> #[trigger] parsed_key(entries[j].key@) is Some,
    ensures
        first_bad_key(entries, from) > i,
    decreases i - from,
{
    assert(parsed_key(entries[from].key@) is Some);
    if from < i {
        lemma_bad_key_after(entries, from + 1, i);
    } else {
        lemma_bad_key_bounds(entries, from + 1);
    }
}

/// The plan follows the manifest, item by item: directory `i` is created at
/// step `i` under its resolved path; after the file copies, registry entry
/// `i` (when it and every entry before it name a supported hive) writes its
/// resolved value under the hive and subkey its key names; and when every
/// key is supported, the shortcuts follow, each made at its resolved path
/// for its resolved target with its arguments, resolved working directory
/// and description, its folder created first, and then the scripts, each
/// run with its command, arguments and resolved working directory.
pub proof fn law_plan_follows_manifest(
    plan: InstallPlan,
    m: InstallManifest,
    manifest_dir: Option<Seq<char>>,
    r: PathResolver,
    rt: InstallRuntime,
    version: Seq<char>,
)
    requires
        plan_matches(plan, m, manifest_dir, r, rt, version),
    ensures
        forall|i: int|
            0 <= i < m.directories@.len() ==> i < plan.steps@.len() && plan.steps@[i].op@ == (
            InstallOpView::CreateDirectory { path: r.resolve_spec(#[trigger] m.directories@[i]@) }),
        forall|i: int|
            0 <= i < m.registry@.len() && (forall|j: int|
                0 <= j <= i ==> #[trigger] parsed_key(m.registry@[j].key@) is Some) ==> {
                let at = m.directories@.len() + m.files@.len() + i;
                let key = parsed_key((#[trigger] m.registry@[i]).key@).unwrap();
                &&& at < plan.steps@.len()
                &&& plan.steps@[at].op@ == (InstallOpView::SetRegistryValue {
                    root: key.0,
                    subkey: key.1,
                    name: m.registry@[i].name@,
                    value: r.resolve_spec(m.registry@[i].value@),
                })
            },
        (forall|j: int| 0 <= j < m.registry@.len() ==> #[trigger] parsed_key(m.registry@[j].key@) is Some)
            ==> forall|i: int|
            0 <= i < m.shortcuts@.len() ==> {
                let at = m.directories@.len() + m.files@.len() + m.registry@.len() + i;
                let sh = #[trigger] m.shortcuts@[i];
                let p = r.resolve_spec(sh.path@);
                &&& at < plan.steps@.len()
                &&& plan.steps@[at].op@ == (InstallOpView::CreateShortcut {
                    path: p,
                    target: r.resolve_spec(sh.target@),
                    arguments: opt_view(sh.arguments),
                    working_directory: resolve_opt(r, sh.working_directory),
                    description: opt_view(sh.description),
                    parent: parent_of(p),
                })
            },
        (forall|j: int| 0 <= j < m.registry@.len() ==> #[trigger] parsed_key(m.registry@[j].key@) is Some)
            ==> forall|i: int|
            0 <= i < m.scripts@.len() ==> {
                let at = m.directories@.len() + m.files@.len() + m.registry@.len()
                    + m.shortcuts@.len() + i;
                let sc = #[trigger] m.scripts@[i];
                &&& at < plan.steps@.len()
                &&& plan.steps@[at].op@ == (InstallOpView::RunScript {
                    command: sc.command@,
                    args: strings_view(sc.args@),
                    working_directory: resolve_opt(r, sc.working_directory),
                })
            },
{
    let d = m.directories@.len() as int;
    let f = m.files@.len() as int;
    let dirs = directory_steps(m.directories@, r, m.directories@.len());
    let fs = file_steps(m.files@, manifest_dir, r, m.files@.len());
    let k = first_bad_key(m.registry@, 0);
    lemma_bad_key_bounds(m.registry@, 0);
    lemma_directory_steps_len(m.directories@, r, m.directories@.len());
    lemma_file_steps_len(m.files@, manifest_dir, r, m.files@.len());
    lemma_registry_steps_len(m.registry@, r, k as nat);
    let regs = registry_steps(m.registry@, r, k as nat);
    let head = dirs + fs + regs;
    let sv = steps_view(plan.steps@);
    assert(sv.len() == plan.steps@.len());
    assert(forall|j: int| 0 <= j < head.len() ==> sv[j] == #[trigger] head[j]);
    assert forall|i: int| 0 <= i < m.directories@.len() implies i < plan.steps@.len()
        && plan.steps@[i].op@ == (InstallOpView::CreateDirectory {
        path: r.resolve_spec(#[trigger] m.directories@[i]@),
    }) by {
        lemma_directory_step_at(m.directories@, r, m.directories@.len(), i);
        assert(head[i] == dirs[i]);
        assert(sv[i] == head[i]);
        assert(sv[i].1 == plan.steps@[i].op@);
    }
    assert forall|i: int|
        0 <= i < m.registry@.len() && (forall|j: int|
            0 <= j <= i ==> #[trigger] parsed_key(m.registry@[j].key@) is Some) implies {
        let at = m.directories@.len() + m.files@.len() + i;
        let key = parsed_key((#[trigger] m.registry@[i]).key@).unwrap();
        &&& at < plan.steps@.len()
        &&& plan.steps@[at].op@ == (InstallOpView::SetRegistryValue {
            root: key.0,
            subkey: key.1,
            name: m.registry@[i].name@,
            value: r.resolve_spec(m.registry@[i].value@),
        })
    } by {
        lemma_bad_key_after(m.registry@, 0, i);
        lemma_registry_step_at(m.registry@, r, k as nat, i);
        assert(head[d + f + i] == regs[i]);
        assert(sv[d + f + i] == head[d + f + i]);
        assert(sv[d + f + i].1 == plan.steps@[d + f + i].op@);
    }
    if forall|j: int| 0 <= j < m.registry@.len() ==> #[trigger] parsed_key(m.registry@[j].key@) is Some {
        lemma_no_bad_key(m.registry@, 0);
        let g = m.registry@.len() as int;
        let shs = shortcut_steps(m.shortcuts@, r, m.shortcuts@.len());
        let scs = script_steps(m.scripts@, r, m.scripts@.len());
        lemma_shortcut_steps_len(m.shortcuts@, r, m.shortcuts@.len());
        lemma_script_steps_len(m.scripts@, r, m.scripts@.len());
        let whole = head + shs + scs + closing_steps(m.app_name@, rt, version);
        assert(sv == whole);
        let h = m.shortcuts@.len() as int;
        assert forall|i: int| 0 <= i < m.shortcuts@.len() implies {
            let at = m.directories@.len() + m.files@.len() + m.registry@.len() + i;
            let sh = #[trigger] m.shortcuts@[i];
            let p = r.resolve_spec(sh.path@);
            &&& at < plan.steps@.len()
            &&& plan.steps@[at].op@ == (InstallOpView::CreateShortcut {
                path: p,
                target: r.resolve_spec(sh.target@),
                arguments: opt_view(sh.arguments),
                working_directory: resolve_opt(r, sh.working_directory),
                description: opt_view(sh.description),
                parent: parent_of(p),
            })
        } by {
            lemma_shortcut_step_at(m.shortcuts@, r, m.shortcuts@.len(), i);
            assert(whole[d + f + g + i] == shs[i]);
            assert(sv[d + f + g + i].1 == plan.steps@[d + f + g + i].op@);
        }
        assert forall|i: int| 0 <= i < m.scripts@.len() implies {
            let at = m.directories@.len() + m.files@.len() + m.registry@.len()
                + m.shortcuts@.len() + i;
            let sc = #[trigger] m.scripts@[i];
            &&& at < plan.steps@.len()
            &&& plan.steps@[at].op@ == (InstallOpView::RunScript {
                command: sc.command@,
                args: strings_view(sc.args@),
                working_directory: resolve_opt(r, sc.working_directory),
            })
        } by {
            lemma_script_step_at(m.scripts@, r, m.scripts@.len(), i);
            assert(whole[d + f + g + h + i] == scs[i]);
            assert(sv[d + f + g + h + i].1 == plan.steps@[d + f + g + h + i].op@);
        }
    }
}

proof fn lemma_bad_key_bounds(entries: Seq<RegistrySpec>, from: int)
    requires
        0 <= from,
    ensures
        first_bad_key(entries, from) <= entries.len(),
        from <= entries.len() ==> from <= first_bad_key(entries, from),
    decreases entries.len() - from,
{
    if from < entries.len() {
        lemma_bad_key_bounds(entries, from + 1);
    }
}

/// A journal holds, in order, the entries of the install steps that
/// succeeded and of no others: the entries after `k + 1` steps extend those
/// after `k` by the entries of step `k` alone.
pub proof fn law_journal_grows_by_one_step(steps: Seq<StepView>, k: nat, current_exe: Seq<char>)
    requires
        k < steps.len(),
    ensures
        applied(steps, k + 1, current_exe) == applied(steps, k, current_exe) + records_of(
            steps[k as int].1,
            current_exe,
        ),
        applied(steps, k, current_exe).len() <= applied(steps, k + 1, current_exe).len(),
{
}


/// What the elevation check does next.
#[derive(Debug, Clone, Copy, PartialEq, Eq, Structural)]
pub enum ElevationAction {
    /// Go on with the operation.
    Proceed,
    /// Ask whether the process is elevated, then decide again.
    Probe,
    /// Relaunch elevated; this process then stops with [`relaunch_marker`].
    Relaunch,
    /// Stop with [`elevation_refusal`].
    Refuse,
}

/// The elevation decision: nothing to do when elevation is not required;
/// otherwise probe first, then go on if elevated, else relaunch when the
/// user asked for it and refuse when not.
pub open spec fn elevation_spec(required: bool, relaunch: bool, elevated: Option<bool>) -> ElevationAction {
    if !required {
        ElevationAction::Proceed
    } else {
        match elevated {
            None => ElevationAction::Probe,
            Some(true) => ElevationAction::Proceed,
            Some(false) => if relaunch {
                ElevationAction::Relaunch
            } else {
                ElevationAction::Refuse
            },
        }
    }
}

/// Decides how to satisfy an elevation requirement, given what is known
/// about the process (`None` before it has been probed).
pub fn elevation_action(required: bool, relaunch: bool, elevated: Option<bool>) -> (a: ElevationAction)
    ensures
        a == elevation_spec(required, relaunch, elevated),
{
    if !required {
        return ElevationAction::Proceed;
    }
    match elevated {
        None => ElevationAction::Probe,
        Some(true) => ElevationAction::Proceed,
        Some(false) => if relaunch {
            ElevationAction::Relaunch
        } else {
            ElevationAction::Refuse
        },
    }
}

/// The error an unelevated process stops with when it may not relaunch.
pub fn elevation_refusal() -> (e: AppError)
    ensures
        e matches AppError::Message(m) && m@ == "Elevation required for requested operation"@,
{
    AppError::Message(String::from_str("Elevation required for requested operation"))
}

/// The error a process stops with after handing over to its elevated copy;
/// the entry point treats it as success.
pub fn relaunch_marker() -> (e: AppError)
    ensures
        e matches AppError::Message(m) && m@ == "__elevated_relaunch__"@,
{
    AppError::Message(String::from_str("__elevated_relaunch__"))
}

/// Whether an error is the hand-over marker of an elevated relaunch.
pub fn is_relaunch_marker(e: &AppError) -> (r: bool)
    ensures
        r == (e matches AppError::Message(m) && m@ == "__elevated_relaunch__"@),
{
    match e {
        AppError::Message(m) => {
            let marker = String::from_str("__elevated_relaunch__");
            crate::registry::same_text(m, &marker)
        },
        _ => false,
    }
}

/// A failed install is rolled back when its runtime was set up and at least
/// one mutation was recorded.
pub fn should_roll_back(runtime_known: bool, recorded: usize) -> (r: bool)
    ensures
        r == (runtime_known && recorded > 0),
{
    runtime_known && recorded > 0
}

/// The rollback problem when the journal could not be written back and read.
pub fn journal_write_problem(detail: &str) -> (r: String)
    ensures
        r@ == "Could not write or verify journal.json: "@ + detail@,
{
    let mut m = chars_of("Could not write or verify journal.json: ");
    let d = chars_of(detail);
    append_chars(&mut m, &d);
    string_of(m.as_slice())
}

/// The rollback problem when the reverting uninstall failed.
pub fn rollback_problem(detail: &str) -> (r: String)
    ensures
        r@ == "Rollback failed: "@ + detail@,
{
    let mut m = chars_of("Rollback failed: ");
    let d = chars_of(detail);
    append_chars(&mut m, &d);
    string_of(m.as_slice())
}

/// How a failed install ends.
#[derive(Debug, Clone, PartialEq, Eq)]
pub enum InstallFailure {
    /// The user cancelled and every change was reverted: show the message
    /// as the closing progress text and report the cancellation.
    Cancelled { finish_message: String },
    /// Show the error as the failure and report it.
    Failed(AppError),
}

/// What a failed install reports: a clean cancellation when the user
/// cancelled and the rollback succeeded; otherwise the error, extended with
/// the rollback problem when there was one.
pub open spec fn failure_outcome_ok(
    app_name: Seq<char>,
    err: AppError,
    rollback_error: Option<Seq<char>>,
    r: InstallFailure,
) -> bool {
    if err is Cancelled && rollback_error is None {
        r matches InstallFailure::Cancelled { finish_message } && finish_message@ == app_name
            + " installation cancelled. All changes were reverted."@
    } else {
        match rollback_error {
            None => r == InstallFailure::Failed(err),
            Some(problem) => r matches InstallFailure::Failed(AppError::Message(m)) && m@
                == "Installation failed: "@ + crate::error::error_text(err)
                + ". Additionally, rollback failed: "@ + problem,
        }
    }
}

/// Decides how a failed install ends, given the error that stopped it and
/// the problem its rollback met, if any.
pub fn install_failure_outcome(app_name: &str, err: AppError, rollback_error: Option<String>) -> (r:
    InstallFailure)
    ensures
        failure_outcome_ok(app_name@, err, opt_view(rollback_error), r),
{
    let cancelled = match &err {
        AppError::Cancelled => true,
        _ => false,
    };
    match rollback_error {
        None => {
            if cancelled {
                let mut m = chars_of(app_name);
                let t = chars_of(" installation cancelled. All changes were reverted.");
                append_chars(&mut m, &t);
                InstallFailure::Cancelled { finish_message: string_of(m.as_slice()) }
            } else {
                InstallFailure::Failed(err)
            }
        },
        Some(problem) => {
            let mut m = chars_of("Installation failed: ");
            let e = err.to_string();
            let ev = chars_of(e.as_str());
            append_chars(&mut m, &ev);
            let mid = chars_of(". Additionally, rollback failed: ");
            append_chars(&mut m, &mid);
            let pv = chars_of(problem.as_str());
            append_chars(&mut m, &pv);
            InstallFailure::Failed(AppError::Message(string_of(m.as_slice())))
        },
    }
}

/// The closing progress text of a successful install.
pub fn install_success_message(app_name: &str) -> (r: String)
    ensures
        r@ == app_name@ + " installation completed successfully"@,
{
    let mut m = chars_of(app_name);
    let t = chars_of(" installation completed successfully");
    append_chars(&mut m, &t);
    string_of(m.as_slice())
}

/// The error when an install stops before its runtime was set up.
pub fn runtime_missing() -> (e: AppError)
    ensures
        e matches AppError::Message(m) && m@ == "Install runtime was not initialized"@,
{
    AppError::Message(String::from_str("Install runtime was not initialized"))
}

/// The file names a branding image may have, in the order they are tried.
pub open spec fn branding_names() -> Seq<Seq<char>> {
    seq!["branding.png"@, "banner.png"@, "logo.png"@]
}

/// The places a branding image is looked for, in order: each name in the
/// manifest's folder, then each name in the install root.
pub open spec fn branding_candidates_spec(
    manifest_dir: Option<Seq<char>>,
    install_root: Option<Seq<char>>,
) -> Seq<Seq<char>> {
    let in_dir = |d: Seq<char>| branding_names().map_values(|n: Seq<char>| join_path(d, n));
    (match manifest_dir {
        Some(d) => in_dir(d),
        None => seq![],
    }) + (match install_root {
        Some(d) => in_dir(d),
        None => seq![],
    })
}

fn push_candidates(out: &mut Vec<String>, dir: &str)
    ensures
        strings_view(final(out)@) == strings_view(old(out)@) + branding_names().map_values(
            |n: Seq<char>| join_path(dir@, n),
        ),
{
    let d = chars_of(dir);
    let a = chars_of("branding.png");
    let b = chars_of("banner.png");
    let c = chars_of("logo.png");
    let ghost before = strings_view(out@);
    out.push(string_of(join_chars(&d, &a).as_slice()));
    out.push(string_of(join_chars(&d, &b).as_slice()));
    out.push(string_of(join_chars(&d, &c).as_slice()));
    assert(strings_view(out@) =~= before + branding_names().map_values(
        |n: Seq<char>| join_path(dir@, n),
    ));
}

/// The paths a branding image is looked for at, in order; the window shows
/// the first that is a file.
pub fn branding_candidates(manifest_dir: Option<&str>, install_root: Option<&str>) -> (r: Vec<
    String,
>)
    ensures
        strings_view(r@) == branding_candidates_spec(
            match manifest_dir {
                Some(d) => Some(d@),
                None => None,
            },
            match install_root {
                Some(d) => Some(d@),
                None => None,
            },
        ),
{
    let mut out: Vec<String> = Vec::new();
    assert(strings_view(out@) =~= Seq::<Seq<char>>::empty());
    match manifest_dir {
        Some(d) => push_candidates(&mut out, d),
        None => {},
    }
    let ghost mid = strings_view(out@);
    match install_root {
        Some(d) => push_candidates(&mut out, d),
        None => {},
    }
    assert(strings_view(out@) =~= branding_candidates_spec(
        match manifest_dir {
            Some(d) => Some(d@),
            None => None,
        },
        match install_root {
            Some(d) => Some(d@),
            None => None,
        },
    ));
    out
}

/// Whether the window opens on the welcome page: only for a run nobody
/// automates, of an application with a name.
pub fn show_welcome(automation: bool, app_name: &str) -> (r: bool)
    ensures
        r == (!automation && crate::text::trimmed(app_name@).len() > 0),
{
    let v = chars_of(app_name);
    let t = crate::text::trim_chars(&v);
    !automation && t.len() > 0
}

/// The error a script that exited unsuccessfully stops the install with;
/// `status` is how the exit status renders.
pub fn script_failure(command: &str, status: &str) -> (e: AppError)
    ensures
        e matches AppError::Message(m) && m@ == "Script failed: "@ + command@ + " ("@ + status@
            + ")"@,
{
    let mut m = chars_of("Script failed: ");
    let c = chars_of(command);
    append_chars(&mut m, &c);
    let o = chars_of(" (");
    append_chars(&mut m, &o);
    let st = chars_of(status);
    append_chars(&mut m, &st);
    m.push(')');
    assert(m@ == "Script failed: "@ + command@ + " ("@ + status@ + ")"@) by {
        reveal_strlit(")");
    }
    AppError::Message(string_of(m.as_slice()))
}

/// The title of the progress window and terminal line of an install.
pub fn install_title(app_name: &str) -> (r: String)
    ensures
        r@ == "Installing "@ + app_name@,
{
    let mut m = chars_of("Installing ");
    let a = chars_of(app_name);
    append_chars(&mut m, &a);
    string_of(m.as_slice())
}

} // verus!
