use covenant_setup::bundle::{
    locate_embedded_payload, should_exclude_from_bundle, split_embedded_files, EmbeddedBundleIndex,
    EmbeddedFileIndexEntry, PackagedApp,
};
use covenant_setup::cli::{plan_dispatch, Command};
use covenant_setup::cmdline::quote_command_line_arg;
use covenant_setup::error::{
    error_exit_code, win32_ok, AppError, EXIT_CANCELLED, EXIT_ELEVATION_REQUIRED,
    EXIT_OPERATION_FAILED,
};
use covenant_setup::install::{
    build_install_runtime, elevation_action, elevation_refusal, infer_install_root,
    manifest_requires_admin, relaunch_marker, total_install_steps, uninstall_entry_values,
    ElevationAction,
};
use covenant_setup::journal::{DeclaredTracker, Journal, JournalAction, PurgeSpec, RegistryRoot};
use covenant_setup::manifest::{
    enforce_manifest_field_spacing, enforce_manifest_file_name, enforce_manifest_path_spacing,
    expected_manifest_file_name, FileSpec, InstallManifest, RegistrySpec, ScriptSpec, ShortcutSpec,
};
use covenant_setup::paths::{
    absolutize, is_windows_root, normalize_path_for_compare, powershell_single_quote,
    sanitize_registry_component,
};
use covenant_setup::registry::{
    is_uninstall_registry_key, parse_registry_key, push_unique_registry_branch,
};
use covenant_setup::resolver::PathResolver;
use covenant_setup::ui::{
    select_ui, ui_mode_name, ui_preferences_from_cli, CliFlags, PromptButtons, PromptIcon,
    PromptResult, UiMode, UiPreferences,
};
use covenant_setup::uninstall::{cleanup_notice, journal_requires_admin, total_uninstall_steps, CleanupNotice};
use covenant_setup::wide::{text_from_wide, Utf16Arg};

fn sample_manifest() -> InstallManifest {
    InstallManifest {
        app_name: "Sample App".to_string(),
        directories: vec!["C:\\Apps\\Sample\\bin".to_string()],
        files: vec![FileSpec {
            source: "payload\\app.exe".to_string(),
            destination: "C:\\Apps\\Sample\\app.exe".to_string(),
        }],
        registry: vec![RegistrySpec {
            key: "HKCU\\Software\\Sample".to_string(),
            name: "InstallLocation".to_string(),
            value: "C:\\Apps\\Sample".to_string(),
        }],
        shortcuts: vec![ShortcutSpec {
            path: "C:\\Users\\Public\\Desktop\\Sample.lnk".to_string(),
            target: "C:\\Apps\\Sample\\app.exe".to_string(),
            arguments: None,
            working_directory: None,
            description: None,
        }],
        scripts: vec![ScriptSpec {
            command: "post-install.cmd".to_string(),
            args: vec!["--ok".to_string()],
            working_directory: None,
        }],
        purge: PurgeSpec {
            registry_branches: vec![],
            paths: vec!["C:\\Apps\\Sample".to_string()],
        },
        support_contact: None,
    }
}

fn empty_manifest(app_name: &str) -> InstallManifest {
    InstallManifest {
        app_name: app_name.to_string(),
        directories: Vec::new(),
        files: Vec::new(),
        registry: Vec::new(),
        shortcuts: Vec::new(),
        scripts: Vec::new(),
        purge: PurgeSpec::default(),
        support_contact: None,
    }
}

fn program_files_resolver() -> PathResolver {
    PathResolver::with_roots_for_test(vec!["C:\\Program Files".to_string()])
}

fn spacing_manifest() -> InstallManifest {
    InstallManifest {
        app_name: "Display Name With Spaces".to_string(),
        directories: vec!["{LocalAppData}\\NoSpaces".to_string()],
        files: vec![FileSpec {
            source: "payload\\app.exe".to_string(),
            destination: "{LocalAppData}\\NoSpaces\\app.exe".to_string(),
        }],
        registry: vec![RegistrySpec {
            key: "HKCU\\Software\\NoSpaces".to_string(),
            name: "InstallRoot".to_string(),
            value: "{LocalAppData}\\NoSpaces".to_string(),
        }],
        shortcuts: vec![ShortcutSpec {
            path: "{Desktop}\\NoSpaces.lnk".to_string(),
            target: "{LocalAppData}\\NoSpaces\\app.exe".to_string(),
            arguments: Some("--profile=default".to_string()),
            working_directory: Some("{LocalAppData}\\NoSpaces".to_string()),
            description: Some("Description can have spaces".to_string()),
        }],
        scripts: vec![ScriptSpec {
            command: "powershell.exe".to_string(),
            args: vec![
                "-ExecutionPolicy".to_string(),
                "Bypass".to_string(),
                "-File".to_string(),
                "payload\\post_install.ps1".to_string(),
            ],
            working_directory: Some("{LocalAppData}\\NoSpaces".to_string()),
        }],
        purge: PurgeSpec {
            registry_branches: vec!["HKCU\\Software\\NoSpaces".to_string()],
            paths: vec!["{LocalAppData}\\NoSpaces".to_string()],
        },
        support_contact: None,
    }
}

fn check_field_spacing() {
    let mut manifest = spacing_manifest();
    enforce_manifest_field_spacing(&manifest).unwrap();

    manifest.scripts[0].args[3] = "payload\\post install.ps1".to_string();
    let err = enforce_manifest_field_spacing(&manifest)
        .unwrap_err()
        .to_string();
    assert!(err.contains("scripts[0].args[3]"));
    assert!(err.contains("cannot contain spaces"));
}

fn check_total_steps() {
    let manifest = sample_manifest();
    assert_eq!(total_install_steps(&manifest), 7);

    let journal = Journal {
        app_name: "Steps".to_string(),
        manifest_path: None,
        actions: vec![
            JournalAction::CreateDirectory {
                path: "C:\\Apps\\Steps".to_string(),
            },
            JournalAction::CreateShortcut {
                path: "C:\\Users\\Public\\Desktop\\Steps.lnk".to_string(),
            },
        ],
        purge: PurgeSpec {
            registry_branches: vec!["HKCU\\Software\\Steps".to_string()],
            paths: vec!["C:\\Apps\\Steps\\Cache".to_string()],
        },
        support_contact: None,
    };
    assert_eq!(total_uninstall_steps(&journal), 6);
}

fn check_infer_install_root() {
    let resolver = PathResolver::with_roots_for_test(vec![]);
    let mut manifest = sample_manifest();

    assert_eq!(
        infer_install_root(&manifest, &resolver),
        Some("C:\\Apps\\Sample".to_string())
    );

    manifest.purge.paths.clear();
    assert_eq!(
        infer_install_root(&manifest, &resolver),
        Some("C:\\Apps\\Sample\\bin".to_string())
    );

    manifest.directories.clear();
    assert_eq!(
        infer_install_root(&manifest, &resolver),
        Some("C:\\Apps\\Sample".to_string())
    );

    manifest.files.clear();
    assert_eq!(infer_install_root(&manifest, &resolver), None);
}

fn check_admin_resolved_paths_and_hklm() {
    let resolver = program_files_resolver();
    let mut manifest = sample_manifest();
    manifest.purge.paths = vec!["C:\\Users\\Alice\\App".to_string()];
    manifest.directories = vec!["C:\\Program Files\\Sample".to_string()];
    assert!(manifest_requires_admin(&manifest, &resolver).unwrap());

    manifest.directories.clear();
    manifest.files.clear();
    manifest.shortcuts.clear();
    manifest.registry = vec![RegistrySpec {
        key: "HKLM\\Software\\Sample".to_string(),
        name: "Value".to_string(),
        value: "Data".to_string(),
    }];
    assert!(manifest_requires_admin(&manifest, &resolver).unwrap());

    let journal = Journal {
        app_name: "Admin".to_string(),
        manifest_path: None,
        actions: vec![JournalAction::CopyFile {
            source: "payload.exe".to_string(),
            destination: "C:\\Program Files\\Sample\\payload.exe".to_string(),
        }],
        purge: PurgeSpec::default(),
        support_contact: None,
    };
    assert!(journal_requires_admin(&journal, &resolver).unwrap());

    let journal = Journal {
        app_name: "Admin".to_string(),
        manifest_path: None,
        actions: vec![],
        purge: PurgeSpec {
            registry_branches: vec!["HKLM\\Software\\Sample".to_string()],
            paths: vec![],
        },
        support_contact: None,
    };
    assert!(journal_requires_admin(&journal, &resolver).unwrap());
}

fn check_parse_registry_key() {
    assert_eq!(
        parse_registry_key("HKCU\\Software\\Example").unwrap(),
        (RegistryRoot::Hkcu, "Software\\Example".to_string())
    );
    assert_eq!(
        parse_registry_key("HKLM\\Software\\Example").unwrap(),
        (RegistryRoot::Hklm, "Software\\Example".to_string())
    );
    assert!(parse_registry_key("HKCR\\Software\\Example").is_err());
}

fn check_sanitize() {
    assert_eq!(sanitize_registry_component(""), "covenant_setup");
    assert_eq!(
        sanitize_registry_component("Vendor App: 1.0/alpha"),
        "Vendor_App__1_0_alpha"
    );
    assert_eq!(sanitize_registry_component("AZaz09-_"), "AZaz09-_");
}

fn check_uninstall_key_detection() {
    assert!(is_uninstall_registry_key(
        "Software\\Microsoft\\Windows\\CurrentVersion\\Uninstall\\Sample"
    ));
    assert!(!is_uninstall_registry_key("Software\\Sample"));
}

fn check_ui_mode_names() {
    assert_eq!(ui_mode_name(UiMode::NoUi), "none");
    assert_eq!(ui_mode_name(UiMode::Gui), "gui");
    assert_eq!(ui_mode_name(UiMode::Tui), "tui");
}

fn check_prompt_names() {
    assert_eq!(PromptButtons::Okay.as_str(), "ok");
    assert_eq!(PromptButtons::YesNo.as_str(), "yes_no");
    assert_eq!(PromptIcon::Information.as_str(), "information");
    assert_eq!(PromptIcon::Error.as_str(), "error");
}

fn check_prompt_results() {
    assert!(matches!(
        PromptResult::from_str("ok").unwrap(),
        PromptResult::Okay
    ));
    assert!(matches!(
        PromptResult::from_str("cancel").unwrap(),
        PromptResult::Cancel
    ));
    assert!(matches!(
        PromptResult::from_str("yes").unwrap(),
        PromptResult::Yes
    ));
    assert!(matches!(
        PromptResult::from_str("no").unwrap(),
        PromptResult::No
    ));
    assert!(matches!(
        PromptResult::from_str("none").unwrap(),
        PromptResult::Dismissed
    ));
    assert!(PromptResult::from_str("maybe").is_err());
}

fn check_powershell_quote() {
    assert_eq!(
        powershell_single_quote("C:\\Alice's App"),
        "C:\\Alice''s App"
    );
}

fn check_declared_tracker() {
    let mut tracker = DeclaredTracker::new();
    tracker.record(JournalAction::CreateDirectory {
        path: "C:\\Apps\\Tracked".to_string(),
    });

    let journal = tracker.finish(
        "Tracked App".to_string(),
        Some("install.toml".to_string()),
        PurgeSpec {
            registry_branches: vec!["HKCU\\Software\\Tracked".to_string()],
            paths: vec!["C:\\Apps\\Tracked".to_string()],
        },
        None,
    );

    assert_eq!(journal.app_name, "Tracked App");
    assert_eq!(journal.actions.len(), 1);
    assert_eq!(journal.purge.paths, vec!["C:\\Apps\\Tracked"]);
}

// Reference reader following the CommandLineToArgvW rules.
fn parse_argv_for_test(line: &str) -> Vec<String> {
    let mut args = Vec::new();
    let mut current = String::new();
    let mut in_quotes = false;
    let mut backslashes = 0usize;
    let mut started = false;

    for c in line.chars() {
        match c {
            '\\' => {
                backslashes += 1;
                started = true;
            }
            '"' => {
                for _ in 0..backslashes / 2 {
                    current.push('\\');
                }
                if backslashes % 2 == 1 {
                    current.push('"');
                } else {
                    in_quotes = !in_quotes;
                }
                backslashes = 0;
                started = true;
            }
            ' ' | '\t' if !in_quotes => {
                for _ in 0..backslashes {
                    current.push('\\');
                }
                backslashes = 0;
                if started {
                    args.push(std::mem::take(&mut current));
                    started = false;
                }
            }
            _ => {
                for _ in 0..backslashes {
                    current.push('\\');
                }
                backslashes = 0;
                current.push(c);
                started = true;
            }
        }
    }
    for _ in 0..backslashes {
        current.push('\\');
    }
    if started {
        args.push(current);
    }
    args
}

fn check_quote_passthrough() {
    assert_eq!(quote_command_line_arg("install"), "install");
    assert_eq!(
        quote_command_line_arg("C:\\Apps\\foo.exe"),
        "C:\\Apps\\foo.exe"
    );
    assert_eq!(quote_command_line_arg("--json"), "--json");
}

fn check_quote_wraps() {
    assert_eq!(quote_command_line_arg("hello world"), "\"hello world\"");
    assert_eq!(quote_command_line_arg("a\tb"), "\"a\tb\"");
    assert_eq!(
        quote_command_line_arg("C:\\Program Files\\App\\install.toml"),
        "\"C:\\Program Files\\App\\install.toml\""
    );
}

fn check_quote_escapes_quotes() {
    assert_eq!(quote_command_line_arg("a\"b"), "\"a\\\"b\"");
    assert_eq!(quote_command_line_arg("\""), "\"\\\"\"");
}

fn check_quote_trailing_backslashes() {
    assert_eq!(
        quote_command_line_arg("C:\\Path with space\\"),
        "\"C:\\Path with space\\\\\""
    );
}

fn check_quote_backslashes_before_quote() {
    assert_eq!(quote_command_line_arg("a\\\\b c"), "\"a\\\\b c\"");
    assert_eq!(quote_command_line_arg("a\\\\\"b"), "\"a\\\\\\\\\\\"b\"");
}

fn check_quote_empty() {
    assert_eq!(quote_command_line_arg(""), "\"\"");
}

fn check_quote_round_trip() {
    for input in [
        "simple",
        "with space",
        "a\"b",
        "C:\\Program Files\\app\\bin",
        "C:\\Path with space\\",
        "trailing\\\\",
        "embedded\\\"quote",
        "",
    ] {
        let quoted = quote_command_line_arg(input);
        let parsed = parse_argv_for_test(&quoted);
        assert_eq!(parsed, vec![input.to_string()], "input was {input:?}");
    }
}

fn check_utf16_arg() {
    let arg = Utf16Arg::from_str("A");
    assert_eq!(arg.inner, vec![65, 0]);
    assert_eq!(arg.as_bytes().len(), arg.inner.len() * std::mem::size_of::<u16>());
    assert_eq!(arg.as_bytes(), vec![65, 0, 0, 0]);
}

fn check_win32_ok() {
    win32_ok(0, "Example").unwrap();

    let err = win32_ok(5, "Example").unwrap_err().to_string();
    assert_eq!(err, "Example failed with Win32 error 5");
}

fn check_wide_decoding() {
    let valid = Utf16Arg::from_str("C:\\Temp").inner;
    let path = text_from_wide(&valid).unwrap();
    assert_eq!(path, "C:\\Temp");

    let invalid = vec![0xD800, 0];
    let err = text_from_wide(&invalid).unwrap_err().to_string();
    assert!(err.contains("Invalid UTF-16"));
}

fn check_exit_codes() {
    assert_eq!(error_exit_code(&AppError::Cancelled), EXIT_CANCELLED);
    assert_eq!(error_exit_code(&AppError::CancelledByUser), EXIT_CANCELLED);
    assert_eq!(
        error_exit_code(&AppError::Message(
            "Elevation required to write to HKLM".into()
        )),
        EXIT_ELEVATION_REQUIRED
    );
    assert_eq!(
        error_exit_code(&AppError::Message("boom".into())),
        EXIT_OPERATION_FAILED
    );
}

fn check_missing_command() {
    let flags = CliFlags {
        json: false,
        headless: true,
        headed: false,
        automation: false,
        elevate: false,
    };
    let err = plan_dispatch(flags, None, false).unwrap_err().to_string();
    assert!(err.contains("Missing command"));
}

fn check_ui_selection() {
    let json_flags = CliFlags {
        json: true,
        headless: false,
        headed: true,
        automation: false,
        elevate: false,
    };
    let json_preferences = ui_preferences_from_cli(&json_flags);
    assert!(json_preferences.json);
    assert_eq!(select_ui(json_preferences, false).unwrap(), UiMode::NoUi);

    let headless_flags = CliFlags {
        json: false,
        headless: true,
        headed: false,
        automation: false,
        elevate: false,
    };
    assert_eq!(
        select_ui(ui_preferences_from_cli(&headless_flags), false).unwrap(),
        UiMode::Tui
    );

    let missing = UiPreferences {
        json: false,
        headless: false,
        headed: false,
        automation: false,
    };
    assert!(select_ui(missing, false).is_err());

    let conflict = UiPreferences {
        json: false,
        headless: true,
        headed: true,
        automation: false,
    };
    assert!(select_ui(conflict, false).is_err());
}

fn check_headed_selection() {
    let headed = UiPreferences {
        json: false,
        headless: false,
        headed: true,
        automation: false,
    };
    for available in [false, true] {
        let mode = select_ui(headed, available).unwrap();
        assert!(matches!(mode, UiMode::Gui | UiMode::Tui));
    }
}

fn check_elevation_not_required() {
    assert_eq!(elevation_action(false, false, None), ElevationAction::Proceed);
}

fn check_elevation_relaunch() {
    assert_eq!(elevation_action(true, true, None), ElevationAction::Probe);
    assert_eq!(elevation_action(true, true, Some(false)), ElevationAction::Relaunch);
    assert_eq!(relaunch_marker().to_string(), "__elevated_relaunch__");
}

fn check_elevation_refusal() {
    assert_eq!(elevation_action(true, false, None), ElevationAction::Probe);
    assert_eq!(elevation_action(true, false, Some(false)), ElevationAction::Refuse);
    assert!(elevation_refusal().to_string().contains("Elevation required"));
}

fn check_elevation_already_elevated() {
    assert_eq!(elevation_action(true, true, None), ElevationAction::Probe);
    assert_eq!(elevation_action(true, true, Some(true)), ElevationAction::Proceed);
}

fn check_seven_uninstall_values() {
    let values = uninstall_entry_values(
        "Sample",
        "C:\\Apps\\Sample",
        "C:\\Apps\\Sample\\uninstall.exe",
        "C:\\fake\\journal.json",
        "0.1.0",
    );
    let names: Vec<&str> = values.iter().map(|(name, _)| name.as_str()).collect();
    assert_eq!(
        names,
        vec![
            "DisplayName",
            "Publisher",
            "DisplayVersion",
            "InstallLocation",
            "DisplayIcon",
            "UninstallString",
            "QuietUninstallString",
        ]
    );
}

fn payload_with_footer(payload: &[u8]) -> Vec<u8> {
    let mut bytes = payload.to_vec();
    bytes.extend_from_slice(&(payload.len() as u64).to_le_bytes());
    bytes.extend_from_slice(b"COVENANT_SETUP_BUNDLE_V1");
    bytes
}

fn index_json(app_name: &str, manifest: &str, path: &str, len: u64) -> String {
    format!(
        "{{\"metadata\":{{\"app_name\":\"{app_name}\",\"manifest\":\"{manifest}\"}},\"files\":[{{\"relative_path\":\"{path}\",\"len\":{len}}}]}}"
    )
}

fn single_entry_index(app_name: &str, path: &str, len: u64) -> EmbeddedBundleIndex {
    EmbeddedBundleIndex {
        metadata: PackagedApp {
            app_name: app_name.to_string(),
            manifest: expected_manifest_file_name(app_name),
        },
        files: vec![EmbeddedFileIndexEntry {
            relative_path: path.to_string(),
            len,
        }],
    }
}

#[test]
fn bundle_should_exclude_from_bundle_matches_generated_artifacts_only() {
    assert!(should_exclude_from_bundle("journal.json"));
    assert!(should_exclude_from_bundle("dist\\covenant-setup-installer.exe"));
    assert!(should_exclude_from_bundle("covenant-setup-uninstall.exe"));
    assert!(!should_exclude_from_bundle("payload\\app.exe"));
    assert!(!should_exclude_from_bundle(""));
}

#[test]
fn cli_ui_mode_names_are_stable() {
    check_ui_mode_names();
}

#[test]
fn main_ui_mode_names_are_stable() {
    check_ui_mode_names();
}

#[test]
fn install_total_step_helpers_count_manifest_and_journal_work() {
    check_total_steps();
}

#[test]
fn main_total_step_helpers_count_manifest_and_journal_work() {
    check_total_steps();
}

#[test]
fn install_install_runtime_uses_inferred_or_explicit_journal_paths() {
    let resolver = program_files_resolver();
    let manifest = sample_manifest();
    let runtime =
        build_install_runtime(&manifest, "C:\\source\\install.toml", None, true, &resolver).unwrap();

    assert_eq!(runtime.journal_path, "C:\\Apps\\Sample\\journal.json");
    assert_eq!(
        runtime.uninstall_exe_path,
        Some("C:\\Apps\\Sample\\covenant-setup-uninstall.exe".to_string())
    );
    assert_eq!(runtime.uninstall_registry_root, RegistryRoot::Hklm);
    assert!(runtime.uninstall_registry_key.ends_with("Sample_App"));

    let explicit = build_install_runtime(
        &manifest,
        "C:\\source\\install.toml",
        Some("D:\\journal.json".to_string()),
        false,
        &resolver,
    )
    .unwrap();
    assert_eq!(explicit.journal_path, "D:\\journal.json");
    assert_eq!(explicit.uninstall_registry_root, RegistryRoot::Hkcu);
}

#[test]
fn install_infer_install_root_prefers_purge_then_directory_then_file_parent() {
    check_infer_install_root();
}

#[test]
fn main_infer_install_root_prefers_purge_then_directory_then_file_parent() {
    check_infer_install_root();
}

#[test]
fn install_manifest_and_journal_admin_checks_use_resolved_paths_and_hklm() {
    check_admin_resolved_paths_and_hklm();
}

#[test]
fn main_manifest_and_journal_admin_checks_use_resolved_paths_and_hklm() {
    check_admin_resolved_paths_and_hklm();
}

#[test]
fn install_manifest_and_journal_admin_checks_return_false_for_user_scope_work() {
    let resolver = program_files_resolver();
    let manifest = InstallManifest {
        app_name: "User App".to_string(),
        directories: vec!["C:\\Users\\Alice\\AppData\\Local\\UserApp".to_string()],
        files: vec![FileSpec {
            source: "app.exe".to_string(),
            destination: "C:\\Users\\Alice\\AppData\\Local\\UserApp\\app.exe".to_string(),
        }],
        registry: vec![RegistrySpec {
            key: "HKCU\\Software\\UserApp".to_string(),
            name: "InstallLocation".to_string(),
            value: "C:\\Users\\Alice\\AppData\\Local\\UserApp".to_string(),
        }],
        shortcuts: vec![ShortcutSpec {
            path: "C:\\Users\\Alice\\Desktop\\UserApp.lnk".to_string(),
            target: "C:\\Users\\Alice\\AppData\\Local\\UserApp\\app.exe".to_string(),
            arguments: None,
            working_directory: None,
            description: None,
        }],
        scripts: Vec::new(),
        purge: PurgeSpec {
            registry_branches: vec!["HKCU\\Software\\UserApp".to_string()],
            paths: vec!["C:\\Users\\Alice\\AppData\\Local\\UserApp".to_string()],
        },
        support_contact: None,
    };
    assert!(!manifest_requires_admin(&manifest, &resolver).unwrap());

    let journal = Journal {
        app_name: "User App".to_string(),
        manifest_path: None,
        actions: vec![
            JournalAction::CreateDirectory {
                path: "C:\\Users\\Alice\\AppData\\Local\\UserApp".to_string(),
            },
            JournalAction::WriteRegistry {
                root: RegistryRoot::Hkcu,
                subkey: "Software\\UserApp".to_string(),
                name: "InstallLocation".to_string(),
            },
        ],
        purge: manifest.purge,
        support_contact: None,
    };
    assert!(!journal_requires_admin(&journal, &resolver).unwrap());
}

#[test]
fn install_admin_checks_detect_file_shortcut_and_purge_paths() {
    let resolver = program_files_resolver();
    let mut manifest = sample_manifest();
    manifest.directories.clear();
    manifest.registry.clear();
    manifest.files = vec![FileSpec {
        source: "payload.exe".to_string(),
        destination: "C:\\Program Files\\Sample\\payload.exe".to_string(),
    }];
    assert!(manifest_requires_admin(&manifest, &resolver).unwrap());

    manifest.files.clear();
    manifest.shortcuts = vec![ShortcutSpec {
        path: "C:\\Program Files\\Sample\\Sample.lnk".to_string(),
        target: "C:\\Users\\Alice\\App\\app.exe".to_string(),
        arguments: None,
        working_directory: None,
        description: None,
    }];
    assert!(manifest_requires_admin(&manifest, &resolver).unwrap());

    let journal = Journal {
        app_name: "Admin".to_string(),
        manifest_path: None,
        actions: vec![JournalAction::CreateShortcut {
            path: "C:\\Program Files\\Sample\\Sample.lnk".to_string(),
        }],
        purge: PurgeSpec::default(),
        support_contact: None,
    };
    assert!(journal_requires_admin(&journal, &resolver).unwrap());

    let journal = Journal {
        app_name: "Admin".to_string(),
        manifest_path: None,
        actions: Vec::new(),
        purge: PurgeSpec {
            registry_branches: Vec::new(),
            paths: vec!["C:\\Program Files\\Sample".to_string()],
        },
        support_contact: None,
    };
    assert!(journal_requires_admin(&journal, &resolver).unwrap());
}

#[test]
fn journal_declared_tracker_records_actions_and_finishes_journal() {
    check_declared_tracker();
}

#[test]
fn main_declared_tracker_records_actions_and_finishes_journal() {
    check_declared_tracker();
}

#[test]
fn main_parse_registry_key_accepts_supported_roots_and_rejects_unknown_roots() {
    check_parse_registry_key();
}

#[test]
fn uninstall_parse_registry_key_accepts_supported_roots_and_rejects_unknown_roots() {
    check_parse_registry_key();
}

#[test]
fn main_sanitize_registry_component_replaces_punctuation_and_defaults_empty_input() {
    check_sanitize();
}

#[test]
fn util_sanitize_registry_component_replaces_punctuation_and_defaults_empty_input() {
    check_sanitize();
}

#[test]
fn main_manifest_field_spacing_allows_only_app_name_and_description_spaces() {
    check_field_spacing();
}

#[test]
fn manifest_manifest_field_spacing_allows_only_app_name_and_description_spaces() {
    check_field_spacing();
}

#[test]
fn main_powershell_single_quote_doubles_embedded_quotes() {
    check_powershell_quote();
}

#[test]
fn util_powershell_single_quote_doubles_embedded_quotes() {
    check_powershell_quote();
}

#[test]
fn main_uninstall_registry_key_detection_matches_only_uninstall_branch() {
    check_uninstall_key_detection();
}

#[test]
fn uninstall_uninstall_registry_key_detection_matches_only_uninstall_branch() {
    check_uninstall_key_detection();
}

#[test]
fn manifest_manifest_file_name_must_match_app_name_convention() {
    let manifest = empty_manifest("Sample App");

    enforce_manifest_file_name("SampleApp-install.toml", &manifest).unwrap();

    let err = enforce_manifest_file_name("install.toml", &manifest)
        .unwrap_err()
        .to_string();
    assert!(err.contains("SampleApp-install.toml"));

    enforce_manifest_file_name("manifest folder\\SampleApp-install.toml", &manifest).unwrap();
}

#[test]
fn manifest_path_spacing_is_enforced_only_for_packaging() {
    enforce_manifest_path_spacing("C:\\work\\SampleApp-install.toml").unwrap();

    let err = enforce_manifest_path_spacing("manifest folder\\SampleApp-install.toml")
        .unwrap_err()
        .to_string();
    assert!(err.contains("cannot contain spaces"));
}

#[test]
fn ui_prompt_button_and_icon_names_match_protocol() {
    check_prompt_names();
}

#[test]
fn mod_prompt_button_and_icon_names_match_protocol() {
    check_prompt_names();
}

#[test]
fn ui_prompt_result_parses_known_values_and_rejects_unknown_values() {
    check_prompt_results();
}

#[test]
fn mod_prompt_result_parses_known_values_and_rejects_unknown_values() {
    check_prompt_results();
}

#[test]
fn uninstall_push_unique_registry_branch_deduplicates_root_and_subkey() {
    let mut branches = Vec::new();
    push_unique_registry_branch(&mut branches, RegistryRoot::Hkcu, "Software\\App".to_string());
    push_unique_registry_branch(&mut branches, RegistryRoot::Hkcu, "Software\\App".to_string());
    push_unique_registry_branch(&mut branches, RegistryRoot::Hklm, "Software\\App".to_string());

    assert_eq!(branches.len(), 2);
}

#[test]
fn util_normalize_path_for_compare_handles_case_slashes_and_verbatim_prefixes() {
    assert_eq!(normalize_path_for_compare("C:/Apps/Example/"), "c:\\apps\\example");
    assert_eq!(normalize_path_for_compare(r"\\?\C:\Apps\Example"), "c:\\apps\\example");
    assert_eq!(
        normalize_path_for_compare(r"\\?\UNC\server\share\Example"),
        r"\\server\share\example"
    );
}

#[test]
fn util_path_root_and_absolutize_helpers_handle_expected_shapes() {
    assert!(is_windows_root("C:\\"));
    assert!(is_windows_root("\\\\server\\share"));
    assert!(!is_windows_root("C:\\Apps"));
    assert_eq!(
        absolutize(Some("C:\\Base"), "relative\\file.txt"),
        "C:\\Base\\relative\\file.txt"
    );
    assert_eq!(
        absolutize(Some("C:\\Base"), "D:\\absolute\\file.txt"),
        "D:\\absolute\\file.txt"
    );
}

#[test]
fn win_quote_passthrough_when_no_special_chars() {
    check_quote_passthrough();
}

#[test]
fn mod_quote_passthrough_when_no_special_chars() {
    check_quote_passthrough();
}

#[test]
fn win_quote_wraps_when_contains_space_or_tab() {
    check_quote_wraps();
}

#[test]
fn mod_quote_wraps_when_contains_space_or_tab() {
    check_quote_wraps();
}

#[test]
fn win_quote_escapes_embedded_double_quotes() {
    check_quote_escapes_quotes();
}

#[test]
fn mod_quote_escapes_embedded_double_quotes() {
    check_quote_escapes_quotes();
}

#[test]
fn win_quote_doubles_trailing_backslashes_before_closing_quote() {
    check_quote_trailing_backslashes();
}

#[test]
fn mod_quote_doubles_trailing_backslashes_before_closing_quote() {
    check_quote_trailing_backslashes();
}

#[test]
fn win_quote_doubles_backslashes_only_when_followed_by_quote() {
    check_quote_backslashes_before_quote();
}

#[test]
fn mod_quote_doubles_backslashes_only_when_followed_by_quote() {
    check_quote_backslashes_before_quote();
}

#[test]
fn win_quote_emits_explicit_empty_argument() {
    check_quote_empty();
}

#[test]
fn mod_quote_emits_explicit_empty_argument() {
    check_quote_empty();
}

#[test]
fn win_quote_round_trips_through_argv_rules() {
    check_quote_round_trip();
}

#[test]
fn mod_quote_round_trips_through_argv_rules() {
    check_quote_round_trip();
}

#[test]
fn win_utf16_arg_as_bytes_includes_null_terminator() {
    check_utf16_arg();
}

#[test]
fn mod_utf16_arg_as_bytes_includes_null_terminator() {
    check_utf16_arg();
}

#[test]
fn win_win32_ok_accepts_success_and_formats_errors() {
    check_win32_ok();
}

#[test]
fn mod_win32_ok_accepts_success_and_formats_errors() {
    check_win32_ok();
}

#[test]
fn win_pwstr_to_path_decodes_valid_utf16_and_rejects_invalid_utf16() {
    check_wide_decoding();
}

#[test]
fn mod_pwstr_to_path_decodes_valid_utf16_and_rejects_invalid_utf16() {
    check_wide_decoding();
}

#[test]
fn cli_error_exit_code_maps_cancelled_elevation_and_default() {
    check_exit_codes();
}

#[test]
fn main_error_exit_code_maps_cancelled_elevation_and_default() {
    check_exit_codes();
}

#[test]
fn cli_run_without_command_reports_missing_command() {
    check_missing_command();
}

#[test]
fn main_run_without_command_reports_missing_command() {
    check_missing_command();
}

#[test]
fn cli_ui_preferences_and_selection_cover_explicit_modes() {
    check_ui_selection();
}

#[test]
fn main_ui_preferences_and_selection_cover_explicit_modes() {
    check_ui_selection();
}

#[test]
fn cli_headed_selection_uses_gui_or_documented_fallback() {
    check_headed_selection();
}

#[test]
fn main_headed_selection_uses_gui_or_documented_fallback() {
    check_headed_selection();
}

#[test]
fn install_elevation_not_required_short_circuits_without_admin_probe() {
    check_elevation_not_required();
}

#[test]
fn main_elevation_not_required_short_circuits_without_admin_probe() {
    check_elevation_not_required();
}

#[test]
fn install_ensure_elevation_if_needed_relaunches_when_required_and_relaunch_flag_set() {
    check_elevation_relaunch();
}

#[test]
fn main_ensure_elevation_if_needed_relaunches_when_required_and_relaunch_flag_set() {
    check_elevation_relaunch();
}

#[test]
fn install_ensure_elevation_if_needed_errors_when_required_and_no_relaunch() {
    check_elevation_refusal();
}

#[test]
fn main_ensure_elevation_if_needed_errors_when_required_and_no_relaunch() {
    check_elevation_refusal();
}

#[test]
fn install_ensure_elevation_if_needed_passes_when_already_elevated() {
    check_elevation_already_elevated();
}

#[test]
fn main_ensure_elevation_if_needed_passes_when_already_elevated() {
    check_elevation_already_elevated();
}

#[test]
fn install_register_uninstall_entry_writes_all_seven_values() {
    check_seven_uninstall_values();
}

fn check_short_payload() {
    let bytes = payload_with_footer(&[1, 2, 3, 4]);
    let err = locate_embedded_payload(&bytes).unwrap_err().to_string();
    assert!(err.contains("Embedded payload is too short"));
}

fn check_index_length_past_payload() {
    let bytes = payload_with_footer(&100u64.to_le_bytes());
    let err = locate_embedded_payload(&bytes).unwrap_err().to_string();
    assert!(err.contains("Embedded index length exceeds payload size"));
}

fn check_file_length_past_payload() {
    let index_bytes = index_json("Bad File", "BadFile-install.toml", "payload.bin", 10);
    let mut payload = Vec::new();
    payload.extend_from_slice(&(index_bytes.len() as u64).to_le_bytes());
    payload.extend_from_slice(index_bytes.as_bytes());
    let bytes = payload_with_footer(&payload);

    let layout = locate_embedded_payload(&bytes).unwrap().unwrap();
    assert_eq!(
        &bytes[layout.payload_start + 8..layout.data_start],
        index_bytes.as_bytes()
    );
    let index = single_entry_index("Bad File", "payload.bin", 10);
    let err = split_embedded_files(&bytes, &layout, index).unwrap_err().to_string();
    assert!(err.contains("Embedded file exceeds payload size"));
}

fn check_trailing_payload_bytes() {
    let index_bytes = index_json("Trailing", "Trailing-install.toml", "empty.bin", 0);
    let mut payload = Vec::new();
    payload.extend_from_slice(&(index_bytes.len() as u64).to_le_bytes());
    payload.extend_from_slice(index_bytes.as_bytes());
    payload.push(1);
    let bytes = payload_with_footer(&payload);

    let layout = locate_embedded_payload(&bytes).unwrap().unwrap();
    let index = single_entry_index("Trailing", "empty.bin", 0);
    let err = split_embedded_files(&bytes, &layout, index).unwrap_err().to_string();
    assert!(err.contains("Embedded payload has trailing bytes"));
}

fn check_wrong_magic_footer() {
    let mut bytes = vec![0; std::mem::size_of::<u64>()];
    bytes.extend_from_slice(b"COVENANT_SETUP_BUNDLE_BAD");
    assert!(locate_embedded_payload(&bytes).unwrap().is_none());
}

fn check_payload_length_past_file_start() {
    let mut bytes = b"stub".to_vec();
    bytes.extend_from_slice(&100u64.to_le_bytes());
    bytes.extend_from_slice(b"COVENANT_SETUP_BUNDLE_V1");
    let err = locate_embedded_payload(&bytes).unwrap_err().to_string();
    assert!(err.contains("Embedded payload length exceeds executable size"));
}

fn check_no_bundle_footer() {
    assert!(locate_embedded_payload(b"plain executable bytes").unwrap().is_none());
}

#[test]
fn bundle_read_embedded_bundle_rejects_short_payload() {
    check_short_payload();
}

#[test]
fn main_read_embedded_bundle_rejects_short_payload() {
    check_short_payload();
}

#[test]
fn bundle_read_embedded_bundle_rejects_index_length_past_payload() {
    check_index_length_past_payload();
}

#[test]
fn main_read_embedded_bundle_rejects_index_length_past_payload() {
    check_index_length_past_payload();
}

#[test]
fn bundle_read_embedded_bundle_rejects_file_length_past_payload() {
    check_file_length_past_payload();
}

#[test]
fn main_read_embedded_bundle_rejects_file_length_past_payload() {
    check_file_length_past_payload();
}

#[test]
fn bundle_read_embedded_bundle_rejects_trailing_payload_bytes() {
    check_trailing_payload_bytes();
}

#[test]
fn main_read_embedded_bundle_rejects_trailing_payload_bytes() {
    check_trailing_payload_bytes();
}

#[test]
fn bundle_read_embedded_bundle_returns_none_for_wrong_magic_footer() {
    check_wrong_magic_footer();
}

#[test]
fn main_read_embedded_bundle_returns_none_for_wrong_magic_footer() {
    check_wrong_magic_footer();
}

#[test]
fn bundle_read_embedded_bundle_rejects_payload_length_past_file_start() {
    check_payload_length_past_file_start();
}

#[test]
fn main_read_embedded_bundle_rejects_payload_length_past_file_start() {
    check_payload_length_past_file_start();
}

#[test]
fn bundle_read_embedded_bundle_returns_none_without_bundle_footer() {
    check_no_bundle_footer();
}

#[test]
fn main_read_embedded_bundle_returns_none_without_bundle_footer() {
    check_no_bundle_footer();
}

#[test]
fn uninstall_cleanup_prompts_and_spawns_reboot_when_required_in_gui_mode() {
    let notice = cleanup_notice("Sample", UiMode::Gui, false, true);
    assert_eq!(notice, CleanupNotice::PromptReboot);
    assert!(covenant_setup::ui::reboot_accepted(PromptResult::Yes));
    let prompt = covenant_setup::ui::prompt_uninstall_reboot("Sample");
    assert!(prompt.message.starts_with("Sample uninstalled successfully!"));
}

#[test]
fn uninstall_cleanup_skips_reboot_when_user_declines() {
    let notice = cleanup_notice("Sample", UiMode::Gui, false, true);
    assert_eq!(notice, CleanupNotice::PromptReboot);
    assert!(!covenant_setup::ui::reboot_accepted(PromptResult::No));
}

#[test]
fn uninstall_cleanup_tui_path_skips_prompt_when_no_reboot_needed() {
    let notice = cleanup_notice("Sample", UiMode::Tui, false, false);
    assert_eq!(
        notice,
        CleanupNotice::Print {
            text: "Sample uninstalled successfully!".to_string()
        }
    );
}

#[test]
fn main_cleanup_prompts_and_spawns_reboot_when_required_in_gui_mode() {
    let notice = cleanup_notice("Sample", UiMode::Gui, false, true);
    assert_eq!(notice, CleanupNotice::PromptReboot);
    assert!(covenant_setup::ui::reboot_accepted(PromptResult::Yes));
}

#[test]
fn main_cleanup_skips_reboot_when_user_declines() {
    assert!(!covenant_setup::ui::reboot_accepted(PromptResult::No));
    assert!(!covenant_setup::ui::reboot_accepted(PromptResult::Dismissed));
}

#[test]
fn main_cleanup_tui_path_skips_prompt_when_no_reboot_needed() {
    let notice = cleanup_notice("Sample", UiMode::Tui, false, false);
    assert!(matches!(notice, CleanupNotice::Print { .. }));
}
