use covenant_setup::bundle::{
    bundle_index, bundle_trailer, extraction_dir_name, locate_embedded_payload,
    split_embedded_files, EmbeddedBundle, EmbeddedFile, PackagedApp,
};
use covenant_setup::cli::{
    bundled_install_failure, plan_dispatch, report_failure_at_exit, run_exit_code, Command,
};
use covenant_setup::cmdline::relaunch_parameters;
use covenant_setup::elevation::{shell_execute_result, token_elevation};
use covenant_setup::error::AppError;
use covenant_setup::install::{
    branding_candidates, build_install_runtime, install_failure_outcome, install_title,
    plan_install, script_failure, show_welcome, total_install_steps, uninstall_entry_values, InstallFailure, InstallOp, InstallSession,
};
use covenant_setup::journal::{Journal, JournalAction, PurgeSpec, RegistryRoot};
use covenant_setup::manifest::{
    check_install_manifest, FileSpec, InstallManifest, RegistrySpec, ScriptSpec, ShortcutSpec,
};
use covenant_setup::resolver::PathResolver;
use covenant_setup::restart_manager::{fetched_process_ids, locking_probe, LockProbe, ERROR_MORE_DATA};
use covenant_setup::session::{
    is_cancel_request, shell_output_lines, sort_pipe_lines, take_complete_lines,
};
use covenant_setup::ui::{
    failure_message, progress_total, prompt_id, prompt_uninstall_reboot, read_prompt_reply,
    report_error, report_uninstall_success, welcome_accepted, CliFlags, PromptButtons, PromptIcon,
    PromptResult, UiMode, UiPreferences,
};
use covenant_setup::ui_bundle::{bundle_output_path, parse_ui_bundle};
use covenant_setup::uninstall::{
    cleanup_helper_args, cleanup_helper_file_name, cleanup_notice, helper_self_cleanup_launch,
    is_yes_answer, journal_requires_admin, plan_uninstall, reboot_launch, total_uninstall_steps,
    uninstall_completion,
    uninstall_title, CleanupNotice, CleanupRequest, UninstallOp,
};
use covenant_setup::uninstall::{
    cleanup_needs_restart, cleanup_wait, remove_install_root_now, CleanupWait,
    CLEANUP_DELETE_ATTEMPTS, CLEANUP_RETRY_DELAY_MS,
};
use covenant_setup::ui::{check_cancel_before_step, window_waits_for_close};
use covenant_setup::wide::{text_from_wide, Utf16Arg};

fn resolver() -> PathResolver {
    PathResolver::new(
        "C:\\Program Files".to_string(),
        "C:\\Program Files (x86)".to_string(),
        "C:\\Users\\Alice\\AppData\\Local".to_string(),
        "C:\\Users\\Alice\\Desktop".to_string(),
        "C:\\Windows".to_string(),
    )
}

fn manifest() -> InstallManifest {
    InstallManifest {
        app_name: "Demo App".to_string(),
        directories: vec!["{LocalAppData}\\Demo".to_string()],
        files: vec![FileSpec {
            source: "payload\\demo.exe".to_string(),
            destination: "{LocalAppData}\\Demo\\demo.exe".to_string(),
        }],
        registry: vec![RegistrySpec {
            key: "HKCU\\Software\\Demo".to_string(),
            name: "InstallRoot".to_string(),
            value: "{LocalAppData}\\Demo".to_string(),
        }],
        shortcuts: vec![ShortcutSpec {
            path: "{Desktop}\\Demo.lnk".to_string(),
            target: "{LocalAppData}\\Demo\\demo.exe".to_string(),
            arguments: None,
            working_directory: None,
            description: Some("Demo shortcut".to_string()),
        }],
        scripts: vec![ScriptSpec {
            command: "setup.cmd".to_string(),
            args: vec!["--quiet".to_string()],
            working_directory: None,
        }],
        purge: PurgeSpec {
            registry_branches: vec!["HKCU\\Software\\DemoCache".to_string()],
            paths: vec!["{LocalAppData}\\Demo".to_string()],
        },
        support_contact: None,
    }
}

fn parse_argv(line: &str) -> Vec<String> {
    let mut args = Vec::new();
    let mut current = String::new();
    let mut in_quotes = false;
    let mut backslashes = 0usize;
    let mut started = false;
    for c in line.chars() {
        match c {
            '\\' => {
                backslashes += 1;
                started = true;
            }
            '"' => {
                for _ in 0..backslashes / 2 {
                    current.push('\\');
                }
                if backslashes % 2 == 1 {
                    current.push('"');
                } else {
                    in_quotes = !in_quotes;
                }
                backslashes = 0;
                started = true;
            }
            ' ' | '\t' if !in_quotes => {
                for _ in 0..backslashes {
                    current.push('\\');
                }
                backslashes = 0;
                if started {
                    args.push(std::mem::take(&mut current));
                    started = false;
                }
            }
            _ => {
                for _ in 0..backslashes {
                    current.push('\\');
                }
                backslashes = 0;
                current.push(c);
                started = true;
            }
        }
    }
    for _ in 0..backslashes {
        current.push('\\');
    }
    if started {
        args.push(current);
    }
    args
}

fn ui_record(path: &[u8], data: &[u8]) -> Vec<u8> {
    let mut out = Vec::new();
    out.extend_from_slice(&(path.len() as u32).to_le_bytes());
    out.extend_from_slice(&(data.len() as u64).to_le_bytes());
    out.extend_from_slice(path);
    out.extend_from_slice(data);
    out
}

fn ui_bundle(records: &[Vec<u8>]) -> Vec<u8> {
    let mut out = b"COVENANT_SETUP_UI_BUNDLE_V1\n".to_vec();
    for r in records {
        out.extend_from_slice(r);
    }
    out.extend_from_slice(&0u32.to_le_bytes());
    out.extend_from_slice(&0u64.to_le_bytes());
    out
}

#[test]
fn packaged_bundle_reads_back_after_any_stub() {
    let bundle = EmbeddedBundle {
        metadata: PackagedApp {
            app_name: "Round Trip App".to_string(),
            manifest: "RoundTripApp-install.toml".to_string(),
        },
        files: vec![
            EmbeddedFile {
                relative_path: "RoundTripApp-install.toml".to_string(),
                data: b"app_name = 'Round Trip App'".to_vec(),
            },
            EmbeddedFile {
                relative_path: "payload\\tool.exe".to_string(),
                data: vec![0, 1, 2, 3, 255],
            },
            EmbeddedFile {
                relative_path: "empty.bin".to_string(),
                data: Vec::new(),
            },
        ],
    };
    let index = bundle_index(&bundle);
    assert_eq!(index.files[1].len, 5);
    let index_bytes = b"{\"index\":\"serialized elsewhere\"}".to_vec();
    let trailer = bundle_trailer(&index_bytes, &bundle.files);
    let mut exe = b"stub executable bytes".to_vec();
    exe.extend_from_slice(&trailer);
    assert!(exe.ends_with(b"COVENANT_SETUP_BUNDLE_V1"));

    let layout = locate_embedded_payload(&exe).unwrap().unwrap();
    assert_eq!(layout.payload_start, b"stub executable bytes".len());
    assert_eq!(&exe[layout.payload_start + 8..layout.data_start], &index_bytes[..]);
    let decoded = split_embedded_files(&exe, &layout, index).unwrap();
    assert_eq!(decoded, bundle);
    assert!(exe.starts_with(b"stub executable bytes"));
}

#[test]
fn locating_a_payload_ignores_plain_executables_and_rejects_bad_lengths() {
    assert!(locate_embedded_payload(b"plain executable bytes").unwrap().is_none());
    let mut wrong_magic = vec![0u8; 8];
    wrong_magic.extend_from_slice(b"COVENANT_SETUP_BUNDLE_BAD");
    assert!(locate_embedded_payload(&wrong_magic).unwrap().is_none());

    let mut too_long = b"stub".to_vec();
    too_long.extend_from_slice(&100u64.to_le_bytes());
    too_long.extend_from_slice(b"COVENANT_SETUP_BUNDLE_V1");
    let err = locate_embedded_payload(&too_long).unwrap_err().to_string();
    assert_eq!(err, "Embedded payload length exceeds executable size");
}

#[test]
fn extraction_folder_uses_stem_without_spaces_and_process_id() {
    assert_eq!(
        extraction_dir_name("C:\\Temp\\installer with spaces.exe", 42),
        "installer_with_spaces-42"
    );
    assert_eq!(extraction_dir_name("", 7), "-7");
    assert_eq!(extraction_dir_name("C:\\Temp\\.hidden", 1), ".hidden-1");
}

#[test]
fn ui_bundle_reads_back_every_file_in_order() {
    let bytes = ui_bundle(&[
        ui_record(b"Covenant.Setup.Ui.exe", b"fake exe"),
        ui_record(b"runtimes/win-x64/native/helper.dll", b"dll"),
    ]);
    let contents = parse_ui_bundle(&bytes).unwrap();
    assert!(contents.error.is_none());
    assert_eq!(contents.files.len(), 2);
    assert_eq!(contents.files[0].relative_path, "Covenant.Setup.Ui.exe");
    assert_eq!(contents.files[0].data, b"fake exe");
    assert_eq!(contents.files[1].relative_path, "runtimes/win-x64/native/helper.dll");
    assert_eq!(contents.files[1].data, b"dll");
}

#[test]
fn ui_bundle_errors_are_reported_after_the_files_before_them() {
    assert_eq!(
        parse_ui_bundle(b"NOT_A_BUNDLE").unwrap_err().to_string(),
        "Embedded C# UI bundle is invalid"
    );

    let mut bad_terminator = b"COVENANT_SETUP_UI_BUNDLE_V1\n".to_vec();
    bad_terminator.extend_from_slice(&ui_record(b"a.txt", b"a"));
    bad_terminator.extend_from_slice(&0u32.to_le_bytes());
    bad_terminator.extend_from_slice(&5u64.to_le_bytes());
    let contents = parse_ui_bundle(&bad_terminator).unwrap();
    assert_eq!(contents.files.len(), 1);
    assert_eq!(
        contents.error.unwrap().to_string(),
        "Embedded C# UI bundle has an invalid terminator"
    );

    let unsafe_path = ui_bundle(&[ui_record(b"../escape.txt", b"x")]);
    let contents = parse_ui_bundle(&unsafe_path).unwrap();
    assert!(contents.files.is_empty());
    assert_eq!(
        contents.error.unwrap().to_string(),
        "Embedded C# UI bundle contains an unsafe path"
    );

    let absolute = ui_bundle(&[ui_record(b"C:\\escape.txt", b"x")]);
    assert_eq!(
        parse_ui_bundle(&absolute).unwrap().error.unwrap().to_string(),
        "Embedded C# UI bundle contains an absolute path"
    );

    let not_utf8 = ui_bundle(&[ui_record(&[0xFF, 0xFE], b"x")]);
    assert_eq!(
        parse_ui_bundle(&not_utf8).unwrap().error.unwrap().to_string(),
        "Embedded C# UI bundle path is not valid UTF-8"
    );

    let mut truncated = b"COVENANT_SETUP_UI_BUNDLE_V1\n".to_vec();
    truncated.extend_from_slice(&3u32.to_le_bytes());
    assert_eq!(
        parse_ui_bundle(&truncated).unwrap().error.unwrap().to_string(),
        "Embedded C# UI bundle ended unexpectedly"
    );
}

#[test]
fn ui_output_paths_keep_plain_components_only() {
    assert_eq!(
        bundle_output_path("C:\\Temp\\ui", "runtimes/win-x64/helper.dll").unwrap(),
        "C:\\Temp\\ui\\runtimes\\win-x64\\helper.dll"
    );
    assert_eq!(
        bundle_output_path("C:\\Temp\\ui", "a/./b//c.txt").unwrap(),
        "C:\\Temp\\ui\\a\\b\\c.txt"
    );
    assert!(bundle_output_path("C:\\Temp\\ui", "./a.txt").is_err());
    assert!(bundle_output_path("C:\\Temp\\ui", "a/../b.txt").is_err());
    assert!(bundle_output_path("C:\\Temp\\ui", "\\rooted.txt").is_err());
    assert!(bundle_output_path("C:\\Temp\\ui", "D:relative.txt").is_err());
    assert_eq!(
        bundle_output_path("C:\\Temp\\ui", "\\\\server\\share\\x").unwrap_err().to_string(),
        "Embedded C# UI bundle contains an absolute path"
    );
}

#[test]
fn pipe_lines_are_taken_whole_and_partial_rest_stays() {
    let mut pending = b"{\"type\":\"cancel_request\"}\n{\"type\":\"prompt_response\"}\n{\"par".to_vec();
    let lines = take_complete_lines(&mut pending);
    assert_eq!(lines.len(), 2);
    assert_eq!(lines[0], b"{\"type\":\"cancel_request\"}\n".to_vec());
    assert_eq!(pending, b"{\"par".to_vec());
    let none = take_complete_lines(&mut pending);
    assert!(none.is_empty());
    assert_eq!(pending, b"{\"par".to_vec());
}

#[test]
fn cancel_requests_are_recognised_by_their_json_type() {
    assert!(is_cancel_request("{\"type\":\"cancel_request\"}\n"));
    assert!(!is_cancel_request("{\"type\":\"prompt_response\"}"));
    assert!(!is_cancel_request("{\"type\":5}"));
    assert!(!is_cancel_request("not json"));
}

#[test]
fn script_output_shows_only_lines_with_content() {
    assert_eq!(
        shell_output_lines("line 1\n\nline 2\n"),
        vec!["line 1".to_string(), "line 2".to_string()]
    );
    assert_eq!(
        shell_output_lines("a\r\n   \r\nb\rc"),
        vec!["a".to_string(), "b\rc".to_string()]
    );
    assert!(shell_output_lines("").is_empty());
}

#[test]
fn relaunch_parameters_read_back_as_the_same_arguments() {
    let args: Vec<String> = vec![
        "--headed".to_string(),
        "install".to_string(),
        "C:\\Program Files\\App\\install.toml".to_string(),
        "".to_string(),
        "trailing\\".to_string(),
        "quote\"inside".to_string(),
    ];
    let line = relaunch_parameters(&args);
    assert_eq!(parse_argv(&line), args);
    assert_eq!(relaunch_parameters(&Vec::new()), "");
}

#[test]
fn utf16_round_trips_beyond_the_basic_plane() {
    let arg = Utf16Arg::from_str("a\u{1F600}");
    assert_eq!(arg.inner, vec![0x61, 0xD83D, 0xDE00, 0]);
    assert_eq!(text_from_wide(&arg.inner).unwrap(), "a\u{1F600}");
    assert_eq!(text_from_wide(&[0x41, 0, 0x42]).unwrap(), "A");
    assert!(text_from_wide(&[0xDC00, 0]).is_err());
}

#[test]
fn uninstall_plan_undoes_journal_last_first_then_purges() {
    let journal = Journal {
        app_name: "Demo".to_string(),
        manifest_path: None,
        actions: vec![
            JournalAction::CreateDirectory { path: "C:\\Apps\\Demo".to_string() },
            JournalAction::CopyFile {
                source: "payload\\demo.exe".to_string(),
                destination: "C:\\Apps\\Demo\\demo.exe".to_string(),
            },
            JournalAction::WriteRegistry {
                root: RegistryRoot::Hkcu,
                subkey: "Software\\Microsoft\\Windows\\CurrentVersion\\Uninstall\\Demo".to_string(),
                name: "DisplayName".to_string(),
            },
            JournalAction::WriteRegistry {
                root: RegistryRoot::Hkcu,
                subkey: "Software\\Microsoft\\Windows\\CurrentVersion\\Uninstall\\Demo".to_string(),
                name: "Publisher".to_string(),
            },
            JournalAction::CopyFile {
                source: "C:\\Temp\\setup.exe".to_string(),
                destination: "C:\\Apps\\Demo\\covenant-setup-uninstall.exe".to_string(),
            },
        ],
        purge: PurgeSpec {
            registry_branches: vec!["HKCU\\Software\\DemoCache".to_string()],
            paths: vec!["{LocalAppData}\\Demo".to_string()],
        },
        support_contact: None,
    };
    let flags = vec![false, false, false, false, true];
    let plan = plan_uninstall(&journal, "C:\\Apps\\Demo\\journal.json", &flags, &resolver());
    assert!(plan.failure.is_none());
    assert_eq!(
        plan.self_delete,
        Some("C:\\Apps\\Demo\\covenant-setup-uninstall.exe".to_string())
    );
    let messages: Vec<&str> = plan.steps.iter().map(|s| s.message.as_str()).collect();
    assert_eq!(
        messages,
        vec![
            "Removing file C:\\Apps\\Demo\\demo.exe",
            "Removing directory C:\\Apps\\Demo",
            "Purging registry branch HKCU\\Software\\DemoCache",
            "Purging path C:\\Users\\Alice\\AppData\\Local\\Demo",
            "Removing uninstall registration Software\\Microsoft\\Windows\\CurrentVersion\\Uninstall\\Demo",
        ]
    );
    assert_eq!(
        plan.steps[1].op,
        UninstallOp::RemoveDirectory { path: "C:\\Apps\\Demo".to_string(), journal_inside: true }
    );
    assert_eq!(total_uninstall_steps(&journal), 9);
    assert!(plan.steps.len() <= total_uninstall_steps(&journal));
}

#[test]
fn unsupported_purge_branch_stops_the_plan_and_the_admin_check() {
    let journal = Journal {
        app_name: "Demo".to_string(),
        manifest_path: None,
        actions: vec![JournalAction::CreateShortcut { path: "C:\\Users\\Alice\\Desktop\\Demo.lnk".to_string() }],
        purge: PurgeSpec {
            registry_branches: vec!["HKCR\\Software\\Demo".to_string()],
            paths: vec!["C:\\Apps\\Demo".to_string()],
        },
        support_contact: None,
    };
    let plan = plan_uninstall(&journal, "C:\\Apps\\Demo\\journal.json", &Vec::new(), &resolver());
    assert_eq!(plan.steps.len(), 1);
    assert_eq!(
        plan.failure.unwrap().to_string(),
        "Unsupported registry root: HKCR\\Software\\Demo"
    );
    assert_eq!(
        journal_requires_admin(&journal, &resolver()).unwrap_err().to_string(),
        "Unsupported registry root: HKCR\\Software\\Demo"
    );
}

#[test]
fn uninstall_closing_depends_on_self_copy_and_rollback() {
    let with_self = uninstall_completion(
        "Demo",
        &Some("C:\\Apps\\Demo\\covenant-setup-uninstall.exe".to_string()),
        false,
        UiMode::Gui,
        false,
    );
    assert_eq!(with_self.finish_message, Some("Finalizing removal of Demo".to_string()));
    assert_eq!(
        with_self.cleanup,
        Some(CleanupRequest {
            target_exe: "C:\\Apps\\Demo\\covenant-setup-uninstall.exe".to_string(),
            install_root: Some("C:\\Apps\\Demo".to_string()),
            app_name: "Demo".to_string(),
        })
    );
    assert!(!with_self.report_success);

    let plain = uninstall_completion("Demo", &None, false, UiMode::Gui, false);
    assert_eq!(plain.finish_message, Some("Demo uninstalled successfully!".to_string()));
    assert!(plain.report_success);
    assert!(!uninstall_completion("Demo", &None, false, UiMode::Gui, true).report_success);

    let rollback = uninstall_completion("Demo", &None, true, UiMode::Gui, false);
    assert_eq!(rollback.finish_message, None);
    assert!(!rollback.report_success);
    assert_eq!(uninstall_title("Demo", true), "Reverting Demo");
    assert_eq!(uninstall_title("Demo", false), "Uninstalling Demo");
}

#[test]
fn cleanup_helper_gets_interface_flags_then_its_targets() {
    let request = CleanupRequest {
        target_exe: "C:\\Apps\\Demo\\covenant-setup-uninstall.exe".to_string(),
        install_root: Some("C:\\Apps\\Demo".to_string()),
        app_name: "Demo".to_string(),
    };
    assert_eq!(
        cleanup_helper_args(&request, UiMode::Tui, true, true),
        vec![
            "--json",
            "--headless",
            "--automation",
            "cleanup",
            "--target-exe",
            "C:\\Apps\\Demo\\covenant-setup-uninstall.exe",
            "--install-root",
            "C:\\Apps\\Demo",
            "--app-name",
            "Demo",
        ]
    );
    let bare = CleanupRequest { install_root: None, ..request };
    assert_eq!(
        cleanup_helper_args(&bare, UiMode::NoUi, false, false),
        vec![
            "cleanup",
            "--target-exe",
            "C:\\Apps\\Demo\\covenant-setup-uninstall.exe",
            "--app-name",
            "Demo",
        ]
    );
    assert_eq!(cleanup_helper_file_name(1234, 99), "covenant-setup-cleanup-1234-99.exe");
}

#[test]
fn helper_self_cleanup_and_reboot_commands() {
    let launch = helper_self_cleanup_launch("C:\\Temp\\Alice's helper.exe");
    assert_eq!(launch.program, "powershell.exe");
    assert_eq!(
        launch.args,
        vec![
            "-NoProfile",
            "-WindowStyle",
            "Hidden",
            "-Command",
            "Start-Sleep -Seconds 2; Remove-Item -LiteralPath 'C:\\Temp\\Alice''s helper.exe' -Force -ErrorAction SilentlyContinue",
        ]
    );
    let reboot = reboot_launch();
    assert_eq!(reboot.program, "shutdown.exe");
    assert_eq!(reboot.args, vec!["/r", "/t", "0"]);
}

#[test]
fn cleanup_notices_follow_interface_and_reboot_need() {
    assert_eq!(cleanup_notice("Demo", UiMode::Gui, false, false), CleanupNotice::ReportSuccess);
    assert_eq!(cleanup_notice("Demo", UiMode::Gui, true, true), CleanupNotice::Silent);
    assert_eq!(cleanup_notice("Demo", UiMode::NoUi, false, true), CleanupNotice::Silent);
    assert_eq!(
        cleanup_notice("Demo", UiMode::Tui, false, true),
        CleanupNotice::PrintThenAskReboot {
            text: "Demo uninstalled successfully! Some files from the program still remain on your computer. To complete removal of these files, restart your computer now.".to_string()
        }
    );
}

#[test]
fn restart_answers_accept_y_and_yes_only() {
    assert!(is_yes_answer("y\n"));
    assert!(is_yes_answer("  YES \r\n"));
    assert!(!is_yes_answer("yeah"));
    assert!(!is_yes_answer(""));
    assert!(!is_yes_answer("n"));
}

#[test]
fn install_plan_follows_manifest_order_and_session_journals_done_steps() {
    let resolver = resolver();
    let m = manifest();
    let runtime =
        build_install_runtime(&m, "C:\\src\\DemoApp-install.toml", None, false, &resolver).unwrap();
    let plan = plan_install(&m, "C:\\src\\DemoApp-install.toml", &resolver, &runtime, "0.1.0");
    assert!(plan.failure.is_none());
    let messages: Vec<&str> = plan.steps.iter().map(|s| s.message.as_str()).collect();
    assert_eq!(
        messages,
        vec![
            "Creating directory C:\\Users\\Alice\\AppData\\Local\\Demo",
            "Copying file to C:\\Users\\Alice\\AppData\\Local\\Demo\\demo.exe",
            "Writing registry value InstallRoot in HKCU\\Software\\Demo",
            "Creating shortcut C:\\Users\\Alice\\Desktop\\Demo.lnk",
            "Running script setup.cmd",
            "Installing uninstaller C:\\Users\\Alice\\AppData\\Local\\Demo\\covenant-setup-uninstall.exe",
            "Registering Demo App in Installed Apps",
        ]
    );
    assert_eq!(plan.steps.len(), total_install_steps(&m));
    match &plan.steps[1].op {
        InstallOp::CopyFile { source, .. } => assert_eq!(source, "C:\\src\\payload\\demo.exe"),
        other => panic!("unexpected step {other:?}"),
    }

    let mut session = InstallSession::new(plan.steps.clone(), "C:\\Temp\\setup.exe".to_string());
    assert!(session.next_step().is_some());
    assert_eq!(session.step_number(), 1);
    session.complete_step();
    session.complete_step();
    assert_eq!(session.recorded_len(), 2);
    let journal = session.into_journal("Demo App".to_string(), None, m.purge.clone(), None);
    assert_eq!(
        journal.actions,
        vec![
            JournalAction::CreateDirectory {
                path: "C:\\Users\\Alice\\AppData\\Local\\Demo".to_string()
            },
            JournalAction::CopyFile {
                source: "C:\\src\\payload\\demo.exe".to_string(),
                destination: "C:\\Users\\Alice\\AppData\\Local\\Demo\\demo.exe".to_string(),
            },
        ]
    );
}

#[test]
fn install_failures_report_cancellation_or_rollback_problems() {
    match install_failure_outcome("Demo", AppError::Cancelled, None) {
        InstallFailure::Cancelled { finish_message } => {
            assert_eq!(finish_message, "Demo installation cancelled. All changes were reverted.")
        }
        other => panic!("unexpected {other:?}"),
    }
    match install_failure_outcome("Demo", AppError::Message("boom".to_string()), Some("Rollback failed: disk".to_string())) {
        InstallFailure::Failed(err) => assert_eq!(
            err.to_string(),
            "Installation failed: boom. Additionally, rollback failed: Rollback failed: disk"
        ),
        other => panic!("unexpected {other:?}"),
    }
    assert_eq!(
        script_failure("setup.cmd", "exit code: 3").to_string(),
        "Script failed: setup.cmd (exit code: 3)"
    );
    assert_eq!(install_title("Demo"), "Installing Demo");
}

#[test]
fn branding_and_welcome_decisions() {
    assert_eq!(
        branding_candidates(Some("C:\\src"), Some("C:\\Apps\\Demo")),
        vec![
            "C:\\src\\branding.png",
            "C:\\src\\banner.png",
            "C:\\src\\logo.png",
            "C:\\Apps\\Demo\\branding.png",
            "C:\\Apps\\Demo\\banner.png",
            "C:\\Apps\\Demo\\logo.png",
        ]
    );
    assert!(branding_candidates(None, None).is_empty());
    assert!(show_welcome(false, "Demo"));
    assert!(!show_welcome(true, "Demo"));
    assert!(!show_welcome(false, "  "));
}

#[test]
fn prompts_carry_protocol_fields() {
    let e = report_error("boom");
    assert_eq!(e.title, "covenant-setup");
    assert_eq!(e.message, "boom");
    assert_eq!(e.buttons, PromptButtons::Okay);
    assert_eq!(e.icon, PromptIcon::Error);
    let s = report_uninstall_success("Demo");
    assert_eq!(s.message, "Demo uninstalled successfully!");
    assert_eq!(s.icon, PromptIcon::Information);
    let r = prompt_uninstall_reboot("Demo");
    assert_eq!(r.buttons, PromptButtons::YesNo);
    assert!(r.message.ends_with("restart your computer now."));
    assert_eq!(prompt_id(17), "prompt-17");
}

#[test]
fn prompt_replies_must_match_type_and_id() {
    assert_eq!(
        read_prompt_reply("prompt_response", Some("prompt-1"), Some("yes"), "prompt-1").unwrap(),
        PromptResult::Yes
    );
    assert_eq!(
        read_prompt_reply("prompt_response", Some("prompt-1"), None, "prompt-1").unwrap(),
        PromptResult::Dismissed
    );
    assert_eq!(
        read_prompt_reply("prompt_response", Some("prompt-2"), Some("yes"), "prompt-1")
            .unwrap_err()
            .to_string(),
        "Unexpected UI prompt response"
    );
    assert_eq!(
        read_prompt_reply("progress", Some("prompt-1"), Some("yes"), "prompt-1")
            .unwrap_err()
            .to_string(),
        "Unexpected UI prompt response"
    );
    assert_eq!(
        read_prompt_reply("prompt_response", Some("prompt-1"), Some("maybe"), "prompt-1")
            .unwrap_err()
            .to_string(),
        "Unknown UI prompt response: maybe"
    );
    assert!(welcome_accepted("welcome_response", Some("install")));
    assert!(!welcome_accepted("welcome_response", Some("cancel")));
    assert!(!welcome_accepted("progress", Some("install")));
    assert_eq!(
        failure_message("Demo", "uninstall"),
        "Error: program Demo failed to uninstall completely!"
    );
    assert_eq!(progress_total(0), 1);
    assert_eq!(progress_total(5), 5);
}

#[test]
fn dispatch_picks_interface_except_for_packaging() {
    let flags = CliFlags { json: false, headless: true, headed: false, automation: false, elevate: false };
    let package = Command::Package { manifest: "m.toml".to_string(), output: "dist".to_string() };
    assert_eq!(plan_dispatch(flags, Some(package.clone()), false).unwrap().ui_mode, None);
    let install = Command::Install { manifest: "m.toml".to_string(), journal: None };
    assert_eq!(plan_dispatch(flags, Some(install), false).unwrap().ui_mode, Some(UiMode::Tui));
    let no_mode = CliFlags { headless: false, ..flags };
    let uninstall = Command::Uninstall { journal: "journal.json".to_string() };
    assert!(plan_dispatch(no_mode, Some(uninstall), true).is_err());
    assert!(plan_dispatch(no_mode, Some(package), true).is_ok());
}

#[test]
fn exit_codes_and_failure_dialogs() {
    assert_eq!(run_exit_code(&Ok(())), 0);
    assert_eq!(run_exit_code(&Err(AppError::Message("__elevated_relaunch__".to_string()))), 0);
    assert_eq!(run_exit_code(&Err(AppError::Message("boom".to_string()))), 1);
    assert_eq!(run_exit_code(&Err(AppError::CancelledByUser)), 40);
    assert_eq!(
        run_exit_code(&Err(AppError::Message("Elevation required for requested operation".to_string()))),
        33
    );

    let headed = UiPreferences { json: false, headless: false, headed: true, automation: false };
    assert!(report_failure_at_exit(headed, true, false, &AppError::Message("x".to_string())));
    assert!(!report_failure_at_exit(headed, true, true, &AppError::Message("x".to_string())));
    assert!(!report_failure_at_exit(headed, true, false, &AppError::Cancelled));

    let closed = bundled_install_failure(AppError::CancelledByUser, UiMode::Gui, false, false);
    assert_eq!(closed.result, Ok(()));
    let failed = bundled_install_failure(AppError::Message("x".to_string()), UiMode::Gui, false, false);
    assert!(failed.show_dialog);
    assert!(failed.result.is_err());
    assert!(!bundled_install_failure(AppError::Cancelled, UiMode::Gui, false, false).show_dialog);
}

#[test]
fn install_manifest_rules_check_name_before_fields() {
    let mut m = manifest();
    check_install_manifest("C:\\src\\DemoApp-install.toml", &m).unwrap();
    assert!(check_install_manifest("C:\\src\\install.toml", &m)
        .unwrap_err()
        .to_string()
        .contains("DemoApp-install.toml"));
    m.directories[0] = "{LocalAppData}\\Demo Dir".to_string();
    assert!(check_install_manifest("C:\\src\\DemoApp-install.toml", &m)
        .unwrap_err()
        .to_string()
        .contains("directories.paths[0]"));
}

#[test]
fn restart_manager_probe_and_fetch_decisions() {
    match locking_probe(5, 3) {
        LockProbe::Failed(err) => {
            assert_eq!(err.to_string(), "RmGetList failed with Win32 error 5")
        }
        _ => panic!("a failed probe stops the query"),
    }
    assert!(matches!(locking_probe(0, 0), LockProbe::NoLocks));
    assert!(matches!(locking_probe(ERROR_MORE_DATA, 0), LockProbe::NoLocks));
    assert!(matches!(
        locking_probe(ERROR_MORE_DATA, 4),
        LockProbe::Fetch { capacity: 4 }
    ));
    assert_eq!(fetched_process_ids(&vec![10, 20, 30], 2).unwrap(), vec![10, 20]);
    assert_eq!(fetched_process_ids(&vec![10, 20, 30], 0).unwrap(), Vec::<u32>::new());
    assert_eq!(
        fetched_process_ids(&vec![10], 2).unwrap_err().to_string(),
        "Restart Manager count exceeded allocated buffer"
    );
}

#[test]
fn elevation_probe_answers_and_relaunch_outcomes() {
    assert_eq!(token_elevation(4, 4, 1).unwrap(), true);
    assert_eq!(token_elevation(8, 4, 0).unwrap(), false);
    assert_eq!(
        token_elevation(2, 4, 1).unwrap_err().to_string(),
        "Short TOKEN_ELEVATION payload"
    );
    assert!(shell_execute_result(33).is_ok());
    assert_eq!(
        shell_execute_result(5).unwrap_err().to_string(),
        "ShellExecuteW failed: 5"
    );
    assert_eq!(
        shell_execute_result(-2).unwrap_err().to_string(),
        "ShellExecuteW failed: -2"
    );
    assert_eq!(
        shell_execute_result(32).unwrap_err().to_string(),
        "ShellExecuteW failed: 32"
    );
}

#[test]
fn installed_apps_command_reads_back_as_uninstall_of_the_journal() {
    let exe = "C:\\Users\\Alice\\AppData\\Local\\Demo App\\covenant-setup-uninstall.exe";
    let journal = "C:\\Users\\Alice\\AppData\\Local\\Demo App\\journal.json";
    let values = uninstall_entry_values("Demo App", "C:\\Apps", exe, journal, "0.1.0");
    assert_eq!(values[5].0, "UninstallString");
    assert_eq!(
        parse_argv(&values[5].1),
        vec![exe.to_string(), "uninstall".to_string(), journal.to_string(), "--elevate".to_string()]
    );
    assert_eq!(values[6].1, values[5].1);
}

#[test]
fn ui_bundle_reads_back_paths_beyond_ascii() {
    let bytes = ui_bundle(&[ui_record("donn\u{e9}es/\u{e9}.txt".as_bytes(), b"x")]);
    let contents = parse_ui_bundle(&bytes).unwrap();
    assert!(contents.error.is_none());
    assert_eq!(contents.files[0].relative_path, "donn\u{e9}es/\u{e9}.txt");
    let bad = ui_bundle(&[ui_record(&[0xC3, 0x28], b"x")]);
    assert_eq!(
        parse_ui_bundle(&bad).unwrap().error.unwrap().to_string(),
        "Embedded C# UI bundle path is not valid UTF-8"
    );
}

#[test]
fn cleanup_helper_retries_then_decides_folder_and_restart() {
    assert_eq!(CLEANUP_DELETE_ATTEMPTS, 50);
    assert_eq!(cleanup_wait(false, false), CleanupWait::Done);
    assert_eq!(cleanup_wait(true, true), CleanupWait::Done);
    assert_eq!(
        cleanup_wait(true, false),
        CleanupWait::Wait { delay_ms: CLEANUP_RETRY_DELAY_MS }
    );
    assert_eq!(CLEANUP_RETRY_DELAY_MS, 200);
    assert!(remove_install_root_now(true, true));
    assert!(!remove_install_root_now(true, false));
    assert!(!remove_install_root_now(false, true));
    assert!(cleanup_needs_restart(true, true, false));
    assert!(!cleanup_needs_restart(true, false, false));
    assert!(!cleanup_needs_restart(false, false, false));
    assert!(cleanup_needs_restart(false, false, true));
}

#[test]
fn cancel_stops_before_the_next_step_and_windows_wait_unless_automated() {
    assert!(matches!(check_cancel_before_step(true), Err(AppError::Cancelled)));
    assert!(check_cancel_before_step(false).is_ok());
    assert!(window_waits_for_close(false));
    assert!(!window_waits_for_close(true));
}

#[test]
fn arrived_pipe_lines_split_into_cancel_and_queue() {
    let lines = vec![
        "{\"type\":\"welcome_response\",\"result\":\"install\"}".to_string(),
        "{\"type\":\"cancel_request\"}".to_string(),
        "not json".to_string(),
    ];
    let sorted = sort_pipe_lines(&lines);
    assert!(sorted.cancel);
    assert_eq!(sorted.queued, vec![lines[0].clone(), lines[2].clone()]);
    let quiet = sort_pipe_lines(&vec!["{\"type\":\"log\"}".to_string()]);
    assert!(!quiet.cancel);
    assert_eq!(quiet.queued.len(), 1);
}
