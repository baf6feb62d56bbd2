//! What the command line asks for, and how a run turns into an exit code.
use vstd::prelude::*;
use crate::error::{error_exit_code, exit_code_of, AppError};
use crate::install::is_relaunch_marker;
use crate::ui::{select_ui, select_ui_spec, CliFlags, UiMode, UiPreferences};

verus! {

/// A subcommand of the installer.
#[derive(Debug, Clone, PartialEq, Eq)]
pub enum Command {
    /// Build a packaged installer from a manifest into an output folder.
    Package { manifest: String, output: String },
    /// Install from a manifest, optionally with an explicit journal path.
    Install { manifest: String, journal: Option<String> },
    /// Uninstall what a journal records.
    Uninstall { journal: String },
    /// Finish an uninstall by removing the uninstaller's own file.
    Cleanup { target_exe: String, install_root: Option<String>, app_name: String },
}

/// A subcommand with the interface it runs under (packaging has none).
#[derive(Debug, Clone, PartialEq, Eq)]
pub struct Dispatch {
    pub command: Command,
    pub ui_mode: Option<UiMode>,
}

/// The interface flags of the command line.
pub open spec fn preferences_of(f: CliFlags) -> UiPreferences {
    UiPreferences { json: f.json, headless: f.headless, headed: f.headed, automation: f.automation }
}

/// Decides what a command line runs: a missing subcommand is an error;
/// packaging runs without an interface; every other subcommand first picks
/// its interface, and a refused choice is the error.
pub fn plan_dispatch(flags: CliFlags, command: Option<Command>, ui_available: bool) -> (r: Result<
    Dispatch,
    AppError,
>)
    ensures
        match command {
            None => r matches Err(AppError::Message(m)) && m@
                == "Missing command: expected package, install, uninstall, or cleanup"@,
            Some(Command::Package { .. }) => r == Ok::<Dispatch, AppError>(
                Dispatch { command: command.unwrap(), ui_mode: None },
            ),
            Some(c) => match select_ui_spec(preferences_of(flags), ui_available) {
                Some(m) => r == Ok::<Dispatch, AppError>(Dispatch { command: c, ui_mode: Some(m) }),
                None => r is Err,
            },
        },
{
    let command = match command {
        None => {
            return Err(
                AppError::Message(
                    "Missing command: expected package, install, uninstall, or cleanup".to_owned(),
                ),
            );
        },
        Some(c) => c,
    };
    match command {
        Command::Package { manifest, output } => Ok(
            Dispatch { command: Command::Package { manifest, output }, ui_mode: None },
        ),
        other => {
            let preferences = crate::ui::ui_preferences_from_cli(&flags);
            match select_ui(preferences, ui_available) {
                Ok(m) => Ok(Dispatch { command: other, ui_mode: Some(m) }),
                Err(e) => Err(e),
            }
        },
    }
}

/// The exit code of a run: success and the elevated hand-over exit with 0;
/// any other error with its own code.
pub fn run_exit_code(result: &Result<(), AppError>) -> (code: i32)
    ensures
        match result {
            Ok(_) => code == 0,
            Err(e) => code == if e matches AppError::Message(m) && m@ == "__elevated_relaunch__"@ {
                0
            } else {
                exit_code_of(*e)
            },
        },
{
    match result {
        Ok(()) => 0,
        Err(e) => {
            if is_relaunch_marker(e) {
                0
            } else {
                error_exit_code(e)
            }
        },
    }
}

/// Whether a failed packaged install shows its error in a dialog at the
/// end of the run: only for a window run that nobody automates, that
/// did not already show a failure, and that was not cancelled.
pub fn report_failure_at_exit(
    preferences: UiPreferences,
    ui_available: bool,
    failure_shown: bool,
    err: &AppError,
) -> (r: bool)
    ensures
        r == (preferences.headed && !preferences.automation && !preferences.json && ui_available
            && !failure_shown && !(*err is Cancelled || *err is CancelledByUser)),
{
    preferences.headed && !preferences.automation && !preferences.json && ui_available
        && !failure_shown && !(matches!(err, AppError::Cancelled) || matches!(
        err,
        AppError::CancelledByUser,
    ))
}

/// How a packaged install that failed ends: the user closing the welcome
/// page is no failure; otherwise the error stands, and is shown in a dialog
/// when the window is up, nobody automates the run, no failure was shown
/// yet and the install was not cancelled.
#[derive(Debug, PartialEq, Eq)]
pub struct BundledFailure {
    pub show_dialog: bool,
    pub result: Result<(), AppError>,
}

/// Decides how a failed packaged install ends.
pub fn bundled_install_failure(
    err: AppError,
    ui_mode: UiMode,
    automation: bool,
    failure_shown: bool,
) -> (r: BundledFailure)
    ensures
        err is CancelledByUser ==> r.result is Ok && !r.show_dialog,
        !(err is CancelledByUser) ==> r.result == Err::<(), AppError>(err) && r.show_dialog == (
        ui_mode == UiMode::Gui && !automation && !failure_shown && !(err is Cancelled)),
{
    match err {
        AppError::CancelledByUser => BundledFailure { show_dialog: false, result: Ok(()) },
        other => {
            let show = ui_mode == UiMode::Gui && !automation && !failure_shown && !matches!(
                other,
                AppError::Cancelled,
            );
            BundledFailure { show_dialog: show, result: Err(other) }
        },
    }
}

} // verus!
