//! The choice of user interface, the prompt protocol spoken with the
//! WinForms helper, and the texts shown to the user.
use vstd::prelude::*;
use crate::error::AppError;
use crate::text::{append_chars, chars_of, decimal, decimal_chars, string_of};

verus! {

/// How progress and prompts are presented.
#[derive(Debug, Clone, Copy, PartialEq, Eq, Structural)]
pub enum UiMode {
    /// No interface: machine-readable output only.
    NoUi,
    /// The WinForms helper window.
    Gui,
    /// Terminal progress.
    Tui,
}

/// The interface flags given on the command line.
#[derive(Debug, Clone, Copy, PartialEq, Eq, Structural)]
pub struct UiPreferences {
    pub json: bool,
    pub headless: bool,
    pub headed: bool,
    pub automation: bool,
}

/// The global flags of the command line.
#[derive(Debug, Clone, Copy, PartialEq, Eq, Structural)]
pub struct CliFlags {
    pub json: bool,
    pub headless: bool,
    pub headed: bool,
    pub automation: bool,
    pub elevate: bool,
}

/// The interface preferences the command line asked for.
pub fn ui_preferences_from_cli(cli: &CliFlags) -> (p: UiPreferences)
    ensures
        p == (UiPreferences {
            json: cli.json,
            headless: cli.headless,
            headed: cli.headed,
            automation: cli.automation,
        }),
{
    UiPreferences {
        json: cli.json,
        headless: cli.headless,
        headed: cli.headed,
        automation: cli.automation,
    }
}

/// The interface choice: `--json` wins and means none; `--headed` with
/// `--headless` is an error; `--headless` is the terminal; `--headed` is the
/// window when the helper is available and the terminal otherwise; with no
/// flag the choice is an error.
pub open spec fn select_ui_spec(p: UiPreferences, ui_available: bool) -> Option<UiMode> {
    if p.json {
        Some(UiMode::NoUi)
    } else if p.headless && p.headed {
        None
    } else if p.headless {
        Some(UiMode::Tui)
    } else if p.headed {
        if ui_available {
            Some(UiMode::Gui)
        } else {
            Some(UiMode::Tui)
        }
    } else {
        None
    }
}

/// Picks the interface from the flags; `ui_available` tells whether the
/// WinForms helper can be started (it is only consulted for `--headed`).
pub fn select_ui(preferences: UiPreferences, ui_available: bool) -> (r: Result<UiMode, AppError>)
    ensures
        match select_ui_spec(preferences, ui_available) {
            Some(m) => r == Ok::<UiMode, AppError>(m),
            None => r matches Err(AppError::Message(msg)) && msg@ == if preferences.headless
                && preferences.headed {
                "Pass either --headed or --headless, not both"@
            } else {
                "UI mode is required. Pass --headed for the WinForms UI, --headless for terminal progress, or --json for machine-readable output"@
            },
        },
{
    if preferences.json {
        return Ok(UiMode::NoUi);
    }
    if preferences.headless && preferences.headed {
        return Err(AppError::Message(String::from_str("Pass either --headed or --headless, not both")));
    }
    if preferences.headless {
        return Ok(UiMode::Tui);
    }
    if preferences.headed {
        if !ui_available {
            return Ok(UiMode::Tui);
        }
        return Ok(UiMode::Gui);
    }
    Err(
        AppError::Message(
            String::from_str(
                "UI mode is required. Pass --headed for the WinForms UI, --headless for terminal progress, or --json for machine-readable output",
            ),
        ),
    )
}

/// The stable name of an interface mode.
pub open spec fn ui_mode_name_spec(m: UiMode) -> Seq<char> {
    match m {
        UiMode::NoUi => "none"@,
        UiMode::Gui => "gui"@,
        UiMode::Tui => "tui"@,
    }
}

/// The stable name of an interface mode, as written to traces.
pub fn ui_mode_name(ui_mode: UiMode) -> (r: &'static str)
    ensures
        r@ == ui_mode_name_spec(ui_mode),
{
    match ui_mode {
        UiMode::NoUi => "none",
        UiMode::Gui => "gui",
        UiMode::Tui => "tui",
    }
}

/// Whether the WinForms helper can be shown: it is embedded in the
/// installer, or a sidecar executable sits next to it.
pub fn is_available(embedded_bundle: bool, sidecar_present: bool) -> (r: bool)
    ensures
        r == (embedded_bundle || sidecar_present),
{
    embedded_bundle || sidecar_present
}

/// The message shown when an uninstall leaves files behind until a restart.
pub open spec fn reboot_notice_text(app_name: Seq<char>) -> Seq<char> {
    app_name
        + " uninstalled successfully! Some files from the program still remain on your computer. To complete removal of these files, restart your computer now."@
}

/// The buttons a prompt window offers.
#[derive(Debug, Clone, Copy, PartialEq, Eq, Structural)]
pub enum PromptButtons {
    Okay,
    YesNo,
}

impl PromptButtons {
    /// The name of the buttons in the prompt protocol.
    pub fn as_str(&self) -> (r: &'static str)
        ensures
            r@ == match *self {
                PromptButtons::Okay => "ok"@,
                PromptButtons::YesNo => "yes_no"@,
            },
    {
        match self {
            PromptButtons::Okay => "ok",
            PromptButtons::YesNo => "yes_no",
        }
    }
}

/// The icon a prompt window shows.
#[derive(Debug, Clone, Copy, PartialEq, Eq, Structural)]
pub enum PromptIcon {
    Information,
    Error,
}

impl PromptIcon {
    /// The name of the icon in the prompt protocol.
    pub fn as_str(&self) -> (r: &'static str)
        ensures
            r@ == match *self {
                PromptIcon::Information => "information"@,
                PromptIcon::Error => "error"@,
            },
    {
        match self {
            PromptIcon::Information => "information",
            PromptIcon::Error => "error",
        }
    }
}

/// The button the user pressed, or that none was.
#[derive(Debug, Clone, Copy, PartialEq, Eq, Structural)]
pub enum PromptResult {
    Okay,
    Cancel,
    Yes,
    No,
    Dismissed,
}

/// The answer a protocol name stands for.
pub open spec fn prompt_result_of(value: Seq<char>) -> Option<PromptResult> {
    if value == "ok"@ {
        Some(PromptResult::Okay)
    } else if value == "cancel"@ {
        Some(PromptResult::Cancel)
    } else if value == "yes"@ {
        Some(PromptResult::Yes)
    } else if value == "no"@ {
        Some(PromptResult::No)
    } else if value == "none"@ {
        Some(PromptResult::Dismissed)
    } else {
        None
    }
}

/// Whether a string holds exactly the characters of a literal.
pub fn is_text(value: &str, literal: &str) -> (r: bool)
    ensures
        r == (value@ == literal@),
{
    let a = chars_of(value);
    let b = chars_of(literal);
    crate::bundle::same_chars(&a, &b)
}

impl PromptResult {
    /// Reads an answer from its protocol name.
    pub fn from_str(value: &str) -> (r: Result<PromptResult, AppError>)
        ensures
            match prompt_result_of(value@) {
                Some(p) => r == Ok::<PromptResult, AppError>(p),
                None => r matches Err(AppError::Message(m)) && m@
                    == "Unknown UI prompt response: "@ + value@,
            },
    {
        if is_text(value, "ok") {
            Ok(PromptResult::Okay)
        } else if is_text(value, "cancel") {
            Ok(PromptResult::Cancel)
        } else if is_text(value, "yes") {
            Ok(PromptResult::Yes)
        } else if is_text(value, "no") {
            Ok(PromptResult::No)
        } else if is_text(value, "none") {
            Ok(PromptResult::Dismissed)
        } else {
            let mut m = chars_of("Unknown UI prompt response: ");
            let v = chars_of(value);
            append_chars(&mut m, &v);
            Err(AppError::Message(string_of(m.as_slice())))
        }
    }
}

/// A prompt for the WinForms helper to show.
#[derive(Debug, Clone, PartialEq, Eq)]
pub struct PromptRequest {
    pub title: String,
    pub message: String,
    pub buttons: PromptButtons,
    pub icon: PromptIcon,
}

fn prompt_request(message: Vec<char>, buttons: PromptButtons, icon: PromptIcon) -> (r:
    PromptRequest)
    ensures
        r.title@ == "covenant-setup"@,
        r.message@ == message@,
        r.buttons == buttons,
        r.icon == icon,
{
    PromptRequest {
        title: "covenant-setup".to_owned(),
        message: string_of(message.as_slice()),
        buttons,
        icon,
    }
}

/// The error dialog: the message, an OK button and the error icon.
pub fn report_error(message: &str) -> (r: PromptRequest)
    ensures
        r.title@ == "covenant-setup"@,
        r.message@ == message@,
        r.buttons == PromptButtons::Okay,
        r.icon == PromptIcon::Error,
{
    prompt_request(chars_of(message), PromptButtons::Okay, PromptIcon::Error)
}

/// The dialog that reports a finished uninstall.
pub fn report_uninstall_success(app_name: &str) -> (r: PromptRequest)
    ensures
        r.title@ == "covenant-setup"@,
        r.message@ == app_name@ + " uninstalled successfully!"@,
        r.buttons == PromptButtons::Okay,
        r.icon == PromptIcon::Information,
{
    let mut m = chars_of(app_name);
    let tail = chars_of(" uninstalled successfully!");
    append_chars(&mut m, &tail);
    prompt_request(m, PromptButtons::Okay, PromptIcon::Information)
}

/// The dialog that asks to restart when an uninstall left files behind.
pub fn prompt_uninstall_reboot(app_name: &str) -> (r: PromptRequest)
    ensures
        r.title@ == "covenant-setup"@,
        r.message@ == reboot_notice_text(app_name@),
        r.buttons == PromptButtons::YesNo,
        r.icon == PromptIcon::Information,
{
    let mut m = chars_of(app_name);
    let tail = chars_of(
        " uninstalled successfully! Some files from the program still remain on your computer. To complete removal of these files, restart your computer now.",
    );
    append_chars(&mut m, &tail);
    prompt_request(m, PromptButtons::YesNo, PromptIcon::Information)
}

/// Whether the answer to the restart dialog asks for a restart.
pub fn reboot_accepted(result: PromptResult) -> (r: bool)
    ensures
        r == (result == PromptResult::Yes),
{
    result == PromptResult::Yes
}

/// The id of a prompt: `prompt-` and a number unique to it.
pub fn prompt_id(suffix: u128) -> (r: String)
    ensures
        r@ == "prompt-"@ + decimal(suffix as nat),
{
    let mut m = chars_of("prompt-");
    let d = decimal_chars(suffix);
    append_chars(&mut m, &d);
    string_of(m.as_slice())
}

/// What the helper's reply to a prompt means: a reply of another type or
/// for another prompt is an error; a missing answer counts as `none`.
pub open spec fn prompt_reply_spec(
    message_type: Seq<char>,
    id: Option<Seq<char>>,
    result: Option<Seq<char>>,
    expected_id: Seq<char>,
) -> Result<PromptResult, Seq<char>> {
    if message_type != "prompt_response"@ || id != Some(expected_id) {
        Err("Unexpected UI prompt response"@)
    } else {
        let value = match result {
            Some(v) => v,
            None => "none"@,
        };
        match prompt_result_of(value) {
            Some(p) => Ok(p),
            None => Err("Unknown UI prompt response: "@ + value),
        }
    }
}

/// Checks the helper's reply to the prompt `expected_id` and reads its answer.
pub fn read_prompt_reply(
    message_type: &str,
    id: Option<&str>,
    result: Option<&str>,
    expected_id: &str,
) -> (r: Result<PromptResult, AppError>)
    ensures
        match prompt_reply_spec(
            message_type@,
            match id {
                Some(i) => Some(i@),
                None => None,
            },
            match result {
                Some(v) => Some(v@),
                None => None,
            },
            expected_id@,
        ) {
            Ok(p) => r == Ok::<PromptResult, AppError>(p),
            Err(t) => r matches Err(AppError::Message(m)) && m@ == t,
        },
{
    let right_id = match id {
        Some(i) => is_text(i, expected_id),
        None => false,
    };
    if !is_text(message_type, "prompt_response") || !right_id {
        return Err(AppError::Message("Unexpected UI prompt response".to_owned()));
    }
    match result {
        Some(v) => PromptResult::from_str(v),
        None => PromptResult::from_str("none"),
    }
}

/// Whether the welcome page's reply lets the install go on: it must be a
/// `welcome_response` whose result is `install`.
pub fn welcome_accepted(message_type: &str, result: Option<&str>) -> (r: bool)
    ensures
        r == (message_type@ == "welcome_response"@ && match result {
            Some(v) => v@ == "install"@,
            None => false,
        }),
{
    is_text(message_type, "welcome_response") && match result {
        Some(v) => is_text(v, "install"),
        None => false,
    }
}

/// The failure headline shown when an operation stops partway.
pub fn failure_message(app_name: &str, operation: &str) -> (r: String)
    ensures
        r@ == "Error: program "@ + app_name@ + " failed to "@ + operation@ + " completely!"@,
{
    let mut m = chars_of("Error: program ");
    let a = chars_of(app_name);
    append_chars(&mut m, &a);
    let f = chars_of(" failed to ");
    append_chars(&mut m, &f);
    let o = chars_of(operation);
    append_chars(&mut m, &o);
    let e = chars_of(" completely!");
    append_chars(&mut m, &e);
    string_of(m.as_slice())
}

/// Whether a step may start: a cancel the window asked for stops the work
/// before the next step with [`AppError::Cancelled`].
pub fn check_cancel_before_step(cancel_requested: bool) -> (r: Result<(), AppError>)
    ensures
        cancel_requested ==> r matches Err(AppError::Cancelled),
        !cancel_requested ==> r is Ok,
{
    if cancel_requested {
        Err(AppError::Cancelled)
    } else {
        Ok(())
    }
}

/// Whether the window of a finished install, a cancelled install or a
/// failure waits for the user to close it: exactly when nobody automates
/// the run.
pub fn window_waits_for_close(automation: bool) -> (r: bool)
    ensures
        r == !automation,
{
    !automation
}

/// The step count a progress window is given: never below one.
pub fn progress_total(total_steps: usize) -> (r: usize)
    ensures
        r == if total_steps < 1 { 1 } else { total_steps },
{
    if total_steps < 1 {
        1
    } else {
        total_steps
    }
}

} // verus!
