//! The installer's error type and the process exit codes derived from it.
use vstd::prelude::*;
use crate::text::{chars_of, matches_at, starts_with, string_of, decimal, decimal_chars, append_chars};

verus! {

/// Exit code when the operation needs an elevated process.
pub const EXIT_ELEVATION_REQUIRED: i32 = 33;

/// Exit code for any other failure.
pub const EXIT_OPERATION_FAILED: i32 = 1;

/// Exit code when the user cancelled.
pub const EXIT_CANCELLED: i32 = 40;

/// Why an operation failed. Errors that come from the file system, the TOML
/// or JSON codecs, or Win32 carry the text those sources rendered.
#[derive(Debug, Clone, PartialEq, Eq)]
pub enum AppError {
    Message(String),
    Cancelled,
    CancelledByUser,
    Io(String),
    Toml(String),
    Json(String),
    Windows(String),
}

/// The text an error renders as.
pub open spec fn error_text(e: AppError) -> Seq<char> {
    match e {
        AppError::Message(m) => m@,
        AppError::Cancelled => "Installation cancelled; changes were reverted"@,
        AppError::CancelledByUser => "Installation cancelled by user"@,
        AppError::Io(m) => m@,
        AppError::Toml(m) => m@,
        AppError::Json(m) => m@,
        AppError::Windows(m) => m@,
    }
}

impl AppError {
    /// The text the error renders as.
    pub fn to_string(&self) -> (s: String)
        ensures
            s@ == error_text(*self),
    {
        match self {
            AppError::Message(m) => m.clone(),
            AppError::Cancelled => String::from_str("Installation cancelled; changes were reverted"),
            AppError::CancelledByUser => String::from_str("Installation cancelled by user"),
            AppError::Io(m) => m.clone(),
            AppError::Toml(m) => m.clone(),
            AppError::Json(m) => m.clone(),
            AppError::Windows(m) => m.clone(),
        }
    }
}

/// `p` occurs somewhere in `s`.
pub open spec fn contains_seq(s: Seq<char>, p: Seq<char>) -> bool {
    exists|i: int| 0 <= i <= s.len() && #[trigger] starts_with(s.skip(i), p)
}

/// Whether `p` occurs somewhere in `s`.
pub fn contains_chars(s: &Vec<char>, p: &Vec<char>) -> (r: bool)
    ensures
        r == contains_seq(s@, p@),
{
    let mut i: usize = 0;
    loop
        invariant
            i <= s.len(),
            forall|j: int| 0 <= j < i ==> !#[trigger] starts_with(s@.skip(j), p@),
        decreases s.len() - i,
    {
        if matches_at(s, i, p) {
            return true;
        }
        if i == s.len() {
            return false;
        }
        i = i + 1;
    }
}

/// The exit code a failure ends the process with.
pub open spec fn exit_code_of(e: AppError) -> i32 {
    match e {
        AppError::Cancelled | AppError::CancelledByUser => EXIT_CANCELLED,
        AppError::Message(m) => if contains_seq(m@, "Elevation required"@) {
            EXIT_ELEVATION_REQUIRED
        } else {
            EXIT_OPERATION_FAILED
        },
        _ => EXIT_OPERATION_FAILED,
    }
}

/// Maps a failure to the process exit code: cancellations give
/// [`EXIT_CANCELLED`], a message that mentions `Elevation required` gives
/// [`EXIT_ELEVATION_REQUIRED`], anything else [`EXIT_OPERATION_FAILED`].
pub fn error_exit_code(err: &AppError) -> (code: i32)
    ensures
        code == exit_code_of(*err),
{
    match err {
        AppError::Cancelled | AppError::CancelledByUser => EXIT_CANCELLED,
        AppError::Message(message) => {
            let m = chars_of(message.as_str());
            let needle = chars_of("Elevation required");
            if contains_chars(&m, &needle) {
                EXIT_ELEVATION_REQUIRED
            } else {
                EXIT_OPERATION_FAILED
            }
        },
        _ => EXIT_OPERATION_FAILED,
    }
}

/// The text of a failed Win32 status: `{operation} failed with Win32 error {code}`.
pub open spec fn win32_failure_text(operation: Seq<char>, code: nat) -> Seq<char> {
    operation + " failed with Win32 error "@ + decimal(code)
}

/// The outcome of a Win32 status code: success for zero, otherwise an error
/// naming the operation and the code.
pub fn win32_ok(status: u32, operation: &str) -> (r: Result<(), AppError>)
    ensures
        status == 0 ==> r is Ok,
        status != 0 ==> (r matches Err(AppError::Message(m)) && m@ == win32_failure_text(
            operation@,
            status as nat,
        )),
{
    if status == 0 {
        Ok(())
    } else {
        let mut v = chars_of(operation);
        let mid = chars_of(" failed with Win32 error ");
        append_chars(&mut v, &mid);
        let d = decimal_chars(status as u128);
        append_chars(&mut v, &d);
        Err(AppError::Message(string_of(v.as_slice())))
    }
}

} // verus!
