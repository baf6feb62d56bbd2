//! What the elevation probes report: the token query's answer and the
//! outcome of the elevated relaunch.
use vstd::prelude::*;
use crate::error::AppError;
use crate::text::{append_chars, chars_of, decimal, decimal_chars, string_of};

verus! {

/// Reads the `TokenElevation` query: fewer bytes than the structure holds
/// is an error; otherwise the process is elevated when the flag is nonzero.
pub fn token_elevation(returned: u32, expected: u32, token_is_elevated: u32) -> (r: Result<
    bool,
    AppError,
>)
    ensures
        returned < expected ==> (r matches Err(AppError::Message(m)) && m@
            == "Short TOKEN_ELEVATION payload"@),
        returned >= expected ==> r == Ok::<bool, AppError>(token_is_elevated != 0),
{
    if returned < expected {
        Err(AppError::Message("Short TOKEN_ELEVATION payload".to_owned()))
    } else {
        Ok(token_is_elevated != 0)
    }
}

/// Decimal rendering of a signed number, with a leading `-` when negative.
pub open spec fn signed_decimal(n: int) -> Seq<char> {
    if n < 0 {
        seq!['-'] + decimal((-n) as nat)
    } else {
        decimal(n as nat)
    }
}

/// Reads the value `ShellExecuteW` returned for the elevated relaunch:
/// 32 or less is a failure that names the value.
pub fn shell_execute_result(code: i64) -> (r: Result<(), AppError>)
    ensures
        code > 32 ==> r is Ok,
        code <= 32 ==> (r matches Err(AppError::Message(m)) && m@ == "ShellExecuteW failed: "@
            + signed_decimal(code as int)),
{
    if code > 32 {
        return Ok(());
    }
    let mut v = chars_of("ShellExecuteW failed: ");
    let magnitude: u128 = if code < 0 {
        (-(code as i128)) as u128
    } else {
        code as u128
    };
    if code < 0 {
        v.push('-');
    }
    let digits = decimal_chars(magnitude);
    proof {
        if code < 0 {
            assert(magnitude == -(code as int));
        }
    }
    append_chars(&mut v, &digits);
    assert(v@ =~= "ShellExecuteW failed: "@ + signed_decimal(code as int));
    Err(AppError::Message(string_of(v.as_slice())))
}

} // verus!
