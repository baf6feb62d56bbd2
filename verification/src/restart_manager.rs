//! The decisions of a Restart Manager query for the processes that hold a
//! file open: what a size probe's status means, and which process ids a
//! fetch returned.
use vstd::prelude::*;
use crate::error::{win32_ok, win32_failure_text, AppError};

verus! {

/// The Win32 status `ERROR_MORE_DATA`.
pub const ERROR_MORE_DATA: u32 = 234;

/// What the size probe (`RmGetList` without a buffer) leads to.
pub enum LockProbe {
    /// The probe failed; the query stops with this error.
    Failed(AppError),
    /// No process holds the file.
    NoLocks,
    /// Fetch the list into a buffer of this many entries.
    Fetch { capacity: u32 },
}

/// Reads the size probe: any status but success and `ERROR_MORE_DATA` is a
/// failure of `RmGetList`; otherwise no entries needed means no process
/// holds the file, and any other count is fetched into a buffer that size.
pub fn locking_probe(status: u32, needed: u32) -> (r: LockProbe)
    ensures
        status != 0 && status != ERROR_MORE_DATA ==> (r matches LockProbe::Failed(
            AppError::Message(m),
        ) && m@ == win32_failure_text("RmGetList"@, status as nat)),
        (status == 0 || status == ERROR_MORE_DATA) && needed == 0 ==> r is NoLocks,
        (status == 0 || status == ERROR_MORE_DATA) && needed > 0 ==> (r matches LockProbe::Fetch {
            capacity,
        } && capacity == needed),
{
    if status != 0 && status != ERROR_MORE_DATA {
        match win32_ok(status, "RmGetList") {
            Err(e) => LockProbe::Failed(e),
            Ok(()) => LockProbe::NoLocks,
        }
    } else if needed == 0 {
        LockProbe::NoLocks
    } else {
        LockProbe::Fetch { capacity: needed }
    }
}

/// The process ids a fetch returned: the first `count` of the buffer, or an
/// error when the reported count is larger than the buffer.
pub fn fetched_process_ids(buffer: &Vec<u32>, count: u32) -> (r: Result<Vec<u32>, AppError>)
    ensures
        count > buffer@.len() ==> (r matches Err(AppError::Message(m)) && m@
            == "Restart Manager count exceeded allocated buffer"@),
        count <= buffer@.len() ==> (r matches Ok(v) && v@ == buffer@.take(count as int)),
{
    if count as usize > buffer.len() {
        return Err(AppError::Message("Restart Manager count exceeded allocated buffer".to_owned()));
    }
    let n = count as usize;
    let mut ids: Vec<u32> = Vec::new();
    let mut i: usize = 0;
    while i < n
        invariant
            n == count,
            n <= buffer@.len(),
            i <= n,
            ids@ == buffer@.take(i as int),
        decreases n - i,
    {
        ids.push(buffer[i]);
        i = i + 1;
        assert(ids@ =~= buffer@.take(i as int));
    }
    Ok(ids)
}

} // verus!
