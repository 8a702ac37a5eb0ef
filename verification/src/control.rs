//! Process control: what ending a process and looking up its path report.

use vstd::prelude::*;

verus! {

/// The process was ended.
pub const KILL_SUCCEEDED: i32 = 0;

/// The process could not be opened.
pub const KILL_NOT_OPENED: i32 = -1;

/// The process was opened and could not be ended.
pub const KILL_NOT_TERMINATED: i32 = -2;

/// The status of an attempt to end a process.
pub open spec fn kill_status(opened: bool, terminated: bool) -> i32 {
    if !opened {
        KILL_NOT_OPENED
    } else if !terminated {
        KILL_NOT_TERMINATED
    } else {
        KILL_SUCCEEDED
    }
}

/// The status of an attempt to end a process: whether the process could be
/// opened and, if so, whether it could be ended. A process that could not be
/// opened was not asked to end, so `terminated` counts only after `opened`.
pub fn kill_process(opened: bool, terminated: bool) -> (status: i32)
    ensures
        status == kill_status(opened, terminated),
{
    if !opened {
        KILL_NOT_OPENED
    } else if !terminated {
        KILL_NOT_TERMINATED
    } else {
        KILL_SUCCEEDED
    }
}

/// The units of a path that was copied into `filename`, where there is one.
pub open spec fn proc_path(opened: bool, copied: u32, filename: Seq<u16>) -> Option<Seq<u16>> {
    if opened && copied != 0 {
        Some(filename.subrange(0, copied as int))
    } else {
        None
    }
}

/// The path of a process, in UTF-16 units: the first `copied` units of the
/// buffer that the lookup filled. There is none where the process could not
/// be opened or where nothing was copied.
pub fn get_proc_path(opened: bool, copied: u32, filename: &[u16]) -> (path: Option<Vec<u16>>)
    requires
        copied <= filename@.len(),
    ensures
        path is Some == proc_path(opened, copied, filename@) is Some,
        path is Some ==> path->0@ == proc_path(opened, copied, filename@)->0,
{
    if !opened || copied == 0 {
        return None;
    }
    let mut path: Vec<u16> = Vec::new();
    let mut i: usize = 0;
    while i < copied as usize
        invariant
            i <= copied,
            copied <= filename@.len(),
            path@ == filename@.subrange(0, i as int),
        decreases copied - i,
    {
        path.push(filename[i]);
        proof {
            assert(path@ =~= filename@.subrange(0, i + 1));
        }
        i = i + 1;
    }
    Some(path)
}

} // verus!
