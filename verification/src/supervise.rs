//! The supervisor's decisions: whether the command line carries a command
//! to forward, and how a child's exit is mapped to this process's verdict.

use vstd::prelude::*;
use crate::text::{spec_decimal_int, i32_to_string};

verus! {

/// How the launcher ends: the exit status it adopts and the diagnostic it
/// emits, if any.
pub struct LaunchVerdict {
    pub exit_code: i32,
    pub diagnostic: Option<String>,
}

/// The diagnostic emitted when the child reports failure: a fixed prefix
/// followed by the child's numeric exit status, or a note that it was
/// ended by a signal when there is no status.
pub open spec fn spec_failure_message(code: Option<i32>) -> Seq<char> {
    "Game launch failed with status: "@ + match code {
        Some(c) => spec_decimal_int(c as int),
        None => "signal"@,
    }
}

/// Whether the command line carries at least a command beyond the program
/// name. When it does not, the launch stops at once with a usage error:
/// no probe runs and no environment assignment is made.
pub fn has_command(argc: usize) -> (ok: bool)
    ensures
        ok == (argc >= 2),
{
    argc >= 2
}

/// The usage line shown on a command line without a command.
pub fn usage_message(program: &str) -> (m: String)
    ensures
        m@ == "Usage: "@ + program@ + " <command> [args...]"@,
{
    let mut m = String::from_str("Usage: ");
    m.append(program);
    m.append(" <command> [args...]");
    m
}

/// Map the child's exit to the launcher's verdict. A successful child ends
/// the launcher silently and successfully; a failing child makes it fail,
/// with a diagnostic carrying the child's status.
pub fn child_verdict(success: bool, code: Option<i32>) -> (v: LaunchVerdict)
    ensures
        v.exit_code == (if success {
            0int
        } else {
            1int
        }),
        success <==> v.diagnostic is None,
        !success ==> (v.diagnostic matches Some(d) && d@ == spec_failure_message(code)),
{
    if success {
        LaunchVerdict { exit_code: 0, diagnostic: None }
    } else {
        let mut m = String::from_str("Game launch failed with status: ");
        match code {
            Some(c) => {
                let tail = i32_to_string(c);
                m.append(tail.as_str());
            },
            None => {
                m.append("signal");
            },
        }
        LaunchVerdict { exit_code: 1, diagnostic: Some(m) }
    }
}

} // verus!
