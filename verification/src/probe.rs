//! Classification of an external command's outcome.
//!
//! Both the probe (one echo request against the target host) and the remedial
//! action (the privileged reboot request) are external commands judged by the
//! same rule: they succeeded only if the tool was launched and exited with a
//! success status. A tool that could not be invoked at all is treated exactly
//! like one that ran and failed.

use vstd::prelude::*;

verus! {

/// What came of launching an external command: either the tool could not be
/// invoked at all, or it ran to completion and reported an exit status.
#[derive(Clone, Copy, Debug, PartialEq, Eq, Structural)]
pub enum CommandResult {
    /// The tool could not be launched (missing binary, missing permission).
    NotLaunched,
    /// The tool ran; `success` is whether its exit status was a success.
    Exited { success: bool },
}

/// A command counts as successful exactly when it was launched and exited
/// with a success status.
pub open spec fn spec_command_succeeded(r: CommandResult) -> bool {
    r matches CommandResult::Exited { success } && success
}

/// Judge an external command's outcome. An invocation error and a non-success
/// exit status are both failures; only a successful exit counts.
pub fn command_succeeded(r: &CommandResult) -> (b: bool)
    ensures
        b == spec_command_succeeded(*r),
{
    match r {
        CommandResult::NotLaunched => false,
        CommandResult::Exited { success } => *success,
    }
}

} // verus!
