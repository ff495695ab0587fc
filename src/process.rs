//! How the end of a streamed command is reported.

use vstd::prelude::*;

verus! {

/// Why a command failed.
#[derive(Clone, Copy, Debug, PartialEq, Eq, Structural)]
pub enum CommandError {
    /// The command exited with this non-zero code.
    NonZeroExit(i32),
    /// The command was ended by a signal and has no exit code.
    Signaled,
}

/// Outcome of a command from its exit code, `None` when a signal ended it.
pub fn exit_result(code: Option<i32>) -> (r: Result<(), CommandError>)
    ensures
        code == Some(0i32) <==> r is Ok,
        code is Some && code->0 != 0 ==> r == Err::<(), CommandError>(
            CommandError::NonZeroExit(code->0),
        ),
        code is None ==> r == Err::<(), CommandError>(CommandError::Signaled),
{
    match code {
        Some(0) => Ok(()),
        Some(c) => Err(CommandError::NonZeroExit(c)),
        None => Err(CommandError::Signaled),
    }
}

} // verus!
