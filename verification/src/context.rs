//! What a builtin command answers, and the shell options.

use vstd::prelude::*;

verus! {

/// The exit code a builtin command reports.
#[derive(Clone, Copy, Debug, PartialEq, Eq, Structural)]
pub enum BuiltinExitCode {
    Success,
    InvalidUsage,
    Unimplemented,
    Custom(i32),
}

/// The result of running a builtin command.
#[derive(Clone, Copy, Debug, PartialEq, Eq, Structural)]
pub struct BuiltinResult {
    pub exit_code: BuiltinExitCode,
}

/// The shell's options (none yet).
#[derive(Debug, PartialEq, Eq, Structural)]
pub struct ShellOptions {}

impl Default for ShellOptions {
    fn default() -> (r: Self)
        ensures
            r == (ShellOptions {}),
    {
        ShellOptions {}
    }
}

} // verus!
