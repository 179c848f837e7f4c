//! Errors of the filterer and of the outcome worker.
use vstd::prelude::*;

verus! {

/// Why a filterer operation failed.
#[derive(Clone, Copy, Debug, PartialEq, Eq, Structural)]
pub enum TaggedFiltererError {
    /// A glob pattern, or a set of them, could not be compiled.
    GlobParse,
    /// A regular expression could not be compiled.
    RegexParse,
    /// The operator cannot be applied to the kind of pattern it was given.
    PatternMismatch,
}

/// Errors that the runtime and the outcome worker surface. Errors of
/// collaborators are carried as their messages.
#[derive(Clone, Debug)]
pub enum RuntimeError {
    /// Not an error: the signal to shut down gracefully.
    Exit,
    External(String),
    IoError { about: String, err: String },
    FsWatcher { kind: String, err: String },
    KeyboardWatcher { err: String },
    InternalSupervisor(String),
    EventChannelSend { ctx: String, err: String },
    EventChannelTrySend { ctx: String, err: String },
    Handler { ctx: String, err: String },
    HandlerLockHeld(String),
    Process(String),
    ProcessDeadOnArrival,
    UnsupportedSignal(crate::tags::Signal),
    NoCommands,
    CommandShellEmptyCommand,
    CommandShellEmptyShell,
    Clearscreen(String),
    IgnoreFiles(String),
    Filterer { kind: String, err: TaggedFiltererError },
}

impl RuntimeError {
    /// Whether this is the graceful-exit signal rather than a failure.
    pub fn is_exit(&self) -> (r: bool)
        ensures
            r == (*self is Exit),
    {
        match self {
            RuntimeError::Exit => true,
            _ => false,
        }
    }
}

} // verus!
