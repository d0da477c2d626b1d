use vstd::prelude::*;

verus! {

/// Signal number of the trap signal that a breakpoint or a single step raises.
pub const SIGTRAP: i32 = 5;

/// What a wait on the traced process observed.
#[derive(Clone, Copy, Debug, PartialEq, Eq, Structural)]
pub enum Status {
    /// The process halted on a signal and is still alive; holds the signal and
    /// the instruction pointer at the stop.
    Stopped(i32, u64),
    /// The process terminated normally with this exit code.
    Exited(i32),
    /// The process was terminated by this uncaught signal.
    Signaled(i32),
}

impl Status {
    /// A stop caused by the trap signal.
    pub open spec fn is_trap_stop(self) -> bool {
        self matches Status::Stopped(sig, _) && sig == SIGTRAP
    }

    /// The process no longer exists after this status.
    pub open spec fn is_terminal(self) -> bool {
        self is Exited || self is Signaled
    }

    pub fn is_trap(&self) -> (r: bool)
        ensures
            r == self.is_trap_stop(),
    {
        match self {
            Status::Stopped(sig, _) => *sig == SIGTRAP,
            _ => false,
        }
    }

    pub fn ends_process(&self) -> (r: bool)
        ensures
            r == self.is_terminal(),
    {
        match self {
            Status::Stopped(_, _) => false,
            _ => true,
        }
    }
}

} // verus!
