use vstd::prelude::*;

verus! {

/// A single-shot, multi-waiter completion signal.
///
/// The state is binary: pending or signaled, and the transition is monotonic;
/// once signaled it never reverts. Any number of waiters may observe it. The
/// actual blocking wait and the asynchronous suspend-and-resume wait are the
/// platform's business: a waiter blocks until `poll` would return true, so the
/// library's contracts speak only of the state.
pub struct Signal {
    pub signaled: bool,
}

impl Signal {
    /// Whether the signal has fired.
    pub open spec fn is_signaled(self) -> bool {
        self.signaled
    }

    /// A fresh signal is pending.
    pub fn new() -> (s: Signal)
        ensures
            !s.is_signaled(),
    {
        Signal { signaled: false }
    }

    /// Fire the signal: pending becomes signaled, and a second call is a
    /// no-op, not an error.
    pub fn signal(&mut self)
        ensures
            signal_transition(*old(self), *final(self)),
    {
        self.signaled = true;
    }

    /// Observe the current state. A blocking or asynchronous waiter returns
    /// exactly when this would return true.
    pub fn poll(&self) -> (r: bool)
        ensures
            r == self.is_signaled(),
    {
        self.signaled
    }
}

/// The exact effect of one `signal` call: afterwards the signal is signaled,
/// and if it already was, nothing changed.
pub open spec fn signal_transition(pre: Signal, post: Signal) -> bool {
    &&& post.is_signaled()
    &&& pre.is_signaled() ==> post == pre
}

} // verus!
