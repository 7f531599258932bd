use vstd::prelude::*;

verus! {

/// The outcome of one unit of work: either the value it returned, or the
/// payload of the failure it was contained with.
///
/// A failure never unwinds through the dispatch layer of a worker; it is
/// captured at the point of execution and travels through the result packet
/// as a `Failure`, to be re-raised by whoever joins the thread.
pub enum Outcome<T> {
    Value(T),
    Failure(String),
}

impl<T> Outcome<T> {
    /// Whether this outcome is a captured failure.
    pub open spec fn is_failure(self) -> bool {
        self is Failure
    }

    /// Executable query for `is_failure`.
    pub fn failed(&self) -> (r: bool)
        ensures
            r == self.is_failure(),
    {
        match self {
            Outcome::Value(_) => false,
            Outcome::Failure(_) => true,
        }
    }
}

} // verus!
