//! Runtime support items used by the generated application glue.

use vstd::prelude::*;

verus! {

/// Compile-time check that a message payload can move between contexts.
pub fn assert_send<T: Send>() {
}

/// Compile-time check that a shared resource can be referenced from
/// several contexts.
pub fn assert_sync<T: Sync>() {
}

/// The running context's logical priority.  `lock` implementations read
/// it to skip masking when the current priority already reaches the
/// ceiling; it is context-local state, never touched by preemptions.
pub struct Priority {
    inner: u8,
}

impl Priority {
    /// The stored priority value.
    pub closed spec fn value(&self) -> u8 {
        self.inner
    }

    /// A priority cell for a context running at `value`.
    pub fn new(value: u8) -> (p: Priority)
        ensures
            p.value() == value,
    {
        Priority { inner: value }
    }

    /// Record a new current priority.
    pub fn set(&mut self, value: u8)
        ensures
            final(self).value() == value,
    {
        self.inner = value;
    }

    /// Read the current priority.
    pub fn get(&self) -> (v: u8)
        ensures
            v == self.value(),
    {
        self.inner
    }
}

/// Run a task body at its dispatch priority.  On controllers whose
/// hardware restores the threshold on interrupt return, nothing needs to
/// happen around the body itself.
pub fn run<F: FnOnce()>(_priority: u8, f: F)
    requires
        call_requires(f, ()),
    ensures
        call_ensures(f, (), ()),
{
    f();
}

} // verus!
