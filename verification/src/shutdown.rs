//! The slot that holds the shutdown signal until one request takes it.

use vstd::prelude::*;

verus! {

/// A cell that holds a signal at most once. Whoever takes the signal out is
/// the one to fire it; everyone after finds the slot empty. The slot itself
/// knows nothing of locks: callers that share it guard it themselves, so
/// that attempts come one after the other.
pub struct ShutdownSlot<S> {
    signal: Option<S>,
}

/// One attempt on a slot that holds `held`: the slot afterwards, and what the
/// attempt got.
pub open spec fn attempt<S>(held: Option<S>) -> (Option<S>, Option<S>) {
    (None, held)
}

impl<S> View for ShutdownSlot<S> {
    type V = Option<S>;

    /// The signal that the slot holds, if it still holds one.
    closed spec fn view(&self) -> Option<S> {
        self.signal
    }
}

impl<S> ShutdownSlot<S> {
    /// A slot that holds `signal`.
    pub fn new(signal: S) -> (slot: ShutdownSlot<S>)
        ensures
            slot@ == Some(signal),
    {
        ShutdownSlot { signal: Some(signal) }
    }

    /// Whether the signal is still there.
    pub fn is_armed(&self) -> (armed: bool)
        ensures
            armed == (self@ is Some),
    {
        self.signal.is_some()
    }

    /// Takes the signal out, if it is still there, and leaves the slot empty.
    pub fn take(&mut self) -> (taken: Option<S>)
        ensures
            (final(self)@, taken) == attempt(old(self)@),
    {
        self.signal.take()
    }
}

/// Of two attempts on a slot that holds the signal, whichever comes first
/// gets the signal and the other finds the slot empty; after them the slot is
/// empty. On an empty slot neither gets anything.
pub proof fn lemma_one_attempt_fires<S>(held: Option<S>)
    ensures
        ({
            let (after_first, first) = attempt(held);
            let (after_second, second) = attempt(after_first);
            &&& first == held
            &&& second is None
            &&& after_first is None
            &&& after_second is None
        }),
{
}

} // verus!
