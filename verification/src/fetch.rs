//! Telling a stale background answer from the current one: every request
//! takes a ticket, and only the answer carrying the latest ticket is used.
use vstd::prelude::*;

verus! {

/// The count of requests started so far; the latest request's ticket.
#[derive(Debug, Clone, Copy)]
pub struct FetchGeneration {
    current: u64,
}

impl View for FetchGeneration {
    type V = nat;

    closed spec fn view(&self) -> nat {
        self.current as nat
    }
}

impl FetchGeneration {
    /// No request started yet.
    pub fn new() -> (g: Self)
        ensures
            g@ == 0,
    {
        FetchGeneration { current: 0 }
    }

    /// Starts a request: its ticket is the new count, which makes every
    /// earlier ticket stale.
    pub fn begin(&mut self) -> (ticket: u64)
        requires
            old(self)@ < u64::MAX,
        ensures
            final(self)@ == old(self)@ + 1,
            ticket == final(self)@,
    {
        self.current = self.current + 1;
        self.current
    }

    /// Whether an answer with `ticket` belongs to the latest request.
    pub fn is_current(&self, ticket: u64) -> (b: bool)
        ensures
            b == (ticket == self@),
    {
        ticket == self.current
    }

    /// Whether another request can still be started.
    pub fn can_begin(&self) -> (b: bool)
        ensures
            b == (self@ < u64::MAX),
    {
        self.current < u64::MAX
    }
}

/// Once a newer request has started on the same counter, the answer to
/// the earlier one is stale: its ticket is no longer the current one.
pub proof fn lemma_superseded_answer_is_stale(earlier: FetchGeneration, later: FetchGeneration, ticket: u64)
    requires
        ticket == earlier@,
        later@ > earlier@,
    ensures
        ticket != later@,
{
}

} // verus!
