//! Which refresh the calendar waits for.
//!
//! Every refresh that is started gets a ticket, a number greater than all
//! tickets before it. The calendar waits for one refresh of a kind at most:
//! the one started last. A result is taken only if it carries the ticket that
//! is waited for, so the result of an earlier refresh that arrives late is
//! dropped, whatever comes in between.

use vstd::prelude::*;

verus! {

/// The tickets of the refreshes of one kind.
#[derive(Clone, Copy, Debug, PartialEq, Eq, Structural)]
pub struct RefreshSlot {
    /// The ticket of the refresh whose result is waited for.
    pub awaited: Option<u64>,
    /// The greatest ticket given out so far.
    pub issued: u64,
}

impl RefreshSlot {
    /// The ticket waited for has been given out.
    pub open spec fn wf(self) -> bool {
        self.awaited is Some ==> 1 <= self.awaited->0 <= self.issued
    }

    /// Whether a further ticket can be given out.
    pub open spec fn can_start(self) -> bool {
        self.issued < u64::MAX
    }

    /// The slot after a refresh has been started: its ticket is the next
    /// number, and it is the one waited for. Nothing changes when the tickets
    /// have run out.
    pub open spec fn started(self) -> RefreshSlot {
        if self.can_start() {
            RefreshSlot { awaited: Some((self.issued + 1) as u64), issued: (self.issued + 1) as u64 }
        } else {
            self
        }
    }

    /// The ticket of the refresh that `started` starts.
    pub open spec fn next_ticket(self) -> Option<u64> {
        if self.can_start() {
            Some((self.issued + 1) as u64)
        } else {
            None
        }
    }

    /// Whether the result with the given ticket is taken.
    pub open spec fn accepts(self, ticket: u64) -> bool {
        self.awaited == Some(ticket)
    }

    /// The slot after the result with the given ticket has arrived: nothing
    /// is waited for if it was taken, and nothing changes if it was dropped.
    pub open spec fn arrived(self, ticket: u64) -> RefreshSlot {
        if self.accepts(ticket) {
            RefreshSlot { awaited: None, issued: self.issued }
        } else {
            self
        }
    }

    /// A slot that waits for nothing and has given out no ticket.
    pub fn new() -> (slot: RefreshSlot)
        ensures
            slot.wf(),
            slot == (RefreshSlot { awaited: None, issued: 0 }),
    {
        RefreshSlot { awaited: None, issued: 0 }
    }

    /// Whether `wf` holds of the slot.
    pub fn check_wf(&self) -> (ok: bool)
        ensures
            ok == self.wf(),
    {
        match self.awaited {
            Some(awaited) => 1 <= awaited && awaited <= self.issued,
            None => true,
        }
    }

    /// Starts a refresh and answers with its ticket.
    pub fn start(&mut self) -> (ticket: Option<u64>)
        ensures
            *final(self) == old(self).started(),
            ticket == old(self).next_ticket(),
            old(self).wf() ==> final(self).wf(),
    {
        if self.issued < u64::MAX {
            self.issued = self.issued + 1;
            self.awaited = Some(self.issued);
            Some(self.issued)
        } else {
            None
        }
    }

    /// Takes note that the result with the given ticket has arrived, and
    /// answers whether it is taken.
    pub fn arrive(&mut self, ticket: u64) -> (taken: bool)
        ensures
            taken == old(self).accepts(ticket),
            *final(self) == old(self).arrived(ticket),
            old(self).wf() ==> final(self).wf(),
    {
        match self.awaited {
            Some(awaited) => if awaited == ticket {
                self.awaited = None;
                true
            } else {
                false
            },
            None => false,
        }
    }
}

/// Of two refreshes started one after the other, only the second can have
/// its result taken: the result of the first is dropped whether it arrives
/// before or after that of the second, and the result of the second is taken
/// in either case.
pub proof fn lemma_last_refresh_wins(slot: RefreshSlot)
    requires
        slot.wf(),
        slot.started().can_start(),
    ensures
        ({
            let first = slot.next_ticket()->0;
            let second = slot.started().next_ticket()->0;
            let waiting = slot.started().started();
            &&& first != second
            &&& !waiting.accepts(first)
            &&& waiting.arrived(first) == waiting
            &&& waiting.accepts(second)
            &&& !waiting.arrived(second).accepts(first)
        }),
{
}

/// A ticket that was given out before the one that is waited for is never
/// taken, and the slot is left as it is when its result arrives.
pub proof fn lemma_stale_result_dropped(slot: RefreshSlot, ticket: u64)
    requires
        slot.wf(),
        slot.awaited is Some,
        ticket < slot.awaited->0,
    ensures
        !slot.accepts(ticket),
        slot.arrived(ticket) == slot,
{
}

/// Starting a refresh gives out a ticket greater than every ticket before
/// it, and makes it the one waited for.
pub proof fn lemma_tickets_grow(slot: RefreshSlot)
    requires
        slot.wf(),
        slot.can_start(),
    ensures
        slot.started().wf(),
        slot.started().awaited == slot.next_ticket(),
        slot.next_ticket()->0 > slot.issued,
        slot.awaited is Some ==> slot.next_ticket()->0 > slot.awaited->0,
{
}

} // verus!
