//! The bridge between the SDK's callback-driven completion and a blocking
//! caller. Each blocking query opens one pending request: a single-assignment
//! result slot that the completion callback fills exactly once and the caller
//! consumes exactly once. Slots are addressed by fresh tickets, are never
//! reused, and filling one slot never disturbs another — so concurrent
//! queries, even for the same item id, stay independent.
//!
//! The blocking itself (a lock and condition signal around the bridge) and
//! the pump that runs the callbacks belong to the host glue; this module
//! holds the state those parts share and the rules it obeys.
use std::collections::HashMap;

use vstd::prelude::*;

use crate::workshop::WokrshopItem;
use crate::ErrorDetail;

verus! {

broadcast use vstd::std_specs::hash::group_hash_axioms;

/// A single-assignment result slot. It starts empty, is filled exactly once
/// by the one completion callback that owns its ticket, and is consumed by
/// the caller that opened it.
pub struct PendingRequest {
    pub result: Option<Result<WokrshopItem, ErrorDetail>>,
}

impl PendingRequest {
    /// A fresh, still-empty slot.
    pub fn empty() -> (p: PendingRequest)
        ensures
            p.result is None,
    {
        PendingRequest { result: None }
    }

    /// Fills the slot. A slot can only be filled while it is empty, so no
    /// second write can ever occur on the same request.
    pub fn fill(&mut self, value: Result<WokrshopItem, ErrorDetail>)
        requires
            old(self).result is None,
        ensures
            final(self).result == Some(value),
    {
        self.result = Some(value);
    }

    /// Consumes a filled slot, yielding the terminal value the caller wakes
    /// to: a descriptor or one specific error kind.
    pub fn take(self) -> (r: Result<WokrshopItem, ErrorDetail>)
        requires
            self.result is Some,
        ensures
            r == self.result->Some_0,
    {
        match self.result {
            Some(value) => value,
            None => Err(ErrorDetail::EmptyResult),
        }
    }
}

/// The shared registry of pending requests, one slot per in-flight blocking
/// query, addressed by tickets that are handed out fresh and never reused.
pub struct QueryBridge {
    requests: HashMap<u64, PendingRequest>,
    next_ticket: u64,
}

impl View for QueryBridge {
    type V = Map<u64, PendingRequest>;

    /// The bridge is its map from open tickets to their slots.
    closed spec fn view(&self) -> Map<u64, PendingRequest> {
        self.requests@
    }
}

impl QueryBridge {
    /// Every open ticket was handed out before the next one to come, so the
    /// next ticket is fresh.
    pub closed spec fn wf(self) -> bool {
        forall|k: u64| self@.dom().contains(k) ==> k < self.next_ticket
    }

    /// How many tickets this bridge has ever handed out. They are issued in
    /// sequence and never reused.
    pub closed spec fn tickets_issued(self) -> u64 {
        self.next_ticket
    }

    /// Whether another ticket can still be handed out. Tickets are 64-bit and
    /// never reused, so the supply is finite (if astronomically large).
    pub open spec fn can_open(self) -> bool {
        self.tickets_issued() < u64::MAX
    }

    /// A bridge with no request in flight.
    pub fn new() -> (b: QueryBridge)
        ensures
            b.wf(),
            b.tickets_issued() == 0,
            b@ == Map::<u64, PendingRequest>::empty(),
    {
        QueryBridge { requests: HashMap::new(), next_ticket: 0 }
    }

    /// Runtime probe for `can_open`, for unverified callers that must check
    /// before opening.
    pub fn has_ticket_budget(&self) -> (b: bool)
        ensures
            b == self.can_open(),
    {
        self.next_ticket < u64::MAX
    }

    /// Opens a fresh pending request and returns its ticket. The ticket was
    /// never in use before, its slot starts empty, and every other slot is
    /// left exactly as it was.
    pub fn open_request(&mut self) -> (t: u64)
        requires
            old(self).wf(),
            old(self).can_open(),
        ensures
            final(self).wf(),
            final(self).tickets_issued() == old(self).tickets_issued() + 1,
            !old(self)@.contains_key(t),
            final(self)@ == old(self)@.insert(t, (PendingRequest { result: None })),
    {
        let t = self.next_ticket;
        self.next_ticket = self.next_ticket + 1;
        self.requests.insert(t, PendingRequest { result: None });
        proof {
            assert forall|k: u64| self@.dom().contains(k) implies k < self.next_ticket by {
                if k != t {
                    assert(old(self)@.dom().contains(k));
                }
            }
        }
        t
    }

    /// Fills the slot of one ticket with the terminal value of its query.
    /// Only an empty slot can be filled — the fill happens exactly once per
    /// request — and every other ticket's slot is untouched.
    pub fn fill(&mut self, t: u64, value: Result<WokrshopItem, ErrorDetail>)
        requires
            old(self).wf(),
            old(self)@.contains_key(t),
            old(self)@[t].result is None,
        ensures
            final(self).wf(),
            final(self).tickets_issued() == old(self).tickets_issued(),
            final(self)@ == old(self)@.insert(t, (PendingRequest { result: Some(value) })),
    {
        self.requests.insert(t, PendingRequest { result: Some(value) });
    }

    /// Whether a ticket's slot has been filled: what a blocked caller checks
    /// each time its condition signal wakes it.
    pub fn is_filled(&self, t: u64) -> (b: bool)
        requires
            self@.contains_key(t),
        ensures
            b == (self@[t].result is Some),
    {
        match self.requests.get(&t) {
            Some(p) => p.result.is_some(),
            None => false,
        }
    }

    /// Consumes a filled slot, closing the request: the caller observes the
    /// one value its callback stored, the ticket leaves the registry for
    /// good, and every other slot is left exactly as it was.
    pub fn take(&mut self, t: u64) -> (r: Result<WokrshopItem, ErrorDetail>)
        requires
            old(self).wf(),
            old(self)@.contains_key(t),
            old(self)@[t].result is Some,
        ensures
            final(self).wf(),
            final(self).tickets_issued() == old(self).tickets_issued(),
            final(self)@ == old(self)@.remove(t),
            r == old(self)@[t].result->Some_0,
    {
        match self.requests.remove(&t) {
            Some(p) => match p.result {
                Some(value) => value,
                None => {
                    proof {
                        assert(false);
                    }
                    Err(ErrorDetail::EmptyResult)
                },
            },
            None => {
                proof {
                    assert(false);
                }
                Err(ErrorDetail::EmptyResult)
            },
        }
    }
}

/// Completing one request never disturbs another: filling the slot of ticket
/// `t1` leaves the slot of any other ticket `t2` exactly as it was.
pub proof fn lemma_fill_preserves_other(
    slots: Map<u64, PendingRequest>,
    t1: u64,
    t2: u64,
    value: Result<WokrshopItem, ErrorDetail>,
)
    requires
        t1 != t2,
        slots.contains_key(t2),
    ensures
        slots.insert(t1, (PendingRequest { result: Some(value) })).contains_key(t2),
        slots.insert(t1, (PendingRequest { result: Some(value) }))[t2] == slots[t2],
{
}

/// Two in-flight requests with distinct tickets — concurrent queries, or two
/// queries for the same item id — complete independently: their two fills
/// reach the same registry in either order, and each caller still finds its
/// own value under its own ticket.
pub proof fn lemma_fills_commute(
    slots: Map<u64, PendingRequest>,
    t1: u64,
    v1: Result<WokrshopItem, ErrorDetail>,
    t2: u64,
    v2: Result<WokrshopItem, ErrorDetail>,
)
    requires
        t1 != t2,
    ensures
        slots.insert(t1, (PendingRequest { result: Some(v1) })).insert(
            t2,
            (PendingRequest { result: Some(v2) }),
        ) == slots.insert(t2, (PendingRequest { result: Some(v2) })).insert(
            t1,
            (PendingRequest { result: Some(v1) }),
        ),
        slots.insert(t1, (PendingRequest { result: Some(v1) })).insert(
            t2,
            (PendingRequest { result: Some(v2) }),
        )[t1] == (PendingRequest { result: Some(v1) }),
        slots.insert(t1, (PendingRequest { result: Some(v1) })).insert(
            t2,
            (PendingRequest { result: Some(v2) }),
        )[t2] == (PendingRequest { result: Some(v2) }),
{
    assert(slots.insert(t1, (PendingRequest { result: Some(v1) })).insert(
        t2,
        (PendingRequest { result: Some(v2) }),
    ) =~= slots.insert(t2, (PendingRequest { result: Some(v2) })).insert(
        t1,
        (PendingRequest { result: Some(v1) }),
    ));
}

} // verus!
