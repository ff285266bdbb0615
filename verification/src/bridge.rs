//! The stream-to-response bridge.
//!
//! An external producer pushes zero or more items onto a bounded channel
//! of capacity one and then reports success or failure; the wire wants a
//! single collected response. The collector here is the verified core of
//! that bridge: the caller drains the channel into it in arrival order
//! and closes it with the producer's outcome. A failed producer still
//! yields whatever was collected before the failure — a local handler
//! error degrades to a partial answer, never to a connection-level fault.

use vstd::prelude::*;

verus! {

use crate::message::{items_view, SyncItem, SyncResponse};

/// How the producer of one request's items ended.
#[derive(Clone, Copy, Debug, PartialEq, Eq, Structural)]
pub enum ProducerOutcome {
    /// The producer ran to completion.
    Completed,
    /// The producer returned an error or its task ended abnormally.
    Failed,
}

/// What a collection run yields: the items collected before the producer
/// ended, whatever its outcome.
pub open spec fn collected_items(items: Seq<SyncItem>, outcome: ProducerOutcome) -> Seq<SyncItem> {
    items
}

/// Collects the items of one response in production order.
pub struct ResponseCollector {
    pub items: Vec<SyncItem>,
}

impl ResponseCollector {
    /// An empty collector.
    pub fn new() -> (r: Self)
        ensures
            r.items@ == Seq::<SyncItem>::empty(),
    {
        ResponseCollector { items: Vec::new() }
    }

    /// Takes the next item off the channel; emission order is preserved.
    pub fn push(&mut self, item: SyncItem)
        ensures
            final(self).items@ == old(self).items@.push(item),
    {
        self.items.push(item);
    }

    /// Closes the run with the producer's outcome and yields the single
    /// collected response. The outcome does not change the response: a
    /// failure is the caller's to log, not the peer's to see.
    pub fn finish(self, outcome: ProducerOutcome) -> (r: SyncResponse)
        ensures
            r.items@ == collected_items(self.items@, outcome),
    {
        SyncResponse { items: self.items }
    }
}

/// Drains an already-received run of items into a single response.
/// Order preservation: a producer that emitted `produced` yields a
/// response carrying exactly `produced`, in that order.
pub fn collect(produced: Vec<SyncItem>, outcome: ProducerOutcome) -> (r: SyncResponse)
    ensures
        r.items@ == produced@,
{
    let mut collector = ResponseCollector::new();
    let mut rest = produced;
    let ghost all = rest@;
    proof {
        assert(collector.items@ + rest@ =~= all);
    }
    while rest.len() > 0
        invariant
            collector.items@ + rest@ == all,
        decreases rest@.len(),
    {
        let item = rest.remove(0);
        collector.push(item);
        assert(collector.items@ + rest@ =~= all);
    }
    assert(collector.items@ =~= all);
    collector.finish(outcome)
}

/// Failure isolation, stated over the collector: the producer's outcome
/// never changes what is answered — two runs that collected the same
/// items respond identically, whether the producers completed or failed.
pub proof fn lemma_outcome_does_not_change_response(
    items: Seq<SyncItem>,
    a: ProducerOutcome,
    b: ProducerOutcome,
)
    ensures
        collected_items(items, a) == collected_items(items, b),
{
}

/// The headers protocol expects exactly one item rather than a list: its
/// response is the first produced item, used directly. A producer that
/// emitted nothing yields no response.
pub fn take_first(produced: Vec<SyncItem>) -> (r: Option<SyncItem>)
    ensures
        produced@.len() > 0 ==> r == Option::Some(produced@[0]),
        produced@.len() == 0 ==> r is None,
{
    let mut rest = produced;
    if rest.len() > 0 {
        let first = rest.remove(0);
        Option::Some(first)
    } else {
        Option::None
    }
}

} // verus!
