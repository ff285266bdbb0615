//! The event dispatcher's decision logic.
//!
//! The control loop races the supervised network-engine task against the
//! next inbound event; engine termination is fatal, everything else is
//! handed to [`Dispatcher::handle_event`]. That function is the pure core
//! of the loop: it decides, for every event, what unit of work follows and
//! how the tracked head changes. The surrounding runtime performs the
//! returned [`Action`] — spawning a producer, answering inline, or
//! publishing a new head — so one slow or failing request never stops the
//! decisions for the events after it.

use vstd::prelude::*;

verus! {

use crate::head::{head_accepts, head_next, BlockHash, Head, HeadTracker};
use crate::message::SyncRequest;
use crate::protocol::Protocol;

/// One part of a gossiped block announcement.
#[derive(Clone, Copy, Debug, PartialEq, Eq)]
pub enum PropagationPart {
    /// The header part: the only part this layer reads.
    Header { block_number: u64, block_hash: BlockHash },
    /// Any other payload shape; ignored without error.
    Other,
}

/// The payload of a block announcement received over gossip.
#[derive(Clone, Debug, PartialEq, Eq)]
pub enum NewBlock {
    /// A header announcement, carrying its parts in wire order.
    Header { parts: Vec<PropagationPart> },
    /// Any other announcement shape; ignored without error.
    Other,
}

/// An inbound event, created by the transport layer and consumed exactly
/// once by the dispatcher.
#[derive(Clone, Debug, PartialEq, Eq)]
pub enum Event {
    /// A sync request on one of the six protocols. `channel` is the opaque
    /// token correlating the request to the single response that must
    /// eventually be sent on it; it is passed through untouched.
    InboundSyncRequest { protocol: Protocol, request: SyncRequest, channel: u64 },
    /// An unsolicited block announcement from a peer.
    BlockPropagation { from: u64, new_block: NewBlock },
    /// A peer finished connecting; reserved for future extension.
    SyncPeerConnected { peer: u64 },
    /// A test marker; reserved for future extension.
    Test { value: u64 },
}

/// What the runtime is to do with an event, as decided by the dispatcher.
#[derive(Clone, Copy, Debug, PartialEq, Eq)]
pub enum Action {
    /// Answer a headers request inline on the control loop: its contract
    /// expects exactly one item, so it is not drained as a list. A slow
    /// headers producer therefore stalls the loop — a documented
    /// trade-off, not an accident.
    RespondHeadersInline { request: SyncRequest, channel: u64 },
    /// Spawn an independently supervised producer for one of the five
    /// list protocols, bridge its items into a single response, and send
    /// that on the channel.
    SpawnListResponder { protocol: Protocol, request: SyncRequest, channel: u64 },
    /// A strictly newer head was announced: publish it to subscribers.
    PublishHead { head: Head },
    /// Nothing to do.
    Ignore,
}

/// The head candidate of an announcement: the block number and hash of
/// the *last* part, if that part is a header. Everything else carries no
/// candidate.
pub open spec fn head_candidate_spec(new_block: NewBlock) -> Option<Head> {
    match new_block {
        NewBlock::Header { parts } => {
            if parts@.len() > 0 {
                match parts@.last() {
                    PropagationPart::Header { block_number, block_hash } => Option::Some(
                        Head { block_number, block_hash },
                    ),
                    PropagationPart::Other => Option::None,
                }
            } else {
                Option::None
            }
        },
        NewBlock::Other => Option::None,
    }
}

/// Extracts the head candidate of an announcement, as
/// [`head_candidate_spec`] says.
pub fn head_candidate(new_block: &NewBlock) -> (r: Option<Head>)
    ensures
        r == head_candidate_spec(*new_block),
{
    match new_block {
        NewBlock::Header { parts } => {
            if parts.len() > 0 {
                let last = parts[parts.len() - 1];
                match last {
                    PropagationPart::Header { block_number, block_hash } => Option::Some(
                        Head { block_number, block_hash },
                    ),
                    PropagationPart::Other => Option::None,
                }
            } else {
                Option::None
            }
        },
        NewBlock::Other => Option::None,
    }
}

/// The tracked head after one event: only a header announcement whose
/// candidate is strictly newer changes it.
pub open spec fn dispatch_next_head(current: Option<Head>, event: Event) -> Option<Head> {
    match event {
        Event::BlockPropagation { from, new_block } => match head_candidate_spec(new_block) {
            Option::Some(candidate) => head_next(current, candidate),
            Option::None => current,
        },
        _ => current,
    }
}

/// The action one event maps to, given the tracked head.
pub open spec fn dispatch_action_spec(current: Option<Head>, event: Event) -> Action {
    match event {
        Event::InboundSyncRequest { protocol, request, channel } => {
            if protocol is Headers {
                Action::RespondHeadersInline { request, channel }
            } else {
                Action::SpawnListResponder { protocol, request, channel }
            }
        },
        Event::BlockPropagation { from, new_block } => match head_candidate_spec(new_block) {
            Option::Some(candidate) => {
                if head_accepts(current, candidate) {
                    Action::PublishHead { head: candidate }
                } else {
                    Action::Ignore
                }
            },
            Option::None => Action::Ignore,
        },
        _ => Action::Ignore,
    }
}

/// The dispatcher's state: the head cell it is the single writer of.
pub struct Dispatcher {
    pub head: HeadTracker,
}

impl Dispatcher {
    /// A dispatcher that has handled no event yet.
    pub fn new() -> (r: Self)
        ensures
            r.head.head is None,
    {
        Dispatcher { head: HeadTracker::new() }
    }

    /// The latest head known to the dispatcher, if any.
    pub fn current_head(&self) -> (r: Option<Head>)
        ensures
            r == self.head.head,
    {
        self.head.current()
    }

    /// Handles one inbound event: updates the head exactly as
    /// [`dispatch_next_head`] says and returns the action the runtime is
    /// to perform, as [`dispatch_action_spec`] says. Total over all
    /// events: no event, however malformed its announcement, stops the
    /// loop from servicing the events after it.
    pub fn handle_event(&mut self, event: &Event) -> (a: Action)
        ensures
            final(self).head.head == dispatch_next_head(old(self).head.head, *event),
            a == dispatch_action_spec(old(self).head.head, *event),
    {
        match event {
            Event::InboundSyncRequest { protocol, request, channel } => {
                match protocol {
                    Protocol::Headers => Action::RespondHeadersInline {
                        request: *request,
                        channel: *channel,
                    },
                    _ => Action::SpawnListResponder {
                        protocol: *protocol,
                        request: *request,
                        channel: *channel,
                    },
                }
            },
            Event::BlockPropagation { from, new_block } => {
                match head_candidate(new_block) {
                    Option::Some(candidate) => {
                        let changed = self.head.update(candidate);
                        if changed {
                            Action::PublishHead { head: candidate }
                        } else {
                            Action::Ignore
                        }
                    },
                    Option::None => Action::Ignore,
                }
            },
            Event::SyncPeerConnected { peer } => Action::Ignore,
            Event::Test { value } => Action::Ignore,
        }
    }
}

} // verus!
