//! The monotonic "current head" cell.
//!
//! A single writer (the event dispatcher) feeds it candidates taken from
//! gossiped block announcements; readers observe a monotonically
//! increasing sequence of heads. An absent value means "unknown", never a
//! default block.

use vstd::prelude::*;

verus! {

/// A block hash, carried through untouched by this layer.
#[derive(Clone, Copy, Debug, PartialEq, Eq)]
pub struct BlockHash {
    pub bytes: [u8; 32],
}

/// A chain head observed through gossip: a block number and its hash.
#[derive(Clone, Copy, Debug, PartialEq, Eq)]
pub struct Head {
    pub block_number: u64,
    pub block_hash: BlockHash,
}

/// Whether a candidate replaces the current head: it does exactly when no
/// head is known yet or its block number is strictly greater.
pub open spec fn head_accepts(current: Option<Head>, candidate: Head) -> bool {
    match current {
        Option::None => true,
        Option::Some(h) => candidate.block_number > h.block_number,
    }
}

/// The head after offering `candidate` to a tracker holding `current`.
pub open spec fn head_next(current: Option<Head>, candidate: Head) -> Option<Head> {
    if head_accepts(current, candidate) {
        Option::Some(candidate)
    } else {
        current
    }
}

/// The single-writer cell holding the latest known chain head.
#[derive(Clone, Copy, Debug, PartialEq, Eq)]
pub struct HeadTracker {
    pub head: Option<Head>,
}

impl HeadTracker {
    /// A tracker that has seen no announcement yet.
    pub fn new() -> (r: Self)
        ensures
            r.head is None,
    {
        HeadTracker { head: Option::None }
    }

    /// The latest known head, if any.
    pub fn current(&self) -> (r: Option<Head>)
        ensures
            r == self.head,
    {
        self.head
    }

    /// Offers a candidate head. The cell changes, and subscribers are to
    /// be notified, exactly when the candidate's block number is strictly
    /// greater than the current one (or no head was known); stale,
    /// duplicate and out-of-order announcements leave it untouched.
    pub fn update(&mut self, candidate: Head) -> (changed: bool)
        ensures
            changed == head_accepts(old(self).head, candidate),
            final(self).head == head_next(old(self).head, candidate),
    {
        let accept: bool = match self.head {
            Option::None => true,
            Option::Some(h) => candidate.block_number > h.block_number,
        };
        if accept {
            self.head = Option::Some(candidate);
        }
        accept
    }
}

/// Head monotonicity: once a head is known, offering any candidate leaves
/// a head whose block number never decreases, and every accepted update
/// strictly increases it. Readers therefore observe a strictly increasing
/// sequence of published heads.
pub proof fn lemma_head_monotonic(current: Option<Head>, candidate: Head)
    requires
        current is Some,
    ensures
        head_next(current, candidate) is Some,
        head_next(current, candidate)->Some_0.block_number >= current->Some_0.block_number,
        head_accepts(current, candidate) ==> head_next(current, candidate)->Some_0.block_number
            > current->Some_0.block_number,
{
}

} // verus!
