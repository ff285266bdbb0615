//! The catalog of the six sync protocols.
//!
//! Each protocol is bound to one immutable identifier string and one
//! response size ceiling. Identifiers are negotiated as distinct
//! application-level protocols by the transport layer.

use vstd::prelude::*;

verus! {

/// One mebibyte: the request ceiling for all protocols and the response
/// ceiling for all protocols but classes.
pub const ONE_MIB: usize = 1024 * 1024;

/// Four mebibytes: the response ceiling for classes, whose bundles carry
/// contract bytecode and are expected larger.
pub const FOUR_MIB: usize = 4 * 1024 * 1024;

/// The six application protocols used to sync chain data between peers.
#[derive(Clone, Copy, Debug, PartialEq, Eq, Structural)]
pub enum Protocol {
    Headers,
    StateDiffs,
    Classes,
    Transactions,
    Receipts,
    Events,
}

impl Protocol {
    /// What [`Protocol::name`] returns for each protocol.
    pub open spec fn name_spec(self) -> Seq<char> {
        match self {
            Protocol::Headers => "/starknet/headers/1"@,
            Protocol::StateDiffs => "/starknet/state_diffs/1"@,
            Protocol::Classes => "/starknet/classes/1"@,
            Protocol::Transactions => "/starknet/transactions/1"@,
            Protocol::Receipts => "/starknet/receipts/1"@,
            Protocol::Events => "/starknet/events/1"@,
        }
    }

    /// The protocol's identifier on the wire.
    pub fn name(&self) -> (r: &'static str)
        ensures
            r@ == self.name_spec(),
    {
        match self {
            Protocol::Headers => "/starknet/headers/1",
            Protocol::StateDiffs => "/starknet/state_diffs/1",
            Protocol::Classes => "/starknet/classes/1",
            Protocol::Transactions => "/starknet/transactions/1",
            Protocol::Receipts => "/starknet/receipts/1",
            Protocol::Events => "/starknet/events/1",
        }
    }

    /// What [`Protocol::response_size_limit`] returns for each protocol.
    pub open spec fn response_size_limit_spec(self) -> nat {
        if self is Classes {
            FOUR_MIB as nat
        } else {
            ONE_MIB as nat
        }
    }

    /// The ceiling enforced on the declared length of an inbound response.
    pub fn response_size_limit(&self) -> (r: usize)
        ensures
            r as nat == self.response_size_limit_spec(),
    {
        match self {
            Protocol::Classes => FOUR_MIB,
            _ => ONE_MIB,
        }
    }

    /// The sequence [`Protocol::all`] returns.
    pub open spec fn all_spec() -> Seq<Protocol> {
        seq![
            Protocol::Headers,
            Protocol::StateDiffs,
            Protocol::Classes,
            Protocol::Transactions,
            Protocol::Receipts,
            Protocol::Events,
        ]
    }

    /// Every protocol, exactly once, in catalog order. The transport layer
    /// uses this to advertise which protocols the node speaks.
    pub fn all() -> (r: Vec<Protocol>)
        ensures
            r@ == Protocol::all_spec(),
    {
        let mut v: Vec<Protocol> = Vec::new();
        v.push(Protocol::Headers);
        v.push(Protocol::StateDiffs);
        v.push(Protocol::Classes);
        v.push(Protocol::Transactions);
        v.push(Protocol::Receipts);
        v.push(Protocol::Events);
        assert(v@ =~= Protocol::all_spec());
        v
    }
}

/// Identifiers are globally unique: two distinct protocols of the catalog
/// never share a name.
pub proof fn lemma_catalog_identifiers_unique(p: Protocol, q: Protocol)
    requires
        p != q,
    ensures
        p.name_spec() != q.name_spec(),
{
    reveal_strlit("/starknet/headers/1");
    reveal_strlit("/starknet/state_diffs/1");
    reveal_strlit("/starknet/classes/1");
    reveal_strlit("/starknet/transactions/1");
    reveal_strlit("/starknet/receipts/1");
    reveal_strlit("/starknet/events/1");
    assert("/starknet/headers/1"@.len() == 19);
    assert("/starknet/state_diffs/1"@.len() == 23);
    assert("/starknet/classes/1"@.len() == 19);
    assert("/starknet/transactions/1"@.len() == 24);
    assert("/starknet/receipts/1"@.len() == 20);
    assert("/starknet/events/1"@.len() == 18);
    // All pairs but headers/classes differ in length; that pair differs at
    // the first character after the common prefix.
    assert("/starknet/headers/1"@[10] != "/starknet/classes/1"@[10]);
}

} // verus!
