//! Domain messages and their byte encoding.
//!
//! A request asks for a contiguous run of blocks; a response carries an
//! ordered list of items, each bound to a block number and carrying an
//! opaque payload. One request and one response shape serve all six
//! protocols; what distinguishes the protocols is their identifier and
//! their response size ceiling, not their framing.
//!
//! Wire shapes (all integers are LEB128 varints):
//! - request: `varint(first_block) varint(count)`, nothing else;
//! - response item: `varint(block_number) varint(payload_len) payload`;
//! - response payload: the items one after another, to the end.

use vstd::prelude::*;

verus! {

use crate::error::CodecError;
use crate::varint::{
    decode_varint,
    encode_varint,
    lemma_varint_dec_len,
    lemma_varint_round_trip,
    varint_dec,
    varint_enc,
    VarintDec,
};

/// A request for a contiguous run of blocks, shared by all six protocols.
#[derive(Clone, Copy, Debug, PartialEq, Eq, Structural)]
pub struct SyncRequest {
    /// The first block the peer is asked for.
    pub first_block: u64,
    /// How many consecutive blocks are asked for.
    pub count: u64,
}

/// One item of a response: a block number and the item's encoded payload.
#[derive(Clone, Debug, PartialEq, Eq)]
pub struct SyncItem {
    /// The block this item belongs to.
    pub block_number: u64,
    /// The item's payload, opaque to the framing layer.
    pub payload: Vec<u8>,
}

/// A collected response: the items for one request, in production order.
#[derive(Clone, Debug, PartialEq, Eq)]
pub struct SyncResponse {
    pub items: Vec<SyncItem>,
}

/// The mathematical value of a sequence of items: pairs of block number
/// and payload bytes.
pub open spec fn items_view(items: Seq<SyncItem>) -> Seq<(nat, Seq<u8>)> {
    Seq::new(items.len(), |i: int| (items[i].block_number as nat, items[i].payload@))
}

/// The wire encoding of a request.
pub open spec fn request_enc(first_block: nat, count: nat) -> Seq<u8> {
    varint_enc(first_block) + varint_enc(count)
}

/// What decoding a request from `s` yields. The whole input must be
/// consumed: a request is delimited by the end of its substream, so
/// trailing bytes are a malformed message.
pub open spec fn request_dec(s: Seq<u8>) -> Result<SyncRequest, CodecError> {
    match varint_dec(s) {
        VarintDec::Truncated => Err(CodecError::Truncated),
        VarintDec::Overflow => Err(CodecError::LengthOverflow),
        VarintDec::Value { value: first_block, len: n1 } => match varint_dec(
            s.subrange(n1 as int, s.len() as int),
        ) {
            VarintDec::Truncated => Err(CodecError::Truncated),
            VarintDec::Overflow => Err(CodecError::LengthOverflow),
            VarintDec::Value { value: count, len: n2 } => {
                if n1 + n2 == s.len() {
                    Ok(SyncRequest { first_block: first_block as u64, count: count as u64 })
                } else {
                    Err(CodecError::Malformed)
                }
            },
        },
    }
}

/// The wire encoding of one item.
pub open spec fn item_enc(block_number: nat, payload: Seq<u8>) -> Seq<u8> {
    varint_enc(block_number) + varint_enc(payload.len() as nat) + payload
}

/// The wire encoding of a sequence of items, one after another.
pub open spec fn items_enc(items: Seq<(nat, Seq<u8>)>) -> Seq<u8>
    decreases items.len(),
{
    if items.len() == 0 {
        Seq::empty()
    } else {
        item_enc(items[0].0, items[0].1) + items_enc(items.drop_first())
    }
}

/// Outcome of decoding a sequence of items from a byte sequence.
pub enum ItemsDec {
    /// The whole input was consumed and held exactly these items.
    Value { items: Seq<(nat, Seq<u8>)> },
    /// The input ended inside an item.
    Truncated,
    /// A varint in the input was over-long or over 64 bits.
    Overflow,
}

/// What decoding items from all of `s` yields.
///
/// A decoded varint always consumes between one byte and the whole input;
/// the explicit range guards restate that so the recursion is visibly
/// decreasing.
pub open spec fn items_dec(s: Seq<u8>) -> ItemsDec
    decreases s.len(),
{
    if s.len() == 0 {
        ItemsDec::Value { items: Seq::empty() }
    } else {
        match varint_dec(s) {
            VarintDec::Truncated => ItemsDec::Truncated,
            VarintDec::Overflow => ItemsDec::Overflow,
            VarintDec::Value { value: block_number, len: n1 } => {
                if n1 < 1 || n1 > s.len() {
                    ItemsDec::Truncated
                } else {
                    let s1 = s.subrange(n1 as int, s.len() as int);
                    match varint_dec(s1) {
                        VarintDec::Truncated => ItemsDec::Truncated,
                        VarintDec::Overflow => ItemsDec::Overflow,
                        VarintDec::Value { value: payload_len, len: n2 } => {
                            if n2 < 1 || n2 > s1.len() {
                                ItemsDec::Truncated
                            } else {
                                let s2 = s1.subrange(n2 as int, s1.len() as int);
                                if payload_len > s2.len() {
                                    ItemsDec::Truncated
                                } else {
                                    let payload = s2.subrange(0, payload_len as int);
                                    let rest = s2.subrange(payload_len as int, s2.len() as int);
                                    match items_dec(rest) {
                                        ItemsDec::Value { items } => ItemsDec::Value {
                                            items: seq![(block_number, payload)] + items,
                                        },
                                        e => e,
                                    }
                                }
                            }
                        },
                    }
                }
            },
        }
    }
}

/// Encodes a request; no length prefix, the substream's end delimits it.
pub fn encode_request(request: SyncRequest) -> (r: Vec<u8>)
    ensures
        r@ == request_enc(request.first_block as nat, request.count as nat),
{
    let mut out: Vec<u8> = Vec::new();
    encode_varint(request.first_block, &mut out);
    encode_varint(request.count, &mut out);
    assert(out@ =~= request_enc(request.first_block as nat, request.count as nat));
    out
}

/// Decodes a request from the whole of `buf`, as [`request_dec`] says.
pub fn decode_request(buf: &Vec<u8>) -> (r: Result<SyncRequest, CodecError>)
    ensures
        r == request_dec(buf@),
{
    proof {
        assert(buf@.subrange(0, buf@.len() as int) =~= buf@);
    }
    match decode_varint(buf, 0) {
        Err(e) => Err(e),
        Ok((first_block, n1)) => match decode_varint(buf, n1) {
            Err(e) => Err(e),
            Ok((count, n2)) => {
                let total: usize = buf.len();
                if n1 + n2 == total {
                    Ok(SyncRequest { first_block, count })
                } else {
                    Err(CodecError::Malformed)
                }
            },
        },
    }
}

/// Round trip: an encoded request decodes back to itself.
pub proof fn lemma_request_round_trip(request: SyncRequest)
    ensures
        request_dec(request_enc(request.first_block as nat, request.count as nat))
            == Ok::<SyncRequest, CodecError>(request),
{
    let e1 = varint_enc(request.first_block as nat);
    let e2 = varint_enc(request.count as nat);
    let s = request_enc(request.first_block as nat, request.count as nat);
    lemma_varint_round_trip(request.first_block, e2);
    assert(s.subrange(e1.len() as int, s.len() as int) =~= e2 + Seq::<u8>::empty());
    lemma_varint_round_trip(request.count, Seq::empty());
}

/// Copies `buf[from..to]` into a fresh vector.
pub fn copy_range(buf: &Vec<u8>, from: usize, to: usize) -> (r: Vec<u8>)
    requires
        from <= to <= buf@.len(),
    ensures
        r@ == buf@.subrange(from as int, to as int),
{
    let mut out: Vec<u8> = Vec::new();
    let mut i: usize = from;
    while i < to
        invariant
            from <= i <= to <= buf@.len(),
            out@ == buf@.subrange(from as int, i as int),
        decreases to - i,
    {
        out.push(buf[i]);
        i = i + 1;
        assert(out@ =~= buf@.subrange(from as int, i as int));
    }
    out
}

/// Appends all of `src` to `out`.
pub fn append_bytes(out: &mut Vec<u8>, src: &Vec<u8>)
    ensures
        final(out)@ == old(out)@ + src@,
{
    let mut i: usize = 0;
    while i < src.len()
        invariant
            i <= src@.len(),
            out@ == old(out)@ + src@.subrange(0, i as int),
        decreases src@.len() - i,
    {
        out.push(src[i]);
        i = i + 1;
        assert(out@ =~= old(out)@ + src@.subrange(0, i as int));
    }
    assert(out@ =~= old(out)@ + src@);
}

/// The items of `items.push(it)` are the items of `items` followed by the
/// value of `it`.
pub proof fn lemma_items_view_push(items: Seq<SyncItem>, it: SyncItem)
    ensures
        items_view(items.push(it)) =~= items_view(items).push(
            (it.block_number as nat, it.payload@),
        ),
{
}

/// Encodes items back to back, as [`items_enc`] says.
pub fn encode_items(items: &Vec<SyncItem>) -> (r: Vec<u8>)
    ensures
        r@ == items_enc(items_view(items@)),
{
    let ghost full = items_view(items@);
    let mut out: Vec<u8> = Vec::new();
    let mut i: usize = 0;
    proof {
        assert(items_view(items@).skip(0) =~= full);
        assert(out@ + items_enc(full) =~= items_enc(full));
    }
    while i < items.len()
        invariant
            i <= items@.len(),
            full == items_view(items@),
            items_enc(full) == out@ + items_enc(items_view(items@).skip(i as int)),
        decreases items@.len() - i,
    {
        let ghost pending = items_view(items@).skip(i as int);
        proof {
            assert(pending[0] == (items@[i as int].block_number as nat, items@[i as int].payload@));
            assert(pending.drop_first() =~= items_view(items@).skip(i as int + 1));
        }
        let item = &items[i];
        encode_varint(item.block_number, &mut out);
        let len64: u64 = item.payload.len() as u64;
        encode_varint(len64, &mut out);
        append_bytes(&mut out, &item.payload);
        i = i + 1;
        proof {
            assert(items_enc(pending) == item_enc(pending[0].0, pending[0].1) + items_enc(
                pending.drop_first(),
            ));
            assert(items_enc(full) =~= out@ + items_enc(items_view(items@).skip(i as int)));
        }
    }
    proof {
        assert(items_view(items@).skip(items@.len() as int) =~= Seq::<(nat, Seq<u8>)>::empty());
        assert(out@ =~= items_enc(full));
    }
    out
}

/// Decodes items from the whole of `buf`, as [`items_dec`] says. Block
/// numbers and payload lengths over 64 bits are rejected.
pub fn decode_items(buf: &Vec<u8>) -> (r: Result<Vec<SyncItem>, CodecError>)
    ensures
        ({
            match r {
                Ok(items) => items_dec(buf@) == (ItemsDec::Value { items: items_view(items@) }),
                Err(CodecError::Truncated) => items_dec(buf@) is Truncated,
                Err(CodecError::LengthOverflow) => items_dec(buf@) is Overflow,
                Err(_) => false,
            }
        }),
{
    let mut items: Vec<SyncItem> = Vec::new();
    let mut pos: usize = 0;
    proof {
        assert(buf@.subrange(0, buf@.len() as int) =~= buf@);
        assert(items_view(items@) =~= Seq::<(nat, Seq<u8>)>::empty());
        match items_dec(buf@) {
            ItemsDec::Value { items: t } => {
                assert(items_view(items@) + t =~= t);
            },
            _ => {},
        }
    }
    loop
        invariant
            pos <= buf@.len(),
            items_dec(buf@) == items_dec_prepend(
                items_view(items@),
                items_dec(buf@.subrange(pos as int, buf@.len() as int)),
            ),
        decreases buf@.len() - pos,
    {
        let ghost rem = buf@.subrange(pos as int, buf@.len() as int);
        if pos == buf.len() {
            proof {
                assert(rem =~= Seq::<u8>::empty());
                assert(items_view(items@) + Seq::<(nat, Seq<u8>)>::empty() =~= items_view(items@));
            }
            return Ok(items);
        }
        let (block_number, n1) = match decode_varint(buf, pos) {
            Ok(v) => v,
            Err(e) => {
                return Err(e);
            },
        };
        proof {
            lemma_varint_dec_len(rem, crate::varint::MAX_VARINT_LEN as nat);
            assert(rem.subrange(n1 as int, rem.len() as int) =~= buf@.subrange(
                pos as int + n1 as int,
                buf@.len() as int,
            ));
        }
        let pos2: usize = pos + n1;
        let ghost rem1 = buf@.subrange(pos2 as int, buf@.len() as int);
        let (payload_len, n2) = match decode_varint(buf, pos2) {
            Ok(v) => v,
            Err(e) => {
                return Err(e);
            },
        };
        proof {
            lemma_varint_dec_len(rem1, crate::varint::MAX_VARINT_LEN as nat);
            assert(rem1.subrange(n2 as int, rem1.len() as int) =~= buf@.subrange(
                pos2 as int + n2 as int,
                buf@.len() as int,
            ));
        }
        let pos3: usize = pos2 + n2;
        let ghost rem2 = buf@.subrange(pos3 as int, buf@.len() as int);
        if payload_len > (buf.len() - pos3) as u64 {
            return Err(CodecError::Truncated);
        }
        let plen: usize = payload_len as usize;
        let payload = copy_range(buf, pos3, pos3 + plen);
        proof {
            assert(payload@ =~= rem2.subrange(0, payload_len as int));
            assert(rem2.subrange(payload_len as int, rem2.len() as int) =~= buf@.subrange(
                pos3 as int + plen as int,
                buf@.len() as int,
            ));
        }
        let ghost before = items_view(items@);
        let it = SyncItem { block_number, payload };
        items.push(it);
        pos = pos3 + plen;
        proof {
            lemma_items_view_push(items@.drop_last(), it);
            assert(items@.drop_last() =~= items@.subrange(0, items@.len() - 1));
            assert(items_view(items@) =~= before.push((block_number as nat, it.payload@)));
            let tail = buf@.subrange(pos as int, buf@.len() as int);
            assert(items_dec(rem) == items_dec_prepend(
                seq![(block_number as nat, it.payload@)],
                items_dec(tail),
            ));
            assert(items_dec(buf@) == items_dec_prepend(items_view(items@), items_dec(tail)))
                by {
                match items_dec(tail) {
                    ItemsDec::Value { items: t } => {
                        assert(before + (seq![(block_number as nat, it.payload@)] + t)
                            =~= before.push((block_number as nat, it.payload@)) + t);
                    },
                    _ => {},
                }
            }
        }
    }
}

/// Prepends already-decoded items to a decode outcome.
pub open spec fn items_dec_prepend(prefix: Seq<(nat, Seq<u8>)>, d: ItemsDec) -> ItemsDec {
    match d {
        ItemsDec::Value { items } => ItemsDec::Value { items: prefix + items },
        e => e,
    }
}

/// Every block number and payload length of `items` fits in 64 bits, so
/// the items can appear in an executable response.
pub open spec fn items_fit(items: Seq<(nat, Seq<u8>)>) -> bool {
    forall|i: int|
        0 <= i < items.len() ==> items[i].0 <= u64::MAX as nat && items[i].1.len() <= u64::MAX
            as nat
}

/// Round trip: encoded items decode back to themselves.
#[verifier::rlimit(100)]
pub proof fn lemma_items_round_trip(items: Seq<(nat, Seq<u8>)>)
    requires
        items_fit(items),
    ensures
        items_dec(items_enc(items)) == (ItemsDec::Value { items }),
    decreases items.len(),
{
    if items.len() == 0 {
        assert(items =~= Seq::<(nat, Seq<u8>)>::empty());
    } else {
        let block_number = items[0].0;
        let payload = items[0].1;
        let e1 = varint_enc(block_number);
        let e2 = varint_enc(payload.len() as nat);
        let enc_rest = items_enc(items.drop_first());
        let s = items_enc(items);
        assert(s =~= e1 + (e2 + (payload + enc_rest)));
        lemma_varint_round_trip(block_number as u64, e2 + (payload + enc_rest));
        assert(s.len() > 0);
        let s1 = s.subrange(e1.len() as int, s.len() as int);
        assert(s1 =~= e2 + (payload + enc_rest));
        lemma_varint_round_trip(payload.len() as u64, payload + enc_rest);
        let s2 = s1.subrange(e2.len() as int, s1.len() as int);
        assert(s2 =~= payload + enc_rest);
        assert(s2.subrange(0, payload.len() as int) =~= payload);
        assert(s2.subrange(payload.len() as int, s2.len() as int) =~= enc_rest);
        lemma_items_round_trip(items.drop_first());
        assert(seq![(block_number, payload)] + items.drop_first() =~= items);
    }
}

} // verus!
