//! The per-protocol message framing engine.
//!
//! One generic engine serves all six protocols. Framing is asymmetric by
//! design:
//!
//! - a request is raw bytes to the end of its substream, with no length
//!   prefix, and is read under a fixed [`crate::protocol::ONE_MIB`] ceiling
//!   whatever the destination protocol — the ceiling bounds
//!   attacker-controlled request sizes independently of the larger response
//!   classes;
//! - a response is one LEB128 length prefix followed by exactly that many
//!   payload bytes, and the declared length is checked against the
//!   protocol's own ceiling *before* any buffer proportional to it is
//!   allocated — several such frames may follow one another on a
//!   longer-lived exchange.

use vstd::prelude::*;

verus! {

use crate::error::CodecError;
use crate::message::{
    copy_range,
    decode_items,
    decode_request,
    encode_items,
    encode_request,
    items_dec,
    items_enc,
    items_fit,
    items_view,
    lemma_items_round_trip,
    request_dec,
    request_enc,
    ItemsDec,
    SyncRequest,
    SyncResponse,
};
use crate::protocol::{Protocol, ONE_MIB};
use crate::varint::{
    decode_varint,
    encode_varint,
    lemma_varint_dec_len,
    lemma_varint_round_trip,
    varint_dec,
    varint_enc,
    VarintDec,
};

/// The codec of one protocol: the four framing operations, bound to the
/// protocol's identifier and response size ceiling.
#[derive(Clone, Copy, Debug, PartialEq, Eq, Structural)]
pub struct SyncCodec {
    pub protocol: Protocol,
}

/// The bytes a request reader actually considers: what arrived before the
/// substream closed, capped at the fixed request ceiling.
pub open spec fn request_window(s: Seq<u8>) -> Seq<u8> {
    if s.len() <= ONE_MIB as nat {
        s
    } else {
        s.subrange(0, ONE_MIB as int)
    }
}

/// The framed wire encoding of a response: length prefix, then payload.
pub open spec fn response_frame_enc(items: Seq<(nat, Seq<u8>)>) -> Seq<u8> {
    varint_enc(items_enc(items).len() as nat) + items_enc(items)
}

/// Outcome of reading one framed response from the front of a byte stream.
pub enum ResponseDec {
    /// A complete frame of `consumed` bytes holding these items.
    Value { items: Seq<(nat, Seq<u8>)>, consumed: nat },
    /// The stream ended inside the prefix or the payload.
    Truncated,
    /// A varint was over-long or over 64 bits.
    Overflow,
    /// The declared length exceeds the protocol's ceiling.
    SizeLimit,
}

/// What reading one framed response from `s` under `limit` yields.
/// The limit is checked on the declared length, before the payload.
pub open spec fn response_frame_dec(s: Seq<u8>, limit: nat) -> ResponseDec {
    match varint_dec(s) {
        VarintDec::Truncated => ResponseDec::Truncated,
        VarintDec::Overflow => ResponseDec::Overflow,
        VarintDec::Value { value: declared, len: n1 } => {
            if declared > limit {
                ResponseDec::SizeLimit
            } else if n1 > s.len() || declared > s.len() - n1 {
                ResponseDec::Truncated
            } else {
                let payload = s.subrange(n1 as int, n1 + declared as int);
                match items_dec(payload) {
                    ItemsDec::Value { items } => ResponseDec::Value {
                        items,
                        consumed: n1 + declared,
                    },
                    ItemsDec::Truncated => ResponseDec::Truncated,
                    ItemsDec::Overflow => ResponseDec::Overflow,
                }
            }
        },
    }
}

impl SyncCodec {
    /// The codec for one protocol of the catalog.
    pub fn new(protocol: Protocol) -> (r: Self)
        ensures
            r.protocol == protocol,
    {
        SyncCodec { protocol }
    }

    /// Reads the single request of a substream. `io` is everything that
    /// arrived before the substream closed; only its first
    /// [`ONE_MIB`] bytes are considered, whatever this codec's protocol.
    pub fn read_request(&self, io: &Vec<u8>) -> (r: Result<SyncRequest, CodecError>)
        ensures
            r == request_dec(request_window(io@)),
    {
        if io.len() <= ONE_MIB {
            proof {
                assert(request_window(io@) == io@);
            }
            decode_request(io)
        } else {
            let capped = copy_range(io, 0, ONE_MIB);
            decode_request(&capped)
        }
    }

    /// Serializes a request: its bare encoding, with no length prefix; the
    /// transport delimits it by closing the substream.
    pub fn write_request(&self, request: SyncRequest) -> (r: Vec<u8>)
        ensures
            r@ == request_enc(request.first_block as nat, request.count as nat),
    {
        encode_request(request)
    }

    /// Reads one framed response from the front of `io`.
    ///
    /// On success also returns how many bytes the frame occupied, so a
    /// caller can read the next frame of the exchange after it. A declared
    /// length over the protocol's ceiling is rejected before any buffer
    /// proportional to it is allocated.
    pub fn read_response(&self, io: &Vec<u8>) -> (r: Result<(SyncResponse, usize), CodecError>)
        ensures
            ({
                let d = response_frame_dec(io@, self.protocol.response_size_limit_spec());
                match r {
                    Ok((response, consumed)) => d == (ResponseDec::Value {
                        items: items_view(response.items@),
                        consumed: consumed as nat,
                    }),
                    Err(CodecError::Truncated) => d is Truncated,
                    Err(CodecError::LengthOverflow) => d is Overflow,
                    Err(CodecError::SizeLimitExceeded) => d is SizeLimit,
                    Err(CodecError::Malformed) => false,
                }
            }),
    {
        proof {
            assert(io@.subrange(0, io@.len() as int) =~= io@);
        }
        let (declared, n1) = match decode_varint(io, 0) {
            Ok(v) => v,
            Err(e) => {
                return Err(e);
            },
        };
        let limit = self.protocol.response_size_limit();
        if declared > limit as u64 {
            return Err(CodecError::SizeLimitExceeded);
        }
        proof {
            lemma_varint_dec_len(io@, crate::varint::MAX_VARINT_LEN as nat);
        }
        let total: usize = io.len();
        if declared > (total - n1) as u64 {
            return Err(CodecError::Truncated);
        }
        let declared_len: usize = declared as usize;
        let payload = copy_range(io, n1, n1 + declared_len);
        match decode_items(&payload) {
            Ok(items) => Ok((SyncResponse { items }, n1 + declared_len)),
            Err(e) => Err(e),
        }
    }

    /// Serializes a response as one length-delimited frame: LEB128 prefix
    /// carrying the payload length, then the payload.
    pub fn write_response(&self, response: &SyncResponse) -> (r: Vec<u8>)
        ensures
            r@ == response_frame_enc(items_view(response.items@)),
    {
        let payload = encode_items(&response.items);
        let mut out: Vec<u8> = Vec::new();
        let payload_len: u64 = payload.len() as u64;
        encode_varint(payload_len, &mut out);
        crate::message::append_bytes(&mut out, &payload);
        proof {
            assert(out@ =~= response_frame_enc(items_view(response.items@)));
        }
        out
    }
}

/// Round trip: a response framed under a protocol's ceiling reads back as
/// the same items, consuming exactly the frame. This also covers the
/// boundary: a frame whose payload sits exactly at the ceiling succeeds.
pub proof fn lemma_response_round_trip(items: Seq<(nat, Seq<u8>)>, limit: nat)
    requires
        items_fit(items),
        items_enc(items).len() <= limit,
        limit <= u64::MAX as nat,
    ensures
        response_frame_dec(response_frame_enc(items), limit) == (ResponseDec::Value {
            items,
            consumed: response_frame_enc(items).len() as nat,
        }),
{
    let payload = items_enc(items);
    let prefix = varint_enc(payload.len() as nat);
    let s = response_frame_enc(items);
    lemma_varint_round_trip(payload.len() as u64, payload);
    assert(s.subrange(prefix.len() as int, prefix.len() + payload.len() as int) =~= payload);
    lemma_items_round_trip(items);
}

/// A response encoded over the ceiling is rejected as a size-limit fault,
/// whatever its content: one byte over the limit already fails, and it
/// fails on the declared length alone.
pub proof fn lemma_oversize_response_rejected(items: Seq<(nat, Seq<u8>)>, limit: nat)
    requires
        items_enc(items).len() > limit,
        items_enc(items).len() <= u64::MAX as nat,
    ensures
        response_frame_dec(response_frame_enc(items), limit) == ResponseDec::SizeLimit,
{
    let payload = items_enc(items);
    lemma_varint_round_trip(payload.len() as u64, payload);
}

} // verus!
