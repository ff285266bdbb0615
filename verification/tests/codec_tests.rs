//! Framing and codec behaviour, including boundary and hostile inputs.

use p2p_sync::codec::SyncCodec;
use p2p_sync::error::CodecError;
use p2p_sync::message::{SyncItem, SyncRequest, SyncResponse};
use p2p_sync::protocol::Protocol;
use p2p_sync::varint::{decode_varint, encode_varint};

const ONE_MIB: usize = 1024 * 1024;

fn enc(v: u64) -> Vec<u8> {
    let mut out = Vec::new();
    encode_varint(v, &mut out);
    out
}

#[test]
fn varint_round_trip_edges() {
    for v in [0u64, 1, 127, 128, 129, 300, 16383, 16384, 1048572, u64::MAX] {
        let bytes = enc(v);
        assert_eq!(decode_varint(&bytes, 0), Ok((v, bytes.len())));
    }
}

#[test]
fn varint_known_encodings() {
    assert_eq!(enc(0), vec![0x00]);
    assert_eq!(enc(127), vec![0x7f]);
    assert_eq!(enc(128), vec![0x80, 0x01]);
    assert_eq!(enc(300), vec![0xac, 0x02]);
    assert_eq!(
        enc(u64::MAX),
        vec![0xff, 0xff, 0xff, 0xff, 0xff, 0xff, 0xff, 0xff, 0xff, 0x01]
    );
}

#[test]
fn varint_non_canonical_zero_decodes() {
    let bytes = vec![0x80, 0x00];
    assert_eq!(decode_varint(&bytes, 0), Ok((0, 2)));
}

#[test]
fn varint_truncated_input() {
    assert_eq!(decode_varint(&vec![], 0), Err(CodecError::Truncated));
    assert_eq!(decode_varint(&vec![0x80], 0), Err(CodecError::Truncated));
    assert_eq!(
        decode_varint(&vec![0xff, 0xff], 0),
        Err(CodecError::Truncated)
    );
}

#[test]
fn varint_overlong_and_overflow_rejected() {
    // Eleven bytes with continuation bits never fit the ten-byte cap.
    let overlong = vec![0x80, 0x80, 0x80, 0x80, 0x80, 0x80, 0x80, 0x80, 0x80, 0x80, 0x01];
    assert_eq!(decode_varint(&overlong, 0), Err(CodecError::LengthOverflow));
    // Ten bytes whose value is 2^64 overflow a u64.
    let too_big = vec![0x80, 0x80, 0x80, 0x80, 0x80, 0x80, 0x80, 0x80, 0x80, 0x02];
    assert_eq!(decode_varint(&too_big, 0), Err(CodecError::LengthOverflow));
}

#[test]
fn varint_matches_reference_implementation() {
    for v in [0u64, 1, 127, 128, 300, 16384, 1048576, 4194305, u64::MAX] {
        let mut buf = unsigned_varint::encode::u64_buffer();
        let reference = unsigned_varint::encode::u64(v, &mut buf);
        assert_eq!(enc(v).as_slice(), reference);
        let (rv, rest) = unsigned_varint::decode::u64(reference).unwrap();
        assert_eq!(rv, v);
        assert!(rest.is_empty());
    }
}

#[test]
fn request_round_trip_all_protocols() {
    let mut all = Protocol::all();
    assert_eq!(all.len(), 6);
    for protocol in all.drain(..) {
        let codec = SyncCodec::new(protocol);
        let request = SyncRequest {
            first_block: 100,
            count: 6,
        };
        let bytes = codec.write_request(request);
        assert_eq!(codec.read_request(&bytes), Ok(request));
    }
}

#[test]
fn request_with_trailing_bytes_is_malformed() {
    let codec = SyncCodec::new(Protocol::Headers);
    let mut bytes = codec.write_request(SyncRequest {
        first_block: 1,
        count: 2,
    });
    bytes.push(0);
    assert_eq!(codec.read_request(&bytes), Err(CodecError::Malformed));
}

#[test]
fn request_truncated_and_oversized() {
    let codec = SyncCodec::new(Protocol::Events);
    assert_eq!(codec.read_request(&vec![]), Err(CodecError::Truncated));
    assert_eq!(
        codec.read_request(&vec![0x80]),
        Err(CodecError::Truncated)
    );
    // Anything beyond the fixed request ceiling is not even considered.
    let huge = vec![0u8; ONE_MIB + 17];
    assert_eq!(codec.read_request(&huge), Err(CodecError::Malformed));
}

fn item(block_number: u64, payload: Vec<u8>) -> SyncItem {
    SyncItem {
        block_number,
        payload,
    }
}

#[test]
fn response_round_trip_all_protocols() {
    let mut all = Protocol::all();
    for protocol in all.drain(..) {
        let codec = SyncCodec::new(protocol);
        let response = SyncResponse {
            items: vec![
                item(7, vec![1, 2, 3]),
                item(8, vec![]),
                item(9, vec![0xff; 300]),
            ],
        };
        let bytes = codec.write_response(&response);
        let (decoded, consumed) = codec.read_response(&bytes).unwrap();
        assert_eq!(decoded, response);
        assert_eq!(consumed, bytes.len());
    }
}

#[test]
fn empty_response_round_trips() {
    let codec = SyncCodec::new(Protocol::Receipts);
    let response = SyncResponse { items: vec![] };
    let bytes = codec.write_response(&response);
    assert_eq!(bytes, vec![0x00]);
    let (decoded, consumed) = codec.read_response(&bytes).unwrap();
    assert_eq!(decoded.items.len(), 0);
    assert_eq!(consumed, 1);
}

#[test]
fn two_frames_read_back_to_back() {
    let codec = SyncCodec::new(Protocol::Transactions);
    let first = SyncResponse {
        items: vec![item(1, vec![0xaa])],
    };
    let second = SyncResponse {
        items: vec![item(2, vec![0xbb, 0xcc])],
    };
    let mut stream = codec.write_response(&first);
    stream.extend(codec.write_response(&second));
    let (decoded, consumed) = codec.read_response(&stream).unwrap();
    assert_eq!(decoded, first);
    let rest: Vec<u8> = stream[consumed..].to_vec();
    let (decoded2, consumed2) = codec.read_response(&rest).unwrap();
    assert_eq!(decoded2, second);
    assert_eq!(consumed + consumed2, stream.len());
}

/// A payload of exactly `total` bytes: one item whose header (one byte of
/// block number, plus the varint of the payload length) and payload fill it.
fn response_with_payload_len(total: usize) -> SyncResponse {
    for overhead in 2..=11 {
        let len = total - overhead;
        let prefix = enc(len as u64);
        if 1 + prefix.len() + len == total {
            return SyncResponse {
                items: vec![item(1, vec![0x55; len])],
            };
        }
    }
    panic!("no payload length fits a total of {total}");
}

#[test]
fn response_exactly_at_limit_decodes() {
    let codec = SyncCodec::new(Protocol::Headers);
    let response = response_with_payload_len(ONE_MIB);
    let bytes = codec.write_response(&response);
    let (decoded, consumed) = codec.read_response(&bytes).unwrap();
    assert_eq!(decoded, response);
    assert_eq!(consumed, bytes.len());
}

#[test]
fn response_one_byte_over_limit_rejected() {
    let codec = SyncCodec::new(Protocol::Headers);
    let response = response_with_payload_len(ONE_MIB + 1);
    let bytes = codec.write_response(&response);
    assert_eq!(
        codec.read_response(&bytes),
        Err(CodecError::SizeLimitExceeded)
    );
}

#[test]
fn classes_limit_is_four_mib() {
    let codec = SyncCodec::new(Protocol::Classes);
    let at_limit = response_with_payload_len(4 * ONE_MIB);
    let bytes = codec.write_response(&at_limit);
    assert!(codec.read_response(&bytes).is_ok());
    let over = response_with_payload_len(4 * ONE_MIB + 1);
    let bytes = codec.write_response(&over);
    assert_eq!(
        codec.read_response(&bytes),
        Err(CodecError::SizeLimitExceeded)
    );
}

#[test]
fn hostile_declared_length_rejected_before_payload() {
    // The header declares four mebibytes and one byte for a protocol whose
    // ceiling is one mebibyte; no payload is even present, yet the reader
    // must fail on the declared length alone, not on the missing payload.
    let codec = SyncCodec::new(Protocol::Events);
    let header_only = enc((4 * ONE_MIB + 1) as u64);
    assert_eq!(
        codec.read_response(&header_only),
        Err(CodecError::SizeLimitExceeded)
    );
}

#[test]
fn truncated_response_payload_rejected() {
    let codec = SyncCodec::new(Protocol::Events);
    let response = SyncResponse {
        items: vec![item(3, vec![9, 9, 9, 9])],
    };
    let mut bytes = codec.write_response(&response);
    bytes.pop();
    assert_eq!(codec.read_response(&bytes), Err(CodecError::Truncated));
}

#[test]
fn response_item_with_overlong_varint_rejected() {
    // A frame of eleven continuation bytes where an item's block number
    // should be.
    let payload = vec![0x80u8, 0x80, 0x80, 0x80, 0x80, 0x80, 0x80, 0x80, 0x80, 0x80, 0x01];
    let mut bytes = enc(payload.len() as u64);
    bytes.extend(payload);
    let codec = SyncCodec::new(Protocol::StateDiffs);
    assert_eq!(
        codec.read_response(&bytes),
        Err(CodecError::LengthOverflow)
    );
}

#[test]
fn error_descriptions_are_distinct() {
    let all = [
        CodecError::Truncated,
        CodecError::LengthOverflow,
        CodecError::SizeLimitExceeded,
        CodecError::Malformed,
    ];
    for (i, a) in all.iter().enumerate() {
        for (j, b) in all.iter().enumerate() {
            assert_eq!(i == j, a.describe() == b.describe());
        }
    }
}
