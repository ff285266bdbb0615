//! Dispatcher, head tracker and bridge behaviour.

use p2p_sync::bridge::{collect, take_first, ProducerOutcome, ResponseCollector};
use p2p_sync::codec::SyncCodec;
use p2p_sync::dispatch::{Action, Dispatcher, Event, NewBlock, PropagationPart};
use p2p_sync::head::{BlockHash, Head, HeadTracker};
use p2p_sync::message::{SyncItem, SyncRequest};
use p2p_sync::protocol::Protocol;

fn hash(tag: u8) -> BlockHash {
    BlockHash { bytes: [tag; 32] }
}

fn announcement(block_number: u64) -> Event {
    Event::BlockPropagation {
        from: 42,
        new_block: NewBlock::Header {
            parts: vec![PropagationPart::Header {
                block_number,
                block_hash: hash(block_number as u8),
            }],
        },
    }
}

fn item(block_number: u64, payload: Vec<u8>) -> SyncItem {
    SyncItem {
        block_number,
        payload,
    }
}

#[test]
fn head_update_is_monotonic() {
    let mut tracker = HeadTracker::new();
    assert_eq!(tracker.current(), None);
    assert!(tracker.update(Head {
        block_number: 5,
        block_hash: hash(5)
    }));
    assert!(!tracker.update(Head {
        block_number: 5,
        block_hash: hash(99)
    }));
    assert!(!tracker.update(Head {
        block_number: 3,
        block_hash: hash(3)
    }));
    assert!(tracker.update(Head {
        block_number: 9,
        block_hash: hash(9)
    }));
    assert_eq!(tracker.current().unwrap().block_number, 9);
}

#[test]
fn published_heads_are_strictly_increasing() {
    // Announcements 5, 3, 5, 9, 7 publish exactly 5 then 9.
    let mut dispatcher = Dispatcher::new();
    let mut published = Vec::new();
    for n in [5u64, 3, 5, 9, 7] {
        match dispatcher.handle_event(&announcement(n)) {
            Action::PublishHead { head } => published.push(head.block_number),
            Action::Ignore => {}
            other => panic!("unexpected action: {:?}", other),
        }
    }
    assert_eq!(published, vec![5, 9]);
    assert_eq!(dispatcher.current_head().unwrap().block_number, 9);
    assert_eq!(dispatcher.current_head().unwrap().block_hash, hash(9));
}

#[test]
fn only_last_header_part_counts() {
    let mut dispatcher = Dispatcher::new();
    // The meaningful part is the last one; a trailing non-header part
    // makes the announcement carry no candidate.
    let trailing_other = Event::BlockPropagation {
        from: 7,
        new_block: NewBlock::Header {
            parts: vec![
                PropagationPart::Header {
                    block_number: 11,
                    block_hash: hash(11),
                },
                PropagationPart::Other,
            ],
        },
    };
    assert_eq!(dispatcher.handle_event(&trailing_other), Action::Ignore);
    assert_eq!(dispatcher.current_head(), None);

    let trailing_header = Event::BlockPropagation {
        from: 7,
        new_block: NewBlock::Header {
            parts: vec![
                PropagationPart::Other,
                PropagationPart::Header {
                    block_number: 12,
                    block_hash: hash(12),
                },
            ],
        },
    };
    match dispatcher.handle_event(&trailing_header) {
        Action::PublishHead { head } => assert_eq!(head.block_number, 12),
        other => panic!("unexpected action: {:?}", other),
    }
}

#[test]
fn empty_or_foreign_announcements_are_ignored() {
    let mut dispatcher = Dispatcher::new();
    let empty = Event::BlockPropagation {
        from: 1,
        new_block: NewBlock::Header { parts: vec![] },
    };
    assert_eq!(dispatcher.handle_event(&empty), Action::Ignore);
    let other = Event::BlockPropagation {
        from: 1,
        new_block: NewBlock::Other,
    };
    assert_eq!(dispatcher.handle_event(&other), Action::Ignore);
    assert_eq!(dispatcher.current_head(), None);
}

#[test]
fn headers_request_is_answered_inline_others_spawn() {
    let mut dispatcher = Dispatcher::new();
    let request = SyncRequest {
        first_block: 10,
        count: 3,
    };
    let headers = Event::InboundSyncRequest {
        protocol: Protocol::Headers,
        request,
        channel: 77,
    };
    assert_eq!(
        dispatcher.handle_event(&headers),
        Action::RespondHeadersInline {
            request,
            channel: 77
        }
    );
    for protocol in [
        Protocol::StateDiffs,
        Protocol::Classes,
        Protocol::Transactions,
        Protocol::Receipts,
        Protocol::Events,
    ] {
        let event = Event::InboundSyncRequest {
            protocol,
            request,
            channel: 78,
        };
        assert_eq!(
            dispatcher.handle_event(&event),
            Action::SpawnListResponder {
                protocol,
                request,
                channel: 78
            }
        );
    }
}

#[test]
fn idle_events_are_ignored() {
    let mut dispatcher = Dispatcher::new();
    assert_eq!(
        dispatcher.handle_event(&Event::SyncPeerConnected { peer: 5 }),
        Action::Ignore
    );
    assert_eq!(
        dispatcher.handle_event(&Event::Test { value: 0 }),
        Action::Ignore
    );
}

#[test]
fn bridge_preserves_emission_order() {
    let a = item(1, vec![0xa]);
    let b = item(2, vec![0xb]);
    let c = item(3, vec![0xc]);
    let response = collect(
        vec![a.clone(), b.clone(), c.clone()],
        ProducerOutcome::Completed,
    );
    assert_eq!(response.items, vec![a, b, c]);
}

#[test]
fn failed_producer_still_yields_partial_response() {
    // A producer meant to emit five items aborted after two: the two
    // collected items are still answered, and the dispatcher goes on
    // servicing unrelated events.
    let mut collector = ResponseCollector::new();
    collector.push(item(100, vec![1]));
    collector.push(item(101, vec![2]));
    let response = collector.finish(ProducerOutcome::Failed);
    assert_eq!(response.items.len(), 2);
    assert_eq!(response.items[0].block_number, 100);
    assert_eq!(response.items[1].block_number, 101);

    let mut dispatcher = Dispatcher::new();
    match dispatcher.handle_event(&announcement(4)) {
        Action::PublishHead { head } => assert_eq!(head.block_number, 4),
        other => panic!("unexpected action: {:?}", other),
    }
}

#[test]
fn state_diff_scenario_six_blocks() {
    // A state-diff request for blocks 100..=105 answered by a producer
    // streaming six diffs in ascending order yields one response of six
    // entries in that order, on the wire and back.
    let request = SyncRequest {
        first_block: 100,
        count: 6,
    };
    let codec = SyncCodec::new(Protocol::StateDiffs);
    let request_bytes = codec.write_request(request);
    assert_eq!(codec.read_request(&request_bytes), Ok(request));

    let produced: Vec<SyncItem> = (100..106)
        .map(|n| item(n, vec![n as u8, 0xd1]))
        .collect();
    let response = collect(produced, ProducerOutcome::Completed);
    let bytes = codec.write_response(&response);
    let (decoded, consumed) = codec.read_response(&bytes).unwrap();
    assert_eq!(consumed, bytes.len());
    assert_eq!(decoded.items.len(), 6);
    let blocks: Vec<u64> = decoded.items.iter().map(|i| i.block_number).collect();
    assert_eq!(blocks, vec![100, 101, 102, 103, 104, 105]);
}

#[test]
fn headers_take_first_item() {
    assert_eq!(take_first(vec![]), None);
    let first = item(8, vec![1, 2]);
    let second = item(9, vec![3]);
    assert_eq!(
        take_first(vec![first.clone(), second]),
        Some(first)
    );
}
