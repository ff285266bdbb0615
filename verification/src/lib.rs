//! Peer-to-peer synchronization layer of a blockchain full node.
//!
//! The crate covers the wire side of six request/response protocols used to
//! exchange chain data between peers, and the control-loop logic that bridges
//! inbound requests to internal data producers while tracking the highest
//! chain head observed through gossip:
//!
//! - [`varint`]: unsigned LEB128 integers, used to length-prefix responses;
//! - [`protocol`]: the catalog of the six protocols and their size ceilings;
//! - [`message`]: domain requests, response items, and their byte encoding;
//! - [`codec`]: the per-protocol message framing engine ([`codec::SyncCodec`]);
//! - [`bridge`]: collecting a producer's streamed items into one response;
//! - [`head`]: the monotonic "current head" cell;
//! - [`dispatch`]: the event dispatcher's decision logic;
//! - [`startup`]: the gossip topic and capability tags computed at startup;
//! - [`error`]: the codec's error surface.

pub mod bridge;
pub mod codec;
pub mod dispatch;
pub mod error;
pub mod head;
pub mod message;
pub mod protocol;
pub mod startup;
pub mod varint;
