//! Peer discovery and connection scheduling for a peer-to-peer network node.
//!
//! The crate keeps a bounded registry of peer addresses, orders them for
//! reconnection attempts, throttles how often candidates are handed out, and
//! bounds the size of address and inventory lists read from the wire.

pub mod addr_wire;
pub mod address;
pub mod address_book;
pub mod candidate_set;
mod clock;
pub mod constants;
pub mod endian;
pub mod inv;
pub mod meta_addr;
pub mod serialization;
pub mod services;
pub mod timestamp;
