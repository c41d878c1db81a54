//! Session layer and binary wire protocol for a motion-tracking network.
//!
//! Peripheral devices ("trackers") stream orientation and sensor data to a
//! hub process over a datagram transport, and the hub can push configuration
//! and control messages back.  Peers are identified by a synthetic MAC-like
//! identity rather than by transport-level connections.
//!
//! The crate covers the binary packet codec for both directions of the
//! protocol (including the variable-length, backward-compatible handshake
//! encoding) and the session layer that turns raw, address-based datagrams
//! into stable, identity-keyed peer sessions.  The concrete socket I/O sits
//! outside this crate; the session layer works on plain byte buffers,
//! addresses and millisecond timestamps handed in by its caller.

pub mod backends;
pub mod client;
pub mod kv;
pub mod listener;
pub mod net;
pub mod remote_client;
pub mod server;
pub mod tracker;
pub mod types;
pub mod wire;
