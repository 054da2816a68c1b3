//! A minimal ICMP echo ("ping") core: the wire-format codec for ICMP Echo
//! Request/Reply messages (internet checksum, serialization, defensive
//! decoding of raw-socket datagrams) and the state machine of a single
//! echo session.

pub mod icmp;
pub mod session;
