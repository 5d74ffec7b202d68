//! Traceroute-style path discovery: the packet codec, the probe identifiers,
//! and the trace engine's decisions, stated and proved over byte sequences
//! and plain values.

pub mod addr;
pub mod bytes;
pub mod checksum;
pub mod engine;
pub mod ident;
pub mod packet;
pub mod tracer;
pub mod wire;
