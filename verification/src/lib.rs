//! A minimal HTTP CONNECT tunnel library: the wire codec for the CONNECT
//! handshake, the address-selection rule of the resolver, and the
//! per-connection handshake state machine.

pub mod codec;
pub mod dns;
pub mod tunnel;
