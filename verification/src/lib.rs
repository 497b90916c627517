//! Core logic of a mass OS deployment advertiser.
//!
//! Unprovisioned machines derive a stable device identity from local
//! hardware inventory records and announce it to a fixed deployment server,
//! retrying until the server is reachable.  This crate holds the verified
//! core: MAC address validation, asset identifier derivation, the framed
//! wire codec shared by client and server, and the advertisement state
//! machine.  Process plumbing (hardware queries, TCP, threads, the window)
//! lives outside and drives this crate with plain values.
use vstd::prelude::*;

pub mod advertise;
pub mod codec;
pub mod device;
pub mod mac;
pub mod message;
mod text;

verus! {

/// TCP port of the fixed deployment server endpoint.
pub const SERVER_PORT: u16 = 4056;

/// Octets of the fixed deployment server IPv4 address.
pub fn server_ip() -> (r: (u8, u8, u8, u8))
    ensures
        r == (127u8, 0u8, 0u8, 1u8),
{
    (127, 0, 0, 1)
}

} // verus!
