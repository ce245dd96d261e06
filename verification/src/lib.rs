//! Client-side implementation of the Siemens S7 communication stack:
//! TPKT framing (RFC 1006), COTP class-0 transport (ISO 8073) and the
//! S7 application layer (Job / AckData), together with the pure decision
//! logic of a client session on top of the codec stack.

pub mod buf;
pub mod client;
pub mod copt;
pub mod copt_builder;
pub mod copt_model;
pub mod frame_eq;
pub mod s7_builder;
pub mod s7_comm;
pub mod s7_model;
pub mod session;
pub mod tpkt;

use vstd::prelude::*;

verus! {

/// Big-endian encoding of a 16-bit value, the byte order of every
/// multi-byte integer in the three wire formats.
pub open spec fn enc_u16(v: u16) -> Seq<u8> {
    seq![(v / 256) as u8, (v % 256) as u8]
}

/// The 16-bit value stored big-endian at offset `i` of `b`.
pub open spec fn be16_at(b: Seq<u8>, i: int) -> int {
    b[i] * 256 + b[i + 1]
}

} // verus!
