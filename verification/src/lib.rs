//! netty: an opinionated networking engine used for WASM-compatible and consistent
//! design. This crate holds its verified core: the packet buffers of a client, the
//! routing of a server's outgoing packets to connections, address selection,
//! websocket endpoints and tick pacing.

use vstd::prelude::*;

verus! {

/// Describes a packet format used to communicate data over the network.
pub trait Packet: Sized {
    /// Takes a given reader `R` and attempts to gather a packet from it. Returning `None`
    /// indicates there is not enough data to build a packet.
    fn from_reader<R: std::io::Read>(reader: &mut R) -> Option<Self>;

    /// Serializes a packet into a byte array. Must be deserializable with `from_reader`.
    fn to_vec(&self) -> Vec<u8>;

    /// Takes a given packet and writes it to a buffer `W`.
    fn write<W: std::io::Write + ?Sized>(&self, writer: &mut W);
}

} // verus!

pub mod address;
pub mod client;
pub mod outbox;
pub mod timing;
pub mod websocket;
