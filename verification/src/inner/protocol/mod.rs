use vstd::prelude::*;
use crate::networking::buffer::Buffer;

pub mod core_packets;
pub mod root_packets;

verus! {

/// A packet of the first protocol layer: its id, and how it reads itself.
pub trait Packet: Sized {
    /// The packet can be read from `buffer`.
    spec fn deserialize_requires(&self, buffer: Buffer) -> bool;

    /// The byte that starts the packet on the wire.
    fn get_packet_id(&self) -> u8;

    fn deserialize(&mut self, buffer: &mut Buffer)
        requires
            old(self).deserialize_requires(*old(buffer)),
    ;
}

} // verus!
