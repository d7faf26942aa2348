use vstd::prelude::*;
use crate::util::buffer::{lemma_splice_twice, Buffer};
use crate::util::bytes::{le_u16_at, u16_le};

verus! {

/// A position or velocity as it travels: two little-endian `u16` that stand
/// for the range -50 to 50, from 0 to 65535.
#[derive(Clone, Copy, Debug, PartialEq, Eq)]
pub struct PackedVector2 {
    pub x: u16,
    pub y: u16,
}

/// The vector whose two coordinates start at index `p`.
pub open spec fn vector_at(a: Seq<u8>, p: int) -> PackedVector2 {
    PackedVector2 { x: le_u16_at(a, p), y: le_u16_at(a, p + 2) }
}

impl PackedVector2 {
    /// Reads the two coordinates.
    pub fn read_vector2(buffer: &mut Buffer) -> (r: Self)
        requires
            old(buffer).can_read(4),
        ensures
            r == vector_at(old(buffer).array@, old(buffer).position as int),
            final(buffer).consumed(*old(buffer), 4),
    {
        let x = buffer.read_u16_le();
        let y = buffer.read_u16_le();
        PackedVector2 { x, y }
    }

    /// Writes the two coordinates.
    pub fn write_vector2(&self, buffer: &mut Buffer)
        requires
            old(buffer).can_write(4),
        ensures
            final(buffer).wrote(*old(buffer), u16_le(self.x) + u16_le(self.y)),
    {
        let ghost a0 = buffer.array@;
        let ghost p0 = buffer.position as int;
        buffer.write_u16_le(self.x);
        buffer.write_u16_le(self.y);
        proof {
            lemma_splice_twice(a0, p0, u16_le(self.x), u16_le(self.y));
        }
    }
}

} // verus!
