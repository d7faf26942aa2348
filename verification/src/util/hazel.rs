use vstd::prelude::*;
use crate::util::buffer::{splice, Buffer};
use crate::util::bytes::{le_u16, u16_le};

verus! {

/// A Hazel message: a length, a tag and a buffer over its bytes.
#[derive(Debug)]
pub struct HazelMessage {
    pub length: u16,
    pub tag: u8,
    pub buffer: Buffer,
}

/// What `read_message` finds at index `p` of `a`: `None`, or the length,
/// the tag and the index just past the message.
pub open spec fn hazel_read_result(a: Seq<u8>, p: int) -> Option<(u16, u8, int)> {
    if p + 3 >= a.len() {
        None
    } else {
        let length = le_u16(a.subrange(p, p + 2));
        Some((length, a[p + 2], p + 3 + length))
    }
}

/// Where the cursor stands after `read_message` at `p`.
pub open spec fn hazel_read_end(a: Seq<u8>, p: int) -> int {
    match hazel_read_result(a, p) {
        Some((length, tag, next)) => next,
        None => if p >= a.len() {
            p
        } else if p + 2 >= a.len() {
            p + 2
        } else {
            p + 3
        },
    }
}

/// `read_message` may run at `p`: it does not stop halfway in a length.
pub open spec fn hazel_readable(a: Seq<u8>, p: int) -> bool {
    p < a.len() ==> p + 2 <= a.len()
}

/// The bytes of a message whose buffer held `a` after `end_message`.
pub open spec fn end_message_bytes(a: Seq<u8>) -> Seq<u8> {
    u16_le(((a.len() % 0x1_0000) - 1) as u16) + a
}

/// A framed message on the wire: little-endian payload length, tag, payload.
pub open spec fn hazel_frame(tag: u8, payload: Seq<u8>) -> Seq<u8> {
    u16_le(payload.len() as u16) + seq![tag] + payload
}

impl HazelMessage {
    /// Reads a message at the cursor of `buffer`: a little-endian length and
    /// a tag. The message's buffer is a copy of `buffer` with its cursor on
    /// the payload; `buffer`'s cursor moves past the payload. There is no
    /// message when the buffer ends before the payload begins.
    pub fn read_message(buffer: &mut Buffer) -> (r: Option<Self>)
        requires
            hazel_readable(old(buffer).array@, old(buffer).position as int),
            old(buffer).array.len() + 0x1_0000 <= usize::MAX,
        ensures
            final(buffer).array@ == old(buffer).array@,
            ({
                let a = old(buffer).array@;
                let p = old(buffer).position as int;
                match hazel_read_result(a, p) {
                    None => r is None && final(buffer).position == if p >= a.len() {
                        p
                    } else if p + 2 >= a.len() {
                        p + 2
                    } else {
                        p + 3
                    },
                    Some((length, tag, next)) => {
                        &&& r is Some
                        &&& r.unwrap().length == length
                        &&& r.unwrap().tag == tag
                        &&& r.unwrap().buffer.array@ == a
                        &&& r.unwrap().buffer.position == p + 3
                        &&& final(buffer).position == next
                    },
                }
            }),
    {
        if buffer.position >= buffer.array.len() {
            return None;
        }
        let length = buffer.read_u16_le();
        if buffer.position >= buffer.array.len() {
            return None;
        }
        let tag = buffer.read_u8();
        if buffer.position >= buffer.array.len() {
            return None;
        }
        let new_buffer = buffer.clone();
        buffer.position = buffer.position + length as usize;
        Some(HazelMessage { length, tag, buffer: new_buffer })
    }

    /// A message holding only its tag, with the cursor behind it.
    pub fn start_message(tag: u8) -> (r: Self)
        ensures
            r.length == 0,
            r.tag == tag,
            r.buffer.array@ == seq![tag],
            r.buffer.position == 1,
    {
        let mut buffer = Buffer { array: Vec::new(), position: 0 };
        buffer.write_u8(tag);
        proof {
            assert(splice(Seq::<u8>::empty(), 0, seq![tag]) =~= seq![tag]);
        }
        HazelMessage { length: 0, tag, buffer }
    }

    /// Puts the buffer's size less one (the tag), as a little-endian `u16`,
    /// in front of the buffer; the cursor is left where it was.
    pub fn end_message(&mut self)
        requires
            old(self).buffer.array.len() % 0x1_0000 != 0,
            old(self).buffer.array.len() + 2 <= usize::MAX,
        ensures
            final(self).buffer.array@ == end_message_bytes(old(self).buffer.array@),
            final(self).buffer.position == old(self).buffer.position,
            final(self).length == old(self).length,
            final(self).tag == old(self).tag,
    {
        let length = self.buffer.array.len();
        let position = self.buffer.position;
        self.buffer.position = 0;
        self.buffer.write_u16_le(((length % 0x1_0000) as u16) - 1);
        self.buffer.position = position;
        proof {
            let a = old(self).buffer.array@;
            assert(splice(a, 0, u16_le(((a.len() % 0x1_0000) - 1) as u16)) =~= end_message_bytes(a));
        }
    }

    /// A copy of the message.
    pub fn duplicate(&self) -> (r: Self)
        ensures
            r.length == self.length,
            r.tag == self.tag,
            r.buffer.array@ == self.buffer.array@,
            r.buffer.position == self.buffer.position,
    {
        HazelMessage { length: self.length, tag: self.tag, buffer: self.buffer.clone() }
    }

    /// Writes the message's bytes at the cursor of `buffer`.
    pub fn copy_to(&mut self, buffer: &mut Buffer)
        requires
            old(buffer).can_write(old(self).buffer.array@.len()),
        ensures
            final(buffer).wrote(*old(buffer), old(self).buffer.array@),
            *final(self) == *old(self),
    {
        buffer.write_u8_arr_le(self.buffer.array.as_slice());
    }
}

/// A message started with `tag`, filled with `payload` and ended holds the
/// frame of `tag` and `payload`; read back from any buffer, the frame gives
/// the payload's length and the tag, leaves the cursor on the payload and
/// moves past it. A message with an empty payload cannot be read back.
pub proof fn lemma_frame_roundtrip(prefix: Seq<u8>, tag: u8, payload: Seq<u8>, suffix: Seq<u8>)
    requires
        1 <= payload.len() < 0xFFFF,
    ensures
        end_message_bytes(seq![tag] + payload) == hazel_frame(tag, payload),
        hazel_read_result(prefix + hazel_frame(tag, payload) + suffix, prefix.len() as int) == Some(
            (payload.len() as u16, tag, (prefix.len() + 3 + payload.len()) as int),
        ),
{
    let body = seq![tag] + payload;
    assert(body.len() % 0x1_0000 == body.len());
    assert(end_message_bytes(body) =~= hazel_frame(tag, payload));
    let a = prefix + hazel_frame(tag, payload) + suffix;
    let p = prefix.len() as int;
    let v = payload.len() as u16;
    assert(a.subrange(p, p + 2) =~= u16_le(v));
    assert(a[p + 2] == tag);
}

/// The two bytes of `u16_le(v)` read back as `v`.
pub proof fn lemma_u16_le_roundtrip(v: u16)
    ensures
        le_u16(u16_le(v)) == v,
{
}

/// A frame with an empty payload is never read back as a message.
pub proof fn lemma_empty_frame_unreadable(prefix: Seq<u8>, tag: u8)
    ensures
        hazel_read_result(prefix + hazel_frame(tag, Seq::empty()), prefix.len() as int) is None,
{
}

} // verus!
