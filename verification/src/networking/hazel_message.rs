use vstd::prelude::*;
use crate::networking::buffer::Buffer;
use crate::util::buffer::{copy_range, splice};
use crate::util::bytes::{be_u16, u16_be};

verus! {

/// A Hazel message of the first protocol layer: a length, a tag and a
/// buffer over the payload.
#[derive(Debug)]
pub struct HazelMessage {
    length: u16,
    tag: u8,
    payload: Buffer,
}

/// The length field that `end_message` writes for a payload buffer of
/// `size` bytes (the tag byte included).
pub open spec fn length_field(size: nat) -> u16 {
    ((size - 1) % 0x1_0000) as u16
}

impl HazelMessage {
    pub closed spec fn msg_length(&self) -> u16 {
        self.length
    }

    pub closed spec fn msg_tag(&self) -> u8 {
        self.tag
    }

    pub closed spec fn msg_payload(&self) -> Buffer {
        self.payload
    }

    pub fn length(&self) -> (r: u16)
        ensures
            r == self.msg_length(),
    {
        self.length
    }

    pub fn tag(&self) -> (r: u8)
        ensures
            r == self.msg_tag(),
    {
        self.tag
    }

    pub fn payload(&mut self) -> (r: &mut Buffer)
        ensures
            *r == old(self).msg_payload(),
            final(self).msg_payload() == *final(r),
            final(self).msg_length() == old(self).msg_length(),
            final(self).msg_tag() == old(self).msg_tag(),
    {
        &mut self.payload
    }

    pub fn set_length(&mut self, length: u16)
        ensures
            final(self).msg_length() == length,
            final(self).msg_tag() == old(self).msg_tag(),
            final(self).msg_payload() == old(self).msg_payload(),
    {
        self.length = length;
    }

    pub fn set_tag(&mut self, tag: u8)
        ensures
            final(self).msg_length() == old(self).msg_length(),
            final(self).msg_tag() == tag,
            final(self).msg_payload() == old(self).msg_payload(),
    {
        self.tag = tag;
    }

    pub fn set_payload(&mut self, payload: Buffer)
        ensures
            final(self).msg_length() == old(self).msg_length(),
            final(self).msg_tag() == old(self).msg_tag(),
            final(self).msg_payload() == payload,
    {
        self.payload = payload;
    }

    /// Reads a message at the cursor of `buffer`: a big-endian length and a
    /// tag byte; the payload is everything behind the tag, cursor at 0. There
    /// is no message unless more bytes follow the length, and more follow
    /// the tag; when the first check fails the cursor has not moved, when
    /// the second fails it has moved past the length.
    pub fn read(buffer: &mut Buffer) -> (r: Option<Self>)
        requires
            old(buffer).cursor() + 2 <= usize::MAX,
        ensures
            final(buffer).bytes() == old(buffer).bytes(),
            ({
                let a = old(buffer).bytes();
                let p = old(buffer).cursor() as int;
                if p + 2 >= a.len() {
                    r is None && final(buffer).cursor() == p
                } else if p + 3 >= a.len() {
                    r is None && final(buffer).cursor() == p + 2
                } else {
                    &&& r is Some
                    &&& r.unwrap().msg_length() == be_u16(a.subrange(p, p + 2))
                    &&& r.unwrap().msg_tag() == a[p + 2]
                    &&& r.unwrap().msg_payload().bytes() == a.skip(p + 3)
                    &&& r.unwrap().msg_payload().cursor() == 0
                    &&& final(buffer).cursor() == p + 3
                }
            }),
    {
        let mut hazel_msg = Self { length: 0, tag: 0, payload: buffer.clone() };
        if buffer.position() + 2 < buffer.size() {
            let length = buffer.read_uint_16();
            hazel_msg.set_length(length);
        } else {
            return None;
        }
        if buffer.position() + 1 < buffer.size() {
            let tag = buffer.read_unsigned_byte();
            hazel_msg.set_tag(tag);
        } else {
            return None;
        }
        let rest = copy_range(&buffer.array(), buffer.position(), buffer.size());
        proof {
            assert(rest@ =~= old(buffer).bytes().skip(old(buffer).cursor() + 3));
        }
        hazel_msg.set_payload(Buffer::new(rest));
        Some(hazel_msg)
    }

    /// A message holding only its tag: the payload buffer is `[tag]`, with
    /// the cursor behind the tag.
    pub fn start_message(tag: u8) -> (r: Self)
        ensures
            r.msg_length() == 0,
            r.msg_tag() == tag,
            r.msg_payload().bytes() == seq![tag],
            r.msg_payload().cursor() == 1,
    {
        let mut me = Self { length: 0, tag, payload: Buffer::new(Vec::new()) };
        me.payload.write_byte(me.tag);
        proof {
            assert(splice(Seq::<u8>::empty(), 0, seq![tag]) =~= seq![tag]);
        }
        me
    }

    /// Puts the payload's size less one (the tag), big-endian, in front of
    /// the payload; the cursor is left where it was.
    pub fn end_message(&mut self)
        requires
            old(self).msg_payload().bytes().len() >= 1,
            old(self).msg_payload().bytes().len() + 4 <= usize::MAX,
        ensures
            final(self).msg_payload().bytes() == u16_be(
                length_field(old(self).msg_payload().bytes().len()),
            ) + old(self).msg_payload().bytes(),
            final(self).msg_payload().cursor() == old(self).msg_payload().cursor(),
            final(self).msg_length() == old(self).msg_length(),
            final(self).msg_tag() == old(self).msg_tag(),
    {
        let position = self.payload.position();
        self.payload.set_position(0);
        let size = self.payload.size();
        self.payload.write_uint_16(((size - 1) % 0x1_0000) as u16);
        self.payload.set_position(position);
        proof {
            let old_bytes = old(self).msg_payload().bytes();
            assert(splice(old_bytes, 0, u16_be(length_field(old_bytes.len()))) =~= u16_be(
                length_field(old_bytes.len()),
            ) + old_bytes);
        }
    }

    pub fn from(hazel_msg: &HazelMessage) -> (r: Self)
        ensures
            r.msg_length() == hazel_msg.msg_length(),
            r.msg_tag() == hazel_msg.msg_tag(),
            r.msg_payload().bytes() == hazel_msg.msg_payload().bytes(),
            r.msg_payload().cursor() == hazel_msg.msg_payload().cursor(),
    {
        Self {
            length: hazel_msg.length,
            tag: hazel_msg.tag,
            payload: Buffer::from(&hazel_msg.payload),
        }
    }
}

/// A message started with `tag`, filled with a non-empty `payload` and
/// ended, then read back from any bytes around it, gives the payload's
/// length, the tag, and a payload that starts with the bytes written.
pub proof fn lemma_frame_roundtrip(prefix: Seq<u8>, tag: u8, payload: Seq<u8>, rest: Seq<u8>)
    requires
        1 <= payload.len() < 0x1_0000,
    ensures
        ({
            let ended = u16_be(length_field((seq![tag] + payload).len())) + (seq![tag] + payload);
            let a = prefix + ended + rest;
            let p = prefix.len() as int;
            &&& p + 3 < a.len()
            &&& be_u16(a.subrange(p, p + 2)) == payload.len()
            &&& a[p + 2] == tag
            &&& a.skip(p + 3) == payload + rest
        }),
{
    let body = seq![tag] + payload;
    let n = length_field(body.len());
    assert(n == payload.len());
    let ended = u16_be(n) + body;
    let a = prefix + ended + rest;
    let p = prefix.len() as int;
    assert(a.subrange(p, p + 2) =~= u16_be(n));
    assert(a[p + 2] == tag);
    assert(a.skip(p + 3) =~= payload + rest);
}

} // verus!
