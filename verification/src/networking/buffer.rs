use byteorder::{BigEndian, ReadBytesExt};
use vstd::prelude::*;
use vstd::utf8::*;
use crate::util::buffer::{copy_range, splice, lemma_splice_twice};
use crate::util::bytes::{
    be_u16, be_u32, le_u32, lemma_packed_end_bounds, packed_end, packed_terminates,
    packed_u32_value, u16_be, u32_as_i32, u8_as_i8, u8_to_i8,
};

verus! {

/// Calls byteorder's `ReadBytesExt::read_u16::<BigEndian>` on a reader over
/// `bytes`. As the crate's source shows, it reads the first two bytes as a
/// big-endian number, and fails when fewer than two bytes are there.
#[verifier::external_body]
fn read_u16_big_endian(bytes: &[u8]) -> (r: Option<u16>)
    ensures
        bytes@.len() >= 2 ==> r == Some(be_u16(bytes@)),
        bytes@.len() < 2 ==> r is None,
{
    let mut reader: &[u8] = bytes;
    reader.read_u16::<BigEndian>().ok()
}

/// Calls byteorder's `ReadBytesExt::read_i32::<BigEndian>` on a reader over
/// `bytes`. As the crate's source shows, it reads the first four bytes as a
/// big-endian two's-complement number, and fails when fewer than four bytes
/// are there.
#[verifier::external_body]
fn read_i32_big_endian(bytes: &[u8]) -> (r: Option<i32>)
    ensures
        bytes@.len() >= 4 ==> r == Some(u32_as_i32(be_u32(bytes@))),
        bytes@.len() < 4 ==> r is None,
{
    let mut reader: &[u8] = bytes;
    reader.read_i32::<BigEndian>().ok()
}

/// Calls `std::str::from_utf8`: as std documents, the bytes are taken as a
/// string exactly when they are valid UTF-8, and the string then holds the
/// characters they encode. The result is copied into a `String`.
#[verifier::external_body]
fn str_from_utf8(bytes: &[u8]) -> (r: Option<String>)
    ensures
        r is Some <==> valid_utf8(bytes@),
        r is Some ==> r.unwrap()@ == decode_utf8(bytes@),
{
    std::str::from_utf8(bytes).ok().map(|s| s.to_string())
}

/// A byte buffer with a cursor, as the first protocol layer used it.
#[derive(Debug)]
pub struct Buffer {
    position: usize,
    byte_array: Vec<u8>,
}

impl Buffer {
    /// The bytes held.
    pub closed spec fn bytes(&self) -> Seq<u8> {
        self.byte_array@
    }

    /// The cursor.
    pub closed spec fn cursor(&self) -> usize {
        self.position
    }

    /// A vector never holds more than `usize::MAX` bytes.
    pub proof fn lemma_size_bound(&self)
        ensures
            self.bytes().len() <= usize::MAX,
    {
        assert(self.byte_array.len() == self.byte_array@.len());
    }

    /// The `n` bytes that follow the cursor.
    pub open spec fn ahead(&self, n: int) -> Seq<u8> {
        self.bytes().subrange(self.cursor() as int, self.cursor() + n)
    }

    /// The buffer holds `n` more bytes behind its cursor.
    pub open spec fn can_read(&self, n: nat) -> bool {
        self.cursor() + n <= self.bytes().len()
    }

    /// The effect of reading `n` bytes from the cursor of `old`.
    pub open spec fn consumed(&self, old: &Buffer, n: nat) -> bool {
        &&& self.bytes() == old.bytes()
        &&& self.cursor() == old.cursor() + n
    }

    pub fn new(array: Vec<u8>) -> (r: Self)
        ensures
            r.bytes() == array@,
            r.cursor() == 0,
    {
        Buffer { position: 0, byte_array: array }
    }

    pub fn read_byte(&mut self) -> (r: i8)
        requires
            old(self).can_read(1),
        ensures
            r == u8_as_i8(old(self).bytes()[old(self).cursor() as int]),
            final(self).consumed(old(self), 1),
    {
        u8_to_i8(self.read_unsigned_byte())
    }

    pub fn read_unsigned_byte(&mut self) -> (r: u8)
        requires
            old(self).can_read(1),
        ensures
            r == old(self).bytes()[old(self).cursor() as int],
            final(self).consumed(old(self), 1),
    {
        proof {
            self.lemma_size_bound();
        }
        let position = self.position;
        self.position = position + 1;
        self.byte_array[position]
    }

    /// Reads two bytes, big-endian.
    pub fn read_uint_16(&mut self) -> (r: u16)
        requires
            old(self).can_read(2),
        ensures
            r == be_u16(old(self).ahead(2)),
            final(self).consumed(old(self), 2),
    {
        proof {
            self.lemma_size_bound();
        }
        let position = self.position;
        self.position = position + 2;
        let x = copy_range(&self.byte_array, position, self.position);
        match read_u16_big_endian(x.as_slice()) {
            Some(v) => v,
            None => {
                proof {
                    assert(false);
                }
                0
            },
        }
    }

    /// Reads four bytes, big-endian.
    pub fn read_int_32(&mut self) -> (r: i32)
        requires
            old(self).can_read(4),
        ensures
            r == u32_as_i32(be_u32(old(self).ahead(4))),
            final(self).consumed(old(self), 4),
    {
        proof {
            self.lemma_size_bound();
        }
        let position = self.position;
        self.position = position + 4;
        let x = copy_range(&self.byte_array, position, self.position);
        match read_i32_big_endian(x.as_slice()) {
            Some(v) => v,
            None => {
                proof {
                    assert(false);
                }
                0
            },
        }
    }

    /// Reads four bytes in the machine's (little-endian) byte order.
    pub fn read_uint_32(&mut self) -> (r: u32)
        requires
            old(self).can_read(4),
        ensures
            r == le_u32(old(self).ahead(4)),
            final(self).consumed(old(self), 4),
    {
        proof {
            self.lemma_size_bound();
        }
        let p = self.position;
        let b0 = self.byte_array[p];
        let b1 = self.byte_array[p + 1];
        let b2 = self.byte_array[p + 2];
        let b3 = self.byte_array[p + 3];
        self.position = p + 4;
        b3 as u32 * 0x1000000 + b2 as u32 * 0x10000 + b1 as u32 * 256 + b0 as u32
    }

    /// Reads four bytes in the machine's (little-endian) byte order, an
    /// IEEE-754 single; the result is its bit pattern.
    pub fn read_float(&mut self) -> (r: u32)
        requires
            old(self).can_read(4),
        ensures
            r == le_u32(old(self).ahead(4)),
            final(self).consumed(old(self), 4),
    {
        self.read_uint_32()
    }

    /// Reads a packed length `n`, then takes as text the bytes from where the
    /// length began up to `n` bytes past where it ended: the length's own
    /// bytes come first in the text, and as many text bytes are left off.
    pub fn read_string(&mut self) -> (r: String)
        requires
            old(self).string_readable(),
        ensures
            r@ == decode_utf8(old(self).string_bytes()),
            final(self).bytes() == old(self).bytes(),
            final(self).cursor() == old(self).string_end(),
    {
        proof {
            self.lemma_size_bound();
        }
        proof {
            lemma_packed_end_bounds(self.byte_array@, self.position as int);
        }
        let position = self.position;
        let len = self.read_packed_uint_32();
        self.position = self.position + len as usize;
        let x = copy_range(&self.byte_array, position, self.position);
        match str_from_utf8(x.as_slice()) {
            Some(s) => s,
            None => {
                proof {
                    assert(false);
                }
                String::new()
            },
        }
    }

    /// Reads the server's packed form (see the other buffer's
    /// `read_packed_uint_32`) and returns it as an `i8`.
    pub fn read_packed_uint_32(&mut self) -> (r: i8)
        requires
            packed_terminates(old(self).bytes(), old(self).cursor() as int),
            packed_u32_value(old(self).bytes(), old(self).cursor() as int) <= 127,
        ensures
            r == packed_u32_value(old(self).bytes(), old(self).cursor() as int),
            final(self).bytes() == old(self).bytes(),
            final(self).cursor() == packed_end(old(self).bytes(), old(self).cursor() as int),
    {
        let ghost a = self.byte_array@;
        let ghost p0 = self.position as int;
        let mut read_more = true;
        let mut output: u8 = 0;
        let mut shift: u32 = 0;
        proof {
            lemma_packed_end_bounds(a, p0);
        }
        while read_more
            invariant
                self.byte_array@ == a,
                p0 <= self.position,
                packed_terminates(a, p0),
                packed_end(a, p0) <= a.len(),
                read_more ==> packed_terminates(a, self.position as int),
                read_more ==> packed_end(a, self.position as int) == packed_end(a, p0),
                !read_more ==> self.position == packed_end(a, p0),
                self.position == p0 ==> read_more && output == 0 && shift == 0,
                self.position >= p0 + 2 ==> a[p0] >= 128,
                self.position == p0 + 1 ==> (read_more <==> a[p0] >= 128),
                self.position == p0 + 1 ==> output == a[p0] % 128 && shift == 7,
                self.position >= p0 + 2 ==> output == a[p0] % 128 + (a[p0 + 1] % 2) * 128
                    && shift == 14,
            decreases a.len() - self.position,
        {
            let ghost pos = self.position as int;
            let mut byte: u8 = self.read_byte_unsigned();
            if byte >= 0x80 {
                read_more = true;
                byte = byte - 0x80;
            } else {
                read_more = false;
            }
            let part: u8 = if shift == 0 {
                byte
            } else if shift < 8 {
                (byte % 2) * 128
            } else {
                0
            };
            output = output + part;
            if shift < 14 {
                shift = shift + 7;
            }
            proof {
                if read_more {
                    assert(packed_end(a, pos) == packed_end(a, pos + 1));
                } else {
                    assert(packed_end(a, pos) == pos + 1);
                }
            }
        }
        output as i8
    }

    fn read_byte_unsigned(&mut self) -> (r: u8)
        requires
            old(self).can_read(1),
        ensures
            r == old(self).byte_array@[old(self).position as int],
            final(self).byte_array@ == old(self).byte_array@,
            final(self).position == old(self).position + 1,
    {
        proof {
            self.lemma_size_bound();
        }
        let position = self.position;
        self.position = position + 1;
        self.byte_array[position]
    }

    pub fn read_bool(&mut self) -> (r: bool)
        requires
            old(self).can_read(1),
        ensures
            r == (old(self).bytes()[old(self).cursor() as int] != 0),
            final(self).consumed(old(self), 1),
    {
        let byte = self.read_byte();
        byte != 0
    }

    /// Inserts `byte` at the cursor and moves the cursor past it.
    pub fn write_byte(&mut self, byte: u8)
        requires
            old(self).cursor() <= old(self).bytes().len() < usize::MAX,
        ensures
            final(self).bytes() == splice(old(self).bytes(), old(self).cursor() as int, seq![byte]),
            final(self).cursor() == old(self).cursor() + 1,
    {
        let position = self.position;
        self.byte_array.insert(position, byte);
        self.position = position + 1;
        assert(self.byte_array@ =~= splice(old(self).byte_array@, position as int, seq![byte]));
    }

    /// Inserts the two big-endian bytes of `value` at the cursor; the cursor
    /// then moves four bytes on, two past them.
    pub fn write_uint_16(&mut self, value: u16)
        requires
            old(self).cursor() <= old(self).bytes().len(),
            old(self).bytes().len() + 4 <= usize::MAX,
        ensures
            final(self).bytes() == splice(old(self).bytes(), old(self).cursor() as int, u16_be(value)),
            final(self).cursor() == old(self).cursor() + 4,
    {
        let ghost a0 = self.byte_array@;
        let ghost p0 = self.position as int;
        let b0 = (value / 256) as u8;
        let b1 = (value % 256) as u8;
        self.write_byte(b0);
        self.write_byte(b1);
        proof {
            lemma_splice_twice(a0, p0, seq![b0], seq![b1]);
            assert(seq![b0] + seq![b1] =~= u16_be(value));
        }
        self.position = self.position + 2;
    }

    pub fn set_position(&mut self, position: usize)
        ensures
            final(self).bytes() == old(self).bytes(),
            final(self).cursor() == position,
    {
        self.position = position;
    }

    pub fn position(&self) -> (r: usize)
        ensures
            r == self.cursor(),
    {
        self.position
    }

    /// A copy of the bytes held.
    pub fn array(&self) -> (r: Vec<u8>)
        ensures
            r@ == self.bytes(),
    {
        let r = copy_range(&self.byte_array, 0, self.byte_array.len());
        assert(self.byte_array@.subrange(0, self.byte_array@.len() as int) =~= self.byte_array@);
        r
    }

    pub fn size(&self) -> (r: usize)
        ensures
            r == self.bytes().len(),
    {
        self.byte_array.len()
    }

    pub fn clone(&self) -> (r: Buffer)
        ensures
            r.bytes() == self.bytes(),
            r.cursor() == self.cursor(),
    {
        Buffer { position: self.position, byte_array: self.array() }
    }

    pub fn from(buffer: &Buffer) -> (r: Self)
        ensures
            r.bytes() == buffer.bytes(),
            r.cursor() == buffer.cursor(),
    {
        Buffer { position: buffer.position, byte_array: buffer.clone().byte_array }
    }

    /// A string can be read at the cursor: its packed length ends in the
    /// buffer and fits an `i8`, the bytes taken lie inside the buffer and are
    /// UTF-8.
    pub open spec fn string_readable(&self) -> bool {
        let a = self.bytes();
        let p = self.cursor() as int;
        &&& packed_terminates(a, p)
        &&& packed_u32_value(a, p) <= 127
        &&& self.string_end() <= a.len()
        &&& valid_utf8(self.string_bytes())
    }

    /// Where the cursor stands after reading the string at the cursor.
    pub open spec fn string_end(&self) -> int {
        let a = self.bytes();
        let p = self.cursor() as int;
        packed_end(a, p) + packed_u32_value(a, p)
    }

    /// The bytes taken as text by `read_string`.
    pub open spec fn string_bytes(&self) -> Seq<u8> {
        self.bytes().subrange(self.cursor() as int, self.string_end())
    }
}

} // verus!
