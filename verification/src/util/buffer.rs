use vstd::prelude::*;
use vstd::utf8::*;
use crate::util::bytes::{
    be_u16, be_u64, be_value, i16_bits, i16_to_u16, i32_bits, i32_to_u32, i8_bits, i8_to_u8,
    le_u16, le_u32, lemma_packed_end_bounds, lemma_packed_len, lemma_packed_step, lemma_pow256_step,
    packed_bytes_from, packed_end, packed_terminates, packed_u32_bytes, packed_u32_value, pow256,
    string_bytes_at, string_chars_at, string_end_at, string_frame, string_from_utf8, string_readable_at, u16_as_i16, u16_be, u16_le, u16_to_i16, u32_as_i32, u32_be,
    u32_le, u32_to_i32, u64_as_i64, u64_to_i64, u8_as_i8, u8_to_i8,
};

verus! {

#[derive(Debug)]
/// A growable byte buffer with a cursor. Writes insert at the cursor and
/// move it forward; reads consume bytes from the cursor.
pub struct Buffer {
    pub position: usize,
    pub array: Vec<u8>,
}

/// `bytes` inserted into `a` at index `pos`.
pub open spec fn splice(a: Seq<u8>, pos: int, bytes: Seq<u8>) -> Seq<u8> {
    a.take(pos) + bytes + a.skip(pos)
}

/// Inserting `s` and then `t` right behind it is inserting `s + t`.
pub proof fn lemma_splice_twice(a: Seq<u8>, pos: int, s: Seq<u8>, t: Seq<u8>)
    requires
        0 <= pos <= a.len(),
    ensures
        splice(splice(a, pos, s), pos + s.len(), t) == splice(a, pos, s + t),
{
    let x = splice(a, pos, s);
    assert(x.take(pos + s.len()) =~= a.take(pos) + s);
    assert(x.skip(pos + s.len()) =~= a.skip(pos));
    assert(splice(x, pos + s.len(), t) =~= splice(a, pos, s + t));
}

/// Inserting nothing leaves the bytes as they were.
pub proof fn lemma_splice_empty(a: Seq<u8>, pos: int)
    requires
        0 <= pos <= a.len(),
    ensures
        splice(a, pos, Seq::<u8>::empty()) == a,
{
    assert(splice(a, pos, Seq::<u8>::empty()) =~= a);
}

impl Buffer {
    /// The buffer can take `n` more bytes at its cursor.
    pub open spec fn can_write(&self, n: nat) -> bool {
        self.position <= self.array.len() && self.array.len() + n <= usize::MAX
    }

    /// The buffer holds `n` more bytes behind its cursor.
    pub open spec fn can_read(&self, n: nat) -> bool {
        self.position + n <= self.array.len()
    }

    /// The effect of writing `bytes` at the cursor of `old`.
    pub open spec fn wrote(self, old: Buffer, bytes: Seq<u8>) -> bool {
        &&& self.array@ == splice(old.array@, old.position as int, bytes)
        &&& self.position == old.position + bytes.len()
    }

    /// The effect of reading `n` bytes from the cursor of `old`.
    pub open spec fn consumed(self, old: Buffer, n: nat) -> bool {
        &&& self.array@ == old.array@
        &&& self.position == old.position + n
    }

    /// The `n` bytes that follow the cursor.
    pub open spec fn ahead(self, n: int) -> Seq<u8> {
        self.array@.subrange(self.position as int, self.position + n)
    }

    pub fn write_u8(&mut self, i: u8)
        requires
            old(self).can_write(1),
        ensures
            final(self).wrote(*old(self), seq![i]),
    {
        let position = self.position;
        self.position = position + 1;
        self.array.insert(position, i);
        assert(self.array@ =~= splice(old(self).array@, position as int, seq![i]));
    }

    /// Writes every byte of `bytes`, in order, at the cursor.
    pub fn write_u8_arr(&mut self, bytes: &[u8])
        requires
            old(self).can_write(bytes@.len()),
        ensures
            final(self).wrote(*old(self), bytes@),
    {
        let n = bytes.len();
        let ghost a0 = self.array@;
        let ghost p0 = self.position as int;
        proof {
            lemma_splice_empty(a0, p0);
            assert(bytes@.take(0) =~= Seq::<u8>::empty());
        }
        let mut k: usize = 0;
        while k < n
            invariant
                n == bytes@.len(),
                0 <= k <= n,
                a0.len() + n <= usize::MAX,
                0 <= p0 <= a0.len(),
                self.array@ == splice(a0, p0, bytes@.take(k as int)),
                self.position == p0 + k,
            decreases n - k,
        {
            proof {
                lemma_splice_twice(a0, p0, bytes@.take(k as int), seq![bytes@[k as int]]);
                assert(bytes@.take(k as int) + seq![bytes@[k as int]] =~= bytes@.take(k + 1));
            }
            self.write_u8(bytes[k]);
            k = k + 1;
        }
        assert(bytes@.take(n as int) =~= bytes@);
    }

    /// Writes every byte of `bytes`, in order, at the cursor.
    pub fn write_u8_arr_le(&mut self, bytes: &[u8])
        requires
            old(self).can_write(bytes@.len()),
        ensures
            final(self).wrote(*old(self), bytes@),
    {
        self.write_u8_arr(bytes);
    }

    fn write_two(&mut self, b0: u8, b1: u8)
        requires
            old(self).can_write(2),
        ensures
            final(self).wrote(*old(self), seq![b0, b1]),
    {
        let ghost a0 = self.array@;
        let ghost p0 = self.position as int;
        self.write_u8(b0);
        self.write_u8(b1);
        proof {
            lemma_splice_twice(a0, p0, seq![b0], seq![b1]);
            assert(seq![b0] + seq![b1] =~= seq![b0, b1]);
        }
    }

    fn write_four(&mut self, b0: u8, b1: u8, b2: u8, b3: u8)
        requires
            old(self).can_write(4),
        ensures
            final(self).wrote(*old(self), seq![b0, b1, b2, b3]),
    {
        let ghost a0 = self.array@;
        let ghost p0 = self.position as int;
        self.write_two(b0, b1);
        self.write_two(b2, b3);
        proof {
            lemma_splice_twice(a0, p0, seq![b0, b1], seq![b2, b3]);
            assert(seq![b0, b1] + seq![b2, b3] =~= seq![b0, b1, b2, b3]);
        }
    }

    pub fn write_i8(&mut self, i: i8)
        requires
            old(self).can_write(1),
        ensures
            final(self).wrote(*old(self), seq![i8_bits(i)]),
    {
        self.write_u8(i8_to_u8(i));
    }

    pub fn write_i8_le(&mut self, i: i8)
        requires
            old(self).can_write(1),
        ensures
            final(self).wrote(*old(self), seq![i8_bits(i)]),
    {
        self.write_u8(i8_to_u8(i));
    }

    pub fn write_u8_le(&mut self, i: u8)
        requires
            old(self).can_write(1),
        ensures
            final(self).wrote(*old(self), seq![i]),
    {
        self.write_u8(i);
    }

    pub fn write_i16(&mut self, i: i16)
        requires
            old(self).can_write(2),
        ensures
            final(self).wrote(*old(self), u16_be(i16_bits(i))),
    {
        self.write_u16(i16_to_u16(i));
    }

    pub fn write_i16_le(&mut self, i: i16)
        requires
            old(self).can_write(2),
        ensures
            final(self).wrote(*old(self), u16_le(i16_bits(i))),
    {
        self.write_u16_le(i16_to_u16(i));
    }

    pub fn write_u16(&mut self, i: u16)
        requires
            old(self).can_write(2),
        ensures
            final(self).wrote(*old(self), u16_be(i)),
    {
        self.write_two((i / 256) as u8, (i % 256) as u8);
    }

    pub fn write_u16_le(&mut self, i: u16)
        requires
            old(self).can_write(2),
        ensures
            final(self).wrote(*old(self), u16_le(i)),
    {
        self.write_two((i % 256) as u8, (i / 256) as u8);
    }

    pub fn write_i32(&mut self, i: i32)
        requires
            old(self).can_write(4),
        ensures
            final(self).wrote(*old(self), u32_be(i32_bits(i))),
    {
        self.write_u32(i32_to_u32(i));
    }

    pub fn write_i32_le(&mut self, i: i32)
        requires
            old(self).can_write(4),
        ensures
            final(self).wrote(*old(self), u32_le(i32_bits(i))),
    {
        self.write_u32_le(i32_to_u32(i));
    }

    pub fn write_u32(&mut self, i: u32)
        requires
            old(self).can_write(4),
        ensures
            final(self).wrote(*old(self), u32_be(i)),
    {
        self.write_four(
            (i / 0x1000000) as u8,
            (i / 0x10000 % 256) as u8,
            (i / 256 % 256) as u8,
            (i % 256) as u8,
        );
    }

    pub fn write_u32_le(&mut self, i: u32)
        requires
            old(self).can_write(4),
        ensures
            final(self).wrote(*old(self), u32_le(i)),
    {
        self.write_four(
            (i % 256) as u8,
            (i / 256 % 256) as u8,
            (i / 0x10000 % 256) as u8,
            (i / 0x1000000) as u8,
        );
    }

    /// Writes `i` in the server's packed form: one byte per 7-bit group of
    /// `i`, each byte holding the low 8 bits of `i`, with the high bit forced
    /// on for every byte but the last.
    pub fn write_packed_u32(&mut self, i: u32)
        requires
            old(self).can_write(packed_u32_bytes(i).len()),
        ensures
            final(self).wrote(*old(self), packed_u32_bytes(i)),
    {
        let ghost a0 = self.array@;
        let ghost p0 = self.position as int;
        let mut value: u32 = i;
        let mut more = true;
        let ghost mut done: Seq<u8> = Seq::empty();
        proof {
            lemma_splice_empty(a0, p0);
            assert(Seq::<u8>::empty() + packed_bytes_from(i, value) =~= packed_u32_bytes(i));
        }
        while more
            invariant
                0 <= p0 <= a0.len(),
                a0.len() + packed_u32_bytes(i).len() <= usize::MAX,
                more ==> done + packed_bytes_from(i, value) == packed_u32_bytes(i),
                !more ==> done == packed_u32_bytes(i),
                self.array@ == splice(a0, p0, done),
                self.position == p0 + done.len(),
            decreases (if more { value as int + 1 } else { 0 }),
        {
            let b: u8 = if value >= 0x80 {
                (i % 128 + 128) as u8
            } else {
                (i % 256) as u8
            };
            let ghost prev = value;
            proof {
                lemma_packed_step(i, value);
                lemma_splice_twice(a0, p0, done, seq![b]);
                if prev >= 128 {
                    assert(done + seq![b] + packed_bytes_from(i, (prev / 128) as u32) =~= done
                        + packed_bytes_from(i, prev));
                }
                assert((done + packed_bytes_from(i, prev)).len() == done.len()
                    + packed_bytes_from(i, prev).len());
                lemma_packed_len(i, prev);
            }
            self.write_u8(b);
            value = value / 128;
            proof {
                if prev < 128 {
                    assert(done + seq![b] =~= done + packed_bytes_from(i, prev));
                }
                done = done + seq![b];
            }
            if value == 0 {
                more = false;
            }
        }
    }

    /// `write_packed_u32` of the two's-complement bits of `i`.
    pub fn write_packed_i32(&mut self, i: i32)
        requires
            old(self).can_write(packed_u32_bytes(i32_bits(i)).len()),
        ensures
            final(self).wrote(*old(self), packed_u32_bytes(i32_bits(i))),
    {
        self.write_packed_u32(i32_to_u32(i));
    }

    /// Writes the packed byte length of `str` followed by its UTF-8 bytes.
    pub fn write_string(&mut self, str: String)
        requires
            old(self).can_write(string_frame(str@).len()),
        ensures
            final(self).wrote(*old(self), string_frame(str@)),
    {
        let bytes = str.as_str().as_bytes();
        let len: u32 = (bytes.len() as u64 % 0x1_0000_0000) as u32;
        let ghost a0 = self.array@;
        let ghost p0 = self.position as int;
        self.write_packed_u32(len);
        self.write_u8_arr(bytes);
        proof {
            lemma_splice_twice(a0, p0, packed_u32_bytes(len), bytes@);
        }
    }

    pub fn read_i8(&mut self) -> (r: i8)
        requires
            old(self).can_read(1),
        ensures
            r == u8_as_i8(old(self).array@[old(self).position as int]),
            final(self).consumed(*old(self), 1),
    {
        u8_to_i8(self.read_u8())
    }

    /// Same byte as `read_i8`.
    pub fn read_i8_le(&mut self) -> (r: i8)
        requires
            old(self).can_read(1),
        ensures
            r == u8_as_i8(old(self).array@[old(self).position as int]),
            final(self).consumed(*old(self), 1),
    {
        self.read_i8()
    }

    pub fn read_u8(&mut self) -> (r: u8)
        requires
            old(self).can_read(1),
        ensures
            r == old(self).array@[old(self).position as int],
            final(self).consumed(*old(self), 1),
    {
        let position = self.position;
        self.position = position + 1;
        self.array[position]
    }

    pub fn read_i16(&mut self) -> (r: i16)
        requires
            old(self).can_read(2),
        ensures
            r == u16_as_i16(be_u16(old(self).ahead(2))),
            final(self).consumed(*old(self), 2),
    {
        u16_to_i16(self.read_u16())
    }

    pub fn read_u16(&mut self) -> (r: u16)
        requires
            old(self).can_read(2),
        ensures
            r == be_u16(old(self).ahead(2)),
            final(self).consumed(*old(self), 2),
    {
        let p = self.position;
        let b0 = self.array[p];
        let b1 = self.array[p + 1];
        self.position = p + 2;
        b0 as u16 * 256 + b1 as u16
    }

    /// Little-endian counterpart of `read_u16`.
    pub fn read_u16_le(&mut self) -> (r: u16)
        requires
            old(self).can_read(2),
        ensures
            r == le_u16(old(self).ahead(2)),
            final(self).consumed(*old(self), 2),
    {
        let p = self.position;
        let b0 = self.array[p];
        let b1 = self.array[p + 1];
        self.position = p + 2;
        b1 as u16 * 256 + b0 as u16
    }

    /// Reads four bytes in the machine's (little-endian) byte order.
    pub fn read_i32(&mut self) -> (r: i32)
        requires
            old(self).can_read(4),
        ensures
            r == u32_as_i32(le_u32(old(self).ahead(4))),
            final(self).consumed(*old(self), 4),
    {
        u32_to_i32(self.read_u32())
    }

    /// Same bytes and order as `read_i32`.
    pub fn read_i32_le(&mut self) -> (r: i32)
        requires
            old(self).can_read(4),
        ensures
            r == u32_as_i32(le_u32(old(self).ahead(4))),
            final(self).consumed(*old(self), 4),
    {
        self.read_i32()
    }

    /// Reads four bytes in the machine's (little-endian) byte order.
    pub fn read_u32(&mut self) -> (r: u32)
        requires
            old(self).can_read(4),
        ensures
            r == le_u32(old(self).ahead(4)),
            final(self).consumed(*old(self), 4),
    {
        let p = self.position;
        let b0 = self.array[p];
        let b1 = self.array[p + 1];
        let b2 = self.array[p + 2];
        let b3 = self.array[p + 3];
        self.position = p + 4;
        b3 as u32 * 0x1000000 + b2 as u32 * 0x10000 + b1 as u32 * 256 + b0 as u32
    }

    /// Reads a little-endian IEEE-754 single; the result is its bit pattern.
    pub fn read_f32(&mut self) -> (r: u32)
        requires
            old(self).can_read(4),
        ensures
            r == le_u32(old(self).ahead(4)),
            final(self).consumed(*old(self), 4),
    {
        self.read_u32()
    }

    pub fn read_i64(&mut self) -> (r: i64)
        requires
            old(self).can_read(8),
        ensures
            r == u64_as_i64(be_u64(old(self).ahead(8))),
            final(self).consumed(*old(self), 8),
    {
        let p = self.position;
        let mut v: u64 = 0;
        let mut k: usize = 0;
        while k < 8
            invariant
                0 <= k <= 8,
                p + 8 <= self.array.len(),
                self.array == old(self).array,
                p == old(self).position,
                v == be_value(self.array@.subrange(p as int, p + k)),
                v < pow256(k as nat),
            decreases 8 - k,
        {
            let b = self.array[p + k];
            proof {
                let s = self.array@.subrange(p as int, p + k + 1);
                assert(s.drop_last() =~= self.array@.subrange(p as int, p + k));
                lemma_pow256_step(k as nat);
            }
            v = v * 256 + b as u64;
            k = k + 1;
        }
        self.position = p + 8;
        u64_to_i64(v)
    }

    /// Reads a packed length, then that many bytes as UTF-8 text.
    pub fn read_string(&mut self) -> (r: String)
        requires
            old(self).string_readable(),
        ensures
            r@ == decode_utf8(old(self).string_bytes()),
            final(self).array@ == old(self).array@,
            final(self).position == string_end_at(old(self).array@, old(self).position as int),
    {
        proof {
            lemma_packed_end_bounds(self.array@, self.position as int);
        }
        let length = self.read_packed_uint_32();
        let position = self.position;
        assert(position == packed_end(old(self).array@, old(self).position as int));
        assert(position + length <= self.array.len());
        let end = position + length as usize;
        self.position = end;
        let bytes = copy_range(&self.array, position, end);
        match string_from_utf8(bytes) {
            Some(s) => s,
            None => {
                proof {
                    assert(false);
                }
                String::new()
            },
        }
    }

    pub fn read_bool(&mut self) -> (r: bool)
        requires
            old(self).can_read(1),
        ensures
            r == (old(self).array@[old(self).position as int] != 0),
            final(self).consumed(*old(self), 1),
    {
        let byte = self.read_i8();
        byte != 0
    }

    /// Reads the server's packed form: bytes are taken up to and including
    /// the first one below 0x80; only the low 7 bits of the first byte and
    /// the lowest bit of the second one reach the result.
    pub fn read_packed_uint_32(&mut self) -> (r: u32)
        requires
            packed_terminates(old(self).array@, old(self).position as int),
        ensures
            r == packed_u32_value(old(self).array@, old(self).position as int),
            final(self).array@ == old(self).array@,
            final(self).position == packed_end(old(self).array@, old(self).position as int),
    {
        let ghost a = self.array@;
        let ghost p0 = self.position as int;
        let mut read_more = true;
        let mut output: u32 = 0;
        let mut shift: u32 = 0;
        proof {
            lemma_packed_end_bounds(a, p0);
        }
        while read_more
            invariant
                self.array@ == a,
                a == old(self).array@,
                p0 == old(self).position,
                p0 <= self.position,
                packed_terminates(a, p0),
                packed_end(a, p0) <= a.len(),
                read_more ==> packed_terminates(a, self.position as int),
                read_more ==> packed_end(a, self.position as int) == packed_end(a, p0),
                !read_more ==> self.position == packed_end(a, p0),
                self.position == p0 ==> read_more && output == 0 && shift == 0,
                self.position >= p0 + 2 ==> a[p0] >= 128,
                self.position == p0 + 1 ==> (read_more <==> a[p0] >= 128),
                self.position == p0 + 1 ==> output == a[p0] % 128 && shift == 7,
                self.position >= p0 + 2 ==> output == a[p0] % 128 + (a[p0 + 1] % 2) * 128
                    && shift == 14,
            decreases a.len() - self.position,
        {
            let ghost pos = self.position as int;
            let mut byte: u8 = self.read_u8();
            if byte >= 0x80 {
                read_more = true;
                byte = byte - 0x80;
            } else {
                read_more = false;
            }
            let part: u32 = if shift == 0 {
                byte as u32
            } else if shift < 8 {
                (byte as u32 % 2) * 128
            } else {
                0
            };
            output = output + part;
            if shift < 14 {
                shift = shift + 7;
            }
            proof {
                if read_more {
                    assert(packed_end(a, pos) == packed_end(a, pos + 1));
                } else {
                    assert(packed_end(a, pos) == pos + 1);
                }
            }
        }
        output
    }

    /// `read_packed_uint_32`, with the bits taken as a signed value.
    pub fn read_packed_int_32(&mut self) -> (r: i32)
        requires
            packed_terminates(old(self).array@, old(self).position as int),
        ensures
            r == packed_u32_value(old(self).array@, old(self).position as int),
            final(self).array@ == old(self).array@,
            final(self).position == packed_end(old(self).array@, old(self).position as int),
    {
        let v = self.read_packed_uint_32();
        v as i32
    }

    /// A copy of `buff`.
    pub fn new(buff: &mut Buffer) -> (r: Buffer)
        ensures
            r.array@ == old(buff).array@,
            r.position == old(buff).position,
            *final(buff) == *old(buff),
    {
        let array = copy_range(&buff.array, 0, buff.array.len());
        proof {
            assert(buff.array@.subrange(0, buff.array@.len() as int) =~= buff.array@);
        }
        Buffer { array, position: buff.position }
    }

    /// A copy of this buffer.
    pub fn clone(&self) -> (r: Buffer)
        ensures
            r.array@ == self.array@,
            r.position == self.position,
    {
        let array = copy_range(&self.array, 0, self.array.len());
        proof {
            assert(self.array@.subrange(0, self.array@.len() as int) =~= self.array@);
        }
        Buffer { array, position: self.position }
    }

    /// A string can be read at the cursor.
    pub open spec fn string_readable(self) -> bool {
        string_readable_at(self.array@, self.position as int)
    }

    /// The text bytes of the string at the cursor.
    pub open spec fn string_bytes(self) -> Seq<u8> {
        string_bytes_at(self.array@, self.position as int)
    }

    /// How many bytes the string at the cursor occupies, length included.
    pub open spec fn string_frame_len(self) -> nat {
        (string_end_at(self.array@, self.position as int) - self.position) as nat
    }
}

/// A fresh vector holding `a[start..end]`.
pub fn copy_range(a: &Vec<u8>, start: usize, end: usize) -> (r: Vec<u8>)
    requires
        start <= end <= a.len(),
    ensures
        r@ == a@.subrange(start as int, end as int),
{
    let mut r: Vec<u8> = Vec::new();
    let mut k = start;
    while k < end
        invariant
            start <= k <= end <= a.len(),
            r@ == a@.subrange(start as int, k as int),
        decreases end - k,
    {
        r.push(a[k]);
        k = k + 1;
        proof {
            assert(r@ =~= a@.subrange(start as int, k as int));
        }
    }
    r
}

/// Whether a packed number starts at index `p` of `a`.
pub fn packed_ends_at(a: &Vec<u8>, p: usize) -> (r: bool)
    ensures
        r == packed_terminates(a@, p as int),
{
    let mut i = p;
    while i < a.len() && a[i] >= 128
        invariant
            p <= i,
            packed_terminates(a@, p as int) == packed_terminates(a@, i as int),
        decreases a@.len() - i,
    {
        i = i + 1;
    }
    i < a.len()
}

/// Where the packed number that starts at index `p` of `a` ends, and the
/// value read for it.
pub fn packed_at(a: &Vec<u8>, p: usize) -> (r: (usize, u32))
    requires
        packed_terminates(a@, p as int),
    ensures
        r.0 == packed_end(a@, p as int),
        r.1 == packed_u32_value(a@, p as int),
{
    proof {
        lemma_packed_end_bounds(a@, p as int);
        assert(a@.len() == a.len());
    }
    let mut i = p;
    while a[i] >= 128
        invariant
            a@.len() <= usize::MAX,
            p <= i < a@.len(),
            packed_terminates(a@, i as int),
            packed_end(a@, p as int) == packed_end(a@, i as int),
        decreases a@.len() - i,
    {
        proof {
            lemma_packed_end_bounds(a@, i as int);
        }
        i = i + 1;
    }
    let value: u32 = if a[p] < 128 {
        a[p] as u32
    } else {
        (a[p] - 128) as u32 + (a[p + 1] % 2) as u32 * 128
    };
    (i + 1, value)
}

/// Where the string that starts at index `p` of `a` ends, when a string can
/// be read there.
pub fn string_at(a: &Vec<u8>, p: usize) -> (r: Option<usize>)
    ensures
        r is Some <==> string_readable_at(a@, p as int),
        r is Some ==> r.unwrap() == string_end_at(a@, p as int),
{
    if !packed_ends_at(a, p) {
        return None;
    }
    proof {
        lemma_packed_end_bounds(a@, p as int);
        assert(a@.len() == a.len());
    }
    let (start, n) = packed_at(a, p);
    if n as usize > a.len() - start {
        return None;
    }
    let end = start + n as usize;
    let text = copy_range(a, start, end);
    match string_from_utf8(text) {
        Some(_) => Some(end),
        None => None,
    }
}

/// A string written at the cursor of a buffer and read back from where the
/// writing started gives the string, and the reading ends where the writing
/// ended, when the string has fewer than 128 UTF-8 bytes (the lengths the
/// packed form carries faithfully).
pub proof fn lemma_write_read_string(before: Buffer, after: Buffer, s: Seq<char>)
    requires
        before.position <= before.array@.len(),
        encode_utf8(s).len() < 128,
        after.wrote(before, string_frame(s)),
    ensures
        string_readable_at(after.array@, before.position as int),
        string_chars_at(after.array@, before.position as int) == s,
        string_end_at(after.array@, before.position as int) == after.position,
{
    let p = before.position as int;
    let pre = before.array@.take(p);
    let rest = before.array@.skip(p);
    crate::util::bytes::lemma_string_roundtrip(s, pre, rest);
    assert(after.array@ =~= pre + string_frame(s) + rest);
}

} // verus!
