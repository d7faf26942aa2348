use vstd::prelude::*;
use vstd::utf8::*;

verus! {

// ---------------------------------------------------------------------
// Two's complement between signed and unsigned integers of one width.
// ---------------------------------------------------------------------
pub open spec fn i8_bits(v: i8) -> u8 {
    if v < 0 {
        (v + 0x100) as u8
    } else {
        v as u8
    }
}

pub open spec fn u8_as_i8(b: u8) -> i8 {
    if b >= 0x80 {
        (b - 0x100) as i8
    } else {
        b as i8
    }
}

pub open spec fn i16_bits(v: i16) -> u16 {
    if v < 0 {
        (v + 0x1_0000) as u16
    } else {
        v as u16
    }
}

pub open spec fn u16_as_i16(b: u16) -> i16 {
    if b >= 0x8000 {
        (b - 0x1_0000) as i16
    } else {
        b as i16
    }
}

pub open spec fn i32_bits(v: i32) -> u32 {
    if v < 0 {
        (v + 0x1_0000_0000) as u32
    } else {
        v as u32
    }
}

pub open spec fn u32_as_i32(b: u32) -> i32 {
    if b >= 0x8000_0000 {
        (b - 0x1_0000_0000) as i32
    } else {
        b as i32
    }
}

pub open spec fn u64_as_i64(b: u64) -> i64 {
    if b >= 0x8000_0000_0000_0000 {
        (b - 0x1_0000_0000_0000_0000) as i64
    } else {
        b as i64
    }
}

pub fn i8_to_u8(v: i8) -> (r: u8)
    ensures
        r == i8_bits(v),
{
    if v < 0 {
        (v as i16 + 0x100) as u8
    } else {
        v as u8
    }
}

pub fn u8_to_i8(b: u8) -> (r: i8)
    ensures
        r == u8_as_i8(b),
{
    if b >= 0x80 {
        (b as i16 - 0x100) as i8
    } else {
        b as i8
    }
}

pub fn i16_to_u16(v: i16) -> (r: u16)
    ensures
        r == i16_bits(v),
{
    if v < 0 {
        (v as i32 + 0x1_0000) as u16
    } else {
        v as u16
    }
}

pub fn u16_to_i16(b: u16) -> (r: i16)
    ensures
        r == u16_as_i16(b),
{
    if b >= 0x8000 {
        (b as i32 - 0x1_0000) as i16
    } else {
        b as i16
    }
}

pub fn i32_to_u32(v: i32) -> (r: u32)
    ensures
        r == i32_bits(v),
{
    if v < 0 {
        (v as i64 + 0x1_0000_0000) as u32
    } else {
        v as u32
    }
}

pub fn u32_to_i32(b: u32) -> (r: i32)
    ensures
        r == u32_as_i32(b),
{
    if b >= 0x8000_0000 {
        (b as i64 - 0x1_0000_0000) as i32
    } else {
        b as i32
    }
}

pub fn u64_to_i64(b: u64) -> (r: i64)
    ensures
        r == u64_as_i64(b),
{
    if b >= 0x8000_0000_0000_0000 {
        (b as i128 - 0x1_0000_0000_0000_0000) as i64
    } else {
        b as i64
    }
}

// ---------------------------------------------------------------------
// Fixed-width encodings.
// ---------------------------------------------------------------------
pub open spec fn u16_be(v: u16) -> Seq<u8> {
    seq![(v / 256) as u8, (v % 256) as u8]
}

pub open spec fn u16_le(v: u16) -> Seq<u8> {
    seq![(v % 256) as u8, (v / 256) as u8]
}

pub open spec fn u32_be(v: u32) -> Seq<u8> {
    seq![(v / 0x1000000) as u8, (v / 0x10000 % 256) as u8, (v / 256 % 256) as u8, (v % 256) as u8]
}

pub open spec fn u32_le(v: u32) -> Seq<u8> {
    seq![(v % 256) as u8, (v / 256 % 256) as u8, (v / 0x10000 % 256) as u8, (v / 0x1000000) as u8]
}

pub open spec fn be_u16(s: Seq<u8>) -> u16 {
    (s[0] * 256 + s[1]) as u16
}

pub open spec fn le_u16(s: Seq<u8>) -> u16 {
    (s[1] * 256 + s[0]) as u16
}

pub open spec fn be_u32(s: Seq<u8>) -> u32 {
    (s[0] * 0x1000000 + s[1] * 0x10000 + s[2] * 256 + s[3]) as u32
}

pub open spec fn le_u32(s: Seq<u8>) -> u32 {
    (s[3] * 0x1000000 + s[2] * 0x10000 + s[1] * 256 + s[0]) as u32
}

/// Two bytes written big-endian read back, big-endian, as the number written.
pub proof fn lemma_u16_be_roundtrip(v: u16)
    ensures
        be_u16(u16_be(v)) == v,
{
}

/// Four bytes written little-endian read back, little-endian, as the number
/// written.
pub proof fn lemma_u32_le_roundtrip(v: u32)
    ensures
        le_u32(u32_le(v)) == v,
{
}

/// Four bytes written big-endian read back, big-endian, as the number
/// written.
pub proof fn lemma_u32_be_roundtrip(v: u32)
    ensures
        be_u32(u32_be(v)) == v,
{
}

/// A signed number written as four little-endian bytes reads back as itself.
pub proof fn lemma_i32_le_roundtrip(v: i32)
    ensures
        u32_as_i32(le_u32(u32_le(i32_bits(v)))) == v,
{
    lemma_u32_le_roundtrip(i32_bits(v));
}

/// The bytes of `s` read as one big-endian number.
pub open spec fn be_value(s: Seq<u8>) -> nat
    decreases s.len(),
{
    if s.len() == 0 {
        0
    } else {
        be_value(s.drop_last()) * 256 + s.last() as nat
    }
}

pub open spec fn be_u64(s: Seq<u8>) -> u64 {
    be_value(s) as u64
}

pub open spec fn pow256(n: nat) -> nat
    decreases n,
{
    if n == 0 {
        1
    } else {
        256 * pow256((n - 1) as nat)
    }
}

pub proof fn lemma_pow256_step(k: nat)
    requires
        k < 8,
    ensures
        pow256(k + 1) == 256 * pow256(k),
        pow256(k) <= 0x100_0000_0000_0000,
{
    reveal_with_fuel(pow256, 9);
    if k == 0 {
    } else if k == 1 {
    } else if k == 2 {
    } else if k == 3 {
    } else if k == 4 {
    } else if k == 5 {
    } else if k == 6 {
    } else {
    }
}

// ---------------------------------------------------------------------
// Values read at an index of a byte sequence.
// ---------------------------------------------------------------------
pub open spec fn i8_at(a: Seq<u8>, p: int) -> i8 {
    u8_as_i8(a[p])
}

pub open spec fn bool_at(a: Seq<u8>, p: int) -> bool {
    a[p] != 0
}

pub open spec fn be_i16_at(a: Seq<u8>, p: int) -> i16 {
    u16_as_i16(be_u16(a.subrange(p, p + 2)))
}

pub open spec fn le_u16_at(a: Seq<u8>, p: int) -> u16 {
    le_u16(a.subrange(p, p + 2))
}

pub open spec fn le_u32_at(a: Seq<u8>, p: int) -> u32 {
    le_u32(a.subrange(p, p + 4))
}

pub open spec fn le_i32_at(a: Seq<u8>, p: int) -> i32 {
    u32_as_i32(le_u32(a.subrange(p, p + 4)))
}

// ---------------------------------------------------------------------
// The server's packed integer form.
// ---------------------------------------------------------------------
/// The bytes written for `i` once the running value has reached `v`.
pub open spec fn packed_bytes_from(i: u32, v: u32) -> Seq<u8>
    decreases v,
{
    if v < 128 {
        seq![(i % 256) as u8]
    } else {
        seq![(i % 128 + 128) as u8] + packed_bytes_from(i, (v / 128) as u32)
    }
}

pub open spec fn packed_u32_bytes(i: u32) -> Seq<u8> {
    packed_bytes_from(i, i)
}

pub proof fn lemma_packed_len(i: u32, v: u32)
    ensures
        1 <= packed_bytes_from(i, v).len() <= 5,
        packed_bytes_from(i, v)[0] == if v >= 128 {
            (i % 128 + 128) as u8
        } else {
            (i % 256) as u8
        },
        v < 128 ==> packed_bytes_from(i, v).len() == 1,
    decreases v,
{
    if v >= 128 {
        lemma_packed_len(i, (v / 128) as u32);
        if v / 128 >= 128 {
            if v / 128 / 128 >= 128 {
                if v / 128 / 128 / 128 >= 128 {
                    assert(v / 128 / 128 / 128 / 128 < 128);
                }
            }
        }
        lemma_packed_len_bound(i, v);
    }
}

/// One step of the packed encoding.
pub proof fn lemma_packed_step(i: u32, v: u32)
    ensures
        v >= 128 ==> packed_bytes_from(i, v) == seq![(i % 128 + 128) as u8] + packed_bytes_from(
            i,
            (v / 128) as u32,
        ),
        v < 128 ==> packed_bytes_from(i, v) == seq![(i % 256) as u8],
{
}

proof fn lemma_packed_len_bound(i: u32, v: u32)
    ensures
        packed_bytes_from(i, v).len() <= 5,
{
    reveal_with_fuel(packed_bytes_from, 6);
    let v1 = (v / 128) as u32;
    let v2 = (v1 / 128) as u32;
    let v3 = (v2 / 128) as u32;
    let v4 = (v3 / 128) as u32;
    assert(v4 < 128);
    assert(packed_bytes_from(i, v4).len() == 1);
    assert(packed_bytes_from(i, v3).len() <= 2);
    assert(packed_bytes_from(i, v2).len() <= 3);
    assert(packed_bytes_from(i, v1).len() <= 4);
}

/// A packed number starts at `p`: some byte at or after `p` is below 0x80.
pub open spec fn packed_terminates(a: Seq<u8>, p: int) -> bool
    decreases a.len() - p,
{
    if p < 0 || p >= a.len() {
        false
    } else if a[p] < 128 {
        true
    } else {
        packed_terminates(a, p + 1)
    }
}

/// Where the packed number that starts at `p` ends (one past its last byte).
pub open spec fn packed_end(a: Seq<u8>, p: int) -> int
    decreases a.len() - p,
{
    if p < 0 || p >= a.len() {
        p
    } else if a[p] < 128 {
        p + 1
    } else {
        packed_end(a, p + 1)
    }
}

/// The value read for the packed number at `p`.
pub open spec fn packed_u32_value(a: Seq<u8>, p: int) -> u32 {
    if a[p] < 128 {
        a[p] as u32
    } else {
        (a[p] - 128 + (a[p + 1] % 2) * 128) as u32
    }
}

pub proof fn lemma_packed_end_bounds(a: Seq<u8>, p: int)
    requires
        packed_terminates(a, p),
    ensures
        p < packed_end(a, p) <= a.len(),
        a[p] >= 128 ==> p + 1 < a.len() && packed_terminates(a, p + 1),
    decreases a.len() - p,
{
    if a[p] >= 128 {
        lemma_packed_end_bounds(a, p + 1);
    }
}

/// Where the string that starts at `p` ends: behind its packed length and
/// the bytes that the length announces.
pub open spec fn string_end_at(a: Seq<u8>, p: int) -> int {
    packed_end(a, p) + packed_u32_value(a, p)
}

/// The text bytes of the string that starts at `p`.
pub open spec fn string_bytes_at(a: Seq<u8>, p: int) -> Seq<u8> {
    a.subrange(packed_end(a, p), string_end_at(a, p))
}

/// A string can be read at `p`: its packed length ends in `a`, the text it
/// announces lies inside `a` and is UTF-8.
pub open spec fn string_readable_at(a: Seq<u8>, p: int) -> bool {
    &&& packed_terminates(a, p)
    &&& string_end_at(a, p) <= a.len()
    &&& valid_utf8(string_bytes_at(a, p))
}

/// The characters of the string that starts at `p`.
pub open spec fn string_chars_at(a: Seq<u8>, p: int) -> Seq<char> {
    decode_utf8(string_bytes_at(a, p))
}

/// The packed length prefix and UTF-8 bytes of a string.
pub open spec fn string_frame(chars: Seq<char>) -> Seq<u8> {
    let bytes = encode_utf8(chars);
    packed_u32_bytes((bytes.len() % 0x1_0000_0000) as u32) + bytes
}

/// A number below 128 written in packed form reads back as itself, from a
/// single byte, whatever surrounds it.
pub proof fn lemma_packed_roundtrip(v: u32, pre: Seq<u8>, rest: Seq<u8>)
    requires
        v < 128,
    ensures
        ({
            let a = pre + packed_u32_bytes(v) + rest;
            let p = pre.len() as int;
            &&& packed_u32_bytes(v).len() == 1
            &&& packed_terminates(a, p)
            &&& packed_end(a, p) == p + 1
            &&& packed_u32_value(a, p) == v
        }),
{
    let a = pre + packed_u32_bytes(v) + rest;
    let p = pre.len() as int;
    assert(packed_u32_bytes(v) == seq![(v % 256) as u8]);
    assert(a[p] == v);
}

/// A string of fewer than 128 UTF-8 bytes, written with its packed length,
/// reads back as itself and ends where its bytes end, whatever surrounds
/// it.
pub proof fn lemma_string_roundtrip(s: Seq<char>, pre: Seq<u8>, rest: Seq<u8>)
    requires
        encode_utf8(s).len() < 128,
    ensures
        ({
            let a = pre + string_frame(s) + rest;
            let p = pre.len() as int;
            &&& string_readable_at(a, p)
            &&& string_chars_at(a, p) == s
            &&& string_end_at(a, p) == p + string_frame(s).len()
        }),
{
    let bytes = encode_utf8(s);
    let n = (bytes.len() % 0x1_0000_0000) as u32;
    assert(n == bytes.len());
    let a = pre + string_frame(s) + rest;
    let p = pre.len() as int;
    lemma_packed_roundtrip(n, pre, bytes + rest);
    assert(a =~= pre + packed_u32_bytes(n) + (bytes + rest));
    assert(string_bytes_at(a, p) =~= bytes);
    encode_utf8_valid_utf8(s);
    encode_utf8_decode_utf8(s);
}

// ---------------------------------------------------------------------
// UTF-8 decoding in std.
// ---------------------------------------------------------------------
/// Calls `String::from_utf8`: as std documents, the bytes become a string
/// exactly when they are valid UTF-8, and the string then holds the
/// characters they encode.
#[verifier::external_body]
pub(crate) fn string_from_utf8(bytes: Vec<u8>) -> (r: Option<String>)
    ensures
        r is Some <==> valid_utf8(bytes@),
        r is Some ==> r.unwrap()@ == decode_utf8(bytes@),
{
    String::from_utf8(bytes).ok()
}

} // verus!
