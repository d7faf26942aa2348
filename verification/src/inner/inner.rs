use vstd::prelude::*;
use vstd::utf8::*;
use crate::networking::buffer::Buffer;
use crate::util::bytes::{be_u32, i32_bits, i32_to_u32, u32_as_i32};
use crate::util::text::{
    alphabetic, ascii_upper, chars_of, is_alphabetic, is_ascii_letter, string_push, to_uppercase,
    uppercase,
};

verus! {

/// The letters of game codes, in the order of their values.
pub open spec fn char_set() -> Seq<char> {
    seq!['Q', 'W', 'X', 'R', 'T', 'Y', 'L', 'P', 'E', 'S', 'D', 'F', 'G', 'H', 'U', 'J', 'K', 'Z', 'O', 'C', 'V', 'B', 'I', 'N', 'M', 'A']
}

/// The value of each letter `A` to `Z`.
pub open spec fn char_map() -> Seq<int> {
    seq![25, 21, 19, 10, 8, 11, 12, 13, 22, 15, 16, 6, 24, 23, 18, 7, 0, 3, 9, 4, 14, 20, 1, 2, 5, 17]
}

pub open spec fn letter_value(c: char) -> int {
    char_map()[(c as int) - 65]
}

pub open spec fn is_code_letter(c: char) -> bool {
    'A' <= c <= 'Z'
}

/// The number of a six-letter code: the first two letters in the low ten
/// bits, the last four above them, and the sign bit set.
pub open spec fn six_letter_value(s: Seq<char>) -> i32 {
    let first_two = letter_value(s[0]) + 26 * letter_value(s[1]);
    let last_four = letter_value(s[2]) + 26 * (letter_value(s[3]) + 26 * (letter_value(s[4]) + 26
        * letter_value(s[5])));
    (first_two + last_four * 1024 - 0x8000_0000) as i32
}

/// A string's characters in upper case: the ASCII mapping for ASCII text,
/// Unicode's otherwise.
pub open spec fn upper(s: Seq<char>) -> Seq<char> {
    if forall|i: int| 0 <= i < s.len() ==> (#[trigger] s[i] as u32) < 128 {
        s.map_values(|c: char| ascii_upper(c))
    } else {
        uppercase(s)
    }
}

/// Whether a character is alphabetic: an ASCII letter, or a character with
/// Unicode's `Alphabetic` property.
pub open spec fn is_alpha(c: char) -> bool {
    if (c as u32) < 128 {
        is_ascii_letter(c)
    } else {
        alphabetic(c)
    }
}

/// The number `code_to_int` gives for the text `s`.
pub open spec fn code_value(s: Seq<char>) -> i32 {
    let up = upper(s);
    let bytes = encode_utf8(up);
    if exists|i: int| 0 <= i < up.len() && !is_alpha(#[trigger] up[i]) {
        0
    } else if bytes.len() == 4 {
        u32_as_i32(be_u32(bytes))
    } else if bytes.len() != 6 {
        0
    } else {
        six_letter_value(up)
    }
}

/// `code_to_int` can take `s`: an alphabetic six-byte code is made of six
/// letters `A` to `Z` once in upper case.
pub open spec fn code_convertible(s: Seq<char>) -> bool {
    let up = upper(s);
    (forall|i: int| 0 <= i < up.len() ==> is_alpha(#[trigger] up[i])) && encode_utf8(up).len()
        == 6 ==> up.len() == 6 && forall|i: int| 0 <= i < 6 ==> is_code_letter(#[trigger] up[i])
}

/// The text `int_to_code` gives for `number`.
pub open spec fn code_text(number: i32) -> Seq<char> {
    if number < 0 {
        let bits = i32_bits(number);
        let first_two = (bits % 1024) as int;
        let last_four = ((bits / 1024) % 0x10_0000) as int;
        seq![
            char_set()[first_two % 26],
            char_set()[first_two / 26],
            char_set()[last_four % 26],
            char_set()[(last_four / 26) % 26],
            char_set()[(last_four / 26 / 26) % 26],
            char_set()[(last_four / 26 / 26 / 26) % 26],
        ]
    } else {
        Seq::empty()
    }
}

/// `int_to_code` can take `number`: a negative number's first two letters
/// exist.
pub open spec fn code_printable(number: i32) -> bool {
    number < 0 ==> i32_bits(number) % 1024 < 676
}

fn char_map_at(k: usize) -> (r: i32)
    requires
        k < 26,
    ensures
        r == char_map()[k as int],
{
    let m: [i32; 26] = [
        25, 21, 19, 10, 8, 11, 12, 13, 22, 15, 16, 6, 24, 23, 18, 7, 0, 3, 9, 4, 14, 20, 1, 2, 5, 17,
    ];
    proof {
        assert(m@ =~= char_map().map_values(|v: int| v as i32));
    }
    m[k]
}

fn char_set_at(k: u32) -> (r: char)
    requires
        k < 26,
    ensures
        r == char_set()[k as int],
{
    let m: [char; 26] = [
        'Q', 'W', 'X', 'R', 'T', 'Y', 'L', 'P', 'E', 'S', 'D', 'F', 'G', 'H', 'U', 'J', 'K', 'Z', 'O', 'C', 'V', 'B', 'I', 'N', 'M', 'A',
    ];
    proof {
        assert(m@ =~= char_set());
    }
    m[k as usize]
}

fn letter_at(arr: &Vec<char>, k: usize) -> (r: i32)
    requires
        k < arr@.len(),
        is_code_letter(arr@[k as int]),
    ensures
        r == letter_value(arr@[k as int]),
{
    char_map_at((arr[k] as u32 - 65) as usize)
}

fn bytes_to_vec(b: &[u8]) -> (r: Vec<u8>)
    ensures
        r@ == b@,
{
    let mut r: Vec<u8> = Vec::new();
    for k in 0..b.len()
        invariant
            r@ == b@.take(k as int),
    {
        r.push(b[k]);
        proof {
            assert(r@ =~= b@.take(k + 1));
        }
    }
    proof {
        assert(b@.take(b@.len() as int) =~= b@);
    }
    r
}

/// The number of a game code: 0 unless the upper-cased code is alphabetic;
/// the four bytes, big-endian, of a four-byte code; the six-letter number of
/// a six-byte code; 0 for any other length.
#[verifier::rlimit(40)]
pub fn code_to_int(game_code: String) -> (r: i32)
    requires
        code_convertible(game_code@),
    ensures
        r == code_value(game_code@),
{
    let up = to_uppercase(game_code.as_str());
    proof {
        assert(up@ == upper(game_code@));
    }
    let arr = chars_of(up.as_str());
    let mut k: usize = 0;
    while k < arr.len()
        invariant
            arr@ == up@,
            up@ == upper(game_code@),
            0 <= k <= arr@.len(),
            forall|i: int| 0 <= i < k ==> is_alpha(#[trigger] arr@[i]),
        decreases arr@.len() - k,
    {
        if !is_alphabetic(arr[k]) {
            proof {
                let u = upper(game_code@);
                assert(!is_alpha(u[k as int]));
                assert(exists|i: int| 0 <= i < u.len() && !is_alpha(#[trigger] u[i]));
            }
            return 0;
        }
        k = k + 1;
    }
    let bytes = up.as_str().as_bytes();
    if bytes.len() == 4 {
        let mut buffer = Buffer::new(bytes_to_vec(bytes));
        proof {
            assert(buffer.ahead(4) =~= bytes@);
        }
        return buffer.read_int_32();
    }
    if bytes.len() != 6 {
        return 0;
    }
    let first = letter_at(&arr, 0);
    let second = letter_at(&arr, 1);
    let third = letter_at(&arr, 2);
    let fourth = letter_at(&arr, 3);
    let fifth = letter_at(&arr, 4);
    let sixth = letter_at(&arr, 5);
    let first_two = first + 26 * second;
    let last_four = third + 26 * (fourth + 26 * (fifth + 26 * sixth));
    first_two + last_four * 1024 - 0x7FFF_FFFF - 1
}

/// `code_to_int` where it is defined, and `None` where it cannot take the
/// code.
pub fn checked_code_to_int(game_code: String) -> (r: Option<i32>)
    ensures
        r is Some <==> code_convertible(game_code@),
        r is Some ==> r.unwrap() == code_value(game_code@),
{
    let up = to_uppercase(game_code.as_str());
    let arr = chars_of(up.as_str());
    let bytes = up.as_str().as_bytes();
    let mut all_alpha = true;
    let mut all_letters = true;
    let mut k: usize = 0;
    while k < arr.len()
        invariant
            arr@ == up@,
            up@ == upper(game_code@),
            0 <= k <= arr@.len(),
            all_alpha <==> forall|i: int| 0 <= i < k ==> is_alpha(#[trigger] arr@[i]),
            all_letters <==> forall|i: int| 0 <= i < k ==> is_code_letter(#[trigger] arr@[i]),
        decreases arr@.len() - k,
    {
        if !is_alphabetic(arr[k]) {
            all_alpha = false;
        }
        if !('A' <= arr[k] && arr[k] <= 'Z') {
            all_letters = false;
        }
        k = k + 1;
    }
    if all_alpha && bytes.len() == 6 && !(arr.len() == 6 && all_letters) {
        return None;
    }
    Some(code_to_int(game_code))
}

/// The six letters of a negative game-code number, empty text for any
/// other number.
pub fn int_to_code(number: i32) -> (r: String)
    requires
        code_printable(number),
    ensures
        r@ == code_text(number),
{
    let mut s = String::new();
    if number < 0 {
        let bits = i32_to_u32(number);
        let first_two = bits % 1024;
        let last_four = (bits / 1024) % 0x10_0000;
        string_push(&mut s, char_set_at(first_two % 26));
        string_push(&mut s, char_set_at(first_two / 26));
        string_push(&mut s, char_set_at(last_four % 26));
        string_push(&mut s, char_set_at((last_four / 26) % 26));
        string_push(&mut s, char_set_at((last_four / 26 / 26) % 26));
        string_push(&mut s, char_set_at((last_four / 26 / 26 / 26) % 26));
        proof {
            assert(s@ =~= code_text(number));
        }
    } else {
        proof {
            assert(s@ =~= code_text(number));
        }
    }
    s
}

/// Each letter's value leads back to the letter in the letter table.
proof fn lemma_letter_table(c: char)
    requires
        is_code_letter(c),
    ensures
        0 <= letter_value(c) < 26,
        char_set()[letter_value(c)] == c,
{
    let k = (c as int) - 65;
    assert(0 <= k < 26);
    assert(char_map()[k] == seq![25int, 21, 19, 10, 8, 11, 12, 13, 22, 15, 16, 6, 24, 23, 18, 7, 0, 3, 9, 4, 14, 20, 1, 2, 5, 17][k]);
    if k == 0 { assert(c == 'A'); } else if k == 1 { assert(c == 'B'); }
    else if k == 2 { assert(c == 'C'); } else if k == 3 { assert(c == 'D'); }
    else if k == 4 { assert(c == 'E'); } else if k == 5 { assert(c == 'F'); }
    else if k == 6 { assert(c == 'G'); } else if k == 7 { assert(c == 'H'); }
    else if k == 8 { assert(c == 'I'); } else if k == 9 { assert(c == 'J'); }
    else if k == 10 { assert(c == 'K'); } else if k == 11 { assert(c == 'L'); }
    else if k == 12 { assert(c == 'M'); } else if k == 13 { assert(c == 'N'); }
    else if k == 14 { assert(c == 'O'); } else if k == 15 { assert(c == 'P'); }
    else if k == 16 { assert(c == 'Q'); } else if k == 17 { assert(c == 'R'); }
    else if k == 18 { assert(c == 'S'); } else if k == 19 { assert(c == 'T'); }
    else if k == 20 { assert(c == 'U'); } else if k == 21 { assert(c == 'V'); }
    else if k == 22 { assert(c == 'W'); } else if k == 23 { assert(c == 'X'); }
    else if k == 24 { assert(c == 'Y'); } else { assert(c == 'Z'); }
}

/// The code alphabet is the client's: the letters of a game code, in the
/// order of their values, spell `QWXRTYLPESDFGHUJKZOCVBINMA`, so that `Q` is
/// worth 0, `W` 1, and so on to `A`, worth 25; each letter `A` to `Z` has the
/// value of its place in that spelling.
pub proof fn lemma_client_alphabet(c: char)
    requires
        is_code_letter(c),
    ensures
        char_set() == "QWXRTYLPESDFGHUJKZOCVBINMA"@,
        0 <= letter_value(c) < 26,
        "QWXRTYLPESDFGHUJKZOCVBINMA"@[letter_value(c)] == c,
{
    reveal_strlit("QWXRTYLPESDFGHUJKZOCVBINMA");
    assert(char_set() =~= "QWXRTYLPESDFGHUJKZOCVBINMA"@);
    lemma_letter_table(c);
}

/// The number of the code `QWERTY`, the client's own example.
pub proof fn lemma_qwerty_value()
    ensures
        six_letter_value("QWERTY"@) == -2054637542i32,
{
    reveal_strlit("QWERTY");
    let s = "QWERTY"@;
    assert(letter_value(s[0]) == 0);
    assert(letter_value(s[1]) == 1);
    assert(letter_value(s[2]) == 8);
    assert(letter_value(s[3]) == 3);
    assert(letter_value(s[4]) == 4);
    assert(letter_value(s[5]) == 5);
}

/// A number built from six letters is negative and its letters come back.
proof fn lemma_six_letters_back(up: Seq<char>)
    requires
        up.len() == 6,
        forall|i: int| 0 <= i < 6 ==> is_code_letter(#[trigger] up[i]),
    ensures
        code_printable(six_letter_value(up)),
        code_text(six_letter_value(up)) == up,
{
    let a = letter_value(up[0]);
    let b = letter_value(up[1]);
    let c = letter_value(up[2]);
    let d = letter_value(up[3]);
    let e = letter_value(up[4]);
    let f = letter_value(up[5]);
    lemma_letter_table(up[0]);
    lemma_letter_table(up[1]);
    lemma_letter_table(up[2]);
    lemma_letter_table(up[3]);
    lemma_letter_table(up[4]);
    lemma_letter_table(up[5]);
    let first_two = a + 26 * b;
    let last_four = c + 26 * (d + 26 * (e + 26 * f));
    assert(0 <= last_four < 456976) by (nonlinear_arith)
        requires
            0 <= c < 26, 0 <= d < 26, 0 <= e < 26, 0 <= f < 26, last_four == c + 26 * (d + 26 * (e + 26 * f)),
    ;
    let v = six_letter_value(up);
    assert(v == first_two + last_four * 1024 - 0x8000_0000);
    let bits = i32_bits(v);
    assert(bits == first_two + last_four * 1024 + 0x8000_0000);
    assert(bits % 1024 == first_two) by (nonlinear_arith)
        requires
            bits == first_two + last_four * 1024 + 0x8000_0000, 0 <= first_two < 1024, 0 <= last_four,
    ;
    assert((bits / 1024) % 0x10_0000 == last_four) by (nonlinear_arith)
        requires
            bits == first_two + last_four * 1024 + 0x8000_0000, 0 <= first_two < 1024, 0 <= last_four < 0x10_0000,
    ;
    assert(first_two % 26 == a && first_two / 26 == b) by (nonlinear_arith)
        requires first_two == a + 26 * b, 0 <= a < 26, 0 <= b < 26,
    ;
    assert(last_four % 26 == c && (last_four / 26) % 26 == d && (last_four / 26 / 26) % 26 == e
        && (last_four / 26 / 26 / 26) % 26 == f) by (nonlinear_arith)
        requires
            last_four == c + 26 * (d + 26 * (e + 26 * f)), 0 <= c < 26, 0 <= d < 26, 0 <= e < 26, 0 <= f < 26,
    ;
    assert(code_text(v) =~= up);
}

/// A game code of six ASCII letters, in either case, turned into its number
/// and that number back into a code gives the code in upper case.
pub proof fn lemma_code_roundtrip(s: Seq<char>)
    requires
        s.len() == 6,
        forall|i: int| 0 <= i < 6 ==> is_ascii_letter(#[trigger] s[i]),
    ensures
        code_convertible(s),
        code_printable(code_value(s)),
        code_text(code_value(s)) == s.map_values(|c: char| ascii_upper(c)),
{
    let up = s.map_values(|c: char| ascii_upper(c));
    assert forall|i: int| 0 <= i < s.len() implies (#[trigger] s[i] as u32) < 128 by {
        assert(is_ascii_letter(s[i]));
    }
    assert(upper(s) == up);
    assert forall|i: int| 0 <= i < 6 implies is_code_letter(#[trigger] up[i]) && is_alpha(up[i]) by {
        assert(is_ascii_letter(s[i]));
    }
    assert(is_ascii_chars(up));
    is_ascii_chars_encode_utf8(up);
    assert(!(exists|i: int| 0 <= i < up.len() && !is_alpha(#[trigger] up[i])));
    assert(code_value(s) == six_letter_value(up));
    lemma_six_letters_back(up);
}

} // verus!
