//! The identifier of a film: a short, stable fingerprint of its content.

use vstd::prelude::*;
use vstd::string::*;
use vstd::bytes::{spec_u32_to_le_bytes, u32_to_le_bytes};
use vstd::std_specs::hash::DefaultHasherAdditionalSpecFns;
use vstd::utf8::encode_utf8;
use std::collections::hash_map::DefaultHasher;
use std::hash::Hasher;
use crate::film::{Film, FilmView};

verus! {

/// The number of characters in an identifier.
pub const ID_LENGTH: usize = 6;

/// The lower-case hexadecimal digit for `n`, where `0 <= n < 16`.
pub open spec fn hex_digit(n: int) -> char {
    seq!['0', '1', '2', '3', '4', '5', '6', '7', '8', '9', 'a', 'b', 'c', 'd', 'e', 'f'][n]
}

/// Whether `c` is a lower-case hexadecimal digit.
pub open spec fn is_hex_digit(c: char) -> bool {
    ('0' <= c && c <= '9') || ('a' <= c && c <= 'f')
}

/// A byte as two hexadecimal digits, the high half first.
pub open spec fn hex_byte(b: u8) -> Seq<char> {
    seq![hex_digit(b as int / 16), hex_digit(b as int % 16)]
}

/// A run of bytes as hexadecimal digits, two for each byte.
pub open spec fn hex_bytes(bytes: Seq<u8>) -> Seq<char>
    decreases bytes.len(),
{
    if bytes.len() == 0 {
        Seq::empty()
    } else {
        hex_bytes(bytes.drop_last()) + hex_byte(bytes.last())
    }
}

/// The three most significant bytes of `h`, the most significant first.
pub open spec fn leading_bytes(h: u64) -> Seq<u8> {
    seq![
        (h as int / 0x100_0000_0000_0000) as u8,
        (h as int / 0x1_0000_0000_0000 % 0x100) as u8,
        (h as int / 0x100_0000_0000 % 0x100) as u8,
    ]
}

/// What is fed to the hasher for a film, write by write: the title and a
/// closing byte, the year as four bytes with the least significant first, the
/// address and a closing byte.
pub open spec fn hashed(film: FilmView) -> Seq<Seq<u8>> {
    seq![
        encode_utf8(film.title),
        seq![0xffu8],
        spec_u32_to_le_bytes(film.year),
        encode_utf8(film.url),
        seq![0xffu8],
    ]
}

/// The 64-bit digest of a film under the standard library's default hasher
/// with its fixed keys.
pub open spec fn digest(film: FilmView) -> u64 {
    DefaultHasher::spec_finish(hashed(film))
}

/// The identifier of a film: the three leading bytes of its digest in
/// hexadecimal. It depends on the film's content and on nothing else.
pub open spec fn fingerprint(film: FilmView) -> Seq<char> {
    hex_bytes(leading_bytes(digest(film)))
}

/// Each byte adds two hexadecimal digits.
pub proof fn lemma_hex_bytes_shape(bytes: Seq<u8>)
    ensures
        hex_bytes(bytes).len() == 2 * bytes.len(),
        forall|i: int|
            0 <= i < hex_bytes(bytes).len() ==> is_hex_digit(#[trigger] hex_bytes(bytes)[i]),
    decreases bytes.len(),
{
    if bytes.len() > 0 {
        lemma_hex_bytes_shape(bytes.drop_last());
    }
}

/// An identifier is six lower-case hexadecimal digits.
pub proof fn lemma_fingerprint_shape(film: FilmView)
    ensures
        fingerprint(film).len() == ID_LENGTH,
        forall|i: int| 0 <= i < ID_LENGTH ==> is_hex_digit(#[trigger] fingerprint(film)[i]),
{
    lemma_hex_bytes_shape(leading_bytes(digest(film)));
}

/// The text of one hexadecimal digit.
fn hex_digit_text(n: u8) -> (r: &'static str)
    requires
        n < 16,
    ensures
        r@ == seq![hex_digit(n as int)],
{
    proof {
        reveal_strlit("0");
        reveal_strlit("1");
        reveal_strlit("2");
        reveal_strlit("3");
        reveal_strlit("4");
        reveal_strlit("5");
        reveal_strlit("6");
        reveal_strlit("7");
        reveal_strlit("8");
        reveal_strlit("9");
        reveal_strlit("a");
        reveal_strlit("b");
        reveal_strlit("c");
        reveal_strlit("d");
        reveal_strlit("e");
        reveal_strlit("f");
    }
    match n {
        0 => "0",
        1 => "1",
        2 => "2",
        3 => "3",
        4 => "4",
        5 => "5",
        6 => "6",
        7 => "7",
        8 => "8",
        9 => "9",
        10 => "a",
        11 => "b",
        12 => "c",
        13 => "d",
        14 => "e",
        _ => "f",
    }
}

/// Writes bytes as lower-case hexadecimal digits, two for each byte.
pub fn to_hex(bytes: &[u8]) -> (text: String)
    ensures
        text@ == hex_bytes(bytes@),
{
    let mut text = String::new();
    let n: usize = bytes.len();
    let mut i: usize = 0;
    while i < n
        invariant
            i <= n,
            n == bytes@.len(),
            text@ == hex_bytes(bytes@.subrange(0, i as int)),
        decreases n - i,
    {
        let b: u8 = bytes[i];
        proof {
            assert(bytes@.subrange(0, i + 1).drop_last() =~= bytes@.subrange(0, i as int));
        }
        text.append(hex_digit_text(b / 16));
        text.append(hex_digit_text(b % 16));
        i = i + 1;
    }
    proof {
        assert(bytes@.subrange(0, n as int) =~= bytes@);
    }
    text
}

/// The identifier of `film`: six lower-case hexadecimal digits, the same for
/// the same content in every run.
pub fn sha(film: &Film) -> (id: String)
    ensures
        id@ == fingerprint(film@),
        id@.len() == ID_LENGTH,
        forall|i: int| 0 <= i < ID_LENGTH ==> is_hex_digit(#[trigger] id@[i]),
{
    proof {
        lemma_fingerprint_shape(film@);
    }
    let mut closing: Vec<u8> = Vec::new();
    closing.push(0xff);
    let year = u32_to_le_bytes(film.year());
    let mut hasher = DefaultHasher::new();
    hasher.write(film.title().as_bytes());
    hasher.write(closing.as_slice());
    hasher.write(year.as_slice());
    hasher.write(film.url().as_bytes());
    hasher.write(closing.as_slice());
    proof {
        assert(hasher@ =~= hashed(film@));
    }
    let h: u64 = hasher.finish();
    let mut leading: Vec<u8> = Vec::new();
    leading.push((h / 0x100_0000_0000_0000) as u8);
    leading.push((h / 0x1_0000_0000_0000 % 0x100) as u8);
    leading.push((h / 0x100_0000_0000 % 0x100) as u8);
    proof {
        assert(leading@ =~= leading_bytes(h));
    }
    to_hex(leading.as_slice())
}

} // verus!
