//! Identifiers of snapshots and backups.
//!
//! An identifier is a random 128-bit value.  Snapshots keep the number;
//! backups are addressed by its hyphenated text, whose first two characters
//! name the directory shard of the backup.

use uuid::{Builder, Uuid};
use vstd::prelude::*;

verus! {

/// The lower-case hexadecimal digit for `n`, where `0 <= n < 16`.
pub open spec fn hex_digit(n: int) -> char {
    seq!['0', '1', '2', '3', '4', '5', '6', '7', '8', '9', 'a', 'b', 'c', 'd', 'e', 'f'][n]
}

/// True for the sixteen lower-case hexadecimal digits.
pub open spec fn is_hex_digit(c: char) -> bool {
    ('0' <= c && c <= '9') || ('a' <= c && c <= 'f')
}

/// The `k`-th of the 32 hexadecimal digits of `id`, the most significant
/// first.
pub open spec fn nibble(id: u128, k: int) -> int {
    ((id as int) / pow16(31 - k)) % 16
}

/// Sixteen to the `e`.
pub open spec fn pow16(e: int) -> int
    decreases e,
{
    if e <= 0 {
        1
    } else {
        16 * pow16(e - 1)
    }
}

/// True at the four places of the text where a hyphen stands.
pub open spec fn is_hyphen_place(i: int) -> bool {
    i == 8 || i == 13 || i == 18 || i == 23
}

/// How many hyphens stand before place `i` of the text.
pub open spec fn hyphens_before(i: int) -> int {
    if i < 8 {
        0
    } else if i < 13 {
        1
    } else if i < 18 {
        2
    } else if i < 23 {
        3
    } else {
        4
    }
}

/// The text of an identifier: its 32 lower-case hexadecimal digits in groups
/// of 8, 4, 4, 4 and 12, with a hyphen between groups.
pub open spec fn hyphenated(id: u128) -> Seq<char> {
    Seq::new(
        36,
        |i: int|
            if is_hyphen_place(i) {
                '-'
            } else {
                hex_digit(nibble(id, i - hyphens_before(i)))
            },
    )
}

/// The text begins with two hexadecimal digits.
pub proof fn lemma_hyphenated_starts_with_hex(id: u128)
    ensures
        hyphenated(id).len() == 36,
        is_hex_digit(hyphenated(id)[0]),
        is_hex_digit(hyphenated(id)[1]),
{
    let a = nibble(id, 0);
    let b = nibble(id, 1);
    assert(0 <= a < 16);
    assert(0 <= b < 16);
    lemma_hex_digit(a);
    lemma_hex_digit(b);
}

/// `hex_digit` gives hexadecimal digits.
pub proof fn lemma_hex_digit(n: int)
    requires
        0 <= n < 16,
    ensures
        is_hex_digit(hex_digit(n)),
{
    if n == 0 {
    } else if n == 1 {
    } else if n == 2 {
    } else if n == 3 {
    } else if n == 4 {
    } else if n == 5 {
    } else if n == 6 {
    } else if n == 7 {
    } else if n == 8 {
    } else if n == 9 {
    } else if n == 10 {
    } else if n == 11 {
    } else if n == 12 {
    } else if n == 13 {
    } else if n == 14 {
    } else {
    }
}

/// Bytes that are asked of the random source for one identifier.
pub const UUID_BYTES: usize = 16;

/// The number that bytes write, the first byte the most significant.
pub open spec fn be_value(bytes: Seq<u8>) -> nat
    decreases bytes.len(),
{
    if bytes.len() == 0 {
        0
    } else {
        be_value(bytes.drop_last()) * 256 + bytes.last() as nat
    }
}

/// A number with the marks of a random identifier: the four bits of the
/// version say 4, and the two bits of the variant say 10.
pub open spec fn v4_bits(n: u128) -> u128 {
    (n & 0xFFFFFFFFFFFF4FFFBFFFFFFFFFFFFFFFu128) | 0x40008000000000000000u128
}

/// `Builder::from_random_bytes`, as a number: the identifier that sixteen
/// random bytes make, which is the number that they write with the marks of
/// version and variant set.
#[verifier::external_body]
fn uuid_of(bytes: [u8; 16]) -> (r: u128)
    ensures
        r == v4_bits(be_value(bytes@) as u128),
{
    Builder::from_random_bytes(bytes).into_uuid().as_u128()
}

/// The identifier that the random source gave: `drawn` is what was asked of
/// the source, and the identifier is made of exactly its bytes.  `None`
/// where the source gave nothing, or not sixteen bytes.
pub fn random_uuid(drawn: Option<Vec<u8>>) -> (r: Option<u128>)
    ensures
        r is Some <==> (drawn matches Some(bytes) && bytes@.len() == UUID_BYTES),
        r matches Some(id) ==> (drawn matches Some(bytes) && id == v4_bits(
            be_value(bytes@) as u128,
        )),
{
    match drawn {
        None => None,
        Some(bytes) => {
            if bytes.len() != UUID_BYTES {
                return None;
            }
            let mut raw = [0u8; 16];
            let mut i: usize = 0;
            while i < 16
                invariant
                    i <= 16,
                    bytes@.len() == 16,
                    forall|j: int| 0 <= j < i ==> raw@[j] == bytes@[j],
                decreases 16 - i,
            {
                raw[i] = bytes[i];
                i += 1;
            }
            assert(raw@ =~= bytes@);
            Some(uuid_of(raw))
        },
    }
}

/// `Uuid`'s `to_string` on the identifier with the value `id`: the
/// hyphenated lower-case text.
#[verifier::external_body]
pub(crate) fn uuid_text(id: u128) -> (r: String)
    ensures
        r@ == hyphenated(id),
{
    Uuid::from_u128(id).to_string()
}

} // verus!
