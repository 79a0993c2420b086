//! SHA-1 digests and their text.

use sha1::{Digest, Sha1};
use vstd::prelude::*;

verus! {

/// The SHA-1 digest of `bytes`.
pub uninterp spec fn sha1_of(bytes: Seq<u8>) -> Seq<u8>;

/// `sha1::Sha1::new`, one `update` with all the bytes, and `finalize`. The digest is
/// a function of the bytes and always 20 bytes long. Which digest belongs to which
/// bytes is left to the crate.
#[verifier::external_body]
fn sha1_digest(bytes: &[u8]) -> (digest: Vec<u8>)
    ensures
        digest@ == sha1_of(bytes@),
        digest@.len() == 20,
{
    let mut hasher = Sha1::new();
    hasher.update(bytes);
    hasher.finalize().to_vec()
}

/// The lower-case hexadecimal digit of a number below 16.
pub open spec fn hex_digit(n: u8) -> char {
    if n < 10 {
        (48 + n) as char
    } else {
        (87 + n) as char
    }
}

/// `bytes` in hexadecimal: two lower-case digits per byte, the high one first.
pub open spec fn hex_of(bytes: Seq<u8>) -> Seq<char> {
    Seq::new(
        bytes.len() * 2,
        |i: int|
            if i % 2 == 0 {
                hex_digit(bytes[i / 2] / 16)
            } else {
                hex_digit(bytes[i / 2] % 16)
            },
    )
}

/// `hex::encode`: two lower-case hexadecimal digits per byte, in order. The text
/// has to fit a string.
#[verifier::external_body]
fn hex_encode(bytes: &Vec<u8>) -> (text: String)
    requires
        bytes@.len() * 2 <= isize::MAX,
    ensures
        text@ == hex_of(bytes@),
{
    hex::encode(bytes)
}

/// Hex SHA-1 of a byte slice.
pub fn sha1_hex(bytes: &[u8]) -> (text: String)
    ensures
        text@ == hex_of(sha1_of(bytes@)),
        text@.len() == 40,
{
    let digest = sha1_digest(bytes);
    hex_encode(&digest)
}

/// The number that a lower-case hexadecimal digit stands for.
pub open spec fn digit_value(c: char) -> int {
    if '0' <= c <= '9' {
        c as int - '0' as int
    } else {
        c as int - 'a' as int + 10
    }
}

/// Each byte is written as two digits or lower-case letters, the high one first, from
/// which it can be read back.
pub proof fn hexadecimal_reads_back(bytes: Seq<u8>, i: int)
    requires
        0 <= i < bytes.len(),
    ensures
        hex_of(bytes).len() == 2 * bytes.len(),
        digit_value(hex_of(bytes)[2 * i]) * 16 + digit_value(hex_of(bytes)[2 * i + 1]) == bytes[i],
        0 <= digit_value(hex_of(bytes)[2 * i]) < 16,
        0 <= digit_value(hex_of(bytes)[2 * i + 1]) < 16,
{
    let high = bytes[i] / 16;
    let low = bytes[i] % 16;
    assert((2 * i) / 2 == i && (2 * i) % 2 == 0);
    assert((2 * i + 1) / 2 == i && (2 * i + 1) % 2 == 1);
    assert(hex_of(bytes)[2 * i] == hex_digit(high));
    assert(hex_of(bytes)[2 * i + 1] == hex_digit(low));
    digit_has_its_value(high);
    digit_has_its_value(low);
}

proof fn digit_has_its_value(n: u8)
    requires
        n < 16,
    ensures
        digit_value(hex_digit(n)) == n,
{
}

} // verus!
