//! SHA-256 digests and their hexadecimal form.

use crate::text::{is_hex_digit, is_sha256_text};
use sha2::{Digest, Sha256};
use vstd::prelude::*;

verus! {

/// The SHA-256 digest of a byte sequence.
pub uninterp spec fn sha256_digest(bytes: Seq<u8>) -> [u8; 32];

/// `sha2::Sha256::digest`: the thirty-two bytes of the digest depend on the
/// given bytes alone.
#[verifier::external_body]
fn sha256(bytes: &[u8]) -> (r: [u8; 32])
    ensures
        r == sha256_digest(bytes@),
{
    Sha256::digest(bytes).into()
}

/// The lower-case hexadecimal digit for a value below sixteen.
pub open spec fn hex_char(n: int) -> char {
    if n < 10 {
        (('0' as u32) + n) as char
    } else {
        (('a' as u32) + (n - 10)) as char
    }
}

/// Two lower-case hexadecimal digits for each byte.
pub open spec fn hex_text(bytes: Seq<u8>) -> Seq<char> {
    Seq::new(
        2 * bytes.len(),
        |i: int|
            hex_char(
                if i % 2 == 0 {
                    bytes[i / 2] as int / 16
                } else {
                    bytes[i / 2] as int % 16
                },
            ),
    )
}

/// The SHA-256 digest of a byte sequence in lower-case hexadecimal.
pub open spec fn hex_sha256(bytes: Seq<u8>) -> Seq<char> {
    hex_text(sha256_digest(bytes)@)
}

/// Whether two contents are different and have the same digest.
pub open spec fn collide(a: Seq<u8>, b: Seq<u8>) -> bool {
    a != b && hex_sha256(a) == hex_sha256(b)
}

/// The hexadecimal form of thirty-two bytes is a well-formed digest.
pub proof fn lemma_hex_text_is_digest(bytes: Seq<u8>)
    requires
        bytes.len() == 32,
    ensures
        is_sha256_text(hex_text(bytes)),
{
    let t = hex_text(bytes);
    assert forall|i: int| 0 <= i < t.len() implies is_hex_digit(#[trigger] t[i]) by {
        let n: int = if i % 2 == 0 {
            bytes[i / 2] as int / 16
        } else {
            bytes[i / 2] as int % 16
        };
        assert(0 <= n < 16);
        assert(t[i] == hex_char(n));
    }
}

/// Every digest in hexadecimal is a well-formed digest.
pub proof fn law_digest_is_well_formed(bytes: Seq<u8>)
    ensures
        is_sha256_text(hex_sha256(bytes)),
{
    lemma_hex_text_is_digest(sha256_digest(bytes)@);
}

fn hex_digit(n: u8) -> (c: char)
    requires
        n < 16,
    ensures
        c == hex_char(n as int),
{
    if n < 10 {
        (48u8 + n) as char
    } else {
        (97u8 + (n - 10)) as char
    }
}

/// Two lower-case hexadecimal digits for each byte.
pub fn hex(bytes: &[u8]) -> (r: String)
    ensures
        r@ == hex_text(bytes@),
{
    let mut r: String = String::new();
    let mut i: usize = 0;
    while i < bytes.len()
        invariant
            i <= bytes@.len(),
            r@ == hex_text(bytes@.take(i as int)),
        decreases bytes@.len() - i,
    {
        let b: u8 = bytes[i];
        let high: char = hex_digit(b / 16);
        let low: char = hex_digit(b % 16);
        proof {
            assert(hex_text(bytes@.take(i as int)).push(high).push(low) =~= hex_text(
                bytes@.take(i as int + 1),
            ));
        }
        r.push(high);
        r.push(low);
        i = i + 1;
    }
    proof {
        assert(bytes@.take(bytes@.len() as int) =~= bytes@);
    }
    r
}

/// The SHA-256 digest of `bytes` in lower-case hexadecimal.
pub fn hex_digest(bytes: &[u8]) -> (r: String)
    ensures
        r@ == hex_sha256(bytes@),
        is_sha256_text(r@),
{
    let d: [u8; 32] = sha256(bytes);
    proof {
        lemma_hex_text_is_digest(d@);
    }
    hex(d.as_slice())
}

} // verus!
