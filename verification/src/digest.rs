//! SHA-256 digests.

use vstd::prelude::*;

use crate::text::{chars_of, has_prefix};
#[allow(unused_imports)]
use crate::text::starts_with;
use sha2::Digest;

verus! {

/// The SHA-256 digest of a sequence of bytes.
pub uninterp spec fn sha256(bytes: Seq<u8>) -> Seq<u8>;

/// Calls `sha2::Sha256::digest`: its result depends on the bytes alone, and is 32
/// bytes long.
#[verifier::external_body]
pub(crate) fn sha256_of(bytes: &[u8]) -> (r: Vec<u8>)
    ensures
        r@ == sha256(bytes@),
        r@.len() == 32,
{
    sha2::Sha256::digest(bytes).to_vec()
}

/// The hexadecimal digit of a number below sixteen, in lower case.
pub open spec fn hex_digit(n: int) -> char {
    if n < 10 {
        ('0' as int + n) as char
    } else {
        ('a' as int + n - 10) as char
    }
}

/// The two hexadecimal digits of each byte.
pub open spec fn hex(bytes: Seq<u8>) -> Seq<char>
    decreases bytes.len(),
{
    if bytes.len() == 0 {
        Seq::empty()
    } else {
        hex(bytes.drop_last()).push(hex_digit(bytes.last() as int / 16)).push(
            hex_digit(bytes.last() as int % 16),
        )
    }
}

fn hex_digit_of(n: u8) -> (r: char)
    requires
        n < 16,
    ensures
        r == hex_digit(n as int),
{
    if n < 10 {
        (48u8 + n) as char
    } else {
        (97u8 + (n - 10)) as char
    }
}

/// The two hexadecimal digits of each byte.
pub fn hex_of(bytes: &[u8]) -> (r: String)
    ensures
        r@ == hex(bytes@),
{
    let mut out = String::new();
    let mut i: usize = 0;
    while i < bytes.len()
        invariant
            i <= bytes@.len(),
            out@ == hex(bytes@.take(i as int)),
        decreases bytes@.len() - i,
    {
        assert(bytes@.take(i + 1).drop_last() =~= bytes@.take(i as int));
        out.push(hex_digit_of(bytes[i] / 16));
        out.push(hex_digit_of(bytes[i] % 16));
        i += 1;
    }
    assert(bytes@.take(i as int) =~= bytes@);
    out
}

/// The SHA-256 digest of some bytes in hexadecimal digits.
pub fn sha256_bytes(bytes: &[u8]) -> (r: String)
    ensures
        r@ == hex(sha256(bytes@)),
{
    hex_of(&sha256_of(bytes))
}

/// Whether a character is a hexadecimal digit in lower case.
pub open spec fn is_hex(c: char) -> bool {
    '0' <= c <= '9' || 'a' <= c <= 'f'
}

/// Whether a text is a pinned digest: `sha256:` and 64 hexadecimal digits in lower
/// case.
pub open spec fn is_pin(text: Seq<char>) -> bool {
    text.len() == 71 && starts_with(text, "sha256:"@) && forall|i: int|
        7 <= i < 71 ==> is_hex(#[trigger] text[i])
}

/// Whether a text is a pinned digest.
pub fn is_pinned_digest(text: &str) -> (r: bool)
    ensures
        r == is_pin(text@),
{
    let chars = chars_of(text);
    if chars.len() != 71 || !has_prefix(text, "sha256:") {
        return false;
    }
    let mut i: usize = 7;
    while i < 71
        invariant
            7 <= i <= 71,
            chars@.len() == 71,
            chars@ == text@,
            forall|j: int| 7 <= j < i ==> is_hex(#[trigger] text@[j]),
        decreases 71 - i,
    {
        let c = chars[i];
        if !(('0' <= c && c <= '9') || ('a' <= c && c <= 'f')) {
            assert(!is_hex(text@[i as int]));
            return false;
        }
        i += 1;
    }
    true
}

/// The pin of some bytes.
pub open spec fn pin(bytes: Seq<u8>) -> Seq<char> {
    "sha256:"@ + hex(sha256(bytes))
}

/// The pin of some bytes.
pub fn pin_of(bytes: &[u8]) -> (r: String)
    ensures
        r@ == pin(bytes@),
{
    "sha256:".to_owned().concat(&sha256_bytes(bytes))
}

} // verus!
