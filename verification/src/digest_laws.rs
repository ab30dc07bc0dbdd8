//! What holds of digests as text.

use vstd::prelude::*;

#[allow(unused_imports)]
use crate::digest::{hex, hex_digit, is_hex, is_pin};
#[allow(unused_imports)]
use crate::text::starts_with;

verus! {

/// The number that a hexadecimal digit stands for.
pub open spec fn digit_value(c: char) -> int {
    if '0' <= c <= '9' {
        c as int - 48
    } else {
        c as int - 97 + 10
    }
}

proof fn a_digit_is_its_number(n: int)
    requires
        0 <= n < 16,
    ensures
        is_hex(hex_digit(n)),
        digit_value(hex_digit(n)) == n,
{
}

proof fn a_number_is_its_digit(c: char)
    requires
        is_hex(c),
    ensures
        0 <= digit_value(c) < 16,
        hex_digit(digit_value(c)) == c,
{
}

/// The digits of some bytes are two for each byte, in lower case, the higher one first, and
/// each pair stands for its byte.
pub proof fn digits_stand_for_their_bytes(bytes: Seq<u8>)
    ensures
        hex(bytes).len() == 2 * bytes.len(),
        forall|i: int| 0 <= i < hex(bytes).len() ==> is_hex(#[trigger] hex(bytes)[i]),
        forall|i: int|
            0 <= i < bytes.len() ==> #[trigger] bytes[i] as int == 16 * digit_value(
                hex(bytes)[2 * i],
            ) + digit_value(hex(bytes)[2 * i + 1]),
    decreases bytes.len(),
{
    if bytes.len() > 0 {
        let rest = bytes.drop_last();
        digits_stand_for_their_bytes(rest);
        let n = bytes.len() - 1;
        let last = bytes.last() as int;
        a_digit_is_its_number(last / 16);
        a_digit_is_its_number(last % 16);
        assert(hex(bytes)[2 * n] == hex_digit(last / 16));
        assert(hex(bytes)[2 * n + 1] == hex_digit(last % 16));
        assert forall|i: int| 0 <= i < hex(bytes).len() implies is_hex(
            #[trigger] hex(bytes)[i],
        ) by {
            if i < 2 * n {
                assert(hex(bytes)[i] == hex(rest)[i]);
            }
        }
        assert forall|i: int| 0 <= i < bytes.len() implies #[trigger] bytes[i] as int == 16
            * digit_value(hex(bytes)[2 * i]) + digit_value(hex(bytes)[2 * i + 1]) by {
            if i < n {
                assert(rest[i] == bytes[i]);
                assert(hex(bytes)[2 * i] == hex(rest)[2 * i]);
                assert(hex(bytes)[2 * i + 1] == hex(rest)[2 * i + 1]);
            }
        }
    }
}

proof fn digits_have_their_bytes(text: Seq<char>, n: nat) -> (bytes: Seq<u8>)
    requires
        text.len() == 2 * n,
        forall|i: int| 0 <= i < text.len() ==> is_hex(#[trigger] text[i]),
    ensures
        bytes.len() == n,
        hex(bytes) == text,
    decreases n,
{
    if n == 0 {
        assert(hex(Seq::<u8>::empty()) =~= text);
        Seq::empty()
    } else {
        let m = (n - 1) as nat;
        let front = text.take(2 * (m as int));
        assert forall|i: int| 0 <= i < front.len() implies is_hex(#[trigger] front[i]) by {
            assert(front[i] == text[i]);
        }
        let rest = digits_have_their_bytes(front, m);
        let high = text[2 * (m as int)];
        let low = text[2 * (m as int) + 1];
        a_number_is_its_digit(high);
        a_number_is_its_digit(low);
        let b = (16 * digit_value(high) + digit_value(low)) as u8;
        let bytes = rest.push(b);
        assert(bytes.drop_last() =~= rest);
        assert(b as int / 16 == digit_value(high));
        assert(b as int % 16 == digit_value(low));
        assert(hex(bytes) =~= text);
        bytes
    }
}

/// A text is a pinned digest exactly where it is `sha256:` and the digits of 32 bytes.
pub proof fn a_pin_holds_thirty_two_bytes(text: Seq<char>)
    ensures
        is_pin(text) <==> exists|bytes: Seq<u8>|
            bytes.len() == 32 && text == "sha256:"@ + #[trigger] hex(bytes),
{
    reveal_strlit("sha256:");
    if is_pin(text) {
        let digits = text.skip(7);
        assert forall|i: int| 0 <= i < digits.len() implies is_hex(#[trigger] digits[i]) by {
            assert(digits[i] == text[i + 7]);
        }
        let bytes = digits_have_their_bytes(digits, 32);
        assert(text.subrange(0, 7) == "sha256:"@);
        assert(text =~= text.subrange(0, 7) + digits);
        assert(text == "sha256:"@ + hex(bytes));
    }
    if exists|bytes: Seq<u8>| bytes.len() == 32 && text == "sha256:"@ + #[trigger] hex(bytes) {
        let bytes = choose|bytes: Seq<u8>|
            bytes.len() == 32 && text == "sha256:"@ + #[trigger] hex(bytes);
        digits_stand_for_their_bytes(bytes);
        assert(text.subrange(0, 7) =~= "sha256:"@);
        assert forall|i: int| 7 <= i < 71 implies is_hex(#[trigger] text[i]) by {
            assert(text[i] == hex(bytes)[i - 7]);
        }
    }
}

} // verus!
