//! Text encodings used in hashed and signed content: lowercase hexadecimal
//! for byte strings and decimal for unsigned integers.

use vstd::prelude::*;
use vstd::utf8::{encode_utf8, is_ascii_chars, is_ascii_chars_encode_utf8};

verus! {

/// The lowercase hexadecimal digit of a value below 16.
pub open spec fn nibble_char(n: int) -> char {
    if n < 10 {
        (('0' as int) + n) as char
    } else {
        (('a' as int) + n - 10) as char
    }
}

/// The decimal digit of a value below 10.
pub open spec fn digit_char(n: int) -> char {
    (('0' as int) + n) as char
}

/// Lowercase hexadecimal encoding: two digits per byte, high nibble first.
pub open spec fn hex_lower(bytes: Seq<u8>) -> Seq<char>
    decreases bytes.len(),
{
    if bytes.len() == 0 {
        Seq::empty()
    } else {
        let b = bytes.last();
        hex_lower(bytes.drop_last()) + seq![nibble_char((b / 16) as int), nibble_char((b % 16) as int)]
    }
}

/// Decimal digits of a natural number, most significant first, no leading zeros.
pub open spec fn decimal(n: nat) -> Seq<char>
    decreases n,
{
    if n < 10 {
        seq![digit_char(n as int)]
    } else {
        decimal(n / 10) + seq![digit_char((n % 10) as int)]
    }
}

/// `String::push`: appends one character.
#[verifier::external_body]
pub(crate) fn push_char(s: &mut String, c: char)
    ensures
        final(s)@ == old(s)@.push(c),
{
    s.push(c)
}

fn nibble(n: u8) -> (c: char)
    requires
        n < 16,
    ensures
        c == nibble_char(n as int),
{
    if n < 10 {
        (48u8 + n) as char
    } else {
        (97u8 + (n - 10)) as char
    }
}

/// Appends the lowercase hexadecimal encoding of `bytes` to `s`.
pub fn push_hex(s: &mut String, bytes: &[u8])
    ensures
        final(s)@ == old(s)@ + hex_lower(bytes@),
{
    let ghost start = s@;
    let n = bytes.len();
    for i in 0..n
        invariant
            n == bytes@.len(),
            s@ == start + hex_lower(bytes@.take(i as int)),
    {
        let b = bytes[i];
        assert(bytes@.take(i + 1).drop_last() =~= bytes@.take(i as int));
        push_char(s, nibble(b / 16));
        push_char(s, nibble(b % 16));
    }
    assert(bytes@.take(n as int) =~= bytes@);
}

/// The lowercase hexadecimal encoding of `bytes`, as `hex::encode` gives it.
pub fn to_hex(bytes: &[u8]) -> (r: String)
    ensures
        r@ == hex_lower(bytes@),
{
    let mut s = String::new();
    push_hex(&mut s, bytes);
    s
}

/// Appends the decimal digits of `n` to `s`, as `Display` for integers writes them.
pub fn push_decimal(s: &mut String, n: u64)
    ensures
        final(s)@ == old(s)@ + decimal(n as nat),
    decreases n,
{
    if n >= 10 {
        push_decimal(s, n / 10);
    }
    push_char(s, ((n % 10) as u8 + 48u8) as char);
}

/// Hex encoding doubles the length.
pub proof fn lemma_hex_lower_len(bytes: Seq<u8>)
    ensures
        hex_lower(bytes).len() == 2 * bytes.len(),
    decreases bytes.len(),
{
    if bytes.len() > 0 {
        lemma_hex_lower_len(bytes.drop_last());
    }
}

/// The digits of hex encoding, pair by pair.
pub proof fn lemma_hex_lower_index(bytes: Seq<u8>, k: int)
    requires
        0 <= k < bytes.len(),
    ensures
        hex_lower(bytes).len() == 2 * bytes.len(),
        hex_lower(bytes)[2 * k] == nibble_char((bytes[k] / 16) as int),
        hex_lower(bytes)[2 * k + 1] == nibble_char((bytes[k] % 16) as int),
    decreases bytes.len(),
{
    lemma_hex_lower_len(bytes);
    if k < bytes.len() - 1 {
        lemma_hex_lower_index(bytes.drop_last(), k);
    } else {
        lemma_hex_lower_len(bytes.drop_last());
    }
}

/// Hex encoding uses ASCII characters only.
pub proof fn lemma_hex_lower_ascii(bytes: Seq<u8>)
    ensures
        is_ascii_chars(hex_lower(bytes)),
{
    lemma_hex_lower_len(bytes);
    assert forall|i: int| 0 <= i < hex_lower(bytes).len() implies '\0' <= #[trigger] hex_lower(
        bytes,
    )[i] <= '\u{7f}' by {
        lemma_hex_lower_index(bytes, i / 2);
    }
}

/// The value of a hexadecimal digit byte, either case; `None` for other bytes.
pub open spec fn hex_value(b: u8) -> Option<u8> {
    if 0x30 <= b <= 0x39 {
        Some((b - 0x30) as u8)
    } else if 0x61 <= b <= 0x66 {
        Some((b - 0x61 + 10) as u8)
    } else if 0x41 <= b <= 0x46 {
        Some((b - 0x41 + 10) as u8)
    } else {
        None
    }
}

/// Why a text is not hexadecimal, as `hex::FromHexError` reports it.
#[derive(Debug, Clone, Copy, PartialEq, Eq, Structural)]
pub enum HexError {
    /// The text has an odd number of bytes.
    OddLength,
    /// The byte at `index` (shown as `c`) is not a hex digit.
    InvalidHexCharacter { c: char, index: usize },
}

/// Every byte is a hex digit.
pub open spec fn all_hex_digits(s: Seq<u8>) -> bool {
    forall|i: int| 0 <= i < s.len() ==> #[trigger] hex_value(s[i]) is Some
}

/// The position of the first byte that is not a hex digit.
pub open spec fn first_non_hex(s: Seq<u8>) -> int {
    choose|i: int|
        0 <= i < s.len() && hex_value(s[i]) is None && forall|j: int|
            0 <= j < i ==> #[trigger] hex_value(s[j]) is Some
}

/// Hex decoding as `hex::decode` does it: odd length first, then the first
/// byte that is not a digit, else the bytes pair by pair.
pub open spec fn hex_decode(s: Seq<u8>) -> Result<Seq<u8>, HexError> {
    if s.len() % 2 != 0 {
        Err(HexError::OddLength)
    } else if !all_hex_digits(s) {
        let i = first_non_hex(s);
        Err(HexError::InvalidHexCharacter { c: s[i] as char, index: i as usize })
    } else {
        Ok(
            Seq::new(
                s.len() / 2,
                |k: int| (hex_value(s[2 * k])->0 * 16 + hex_value(s[2 * k + 1])->0) as u8,
            ),
        )
    }
}

fn hex_digit_value(b: u8) -> (r: Option<u8>)
    ensures
        r == hex_value(b),
{
    if 0x30 <= b && b <= 0x39 {
        Some(b - 0x30)
    } else if 0x61 <= b && b <= 0x66 {
        Some(b - 0x61 + 10)
    } else if 0x41 <= b && b <= 0x46 {
        Some(b - 0x41 + 10)
    } else {
        None
    }
}

/// Decodes hexadecimal text, as `hex::decode` does.
pub fn decode_hex(text: &str) -> (r: Result<Vec<u8>, HexError>)
    ensures
        match r {
            Ok(v) => hex_decode(encode_utf8(text@)) == Ok::<Seq<u8>, HexError>(v@),
            Err(e) => hex_decode(encode_utf8(text@)) == Err::<Seq<u8>, HexError>(e),
        },
{
    let bytes = text.as_bytes();
    let n = bytes.len();
    if n % 2 != 0 {
        return Err(HexError::OddLength);
    }
    for i in 0..n
        invariant
            n == bytes@.len(),
            n % 2 == 0,
            bytes@ == encode_utf8(text@),
            forall|j: int| 0 <= j < i ==> #[trigger] hex_value(bytes@[j]) is Some,
    {
        if hex_digit_value(bytes[i]).is_none() {
            proof {
                let k = first_non_hex(bytes@);
                assert(0 <= k < n && hex_value(bytes@[k]) is None && forall|j: int|
                    0 <= j < k ==> #[trigger] hex_value(bytes@[j]) is Some) by {
                    assert(hex_value(bytes@[i as int]) is None);
                }
                if k < i {
                    assert(hex_value(bytes@[k]) is Some);
                }
                if i < k {
                    assert(hex_value(bytes@[i as int]) is Some);
                }
                assert(k == i);
                assert(!all_hex_digits(bytes@));
                assert(n % 2 == 0);
            }
            return Err(HexError::InvalidHexCharacter { c: bytes[i] as char, index: i });
        }
    }
    let mut out: Vec<u8> = Vec::new();
    let half = n / 2;
    for k in 0..half
        invariant
            n == bytes@.len(),
            half == n / 2,
            n % 2 == 0,
            bytes@ == encode_utf8(text@),
            all_hex_digits(bytes@),
            out@.len() == k,
            forall|j: int|
                0 <= j < k ==> #[trigger] out@[j] == (hex_value(bytes@[2 * j])->0 * 16 + hex_value(
                    bytes@[2 * j + 1],
                )->0) as u8,
    {
        let hi = hex_digit_value(bytes[2 * k]).unwrap();
        let lo = hex_digit_value(bytes[2 * k + 1]).unwrap();
        out.push(hi * 16 + lo);
    }
    proof {
        let expected = Seq::new(
            half as nat,
            |k: int| (hex_value(bytes@[2 * k])->0 * 16 + hex_value(bytes@[2 * k + 1])->0) as u8,
        );
        assert(out@ =~= expected);
    }
    Ok(out)
}

/// Decoding the hex encoding of bytes gives the bytes back.
pub proof fn lemma_hex_round_trip(bytes: Seq<u8>)
    ensures
        hex_decode(encode_utf8(hex_lower(bytes))) == Ok::<Seq<u8>, HexError>(bytes),
{
    let h = hex_lower(bytes);
    lemma_hex_lower_len(bytes);
    lemma_hex_lower_ascii(bytes);
    is_ascii_chars_encode_utf8(h);
    let e = encode_utf8(h);
    assert forall|i: int| 0 <= i < e.len() implies #[trigger] hex_value(e[i]) is Some by {
        lemma_hex_lower_index(bytes, i / 2);
        assert(h[i] as u8 == e[i]);
    }
    let decoded = Seq::new(
        e.len() / 2,
        |k: int| (hex_value(e[2 * k])->0 * 16 + hex_value(e[2 * k + 1])->0) as u8,
    );
    assert forall|k: int| 0 <= k < bytes.len() implies decoded[k] == bytes[k] by {
        lemma_hex_lower_index(bytes, k);
        assert(h[2 * k] as u8 == e[2 * k]);
        assert(h[2 * k + 1] as u8 == e[2 * k + 1]);
    }
    assert(decoded =~= bytes);
}

} // verus!
