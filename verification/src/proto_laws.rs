//! What the protocol's texts and hashes are, by relations between them.

use vstd::prelude::*;
use vstd::utf8::valid_utf8;
use crate::foreign::{
    chacha_opened, chacha_sealed, first_non_hex, hex_decoded, hex_of, hex_value, sha256_of,
    HexError,
};
use crate::proto::{
    fingerprint_of, h1_of, h2_of, hex_round_trip, is_alphanumeric_ascii, opened_pin, pair_key,
    pin_of, salt_char_of, sealed_pin_of, valid_id, valid_pin, CryptoError,
};
use crate::text::{all_digits, digit_char, digits_value, is_digit, utf8};

verus! {

/// The bytes of two texts in a row are the bytes of each.
proof fn lemma_utf8_both(a: Seq<char>, b: Seq<char>)
    ensures
        utf8(a + b) == utf8(a) + utf8(b),
    decreases a.len(),
{
    if a.len() == 0 {
        assert(a + b =~= b);
        assert(utf8(a) =~= Seq::<u8>::empty());
        assert(utf8(a) + utf8(b) =~= utf8(b));
    } else {
        lemma_utf8_both(a.drop_first(), b);
        assert((a + b).drop_first() =~= a.drop_first() + b);
        assert((a + b)[0] == a[0]);
        assert(utf8(a + b) =~= utf8(a) + utf8(b));
    }
}

/// Every hash of the protocol is the SHA-256 digest of the texts that go into it, one
/// behind the other, in lower case hexadecimal: the password before the salt, the
/// hashed password before the challenge, and for the key that seals the PIN a mark of
/// its own before both.
pub proof fn hashes_are_of_the_joined_texts(a: Seq<char>, b: Seq<char>)
    ensures
        hex_decoded(utf8(fingerprint_of(a))) == Ok::<Seq<u8>, HexError>(sha256_of(utf8(a))),
        fingerprint_of(a) == hex_of(sha256_of(utf8(a))),
        h1_of(a, b) == fingerprint_of(a + b),
        h2_of(a, b) == fingerprint_of(a + b),
        hex_of(pair_key(a, b)) == fingerprint_of("ra-pair-v1"@ + a + b),
{
    hex_round_trip(sha256_of(utf8(a)));
    lemma_utf8_both(a, b);
    lemma_utf8_both("ra-pair-v1"@, a);
    lemma_utf8_both("ra-pair-v1"@ + a, b);
}

/// Letters and digits are those of ASCII.
pub proof fn letters_and_digits_are_ascii(c: char)
    ensures
        is_digit(c) <==> 48 <= c as u32 <= 57,
        c == '0' <==> c as u32 == 48,
        is_alphanumeric_ascii(c) <==> (48 <= c as u32 <= 57 || 65 <= c as u32 <= 90 || 97 <= c as u32
            <= 122),
{
}

/// Each letter and digit stands for exactly one number below 62.
pub proof fn salt_characters_are_all_different(j: int, k: int, c: char)
    requires
        0 <= j < 62,
        0 <= k < 62,
    ensures
        salt_char_of(j) == salt_char_of(k) ==> j == k,
        is_alphanumeric_ascii(salt_char_of(k)),
        is_alphanumeric_ascii(c) ==> exists|n: int| 0 <= n < 62 && #[trigger] salt_char_of(n) == c,
{
    if is_alphanumeric_ascii(c) {
        let code = c as u32 as int;
        let n = if code <= 57 {
            code + 4
        } else if code <= 90 {
            code - 65
        } else {
            code - 71
        };
        assert(salt_char_of(n) == c);
    }
}

/// An ID is nine digits, the first of which is not zero; a PIN is any four digits.
pub proof fn ids_and_pins_are_digits(s: Seq<char>)
    ensures
        valid_id(s) <==> s.len() == 9 && (forall|i: int|
            0 <= i < s.len() ==> 48 <= (#[trigger] s[i]) as u32 <= 57) && s[0] as u32 != 48,
        valid_pin(s) <==> s.len() == 4 && (forall|i: int|
            0 <= i < s.len() ==> 48 <= (#[trigger] s[i]) as u32 <= 57),
{
    assert forall|i: int| 0 <= i < s.len() implies (is_digit(#[trigger] s[i]) <==> 48 <= s[i] as u32
        <= 57) by {
        letters_and_digits_are_ascii(s[i]);
    }
    if s.len() > 0 {
        letters_and_digits_are_ascii(s[0]);
    }
}

/// The number that four digits denote.
proof fn lemma_four_digits(p: Seq<char>)
    requires
        p.len() == 4,
        is_digit(p[0]) && is_digit(p[1]) && is_digit(p[2]) && is_digit(p[3]),
    ensures
        digits_value(p) == 1000 * (p[0] as u32 - 48) + 100 * (p[1] as u32 - 48) + 10 * (p[2] as u32
            - 48) + (p[3] as u32 - 48),
{
    let p3 = p.drop_last();
    let p2 = p3.drop_last();
    let p1 = p2.drop_last();
    assert(p1.drop_last() =~= Seq::<char>::empty());
    assert(digits_value(p1.drop_last()) == 0);
    assert(digits_value(p1) == p[0] as u32 - 48);
    assert(digits_value(p2) == 10 * digits_value(p1) + (p[1] as u32 - 48));
    assert(digits_value(p3) == 10 * digits_value(p2) + (p[2] as u32 - 48));
}

/// A number below ten thousand is put together of its four digits.
proof fn lemma_tens(n: int)
    requires
        0 <= n < 10000,
    ensures
        n == 1000 * (n / 1000 % 10) + 100 * (n / 100 % 10) + 10 * (n / 10 % 10) + n % 10,
{
    assert(n / 10 == n / 100 * 10 + n / 10 % 10);
    assert(n / 100 == n / 1000 * 10 + n / 100 % 10);
}

/// Four digits are found again in the number.
proof fn lemma_digits_of_tens(a: int, b: int, c: int, d: int)
    requires
        0 <= a < 10,
        0 <= b < 10,
        0 <= c < 10,
        0 <= d < 10,
    ensures
        ({
            let n = 1000 * a + 100 * b + 10 * c + d;
            &&& n / 1000 % 10 == a
            &&& n / 100 % 10 == b
            &&& n / 10 % 10 == c
            &&& n % 10 == d
        }),
{
    let n = 1000 * a + 100 * b + 10 * c + d;
    assert(n / 10 == 100 * a + 10 * b + c);
    assert(n / 100 == 10 * a + b);
    assert(n / 1000 == a);
}

/// The PIN for a number denotes that number, with zeros in front of it.
pub proof fn pins_denote_their_numbers(n: nat)
    requires
        n < 10000,
    ensures
        valid_pin(pin_of(n as int)),
        digits_value(pin_of(n as int)) == n,
{
    let p = pin_of(n as int);
    letters_and_digits_are_ascii(p[0]);
    letters_and_digits_are_ascii(p[1]);
    letters_and_digits_are_ascii(p[2]);
    letters_and_digits_are_ascii(p[3]);
    lemma_four_digits(p);
    lemma_tens(n as int);
}

/// Every PIN is the PIN for the number that it denotes.
pub proof fn every_pin_has_a_number(pin: Seq<char>)
    requires
        valid_pin(pin),
    ensures
        digits_value(pin) < 10000,
        pin_of(digits_value(pin) as int) == pin,
{
    assert(is_digit(pin[0]) && is_digit(pin[1]) && is_digit(pin[2]) && is_digit(pin[3]));
    lemma_four_digits(pin);
    letters_and_digits_are_ascii(pin[0]);
    letters_and_digits_are_ascii(pin[1]);
    letters_and_digits_are_ascii(pin[2]);
    letters_and_digits_are_ascii(pin[3]);
    let a = pin[0] as u32 - 48;
    let b = pin[1] as u32 - 48;
    let c = pin[2] as u32 - 48;
    let d = pin[3] as u32 - 48;
    lemma_digits_of_tens(a, b, c, d);
    lemma_digit_char(pin[0]);
    lemma_digit_char(pin[1]);
    lemma_digit_char(pin[2]);
    lemma_digit_char(pin[3]);
    assert(pin_of(digits_value(pin) as int) =~= pin);
}

/// A digit is the digit for its worth.
proof fn lemma_digit_char(c: char)
    requires
        is_digit(c),
    ensures
        digit_char(c as u32 - 48) == c,
{
}

/// A sealed PIN shows, in hexadecimal, the nonce and behind it what was sealed.
pub proof fn sealed_pins_begin_with_the_nonce(key: Seq<u8>, nonce: Seq<u8>, pin: Seq<char>)
    requires
        nonce.len() == 12,
    ensures
        ({
            let raw = hex_decoded(utf8(sealed_pin_of(key, nonce, pin)));
            &&& raw is Ok
            &&& raw->Ok_0.take(12) == nonce
            &&& raw->Ok_0.skip(12) == chacha_sealed(key, nonce, utf8(pin))
        }),
{
    let sealed = chacha_sealed(key, nonce, utf8(pin));
    hex_round_trip(nonce + sealed);
    assert((nonce + sealed).take(12) =~= nonce);
    assert((nonce + sealed).skip(12) =~= sealed);
}

/// What opening a sealed PIN comes to: the nonce and the tag take 28 bytes at the
/// least; what does not decrypt to a text is refused, and so is a text that is no PIN;
/// a PIN is given as it is.
pub proof fn sealed_pins_are_opened_with_care(
    key: Seq<u8>,
    nonce: Seq<u8>,
    sealed: Seq<u8>,
    pin: Seq<char>,
    text: Seq<char>,
)
    requires
        nonce.len() == 12,
    ensures
        ({
            let got = opened_pin(key, hex_of(nonce + sealed));
            &&& sealed.len() < 16 <==> got == Err::<Seq<char>, CryptoError>(CryptoError::TooShort)
            &&& sealed.len() >= 16 && chacha_opened(key, nonce, sealed) is None ==> got == Err::<
                Seq<char>,
                CryptoError,
            >(CryptoError::Decrypt)
            &&& sealed.len() >= 16 && chacha_opened(key, nonce, sealed) == Some(utf8(pin)) ==> got
                == (if pin.len() == 4 && all_digits(pin) {
                Ok::<Seq<char>, CryptoError>(pin)
            } else {
                Err(CryptoError::BadPin)
            })
            &&& sealed.len() >= 16 && chacha_opened(key, nonce, sealed) is Some && !valid_utf8(
                chacha_opened(key, nonce, sealed)->0,
            ) ==> got == Err::<Seq<char>, CryptoError>(CryptoError::Decrypt)
        }),
        hex_decoded(utf8(text)) matches Err(e) ==> opened_pin(key, text) == Err::<
            Seq<char>,
            CryptoError,
        >(CryptoError::Hex(e)),
{
    hex_round_trip(nonce + sealed);
    assert((nonce + sealed).take(12) =~= nonce);
    assert((nonce + sealed).skip(12) =~= sealed);
    vstd::utf8::encode_utf8_valid_utf8(pin);
    vstd::utf8::encode_utf8_decode_utf8(pin);
}

/// What is wrong with a sealed PIN is told.
pub proof fn faults_of_sealed_pins_are_told(e: HexError)
    ensures
        CryptoError::Hex(e).words() == "invalid hex: "@ + e.words(),
        CryptoError::TooShort.words() == "sealed payload too short"@,
        CryptoError::Decrypt.words() == "decryption failed"@,
        CryptoError::BadPin.words() == "pin must be exactly 4 ASCII digits"@,
        HexError::OddLength.words() == "Odd number of digits"@,
        HexError::InvalidStringLength.words() == "Invalid string length"@,
{
}

/// Hexadecimal notation has an even number of digits, and the first character that is
/// no digit is named with its position.
pub proof fn faults_of_hexadecimal_are_found(b: Seq<u8>, i: int)
    ensures
        b.len() % 2 != 0 ==> hex_decoded(b) == Err::<Seq<u8>, HexError>(HexError::OddLength),
        b.len() % 2 == 0 && 0 <= i < b.len() <= usize::MAX && hex_value(b[i]) is None && (forall|j: int|
            0 <= j < i ==> hex_value(#[trigger] b[j]) is Some) ==> hex_decoded(b) == Err::<
            Seq<u8>,
            HexError,
        >(HexError::InvalidHexCharacter { c: b[i] as char, index: i as usize }),
{
    if 0 <= i < b.len() && hex_value(b[i]) is None && (forall|j: int|
        0 <= j < i ==> hex_value(#[trigger] b[j]) is Some) {
        lemma_first_non_hex(b, i);
    }
}

proof fn lemma_first_non_hex(b: Seq<u8>, i: int)
    requires
        0 <= i < b.len(),
        hex_value(b[i]) is None,
        forall|j: int| 0 <= j < i ==> hex_value(#[trigger] b[j]) is Some,
    ensures
        first_non_hex(b) == i,
    decreases i,
{
    if i > 0 {
        let rest = b.drop_first();
        assert(hex_value(b[0]) is Some);
        assert forall|j: int| 0 <= j < i - 1 implies hex_value(#[trigger] rest[j]) is Some by {
            assert(rest[j] == b[j + 1]);
        }
        lemma_first_non_hex(rest, i - 1);
    }
}

} // verus!
