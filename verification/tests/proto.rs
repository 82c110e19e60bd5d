use remote_access::foreign::HexError;
use remote_access::proto::{
    challenge_response, ct_eq, is_valid_id, is_valid_pin, password_h1, pin_from, random_hex,
    random_id, random_pin, random_salt, salt_char, token_fingerprint, CryptoError, PairSecret,
};

#[test]
fn h1_h2_are_deterministic_and_bound_to_inputs() {
    let h1 = password_h1("hunter2", "salt");
    assert_eq!(h1, password_h1("hunter2", "salt"));
    assert_ne!(h1, password_h1("hunter2", "salt2"));
    let h2 = challenge_response(&h1, "c1");
    assert_ne!(h2, challenge_response(&h1, "c2"));
    assert!(ct_eq(&h2, &challenge_response(&h1, "c1")));
}

#[test]
fn pin_roundtrip_and_wrong_key_fails() {
    let h1 = password_h1("pw", "s");
    let good = PairSecret::derive(&h1, "chal");
    let sealed = good.seal_pin("0042").unwrap();
    assert_eq!(good.open_pin(&sealed).unwrap(), "0042");
    let bad = PairSecret::derive(&password_h1("wrong", "s"), "chal");
    assert!(bad.open_pin(&sealed).is_err());
    assert!(good.seal_pin("12345").is_err());
}

#[test]
fn ids_and_pins_validate() {
    for _ in 0..100 {
        assert!(is_valid_id(&random_id()));
        assert!(is_valid_pin(&random_pin()));
    }
    assert!(!is_valid_id("012345678"));
    assert!(!is_valid_id("12345678"));
}

#[test]
fn hashes_have_known_values() {
    // SHA-256 of "abc" and of the empty text.
    assert_eq!(
        token_fingerprint("abc"),
        "ba7816bf8f01cfea414140de5dae2223b00361a396177a9cb410ff61f20015ad"
    );
    assert_eq!(
        password_h1("", ""),
        "e3b0c44298fc1c149afbf4c8996fb92427ae41e4649b934ca495991b7852b855"
    );
    assert_eq!(password_h1("a", "bc"), token_fingerprint("abc"));
    assert_eq!(challenge_response("ab", "c"), token_fingerprint("abc"));
}

#[test]
fn sealing_has_errors_of_each_kind() {
    let secret = PairSecret::derive("h", "c");
    assert_eq!(secret.seal_pin("12a4").unwrap_err(), CryptoError::BadPin);
    assert_eq!(secret.open_pin("abc").unwrap_err(), CryptoError::Hex(HexError::OddLength));
    assert_eq!(
        secret.open_pin("0g").unwrap_err(),
        CryptoError::Hex(HexError::InvalidHexCharacter { c: 'g', index: 1 })
    );
    assert_eq!(secret.open_pin("00").unwrap_err(), CryptoError::TooShort);
    assert_eq!(secret.open_pin(&"00".repeat(28)).unwrap_err(), CryptoError::Decrypt);
    assert_eq!(CryptoError::Hex(HexError::OddLength).message(), "invalid hex: Odd number of digits");
    assert_eq!(
        CryptoError::Hex(HexError::InvalidHexCharacter { c: 'g', index: 1 }).message(),
        "invalid hex: Invalid character 'g' at position 1"
    );
    assert_eq!(CryptoError::TooShort.message(), "sealed payload too short");
    assert_eq!(CryptoError::Decrypt.message(), "decryption failed");
    assert_eq!(CryptoError::BadPin.message(), "pin must be exactly 4 ASCII digits");
}

#[test]
fn sealed_pins_carry_nonce_text_and_tag() {
    let secret = PairSecret::derive("h", "c");
    let sealed = secret.seal_pin_with("1234", &[7u8; 12]).unwrap();
    assert_eq!(sealed.len(), 64);
    assert_eq!(sealed.len(), 2 * (12 + 4 + 16));
    assert!(sealed.starts_with("070707070707070707070707"));
    assert_eq!(secret.open_pin(&sealed).unwrap(), "1234");
    assert_eq!(secret.open_pin(&sealed.to_uppercase()).unwrap(), "1234");
    assert_ne!(secret.seal_pin("1234").unwrap(), secret.seal_pin("1234").unwrap());
}

#[test]
fn pins_are_padded() {
    assert_eq!(pin_from(0), "0000");
    assert_eq!(pin_from(42), "0042");
    assert_eq!(pin_from(9999), "9999");
}

#[test]
fn random_texts_have_their_form() {
    assert_eq!(random_salt(16).len(), 16);
    assert!(random_salt(64).bytes().all(|b| b.is_ascii_alphanumeric()));
    assert_eq!(random_hex(32).len(), 64);
    assert!(random_hex(32).bytes().all(|b| b.is_ascii_hexdigit()));
    assert_ne!(random_hex(16), random_hex(16));
    assert_eq!(salt_char(0), 'A');
    assert_eq!(salt_char(25), 'Z');
    assert_eq!(salt_char(26), 'a');
    assert_eq!(salt_char(51), 'z');
    assert_eq!(salt_char(52), '0');
    assert_eq!(salt_char(61), '9');
}

#[test]
fn comparison_sees_every_byte() {
    assert!(ct_eq("", ""));
    assert!(!ct_eq("a", "ab"));
    assert!(!ct_eq("abc", "abd"));
    assert!(!ct_eq("bbc", "abc"));
    assert!(!is_valid_pin("12345"));
    assert!(!is_valid_pin("12 4"));
    assert!(!is_valid_id("12345678a"));
    assert!(is_valid_id("123456789"));
}
