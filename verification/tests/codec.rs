//! The codecs under the verifiers: hex decoding, decimal rendering inside
//! the canonical strings, and the address derivation pipeline checked
//! against an independent computation.

use sha2::Digest;

use mars_periphery::airdrop::crypto::pubkey_to_addr;
use mars_periphery::airdrop::msg::leaf;
use mars_periphery::airdrop::types::AirdropError;
use mars_periphery::hex::hex_decode;
use mars_periphery::num::u128_to_string;

#[test]
fn hex_decoding_round_trips() {
    assert_eq!(hex_decode(""), Some(vec![]));
    assert_eq!(hex_decode("00"), Some(vec![0]));
    assert_eq!(hex_decode("deadBEEF"), Some(vec![0xde, 0xad, 0xbe, 0xef]));
    assert_eq!(hex_decode("0123456789abcdefABCDEF"), Some(vec![
        0x01, 0x23, 0x45, 0x67, 0x89, 0xab, 0xcd, 0xef, 0xab, 0xcd, 0xef
    ]));
    // odd length
    assert_eq!(hex_decode("abc"), None);
    // a character that is not a hex digit
    assert_eq!(hex_decode("0g"), None);
    assert_eq!(hex_decode("zz"), None);
    // non-ASCII input is simply not hex
    assert_eq!(hex_decode("aé"), None);
}

#[test]
fn decimal_rendering_is_exact() {
    assert_eq!(u128_to_string(0), "0");
    assert_eq!(u128_to_string(7), "7");
    assert_eq!(u128_to_string(10), "10");
    assert_eq!(u128_to_string(1000), "1000");
    assert_eq!(u128_to_string(25000000000000), "25000000000000");
    assert_eq!(
        u128_to_string(u128::MAX),
        "340282366920938463463374607431768211455"
    );
}

#[test]
fn leaf_uses_decimal_amounts() {
    assert_eq!(leaf("terra1abc", 1000), "terra1abc:1000");
}

#[test]
fn address_derivation_matches_independent_pipeline() {
    // a compressed public key: derive through the library, then through
    // sha2 + ripemd + bech32 called directly
    let pk_bytes: Vec<u8> = {
        let sk = k256::ecdsa::SigningKey::from_slice(&[5u8; 32]).unwrap();
        sk.verifying_key().to_sec1_bytes().to_vec()
    };
    let mut pk_hex = String::new();
    for b in &pk_bytes {
        pk_hex.push_str(&format!("{:02x}", b));
    }

    let derived = pubkey_to_addr(&pk_hex, "terra").unwrap();

    let sha = {
        let mut h = sha2::Sha256::new();
        h.update(&pk_bytes);
        h.finalize().to_vec()
    };
    let rip = {
        let mut h = ripemd::Ripemd160::new();
        h.update(&sha);
        h.finalize().to_vec()
    };
    let hrp = bech32::Hrp::parse("terra").unwrap();
    let expected = bech32::encode::<bech32::Bech32>(hrp, &rip).unwrap();

    assert_eq!(derived, expected);
    assert!(derived.starts_with("terra1"));
}

#[test]
fn address_derivation_rejects_bad_keys() {
    // malformed hex
    assert_eq!(pubkey_to_addr("xy", "terra").unwrap_err(), AirdropError::DecodeError);
    // wrong byte length: 2 bytes is no key encoding
    assert_eq!(pubkey_to_addr("aabb", "terra").unwrap_err(), AirdropError::DecodeError);
    // 32 bytes is no key encoding either
    assert_eq!(
        pubkey_to_addr(&"ab".repeat(32), "terra").unwrap_err(),
        AirdropError::DecodeError
    );
    // 33 bytes of any content is accepted by the pipeline (the curve check
    // happens at signature verification, not at derivation)
    assert!(pubkey_to_addr(&"ab".repeat(33), "terra").is_ok());
}
