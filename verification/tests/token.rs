use quiz_auth::token::{decode_token, encode_token, SessionClaims, TOKEN_LIFETIME};

const KEY: &[u8] = b"secret-key";
const NOW: u64 = 1_700_000_000;
const ALICE: &str = "0000f153650000000010ff536500000000616c696365313233.035cb2a30ebdcb5152be139d7f0b2cb86fc2e5b92fdf5dec9736d35e2f59a799";

fn fields(claims: &SessionClaims) -> (String, u8, u64, u64) {
    (claims.username.clone(), claims.language_id, claims.issued_at, claims.expires_at)
}

#[test]
fn token_is_claims_and_tag_in_hex() {
    assert_eq!(encode_token(KEY, "alice123", 0, NOW), ALICE);
    assert_eq!(
        encode_token(KEY, "alice123", 1, 1),
        "010100000000000000110e000000000000616c696365313233.265d84941e812d2b93c2d4217912c06f413d8f82a677ee0adfad079753e8a809"
    );
    assert_eq!(
        encode_token(b"", "bob", 0, 10),
        "000a000000000000001a0e000000000000626f62.8d61cfc6ffc7509027b73324ea4d56967ca1dbbed52fd1d9168cfab178597910"
    );
}

#[test]
fn token_round_trip() {
    let token = encode_token(KEY, "alice123", 1, NOW);
    let claims = decode_token(KEY, &token, NOW).unwrap();
    assert_eq!(fields(&claims), ("alice123".to_string(), 1, NOW, NOW + 3600));
}

#[test]
fn token_round_trip_with_any_username() {
    for name in ["", "a", "Алиса2024", "with.stop", "sp ace", "日本語"] {
        let token = encode_token(KEY, name, 0, 5);
        assert!(token.is_ascii());
        let claims = decode_token(KEY, &token, 6).unwrap();
        assert_eq!(fields(&claims), (name.to_string(), 0, 5, 3605));
    }
}

#[test]
fn token_lasts_one_hour() {
    assert_eq!(TOKEN_LIFETIME, 3600);
    assert!(decode_token(KEY, ALICE, NOW + 3599).is_some());
    assert!(decode_token(KEY, ALICE, NOW + 3600).is_none());
    assert!(decode_token(KEY, ALICE, NOW + 3601).is_none());
    assert!(decode_token(KEY, ALICE, u64::MAX).is_none());
    assert!(decode_token(KEY, ALICE, 0).is_some());
}

#[test]
fn known_token_decodes() {
    let unicode = "0100f153650000000010ff536500000000d090d0bbd0b8d181d0b032303234.bf0bbe444bca356b892832556b2233ec9350349d2f74031b3827859566b5d099";
    let claims = decode_token(KEY, unicode, NOW).unwrap();
    assert_eq!(fields(&claims), ("Алиса2024".to_string(), 1, NOW, NOW + 3600));
    let empty = "000000000000000000100e000000000000.4f890308950b5a77845130cdaf4f4be94859a2340036330c7042fa6f301c79ac";
    let claims = decode_token(KEY, empty, 0).unwrap();
    assert_eq!(fields(&claims), (String::new(), 0, 0, 3600));
}

#[test]
fn tampered_claims_are_rejected() {
    let other_name = ALICE.replacen("616c696365313233", "626c696365313233", 1);
    assert_ne!(other_name, ALICE);
    assert!(decode_token(KEY, &other_name, NOW).is_none());
    let later_expiry = ALICE.replacen("10ff5365", "10ff5366", 1);
    assert_ne!(later_expiry, ALICE);
    assert!(decode_token(KEY, &later_expiry, NOW).is_none());
    let other_language = format!("01{}", &ALICE[2..]);
    assert!(decode_token(KEY, &other_language, NOW).is_none());
}

#[test]
fn tampered_tag_is_rejected() {
    let flipped = ALICE.replacen(".035c", ".135c", 1);
    assert_ne!(flipped, ALICE);
    assert!(decode_token(KEY, &flipped, NOW).is_none());
    let cut = &ALICE[..ALICE.len() - 2];
    assert!(decode_token(KEY, cut, NOW).is_none());
    let longer = format!("{}00", ALICE);
    assert!(decode_token(KEY, &longer, NOW).is_none());
    let no_tag = &ALICE[..51];
    assert!(no_tag.ends_with('.'));
    assert!(decode_token(KEY, no_tag, NOW).is_none());
}

#[test]
fn token_of_another_key_is_rejected() {
    assert!(decode_token(b"secret-kez", ALICE, NOW).is_none());
    assert!(decode_token(b"", ALICE, NOW).is_none());
    let theirs = encode_token(b"another key", "alice123", 0, NOW);
    assert!(decode_token(KEY, &theirs, NOW).is_none());
    assert!(decode_token(b"another key", &theirs, NOW).is_some());
}

#[test]
fn malformed_tokens_are_rejected() {
    for token in [
        "",
        ".",
        "..",
        "abc",
        "00",
        "zz.zz",
        "not a token",
        "0000f153650000000010ff536500000000616c696365313233",
        "токен.токен",
    ] {
        assert!(decode_token(KEY, token, NOW).is_none());
    }
    assert!(decode_token(KEY, &ALICE.to_uppercase(), NOW).is_none());
    assert!(decode_token(KEY, &ALICE.replacen('.', "..", 1), NOW).is_none());
    assert!(decode_token(KEY, &format!(" {}", ALICE), NOW).is_none());
}

#[test]
fn signed_claims_that_cannot_be_read_are_rejected() {
    let unknown_language = "0500f153650000000010ff536500000000616c696365313233.2007033f05dff0e12ddd99077f43e695ca86f2188fa42476fee1fec922c579c6";
    assert!(decode_token(KEY, unknown_language, NOW).is_none());
    let name_not_utf8 = "000500000000000000150e000000000000fffe.2b906007b42cf8cd99505660d91e9d770bd076c9501a4b65c73acaaa216748d3";
    assert!(decode_token(KEY, name_not_utf8, 6).is_none());
    let too_short = "000500000000000000.c5ce6d19a574f1625644f9c4906166ea0fe5a89043d91539cae61891e9e5448b";
    assert!(decode_token(KEY, too_short, 6).is_none());
}
