use exotia_core::key::{server_auth_key, user_info_from_token};
use exotia_core::utils::generate_token::make_token;
use exotia_core::utils::token::{create, decrypt, encrypt};
use exotia_core::{ApiError, UserInfoTrait};

const ALNUM: &str = "ABCDEFGHIJKLMNOPQRSTUVWXYZabcdefghijklmnopqrstuvwxyz0123456789";
const SPECIAL: &str = "!@#$%^&*()[]{};':\",./<>?`";

#[test]
fn encrypt_then_decrypt_gives_back_the_text() {
    for text in ["", "hello", "550e8400-e29b-41d4-a716-446655440000|1.2.3.4|Steve", "zażółć"] {
        let token = encrypt(text, "secret");
        assert_ne!(token, text);
        assert_eq!(decrypt(&token, "secret").unwrap(), text);
    }
}

#[test]
fn encryption_is_deterministic_and_keyed() {
    assert_eq!(encrypt("abc", "k1"), encrypt("abc", "k1"));
    assert_ne!(encrypt("abc", "k1"), encrypt("abc", "k2"));
    assert!(decrypt("not base64 !!", "k1").is_err());
}

#[test]
fn extract_reads_the_three_fields() {
    let s = "550e8400-e29b-41d4-a716-446655440000|1.2.3.4|Steve".to_string();
    let k = s.extract().ok().unwrap();
    assert_eq!(k.uuid, 0x550e8400e29b41d4a716446655440000);
    assert_eq!(k.ip, "1.2.3.4");
    assert_eq!(k.nick, "Steve");
}

#[test]
fn extract_refuses_a_bad_uuid() {
    let s = "not-a-uuid|1.2.3.4|Steve".to_string();
    assert!(matches!(s.extract(), Err(ApiError::UuidError(_))));
    let short = "nope".to_string();
    assert!(matches!(short.extract(), Err(ApiError::UuidError(_))));
}

#[test]
fn token_of_an_encrypted_key_names_the_player() {
    let plain = "550e8400-e29b-41d4-a716-446655440000|10.0.0.1|Alex";
    let token = encrypt(plain, "basic_key");
    let k = user_info_from_token(&token, "basic_key").unwrap();
    assert_eq!(k.uuid, 0x550e8400e29b41d4a716446655440000);
    assert_eq!(k.ip, "10.0.0.1");
    assert_eq!(k.nick, "Alex");
    assert!(user_info_from_token(&token, "other_key").is_none());
    let short = encrypt("550e8400-e29b-41d4-a716-446655440000|10.0.0.1", "basic_key");
    assert!(user_info_from_token(&short, "basic_key").is_none());
    assert!(user_info_from_token("garbage", "basic_key").is_none());
}

#[test]
fn server_key_decrypts_to_the_nil_player() {
    let key = server_auth_key("basic_key");
    assert_eq!(decrypt(&key, "basic_key").unwrap(), "00000000-0000-0000-0000-000000000000|0.0.0.0|0");
    let k = user_info_from_token(&key, "basic_key").unwrap();
    assert_eq!(k.uuid, 0);
    assert_eq!(k.ip, "0.0.0.0");
    assert_eq!(k.nick, "0");
}

#[test]
fn tokens_have_the_asked_length_and_charset() {
    for (len, special) in [(0, None), (-3, Some(true)), (16, None), (40, Some(false)), (64, Some(true))] {
        let t = create(len, special);
        assert_eq!(t.chars().count(), len.max(0) as usize);
        for c in t.chars() {
            let ok = ALNUM.contains(c) || (special == Some(true) && SPECIAL.contains(c));
            assert!(ok, "unexpected {:?}", c);
        }
        let m = make_token(len, special);
        assert_eq!(m.chars().count(), len.max(0) as usize);
    }
}

#[test]
fn printed_keys_read_back() {
    let k = exotia_core::ExotiaKey { uuid: 0x550e8400e29b41d4a716446655440000, ip: "1.2.3.4".to_string(), nick: "Steve".to_string() };
    let text = exotia_core::key::key_text(&k);
    assert_eq!(text, "550e8400-e29b-41d4-a716-446655440000|1.2.3.4|Steve");
    let back = text.extract().ok().unwrap();
    assert_eq!((back.uuid, back.ip.as_str(), back.nick.as_str()), (k.uuid, "1.2.3.4", "Steve"));
    let longer = format!("{}|extra|more", text);
    let back = longer.extract().ok().unwrap();
    assert_eq!((back.uuid, back.ip.as_str(), back.nick.as_str()), (k.uuid, "1.2.3.4", "Steve"));
}

#[test]
fn uuids_print_hyphenated_lowercase() {
    for u in [0u128, 1, u128::MAX, 0xA1A2A3A4B1B2C1C2D1D2D3D4D5D6D7D8] {
        let s = exotia_core::key::format_uuid(u);
        assert_eq!(s, uuid::Uuid::from_u128(u).hyphenated().to_string());
        assert_eq!(uuid::Uuid::parse_str(&s).unwrap().as_u128(), u);
    }
}

#[test]
fn uuid_errors_carry_the_parser_message() {
    let s = "not-a-uuid|1.2.3.4|Steve".to_string();
    let expected = uuid::Uuid::parse_str("not-a-uuid").unwrap_err().to_string();
    match s.extract() {
        Err(ApiError::UuidError(m)) => assert_eq!(m, expected),
        _ => panic!("expected a UUID error"),
    }
}

#[test]
fn tokens_from_drawn_indices() {
    let t = exotia_core::utils::token::token_from_indices(&vec![0, 25, 26, 61], false);
    assert_eq!(t, "AZa9");
    let t = exotia_core::utils::token::token_from_indices(&vec![62, 86], true);
    assert_eq!(t, "!`");
}

#[test]
fn server_key_is_encrypted() {
    let key = server_auth_key("basic_key");
    assert_eq!(key, encrypt("00000000-0000-0000-0000-000000000000|0.0.0.0|0", "basic_key"));
}
