use uc_drive2::crypto::{
    choose_key, cookie_from_setting, cookie_setting_value, decrypt_with_key, encrypt_with_key,
    has_cookie_setting, payload_needs_key, seal_with_nonce, secret_file,
};

fn counting_key() -> [u8; 32] {
    let mut key = [0u8; 32];
    for (i, b) in key.iter_mut().enumerate() {
        *b = i as u8;
    }
    key
}

#[test]
fn encrypt_decrypt_roundtrip_and_format() {
    let key = [7u8; 32];
    let secret = "SUBID=xxx; SNUID=yyy; cookie2=zzz";
    let enc = encrypt_with_key(&key, secret);
    assert!(enc.starts_with("v1:"));
    assert_eq!(enc.split(':').count(), 4);
    assert!(!enc.contains("SUBID"), "密文不应包含明文");
    assert_eq!(decrypt_with_key(&key, &enc), secret);
}

#[test]
fn damaged_payload_decrypts_to_empty() {
    let key = [9u8; 32];
    assert_eq!(decrypt_with_key(&key, "v1:aaaa"), "");
    assert_eq!(decrypt_with_key(&key, "v1:aaa:bbb:ccc"), "");
}

#[test]
fn legacy_payload_still_decrypts() {
    let key = counting_key();
    let payload = "v1:AAECAwQFBgcICQoL:oE2bu1oeIKbccbqm+TUg2A==:K2exeqac73jiLvzi1A==";
    assert_eq!(decrypt_with_key(&key, payload), "legacy-cookie");
}

#[test]
fn sealing_with_a_fixed_nonce_gives_the_legacy_payload() {
    let key = counting_key();
    let nonce: [u8; 12] = [0, 1, 2, 3, 4, 5, 6, 7, 8, 9, 10, 11];
    assert_eq!(
        seal_with_nonce(&key, &nonce, "legacy-cookie"),
        "v1:AAECAwQFBgcICQoL:oE2bu1oeIKbccbqm+TUg2A==:K2exeqac73jiLvzi1A=="
    );
}

#[test]
fn decrypting_under_another_key_gives_empty() {
    let enc = encrypt_with_key(&[1u8; 32], "secret");
    assert_eq!(decrypt_with_key(&[2u8; 32], &enc), "");
}

#[test]
fn decrypting_a_damaged_tag_gives_empty() {
    let key = counting_key();
    let damaged = "v1:AAECAwQFBgcICQoL:oE2bu1oeIKbccbqm+TUg2B==:K2exeqac73jiLvzi1A==";
    assert_eq!(decrypt_with_key(&key, damaged), "");
    assert_eq!(decrypt_with_key(&key, "v2:AAECAwQFBgcICQoL:oE2bu1oeIKbccbqm+TUg2A==:K2exeqac73jiLvzi1A=="), "");
}

#[test]
fn empty_secret_round_trips() {
    let key = [3u8; 32];
    let enc = encrypt_with_key(&key, "");
    assert!(enc.starts_with("v1:"));
    assert_eq!(decrypt_with_key(&key, &enc), "");
}

#[test]
fn key_file_of_32_bytes_is_used() {
    let bytes: Vec<u8> = (0u8..32).collect();
    let (key, must_write) = choose_key(Some(bytes));
    assert_eq!(key, counting_key());
    assert!(!must_write);
}

#[test]
fn key_file_of_wrong_length_is_replaced() {
    let (_, must_write) = choose_key(Some(vec![1, 2, 3]));
    assert!(must_write);
    let (_, must_write) = choose_key(None);
    assert!(must_write);
}

#[test]
fn cookie_is_stored_trimmed_and_read_back() {
    let key = [5u8; 32];
    let stored = cookie_setting_value(&key, "  a=1; b=2 \n");
    assert_eq!(cookie_from_setting(&key, &stored), "a=1; b=2");
    assert_eq!(cookie_from_setting(&key, ""), "");
    assert!(has_cookie_setting(&stored));
    assert!(!has_cookie_setting(""));
}

#[test]
fn secret_file_lies_in_the_data_directory() {
    assert_eq!(secret_file("/data/uc-drive2"), "/data/uc-drive2/.secret");
}

#[test]
fn malformed_payloads_need_no_key() {
    assert!(!payload_needs_key(""));
    assert!(!payload_needs_key("v1:aaaa"));
    assert!(!payload_needs_key("v1:aaa:bbb:ccc"));
    assert!(!payload_needs_key("v2:AAAAAAAAAAAAAAAA:AAAAAAAAAAAAAAAAAAAAAA==:AA=="));
    let enc = seal_with_nonce(&counting_key(), &[1u8; 12], "cookie");
    assert!(payload_needs_key(&enc));
}
