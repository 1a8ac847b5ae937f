use mcs_backend::fingerprint::{canonical_payload_json, generate_cache_key};
use mcs_backend::payload::Payload;

fn payload(code: &str) -> Payload {
    Payload {
        nsweeps: "20".to_string(),
        nf: "10000".to_string(),
        smax: "100".to_string(),
        local: "0".to_string(),
        fstop: "1.5".to_string(),
        code: code.to_string(),
    }
}

#[test]
fn canonical_json_has_fixed_field_order_and_escaping() {
    let p = payload("a\"b\\c\nd\te\ru\u{0001}");
    assert_eq!(
        canonical_payload_json(&p),
        "{\"nsweeps\":\"20\",\"nf\":\"10000\",\"smax\":\"100\",\"local\":\"0\",\"fstop\":\"1.5\",\"code\":\"a\\\"b\\\\c\\nd\\te\\ru\\u0001\"}"
    );
}

#[test]
fn canonical_json_escapes_control_characters() {
    let p = payload("\u{0008}\u{000c}\u{001f}");
    let json = canonical_payload_json(&p);
    assert!(json.ends_with("\"code\":\"\\b\\f\\u001f\"}"));
}

#[test]
fn cache_key_is_32_lowercase_hex_characters() {
    let key = generate_cache_key(&payload("let x = 1;"));
    assert_eq!(key.len(), 32);
    assert!(key.chars().all(|c| c.is_ascii_hexdigit() && !c.is_ascii_uppercase()));
}

#[test]
fn identical_payloads_get_identical_keys() {
    let k1 = generate_cache_key(&payload("let x = 1;"));
    let k2 = generate_cache_key(&payload("let x = 1;"));
    assert_eq!(k1, k2);
}

#[test]
fn differing_payloads_get_differing_keys() {
    let k1 = generate_cache_key(&payload("let x = 1;"));
    let k2 = generate_cache_key(&payload("let x = 2;"));
    assert_ne!(k1, k2);
}

#[test]
fn fingerprint_is_over_the_raw_payload() {
    // equivalent numbers in different formatting do not collide: the raw
    // text, not the validated value, is fingerprinted
    let mut p1 = payload("let x = 1;");
    let mut p2 = payload("let x = 1;");
    p1.nsweeps = "20".to_string();
    p2.nsweeps = "020".to_string();
    assert_ne!(generate_cache_key(&p1), generate_cache_key(&p2));
}

#[test]
fn cache_key_matches_md5_of_canonical_json() {
    let p = payload("let x = 1;");
    let expected = format!("{:x}", md5::compute(canonical_payload_json(&p).as_bytes()));
    assert_eq!(generate_cache_key(&p), expected);
}
