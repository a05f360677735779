use waxum::signing::{request_headers, sign, signature_header, signing_input, WEBHOOK_SIGNATURE_VERSION};

fn value(headers: &[(String, String)], name: &str) -> Option<String> {
    headers.iter().find(|h| h.0 == name).map(|h| h.1.clone())
}

#[test]
fn the_signature_covers_timestamp_and_payload() {
    assert_eq!(
        sign("topsecret", 1700000000, "{\"a\":1}").unwrap(),
        "sha256=6a939b0c71853d606167625a15168ee9188c6a511c773ef4f42d307f3849e50f"
    );
    assert_ne!(
        sign("topsecret", 1700000001, "{\"a\":1}"),
        sign("topsecret", 1700000000, "{\"a\":1}")
    );
}

#[test]
fn keys_of_any_length_sign() {
    assert_eq!(
        sign("", 0, "").unwrap(),
        "sha256=b849d5a581847b281957065739df36df2463d1977ea8d6e1e4e6cf33fadc68c3"
    );
    assert_eq!(
        sign(&"x".repeat(100), 1, "p").unwrap(),
        "sha256=25793ae8088f3f9b4cadb83b1560c0317a05e698652d299cc9d3c24b7a5d960b"
    );
}

#[test]
fn text_is_signed_as_utf8() {
    assert_eq!(
        sign("kéy", -5, "hé").unwrap(),
        "sha256=7d62c9a1567b94b75f5f0321f25bbb689246671f5697458862336cf7bde34687"
    );
}

#[test]
fn the_signed_text_is_dotted() {
    assert_eq!(signing_input(1700000000, "body"), "1700000000.body");
    assert_eq!(signing_input(-1, ""), "-1.");
    assert_eq!(signing_input(i64::MIN, "x"), "-9223372036854775808.x");
    assert_eq!(signing_input(i64::MAX, "x"), "9223372036854775807.x");
}

#[test]
fn tags_are_written_in_lower_case_hex() {
    assert_eq!(signature_header(&vec![0, 1, 0x9f, 0xa0, 0xff]), "sha256=00019fa0ff");
    assert_eq!(signature_header(&vec![]), "sha256=");
}

#[test]
fn headers_are_signed_where_there_is_a_secret() {
    let headers = request_headers(1700000000, &Some("topsecret".to_string()), "{\"a\":1}");
    assert_eq!(headers.len(), 4);
    assert_eq!(value(&headers, "Content-Type").as_deref(), Some("application/json"));
    assert_eq!(value(&headers, "X-Webhook-Timestamp").as_deref(), Some("1700000000"));
    assert_eq!(value(&headers, "X-Webhook-Signature-Version").as_deref(), Some("v2"));
    assert_eq!(
        value(&headers, "X-Webhook-Signature"),
        sign("topsecret", 1700000000, "{\"a\":1}")
    );
}

#[test]
fn headers_are_plain_without_a_secret() {
    let headers = request_headers(5, &None, "x");
    assert_eq!(headers.len(), 3);
    assert_eq!(value(&headers, "X-Webhook-Signature"), None);
    assert_eq!(
        value(&headers, "X-Webhook-Signature-Version").as_deref(),
        Some(WEBHOOK_SIGNATURE_VERSION)
    );
    assert_eq!(value(&headers, "X-Webhook-Timestamp").as_deref(), Some("5"));
}

#[test]
fn the_dot_keeps_timestamp_and_payload_apart() {
    assert_ne!(signing_input(1, "2.x"), signing_input(12, "x"));
    assert_ne!(sign("k", 1, "2.x"), sign("k", 12, ".x"));
}
