use secret_satan::payload::{decode_payload, encode_payload};

#[test]
fn payloads_are_standard_base64() {
    assert_eq!(encode_payload("hello"), Some("aGVsbG8=".to_string()));
    assert_eq!(encode_payload(""), Some(String::new()));
    assert_eq!(encode_payload("Firstname Lastnameson"), Some("Rmlyc3RuYW1lIExhc3RuYW1lc29u".to_string()));
    assert_eq!(encode_payload("a"), Some("YQ==".to_string()));
    assert_eq!(encode_payload("ab"), Some("YWI=".to_string()));
    assert_eq!(encode_payload("\u{e9}"), Some("w6k=".to_string()));
}

#[test]
fn payloads_decode_to_their_text() {
    assert_eq!(decode_payload("aGVsbG8="), Some("hello".to_string()));
    assert_eq!(decode_payload(""), Some(String::new()));
    assert_eq!(decode_payload("w6k="), Some("\u{e9}".to_string()));
}

#[test]
fn decoding_inverts_encoding_of_payloads() {
    for text in ["", "x", "A pony, please.", "snow \u{2603} and more", "line\nbreak\ttab"] {
        let payload = encode_payload(text).unwrap();
        assert_eq!(decode_payload(&payload), Some(text.to_string()));
    }
}

#[test]
fn broken_payloads_stand_for_nothing() {
    assert_eq!(decode_payload("not base64!"), None);
    assert_eq!(decode_payload("aGVsbG8"), None);
    assert_eq!(decode_payload("a"), None);
    // well-formed base64 of a byte that is no text
    assert_eq!(decode_payload("/w=="), None);
}

#[test]
fn payloads_that_are_no_text_stand_for_nothing() {
    // base64 of the bytes c3 a9, which spell one letter
    assert_eq!(decode_payload("w6k="), Some("\u{e9}".to_string()));
    // base64 of c3 alone and of ff, which spell nothing
    assert_eq!(decode_payload("ww=="), None);
    assert_eq!(decode_payload("/w=="), None);
}
