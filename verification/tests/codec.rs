use eigen_core::jsoncodec::{decode_images, encode_images, encode_json_string, json_string_field};

#[test]
fn test_empty_image_list_round_trip() {
    // persisting a message with no images and reloading it yields an
    // empty image list, never a missing-field failure
    let images: Vec<String> = Vec::new();
    let encoded = encode_images(&images);
    assert_eq!(encoded, "[]");
    let decoded = decode_images(&encoded);
    assert!(decoded.is_empty());
}

#[test]
fn test_image_list_round_trip() {
    let images = vec![
        "aGVsbG8=".to_string(),
        "with \"quotes\" and \\ backslash".to_string(),
        "newline\nand tab\tand unicode \u{00e9}\u{4e16}".to_string(),
        "control \u{0001} char".to_string(),
        String::new(),
    ];
    let encoded = encode_images(&images);
    let decoded = decode_images(&encoded);
    assert_eq!(decoded, images);
}

#[test]
fn test_round_trip_matches_external_encoder() {
    // what the common serializer writes for a list of plain strings
    // decodes to the same list
    let images = vec!["abc".to_string(), "def=".to_string()];
    let external = serde_json::to_string(&images).unwrap();
    let decoded = decode_images(&external);
    assert_eq!(decoded, images);
}

#[test]
fn test_malformed_image_text_decodes_empty() {
    assert!(decode_images("").is_empty());
    assert!(decode_images("not json").is_empty());
    assert!(decode_images("[\"unterminated").is_empty());
    assert!(decode_images("[\"a\",]").is_empty());
    assert!(decode_images("[\"a\"] trailing").is_empty());
    assert!(decode_images("[1,2]").is_empty());
}

#[test]
fn test_encode_json_string_escapes() {
    assert_eq!(encode_json_string("plain"), "\"plain\"");
    assert_eq!(encode_json_string("a\"b"), "\"a\\\"b\"");
    assert_eq!(encode_json_string("a\\b"), "\"a\\\\b\"");
    assert_eq!(encode_json_string("line\nbreak"), "\"line\\nbreak\"");
    assert_eq!(encode_json_string("\u{0001}"), "\"\\u0001\"");
}

#[test]
fn test_json_string_field_extraction() {
    assert_eq!(
        json_string_field("{\"expression\":\"2+2\"}", "expression").as_deref(),
        Some("2+2")
    );
    // whitespace around tokens is tolerated
    assert_eq!(
        json_string_field("{ \"expression\" : \"2 + 2\" }", "expression").as_deref(),
        Some("2 + 2")
    );
    // several fields: the first matching key wins
    assert_eq!(
        json_string_field("{\"a\":\"1\",\"b\":\"2\"}", "b").as_deref(),
        Some("2")
    );
    assert!(json_string_field("{\"a\":\"1\"}", "b").is_none());
    assert!(json_string_field("not an object", "a").is_none());
    assert!(json_string_field("{}", "a").is_none());
}

#[test]
fn test_json_string_field_unescapes() {
    assert_eq!(
        json_string_field("{\"q\":\"say \\\"hi\\\"\\n\"}", "q").as_deref(),
        Some("say \"hi\"\n")
    );
}
