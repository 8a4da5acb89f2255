use lib::bjson::{
    JsonError, MAX_STRING, MAX_WIRE, Value, decode_object, encode_object, escape, nibble,
    parse_string, require_hex, require_str,
};

#[test]
fn round_trips_flat_objects() {
    let members = vec![
        ("publisher_id".to_string(), Value::Str("pub.example".to_string())),
        ("challenge_hex".to_string(), Value::Hex(vec![0xde, 0xad, 0xbe, 0xef])),
    ];
    let encoded = encode_object(&[
        ("publisher_id", Value::Str("pub.example".to_string())),
        ("challenge_hex", Value::Hex(vec![0xde, 0xad, 0xbe, 0xef])),
    ]);
    let decoded = decode_object(encoded.as_bytes()).unwrap_or_else(|e| panic!("{e:?}"));
    assert_eq!(decoded, members);
}

#[test]
fn escapes_are_symmetric() {
    let encoded = encode_object(&[("note", Value::Str("a \"quoted\" \\ path".to_string()))]);
    let decoded = decode_object(encoded.as_bytes()).unwrap_or_else(|e| panic!("{e:?}"));
    assert_eq!(decoded[0].1, Value::Str("a \"quoted\" \\ path".to_string()));
}

#[test]
fn rejects_numbers_arrays_and_nesting() {
    for bad in [
        "{\"a\":1}",
        "{\"a\":[1,2]}",
        "{\"a\":{\"b\":\"c\"}}",
        "{\"a\":true}",
        "{\"a\":\"x\",}",
        "{a:\"x\"}",
        "{\"a\":\"x\" trailing}",
        "{\"a\":\"x\"",
        "",
        "[]",
    ] {
        assert!(decode_object(bad.as_bytes()).is_err(), "{bad:?}");
    }
}

#[test]
fn rejects_duplicates_and_enforces_hex_shape() {
    assert_eq!(
        decode_object(b"{\"a\":\"x\",\"a\":\"y\"}"),
        Err(JsonError::Member("duplicate"))
    );
    assert!(decode_object(b"{\"k_hex\":\"zz\"}").is_err());
    assert!(decode_object(b"{\"k_hex\":\"abc\"}").is_err());
    assert_eq!(
        decode_object(b"{\"k_hex\":\"0a0b\"}").unwrap_or_else(|e| panic!("{e:?}"))[0].1,
        Value::Hex(vec![0x0a, 0x0b])
    );
}

#[test]
fn rejects_control_characters_and_bad_escapes() {
    assert!(decode_object(b"{\"a\":\"line\nbreak\"}").is_err());
    assert!(decode_object(b"{\"a\":\"tab\\there\"}").is_err());
}

#[test]
fn oversized_inputs_reject() {
    let big = format!("{{\"a\":\"{}\"}}", "x".repeat(MAX_STRING + 1));
    assert!(decode_object(big.as_bytes()).is_err());
    let huge = vec![b'{'; MAX_WIRE + 1];
    assert_eq!(decode_object(&huge), Err(JsonError::TooLarge));
}

#[test]
fn accessors_require_the_right_kind() {
    let members =
        decode_object(b"{\"s\":\"v\",\"h_hex\":\"01\"}").unwrap_or_else(|e| panic!("{e:?}"));
    assert_eq!(require_str(&members, "s"), Ok("v"));
    assert_eq!(require_hex(&members, "h_hex"), Ok(&[0x01][..]));
    assert_eq!(
        require_str(&members, "h_hex"),
        Err(JsonError::Value("wrong member kind"))
    );
    assert_eq!(
        require_hex(&members, "s"),
        Err(JsonError::Value("wrong member kind"))
    );
    assert_eq!(
        require_str(&members, "absent"),
        Err(JsonError::Member("missing member"))
    );
}

#[test]
fn encoding_is_exact_and_lowercase_hex() {
    let encoded = encode_object(&[
        ("a", Value::Str("x\"y".to_string())),
        ("b_hex", Value::Hex(vec![0xAB, 0x01])),
    ]);
    assert_eq!(encoded, "{\"a\":\"x\\\"y\",\"b_hex\":\"ab01\"}");
    assert_eq!(encode_object(&[]), "{}");
}

#[test]
fn escape_doubles_only_quote_and_backslash() {
    assert_eq!(escape("a\"b\\c"), "a\\\"b\\\\c");
    assert_eq!(escape("plain"), "plain");
}

#[test]
fn nibble_reads_both_cases() {
    assert_eq!(nibble('0'), Some(0));
    assert_eq!(nibble('9'), Some(9));
    assert_eq!(nibble('a'), Some(10));
    assert_eq!(nibble('f'), Some(15));
    assert_eq!(nibble('F'), None);
    assert_eq!(nibble('g'), None);
}

#[test]
fn parse_string_stops_after_the_closing_quote() {
    let text: Vec<char> = "\"ab\\\"c\" tail".chars().collect();
    assert_eq!(parse_string(&text, 0, 16), Some(("ab\"c".to_string(), 7)));
    assert_eq!(parse_string(&text, 0, 3), None);
    let open: Vec<char> = "\"abc".chars().collect();
    assert_eq!(parse_string(&open, 0, 16), None);
}

#[test]
fn whitespace_around_members_is_accepted() {
    let decoded = decode_object(b" { \"a\" : \"x\" , \"b_hex\" : \"ff\" }")
        .unwrap_or_else(|e| panic!("{e:?}"));
    assert_eq!(
        decoded,
        vec![
            ("a".to_string(), Value::Str("x".to_string())),
            ("b_hex".to_string(), Value::Hex(vec![0xff])),
        ]
    );
}

#[test]
fn trailing_space_after_the_object_is_refused() {
    assert_eq!(
        decode_object(b"{\"a\":\"x\"} "),
        Err(JsonError::Malformed("unterminated object"))
    );
}

#[test]
fn every_error_kind_has_its_message() {
    assert_eq!(
        JsonError::TooLarge.message(),
        "request body exceeds the protocol ceiling"
    );
    assert_eq!(
        JsonError::Malformed("x").message(),
        "malformed protocol object: x"
    );
    assert_eq!(JsonError::Member("y").message(), "protocol member error: y");
    assert_eq!(JsonError::Value("z").message(), "protocol value error: z");
}

#[test]
fn too_many_members_reject() {
    let mut text = String::from("{");
    for i in 0..33 {
        if i > 0 {
            text.push(',');
        }
        text.push_str(&format!("\"k{i}\":\"v\""));
    }
    text.push('}');
    assert!(decode_object(text.as_bytes()).is_err());
}

#[test]
fn reencoding_a_decoded_object_drops_only_whitespace() {
    let input = b"{ \"note\" : \"a \\\"q\\\" \\\\ b\" ,\n \"k_hex\" : \"0aff\" }";
    let members = decode_object(input).unwrap_or_else(|e| panic!("{e:?}"));
    let borrowed: Vec<(&str, Value)> =
        members.iter().map(|(key, value)| (key.as_str(), value.clone())).collect();
    let encoded = encode_object(&borrowed);
    assert_eq!(encoded, "{\"note\":\"a \\\"q\\\" \\\\ b\",\"k_hex\":\"0aff\"}");
    assert!(encoded.len() <= input.len());
}

#[test]
fn decoding_is_stable_under_reencoding() {
    let input = b"\n{\"b_hex\":\"00ff10\" , \"a\":\"x\\\\y\",\"c\":\"\" }";
    let members = decode_object(input).unwrap_or_else(|e| panic!("{e:?}"));
    assert_eq!(members.len(), 3);
    let borrowed: Vec<(&str, Value)> =
        members.iter().map(|(key, value)| (key.as_str(), value.clone())).collect();
    let encoded = encode_object(&borrowed);
    let again = decode_object(encoded.as_bytes()).unwrap_or_else(|e| panic!("{e:?}"));
    assert!(again == members);
    assert!(matches!(&again[0].1, Value::Hex(bytes) if bytes == &vec![0x00, 0xff, 0x10]));
    assert!(matches!(&again[1].1, Value::Str(text) if text == "x\\y"));
}
