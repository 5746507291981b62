use transport_codec::{decode, encode, pick_shortest, DecodeError};

#[test]
fn encode_hello_world() {
    let value: serde_json::Value = serde_json::from_str("{\"hello\":\"world\"}").unwrap();
    let blob = encode(value).unwrap();
    assert_eq!("2eyJoZWxsbyI6IndvcmxkIn0=", blob);
}

#[test]
fn decode_hello_world_zstd() {
    let blob = "1KLUv/QBoiQAAeyJoZWxsbyI6IndvcmxkIn0=";
    let value = decode(blob.as_bytes()).unwrap();
    let expected: serde_json::Value = serde_json::from_str("{\"hello\":\"world\"}").unwrap();
    assert_eq!(expected, value);
}

#[test]
fn decode_hello_world_plain() {
    let blob = "2eyJoZWxsbyI6IndvcmxkIn0=";
    let value = decode(blob.as_bytes()).unwrap();
    let expected: serde_json::Value = serde_json::from_str("{\"hello\":\"world\"}").unwrap();
    assert_eq!(expected, value);
}

#[test]
fn decode_hello_world_with_garbage() {
    let blob = "1KLUv/QBoiQAAeyJoZWxsbyI6IndvcmxkIn0=&1312";
    let value = decode(blob.as_bytes()).unwrap();
    let expected: serde_json::Value = serde_json::from_str("{\"hello\":\"world\"}").unwrap();
    assert_eq!(expected, value);
}

#[test]
fn decode_legacy_tag_like_compressed() {
    let legacy = "0KLUv/QBoiQAAeyJoZWxsbyI6IndvcmxkIn0=";
    let current = "1KLUv/QBoiQAAeyJoZWxsbyI6IndvcmxkIn0=";
    let a = decode(legacy.as_bytes()).unwrap();
    let b = decode(current.as_bytes()).unwrap();
    assert_eq!(a, b);
}

#[test]
fn decode_empty_input() {
    assert_eq!(DecodeError::EmptyInput, decode(b"").unwrap_err());
}

#[test]
fn decode_unknown_tag() {
    let blob = "9eyJoZWxsbyI6IndvcmxkIn0=";
    assert_eq!(DecodeError::UnsupportedFormat(b'9'), decode(blob.as_bytes()).unwrap_err());
}

#[test]
fn decode_invalid_encoding() {
    // A single alphabet symbol is never a complete base64 quantum.
    assert_eq!(DecodeError::InvalidEncoding, decode(b"2A").unwrap_err());
}

#[test]
fn decode_transform_failure() {
    // "bm90enN0ZA==" is base64 for "notzstd", which is no zstd frame.
    assert_eq!(DecodeError::TransformFailure, decode(b"1bm90enN0ZA==").unwrap_err());
}

#[test]
fn decode_malformed_json() {
    // "bm90anNvbg==" is base64 for "notjson".
    assert_eq!(DecodeError::MalformedJson, decode(b"2bm90anNvbg==").unwrap_err());
}

#[test]
fn round_trip_float_needing_exact_parse() {
    // A shortest-form float whose value is lost under double-rounded parsing;
    // the float_roundtrip feature keeps it exact.
    let value: serde_json::Value = serde_json::from_str("51.248178375505404").unwrap();
    assert_eq!(Some(51.248178375505404), value.as_f64());
    let blob = encode(value.clone()).unwrap();
    let back = decode(blob.as_bytes()).unwrap();
    assert_eq!(value, back);
}

#[test]
fn round_trip_scalars() {
    let fixtures = vec!["null", "true", "false", "0", "-17", "3.25", "\"text\""];
    for text in fixtures {
        let value: serde_json::Value = serde_json::from_str(text).unwrap();
        let blob = encode(value.clone()).unwrap();
        let back = decode(blob.as_bytes()).unwrap();
        assert_eq!(value, back);
    }
}

#[test]
fn round_trip_nested() {
    let text = "{\"a\":[1,2,{\"b\":null}],\"c\":{\"d\":[true,\"e\"]}}";
    let value: serde_json::Value = serde_json::from_str(text).unwrap();
    let blob = encode(value.clone()).unwrap();
    let back = decode(blob.as_bytes()).unwrap();
    assert_eq!(value, back);
}

#[test]
fn round_trip_nested_within_parser_limit() {
    let mut value = serde_json::Value::Null;
    for _ in 0..100 {
        value = serde_json::Value::Array(vec![value]);
    }
    let blob = encode(value.clone()).unwrap();
    let back = decode(blob.as_bytes()).unwrap();
    assert_eq!(value, back);
}

#[test]
fn deep_nesting_outruns_the_parser() {
    // Beyond serde_json's recursion limit the value still encodes, but its
    // text can no longer be parsed back, as encode's contract says.
    let mut value = serde_json::Value::Null;
    for _ in 0..200 {
        value = serde_json::Value::Array(vec![value]);
    }
    let blob = encode(value).unwrap();
    assert_eq!(DecodeError::MalformedJson, decode(blob.as_bytes()).unwrap_err());
}

#[test]
fn round_trip_compressible_picks_zstd() {
    let mut text = String::from("[");
    for i in 0..200 {
        if i > 0 {
            text.push(',');
        }
        text.push_str("\"abcabcabcabc\"");
    }
    text.push(']');
    let value: serde_json::Value = serde_json::from_str(&text).unwrap();
    let blob = encode(value.clone()).unwrap();
    assert_eq!(Some('1'), blob.chars().next());
    let back = decode(blob.as_bytes()).unwrap();
    assert_eq!(value, back);
}

#[test]
fn encode_then_noisy_decode() {
    let value: serde_json::Value = serde_json::from_str("{\"k\":[1,2,3]}").unwrap();
    let blob = encode(value.clone()).unwrap();
    let noisy = format!("{} trailing#garbage", blob);
    let back = decode(noisy.as_bytes()).unwrap();
    assert_eq!(value, back);
}

#[test]
fn build_transport_prefers_compressed_on_tie() {
    let t = transport_codec::build_transport(b"ab".to_vec(), b"cd".to_vec()).unwrap();
    assert_eq!("1Y2Q=", t);
}

#[test]
fn build_transport_picks_plain_when_shorter() {
    let t = transport_codec::build_transport(b"ab".to_vec(), b"longer".to_vec()).unwrap();
    assert_eq!("2YWI=", t);
}

#[test]
fn pick_shortest_takes_minimum() {
    let options: Vec<(u8, Vec<u8>)> = vec![(b'1', vec![1, 2, 3]), (b'2', vec![4])];
    assert_eq!(1, pick_shortest(&options));
}

#[test]
fn pick_shortest_tie_keeps_first() {
    let options: Vec<(u8, Vec<u8>)> = vec![(b'1', vec![1, 2]), (b'2', vec![3, 4])];
    assert_eq!(0, pick_shortest(&options));
}
