use moabdb::errors::MoabError;
use moabdb::protocol::{Request, Response};

fn sample_request() -> Request {
    Request {
        symbol: "AAPL".to_string(),
        start: 0,
        end: 86400,
        datatype: "daily_stocks".to_string(),
        username: String::new(),
        token: String::new(),
    }
}

#[test]
fn request_binary_round_trip() {
    let req = sample_request();
    let bytes = req.serialize();
    let back = Request::deserialize(&bytes).unwrap();
    assert_eq!(back, req);
}

#[test]
fn request_wire_round_trip() {
    let req = sample_request();
    let wire = req.b64();
    let back = Request::from_b64(&wire).unwrap();
    assert_eq!(back, req);
}

#[test]
fn request_wire_text_is_exact() {
    // Pins the whole encoder stack: field tags, varints, UTF-8 bytes, and
    // the base64 alphabet with padding.
    let req = sample_request();
    assert_eq!(req.b64(), "CgRBQVBMEAAYgKMFIgxkYWlseV9zdG9ja3MqADIA".to_string());
    let empty = Request {
        symbol: String::new(),
        start: 0,
        end: 0,
        datatype: String::new(),
        username: String::new(),
        token: String::new(),
    };
    assert_eq!(empty.b64(), "CgAQABgAIgAqADIA".to_string());
}

#[test]
fn request_round_trip_with_unicode_fields() {
    let req = Request {
        symbol: "Ünïcödé".to_string(),
        start: 1,
        end: 2,
        datatype: "intraday_stocks".to_string(),
        username: "user".to_string(),
        token: "tok".to_string(),
    };
    let wire = req.b64();
    assert_eq!(wire, "CgvDnG7Dr2PDtmTDqRABGAIiD2ludHJhZGF5X3N0b2NrcyoEdXNlcjIDdG9r".to_string());
    assert_eq!(Request::from_b64(&wire).unwrap(), req);
}

#[test]
fn request_round_trip_with_extreme_timestamps() {
    let req = Request {
        symbol: "X".to_string(),
        start: u32::MAX,
        end: u32::MAX - 1,
        datatype: "daily_stocks".to_string(),
        username: "u".to_string(),
        token: "t".to_string(),
    };
    let bytes = req.serialize();
    assert_eq!(Request::deserialize(&bytes).unwrap(), req);
}

#[test]
fn response_binary_round_trip() {
    let resp = Response { code: 200, data: vec![1, 2, 3] };
    let bytes = resp.serialize();
    assert_eq!(Response::deserialize(&bytes).unwrap(), resp);
}

#[test]
fn response_wire_round_trip() {
    let resp = Response { code: 200, data: vec![1, 2, 3] };
    assert_eq!(resp.b64(), "CMgBEgMBAgM=".to_string());
    assert_eq!(Response::from_b64("CMgBEgMBAgM=").unwrap(), resp);
    let empty = Response { code: 404, data: Vec::new() };
    assert_eq!(empty.b64(), "CJQDEgA=".to_string());
    assert_eq!(Response::from_b64("CJQDEgA=").unwrap(), empty);
}

#[test]
fn unknown_trailing_fields_are_ignored() {
    // A response followed by an unknown varint field (key 0x38, value 5):
    // a newer writer's extra field, which this reader skips.
    let resp = Response::from_b64("CMgBEgGqOAU=").unwrap();
    assert_eq!(resp, Response { code: 200, data: vec![0xAA] });
}

#[test]
fn malformed_wire_text_is_a_decode_error() {
    // Not base64 at all.
    assert_eq!(Response::from_b64("!!!"), Err(MoabError::DecodeError));
    // Valid base64, but not the response schema.
    assert_eq!(Response::from_b64("AAAA"), Err(MoabError::DecodeError));
    assert_eq!(Request::from_b64("AAAA"), Err(MoabError::DecodeError));
}

#[test]
fn malformed_bytes_are_a_decode_error() {
    let good = Response { code: 200, data: vec![1, 2, 3] }.serialize();
    // Truncation anywhere breaks the parse.
    for cut in 0..good.len() {
        assert_eq!(Response::deserialize(&good[..cut]), Err(MoabError::DecodeError));
    }
    // A wrong leading key breaks it too.
    let mut wrong_key = good.clone();
    wrong_key[0] = 0x10;
    assert_eq!(Response::deserialize(&wrong_key), Err(MoabError::DecodeError));
    // A status varint too wide for 32 bits: key, then five continuation
    // bytes spelling 2^34.
    let wide = [0x08, 0x80, 0x80, 0x80, 0x80, 0x40, 0x12, 0x00];
    assert_eq!(Response::deserialize(&wide), Err(MoabError::DecodeError));
}

#[test]
fn non_utf8_text_field_is_a_decode_error() {
    let good = sample_request().serialize();
    // The symbol field's bytes start at offset 2 and are 4 long; 0xFF is
    // not valid UTF-8.
    let mut bad = good.clone();
    bad[2] = 0xFF;
    assert_eq!(Request::deserialize(&bad), Err(MoabError::DecodeError));
    // The same bytes parse fine where the schema expects raw bytes.
    let resp = Response { code: 200, data: vec![0xFF, 0xFE] };
    assert_eq!(Response::deserialize(&resp.serialize()).unwrap(), resp);
}

#[test]
fn wire_text_matches_reference_base64() {
    // The framing layer agrees with an independent base64 of the same
    // serialized bytes.
    let req = sample_request();
    assert_eq!(req.b64(), base64::encode(req.serialize()));
}
