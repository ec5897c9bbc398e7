use analog_viewer::codec::{decode_binary, decode_response, decode_text, encode_request, RequestKind, WireVariant};
use analog_viewer::errors::CodecError;

#[test]
fn encode_binary_init_tag() {
    assert_eq!(encode_request(WireVariant::Binary, RequestKind::Init), b"init".to_vec());
}

#[test]
fn encode_binary_poll_tag() {
    assert_eq!(encode_request(WireVariant::Binary, RequestKind::Poll), b"poll".to_vec());
}

#[test]
fn encode_text_marker_byte() {
    assert_eq!(encode_request(WireVariant::Text, RequestKind::Init), vec![0u8]);
    assert_eq!(encode_request(WireVariant::Text, RequestKind::Poll), vec![0u8]);
}

#[test]
fn decode_binary_big_endian_fields() {
    let payload = [0u8, 100, 0, 200, 1, 44, 1, 144];
    let av = decode_binary(&payload).unwrap();
    assert_eq!(av.a0, 100);
    assert_eq!(av.a1, 200);
    assert_eq!(av.a2, 300);
    assert_eq!(av.a3, 400);
}

#[test]
fn decode_binary_full_range() {
    let payload = [0xffu8, 0xff, 0, 0, 0x12, 0x34, 0, 1];
    let av = decode_binary(&payload).unwrap();
    assert_eq!(av.a0, 0xffff);
    assert_eq!(av.a1, 0);
    assert_eq!(av.a2, 0x1234);
    assert_eq!(av.a3, 1);
}

#[test]
fn decode_binary_short_payload_is_truncated() {
    let payload = [0u8, 100, 0, 200, 1, 44, 1];
    assert_eq!(decode_binary(&payload), Err(CodecError::Truncated));
}

#[test]
fn decode_binary_empty_payload_is_truncated() {
    let payload: [u8; 0] = [];
    assert_eq!(decode_binary(&payload), Err(CodecError::Truncated));
}

#[test]
fn decode_binary_ignores_bytes_past_eighth() {
    let payload = [0u8, 1, 0, 2, 0, 3, 0, 4, 99, 99];
    let av = decode_binary(&payload).unwrap();
    assert_eq!((av.a0, av.a1, av.a2, av.a3), (1, 2, 3, 4));
}

#[test]
fn decode_text_four_fields() {
    let av = decode_text(b"100:200:300:400").unwrap();
    assert_eq!(av.a0, 100);
    assert_eq!(av.a1, 200);
    assert_eq!(av.a2, 300);
    assert_eq!(av.a3, 400);
}

#[test]
fn decode_text_three_fields_misses_a3() {
    assert_eq!(decode_text(b"100:200:300"), Err(CodecError::MissingField { channel: 3 }));
}

#[test]
fn decode_text_bad_second_field() {
    assert_eq!(
        decode_text(b"100:abc:300:400"),
        Err(CodecError::InvalidField { channel: 1, raw: b"abc".to_vec() })
    );
}

#[test]
fn decode_text_whitespace_padding() {
    let av = decode_text(b" \t4095:0:17:65535\r\n").unwrap();
    assert_eq!((av.a0, av.a1, av.a2, av.a3), (4095, 0, 17, 65535));
}

#[test]
fn decode_text_value_too_large() {
    assert_eq!(
        decode_text(b"65536:0:0:0"),
        Err(CodecError::InvalidField { channel: 0, raw: b"65536".to_vec() })
    );
}

#[test]
fn decode_text_empty_payload() {
    assert_eq!(
        decode_text(b""),
        Err(CodecError::InvalidField { channel: 0, raw: Vec::new() })
    );
}

#[test]
fn decode_text_empty_field() {
    assert_eq!(
        decode_text(b"1::3:4"),
        Err(CodecError::InvalidField { channel: 1, raw: Vec::new() })
    );
}

#[test]
fn decode_text_single_field_misses_a1() {
    assert_eq!(decode_text(b"123"), Err(CodecError::MissingField { channel: 1 }));
}

#[test]
fn decode_text_ignores_fields_past_fourth() {
    let av = decode_text(b"1:2:3:4:5").unwrap();
    assert_eq!((av.a0, av.a1, av.a2, av.a3), (1, 2, 3, 4));
}

#[test]
fn decode_response_dispatches_by_variant() {
    let binary = [0u8, 1, 0, 2, 0, 3, 0, 4];
    assert!(decode_response(WireVariant::Binary, &binary).is_ok());
    assert!(decode_response(WireVariant::Text, &binary).is_err());
    assert!(decode_response(WireVariant::Text, b"1:2:3:4").is_ok());
    assert_eq!(decode_response(WireVariant::Binary, b"1:2:3:4"), Err(CodecError::Truncated));
}
