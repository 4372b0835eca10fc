use stecker::codec::{decode, decode_b64, encode, encode_offer, B64DecodeError};

#[test]
fn encode_gives_padded_standard_base64() {
    assert_eq!(encode(""), "");
    assert_eq!(encode("f"), "Zg==");
    assert_eq!(encode("fo"), "Zm8=");
    assert_eq!(encode("foo"), "Zm9v");
    assert_eq!(encode("hello"), "aGVsbG8=");
}

#[test]
fn encode_uses_plus_and_slash_digits() {
    // the bytes ef bf bd are the six-bit values 59, 59, 62, 61
    let text = "\u{fffd}";
    assert_eq!(text.as_bytes(), &[0xef, 0xbf, 0xbd]);
    assert_eq!(encode(text), "77+9");
    // the bytes 3f 3f 3f are the six-bit values 15, 51, 60, 63
    assert_eq!(encode("???"), "Pz8/");
}

#[test]
fn decode_b64_reads_text_back() {
    assert_eq!(decode_b64("aGVsbG8="), Ok("hello".to_string()));
    assert_eq!(decode("Zm9v"), Ok("foo".to_string()));
}

#[test]
fn decode_b64_rejects_invalid_base64() {
    assert_eq!(decode_b64("not base64!"), Err(B64DecodeError::Base64));
    assert_eq!(decode_b64("Zg="), Err(B64DecodeError::Base64));
}

#[test]
fn decode_b64_rejects_invalid_utf8() {
    // "/w==" is the single byte 0xff
    assert_eq!(decode_b64("/w=="), Err(B64DecodeError::Utf8));
}

#[test]
fn decode_inverts_encode() {
    for text in ["", "a", "ab", "abc", "{\"type\":\"offer\",\"sdp\":\"v=0\"}", "Grüße ✓"] {
        assert_eq!(decode_b64(&encode(text)), Ok(text.to_string()));
    }
}

#[test]
fn encode_offer_is_base64_of_the_json() {
    let json = "{\"type\":\"answer\",\"sdp\":\"x\"}";
    let encoded = encode_offer(json);
    assert_eq!(encoded, encode(json));
    assert_eq!(decode_b64(&encoded), Ok(json.to_string()));
}

#[test]
fn decode_b64_rejects_non_canonical_base64() {
    // missing padding
    assert_eq!(decode_b64("Zg"), Err(B64DecodeError::Base64));
    // trailing bits set in the last digit: "Zh==" is not the encoding of any bytes
    assert_eq!(decode_b64("Zh=="), Err(B64DecodeError::Base64));
    // whitespace is not part of the alphabet
    assert_eq!(decode_b64("Zm9v\n"), Err(B64DecodeError::Base64));
}
