//! Base64 transport encoding of session descriptions and other text.
//!
//! Offers and answers travel between peers as base64 of their UTF-8 text.
use vstd::prelude::*;
use vstd::utf8::*;

verus! {

/// The base64 digit (standard alphabet of RFC 4648) for a six-bit value.
pub open spec fn base64_digit(v: int) -> char {
    if v < 26 {
        (65 + v) as char
    } else if v < 52 {
        (97 + (v - 26)) as char
    } else if v < 62 {
        (48 + (v - 52)) as char
    } else if v == 62 {
        '+'
    } else {
        '/'
    }
}

/// Base64 with the standard alphabet and `=` padding: every three bytes
/// become four digits, a final group of one or two bytes is padded.
pub open spec fn spec_base64_encode(d: Seq<u8>) -> Seq<char>
    decreases d.len(),
{
    if d.len() == 0 {
        Seq::empty()
    } else if d.len() == 1 {
        seq![base64_digit((d[0] as int) / 4), base64_digit(((d[0] as int) % 4) * 16), '=', '=']
    } else if d.len() == 2 {
        seq![
            base64_digit((d[0] as int) / 4),
            base64_digit(((d[0] as int) % 4) * 16 + (d[1] as int) / 16),
            base64_digit(((d[1] as int) % 16) * 4),
            '=',
        ]
    } else {
        seq![
            base64_digit((d[0] as int) / 4),
            base64_digit(((d[0] as int) % 4) * 16 + (d[1] as int) / 16),
            base64_digit(((d[1] as int) % 16) * 4 + (d[2] as int) / 64),
            base64_digit((d[2] as int) % 64),
        ] + spec_base64_encode(d.skip(3))
    }
}

/// Whether `s` is canonical padded base64: the encoding of some bytes.
pub open spec fn is_base64(s: Seq<char>) -> bool {
    exists|d: Seq<u8>| spec_base64_encode(d) == s
}

/// The bytes whose encoding `s` is (there is at most one such sequence:
/// see `lemma_base64_encode_injective`).
pub open spec fn base64_bytes(s: Seq<char>) -> Seq<u8> {
    choose|d: Seq<u8>| spec_base64_encode(d) == s
}

/// Different six-bit values have different digits, none of them the padding `=`.
proof fn lemma_base64_digit(a: int, b: int)
    requires
        0 <= a < 64,
        0 <= b < 64,
    ensures
        base64_digit(a) == base64_digit(b) ==> a == b,
        base64_digit(a) != '=',
{
}

/// The digits of a group of three bytes determine the bytes.
proof fn lemma_group_of_three(a0: u8, a1: u8, a2: u8, b0: u8, b1: u8, b2: u8)
    by (bit_vector)
    requires
        a0 / 4 == b0 / 4,
        (a0 % 4) * 16 + a1 / 16 == (b0 % 4) * 16 + b1 / 16,
        (a1 % 16) * 4 + a2 / 64 == (b1 % 16) * 4 + b2 / 64,
        a2 % 64 == b2 % 64,
    ensures
        a0 == b0,
        a1 == b1,
        a2 == b2,
{
}

/// The digits of a final group of two bytes determine the bytes.
proof fn lemma_group_of_two(a0: u8, a1: u8, b0: u8, b1: u8)
    by (bit_vector)
    requires
        a0 / 4 == b0 / 4,
        (a0 % 4) * 16 + a1 / 16 == (b0 % 4) * 16 + b1 / 16,
        (a1 % 16) * 4 == (b1 % 16) * 4,
    ensures
        a0 == b0,
        a1 == b1,
{
}

/// The digits of a final single byte determine the byte.
proof fn lemma_group_of_one(a0: u8, b0: u8)
    by (bit_vector)
    requires
        a0 / 4 == b0 / 4,
        (a0 % 4) * 16 == (b0 % 4) * 16,
    ensures
        a0 == b0,
{
}

/// Where the padding stands in the first group of an encoding: its third
/// digit is `=` exactly for a single byte, its fourth for one or two bytes.
proof fn lemma_first_group_padding(d: Seq<u8>)
    requires
        d.len() > 0,
    ensures
        spec_base64_encode(d).len() >= 4,
        spec_base64_encode(d)[2] == '=' <==> d.len() == 1,
        spec_base64_encode(d)[3] == '=' <==> d.len() <= 2,
{
    let e = spec_base64_encode(d);
    if d.len() == 1 {
        lemma_base64_digit(((d[0] as int) % 4) * 16, 0);
    } else if d.len() == 2 {
        lemma_base64_digit(((d[1] as int) % 16) * 4, 0);
    } else {
        lemma_base64_digit(((d[1] as int) % 16) * 4 + (d[2] as int) / 64, 0);
        lemma_base64_digit((d[2] as int) % 64, 0);
    }
}

/// Base64 encoding is injective: different bytes have different encodings.
pub proof fn lemma_base64_encode_injective(d1: Seq<u8>, d2: Seq<u8>)
    requires
        spec_base64_encode(d1) == spec_base64_encode(d2),
    ensures
        d1 == d2,
    decreases d1.len(),
{
    let e = spec_base64_encode(d1);
    if d1.len() == 0 || d2.len() == 0 {
        if d1.len() > 0 {
            lemma_first_group_padding(d1);
        }
        if d2.len() > 0 {
            lemma_first_group_padding(d2);
        }
        assert(d1 =~= d2);
        return;
    }
    lemma_first_group_padding(d1);
    lemma_first_group_padding(d2);
    assert(d1.len() == 1 <==> d2.len() == 1);
    assert(d1.len() <= 2 <==> d2.len() <= 2);
    let (a0, b0) = (d1[0] as int, d2[0] as int);
    lemma_base64_digit(a0 / 4, b0 / 4);
    if d1.len() == 1 {
        lemma_base64_digit((a0 % 4) * 16, (b0 % 4) * 16);
        lemma_group_of_one(d1[0], d2[0]);
        assert(d1 =~= d2);
    } else {
        let (a1, b1) = (d1[1] as int, d2[1] as int);
        lemma_base64_digit((a0 % 4) * 16 + a1 / 16, (b0 % 4) * 16 + b1 / 16);
        if d1.len() == 2 {
            lemma_base64_digit((a1 % 16) * 4, (b1 % 16) * 4);
            lemma_group_of_two(d1[0], d1[1], d2[0], d2[1]);
            assert(d1 =~= d2);
        } else {
            let (a2, b2) = (d1[2] as int, d2[2] as int);
            let e2 = spec_base64_encode(d2);
            assert(e[0] == base64_digit(a0 / 4) && e2[0] == base64_digit(b0 / 4));
            assert(e[1] == base64_digit((a0 % 4) * 16 + a1 / 16) && e2[1] == base64_digit((b0 % 4) * 16 + b1 / 16));
            assert(e[2] == base64_digit((a1 % 16) * 4 + a2 / 64) && e2[2] == base64_digit((b1 % 16) * 4 + b2 / 64));
            assert(e[3] == base64_digit(a2 % 64) && e2[3] == base64_digit(b2 % 64));
            lemma_base64_digit((a1 % 16) * 4 + a2 / 64, (b1 % 16) * 4 + b2 / 64);
            lemma_base64_digit(a2 % 64, b2 % 64);
            lemma_group_of_three(d1[0], d1[1], d1[2], d2[0], d2[1], d2[2]);
            let r1 = spec_base64_encode(d1.skip(3));
            let r2 = spec_base64_encode(d2.skip(3));
            assert(r1 =~= e.subrange(4, e.len() as int));
            assert(r2 =~= e.subrange(4, e.len() as int));
            lemma_base64_encode_injective(d1.skip(3), d2.skip(3));
            assert(d1 =~= d1.subrange(0, 3) + d1.skip(3));
            assert(d2 =~= d2.subrange(0, 3) + d2.skip(3));
        }
    }
}

/// The error type of the base64 crate.
#[verifier::external_type_specification]
#[verifier::external_body]
pub struct ExBase64DecodeError(base64::DecodeError);

/// The error that `String::from_utf8` returns.
#[verifier::external_type_specification]
#[verifier::external_body]
pub struct ExFromUtf8Error(std::string::FromUtf8Error);

/// Calls `base64::Engine::encode` of the `STANDARD` engine. Claimed: the
/// result is the padded RFC 4648 encoding of `data`. The engine panics when
/// the encoded length overflows `usize`, which `requires` rules out.
#[verifier::external_body]
fn base64_standard_encode(data: &[u8]) -> (r: String)
    requires
        data@.len() <= usize::MAX / 2,
    ensures
        r@ == spec_base64_encode(data@),
{
    base64::Engine::encode(&base64::prelude::BASE64_STANDARD, data)
}

/// Calls `base64::Engine::decode` of the `STANDARD` engine, whose
/// configuration requires canonical padding and rejects trailing bits.
/// Claimed: it succeeds exactly on the (UTF-8 bytes of) padded RFC 4648
/// encodings, and gives the bytes that were encoded.
#[verifier::external_body]
fn base64_standard_decode(input: &[u8]) -> (r: Result<Vec<u8>, base64::DecodeError>)
    ensures
        r is Ok <==> exists|d: Seq<u8>| encode_utf8(#[trigger] spec_base64_encode(d)) == input@,
        r matches Ok(v) ==> encode_utf8(spec_base64_encode(v@)) == input@,
{
    base64::Engine::decode(&base64::prelude::BASE64_STANDARD, input)
}

/// Calls `String::from_utf8`. Claimed, as its documentation says: it
/// succeeds exactly on valid UTF-8, with the characters that the bytes encode.
#[verifier::external_body]
pub(crate) fn string_from_utf8(bytes: Vec<u8>) -> (r: Result<String, std::string::FromUtf8Error>)
    ensures
        r is Ok <==> valid_utf8(bytes@),
        r matches Ok(s) ==> s@ == decode_utf8(bytes@),
{
    String::from_utf8(bytes)
}

/// Why text could not be read back from base64.
#[derive(Debug, Clone, Copy, PartialEq, Eq, Structural)]
pub enum B64DecodeError {
    /// The input is not valid base64.
    Base64,
    /// The decoded bytes are not valid UTF-8.
    Utf8,
}

/// The text that `s` encodes in base64, or why there is none.
pub open spec fn spec_decode_b64(s: Seq<char>) -> Result<Seq<char>, B64DecodeError> {
    if !is_base64(s) {
        Err(B64DecodeError::Base64)
    } else if valid_utf8(base64_bytes(s)) {
        Ok(decode_utf8(base64_bytes(s)))
    } else {
        Err(B64DecodeError::Utf8)
    }
}

/// Whether a returned result is the specified one.
pub open spec fn text_result_is(r: Result<String, B64DecodeError>, s: Result<Seq<char>, B64DecodeError>) -> bool {
    match r {
        Ok(v) => s == Ok::<Seq<char>, B64DecodeError>(v@),
        Err(e) => s == Err::<Seq<char>, B64DecodeError>(e),
    }
}

/// Decoding the base64 encoding of a text's UTF-8 bytes gives the text back;
/// text that is not canonical padded base64 does not decode.
pub proof fn law_base64_round_trip(s: Seq<char>, t: Seq<char>)
    ensures
        spec_decode_b64(spec_base64_encode(encode_utf8(s))) == Ok::<Seq<char>, B64DecodeError>(s),
        !is_base64(t) ==> spec_decode_b64(t) == Err::<Seq<char>, B64DecodeError>(B64DecodeError::Base64),
{
    let e = spec_base64_encode(encode_utf8(s));
    encode_utf8_valid_utf8(s);
    encode_utf8_decode_utf8(s);
    assert(is_base64(e));
    lemma_base64_encode_injective(encode_utf8(s), base64_bytes(e));
}

/// Decodes base64 text into the UTF-8 text it carries: an error where the
/// text is not canonical padded base64, or where the bytes it encodes are
/// not UTF-8.
pub fn decode_b64(s: &str) -> (r: Result<String, B64DecodeError>)
    ensures
        text_result_is(r, spec_decode_b64(s@)),
{
    let bytes = s.as_bytes();
    match base64_standard_decode(bytes) {
        Err(_) => {
            proof {
                if is_base64(s@) {
                    let d = base64_bytes(s@);
                    assert(encode_utf8(spec_base64_encode(d)) == bytes@);
                }
            }
            Err(B64DecodeError::Base64)
        },
        Ok(decoded) => {
            proof {
                encode_utf8_decode_utf8(spec_base64_encode(decoded@));
                encode_utf8_decode_utf8(s@);
                assert(spec_base64_encode(decoded@) == s@);
                lemma_base64_encode_injective(decoded@, base64_bytes(s@));
            }
            match string_from_utf8(decoded) {
                Ok(text) => Ok(text),
                Err(_) => Err(B64DecodeError::Utf8),
            }
        },
    }
}

/// Encodes the UTF-8 bytes of `b` in base64; decoding the result gives `b` back.
pub fn encode(b: &str) -> (r: String)
    requires
        encode_utf8(b@).len() <= usize::MAX / 2,
    ensures
        r@ == spec_base64_encode(encode_utf8(b@)),
        spec_decode_b64(r@) == Ok::<Seq<char>, B64DecodeError>(b@),
{
    let r = base64_standard_encode(b.as_bytes());
    proof {
        law_base64_round_trip(b@, r@);
    }
    r
}

/// Decodes base64 text into the text it carries (the same as [`decode_b64`]).
pub fn decode(s: &str) -> (r: Result<String, B64DecodeError>)
    ensures
        text_result_is(r, spec_decode_b64(s@)),
{
    decode_b64(s)
}

/// Encodes the JSON text of a session description for transport.
pub fn encode_offer(description_json: &str) -> (r: String)
    requires
        encode_utf8(description_json@).len() <= usize::MAX / 2,
    ensures
        r@ == spec_base64_encode(encode_utf8(description_json@)),
        spec_decode_b64(r@) == Ok::<Seq<char>, B64DecodeError>(description_json@),
{
    encode(description_json)
}

} // verus!
