use crate::error::StegoError;
use vstd::prelude::*;
use vstd::string::StrSliceExecFns;
use vstd::utf8::{decode_utf8, encode_utf8, valid_utf8};

verus! {

/// The big-endian 4-byte encoding of a 32-bit value.
pub open spec fn spec_be_bytes(x: u32) -> Seq<u8> {
    seq![
        ((x >> 24u32) & 0xff) as u8,
        ((x >> 16u32) & 0xff) as u8,
        ((x >> 8u32) & 0xff) as u8,
        (x & 0xff) as u8,
    ]
}

/// The 32-bit value reassembled big-endian from the first four bytes:
/// `s[0] << 24 | s[1] << 16 | s[2] << 8 | s[3]`.
pub open spec fn spec_be_u32(s: Seq<u8>) -> u32
    recommends
        s.len() >= 4,
{
    ((s[0] as u32) << 24u32) | ((s[1] as u32) << 16u32) | ((s[2] as u32) << 8u32) | (s[3] as u32)
}

/// Big-endian round trip: reassembling the four encoded bytes of any 32-bit
/// value returns that value.
pub proof fn lemma_be_round_trip(x: u32)
    ensures
        spec_be_u32(spec_be_bytes(x)) == x,
{
    assert(((((x >> 24u32) & 0xff) as u8 as u32) << 24u32) | ((((x >> 16u32) & 0xff) as u8 as u32)
        << 16u32) | ((((x >> 8u32) & 0xff) as u8 as u32) << 8u32) | ((x & 0xff) as u8 as u32)
        == x) by (bit_vector);
}

/// Serialize a 32-bit length as its four big-endian bytes.
pub fn convert_u32_to_bytes(x: u32) -> (r: Vec<u8>)
    ensures
        r@ == spec_be_bytes(x),
{
    proof {
        assert((x >> 24u32) & 0xff < 256 && (x >> 16u32) & 0xff < 256 && (x >> 8u32) & 0xff < 256
            && x & 0xff < 256) by (bit_vector);
    }
    let mut r: Vec<u8> = Vec::new();
    r.push(((x >> 24u32) & 0xff) as u8);
    r.push(((x >> 16u32) & 0xff) as u8);
    r.push(((x >> 8u32) & 0xff) as u8);
    r.push((x & 0xff) as u8);
    proof {
        assert(r@ =~= spec_be_bytes(x));
    }
    r
}

/// Reassemble a 32-bit length from the first four bytes, big-endian.
pub fn convert_byte_vector_to_u32(bytes: &Vec<u8>) -> (x: u32)
    requires
        bytes@.len() >= 4,
    ensures
        x == spec_be_u32(bytes@),
{
    ((bytes[0] as u32) << 24u32) | ((bytes[1] as u32) << 16u32) | ((bytes[2] as u32) << 8u32) | (
    bytes[3] as u32)
}

/// Turn a name into the byte sequence that is embedded for it: its UTF-8
/// encoding.
pub fn convert_string_to_bytes(s: &String) -> (r: Vec<u8>)
    ensures
        r@ == encode_utf8(s@),
{
    s.as_str().as_bytes_vec()
}

/// Relies on `String::from_utf8`: it succeeds exactly on valid UTF-8 input,
/// and the returned string's characters are the UTF-8 decoding of the bytes.
#[verifier::external_body]
fn string_from_utf8(bytes: &Vec<u8>) -> (r: Option<String>)
    ensures
        valid_utf8(bytes@) <==> r is Some,
        r matches Some(s) ==> s@ == decode_utf8(bytes@),
{
    match String::from_utf8(bytes.to_vec()) {
        Ok(s) => Some(s),
        Err(_) => None,
    }
}

/// Interpret recovered bytes as a UTF-8 string; fails with `EncodingError`
/// exactly when the bytes are not valid UTF-8.
pub fn construct_string_from_byte_vector(bytes: &Vec<u8>) -> (r: Result<String, StegoError>)
    ensures
        valid_utf8(bytes@) ==> (r matches Ok(s) && s@ == decode_utf8(bytes@)),
        !valid_utf8(bytes@) ==> r == Err::<String, StegoError>(StegoError::EncodingError),
{
    match string_from_utf8(bytes) {
        Some(s) => Ok(s),
        None => Err(StegoError::EncodingError),
    }
}

/// A name's UTF-8 bytes are always valid UTF-8 and decode back to the same
/// characters: the name field survives an embed/extract round trip.
pub proof fn lemma_string_bytes_round_trip(s: Seq<char>)
    ensures
        valid_utf8(encode_utf8(s)),
        decode_utf8(encode_utf8(s)) == s,
{
    vstd::utf8::encode_utf8_valid_utf8(s);
    vstd::utf8::encode_utf8_decode_utf8(s);
}

} // verus!
