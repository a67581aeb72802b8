//! Trusted boundaries to the byte-encoding crates the validator's RPC types
//! use (base58, base64, zstd) and to UTF-8 string conversion. Each encoder's
//! result is deterministic in its input, so it is given a name; each decoder
//! promises only to invert the encoder, which is what the crates document.

use vstd::prelude::*;

verus! {

/// The base58 text of a byte string, as `bs58` encodes it.
pub uninterp spec fn bs58_of(b: Seq<u8>) -> Seq<char>;

/// The base64 text of a byte string, as `base64` encodes it.
pub uninterp spec fn base64_of(b: Seq<u8>) -> Seq<char>;

/// The zstd frame (level 0) of a byte string, as `zstd` encodes it.
pub uninterp spec fn zstd_of(b: Seq<u8>) -> Seq<u8>;

/// The UTF-8 bytes of a character sequence.
pub uninterp spec fn utf8_of(s: Seq<char>) -> Seq<u8>;

/// Relies on bs58::encode: the text depends on the bytes alone.
#[verifier::external_body]
pub fn bs58_encode(b: &Vec<u8>) -> (r: String)
    ensures
        r@ == bs58_of(b@),
{
    bs58::encode(b).into_string()
}

/// Relies on bs58::decode: it inverts bs58::encode.
#[verifier::external_body]
pub fn bs58_decode(s: &String) -> (r: Option<Vec<u8>>)
    ensures
        forall|x: Seq<u8>| s@ == bs58_of(x) ==> r is Some && r.unwrap()@ == x,
{
    match bs58::decode(s.as_str()).into_vec() {
        Ok(v) => Some(v),
        Err(_) => None,
    }
}

/// Relies on base64::encode: the text depends on the bytes alone.
#[verifier::external_body]
pub fn base64_encode(b: &Vec<u8>) -> (r: String)
    ensures
        r@ == base64_of(b@),
{
    base64::encode(b)
}

/// Relies on base64::decode: it inverts base64::encode.
#[verifier::external_body]
pub fn base64_decode(s: &String) -> (r: Option<Vec<u8>>)
    ensures
        forall|x: Seq<u8>| s@ == base64_of(x) ==> r is Some && r.unwrap()@ == x,
{
    match base64::decode(s.as_str()) {
        Ok(v) => Some(v),
        Err(_) => None,
    }
}

/// Relies on zstd::encode_all at level 0: the frame depends on the bytes
/// alone for a fixed library version.
#[verifier::external_body]
pub fn zstd_encode(b: &Vec<u8>) -> (r: Option<Vec<u8>>)
    ensures
        r is Some ==> r.unwrap()@ == zstd_of(b@),
{
    match zstd::encode_all(b.as_slice(), 0) {
        Ok(v) => Some(v),
        Err(_) => None,
    }
}

/// Relies on zstd::decode_all: compression is lossless, so it inverts
/// zstd::encode_all.
#[verifier::external_body]
pub fn zstd_decode(b: &Vec<u8>) -> (r: Option<Vec<u8>>)
    ensures
        forall|x: Seq<u8>| b@ == zstd_of(x) ==> r is Some && r.unwrap()@ == x,
{
    match zstd::decode_all(b.as_slice()) {
        Ok(v) => Some(v),
        Err(_) => None,
    }
}

/// Relies on str::as_bytes: the UTF-8 bytes of the string.
#[verifier::external_body]
pub fn string_to_bytes(s: &str) -> (r: Vec<u8>)
    ensures
        r@ == utf8_of(s@),
{
    s.as_bytes().to_vec()
}

/// Relies on String::from_utf8: it accepts exactly valid UTF-8 and inverts
/// str::as_bytes, so a successful result re-encodes to the input.
#[verifier::external_body]
pub fn string_from_utf8(b: Vec<u8>) -> (r: Option<String>)
    ensures
        forall|t: Seq<char>| b@ == utf8_of(t) ==> r is Some && r.unwrap()@ == t,
        r is Some ==> utf8_of(r.unwrap()@) == b@,
{
    match String::from_utf8(b) {
        Ok(s) => Some(s),
        Err(_) => None,
    }
}

} // verus!
