//! Key exchange for the opening handshake: nonce generation and the fixed
//! GUID-concatenation + SHA-1 + base64 accept-hash scheme.

use vstd::prelude::*;
use vstd::string::StringExecFns;
use vstd::utf8::encode_utf8;

verus! {

/// The 20-byte SHA-1 digest of a byte sequence, named after the outside
/// function that computes it.
pub uninterp spec fn sha1_of(bytes: Seq<u8>) -> Seq<u8>;

/// The padded standard-alphabet base64 text of a byte sequence, named after
/// the outside function that computes it.
pub uninterp spec fn base64_of(bytes: Seq<u8>) -> Seq<char>;

/// The protocol's fixed GUID, appended to the nonce before hashing.
pub open spec fn spec_guid() -> Seq<char> {
    "258EAFA5-E914-47DA-95CA-C5AB0DC85B11"@
}

/// The accept hash a server must return for a given nonce: base64 of the
/// SHA-1 digest of the nonce text followed by the GUID.
pub open spec fn spec_accept_hash(key: Seq<char>) -> Seq<char> {
    base64_of(sha1_of(encode_utf8(key + spec_guid())))
}

/// Relies on sha1_smol's `Sha1` (`new`, `update`, `digest`, `bytes`): the
/// 20-byte SHA-1 digest of the input, a function of the input alone.
#[verifier::external_body]
fn sha1_digest(bytes: &[u8]) -> (r: Vec<u8>)
    ensures
        r@ == sha1_of(bytes@),
        r@.len() == 20,
{
    let mut hasher = sha1_smol::Sha1::new();
    hasher.update(bytes);
    hasher.digest().bytes().to_vec()
}

/// Relies on base64's `Engine::encode` with the standard padded alphabet:
/// the base64 text of the input, a function of the input alone.
#[verifier::external_body]
fn base64_encode(bytes: &[u8]) -> (r: String)
    ensures
        r@ == base64_of(bytes@),
{
    base64::Engine::encode(&base64::engine::general_purpose::STANDARD, bytes)
}

/// Relies on rand::random to draw 16 bytes; they are random, so nothing is
/// promised of their value.
#[verifier::external_body]
fn random_nonce_bytes() -> (r: Vec<u8>)
    ensures
        r@.len() == 16,
{
    rand::random::<[u8; 16]>().to_vec()
}

/// Generates the client's opening-handshake nonce: sixteen random bytes,
/// base64-encoded.
pub fn gen_key() -> (r: String)
    ensures
        exists|b: Seq<u8>| b.len() == 16 && r@ == base64_of(b),
{
    let key = random_nonce_bytes();
    base64_encode(key.as_slice())
}

/// Verifies the server's accept hash: true exactly when it is the hash that
/// `spec_accept_hash` derives from the locally stored nonce.
pub fn verify_key(sec_websocket_key: &str, sec_websocket_accept: &str) -> (r: bool)
    ensures
        r == (sec_websocket_accept@ == spec_accept_hash(sec_websocket_key@)),
{
    let mut accept_key = sec_websocket_key.to_owned();
    accept_key.append("258EAFA5-E914-47DA-95CA-C5AB0DC85B11");
    let digest = sha1_digest(accept_key.as_str().as_bytes());
    let encoded = base64_encode(digest.as_slice());
    let expected = sec_websocket_accept.to_owned();
    encoded == expected
}

} // verus!
