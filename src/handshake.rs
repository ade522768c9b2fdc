use base64::Engine;
use sha1::Digest;
use vstd::prelude::*;

use crate::text::push_bytes;
use vstd::string::StringSliceAdditionalSpecFns;
use vstd::utf8::encode_utf8;

verus! {

/// The GUID that RFC 6455 appends to the client's key before hashing.
pub const WEBSOCKET_GUID: &'static str = "258EAFA5-E914-47DA-95CA-C5AB0DC85B11";

/// The SHA-1 digest of a byte string.
pub uninterp spec fn sha1_of(data: Seq<u8>) -> Seq<u8>;

/// The standard (padded, `+/` alphabet) base64 text of a byte string.
pub uninterp spec fn base64_of(data: Seq<u8>) -> Seq<char>;

/// Relies on `sha1::Sha1::digest` (through `digest::Digest`): a 20-byte
/// digest that depends on the input bytes alone.
#[verifier::external_body]
fn sha1_digest(data: &[u8]) -> (r: Vec<u8>)
    ensures
        r@ == sha1_of(data@),
        r@.len() == 20,
{
    sha1::Sha1::digest(data).to_vec()
}

/// Relies on `base64::Engine::encode` with `general_purpose::STANDARD`: the
/// text depends on the input bytes alone, and, padded, has the length that
/// `encoded_len` gives, four characters for every three bytes begun. That
/// length computation panics on overflow, which the bound rules out.
#[verifier::external_body]
fn base64_standard(data: &[u8]) -> (r: String)
    requires
        data@.len() <= usize::MAX / 2,
    ensures
        r@ == base64_of(data@),
        r@.len() == 4 * ((data@.len() + 2) / 3),
{
    base64::engine::general_purpose::STANDARD.encode(data)
}

/// The bytes that are hashed for a client key: the key's UTF-8 bytes, then
/// the GUID's.
pub open spec fn accept_input_of(key: Seq<u8>) -> Seq<u8> {
    key + WEBSOCKET_GUID.spec_bytes()
}

/// The `Sec-WebSocket-Accept` value for a client key given as UTF-8 bytes.
pub open spec fn accept_value_of(key: Seq<u8>) -> Seq<char> {
    base64_of(sha1_of(accept_input_of(key)))
}

/// The `Sec-WebSocket-Accept` value for a client key given as text.
pub open spec fn accept_value_of_text(key: Seq<char>) -> Seq<char> {
    accept_value_of(encode_utf8(key))
}

/// The full `101 Switching Protocols` response carrying an accept value.
pub open spec fn switching_response_of(accept: Seq<char>) -> Seq<char> {
    "HTTP/1.1 101 Switching Protocols\r\nUpgrade: websocket\r\nConnection: Upgrade\r\nSec-WebSocket-Accept: "@
        + accept + "\r\n\r\n"@
}

/// The bytes hashed for `key`: its UTF-8 bytes followed by the GUID.
pub fn accept_input(key: &str) -> (r: Vec<u8>)
    ensures
        r@ == accept_input_of(key.spec_bytes()),
{
    let mut out: Vec<u8> = Vec::new();
    push_bytes(&mut out, key.as_bytes());
    push_bytes(&mut out, WEBSOCKET_GUID.as_bytes());
    out
}

/// Computes the `Sec-WebSocket-Accept` value for a client's
/// `Sec-WebSocket-Key`: SHA-1 over the key and the GUID, in base64.
pub fn gen_key(key: &str) -> (r: String)
    ensures
        r@ == accept_value_of(key.spec_bytes()),
        r@.len() == 28,
{
    let input = accept_input(key);
    let digest = sha1_digest(input.as_slice());
    base64_standard(digest.as_slice())
}

/// The handshake response that carries `accept` as `Sec-WebSocket-Accept`.
pub fn handshake_response(accept: &str) -> (r: String)
    ensures
        r@ == switching_response_of(accept@),
{
    let mut r = String::from_str(
        "HTTP/1.1 101 Switching Protocols\r\nUpgrade: websocket\r\nConnection: Upgrade\r\nSec-WebSocket-Accept: ",
    );
    r.append(accept);
    r.append("\r\n\r\n");
    r
}

} // verus!
