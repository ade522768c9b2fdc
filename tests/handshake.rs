use chat_reactor::handshake::{accept_input, gen_key, handshake_response, WEBSOCKET_GUID};

#[test]
fn gen_key_matches_rfc_vector() {
    assert_eq!(gen_key("dGhlIHNhbXBsZSBub25jZQ=="), "s3pPLMBiTxaQ9kYGzzhZRbK+xOo=");
}

#[test]
fn gen_key_of_empty_key() {
    // SHA-1 of the GUID alone, in base64.
    let r = gen_key("");
    assert_eq!(r.len(), 28);
    assert!(r.ends_with('='));
    assert_ne!(r, gen_key("x"));
}

#[test]
fn accept_input_appends_guid() {
    let r = accept_input("abc");
    let mut expected = b"abc".to_vec();
    expected.extend_from_slice(WEBSOCKET_GUID.as_bytes());
    assert_eq!(r, expected);
}

#[test]
fn handshake_response_carries_accept() {
    assert_eq!(
        handshake_response("s3pPLMBiTxaQ9kYGzzhZRbK+xOo="),
        "HTTP/1.1 101 Switching Protocols\r\nUpgrade: websocket\r\nConnection: Upgrade\r\nSec-WebSocket-Accept: s3pPLMBiTxaQ9kYGzzhZRbK+xOo=\r\n\r\n"
    );
}
