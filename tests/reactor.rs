use chat_reactor::messages::{
    accept_connection, chat_message, client_message, joined_message, log_message, read_step,
    would_block, Action, IoErrorKind, ReadResult, ReadStep,
};
use chat_reactor::reactor::{ReadEnd, Reactor, ServerKind};
use chat_reactor::registry::{Connection, ConnectionRegistry, Interest, Mode};

fn accept_ok(r: &mut Reactor, address: &str) -> (u64, Vec<Action>) {
    r.accept(address.to_string()).expect("identifiers left")
}

fn write_of(a: &Action) -> Option<(u64, &str)> {
    match a {
        Action::Write { id, text } => Some((*id, text.as_str())),
        _ => None,
    }
}

#[test]
fn client_message_prefixes_you() {
    assert_eq!(client_message("hi\n"), "YOU: hi\n");
    assert_eq!(client_message(""), "YOU: ");
}

#[test]
fn log_message_format() {
    assert_eq!(log_message("1.2.3.4:5", "hi\n"), "LOG :1.2.3.4:5 SAY: hi\n");
}

#[test]
fn joined_message_format() {
    assert_eq!(joined_message("1.2.3.4:5"), "1.2.3.4:5 connected\n");
}

#[test]
fn accept_connection_writes_banner() {
    let a = accept_connection(7);
    assert_eq!(write_of(&a), Some((7, "Connection established!\n")));
}

#[test]
fn would_block_tells_kinds_apart() {
    assert!(would_block(&IoErrorKind::WouldBlock));
    assert!(!would_block(&IoErrorKind::Other));
}

#[test]
fn ids_start_at_one_and_increase() {
    let mut r = Reactor::new(ServerKind::Chat);
    let mut last = 0u64;
    for i in 0..5u64 {
        let (id, _) = accept_ok(&mut r, "10.0.0.1:1000");
        assert_eq!(id, i + 1);
        assert!(id > last);
        last = id;
    }
    assert_eq!(r.len(), 5);
}

#[test]
fn ids_not_reused_after_close() {
    let mut r = Reactor::new(ServerKind::Chat);
    let (a, _) = accept_ok(&mut r, "a:1");
    let (b, _) = accept_ok(&mut r, "b:2");
    let conn = r.checkout(b).unwrap();
    r.release(b, conn, ReadEnd::PeerClosed);
    let (c, _) = accept_ok(&mut r, "c:3");
    assert_eq!((a, b, c), (1, 2, 3));
}

#[test]
fn chat_accept_greets_and_notifies_others() {
    let mut r = Reactor::new(ServerKind::Chat);
    let (a, acts) = accept_ok(&mut r, "a:1");
    assert_eq!(acts.len(), 2);
    assert!(matches!(acts[0], Action::Register { id, interest } if id == a && interest == Interest::readable()));
    assert_eq!(write_of(&acts[1]), Some((a, "Connection established!\n")));
    let (b, acts) = accept_ok(&mut r, "b:2");
    assert_eq!(acts.len(), 3);
    assert_eq!(write_of(&acts[1]), Some((b, "Connection established!\n")));
    assert_eq!(write_of(&acts[2]), Some((a, "b:2 connected\n")));
}

#[test]
fn websocket_accept_only_registers() {
    let mut r = Reactor::new(ServerKind::WebSocket);
    let (a, acts) = accept_ok(&mut r, "a:1");
    accept_ok(&mut r, "b:2");
    assert_eq!(acts.len(), 1);
    assert!(matches!(acts[0], Action::Register { id, .. } if id == a));
    let conn = r.checkout(a).unwrap();
    assert_eq!(conn.mode, Mode::WebSocketUpgrading);
    assert_eq!(conn.interest, Interest::readable());
}

#[test]
fn broadcast_reaches_other_peers_only() {
    let mut r = Reactor::new(ServerKind::Chat);
    let (a, _) = accept_ok(&mut r, "a:1");
    let (b, _) = accept_ok(&mut r, "b:2");
    let (c, _) = accept_ok(&mut r, "c:3");
    let conn = r.checkout(a).unwrap();
    let acts = r.chat_actions(a, conn.address.as_str(), "msg");
    assert_eq!(acts.len(), 4);
    assert!(matches!(&acts[0], Action::Log { text } if text == "LOG :a:1 SAY: msg"));
    assert_eq!(write_of(&acts[1]), Some((a, "YOU: msg")));
    let mut peers: Vec<(u64, &str)> = acts[2..].iter().map(|x| write_of(x).unwrap()).collect();
    peers.sort();
    assert_eq!(peers, vec![(b, "a:1 SAY: msg"), (c, "a:1 SAY: msg")]);
}

#[test]
fn chat_message_skips_the_origin() {
    let mut reg = ConnectionRegistry::new();
    reg.insert(1, Connection::new("a:1".to_string(), Mode::PlainChat));
    reg.insert(2, Connection::new("b:2".to_string(), Mode::PlainChat));
    let acts = chat_message(&reg, 1, "a:1", "x");
    assert_eq!(acts.len(), 1);
    assert_eq!(write_of(&acts[0]), Some((2, "a:1 SAY: x")));
}

#[test]
fn end_to_end_chat_hi() {
    let mut r = Reactor::new(ServerKind::Chat);
    let (second, _) = accept_ok(&mut r, "127.0.0.1:5001");
    let (first, _) = accept_ok(&mut r, "127.0.0.1:5002");
    let conn = r.checkout(first).unwrap();
    let acts = r.on_chat_data(first, &conn, b"hi\n");
    assert_eq!(write_of(&acts[1]), Some((first, "YOU: hi\n")));
    assert_eq!(write_of(&acts[2]), Some((second, "127.0.0.1:5002 SAY: hi\n")));
    assert_eq!(acts.len(), 3);
    let back = r.release(first, conn, ReadEnd::Open);
    assert!(matches!(back[0], Action::Reregister { id, .. } if id == first));
    assert!(r.is_registered(first));
}

#[test]
fn invalid_utf8_is_replaced() {
    let mut r = Reactor::new(ServerKind::Chat);
    let (a, _) = accept_ok(&mut r, "a:1");
    let conn = r.checkout(a).unwrap();
    let acts = r.on_chat_data(a, &conn, &[b'o', 0xff, b'k']);
    assert_eq!(write_of(&acts[1]), Some((a, "YOU: o\u{fffd}k")));
}

#[test]
fn peer_close_forgets_connection() {
    let mut r = Reactor::new(ServerKind::Chat);
    let (a, _) = accept_ok(&mut r, "a:1");
    let (b, _) = accept_ok(&mut r, "b:2");
    let conn = r.checkout(b).unwrap();
    let acts = r.release(b, conn, ReadEnd::PeerClosed);
    assert!(matches!(acts[0], Action::Close { id } if id == b));
    assert!(!r.is_registered(b));
    let conn = r.checkout(a).unwrap();
    let acts = r.chat_actions(a, "a:1", "x");
    assert_eq!(acts.len(), 2);
    r.release(a, conn, ReadEnd::Open);
    let (c, acts) = accept_ok(&mut r, "c:3");
    assert_ne!(c, b);
    assert!(acts.iter().all(|x| write_of(x).map_or(true, |(id, _)| id != b)));
}

#[test]
fn failed_read_drops_connection() {
    let mut r = Reactor::new(ServerKind::Chat);
    let (a, _) = accept_ok(&mut r, "a:1");
    let conn = r.checkout(a).unwrap();
    let acts = r.release(a, conn, ReadEnd::Failed);
    assert!(matches!(acts[0], Action::Close { id } if id == a));
    assert_eq!(r.len(), 0);
}

#[test]
fn would_block_keeps_connection_unchanged() {
    let mut r = Reactor::new(ServerKind::Chat);
    let (a, _) = accept_ok(&mut r, "a:1");
    for _ in 0..2 {
        let conn = r.checkout(a).unwrap();
        assert!(!r.is_registered(a));
        let acts = r.release(a, conn, ReadEnd::Open);
        assert_eq!(acts.len(), 1);
        assert!(matches!(acts[0], Action::Reregister { id, interest } if id == a && interest == Interest::readable()));
        assert!(r.is_registered(a));
        assert_eq!(r.len(), 1);
    }
    let conn = r.checkout(a).unwrap();
    assert_eq!(conn.address, "a:1");
    assert_eq!(conn.mode, Mode::PlainChat);
}

#[test]
fn checkout_of_unknown_id_is_none() {
    let mut r = Reactor::new(ServerKind::Chat);
    assert!(r.checkout(9).is_none());
}

#[test]
fn release_of_unissued_id_closes() {
    let mut r = Reactor::new(ServerKind::Chat);
    let conn = Connection::new("z:9".to_string(), Mode::PlainChat);
    let acts = r.release(5, conn, ReadEnd::Open);
    assert!(matches!(acts[0], Action::Close { id: 5 }));
    assert!(!r.is_registered(5));
}

#[test]
fn end_to_end_websocket_upgrade() {
    let mut r = Reactor::new(ServerKind::WebSocket);
    let (a, _) = accept_ok(&mut r, "a:1");
    let mut conn = r.checkout(a).unwrap();
    assert!(!conn.upgrade_ready());
    conn.parser.on_header_field(b"Host");
    conn.parser.on_header_value(b"server.example.com");
    conn.parser.on_header_field(b"Upgrade");
    conn.parser.on_header_value(b"websocket");
    conn.parser.on_header_field(b"Sec-WebSocket-Key");
    conn.parser.on_header_value(b"dGhlIHNhbXBsZSBub25jZQ==");
    assert!(!conn.parser.on_headers_complete());
    assert!(conn.upgrade_ready());
    assert_eq!(conn.interest, Interest::readable_writable());
    let acts = r.release(a, conn, ReadEnd::Open);
    assert!(matches!(acts[0], Action::Reregister { interest, .. } if interest == Interest::readable_writable()));
    let mut conn = r.checkout(a).unwrap();
    let response = conn.handshake().unwrap();
    assert!(response.starts_with("HTTP/1.1 101 Switching Protocols\r\n"));
    assert!(response.contains("Sec-WebSocket-Accept: s3pPLMBiTxaQ9kYGzzhZRbK+xOo=\r\n"));
    assert_eq!(conn.mode, Mode::WebSocketOpen);
    assert_eq!(conn.interest, Interest::readable());
    assert!(conn.handshake().is_none());
}

#[test]
fn websocket_without_key_never_upgrades() {
    let mut conn = Connection::new("a:1".to_string(), Mode::WebSocketUpgrading);
    conn.parser.on_header_field(b"Host");
    conn.parser.on_header_value(b"x");
    conn.parser.on_headers_complete();
    assert!(!conn.upgrade_ready());
    assert_eq!(conn.interest, Interest::readable());
    conn.interest = Interest::readable_writable();
    assert!(conn.handshake().is_none());
    assert_eq!(conn.mode, Mode::WebSocketUpgrading);
}

#[test]
fn plain_chat_connection_never_upgrades() {
    let mut conn = Connection::new("a:1".to_string(), Mode::PlainChat);
    conn.parser.on_header_field(b"Sec-WebSocket-Key");
    conn.parser.on_header_value(b"k");
    conn.parser.on_headers_complete();
    assert!(!conn.upgrade_ready());
}

#[test]
fn read_step_classifies_reads() {
    assert_eq!(read_step(ReadResult::Bytes(0)), ReadStep::PeerClosed);
    assert_eq!(read_step(ReadResult::Bytes(5)), ReadStep::Handle);
    assert_eq!(read_step(ReadResult::Error(IoErrorKind::WouldBlock)), ReadStep::Stop);
    assert_eq!(read_step(ReadResult::Error(IoErrorKind::Other)), ReadStep::Failed);
}

#[test]
fn chat_connection_polled_for_writing_is_not_kept() {
    let mut r = Reactor::new(ServerKind::Chat);
    let (a, _) = accept_ok(&mut r, "a:1");
    let mut conn = r.checkout(a).unwrap();
    conn.interest = Interest::readable_writable();
    let acts = r.release(a, conn, ReadEnd::Open);
    assert!(matches!(acts[0], Action::Close { id } if id == a));
    assert!(!r.is_registered(a));
}

#[test]
fn websocket_server_does_not_keep_chat_connection() {
    let mut r = Reactor::new(ServerKind::WebSocket);
    let (a, _) = accept_ok(&mut r, "a:1");
    let mut conn = r.checkout(a).unwrap();
    conn.mode = Mode::PlainChat;
    let acts = r.release(a, conn, ReadEnd::Open);
    assert!(matches!(acts[0], Action::Close { id } if id == a));
}

#[test]
fn broadcast_with_one_peer_sends_one_line() {
    let mut r = Reactor::new(ServerKind::Chat);
    let (a, _) = accept_ok(&mut r, "127.0.0.1:50000");
    let (b, _) = accept_ok(&mut r, "127.0.0.1:50001");
    let conn = r.checkout(a).unwrap();
    let acts = r.on_chat_data(a, &conn, b"hi\n");
    let to_b: Vec<&str> = acts
        .iter()
        .filter_map(write_of)
        .filter(|(id, _)| *id == b)
        .map(|(_, t)| t)
        .collect();
    assert_eq!(to_b, vec!["127.0.0.1:50000 SAY: hi\n"]);
}
