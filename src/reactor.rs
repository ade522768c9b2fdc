use vstd::prelude::*;

use crate::handshake::{accept_value_of_text, gen_key, handshake_response, switching_response_of};
use crate::headers::{header_map, initial_headers};
use crate::messages::{
    accept_connection, action_views, banner, chat_message, client_message, echo_of,
    joined_message, joined_of, log_message, log_of, say_of, write_each, writes_to, Action,
    ActionView,
};
use crate::registry::{others, Connection, ConnectionRegistry, Interest, Mode};
use crate::text::{decode_lossy, lossy_text};

verus! {

/// Which protocol a server speaks on the connections it accepts.
#[derive(Clone, Copy, Debug, PartialEq, Eq, Structural)]
pub enum ServerKind {
    Chat,
    WebSocket,
}

/// How the handling of one readiness event on a connection ended.
#[derive(Clone, Copy, Debug, PartialEq, Eq, Structural)]
pub enum ReadEnd {
    /// The socket is still open; reading stopped because it would block.
    Open,
    /// A read returned no bytes: the peer closed.
    PeerClosed,
    /// A read or write failed for another reason.
    Failed,
}

/// What makes an accept impossible.
#[derive(Clone, Copy, Debug, PartialEq, Eq, Structural)]
pub enum ReactorError {
    /// Every connection identifier has been handed out.
    IdsExhausted,
}

/// Readable interest only.
pub open spec fn readable_only() -> Interest {
    Interest { readable: true, writable: false }
}

/// The mode of connections that a server of `kind` accepts.
pub open spec fn mode_for(kind: ServerKind) -> Mode {
    match kind {
        ServerKind::Chat => Mode::PlainChat,
        ServerKind::WebSocket => Mode::WebSocketUpgrading,
    }
}

/// The name of the header that carries the client's handshake key.
pub open spec fn key_header() -> Seq<char> {
    "Sec-WebSocket-Key"@
}

/// A connection as accept creates it.
pub open spec fn fresh_connection(c: Connection, address: Seq<char>, mode: Mode) -> bool {
    &&& c.address@ == address
    &&& c.mode == mode
    &&& c.interest == readable_only()
    &&& c.parser@ == initial_headers()
}

/// A connection that a server of `kind` keeps registered: it is polled for
/// something, a chat connection exactly for reading, and a WebSocket server
/// holds no chat connection.
pub open spec fn fits(kind: ServerKind, c: Connection) -> bool {
    &&& c.interest.readable || c.interest.writable
    &&& kind == ServerKind::Chat ==> c.mode == Mode::PlainChat && c.interest == readable_only()
    &&& kind == ServerKind::WebSocket ==> c.mode != Mode::PlainChat
}

/// What accepting connection `id` from `address` asks for, given the
/// identifiers registered before it.
pub open spec fn join_actions_of(
    kind: ServerKind,
    id: u64,
    address: Seq<char>,
    ids: Seq<u64>,
) -> Seq<ActionView> {
    match kind {
        ServerKind::Chat => seq![
            ActionView::Register { id, interest: readable_only() },
            ActionView::Write { id, text: banner() },
        ] + writes_to(others(ids, id), joined_of(address)),
        ServerKind::WebSocket => seq![ActionView::Register { id, interest: readable_only() }],
    }
}

/// What a chat message `payload` from `origin`, at `address`, asks for, given
/// the identifiers registered while `origin` is being handled.
pub open spec fn chat_actions_of(
    ids: Seq<u64>,
    origin: u64,
    address: Seq<char>,
    payload: Seq<char>,
) -> Seq<ActionView> {
    seq![
        ActionView::Log { text: log_of(address, payload) },
        ActionView::Write { id: origin, text: echo_of(payload) },
    ] + writes_to(others(ids, origin), say_of(address, payload))
}

/// The event loop's decisions: which identifiers exist, which connections are
/// registered, and what each event asks of the sockets.
pub struct Reactor {
    registry: ConnectionRegistry,
    next_id: u64,
    kind: ServerKind,
}

/// `post` minted `id` from `pre`: it was the next identifier, and the next
/// one is one higher.
pub open spec fn mints(pre: Reactor, post: Reactor, id: u64) -> bool {
    id == pre.next_id() && post.next_id() == id + 1
}

/// `post` is `pre` without connection `id`.
pub open spec fn detaches(pre: Reactor, post: Reactor, id: u64) -> bool {
    &&& post.connections() == pre.connections().remove(id)
    &&& post.next_id() == pre.next_id()
    &&& post.kind() == pre.kind()
}

/// `post` is `pre` with `conn` registered under `id`.
pub open spec fn keeps(pre: Reactor, post: Reactor, id: u64, conn: Connection) -> bool {
    &&& post.connections() == pre.connections().insert(id, conn)
    &&& post.next_id() == pre.next_id()
    &&& post.kind() == pre.kind()
}

/// `post` and the actions `acts` are what releasing `conn` under `id` after
/// an event that ended with `end` gives from `pre`.
pub open spec fn released(
    pre: Reactor,
    post: Reactor,
    id: u64,
    conn: Connection,
    end: ReadEnd,
    acts: Seq<ActionView>,
) -> bool {
    if pre.retains(id, conn, end) {
        &&& keeps(pre, post, id, conn)
        &&& acts == seq![ActionView::Reregister { id, interest: conn.interest }]
    } else {
        &&& detaches(pre, post, id)
        &&& acts == seq![ActionView::Close { id }]
    }
}

impl Reactor {
    /// The registered connections, by identifier.
    pub closed spec fn connections(&self) -> Map<u64, Connection> {
        self.registry@
    }

    /// The registered identifiers, in broadcast order.
    pub closed spec fn ids(&self) -> Seq<u64> {
        self.registry.ids()
    }

    /// The identifier the next accepted connection gets.
    pub closed spec fn next_id(&self) -> u64 {
        self.next_id
    }

    /// The protocol of accepted connections.
    pub closed spec fn kind(&self) -> ServerKind {
        self.kind
    }

    /// Identifiers start at 1 and every registered one was handed out.
    pub closed spec fn wf(&self) -> bool {
        &&& self.registry.wf()
        &&& 1 <= self.next_id
        &&& forall|k: u64| #[trigger]
            self.registry@.contains_key(k) ==> 1 <= k < self.next_id && fits(
                self.kind,
                self.registry@[k],
            )
    }

    /// Whether `release` puts `conn` back under `id` after an event that
    /// ended with `end`.
    pub open spec fn retains(&self, id: u64, conn: Connection, end: ReadEnd) -> bool {
        end == ReadEnd::Open && fits(self.kind(), conn) && self.issued(id)
    }

    /// Whether `id` was handed out already.
    pub open spec fn issued(&self, id: u64) -> bool {
        1 <= id < self.next_id()
    }

    /// The identifiers listed are exactly the registered ones.
    pub proof fn lemma_ids_are_keys(&self, x: u64)
        requires
            self.wf(),
        ensures
            self.ids().contains(x) <==> self.connections().contains_key(x),
            self.ids().no_duplicates(),
            1 <= self.next_id(),
            self.connections().contains_key(x) ==> self.issued(x),
            self.connections().contains_key(x) ==> fits(self.kind(), self.connections()[x]),
    {
        self.registry.lemma_ids_are_keys(x);
    }

    /// A reactor with no connections; the first identifier is 1.
    pub fn new(kind: ServerKind) -> (r: Reactor)
        ensures
            r.wf(),
            r.connections() == Map::<u64, Connection>::empty(),
            r.next_id() == 1,
            r.kind() == kind,
    {
        Reactor { registry: ConnectionRegistry::new(), next_id: 1, kind }
    }

    /// The number of registered connections.
    pub fn len(&self) -> (r: usize)
        requires
            self.wf(),
        ensures
            r == self.ids().len(),
    {
        self.registry.len()
    }

    /// Whether connection `id` is registered.
    pub fn is_registered(&self, id: u64) -> (r: bool)
        requires
            self.wf(),
        ensures
            r == self.connections().contains_key(id),
    {
        self.registry.contains_key(id)
    }

    /// Accepts a connection from `address`: mints its identifier, registers
    /// it for reading and, for chat, greets it and tells the others.
    pub fn accept(&mut self, address: String) -> (r: Result<(u64, Vec<Action>), ReactorError>)
        requires
            old(self).wf(),
        ensures
            final(self).wf(),
            old(self).next_id() == u64::MAX ==> r == Err::<(u64, Vec<Action>), ReactorError>(
                ReactorError::IdsExhausted,
            ) && final(self).connections() == old(self).connections() && final(self).next_id()
                == old(self).next_id() && final(self).kind() == old(self).kind(),
            old(self).next_id() < u64::MAX ==> r is Ok,
            r matches Ok((id, acts)) ==> {
                &&& mints(*old(self), *final(self), id)
                &&& final(self).kind() == old(self).kind()
                &&& !old(self).connections().contains_key(id)
                &&& final(self).connections().contains_key(id)
                &&& fresh_connection(
                    final(self).connections()[id],
                    address@,
                    mode_for(old(self).kind()),
                )
                &&& final(self).connections().remove(id) == old(self).connections()
                &&& action_views(acts@) == join_actions_of(
                    old(self).kind(),
                    id,
                    address@,
                    old(self).ids(),
                )
            },
    {
        if self.next_id == u64::MAX {
            return Err(ReactorError::IdsExhausted);
        }
        let id = self.next_id;
        let ghost before = self.registry@;
        let mut acts: Vec<Action> = Vec::new();
        acts.push(Action::Register { id, interest: Interest::readable() });
        let mode = match self.kind {
            ServerKind::Chat => Mode::PlainChat,
            ServerKind::WebSocket => Mode::WebSocketUpgrading,
        };
        match self.kind {
            ServerKind::Chat => {
                acts.push(accept_connection(id));
                let peers = self.registry.peers(id);
                let notice = joined_message(address.as_str());
                let mut writes = write_each(&peers, &notice);
                let ghost first = acts@;
                acts.append(&mut writes);
                assert(action_views(acts@) =~= action_views(first) + writes_to(
                    others(self.ids(), id),
                    joined_of(address@),
                ));
                assert(action_views(first) =~= seq![
                    ActionView::Register { id, interest: readable_only() },
                    ActionView::Write { id, text: banner() },
                ]);
            },
            ServerKind::WebSocket => {
                assert(action_views(acts@) =~= seq![
                    ActionView::Register { id, interest: readable_only() },
                ]);
            },
        }
        let conn = Connection::new(address, mode);
        self.registry.insert(id, conn);
        self.next_id = id + 1;
        assert(!before.contains_key(id));
        assert(self.registry@.remove(id) =~= before);
        Ok((id, acts))
    }

    /// Takes connection `id` out of the registry for exclusive handling.
    pub fn checkout(&mut self, id: u64) -> (r: Option<Connection>)
        requires
            old(self).wf(),
        ensures
            final(self).wf(),
            detaches(*old(self), *final(self), id),
            r == (if old(self).connections().contains_key(id) {
                Some(old(self).connections()[id])
            } else {
                None::<Connection>
            }),
    {
        self.registry.remove(id)
    }

    /// What a chat message `payload` from connection `token` at `address`
    /// asks for: a log record, the echo to the sender, and the message to
    /// every other registered connection.
    pub fn chat_actions(&self, token: u64, address: &str, payload: &str) -> (r: Vec<Action>)
        ensures
            action_views(r@) == chat_actions_of(self.ids(), token, address@, payload@),
    {
        let mut acts: Vec<Action> = Vec::new();
        acts.push(Action::Log { text: log_message(address, payload) });
        acts.push(Action::Write { id: token, text: client_message(payload) });
        let ghost first = acts@;
        let mut writes = chat_message(&self.registry, token, address, payload);
        acts.append(&mut writes);
        assert(action_views(acts@) =~= action_views(first) + writes_to(
            others(self.ids(), token),
            say_of(address@, payload@),
        ));
        assert(action_views(first) =~= seq![
            ActionView::Log { text: log_of(address@, payload@) },
            ActionView::Write { id: token, text: echo_of(payload@) },
        ]);
        acts
    }

    /// What bytes read from the checked-out chat connection `token` ask for:
    /// the bytes are decoded as UTF-8, invalid sequences replaced.
    pub fn on_chat_data(&self, token: u64, conn: &Connection, data: &[u8]) -> (r: Vec<Action>)
        ensures
            action_views(r@) == chat_actions_of(
                self.ids(),
                token,
                conn.address@,
                lossy_text(data@),
            ),
    {
        let text = decode_lossy(data);
        self.chat_actions(token, conn.address.as_str(), text.as_str())
    }

    /// Ends the handling of connection `id`: an open connection that still
    /// wants readiness, in a state that this server keeps (see `fits`), goes
    /// back into the registry and is re-registered; any other is dropped.
    pub fn release(&mut self, id: u64, conn: Connection, end: ReadEnd) -> (r: Vec<Action>)
        requires
            old(self).wf(),
        ensures
            final(self).wf(),
            released(*old(self), *final(self), id, conn, end, action_views(r@)),
    {
        let open = match end {
            ReadEnd::Open => true,
            _ => false,
        };
        let mut acts: Vec<Action> = Vec::new();
        let fit = match self.kind {
            ServerKind::Chat => conn.mode == Mode::PlainChat && conn.interest
                == Interest::readable(),
            ServerKind::WebSocket => conn.mode != Mode::PlainChat && conn.interest.is_active(),
        };
        if open && fit && 1 <= id && id < self.next_id {
            let interest = conn.interest;
            self.registry.insert(id, conn);
            acts.push(Action::Reregister { id, interest });
            assert(action_views(acts@) =~= seq![ActionView::Reregister { id, interest }]);
        } else {
            self.registry.remove(id);
            acts.push(Action::Close { id });
            assert(action_views(acts@) =~= seq![ActionView::Close { id }]);
        }
        acts
    }
}

/// The headers of upgrading connection `c` are complete and hold the key.
pub open spec fn upgrade_due(c: Connection) -> bool {
    c.mode == Mode::WebSocketUpgrading && c.parser@.complete && header_map(c.parser@.pairs).contains_key(
        key_header(),
    )
}

/// Upgrading connection `c` is polled for writing and holds the key.
pub open spec fn handshake_due(c: Connection) -> bool {
    c.mode == Mode::WebSocketUpgrading && c.interest.writable && header_map(
        c.parser@.pairs,
    ).contains_key(key_header())
}

/// The handshake response for the key that `c`'s headers hold.
pub open spec fn handshake_text(c: Connection) -> Seq<char> {
    switching_response_of(accept_value_of_text(header_map(c.parser@.pairs)[key_header()]))
}

/// `post` is `pre` after `upgrade_ready` returned `r`.
pub open spec fn upgrade_checked(pre: Connection, post: Connection, r: bool) -> bool {
    &&& r == upgrade_due(pre)
    &&& post.address == pre.address
    &&& post.mode == pre.mode
    &&& post.parser == pre.parser
    &&& post.interest == (if r {
        Interest { readable: true, writable: true }
    } else {
        pre.interest
    })
}

impl Connection {
    /// After header bytes were fed to the parser: once the headers are
    /// complete and hold the client's key, an upgrading connection asks to be
    /// polled for writing too. Returns whether it did.
    pub fn upgrade_ready(&mut self) -> (r: bool)
        ensures
            upgrade_checked(*old(self), *final(self), r),
    {
        let upgrading = match self.mode {
            Mode::WebSocketUpgrading => true,
            _ => false,
        };
        if upgrading && self.parser.is_complete() {
            proof {
                reveal_strlit("Sec-WebSocket-Key");
            }
            match self.parser.get("Sec-WebSocket-Key") {
                Some(_) => {
                    self.interest = Interest::readable_writable();
                    true
                },
                None => false,
            }
        } else {
            false
        }
    }

    /// On writability of an upgrading connection that holds the client's
    /// key: the `101 Switching Protocols` response to write, after which the
    /// connection is open and polled for reading only.
    pub fn handshake(&mut self) -> (r: Option<String>)
        ensures
            ({
                let ready = handshake_due(*old(self));
                &&& r is Some == ready
                &&& ready ==> r->Some_0@ == handshake_text(*old(self))
                &&& final(self).address == old(self).address
                &&& final(self).parser == old(self).parser
                &&& final(self).mode == (if ready {
                    Mode::WebSocketOpen
                } else {
                    old(self).mode
                })
                &&& final(self).interest == (if ready {
                    readable_only()
                } else {
                    old(self).interest
                })
            }),
    {
        let upgrading = match self.mode {
            Mode::WebSocketUpgrading => true,
            _ => false,
        };
        if upgrading && self.interest.writable {
            match self.parser.get("Sec-WebSocket-Key") {
                Some(key) => {
                    let accept = gen_key(key.as_str());
                    let response = handshake_response(accept.as_str());
                    self.mode = Mode::WebSocketOpen;
                    self.interest = Interest::readable();
                    Some(response)
                },
                None => None,
            }
        } else {
            None
        }
    }
}

} // verus!
