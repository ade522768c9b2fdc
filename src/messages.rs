use vstd::prelude::*;

use crate::registry::{others, ConnectionRegistry, Interest};

verus! {

/// What the event loop is to do with sockets and the log sink.
#[derive(Debug)]
pub enum Action {
    /// Register the new connection `id` with the poll instance.
    Register { id: u64, interest: Interest },
    /// Re-register connection `id` with the poll instance.
    Reregister { id: u64, interest: Interest },
    /// Write `text` to connection `id`.
    Write { id: u64, text: String },
    /// Hand `text` to the log sink.
    Log { text: String },
    /// Drop connection `id`, closing its socket.
    Close { id: u64 },
}

/// An action, with its text as a sequence of characters.
pub enum ActionView {
    Register { id: u64, interest: Interest },
    Reregister { id: u64, interest: Interest },
    Write { id: u64, text: Seq<char> },
    Log { text: Seq<char> },
    Close { id: u64 },
}

impl View for Action {
    type V = ActionView;

    open spec fn view(&self) -> ActionView {
        match self {
            Action::Register { id, interest } => ActionView::Register { id: *id, interest: *interest },
            Action::Reregister { id, interest } => ActionView::Reregister {
                id: *id,
                interest: *interest,
            },
            Action::Write { id, text } => ActionView::Write { id: *id, text: text@ },
            Action::Log { text } => ActionView::Log { text: text@ },
            Action::Close { id } => ActionView::Close { id: *id },
        }
    }
}

/// The views of a list of actions.
pub open spec fn action_views(a: Seq<Action>) -> Seq<ActionView> {
    a.map_values(|x: Action| x@)
}

/// One write of `text` to each of `ids`, in order.
pub open spec fn writes_to(ids: Seq<u64>, text: Seq<char>) -> Seq<ActionView> {
    ids.map_values(|p: u64| ActionView::Write { id: p, text })
}

/// How an I/O error is told apart from the others.
#[derive(Clone, Copy, Debug, PartialEq, Eq, Structural)]
pub enum IoErrorKind {
    /// The operation would have had to wait.
    WouldBlock,
    /// Anything else.
    Other,
}

/// Whether an error only says that the operation would have had to wait.
pub fn would_block(err: &IoErrorKind) -> (r: bool)
    ensures
        r == (*err == IoErrorKind::WouldBlock),
{
    match err {
        IoErrorKind::WouldBlock => true,
        IoErrorKind::Other => false,
    }
}

/// What one read on a connection gave: a byte count, or an error.
#[derive(Clone, Copy, Debug, PartialEq, Eq, Structural)]
pub enum ReadResult {
    Bytes(usize),
    Error(IoErrorKind),
}

/// What the read loop does after one read.
#[derive(Clone, Copy, Debug, PartialEq, Eq, Structural)]
pub enum ReadStep {
    /// Hand the bytes read to the connection's protocol and read again.
    Handle,
    /// The peer closed: drop the connection.
    PeerClosed,
    /// Nothing more to read for now: stop, keeping the connection.
    Stop,
    /// The read failed: drop the connection and report the error.
    Failed,
}

/// The read loop's decision after one read: no bytes mean that the peer
/// closed, bytes are handled, a would-block error ends the event and any
/// other error ends the connection.
pub fn read_step(result: ReadResult) -> (r: ReadStep)
    ensures
        r == (match result {
            ReadResult::Bytes(0) => ReadStep::PeerClosed,
            ReadResult::Bytes(_) => ReadStep::Handle,
            ReadResult::Error(IoErrorKind::WouldBlock) => ReadStep::Stop,
            ReadResult::Error(IoErrorKind::Other) => ReadStep::Failed,
        }),
{
    match result {
        ReadResult::Bytes(n) => {
            if n == 0 {
                ReadStep::PeerClosed
            } else {
                ReadStep::Handle
            }
        },
        ReadResult::Error(kind) => {
            if would_block(&kind) {
                ReadStep::Stop
            } else {
                ReadStep::Failed
            }
        },
    }
}

/// The banner written to a connection when it is accepted.
pub open spec fn banner() -> Seq<char> {
    "Connection established!\n"@
}

/// The reply to the sender of a chat message.
pub open spec fn echo_of(payload: Seq<char>) -> Seq<char> {
    "YOU: "@ + payload
}

/// What the other peers receive of a chat message.
pub open spec fn say_of(address: Seq<char>, payload: Seq<char>) -> Seq<char> {
    address + " SAY: "@ + payload
}

/// The log record of a chat message.
pub open spec fn log_of(address: Seq<char>, payload: Seq<char>) -> Seq<char> {
    "LOG :"@ + address + " SAY: "@ + payload
}

/// The notice the other peers receive when a connection joins.
pub open spec fn joined_of(address: Seq<char>) -> Seq<char> {
    address + " connected\n"@
}

/// The reply to the sender of `received_data`.
pub fn client_message(received_data: &str) -> (r: String)
    ensures
        r@ == echo_of(received_data@),
{
    let mut r = String::from_str("YOU: ");
    r.append(received_data);
    r
}

/// The log record of `received_data` from the peer at `address`.
pub fn log_message(address: &str, received_data: &str) -> (r: String)
    ensures
        r@ == log_of(address@, received_data@),
{
    let mut r = String::from_str("LOG :");
    r.append(address);
    r.append(" SAY: ");
    r.append(received_data);
    r
}

/// The notice that the peer at `address` joined.
pub fn joined_message(address: &str) -> (r: String)
    ensures
        r@ == joined_of(address@),
{
    let mut r = String::from_str(address);
    r.append(" connected\n");
    r
}

/// The banner for the newly accepted connection `token`.
pub fn accept_connection(token: u64) -> (r: Action)
    ensures
        r@ == (ActionView::Write { id: token, text: banner() }),
{
    Action::Write { id: token, text: String::from_str("Connection established!\n") }
}

/// One write of `text` to each identifier of `ids`, in order.
pub fn write_each(ids: &Vec<u64>, text: &String) -> (r: Vec<Action>)
    ensures
        action_views(r@) == writes_to(ids@, text@),
{
    let mut r: Vec<Action> = Vec::new();
    let mut i: usize = 0;
    while i < ids.len()
        invariant
            0 <= i <= ids@.len(),
            r@.len() == i,
            action_views(r@) == writes_to(ids@.subrange(0, i as int), text@),
        decreases ids@.len() - i,
    {
        let ghost prev = r@;
        let c = text.clone();
        assert(c@ == text@);
        r.push(Action::Write { id: ids[i], text: c });
        i = i + 1;
        assert forall|j: int| 0 <= j < i implies action_views(r@)[j] == writes_to(
            ids@.subrange(0, i as int),
            text@,
        )[j] by {
            if j < i - 1 {
                assert(r@[j] == prev[j]);
                assert(action_views(prev)[j] == writes_to(ids@.subrange(0, i - 1), text@)[j]);
            }
        }
        assert(action_views(r@) =~= writes_to(ids@.subrange(0, i as int), text@));
    }
    assert(ids@.subrange(0, i as int) == ids@);
    r
}

/// The writes that deliver `received_data` from the peer at `address`,
/// registered as `token`, to every other registered connection.
pub fn chat_message(
    clients: &ConnectionRegistry,
    token: u64,
    address: &str,
    received_data: &str,
) -> (r: Vec<Action>)
    ensures
        action_views(r@) == writes_to(others(clients.ids(), token), say_of(address@, received_data@)),
{
    let mut text = String::from_str(address);
    text.append(" SAY: ");
    text.append(received_data);
    let peers = clients.peers(token);
    write_each(&peers, &text)
}

} // verus!
