use vstd::prelude::*;

use crate::handshake::{accept_value_of_text, switching_response_of};
use crate::headers::header_map;
use crate::messages::{echo_of, log_of, say_of, writes_to, ActionView};
use crate::reactor::{
    chat_actions_of, detaches, handshake_due, handshake_text, key_header, mints, released,
    upgrade_checked, upgrade_due, ReadEnd, Reactor,
};
use crate::registry::{lemma_others_members, lemma_others_no_duplicates, others, Connection};

verus! {

/// Connection identifiers strictly increase and are never handed out twice:
/// an identifier minted from any state reached after an earlier accept is
/// larger than the one that accept minted, and belongs to no registered
/// connection.
pub proof fn lemma_ids_strictly_increase(
    a0: Reactor,
    a1: Reactor,
    id1: u64,
    b0: Reactor,
    b1: Reactor,
    id2: u64,
)
    requires
        mints(a0, a1, id1),
        a1.next_id() <= b0.next_id(),
        b0.wf(),
        mints(b0, b1, id2),
    ensures
        id1 < id2,
        !b0.connections().contains_key(id2),
{
    if b0.connections().contains_key(id2) {
        b0.lemma_ids_are_keys(id2);
    }
}

/// A chat message from `origin` is logged, echoed to `origin` as
/// `YOU: <payload>`, and sent as `<address> SAY: <payload>` to exactly the
/// other registered connections, once each; `origin` never receives it as a
/// peer.
pub proof fn lemma_chat_delivery(
    r: Reactor,
    origin: u64,
    address: Seq<char>,
    payload: Seq<char>,
    x: u64,
)
    requires
        r.wf(),
    ensures
        ({
            let acts = chat_actions_of(r.ids(), origin, address, payload);
            &&& acts[0] == ActionView::Log { text: log_of(address, payload) }
            &&& acts[1] == ActionView::Write { id: origin, text: echo_of(payload) }
            &&& forall|j: int|
                2 <= j < acts.len() ==> (#[trigger] acts[j] matches ActionView::Write { id, text }
                    && id != origin && text == say_of(address, payload))
            &&& (exists|j: int|
                2 <= j < acts.len() && #[trigger] acts[j] == ActionView::Write {
                    id: x,
                    text: say_of(address, payload),
                }) <==> (r.connections().contains_key(x) && x != origin)
            &&& forall|j1: int, j2: int|
                2 <= j1 < acts.len() && 2 <= j2 < acts.len() && #[trigger] acts[j1] == ActionView::Write {
                    id: x,
                    text: say_of(address, payload),
                } && #[trigger] acts[j2] == ActionView::Write {
                    id: x,
                    text: say_of(address, payload),
                } ==> j1 == j2
        }),
{
    r.lemma_ids_are_keys(x);
    lemma_others_no_duplicates(r.ids(), origin);
    let acts = chat_actions_of(r.ids(), origin, address, payload);
    let peers = others(r.ids(), origin);
    let say = say_of(address, payload);
    assert forall|j: int| 2 <= j < acts.len() implies #[trigger] acts[j] == ActionView::Write {
        id: peers[j - 2],
        text: say,
    } && peers[j - 2] != origin by {
        assert(acts[j] == writes_to(peers, say)[j - 2]);
        lemma_others_members(r.ids(), origin, peers[j - 2]);
        assert(peers.contains(peers[j - 2]));
    }
    lemma_others_members(r.ids(), origin, x);
    r.lemma_ids_are_keys(x);
    if r.connections().contains_key(x) && x != origin {
        let k = choose|k: int| 0 <= k < peers.len() && peers[k] == x;
        assert(acts[k + 2] == ActionView::Write { id: x, text: say });
    }
    if exists|j: int| 2 <= j < acts.len() && #[trigger] acts[j] == (ActionView::Write { id: x, text: say }) {
        let j = choose|j: int| 2 <= j < acts.len() && #[trigger] acts[j] == ActionView::Write {
            id: x,
            text: say,
        };
        assert(peers[j - 2] == x);
        assert(peers.contains(x));
    }
}

/// Once the peer of connection `id` closed and the connection was dropped,
/// it is no longer registered, no broadcast from that state is addressed to
/// it, and no later accept mints its identifier again.
pub proof fn lemma_closed_connection_forgotten(
    pre: Reactor,
    post: Reactor,
    id: u64,
    origin: u64,
    later: Reactor,
    after: Reactor,
    new_id: u64,
)
    requires
        pre.issued(id),
        post.wf(),
        detaches(pre, post, id),
        post.next_id() <= later.next_id(),
        mints(later, after, new_id),
    ensures
        !post.connections().contains_key(id),
        !others(post.ids(), origin).contains(id),
        new_id != id,
{
    lemma_others_members(post.ids(), origin, id);
    post.lemma_ids_are_keys(id);
}

/// A read that would block hands the checked-out connection back unchanged:
/// releasing it as still open puts it back, so the registry and the next
/// identifier are as before the event and the only action re-registers the
/// interest it already had. A second such cycle, starting from the result,
/// again changes nothing.
pub proof fn lemma_would_block_restores(
    pre: Reactor,
    mid: Reactor,
    id: u64,
    post: Reactor,
    acts: Seq<ActionView>,
)
    requires
        pre.wf(),
        pre.connections().contains_key(id),
        detaches(pre, mid, id),
        released(mid, post, id, pre.connections()[id], ReadEnd::Open, acts),
    ensures
        mid.retains(id, pre.connections()[id], ReadEnd::Open),
        post.connections() == pre.connections(),
        post.next_id() == pre.next_id(),
        post.kind() == pre.kind(),
        acts == seq![
            ActionView::Reregister { id, interest: pre.connections()[id].interest },
        ],
{
    pre.lemma_ids_are_keys(id);
    assert(pre.connections().remove(id).insert(id, pre.connections()[id]) =~= pre.connections());
}

proof fn lemma_next_id_monotone(run: Seq<Reactor>, i: int, j: int)
    requires
        forall|k: int| 0 <= k < run.len() - 1 ==> #[trigger] run[k].next_id() <= run[k + 1].next_id(),
        0 <= i <= j < run.len(),
    ensures
        run[i].next_id() <= run[j].next_id(),
    decreases j - i,
{
    if i < j {
        lemma_next_id_monotone(run, i, j - 1);
        assert(run[j - 1].next_id() <= run[j].next_id());
    }
}

/// Along any run of states in which the next identifier never drops (no
/// operation of `Reactor` lowers it), an identifier minted at a later step
/// is larger than one minted at an earlier step, at least 1, and belongs to
/// no connection registered when it is minted.
pub proof fn lemma_minted_ids_increase_along(
    run: Seq<Reactor>,
    i: int,
    j: int,
    id_i: u64,
    id_j: u64,
)
    requires
        forall|k: int| 0 <= k < run.len() - 1 ==> #[trigger] run[k].next_id() <= run[k + 1].next_id(),
        0 <= i < j,
        j + 1 < run.len(),
        run[i].wf(),
        run[j].wf(),
        mints(run[i], run[i + 1], id_i),
        mints(run[j], run[j + 1], id_j),
    ensures
        1 <= id_i < id_j,
        !run[j].connections().contains_key(id_j),
{
    lemma_next_id_monotone(run, i + 1, j);
    run[i].lemma_ids_are_keys(id_i);
    lemma_ids_strictly_increase(run[i], run[i + 1], id_i, run[j], run[j + 1], id_j);
}

/// An upgrading connection whose headers are complete and hold the client's
/// key is, once `upgrade_ready` has asked for writability, due its handshake:
/// the response is the `101 Switching Protocols` text whose
/// `Sec-WebSocket-Accept` is computed from that key.
pub proof fn lemma_upgrade_leads_to_handshake(pre: Connection, post: Connection, r: bool)
    requires
        upgrade_due(pre),
        upgrade_checked(pre, post, r),
    ensures
        r,
        handshake_due(post),
        handshake_text(post) == switching_response_of(
            accept_value_of_text(header_map(pre.parser@.pairs)[key_header()]),
        ),
{
}

} // verus!
