use vstd::prelude::*;

use crate::headers::{initial_headers, HttpParser};

verus! {

/// The readiness a connection is polled for.
#[derive(Clone, Copy, Debug, PartialEq, Eq, Structural)]
pub struct Interest {
    pub readable: bool,
    pub writable: bool,
}

impl Interest {
    /// Readable only.
    pub fn readable() -> (r: Interest)
        ensures
            r == (Interest { readable: true, writable: false }),
    {
        Interest { readable: true, writable: false }
    }

    /// Readable and writable.
    pub fn readable_writable() -> (r: Interest)
        ensures
            r == (Interest { readable: true, writable: true }),
    {
        Interest { readable: true, writable: true }
    }

    /// Whether the mask asks for anything at all.
    pub fn is_active(&self) -> (r: bool)
        ensures
            r == (self.readable || self.writable),
    {
        self.readable || self.writable
    }
}

/// The protocol a connection speaks.
#[derive(Clone, Copy, Debug, PartialEq, Eq, Structural)]
pub enum Mode {
    PlainChat,
    WebSocketUpgrading,
    WebSocketOpen,
}

/// One accepted socket's state, apart from the socket itself.
pub struct Connection {
    /// The peer's address, as text.
    pub address: String,
    pub mode: Mode,
    pub interest: Interest,
    /// Headers collected while a WebSocket upgrade is under way.
    pub parser: HttpParser,
}

impl Connection {
    /// A fresh connection in `mode`, polled for reading.
    pub fn new(address: String, mode: Mode) -> (r: Connection)
        ensures
            r.address@ == address@,
            r.mode == mode,
            r.interest == (Interest { readable: true, writable: false }),
            r.parser@ == initial_headers(),
    {
        Connection { address, mode, interest: Interest::readable(), parser: HttpParser::new() }
    }
}

/// The map that a list of entries gives.
pub open spec fn entries_map(s: Seq<(u64, Connection)>) -> Map<u64, Connection>
    decreases s.len(),
{
    if s.len() == 0 {
        Map::empty()
    } else {
        entries_map(s.drop_last()).insert(s.last().0, s.last().1)
    }
}

/// No identifier occurs twice.
pub open spec fn unique_ids(s: Seq<(u64, Connection)>) -> bool {
    forall|i: int, j: int| 0 <= i < s.len() && 0 <= j < s.len() && i != j ==> s[i].0 != s[j].0
}

/// The identifiers of a list of entries, in order.
pub open spec fn entry_ids(s: Seq<(u64, Connection)>) -> Seq<u64> {
    s.map_values(|e: (u64, Connection)| e.0)
}

/// The identifiers of `ids` other than `origin`, in order.
pub open spec fn others(ids: Seq<u64>, origin: u64) -> Seq<u64>
    decreases ids.len(),
{
    if ids.len() == 0 {
        Seq::empty()
    } else if ids.last() == origin {
        others(ids.drop_last(), origin)
    } else {
        others(ids.drop_last(), origin).push(ids.last())
    }
}

proof fn lemma_entries_dom(s: Seq<(u64, Connection)>, k: u64)
    ensures
        entries_map(s).contains_key(k) <==> exists|i: int| 0 <= i < s.len() && s[i].0 == k,
    decreases s.len(),
{
    if s.len() > 0 {
        lemma_entries_dom(s.drop_last(), k);
        if entries_map(s.drop_last()).contains_key(k) {
            let i = choose|i: int| 0 <= i < s.drop_last().len() && s.drop_last()[i].0 == k;
            assert(s[i].0 == k);
        }
        if exists|i: int| 0 <= i < s.len() && s[i].0 == k {
            let i = choose|i: int| 0 <= i < s.len() && s[i].0 == k;
            if i < s.len() - 1 {
                assert(s.drop_last()[i].0 == k);
            }
        }
    }
}

proof fn lemma_entries_value(s: Seq<(u64, Connection)>, i: int)
    requires
        unique_ids(s),
        0 <= i < s.len(),
    ensures
        entries_map(s).contains_key(s[i].0),
        entries_map(s)[s[i].0] == s[i].1,
    decreases s.len(),
{
    if i < s.len() - 1 {
        lemma_entries_value(s.drop_last(), i);
    }
}

proof fn lemma_entries_remove(s: Seq<(u64, Connection)>, i: int)
    requires
        unique_ids(s),
        0 <= i < s.len(),
    ensures
        unique_ids(s.remove(i)),
        entries_map(s.remove(i)) == entries_map(s).remove(s[i].0),
{
    let t = s.remove(i);
    let k = s[i].0;
    assert forall|a: int, b: int| 0 <= a < t.len() && 0 <= b < t.len() && a != b implies t[a].0
        != t[b].0 by {
        let a2 = if a < i { a } else { a + 1 };
        let b2 = if b < i { b } else { b + 1 };
        assert(t[a] == s[a2] && t[b] == s[b2]);
    }
    assert forall|x: u64| #[trigger] entries_map(t).contains_key(x) <==> entries_map(s).remove(
        k,
    ).contains_key(x) by {
        lemma_entries_dom(t, x);
        lemma_entries_dom(s, x);
        if exists|j: int| 0 <= j < s.len() && s[j].0 == x {
            let j = choose|j: int| 0 <= j < s.len() && s[j].0 == x;
            if x != k {
                let j2 = if j < i { j } else { j - 1 };
                assert(t[j2].0 == x);
            }
        }
        if exists|j: int| 0 <= j < t.len() && t[j].0 == x {
            let j = choose|j: int| 0 <= j < t.len() && t[j].0 == x;
            let j2 = if j < i { j } else { j + 1 };
            assert(s[j2].0 == x);
        }
    }
    assert forall|x: u64| #[trigger] entries_map(t).contains_key(x) implies entries_map(t)[x]
        == entries_map(s)[x] by {
        lemma_entries_dom(t, x);
        let j = choose|j: int| 0 <= j < t.len() && t[j].0 == x;
        let j2 = if j < i { j } else { j + 1 };
        lemma_entries_value(t, j);
        lemma_entries_value(s, j2);
    }
    assert(entries_map(t) =~= entries_map(s).remove(k));
}

proof fn lemma_entries_update(s: Seq<(u64, Connection)>, i: int, c: Connection)
    requires
        unique_ids(s),
        0 <= i < s.len(),
    ensures
        unique_ids(s.update(i, (s[i].0, c))),
        entries_map(s.update(i, (s[i].0, c))) == entries_map(s).insert(s[i].0, c),
{
    let k = s[i].0;
    let t = s.update(i, (k, c));
    assert forall|x: u64| #[trigger] entries_map(t).contains_key(x) <==> entries_map(s).insert(
        k,
        c,
    ).contains_key(x) by {
        lemma_entries_dom(t, x);
        lemma_entries_dom(s, x);
        if exists|j: int| 0 <= j < s.len() && s[j].0 == x {
            let j = choose|j: int| 0 <= j < s.len() && s[j].0 == x;
            assert(t[j].0 == x);
        }
        if exists|j: int| 0 <= j < t.len() && t[j].0 == x {
            let j = choose|j: int| 0 <= j < t.len() && t[j].0 == x;
            assert(s[j].0 == x);
        }
        assert(t[i].0 == k);
    }
    assert forall|x: u64| #[trigger] entries_map(t).contains_key(x) implies entries_map(t)[x]
        == entries_map(s).insert(k, c)[x] by {
        lemma_entries_dom(t, x);
        let j = choose|j: int| 0 <= j < t.len() && t[j].0 == x;
        lemma_entries_value(t, j);
        if j != i {
            lemma_entries_value(s, j);
        }
    }
    assert(entries_map(t) =~= entries_map(s).insert(k, c));
}

/// Every element of `others(ids, origin)` is an element of `ids` other than
/// `origin`, and every such element is in it.
pub proof fn lemma_others_members(ids: Seq<u64>, origin: u64, x: u64)
    ensures
        others(ids, origin).contains(x) <==> (ids.contains(x) && x != origin),
    decreases ids.len(),
{
    if ids.len() > 0 {
        lemma_others_members(ids.drop_last(), origin, x);
        assert(ids == ids.drop_last().push(ids.last()));
        if ids.drop_last().contains(x) {
            let j = choose|j: int| 0 <= j < ids.drop_last().len() && ids.drop_last()[j] == x;
            assert(ids[j] == x);
        }
        if ids.contains(x) && ids.last() != x {
            let j = choose|j: int| 0 <= j < ids.len() && ids[j] == x;
            assert(ids.drop_last()[j] == x);
        }
        if ids.last() != origin {
            let o = others(ids.drop_last(), origin);
            if o.contains(x) {
                let j = choose|j: int| 0 <= j < o.len() && o[j] == x;
                assert(o.push(ids.last())[j] == x);
            }
            if o.push(ids.last()).contains(x) && x != ids.last() {
                let j = choose|j: int| 0 <= j < o.len() + 1 && o.push(ids.last())[j] == x;
                assert(o[j] == x);
            }
            assert(o.push(ids.last())[o.len() as int] == ids.last());
        }
    }
}

/// Dropping an identifier from a list that names each one once leaves a
/// list that names each one once.
pub proof fn lemma_others_no_duplicates(ids: Seq<u64>, origin: u64)
    requires
        ids.no_duplicates(),
    ensures
        others(ids, origin).no_duplicates(),
    decreases ids.len(),
{
    if ids.len() > 0 {
        let init = ids.drop_last();
        assert(init.no_duplicates()) by {
            assert forall|i: int, j: int|
                0 <= i < init.len() && 0 <= j < init.len() && i != j implies init[i] != init[j] by {
                assert(init[i] == ids[i] && init[j] == ids[j]);
            }
        }
        lemma_others_no_duplicates(init, origin);
        if ids.last() != origin {
            let o = others(init, origin);
            lemma_others_members(init, origin, ids.last());
            assert(!init.contains(ids.last())) by {
                if init.contains(ids.last()) {
                    let k = choose|k: int| 0 <= k < init.len() && init[k] == ids.last();
                    assert(ids[k] == ids[ids.len() - 1]);
                }
            }
            let p = o.push(ids.last());
            assert forall|i: int, j: int| 0 <= i < p.len() && 0 <= j < p.len() && i != j implies p[i]
                != p[j] by {
                if i < o.len() && j < o.len() {
                    assert(p[i] == o[i] && p[j] == o[j]);
                } else if i < o.len() {
                    assert(o.contains(p[i]));
                } else if j < o.len() {
                    assert(o.contains(p[j]));
                }
            }
        }
    }
}

/// The connections that the event loop is not handling right now, by
/// identifier.
pub struct ConnectionRegistry {
    entries: Vec<(u64, Connection)>,
}

impl ConnectionRegistry {
    /// The identifiers and connections, as a map.
    pub closed spec fn view(&self) -> Map<u64, Connection> {
        entries_map(self.entries@)
    }

    /// The identifiers, in the order broadcasts visit them.
    pub closed spec fn ids(&self) -> Seq<u64> {
        entry_ids(self.entries@)
    }

    /// The well-formedness of a registry: unique identifiers.
    pub closed spec fn wf(&self) -> bool {
        unique_ids(self.entries@)
    }

    /// The identifiers listed are exactly the keys of the map.
    pub proof fn lemma_ids_are_keys(&self, x: u64)
        requires
            self.wf(),
        ensures
            self.ids().contains(x) <==> self@.contains_key(x),
            self.ids().no_duplicates(),
    {
        assert forall|i: int, j: int|
            0 <= i < self.ids().len() && 0 <= j < self.ids().len() && i != j implies self.ids()[i]
            != self.ids()[j] by {
            assert(self.ids()[i] == self.entries@[i].0);
            assert(self.ids()[j] == self.entries@[j].0);
        }
        lemma_entries_dom(self.entries@, x);
        if self.ids().contains(x) {
            let j = choose|j: int| 0 <= j < self.ids().len() && self.ids()[j] == x;
            assert(self.entries@[j].0 == x);
        }
        if exists|i: int| 0 <= i < self.entries@.len() && self.entries@[i].0 == x {
            let i = choose|i: int| 0 <= i < self.entries@.len() && self.entries@[i].0 == x;
            assert(self.ids()[i] == x);
        }
    }

    /// An empty registry.
    pub fn new() -> (r: ConnectionRegistry)
        ensures
            r.wf(),
            r@ == Map::<u64, Connection>::empty(),
    {
        ConnectionRegistry { entries: Vec::new() }
    }

    fn find(&self, id: u64) -> (r: Option<usize>)
        ensures
            match r {
                Some(i) => i < self.entries@.len() && self.entries@[i as int].0 == id,
                None => forall|i: int| 0 <= i < self.entries@.len() ==> self.entries@[i].0 != id,
            },
    {
        let mut i: usize = 0;
        while i < self.entries.len()
            invariant
                0 <= i <= self.entries@.len(),
                forall|k: int| 0 <= k < i ==> self.entries@[k].0 != id,
            decreases self.entries@.len() - i,
        {
            if self.entries[i].0 == id {
                return Some(i);
            }
            i = i + 1;
        }
        None
    }

    /// Whether `id` is registered.
    pub fn contains_key(&self, id: u64) -> (r: bool)
        requires
            self.wf(),
        ensures
            r == self@.contains_key(id),
    {
        proof {
            lemma_entries_dom(self.entries@, id);
        }
        match self.find(id) {
            Some(_) => true,
            None => false,
        }
    }

    /// The number of registered connections.
    pub fn len(&self) -> (r: usize)
        requires
            self.wf(),
        ensures
            r == self.ids().len(),
    {
        self.entries.len()
    }

    /// Adds `connection` under `id`, replacing what was there.
    pub fn insert(&mut self, id: u64, connection: Connection)
        requires
            old(self).wf(),
        ensures
            final(self).wf(),
            final(self)@ == old(self)@.insert(id, connection),
    {
        match self.find(id) {
            Some(i) => {
                proof {
                    lemma_entries_update(self.entries@, i as int, connection);
                }
                self.entries.set(i, (id, connection));
            },
            None => {
                let ghost s = self.entries@;
                self.entries.push((id, connection));
                assert(self.entries@.drop_last() == s);
                assert(unique_ids(self.entries@));
            },
        }
    }

    /// Detaches the connection under `id`, if there is one.
    pub fn remove(&mut self, id: u64) -> (r: Option<Connection>)
        requires
            old(self).wf(),
        ensures
            final(self).wf(),
            final(self)@ == old(self)@.remove(id),
            r == (if old(self)@.contains_key(id) {
                Some(old(self)@[id])
            } else {
                None::<Connection>
            }),
    {
        proof {
            lemma_entries_dom(self.entries@, id);
        }
        match self.find(id) {
            Some(i) => {
                proof {
                    lemma_entries_remove(self.entries@, i as int);
                    lemma_entries_value(self.entries@, i as int);
                }
                let (_, c) = self.entries.remove(i);
                Some(c)
            },
            None => {
                assert(self@ =~= old(self)@.remove(id));
                None
            },
        }
    }

    /// The registered identifiers other than `origin`, in broadcast order.
    pub fn peers(&self, origin: u64) -> (r: Vec<u64>)
        ensures
            r@ == others(self.ids(), origin),
    {
        let mut r: Vec<u64> = Vec::new();
        let mut i: usize = 0;
        while i < self.entries.len()
            invariant
                0 <= i <= self.entries@.len(),
                r@ == others(self.ids().subrange(0, i as int), origin),
            decreases self.entries@.len() - i,
        {
            let id = self.entries[i].0;
            assert(self.ids().subrange(0, i + 1).drop_last() == self.ids().subrange(0, i as int));
            if id != origin {
                r.push(id);
            }
            i = i + 1;
        }
        assert(self.ids().subrange(0, i as int) == self.ids());
        r
    }
}

} // verus!
