use vstd::prelude::*;

use crate::text::{decode_lossy, lossy_text, push_bytes};

verus! {

/// What the header accumulator holds, as mathematical values.
pub struct HeaderState {
    /// Completed name/value pairs, in the order they were seen.
    pub pairs: Seq<(Seq<char>, Seq<char>)>,
    /// Bytes of the header name being received.
    pub field: Seq<u8>,
    /// Bytes of the header value being received.
    pub value: Seq<u8>,
    /// Whether value bytes have arrived since the last name bytes.
    pub in_value: bool,
    /// Whether the end of the header block was seen.
    pub complete: bool,
}

/// The mapping that a list of pairs gives: the last value of a name wins.
pub open spec fn header_map(pairs: Seq<(Seq<char>, Seq<char>)>) -> Map<Seq<char>, Seq<char>>
    decreases pairs.len(),
{
    if pairs.len() == 0 {
        Map::empty()
    } else {
        header_map(pairs.drop_last()).insert(pairs.last().0, pairs.last().1)
    }
}

/// The pairs after the pending name and value, if a value has begun, are stored.
pub open spec fn committed(s: HeaderState) -> Seq<(Seq<char>, Seq<char>)> {
    if s.in_value {
        s.pairs.push((lossy_text(s.field), lossy_text(s.value)))
    } else {
        s.pairs
    }
}

/// The state after a piece of a header name arrives.
pub open spec fn field_step(s: HeaderState, piece: Seq<u8>) -> HeaderState {
    if s.in_value {
        HeaderState { pairs: committed(s), field: piece, value: Seq::empty(), in_value: false, ..s }
    } else {
        HeaderState { field: s.field + piece, ..s }
    }
}

/// The state after a piece of a header value arrives.
pub open spec fn value_step(s: HeaderState, piece: Seq<u8>) -> HeaderState {
    if s.in_value {
        HeaderState { value: s.value + piece, ..s }
    } else {
        HeaderState { value: piece, in_value: true, ..s }
    }
}

/// The state after the end of the header block.
pub open spec fn complete_step(s: HeaderState) -> HeaderState {
    HeaderState {
        pairs: committed(s),
        field: Seq::empty(),
        value: Seq::empty(),
        in_value: false,
        complete: true,
    }
}

/// The state of a fresh accumulator.
pub open spec fn initial_headers() -> HeaderState {
    HeaderState {
        pairs: Seq::empty(),
        field: Seq::empty(),
        value: Seq::empty(),
        in_value: false,
        complete: false,
    }
}

/// A header name or value may reach the accumulator split at any point:
/// two consecutive pieces leave it exactly as their concatenation does.
pub proof fn lemma_split_pieces_agree(s: HeaderState, a: Seq<u8>, b: Seq<u8>)
    ensures
        field_step(field_step(s, a), b) == field_step(s, a + b),
        value_step(value_step(s, a), b) == value_step(s, a + b),
{
    assert(s.field + a + b =~= s.field + (a + b));
    assert(s.value + a + b =~= s.value + (a + b));
}

/// The state after a header name arrives as the consecutive `pieces`.
pub open spec fn field_pieces(s: HeaderState, pieces: Seq<Seq<u8>>) -> HeaderState
    decreases pieces.len(),
{
    if pieces.len() == 0 {
        s
    } else {
        field_step(field_pieces(s, pieces.drop_last()), pieces.last())
    }
}

/// The state after a header value arrives as the consecutive `pieces`.
pub open spec fn value_pieces(s: HeaderState, pieces: Seq<Seq<u8>>) -> HeaderState
    decreases pieces.len(),
{
    if pieces.len() == 0 {
        s
    } else {
        value_step(value_pieces(s, pieces.drop_last()), pieces.last())
    }
}

/// However a header name or value is cut into consecutive pieces (at least
/// one), the accumulator ends as it does when the whole arrives at once.
pub proof fn lemma_chunked_feed_agrees(s: HeaderState, pieces: Seq<Seq<u8>>)
    requires
        pieces.len() > 0,
    ensures
        field_pieces(s, pieces) == field_step(s, pieces.flatten()),
        value_pieces(s, pieces) == value_step(s, pieces.flatten()),
    decreases pieces.len(),
{
    pieces.lemma_flatten_and_flatten_alt_are_equivalent();
    let init = pieces.drop_last();
    if pieces.len() == 1 {
        assert(field_pieces(s, init) == s);
        assert(value_pieces(s, init) == s);
        assert(init.flatten_alt() =~= Seq::<u8>::empty());
        assert(pieces.flatten_alt() =~= pieces.last());
    } else {
        lemma_chunked_feed_agrees(s, init);
        init.lemma_flatten_and_flatten_alt_are_equivalent();
        lemma_split_pieces_agree(s, init.flatten(), pieces.last());
        assert(pieces.flatten() == init.flatten() + pieces.last());
    }
}

/// Accumulates the header names and values that an incremental HTTP parser
/// reports, in pieces of any size, into a name-to-value mapping.
pub struct HttpParser {
    current_key: Vec<u8>,
    current_value: Vec<u8>,
    in_value: bool,
    headers: Vec<(String, String)>,
    complete: bool,
}

impl View for HttpParser {
    type V = HeaderState;

    closed spec fn view(&self) -> HeaderState {
        HeaderState {
            pairs: self.headers@.map_values(|p: (String, String)| (p.0@, p.1@)),
            field: self.current_key@,
            value: self.current_value@,
            in_value: self.in_value,
            complete: self.complete,
        }
    }
}

/// The pair list ends with the pair that holds `key`'s final value.
proof fn lemma_last_match(pairs: Seq<(Seq<char>, Seq<char>)>, key: Seq<char>, j: int)
    requires
        0 <= j < pairs.len(),
        pairs[j].0 == key,
        forall|k: int| j < k < pairs.len() ==> pairs[k].0 != key,
    ensures
        header_map(pairs).contains_key(key),
        header_map(pairs)[key] == pairs[j].1,
    decreases pairs.len(),
{
    if j < pairs.len() - 1 {
        lemma_last_match(pairs.drop_last(), key, j);
    }
}

proof fn lemma_no_match(pairs: Seq<(Seq<char>, Seq<char>)>, key: Seq<char>)
    requires
        forall|k: int| 0 <= k < pairs.len() ==> pairs[k].0 != key,
    ensures
        !header_map(pairs).contains_key(key),
    decreases pairs.len(),
{
    if pairs.len() > 0 {
        lemma_no_match(pairs.drop_last(), key);
    }
}

impl HttpParser {
    /// An accumulator that has seen nothing.
    pub fn new() -> (r: HttpParser)
        ensures
            r@ == initial_headers(),
    {
        let r = HttpParser {
            current_key: Vec::new(),
            current_value: Vec::new(),
            in_value: false,
            headers: Vec::new(),
            complete: false,
        };
        assert(r@.pairs =~= Seq::empty());
        r
    }

    fn commit(&mut self)
        ensures
            final(self)@ == (HeaderState {
                pairs: committed(old(self)@),
                field: Seq::empty(),
                value: Seq::empty(),
                in_value: false,
                ..old(self)@
            }),
    {
        if self.in_value {
            let name = decode_lossy(self.current_key.as_slice());
            let value = decode_lossy(self.current_value.as_slice());
            self.headers.push((name, value));
        }
        self.current_key = Vec::new();
        self.current_value = Vec::new();
        self.in_value = false;
        assert(self@.pairs =~= committed(old(self)@));
    }

    /// Takes a piece of a header name; asks the parser to go on.
    pub fn on_header_field(&mut self, s: &[u8]) -> (r: bool)
        ensures
            final(self)@ == field_step(old(self)@, s@),
            r,
    {
        if self.in_value {
            self.commit();
        }
        push_bytes(&mut self.current_key, s);
        true
    }

    /// Takes a piece of a header value; asks the parser to go on.
    pub fn on_header_value(&mut self, s: &[u8]) -> (r: bool)
        ensures
            final(self)@ == value_step(old(self)@, s@),
            r,
    {
        if !self.in_value {
            self.current_value = Vec::new();
            self.in_value = true;
        }
        push_bytes(&mut self.current_value, s);
        true
    }

    /// Marks the end of the header block; asks the parser to stop there.
    pub fn on_headers_complete(&mut self) -> (r: bool)
        ensures
            final(self)@ == complete_step(old(self)@),
            !r,
    {
        self.commit();
        self.complete = true;
        false
    }

    /// Whether the end of the header block was seen.
    pub fn is_complete(&self) -> (r: bool)
        ensures
            r == self@.complete,
    {
        self.complete
    }

    /// The last value received for the header `name`, compared exactly.
    pub fn get(&self, name: &str) -> (r: Option<String>)
        ensures
            r.is_some() == header_map(self@.pairs).contains_key(name@),
            r.is_some() ==> r->Some_0@ == header_map(self@.pairs)[name@],
    {
        let wanted = String::from_str(name);
        let mut i: usize = self.headers.len();
        while i > 0
            invariant
                0 <= i <= self.headers@.len(),
                wanted@ == name@,
                forall|k: int| i <= k < self@.pairs.len() ==> self@.pairs[k].0 != name@,
            decreases i,
        {
            i = i - 1;
            if self.headers[i].0 == wanted {
                proof {
                    lemma_last_match(self@.pairs, name@, i as int);
                }
                return Some(self.headers[i].1.clone());
            }
        }
        proof {
            lemma_no_match(self@.pairs, name@);
        }
        None
    }
}

} // verus!
