//! The ring of upstream endpoints.

use vstd::arithmetic::div_mod::{lemma_mod_self_0, lemma_small_mod};
use vstd::prelude::*;

verus! {

/// The characters that count as white space at the ends of an endpoint: the
/// characters with the Unicode property `White_Space`.
pub open spec fn is_space(c: char) -> bool {
    let code = c as u32;
    ||| 0x09 <= code <= 0x0D
    ||| code == 0x20
    ||| code == 0x85
    ||| code == 0xA0
    ||| code == 0x1680
    ||| 0x2000 <= code <= 0x200A
    ||| code == 0x2028
    ||| code == 0x2029
    ||| code == 0x202F
    ||| code == 0x205F
    ||| code == 0x3000
}

/// The text without the white space at its start.
pub open spec fn trim_start(text: Seq<char>) -> Seq<char>
    decreases text.len(),
{
    if text.len() > 0 && is_space(text[0]) {
        trim_start(text.skip(1))
    } else {
        text
    }
}

/// The text without the white space at its end.
pub open spec fn trim_end(text: Seq<char>) -> Seq<char>
    decreases text.len(),
{
    if text.len() > 0 && is_space(text.last()) {
        trim_end(text.drop_last())
    } else {
        text
    }
}

/// The text without the white space at both ends.
pub open spec fn trim(text: Seq<char>) -> Seq<char> {
    trim_end(trim_start(text))
}

/// The place of the first comma of `text`, or its length where it has none.
pub open spec fn first_comma(text: Seq<char>) -> int
    decreases text.len(),
{
    if text.len() == 0 || text[0] == ',' {
        0
    } else {
        1 + first_comma(text.skip(1))
    }
}

/// The pieces between the commas of `text`, in order. A text with `n`
/// commas has `n + 1` pieces, some of which may be empty.
pub open spec fn split_commas(text: Seq<char>) -> Seq<Seq<char>>
    decreases text.len(),
{
    let at = first_comma(text);
    if 0 <= at < text.len() {
        seq![text.take(at)] + split_commas(text.skip(at + 1))
    } else {
        seq![text]
    }
}

/// The endpoints that a comma-separated list names: its pieces, each
/// without the white space around it.
pub open spec fn endpoint_list(list: Seq<char>) -> Seq<Seq<char>> {
    split_commas(list).map_values(|piece: Seq<char>| trim(piece))
}

/// The texts of a run of strings.
pub open spec fn texts(strings: Seq<String>) -> Seq<Seq<char>> {
    strings.map_values(|s: String| s@)
}

/// Where a text has no comma before `at`, and ends or has a comma there,
/// its first comma stands at `at`.
pub proof fn lemma_first_comma(text: Seq<char>, at: int)
    requires
        0 <= at <= text.len(),
        forall|j: int| 0 <= j < at ==> text[j] != ',',
        at < text.len() ==> text[at] == ',',
    ensures
        first_comma(text) == at,
    decreases at,
{
    if at > 0 {
        let rest = text.skip(1);
        assert forall|j: int| 0 <= j < at - 1 implies rest[j] != ',' by {
            assert(rest[j] == text[j + 1]);
        }
        lemma_first_comma(rest, at - 1);
    }
}

/// Every list names at least one endpoint.
pub proof fn lemma_endpoint_list_nonempty(list: Seq<char>)
    ensures
        split_commas(list).len() > 0,
        endpoint_list(list).len() == split_commas(list).len(),
    decreases list.len(),
{
    let at = first_comma(list);
    if 0 <= at < list.len() {
        lemma_endpoint_list_nonempty(list.skip(at + 1));
    }
}

/// Whether `c` counts as white space.
pub fn is_whitespace(c: char) -> (space: bool)
    ensures
        space == is_space(c),
{
    let code = c as u32;
    (0x09 <= code && code <= 0x0D) || code == 0x20 || code == 0x85 || code == 0xA0 || code
        == 0x1680 || (0x2000 <= code && code <= 0x200A) || code == 0x2028 || code == 0x2029
        || code == 0x202F || code == 0x205F || code == 0x3000
}

/// The characters of `text`, one by one.
pub fn chars_of(text: &str) -> (chars: Vec<char>)
    ensures
        chars@ == text@,
{
    let mut chars: Vec<char> = Vec::new();
    for c in it: text.chars()
        invariant
            it.seq() == text@,
            chars@ == it.seq().take(it.index() as int),
    {
        chars.push(c);
        assert(it.seq().take(it.index() + 1) =~= it.seq().take(it.index() as int).push(c));
    }
    chars
}

/// The characters from `from` up to `to`, without the white space around
/// them, as a string.
fn trimmed(chars: &Vec<char>, from: usize, to: usize) -> (piece: String)
    requires
        from <= to <= chars@.len(),
    ensures
        piece@ == trim(chars@.subrange(from as int, to as int)),
{
    let ghost whole = chars@.subrange(from as int, to as int);
    let mut a: usize = from;
    while a < to && is_whitespace(chars[a])
        invariant
            from <= a <= to <= chars@.len(),
            whole == chars@.subrange(from as int, to as int),
            trim_start(whole) == trim_start(chars@.subrange(a as int, to as int)),
        decreases to - a,
    {
        assert(chars@.subrange(a as int, to as int).skip(1) =~= chars@.subrange(
            a + 1,
            to as int,
        ));
        a = a + 1;
    }
    let ghost front = chars@.subrange(a as int, to as int);
    assert(trim_start(whole) == front);
    let mut b: usize = to;
    while a < b && is_whitespace(chars[b - 1])
        invariant
            a <= b <= to <= chars@.len(),
            front == chars@.subrange(a as int, to as int),
            trim_end(front) == trim_end(chars@.subrange(a as int, b as int)),
        decreases b - a,
    {
        assert(chars@.subrange(a as int, b as int).drop_last() =~= chars@.subrange(
            a as int,
            b - 1,
        ));
        b = b - 1;
    }
    let ghost kept = chars@.subrange(a as int, b as int);
    assert(trim_end(front) == kept);
    let mut piece = String::new();
    let mut i: usize = a;
    while i < b
        invariant
            a <= i <= b <= chars@.len(),
            piece@ == chars@.subrange(a as int, i as int),
        decreases b - i,
    {
        piece.push(chars[i]);
        assert(chars@.subrange(a as int, i + 1) =~= chars@.subrange(a as int, i as int).push(
            chars@[i as int],
        ));
        i = i + 1;
    }
    piece
}

/// Splits a comma-separated list into its endpoints.
pub fn split_endpoints(list: &str) -> (endpoints: Vec<String>)
    ensures
        texts(endpoints@) == endpoint_list(list@),
        endpoints@.len() > 0,
{
    let chars = chars_of(list);
    let mut endpoints: Vec<String> = Vec::new();
    let mut from: usize = 0;
    let mut at: usize = 0;
    proof {
        assert(chars@.skip(0) =~= list@);
        assert(texts(endpoints@) + endpoint_list(list@) =~= endpoint_list(list@));
    }
    while at < chars.len()
        invariant
            from <= at <= chars@.len(),
            chars@ == list@,
            forall|j: int| from <= j < at ==> chars@[j] != ',',
            endpoint_list(list@) == texts(endpoints@) + endpoint_list(chars@.skip(from as int)),
        decreases chars.len() - at,
    {
        if chars[at] == ',' {
            let ghost rest = chars@.skip(from as int);
            let piece = trimmed(&chars, from, at);
            proof {
                assert forall|j: int| 0 <= j < at - from implies rest[j] != ',' by {
                    assert(rest[j] == chars@[from + j]);
                }
                lemma_first_comma(rest, at - from);
                assert(rest.take(at - from) =~= chars@.subrange(from as int, at as int));
                assert(rest.skip(at - from + 1) =~= chars@.skip(at + 1));
                assert(endpoint_list(rest) =~= seq![piece@] + endpoint_list(chars@.skip(at + 1)));
                assert(texts(endpoints@.push(piece)) =~= texts(endpoints@) + seq![piece@]);
            }
            endpoints.push(piece);
            from = at + 1;
        }
        at = at + 1;
    }
    let ghost rest = chars@.skip(from as int);
    let piece = trimmed(&chars, from, at);
    proof {
        assert forall|j: int| 0 <= j < at - from implies rest[j] != ',' by {
            assert(rest[j] == chars@[from + j]);
        }
        lemma_first_comma(rest, at - from);
        assert(rest =~= chars@.subrange(from as int, at as int));
        assert(endpoint_list(rest) =~= seq![piece@]);
        assert(texts(endpoints@.push(piece)) =~= texts(endpoints@) + seq![piece@]);
    }
    endpoints.push(piece);
    endpoints
}

/// The ring as contracts speak of it: the endpoints in order, and the place
/// of the one that is tried next.
pub struct RingState {
    pub endpoints: Seq<Seq<char>>,
    pub cursor: nat,
}

impl RingState {
    /// The ring is not empty and the cursor points into it.
    pub open spec fn inv(self) -> bool {
        0 <= self.cursor < self.endpoints.len()
    }

    /// The endpoint that is tried next.
    pub open spec fn current(self) -> Seq<char> {
        self.endpoints[self.cursor as int]
    }

    /// The ring after a failure: the cursor moves on by one and wraps at
    /// the end.
    pub open spec fn advance(self) -> RingState {
        RingState {
            endpoints: self.endpoints,
            cursor: ((self.cursor + 1) as int % (self.endpoints.len() as int)) as nat,
        }
    }
}

/// Moving on keeps the cursor inside the ring.
pub proof fn lemma_advance_keeps_inv(ring: RingState)
    requires
        ring.inv(),
    ensures
        ring.advance().inv(),
        ring.advance().endpoints == ring.endpoints,
        ring.advance().cursor == if ring.cursor + 1 == ring.endpoints.len() {
            0
        } else {
            ring.cursor + 1
        },
{
    let n = ring.endpoints.len() as int;
    if ring.cursor + 1 == n {
        lemma_mod_self_0(n);
    } else {
        lemma_small_mod(ring.cursor + 1, n as nat);
    }
}

/// In a ring of one endpoint moving on changes nothing.
pub proof fn lemma_single_endpoint(ring: RingState)
    requires
        ring.inv(),
        ring.endpoints.len() == 1,
    ensures
        ring.advance() == ring,
{
    lemma_advance_keeps_inv(ring);
}

/// An ordered, non-empty ring of endpoints with a rotating cursor.
#[derive(Debug)]
pub struct EndpointRing {
    endpoints: Vec<String>,
    cursor: usize,
}

impl View for EndpointRing {
    type V = RingState;

    closed spec fn view(&self) -> RingState {
        RingState { endpoints: texts(self.endpoints@), cursor: self.cursor as nat }
    }
}

impl EndpointRing {
    #[verifier::type_invariant]
    spec fn type_inv(self) -> bool {
        self.cursor < self.endpoints@.len()
    }

    /// The ring of the endpoints that a comma-separated list names, with
    /// the cursor on the first.
    pub fn parse(list: &str) -> (ring: EndpointRing)
        ensures
            ring@.endpoints == endpoint_list(list@),
            ring@.cursor == 0,
            ring@.inv(),
    {
        let endpoints = split_endpoints(list);
        EndpointRing { endpoints, cursor: 0 }
    }

    /// The ring of the given endpoints, with the cursor on the first; none
    /// where there is no endpoint.
    pub fn new(endpoints: Vec<String>) -> (ring: Option<EndpointRing>)
        ensures
            ring is Some <==> endpoints@.len() > 0,
            ring matches Some(r) ==> r@.endpoints == texts(endpoints@) && r@.cursor == 0
                && r@.inv(),
    {
        if endpoints.len() == 0 {
            None
        } else {
            Some(EndpointRing { endpoints, cursor: 0 })
        }
    }

    /// The number of endpoints.
    pub fn len(&self) -> (n: usize)
        ensures
            n == self@.endpoints.len(),
            n > 0,
    {
        proof {
            use_type_invariant(self);
        }
        self.endpoints.len()
    }

    /// The place of the endpoint that is tried next.
    pub fn cursor(&self) -> (at: usize)
        ensures
            at == self@.cursor,
            at < self@.endpoints.len(),
    {
        proof {
            use_type_invariant(self);
        }
        self.cursor
    }

    /// The endpoint that is tried next.
    pub fn current(&self) -> (endpoint: &String)
        ensures
            endpoint@ == self@.current(),
            self@.inv(),
    {
        proof {
            use_type_invariant(self);
        }
        &self.endpoints[self.cursor]
    }

    /// Moves the cursor on by one, back to the first after the last.
    pub fn advance(&mut self)
        ensures
            final(self)@ == old(self)@.advance(),
            final(self)@.inv(),
    {
        proof {
            use_type_invariant(&*self);
            lemma_advance_keeps_inv(self@);
        }
        let count = self.endpoints.len();
        let next = if self.cursor + 1 == count {
            0
        } else {
            self.cursor + 1
        };
        self.cursor = next;
    }
}

} // verus!
