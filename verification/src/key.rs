//! Record keys: a slot and the digest of a payload, as one line of text.

use crate::decimal::{
    decimal, is_digits, lemma_decimal_value, lemma_slot_round_trip, parse_slot, push_decimal,
    slot_of_text,
};
use crate::digest::{sha256, sha256_digest};
use crate::hex::{
    decode_hash, encode_lower, hex_bytes, hex_lower, is_hex_text, lemma_hex_round_trip,
};
use crate::text::{ascii_text, lemma_ascii_text_concat, lemma_ascii_text_injective, push_ascii};
use vstd::prelude::*;
use vstd::slice::slice_subrange;
use vstd::string::*;

verus! {

/// What the deduplication store remembers of a record: its slot and the
/// digest of its payload.
#[derive(Clone, Copy, Debug, PartialEq, Eq)]
pub struct SeenKey {
    pub slot: u64,
    pub hash: [u8; 32],
}

impl View for SeenKey {
    type V = (u64, Seq<u8>);

    open spec fn view(&self) -> (u64, Seq<u8>) {
        (self.slot, self.hash@)
    }
}

/// The ASCII code of `_`, which parts the slot from the digest.
pub const SEPARATOR: u8 = 95;

/// The key of a record: the slot in decimal, `_`, and the digest in
/// lowercase hex.
pub open spec fn key_text(slot: u64, hash: Seq<u8>) -> Seq<u8> {
    decimal(slot as nat) + seq![SEPARATOR] + hex_lower(hash)
}

/// The first `_` of `text` stands at `at`.
pub open spec fn splits_at(text: Seq<u8>, at: int) -> bool {
    &&& 0 <= at < text.len()
    &&& text[at] == SEPARATOR
    &&& forall|j: int| 0 <= j < at ==> text[j] != SEPARATOR
}

/// The slot and digest that a key stands for. The text before the first `_`
/// must be a slot, the text behind it exactly 64 hex digits; any other text
/// is no key.
pub open spec fn key_of_text(text: Seq<u8>) -> Option<(u64, Seq<u8>)> {
    if exists|at: int| splits_at(text, at) {
        let at = choose|at: int| splits_at(text, at);
        let digits = text.skip(at + 1);
        match slot_of_text(text.take(at)) {
            Some(slot) => if digits.len() == 64 && is_hex_text(digits) {
                Some((slot, hex_bytes(digits)))
            } else {
                None
            },
            None => None,
        }
    } else {
        None
    }
}

/// A text has at most one first `_`.
pub proof fn lemma_split_unique(text: Seq<u8>, a: int, b: int)
    requires
        splits_at(text, a),
        splits_at(text, b),
    ensures
        a == b,
{
    if a < b {
        assert(text[a] != SEPARATOR);
    } else if b < a {
        assert(text[b] != SEPARATOR);
    }
}

/// What makes a text no key: it has no `_`; or the text before its first
/// `_` is no slot; or the text behind it is not exactly 64 hex digits.
pub proof fn lemma_malformed_key(text: Seq<u8>, at: int)
    ensures
        (forall|j: int| 0 <= j < text.len() ==> text[j] != SEPARATOR) ==> key_of_text(text) is None,
        splits_at(text, at) && slot_of_text(text.take(at)) is None ==> key_of_text(text) is None,
        splits_at(text, at) && text.skip(at + 1).len() != 64 ==> key_of_text(text) is None,
        splits_at(text, at) && !is_hex_text(text.skip(at + 1)) ==> key_of_text(text) is None,
        key_of_text(text) is Some ==> exists|i: int| splits_at(text, i),
{
    if exists|i: int| splits_at(text, i) {
        let found = choose|i: int| splits_at(text, i);
        assert(text[found] == SEPARATOR);
        if splits_at(text, at) {
            lemma_split_unique(text, found, at);
        }
    }
}

/// Reading the key that was written for a slot and a 32-byte digest gives
/// both back.
pub proof fn lemma_key_round_trip(slot: u64, hash: Seq<u8>)
    requires
        hash.len() == 32,
    ensures
        key_of_text(key_text(slot, hash)) == Some((slot, hash)),
{
    let head = decimal(slot as nat);
    let digits = hex_lower(hash);
    let text = key_text(slot, hash);
    let at = head.len() as int;
    assert(is_digits(head) && head.len() > 0) by {
        lemma_decimal_value(slot as nat);
    }
    assert(text.len() == at + 1 + digits.len());
    assert(text[at] == SEPARATOR);
    assert forall|j: int| 0 <= j < at implies text[j] != SEPARATOR by {
        assert(text[j] == head[j]);
        assert(48 <= head[j] <= 57);
    }
    assert(splits_at(text, at));
    let found = choose|at: int| splits_at(text, at);
    lemma_split_unique(text, found, at);
    assert(text.take(at) =~= head);
    assert(text.skip(at + 1) =~= digits);
    assert(slot_of_text(head) == Some(slot)) by {
        lemma_slot_round_trip(slot);
    }
    assert(digits.len() == 64 && is_hex_text(digits) && hex_bytes(digits) == hash) by {
        lemma_hex_round_trip(hash);
    }
}

/// A key names one slot and one digest: two keys with the same text were
/// written for the same slot and the same digest.
pub proof fn lemma_key_identifies(slot: u64, hash: Seq<u8>, other_slot: u64, other_hash: Seq<u8>)
    requires
        hash.len() == 32,
        other_hash.len() == 32,
        ascii_text(key_text(slot, hash)) == ascii_text(key_text(other_slot, other_hash)),
    ensures
        slot == other_slot,
        hash == other_hash,
{
    lemma_ascii_text_injective(key_text(slot, hash), key_text(other_slot, other_hash));
    lemma_key_round_trip(slot, hash);
    lemma_key_round_trip(other_slot, other_hash);
}

/// Writes the key for a slot and a digest.
pub fn format_key(slot: u64, hash: &[u8; 32]) -> (key: String)
    ensures
        key@ == ascii_text(key_text(slot, hash@)),
{
    let mut head: Vec<u8> = Vec::new();
    push_decimal(&mut head, slot);
    head.push(SEPARATOR);
    let mut key = String::new();
    push_ascii(&mut key, head.as_slice());
    let digits = encode_lower(hash.as_slice());
    key.append(digits.as_str());
    proof {
        lemma_ascii_text_concat(decimal(slot as nat) + seq![SEPARATOR], hex_lower(hash@));
        assert(head@ =~= decimal(slot as nat) + seq![SEPARATOR]);
        assert(key@ =~= ascii_text(head@) + ascii_text(hex_lower(hash@)));
    }
    key
}

/// Writes the key under which a payload at a slot is published: the key of
/// the slot and of the SHA-256 digest of the payload. The key reads back as
/// that slot and digest.
pub fn record_key(slot: u64, payload: &[u8]) -> (key: String)
    ensures
        key@ == ascii_text(key_text(slot, sha256(payload@))),
        sha256(payload@).len() == 32,
        key_of_text(key_text(slot, sha256(payload@))) == Some((slot, sha256(payload@))),
{
    let hash = sha256_digest(payload);
    proof {
        lemma_key_round_trip(slot, hash@);
    }
    format_key(slot, &hash)
}

/// Reads a key. `None` is returned for every text that is no key.
pub fn parse_key(text: &[u8]) -> (res: Option<SeenKey>)
    ensures
        res is Some <==> key_of_text(text@) is Some,
        res matches Some(key) ==> key_of_text(text@) == Some(key@),
{
    let mut at: usize = 0;
    while at < text.len() && text[at] != SEPARATOR
        invariant
            at <= text.len(),
            forall|j: int| 0 <= j < at ==> text@[j] != SEPARATOR,
        decreases text.len() - at,
    {
        at = at + 1;
    }
    if at == text.len() {
        assert(!exists|i: int| splits_at(text@, i));
        return None;
    }
    proof {
        assert(splits_at(text@, at as int));
        let found = choose|i: int| splits_at(text@, i);
        lemma_split_unique(text@, found, at as int);
    }
    let head = slice_subrange(text, 0, at);
    let digits = slice_subrange(text, at + 1, text.len());
    assert(head@ =~= text@.take(at as int));
    assert(digits@ =~= text@.skip(at + 1));
    let slot = match parse_slot(head) {
        Some(slot) => slot,
        None => {
            return None;
        },
    };
    match decode_hash(digits) {
        Some(hash) => Some(SeenKey { slot, hash }),
        None => None,
    }
}

} // verus!
