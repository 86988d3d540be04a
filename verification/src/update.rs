//! Updates of the upstream feed and the records that are published for them.

use crate::digest::sha256;
use crate::key::{key_text, record_key};
use crate::text::ascii_text;
use vstd::prelude::*;

verus! {

/// The kind of an update, as the counters of sent records tell them apart.
#[derive(Clone, Copy, Debug, PartialEq, Eq, Structural)]
pub enum UpdateKind {
    Account,
    Slot,
    Transaction,
    TransactionStatus,
    Block,
    Ping,
    Pong,
    BlockMeta,
    Entry,
    Unknown,
}

/// What came of the transaction that an update carries.
#[derive(Clone, Debug, PartialEq, Eq)]
pub enum TransactionBody {
    /// The update carries no transaction.
    Absent,
    /// The transaction could not be decoded.
    Undecodable,
    /// The decoded transaction, serialised as JSON.
    Json(Vec<u8>),
}

/// One event of the upstream subscription.
#[derive(Clone, Debug, PartialEq, Eq)]
pub enum Update {
    Account { slot: u64 },
    Slot { slot: u64 },
    Transaction { slot: u64, body: TransactionBody },
    TransactionStatus { slot: u64 },
    Block { slot: u64 },
    BlockMeta { slot: u64 },
    Entry { slot: u64 },
    Ping,
    Pong,
}

/// A message for Kafka.
#[derive(Clone, Debug, PartialEq, Eq)]
pub struct PublishRecord {
    pub key: String,
    pub payload: Vec<u8>,
    pub kind: UpdateKind,
}

/// A record as contracts speak of it.
pub struct RecordView {
    pub key: Seq<char>,
    pub payload: Seq<u8>,
    pub kind: UpdateKind,
}

impl View for PublishRecord {
    type V = RecordView;

    open spec fn view(&self) -> RecordView {
        RecordView { key: self.key@, payload: self.payload@, kind: self.kind }
    }
}

/// Why an update leaves no record.
#[derive(Clone, Copy, Debug, PartialEq, Eq, Structural)]
pub enum Discard {
    /// A ping or a pong.
    Heartbeat,
    /// An update of a kind that is not published.
    NotPublished,
    /// A transaction update without a transaction.
    NoTransaction,
    /// A transaction that could not be decoded; worth a warning.
    Undecodable,
}

/// What is done with an update.
#[derive(Clone, Debug, PartialEq, Eq)]
pub enum Prepared {
    /// The record to publish.
    Publish(PublishRecord),
    /// Nothing is published.
    Drop(Discard),
}

impl Update {
    /// The kind of this update.
    pub open spec fn spec_kind(&self) -> UpdateKind {
        match self {
            Update::Account { .. } => UpdateKind::Account,
            Update::Slot { .. } => UpdateKind::Slot,
            Update::Transaction { .. } => UpdateKind::Transaction,
            Update::TransactionStatus { .. } => UpdateKind::TransactionStatus,
            Update::Block { .. } => UpdateKind::Block,
            Update::BlockMeta { .. } => UpdateKind::BlockMeta,
            Update::Entry { .. } => UpdateKind::Entry,
            Update::Ping => UpdateKind::Ping,
            Update::Pong => UpdateKind::Pong,
        }
    }

    /// The slot of this update; a ping or a pong has none.
    pub open spec fn spec_slot(&self) -> Option<u64> {
        match self {
            Update::Account { slot } => Some(*slot),
            Update::Slot { slot } => Some(*slot),
            Update::Transaction { slot, .. } => Some(*slot),
            Update::TransactionStatus { slot } => Some(*slot),
            Update::Block { slot } => Some(*slot),
            Update::BlockMeta { slot } => Some(*slot),
            Update::Entry { slot } => Some(*slot),
            Update::Ping => None,
            Update::Pong => None,
        }
    }

    /// The payload that is published for this update: the JSON of a decoded
    /// transaction, and nothing for any other update.
    pub open spec fn spec_payload(&self) -> Option<Seq<u8>> {
        match self {
            Update::Transaction { body: TransactionBody::Json(json), .. } => Some(json@),
            _ => None,
        }
    }

    /// The record that is published for this update, if one is.
    pub open spec fn record(&self) -> Option<RecordView> {
        match (self.spec_slot(), self.spec_payload()) {
            (Some(slot), Some(payload)) => Some(
                RecordView {
                    key: ascii_text(key_text(slot, sha256(payload))),
                    payload,
                    kind: self.spec_kind(),
                },
            ),
            _ => None,
        }
    }

    /// Why this update leaves no record, if it leaves none.
    pub open spec fn discard(&self) -> Option<Discard> {
        match self {
            Update::Ping => Some(Discard::Heartbeat),
            Update::Pong => Some(Discard::Heartbeat),
            Update::Transaction { body: TransactionBody::Json(_), .. } => None,
            Update::Transaction { body: TransactionBody::Absent, .. } => Some(
                Discard::NoTransaction,
            ),
            Update::Transaction { body: TransactionBody::Undecodable, .. } => Some(
                Discard::Undecodable,
            ),
            _ => Some(Discard::NotPublished),
        }
    }

    #[verifier::when_used_as_spec(spec_kind)]
    pub fn kind(&self) -> (kind: UpdateKind)
        ensures
            kind == self.spec_kind(),
    {
        match self {
            Update::Account { .. } => UpdateKind::Account,
            Update::Slot { .. } => UpdateKind::Slot,
            Update::Transaction { .. } => UpdateKind::Transaction,
            Update::TransactionStatus { .. } => UpdateKind::TransactionStatus,
            Update::Block { .. } => UpdateKind::Block,
            Update::BlockMeta { .. } => UpdateKind::BlockMeta,
            Update::Entry { .. } => UpdateKind::Entry,
            Update::Ping => UpdateKind::Ping,
            Update::Pong => UpdateKind::Pong,
        }
    }

    #[verifier::when_used_as_spec(spec_slot)]
    pub fn slot(&self) -> (slot: Option<u64>)
        ensures
            slot == self.spec_slot(),
    {
        match self {
            Update::Account { slot } => Some(*slot),
            Update::Slot { slot } => Some(*slot),
            Update::Transaction { slot, .. } => Some(*slot),
            Update::TransactionStatus { slot } => Some(*slot),
            Update::Block { slot } => Some(*slot),
            Update::BlockMeta { slot } => Some(*slot),
            Update::Entry { slot } => Some(*slot),
            Update::Ping => None,
            Update::Pong => None,
        }
    }

    /// Turns the update into the record to publish, or says why there is
    /// none. Only a decoded transaction is published: its JSON is the
    /// payload, and the key is written from its slot and the digest of that
    /// payload.
    pub fn prepare(self) -> (res: Prepared)
        ensures
            match res {
                Prepared::Publish(record) => self.record() == Some(record@),
                Prepared::Drop(reason) => self.record() is None && self.discard() == Some(reason),
            },
    {
        match self {
            Update::Ping => Prepared::Drop(Discard::Heartbeat),
            Update::Pong => Prepared::Drop(Discard::Heartbeat),
            Update::Transaction { slot, body } => match body {
                TransactionBody::Json(payload) => {
                    let key = record_key(slot, payload.as_slice());
                    Prepared::Publish(PublishRecord { key, payload, kind: UpdateKind::Transaction })
                },
                TransactionBody::Absent => Prepared::Drop(Discard::NoTransaction),
                TransactionBody::Undecodable => Prepared::Drop(Discard::Undecodable),
            },
            _ => Prepared::Drop(Discard::NotPublished),
        }
    }
}

/// A ping or a pong is never published.
pub proof fn lemma_heartbeat_not_published(update: Update)
    requires
        update.spec_kind() == UpdateKind::Ping || update.spec_kind() == UpdateKind::Pong,
    ensures
        update.record() is None,
{
}

/// Every record that is published is the record of a transaction, and its
/// key is written from the update's slot and the digest of the record's own
/// payload.
pub proof fn lemma_record_key(update: Update, record: RecordView)
    requires
        update.record() == Some(record),
    ensures
        update.spec_slot() is Some,
        update.spec_kind() == UpdateKind::Transaction,
        record.key == ascii_text(key_text(update.spec_slot().unwrap(), sha256(record.payload))),
{
}

} // verus!
