//! The deduplication stage: messages are consumed from one topic, and those
//! that the backend has not seen are published to another.

use crate::backend::{DedupBackend, KeyView};
use crate::key::{key_of_text, parse_key, SeenKey};
use crate::scheduler::{
    lemma_next_keeps_inv, ExitStatus, Phase, Scheduler, SchedulerState, Signal,
};
use crate::text::{ascii_text, push_ascii};
use crate::update::{PublishRecord, RecordView, UpdateKind};
use vstd::prelude::*;
use vstd::slice::slice_to_vec;

verus! {

/// What happened outside.
#[derive(Debug, PartialEq, Eq)]
pub enum Arrival {
    /// The consumer yielded a message.
    Message { key: Option<Vec<u8>>, payload: Option<Vec<u8>> },
    /// The consumer yielded an error.
    ReceiveFailed,
    /// A send ended, acknowledged or not.
    Settled { delivered: bool },
    /// The shutdown signal arrived.
    Shutdown,
    /// The fatal-error channel of the consumer or of the producer fired.
    KafkaFatal,
}

/// What came of an arrival.
#[derive(Debug, PartialEq, Eq)]
pub enum Verdict {
    /// Nothing to report: the arrival was no message, or the stage was not
    /// taking messages.
    Idle,
    /// The message has no key, no payload, or a key that is none.
    Skipped,
    /// The backend has seen the key before: the message is dropped and
    /// counted as a duplicate.
    Duplicate,
    /// The record to hand to the producer.
    Publish(PublishRecord),
}

/// What the program around the stage does next.
#[derive(Clone, Copy, Debug, PartialEq, Eq, Structural)]
pub enum DedupAction {
    /// Take the next message from the consumer.
    Receive,
    /// Leave the consumer alone until a send has ended.
    Hold,
    /// Wait for the outstanding sends.
    Drain,
    /// Stop.
    Exit(ExitStatus),
}

/// The bytes behind an optional vector.
pub open spec fn bytes_of(bytes: Option<Vec<u8>>) -> Option<Seq<u8>> {
    match bytes {
        Some(b) => Some(b@),
        None => None,
    }
}

/// What a message asks the backend about, and the record that is published
/// for it if the backend allows: the message under its own key, with an
/// unknown kind. A message without key or payload, or with a key that is
/// none, asks nothing.
pub open spec fn candidate(key: Option<Seq<u8>>, payload: Option<Seq<u8>>) -> Option<
    (KeyView, RecordView),
> {
    match (key, payload) {
        (Some(key), Some(payload)) => match key_of_text(key) {
            Some(seen) => Some(
                (seen, RecordView { key: ascii_text(key), payload, kind: UpdateKind::Unknown }),
            ),
            None => None,
        },
        _ => None,
    }
}

/// Looks at a message: its key is read, and the record to republish is put
/// together.
pub fn examine(key: Option<&[u8]>, payload: Option<&[u8]>) -> (res: Option<
    (SeenKey, PublishRecord),
>)
    ensures
        match res {
            Some((seen, record)) => key is Some && payload is Some && candidate(
                Some(key.unwrap()@),
                Some(payload.unwrap()@),
            ) == Some((seen@, record@)),
            None => key is None || payload is None || candidate(
                Some(key.unwrap()@),
                Some(payload.unwrap()@),
            ) is None,
        },
{
    match (key, payload) {
        (Some(key), Some(payload)) => match parse_key(key) {
            Some(seen) => {
                let mut text = String::new();
                push_ascii(&mut text, key);
                assert(text@ =~= ascii_text(key@));
                let record = PublishRecord {
                    key: text,
                    payload: slice_to_vec(payload),
                    kind: UpdateKind::Unknown,
                };
                Some((seen, record))
            },
            None => None,
        },
        _ => None,
    }
}

/// The stage as contracts speak of it.
pub struct DedupState<B> {
    pub backend: B,
    pub publisher: SchedulerState,
    /// The consumer has failed, which ended the stage.
    pub consumer_failed: bool,
}

impl<B: DedupBackend> DedupState<B> {
    /// What holds of every stage.
    pub open spec fn inv(self) -> bool {
        self.backend.wf() && self.publisher.inv()
    }

    /// A message that arrives now is looked at.
    pub open spec fn receiving(self) -> bool {
        !self.consumer_failed && self.publisher.has_room()
    }

    /// Messages are still consumed.
    pub open spec fn running(self) -> bool {
        !self.consumer_failed && self.publisher.phase == Phase::Accepting
    }

    /// The stage with its publisher after a signal.
    pub open spec fn signalled(self, signal: Signal) -> DedupState<B> {
        if self.consumer_failed {
            self
        } else {
            DedupState { publisher: self.publisher.next(signal), ..self }
        }
    }

    /// From this state the arrival may lead to `after` with `verdict`.
    /// Everything but the backend's answer is fixed by the state and the
    /// arrival.
    pub open spec fn steps(self, arrival: Arrival, after: DedupState<B>, verdict: Verdict) -> bool {
        match arrival {
            Arrival::Message { key, payload } => if !self.receiving() {
                after == self && verdict is Idle
            } else {
                match candidate(bytes_of(key), bytes_of(payload)) {
                    None => after == self && verdict is Skipped,
                    Some((seen, record)) => match verdict {
                        Verdict::Publish(published) => {
                            &&& published@ == record
                            &&& self.backend.answers(seen, &after.backend, true)
                            &&& after.publisher == self.publisher.next(Signal::Offer)
                            &&& after.consumer_failed == self.consumer_failed
                        },
                        Verdict::Duplicate => {
                            &&& self.backend.answers(seen, &after.backend, false)
                            &&& after.publisher == self.publisher
                            &&& after.consumer_failed == self.consumer_failed
                        },
                        _ => false,
                    },
                }
            },
            Arrival::ReceiveFailed => verdict is Idle && after == if self.running() {
                DedupState { consumer_failed: true, ..self }
            } else {
                self
            },
            Arrival::Settled { delivered } => verdict is Idle && after == self.signalled(
                Signal::Settled { delivered },
            ),
            Arrival::Shutdown => verdict is Idle && after == self.signalled(Signal::Shutdown),
            Arrival::KafkaFatal => verdict is Idle && after == self.signalled(
                Signal::ProducerFatal,
            ),
        }
    }

    /// What is done next.
    pub open spec fn action(self) -> DedupAction {
        if self.consumer_failed {
            DedupAction::Exit(ExitStatus::ReceiveFailed)
        } else {
            match self.publisher.phase {
                Phase::Finished => DedupAction::Exit(ExitStatus::Clean),
                Phase::Failed => DedupAction::Exit(ExitStatus::SendFailed),
                Phase::Aborted => DedupAction::Exit(ExitStatus::KafkaFatal),
                Phase::Draining => DedupAction::Drain,
                Phase::Accepting => if self.publisher.has_room() {
                    DedupAction::Receive
                } else {
                    DedupAction::Hold
                },
            }
        }
    }
}

/// Whatever arrives, no more sends are outstanding afterwards than the
/// ceiling allows, and the ceiling stays what it was.
pub proof fn lemma_steps_keep_ceiling<B: DedupBackend>(
    state: DedupState<B>,
    arrival: Arrival,
    after: DedupState<B>,
    verdict: Verdict,
)
    requires
        state.publisher.inv(),
        state.steps(arrival, after, verdict),
    ensures
        after.publisher.inv(),
        after.publisher.queue_size == state.publisher.queue_size,
        after.publisher.in_flight <= after.publisher.queue_size,
{
    lemma_next_keeps_inv(state.publisher, Signal::Offer);
    lemma_next_keeps_inv(state.publisher, Signal::Shutdown);
    lemma_next_keeps_inv(state.publisher, Signal::ProducerFatal);
    match arrival {
        Arrival::Settled { delivered } => {
            lemma_next_keeps_inv(state.publisher, Signal::Settled { delivered });
        },
        _ => {},
    }
}

/// A message is republished at most once while its key stays inside the
/// backend's retention window: whenever a record is published, the backend
/// did not hold its key.
pub proof fn lemma_published_was_unseen<B: DedupBackend>(
    state: DedupState<B>,
    key: Option<Vec<u8>>,
    payload: Option<Vec<u8>>,
    after: DedupState<B>,
    record: PublishRecord,
    seen: KeyView,
)
    requires
        state.inv(),
        state.steps(Arrival::Message { key, payload }, after, Verdict::Publish(record)),
        key_of_text(key.unwrap()@) == Some(seen),
    ensures
        state.receiving(),
        candidate(bytes_of(key), bytes_of(payload)) is Some,
        !state.backend.retained().contains(seen),
        record@.key == ascii_text(key.unwrap()@),
        record@.payload == payload.unwrap()@,
        record@.kind == UpdateKind::Unknown,
{
    state.backend.lemma_first_only_once(seen, &after.backend);
}

/// A message whose key is none is dropped and changes nothing: nothing is
/// asked of the backend and no count moves.
pub proof fn lemma_malformed_is_skipped<B: DedupBackend>(
    state: DedupState<B>,
    key: Option<Vec<u8>>,
    payload: Option<Vec<u8>>,
    after: DedupState<B>,
    verdict: Verdict,
)
    requires
        state.steps(Arrival::Message { key, payload }, after, verdict),
        key is None || payload is None || key_of_text(key.unwrap()@) is None,
    ensures
        after == state,
        verdict is Skipped || verdict is Idle,
{
}

/// The deduplication stage over a backend.
#[derive(Debug)]
pub struct Dedup<B: DedupBackend> {
    backend: B,
    publisher: Scheduler,
    consumer_failed: bool,
}

impl<B: DedupBackend> View for Dedup<B> {
    type V = DedupState<B>;

    closed spec fn view(&self) -> DedupState<B> {
        DedupState {
            backend: self.backend,
            publisher: self.publisher@,
            consumer_failed: self.consumer_failed,
        }
    }
}

impl<B: DedupBackend> Dedup<B> {
    /// A stage over `backend` that lets at most `queue_size` sends be
    /// outstanding.
    pub fn new(backend: B, queue_size: usize) -> (stage: Dedup<B>)
        requires
            backend.wf(),
        ensures
            stage@.backend == backend,
            stage@.publisher == SchedulerState::initial(queue_size as nat),
            !stage@.consumer_failed,
            stage@.inv(),
    {
        Dedup { backend, publisher: Scheduler::new(queue_size), consumer_failed: false }
    }

    /// The backend.
    pub fn backend(&self) -> (backend: &B)
        ensures
            *backend == self@.backend,
    {
        &self.backend
    }

    /// The publish scheduler.
    pub fn publisher(&self) -> (publisher: &Scheduler)
        ensures
            publisher@ == self@.publisher,
    {
        &self.publisher
    }

    /// Whether the end of a send is to be waited for beside the action.
    pub fn awaits_completion(&self) -> (waits: bool)
        ensures
            waits == (!self@.consumer_failed && self@.publisher.awaits_completion()),
    {
        !self.consumer_failed && self.publisher.awaits_completion()
    }

    /// What is to be done next.
    pub fn action(&self) -> (action: DedupAction)
        ensures
            action == self@.action(),
            self@.publisher.inv(),
    {
        let phase = self.publisher.phase();
        if self.consumer_failed {
            return DedupAction::Exit(ExitStatus::ReceiveFailed);
        }
        match phase {
            Phase::Finished => DedupAction::Exit(ExitStatus::Clean),
            Phase::Failed => DedupAction::Exit(ExitStatus::SendFailed),
            Phase::Aborted => DedupAction::Exit(ExitStatus::KafkaFatal),
            Phase::Draining => DedupAction::Drain,
            Phase::Accepting => if self.publisher.has_room() {
                DedupAction::Receive
            } else {
                DedupAction::Hold
            },
        }
    }

    /// Takes in what happened. For a message that the stage looks at, the
    /// backend is asked about its key, and the answer decides between
    /// publishing and dropping.
    pub fn step(&mut self, arrival: Arrival) -> (verdict: Verdict)
        requires
            old(self)@.backend.wf(),
        ensures
            old(self)@.steps(arrival, final(self)@, verdict),
            final(self)@.inv(),
            verdict is Publish ==> arrival is Message && !old(self)@.backend.retained().contains(
                candidate(
                    bytes_of(arrival->key),
                    bytes_of(arrival->payload),
                ).unwrap().0,
            ),
    {
        let _ = self.publisher.phase();
        if self.consumer_failed {
            return Verdict::Idle;
        }
        match arrival {
            Arrival::Message { key, payload } => {
                if !self.publisher.has_room() {
                    return Verdict::Idle;
                }
                let looked = examine(
                    match &key {
                        Some(k) => Some(k.as_slice()),
                        None => None,
                    },
                    match &payload {
                        Some(p) => Some(p.as_slice()),
                        None => None,
                    },
                );
                match looked {
                    None => Verdict::Skipped,
                    Some((seen, record)) => {
                        let ghost before = self.backend;
                        if self.backend.allowed(seen.slot, &seen.hash) {
                            proof {
                                before.lemma_first_only_once(seen@, &self.backend);
                            }
                            let _ = self.publisher.offer();
                            Verdict::Publish(record)
                        } else {
                            Verdict::Duplicate
                        }
                    },
                }
            },
            Arrival::ReceiveFailed => {
                if matches!(self.publisher.phase(), Phase::Accepting) {
                    self.consumer_failed = true;
                }
                Verdict::Idle
            },
            Arrival::Settled { delivered } => {
                self.publisher.settle(delivered);
                Verdict::Idle
            },
            Arrival::Shutdown => {
                self.publisher.shutdown();
                Verdict::Idle
            },
            Arrival::KafkaFatal => {
                self.publisher.producer_fatal();
                Verdict::Idle
            },
        }
    }
}

} // verus!
