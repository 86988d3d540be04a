//! The ingest stage: from the gRPC subscription to Kafka, over a ring of
//! endpoints with fail-over.
//!
//! The stage is a state machine. The program around it performs the action
//! that `action` names, together with a wait for the shutdown signal, for
//! a fatal producer error and, while sends are outstanding, for the end of
//! a send. Whatever happens first is handed to `step` as an event.

use crate::endpoints::{lemma_advance_keeps_inv, EndpointRing, RingState};
use crate::scheduler::{
    lemma_next_keeps_inv, ExitStatus, Phase, Scheduler, SchedulerState, Signal,
};
use crate::update::{Prepared, PublishRecord, RecordView, Update};
use vstd::prelude::*;

verus! {

/// How long the stage sleeps after a failure, in milliseconds.
pub const BACKOFF_MILLIS: u64 = 2000;

/// How long a connection attempt may take, in seconds.
pub const CONNECT_TIMEOUT_SECS: u64 = 10;

/// How long a call to the upstream may take, in seconds.
pub const REQUEST_TIMEOUT_SECS: u64 = 5;

/// Where the link to the upstream stands.
#[derive(Clone, Copy, Debug, PartialEq, Eq, Structural)]
pub enum Link {
    /// A client for the current endpoint is being built.
    Connecting,
    /// The subscription request is under way.
    Subscribing,
    /// The stream is being pumped.
    Streaming,
    /// The stage sleeps before it tries the next endpoint.
    Backoff,
}

/// What happened outside.
#[derive(Debug, PartialEq, Eq)]
pub enum Event {
    /// The client for the current endpoint is built.
    Connected,
    /// No client could be built for the current endpoint.
    ConnectFailed,
    /// The subscription is open.
    Subscribed,
    /// The subscription request failed.
    SubscribeFailed,
    /// The stream yielded an update.
    Update(Update),
    /// The peer closed the stream.
    StreamClosed,
    /// The stream yielded an error.
    StreamError,
    /// The sleep after a failure is over.
    BackoffElapsed,
    /// A send ended, acknowledged or not.
    Settled { delivered: bool },
    /// The shutdown signal arrived.
    Shutdown,
    /// The producer's fatal-error channel fired.
    ProducerFatal,
}

/// What the program around the stage does next.
#[derive(Clone, Copy, Debug, PartialEq, Eq, Structural)]
pub enum Action {
    /// Build a client for the endpoint at this place of the ring, with
    /// these timeouts in seconds for the connection and for each call.
    Connect { endpoint: usize, connect_timeout: u64, request_timeout: u64 },
    /// Issue the subscription request.
    Subscribe,
    /// Take the next item of the stream.
    Receive,
    /// Leave the stream alone until a send has ended.
    Hold,
    /// Sleep for this many milliseconds.
    Sleep { millis: u64 },
    /// Wait for the outstanding sends.
    Drain,
    /// Stop.
    Exit(ExitStatus),
}

/// The sleep after a failure.
pub open spec fn backoff() -> Action {
    Action::Sleep { millis: BACKOFF_MILLIS }
}

/// The attempt on the endpoint at place `cursor` of the ring.
pub open spec fn connect(cursor: nat) -> Action {
    Action::Connect {
        endpoint: cursor as usize,
        connect_timeout: CONNECT_TIMEOUT_SECS,
        request_timeout: REQUEST_TIMEOUT_SECS,
    }
}

/// The action is an attempt to connect.
pub open spec fn connects(action: Action) -> bool {
    action is Connect
}

/// The action ends the stage.
pub open spec fn exits(action: Action) -> bool {
    action is Exit
}

/// The stage as contracts speak of it.
pub struct IngestState {
    pub ring: RingState,
    pub link: Link,
    pub publisher: SchedulerState,
}

impl IngestState {
    /// The stage at its start: the first endpoint is about to be tried and
    /// nothing has been published.
    pub open spec fn initial(endpoints: Seq<Seq<char>>, queue_size: nat) -> IngestState {
        IngestState {
            ring: RingState { endpoints, cursor: 0 },
            link: Link::Connecting,
            publisher: SchedulerState::initial(queue_size),
        }
    }

    /// What holds of every stage: the cursor lies inside the ring and the
    /// publisher keeps its own invariant.
    pub open spec fn inv(self) -> bool {
        self.ring.inv() && self.publisher.inv()
    }

    /// The link is still worked on: neither shutdown nor an error has ended
    /// the stage or begun to.
    pub open spec fn running(self) -> bool {
        self.publisher.phase == Phase::Accepting
    }

    /// An update that arrives now is looked at.
    pub open spec fn receiving(self) -> bool {
        self.running() && self.link == Link::Streaming && self.publisher.has_room()
    }

    /// The event reports that the current attempt on the upstream failed or
    /// ended.
    pub open spec fn fails(self, event: Event) -> bool {
        self.running() && match (self.link, event) {
            (Link::Connecting, Event::ConnectFailed) => true,
            (Link::Subscribing, Event::SubscribeFailed) => true,
            (Link::Streaming, Event::StreamClosed) => true,
            (Link::Streaming, Event::StreamError) => true,
            _ => false,
        }
    }

    /// The record that is handed to the producer on this event, if any.
    pub open spec fn emits(self, event: Event) -> Option<RecordView> {
        match event {
            Event::Update(update) => if self.receiving() {
                update.record()
            } else {
                None
            },
            _ => None,
        }
    }

    /// The stage after an event. An event that the stage does not wait for
    /// leaves it as it is.
    pub open spec fn next(self, event: Event) -> IngestState {
        match event {
            Event::Settled { delivered } => IngestState {
                publisher: self.publisher.next(Signal::Settled { delivered }),
                ..self
            },
            Event::Shutdown => IngestState {
                publisher: self.publisher.next(Signal::Shutdown),
                ..self
            },
            Event::ProducerFatal => IngestState {
                publisher: self.publisher.next(Signal::ProducerFatal),
                ..self
            },
            Event::Update(_) => if self.emits(event) is Some {
                IngestState { publisher: self.publisher.next(Signal::Offer), ..self }
            } else {
                self
            },
            _ => if !self.running() {
                self
            } else if self.fails(event) {
                IngestState { ring: self.ring.advance(), link: Link::Backoff, ..self }
            } else {
                match (self.link, event) {
                    (Link::Connecting, Event::Connected) => IngestState {
                        link: Link::Subscribing,
                        ..self
                    },
                    (Link::Subscribing, Event::Subscribed) => IngestState {
                        link: Link::Streaming,
                        ..self
                    },
                    (Link::Backoff, Event::BackoffElapsed) => IngestState {
                        link: Link::Connecting,
                        ..self
                    },
                    _ => self,
                }
            },
        }
    }

    /// What is done next.
    pub open spec fn action(self) -> Action {
        match self.publisher.phase {
            Phase::Finished => Action::Exit(ExitStatus::Clean),
            Phase::Failed => Action::Exit(ExitStatus::SendFailed),
            Phase::Aborted => Action::Exit(ExitStatus::KafkaFatal),
            Phase::Draining => Action::Drain,
            Phase::Accepting => match self.link {
                Link::Connecting => connect(self.ring.cursor),
                Link::Subscribing => Action::Subscribe,
                Link::Streaming => if self.publisher.has_room() {
                    Action::Receive
                } else {
                    Action::Hold
                },
                Link::Backoff => backoff(),
            },
        }
    }

    /// The stage after a run of events, the first of them first.
    pub open spec fn run(self, events: Seq<Event>) -> IngestState
        decreases events.len(),
    {
        if events.len() == 0 {
            self
        } else {
            self.run(events.drop_last()).next(events.last())
        }
    }
}

/// No event breaks what holds of every stage, and none changes the ring's
/// endpoints or the ceiling on outstanding sends.
pub proof fn lemma_next_keeps_ingest_inv(state: IngestState, event: Event)
    requires
        state.inv(),
    ensures
        state.next(event).inv(),
        state.next(event).ring.endpoints == state.ring.endpoints,
        state.next(event).publisher.queue_size == state.publisher.queue_size,
{
    lemma_advance_keeps_inv(state.ring);
    lemma_next_keeps_inv(state.publisher, Signal::Offer);
    lemma_next_keeps_inv(state.publisher, Signal::Shutdown);
    lemma_next_keeps_inv(state.publisher, Signal::ProducerFatal);
    match event {
        Event::Settled { delivered } => {
            lemma_next_keeps_inv(state.publisher, Signal::Settled { delivered });
        },
        _ => {},
    }
}

/// Whatever happens, the cursor lies inside the ring and no more sends are
/// outstanding than the ceiling allows.
pub proof fn lemma_ingest_always(endpoints: Seq<Seq<char>>, queue_size: nat, events: Seq<Event>)
    requires
        endpoints.len() > 0,
    ensures
        IngestState::initial(endpoints, queue_size).run(events).inv(),
        IngestState::initial(endpoints, queue_size).run(events).ring.endpoints == endpoints,
        IngestState::initial(endpoints, queue_size).run(events).ring.cursor < endpoints.len(),
        IngestState::initial(endpoints, queue_size).run(events).publisher.queue_size == queue_size,
        IngestState::initial(endpoints, queue_size).run(events).publisher.in_flight <= queue_size,
    decreases events.len(),
{
    if events.len() > 0 {
        lemma_ingest_always(endpoints, queue_size, events.drop_last());
        lemma_next_keeps_ingest_inv(
            IngestState::initial(endpoints, queue_size).run(events.drop_last()),
            events.last(),
        );
    }
}

/// After a failure the stage backs off, and the attempt that follows the
/// sleep goes to the next endpoint of the ring: the one at `(cursor + 1)
/// mod N`. Any other event leaves the cursor where it is.
pub proof fn lemma_failure_rotates_once(state: IngestState, event: Event)
    requires
        state.inv(),
    ensures
        state.fails(event) ==> state.next(event).ring.cursor == (state.ring.cursor + 1) as int % (
        state.ring.endpoints.len() as int),
        state.fails(event) ==> state.next(event).action() == backoff(),
        state.fails(event) ==> state.next(event).next(Event::BackoffElapsed).action() == connect(
            state.next(event).ring.cursor,
        ),
        !state.fails(event) ==> state.next(event).ring == state.ring,
{
}

/// With a single endpoint a failure leaves the ring as it is, and the
/// stage still sleeps before it tries that endpoint again.
pub proof fn lemma_single_endpoint_backs_off(state: IngestState, event: Event)
    requires
        state.inv(),
        state.ring.endpoints.len() == 1,
        state.fails(event),
    ensures
        state.next(event).ring == state.ring,
        state.next(event).link == Link::Backoff,
        state.next(event).action() == backoff(),
{
    lemma_advance_keeps_inv(state.ring);
}

/// Shutdown ends the work on the link at once, wherever it stands: what
/// is left to do is to wait for outstanding sends or to stop, and with
/// nothing outstanding the stage stops cleanly.
pub proof fn lemma_shutdown_leaves_link(state: IngestState)
    requires
        state.inv(),
    ensures
        !state.next(Event::Shutdown).running(),
        state.next(Event::Shutdown).action() == Action::Drain || exits(
            state.next(Event::Shutdown).action(),
        ),
        state.running() && state.publisher.in_flight == 0 ==> state.next(
            Event::Shutdown,
        ).action() == Action::Exit(ExitStatus::Clean),
{
}

/// Once the link is no longer worked on it never is again: no event brings
/// another attempt, another sleep or another record.
pub proof fn lemma_stopped_stays_stopped(state: IngestState, event: Event)
    requires
        state.inv(),
        !state.running(),
    ensures
        !state.next(event).running(),
        state.next(event).ring == state.ring,
        state.next(event).link == state.link,
        state.emits(event) is None,
        state.next(event).publisher.accepted == state.publisher.accepted,
{
}

/// A ping or a pong never leaves a record.
pub proof fn lemma_heartbeat_emits_nothing(state: IngestState)
    ensures
        state.emits(Event::Update(Update::Ping)) is None,
        state.emits(Event::Update(Update::Pong)) is None,
        state.next(Event::Update(Update::Ping)) == state,
        state.next(Event::Update(Update::Pong)) == state,
{
}

/// The record that is published for an update depends on the update alone:
/// whenever the stage takes it, the same slot and payload give the same
/// key and the same payload.
pub proof fn lemma_same_update_same_record(
    first: IngestState,
    second: IngestState,
    update: Update,
    again: Update,
)
    requires
        first.receiving(),
        second.receiving(),
        update.spec_slot() == again.spec_slot(),
        update.spec_payload() == again.spec_payload(),
    ensures
        first.emits(Event::Update(update)) == second.emits(Event::Update(again)),
{
}

/// The ingest stage.
#[derive(Debug)]
pub struct Ingest {
    ring: EndpointRing,
    link: Link,
    publisher: Scheduler,
}

impl View for Ingest {
    type V = IngestState;

    closed spec fn view(&self) -> IngestState {
        IngestState { ring: self.ring@, link: self.link, publisher: self.publisher@ }
    }
}

impl Ingest {
    /// A stage over the endpoints of a comma-separated list that lets at
    /// most `queue_size` sends be outstanding.
    pub fn new(endpoint_list: &str, queue_size: usize) -> (stage: Ingest)
        ensures
            stage@ == IngestState::initial(
                crate::endpoints::endpoint_list(endpoint_list@),
                queue_size as nat,
            ),
            stage@.inv(),
    {
        Ingest {
            ring: EndpointRing::parse(endpoint_list),
            link: Link::Connecting,
            publisher: Scheduler::new(queue_size),
        }
    }

    /// The ring of endpoints.
    pub fn ring(&self) -> (ring: &EndpointRing)
        ensures
            ring@ == self@.ring,
    {
        &self.ring
    }

    /// The publish scheduler.
    pub fn publisher(&self) -> (publisher: &Scheduler)
        ensures
            publisher@ == self@.publisher,
    {
        &self.publisher
    }

    /// Where the link stands.
    pub fn link(&self) -> (link: Link)
        ensures
            link == self@.link,
    {
        self.link
    }

    /// The endpoint that is tried next.
    pub fn endpoint(&self) -> (endpoint: &String)
        ensures
            endpoint@ == self@.ring.current(),
    {
        self.ring.current()
    }

    /// Whether the end of a send is to be waited for beside the action.
    pub fn awaits_completion(&self) -> (waits: bool)
        ensures
            waits == self@.publisher.awaits_completion(),
    {
        self.publisher.awaits_completion()
    }

    /// What is to be done next.
    pub fn action(&self) -> (action: Action)
        ensures
            action == self@.action(),
            self@.inv(),
            action == connect(self@.ring.cursor) || !connects(action),
            self@.ring.cursor < self@.ring.endpoints.len(),
    {
        let cursor = self.ring.cursor();
        match self.publisher.phase() {
            Phase::Finished => Action::Exit(ExitStatus::Clean),
            Phase::Failed => Action::Exit(ExitStatus::SendFailed),
            Phase::Aborted => Action::Exit(ExitStatus::KafkaFatal),
            Phase::Draining => Action::Drain,
            Phase::Accepting => match self.link {
                Link::Connecting => Action::Connect {
                    endpoint: cursor,
                    connect_timeout: CONNECT_TIMEOUT_SECS,
                    request_timeout: REQUEST_TIMEOUT_SECS,
                },
                Link::Subscribing => Action::Subscribe,
                Link::Streaming => if self.publisher.has_room() {
                    Action::Receive
                } else {
                    Action::Hold
                },
                Link::Backoff => Action::Sleep { millis: BACKOFF_MILLIS },
            },
        }
    }

    /// Takes in what happened and returns the record to hand to the
    /// producer, if the event was an update that is published.
    pub fn step(&mut self, event: Event) -> (record: Option<PublishRecord>)
        ensures
            final(self)@ == old(self)@.next(event),
            final(self)@.inv(),
            match record {
                Some(r) => old(self)@.emits(event) == Some(r@),
                None => old(self)@.emits(event) is None,
            },
    {
        let _ = self.ring.cursor();
        let running = matches!(self.publisher.phase(), Phase::Accepting);
        proof {
            lemma_next_keeps_ingest_inv(self@, event);
        }
        match event {
            Event::Settled { delivered } => {
                self.publisher.settle(delivered);
                None
            },
            Event::Shutdown => {
                self.publisher.shutdown();
                None
            },
            Event::ProducerFatal => {
                self.publisher.producer_fatal();
                None
            },
            Event::Update(update) => {
                if running && matches!(self.link, Link::Streaming) && self.publisher.has_room() {
                    match update.prepare() {
                        Prepared::Publish(record) => {
                            let _ = self.publisher.offer();
                            Some(record)
                        },
                        Prepared::Drop(_) => None,
                    }
                } else {
                    None
                }
            },
            Event::Connected => {
                if running && matches!(self.link, Link::Connecting) {
                    self.link = Link::Subscribing;
                }
                None
            },
            Event::Subscribed => {
                if running && matches!(self.link, Link::Subscribing) {
                    self.link = Link::Streaming;
                }
                None
            },
            Event::BackoffElapsed => {
                if running && matches!(self.link, Link::Backoff) {
                    self.link = Link::Connecting;
                }
                None
            },
            Event::ConnectFailed => {
                if running && matches!(self.link, Link::Connecting) {
                    self.back_off();
                }
                None
            },
            Event::SubscribeFailed => {
                if running && matches!(self.link, Link::Subscribing) {
                    self.back_off();
                }
                None
            },
            Event::StreamClosed => {
                if running && matches!(self.link, Link::Streaming) {
                    self.back_off();
                }
                None
            },
            Event::StreamError => {
                if running && matches!(self.link, Link::Streaming) {
                    self.back_off();
                }
                None
            },
        }
    }

    /// Moves the cursor on and begins the sleep.
    fn back_off(&mut self)
        ensures
            final(self)@ == (IngestState {
                ring: old(self)@.ring.advance(),
                link: Link::Backoff,
                ..old(self)@
            }),
    {
        self.ring.advance();
        self.link = Link::Backoff;
    }
}

} // verus!
