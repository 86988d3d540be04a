//! The bounded publish scheduler: how many sends may be outstanding, and
//! what is owed before the pipeline may stop.

use vstd::prelude::*;

verus! {

/// Where the scheduler stands.
#[derive(Clone, Copy, Debug, PartialEq, Eq, Structural)]
pub enum Phase {
    /// Records are taken while there is room.
    Accepting,
    /// Shutdown was seen: nothing is taken, outstanding sends are awaited.
    Draining,
    /// Shutdown was seen and every outstanding send was acknowledged.
    Finished,
    /// A send failed; the pipeline stops with that error.
    Failed,
    /// The producer reported a fatal error; outstanding sends are given up.
    Aborted,
}

/// What happens to the scheduler.
#[derive(Clone, Copy, Debug, PartialEq, Eq, Structural)]
pub enum Signal {
    /// A record is offered for publishing.
    Offer,
    /// An outstanding send ended, acknowledged or not.
    Settled { delivered: bool },
    /// The shutdown signal arrived.
    Shutdown,
    /// The producer's fatal-error channel fired.
    ProducerFatal,
}

/// How a stage ends.
#[derive(Clone, Copy, Debug, PartialEq, Eq, Structural)]
pub enum ExitStatus {
    /// Shutdown was asked for and every outstanding send was acknowledged.
    Clean,
    /// A send failed.
    SendFailed,
    /// A Kafka client reported a fatal error.
    KafkaFatal,
    /// The consumer failed to yield a message.
    ReceiveFailed,
    /// The gRPC server ended with an error.
    ServerFailed,
}

/// The scheduler as contracts speak of it.
pub struct SchedulerState {
    /// The ceiling on outstanding sends.
    pub queue_size: nat,
    /// Sends that were started and have not ended.
    pub in_flight: nat,
    /// Records taken so far.
    pub accepted: nat,
    /// Sends that Kafka acknowledged.
    pub acknowledged: nat,
    /// Sends that ended in an error.
    pub failed: nat,
    pub phase: Phase,
}

/// The largest count of accepted records that the scheduler can keep.
pub open spec fn accepted_limit() -> nat {
    u64::MAX as nat
}

impl SchedulerState {
    /// A fresh scheduler with the given ceiling.
    pub open spec fn initial(queue_size: nat) -> SchedulerState {
        SchedulerState {
            queue_size,
            in_flight: 0,
            accepted: 0,
            acknowledged: 0,
            failed: 0,
            phase: Phase::Accepting,
        }
    }

    /// What holds of every scheduler: the ceiling is kept, every accepted
    /// record is acknowledged, failed or still outstanding, and the phase
    /// agrees with the counts.
    pub open spec fn inv(self) -> bool {
        &&& self.in_flight <= self.queue_size
        &&& self.accepted == self.acknowledged + self.failed + self.in_flight
        &&& self.accepted <= accepted_limit()
        &&& self.phase == Phase::Finished ==> self.in_flight == 0
        &&& self.phase == Phase::Draining ==> self.in_flight > 0
        &&& self.failed > 0 <==> self.phase == Phase::Failed
    }

    /// A record that is offered now is taken: the scheduler is accepting,
    /// fewer sends than the ceiling are outstanding, and the 64-bit count of
    /// accepted records has not run out.
    pub open spec fn has_room(self) -> bool {
        &&& self.phase == Phase::Accepting
        &&& self.in_flight < self.queue_size
        &&& self.accepted < accepted_limit()
    }

    /// The end of a send is awaited.
    pub open spec fn awaits_completion(self) -> bool {
        &&& self.in_flight > 0
        &&& (self.phase == Phase::Accepting || self.phase == Phase::Draining)
    }

    /// Nothing more will happen.
    pub open spec fn stopped(self) -> bool {
        self.phase == Phase::Finished || self.phase == Phase::Failed || self.phase
            == Phase::Aborted
    }

    /// The scheduler after a signal. A signal that the scheduler does not
    /// wait for leaves it as it is.
    pub open spec fn next(self, signal: Signal) -> SchedulerState {
        match signal {
            Signal::Offer => if self.has_room() {
                SchedulerState {
                    in_flight: self.in_flight + 1,
                    accepted: self.accepted + 1,
                    ..self
                }
            } else {
                self
            },
            Signal::Settled { delivered } => if !self.awaits_completion() {
                self
            } else if !delivered {
                SchedulerState {
                    in_flight: (self.in_flight - 1) as nat,
                    failed: self.failed + 1,
                    phase: Phase::Failed,
                    ..self
                }
            } else {
                SchedulerState {
                    in_flight: (self.in_flight - 1) as nat,
                    acknowledged: self.acknowledged + 1,
                    phase: if self.phase == Phase::Draining && self.in_flight == 1 {
                        Phase::Finished
                    } else {
                        self.phase
                    },
                    ..self
                }
            },
            Signal::Shutdown => if self.phase == Phase::Accepting {
                SchedulerState {
                    phase: if self.in_flight == 0 {
                        Phase::Finished
                    } else {
                        Phase::Draining
                    },
                    ..self
                }
            } else {
                self
            },
            Signal::ProducerFatal => if self.stopped() {
                self
            } else {
                SchedulerState { phase: Phase::Aborted, ..self }
            },
        }
    }

    /// The scheduler after a run of signals, the first of them first.
    pub open spec fn run(self, signals: Seq<Signal>) -> SchedulerState
        decreases signals.len(),
    {
        if signals.len() == 0 {
            self
        } else {
            self.run(signals.drop_last()).next(signals.last())
        }
    }
}

/// No signal breaks what holds of every scheduler.
pub proof fn lemma_next_keeps_inv(state: SchedulerState, signal: Signal)
    requires
        state.inv(),
    ensures
        state.next(signal).inv(),
        state.next(signal).queue_size == state.queue_size,
{
}

/// At any time, whatever has happened, no more sends are outstanding than
/// the ceiling allows.
pub proof fn lemma_in_flight_bounded(queue_size: nat, signals: Seq<Signal>)
    ensures
        SchedulerState::initial(queue_size).run(signals).inv(),
        SchedulerState::initial(queue_size).run(signals).queue_size == queue_size,
        SchedulerState::initial(queue_size).run(signals).in_flight <= queue_size,
    decreases signals.len(),
{
    if signals.len() > 0 {
        lemma_in_flight_bounded(queue_size, signals.drop_last());
        lemma_next_keeps_inv(
            SchedulerState::initial(queue_size).run(signals.drop_last()),
            signals.last(),
        );
    }
}

/// Once shutdown has completed without a fatal producer error, every
/// accepted record that did not fail on its own was acknowledged, and none
/// is outstanding.
pub proof fn lemma_drained_all_acknowledged(queue_size: nat, signals: Seq<Signal>)
    requires
        SchedulerState::initial(queue_size).run(signals).phase == Phase::Finished,
    ensures
        SchedulerState::initial(queue_size).run(signals).in_flight == 0,
        SchedulerState::initial(queue_size).run(signals).acknowledged
            == SchedulerState::initial(queue_size).run(signals).accepted
            - SchedulerState::initial(queue_size).run(signals).failed,
{
    lemma_in_flight_bounded(queue_size, signals);
}

/// With a ceiling of one, publishing is strictly serial: a record is taken
/// only when no send is outstanding, and none is taken until that send has
/// ended.
pub proof fn lemma_ceiling_one_is_serial(state: SchedulerState)
    requires
        state.inv(),
        state.queue_size == 1,
    ensures
        state.has_room() ==> state.in_flight == 0,
        state.has_room() ==> !state.next(Signal::Offer).has_room(),
        state.in_flight <= 1,
{
}

/// A second shutdown signal changes nothing.
pub proof fn lemma_shutdown_idempotent(state: SchedulerState)
    ensures
        state.next(Signal::Shutdown).next(Signal::Shutdown) == state.next(Signal::Shutdown),
{
}

/// After shutdown no record is taken any more.
pub proof fn lemma_no_offer_after_shutdown(state: SchedulerState, signals: Seq<Signal>)
    ensures
        state.next(Signal::Shutdown).run(signals).phase != Phase::Accepting,
        !state.next(Signal::Shutdown).run(signals).has_room(),
        state.next(Signal::Shutdown).run(signals).accepted == state.accepted,
    decreases signals.len(),
{
    if signals.len() > 0 {
        lemma_no_offer_after_shutdown(state, signals.drop_last());
    }
}

/// The bounded publish scheduler.
#[derive(Debug)]
pub struct Scheduler {
    queue_size: usize,
    in_flight: usize,
    accepted: u64,
    acknowledged: u64,
    failed: u64,
    phase: Phase,
}

impl View for Scheduler {
    type V = SchedulerState;

    closed spec fn view(&self) -> SchedulerState {
        SchedulerState {
            queue_size: self.queue_size as nat,
            in_flight: self.in_flight as nat,
            accepted: self.accepted as nat,
            acknowledged: self.acknowledged as nat,
            failed: self.failed as nat,
            phase: self.phase,
        }
    }
}

impl Scheduler {
    #[verifier::type_invariant]
    spec fn type_inv(self) -> bool {
        self@.inv()
    }

    /// A scheduler that lets at most `queue_size` sends be outstanding.
    pub fn new(queue_size: usize) -> (scheduler: Scheduler)
        ensures
            scheduler@ == SchedulerState::initial(queue_size as nat),
            scheduler@.inv(),
    {
        Scheduler {
            queue_size,
            in_flight: 0,
            accepted: 0,
            acknowledged: 0,
            failed: 0,
            phase: Phase::Accepting,
        }
    }

    pub fn queue_size(&self) -> (n: usize)
        ensures
            n == self@.queue_size,
    {
        self.queue_size
    }

    pub fn in_flight(&self) -> (n: usize)
        ensures
            n == self@.in_flight,
            n <= self@.queue_size,
    {
        proof {
            use_type_invariant(self);
        }
        self.in_flight
    }

    pub fn accepted(&self) -> (n: u64)
        ensures
            n == self@.accepted,
    {
        self.accepted
    }

    pub fn acknowledged(&self) -> (n: u64)
        ensures
            n == self@.acknowledged,
    {
        self.acknowledged
    }

    pub fn failed(&self) -> (n: u64)
        ensures
            n == self@.failed,
    {
        self.failed
    }

    pub fn phase(&self) -> (phase: Phase)
        ensures
            phase == self@.phase,
            self@.inv(),
    {
        proof {
            use_type_invariant(self);
        }
        self.phase
    }

    /// Whether a record that is offered now is taken.
    pub fn has_room(&self) -> (room: bool)
        ensures
            room == self@.has_room(),
    {
        matches!(self.phase, Phase::Accepting) && self.in_flight < self.queue_size && self.accepted
            < u64::MAX
    }

    /// Whether the end of a send is awaited.
    pub fn awaits_completion(&self) -> (waits: bool)
        ensures
            waits == self@.awaits_completion(),
    {
        self.in_flight > 0 && (matches!(self.phase, Phase::Accepting) || matches!(
            self.phase,
            Phase::Draining
        ))
    }

    /// Whether nothing more will happen.
    pub fn stopped(&self) -> (stopped: bool)
        ensures
            stopped == self@.stopped(),
    {
        matches!(self.phase, Phase::Finished) || matches!(self.phase, Phase::Failed) || matches!(
            self.phase,
            Phase::Aborted
        )
    }

    /// Offers a record. It is taken, and counted as outstanding, exactly
    /// when there is room.
    pub fn offer(&mut self) -> (taken: bool)
        ensures
            taken == old(self)@.has_room(),
            final(self)@ == old(self)@.next(Signal::Offer),
            final(self)@.inv(),
    {
        proof {
            use_type_invariant(&*self);
        }
        if self.has_room() {
            *self = Scheduler {
                queue_size: self.queue_size,
                in_flight: self.in_flight + 1,
                accepted: self.accepted + 1,
                acknowledged: self.acknowledged,
                failed: self.failed,
                phase: self.phase,
            };
            true
        } else {
            false
        }
    }

    /// Records the end of one outstanding send.
    pub fn settle(&mut self, delivered: bool)
        ensures
            final(self)@ == old(self)@.next(Signal::Settled { delivered }),
            final(self)@.inv(),
    {
        proof {
            use_type_invariant(&*self);
        }
        if !self.awaits_completion() {
            return ;
        }
        if delivered {
            let phase = if matches!(self.phase, Phase::Draining) && self.in_flight == 1 {
                Phase::Finished
            } else {
                self.phase
            };
            *self = Scheduler {
                queue_size: self.queue_size,
                in_flight: self.in_flight - 1,
                accepted: self.accepted,
                acknowledged: self.acknowledged + 1,
                failed: self.failed,
                phase,
            };
        } else {
            *self = Scheduler {
                queue_size: self.queue_size,
                in_flight: self.in_flight - 1,
                accepted: self.accepted,
                acknowledged: self.acknowledged,
                failed: self.failed + 1,
                phase: Phase::Failed,
            };
        }
    }

    /// Records the shutdown signal.
    pub fn shutdown(&mut self)
        ensures
            final(self)@ == old(self)@.next(Signal::Shutdown),
            final(self)@.inv(),
    {
        proof {
            use_type_invariant(&*self);
        }
        if matches!(self.phase, Phase::Accepting) {
            let phase = if self.in_flight == 0 {
                Phase::Finished
            } else {
                Phase::Draining
            };
            *self = Scheduler {
                queue_size: self.queue_size,
                in_flight: self.in_flight,
                accepted: self.accepted,
                acknowledged: self.acknowledged,
                failed: self.failed,
                phase,
            };
        }
    }

    /// Records a fatal error of the producer.
    pub fn producer_fatal(&mut self)
        ensures
            final(self)@ == old(self)@.next(Signal::ProducerFatal),
            final(self)@.inv(),
    {
        proof {
            use_type_invariant(&*self);
        }
        if !self.stopped() {
            *self = Scheduler {
                queue_size: self.queue_size,
                in_flight: self.in_flight,
                accepted: self.accepted,
                acknowledged: self.acknowledged,
                failed: self.failed,
                phase: Phase::Aborted,
            };
        }
    }

    /// Applies one signal.
    pub fn apply(&mut self, signal: Signal)
        ensures
            final(self)@ == old(self)@.next(signal),
            final(self)@.inv(),
    {
        match signal {
            Signal::Offer => {
                let _ = self.offer();
            },
            Signal::Settled { delivered } => self.settle(delivered),
            Signal::Shutdown => self.shutdown(),
            Signal::ProducerFatal => self.producer_fatal(),
        }
    }
}

} // verus!
