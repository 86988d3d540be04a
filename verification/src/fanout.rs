//! The fan-out stage: messages are consumed from Kafka, decoded and handed
//! to the gRPC server, which offers them to its subscribers.

use crate::scheduler::ExitStatus;
use vstd::prelude::*;
use yellowstone_grpc_proto::geyser::SubscribeUpdate;
use yellowstone_grpc_proto::prost::DecodeError;
use yellowstone_grpc_proto::prost::Message;

verus! {

/// The update message of `yellowstone_grpc_proto`. It is carried through
/// as it was decoded; nothing is claimed of what it holds.
#[verifier::external_type_specification]
#[verifier::external_body]
pub struct ExSubscribeUpdate(SubscribeUpdate);

/// The error of `prost`'s decoder. Nothing is claimed of what it holds.
#[verifier::external_type_specification]
#[verifier::external_body]
pub struct ExDecodeError(DecodeError);

/// Whether `payload` is the protobuf encoding of an update, as `prost`
/// decodes it.
pub uninterp spec fn decodes_as_update(payload: Seq<u8>) -> bool;

/// Calls `prost::Message::decode` for `SubscribeUpdate`. Whether it
/// succeeds depends on the bytes alone.
#[verifier::external_body]
fn decode_update(payload: &[u8]) -> (res: Result<SubscribeUpdate, DecodeError>)
    ensures
        res is Ok == decodes_as_update(payload@),
{
    SubscribeUpdate::decode(payload)
}

/// Why a message is not handed on.
#[derive(Clone, Copy, Debug, PartialEq, Eq, Structural)]
pub enum Unrelayed {
    /// The message has no payload.
    NoPayload,
    /// The payload is no update; worth a warning.
    Undecodable,
}

/// What is done with a consumed message.
#[derive(Debug, PartialEq)]
pub enum Relay {
    /// The update to hand to the subscribers.
    Forward(SubscribeUpdate),
    /// The message is not handed on.
    Skip(Unrelayed),
}

/// Why a message with this payload is not handed on, if it is not.
pub open spec fn unrelayed(payload: Option<Seq<u8>>) -> Option<Unrelayed> {
    match payload {
        None => Some(Unrelayed::NoPayload),
        Some(bytes) => if decodes_as_update(bytes) {
            None
        } else {
            Some(Unrelayed::Undecodable)
        },
    }
}

/// Why a message is not handed on, once it is known whether its payload
/// could be decoded.
pub open spec fn unrelayed_given(has_payload: bool, decoded: bool) -> Option<Unrelayed> {
    if !has_payload {
        Some(Unrelayed::NoPayload)
    } else if decoded {
        None
    } else {
        Some(Unrelayed::Undecodable)
    }
}

/// Decides on a message whose payload, if it has one, was put through the
/// decoder: a decoded update is handed on, anything else is skipped.
pub fn relay_decoded(decoded: Option<Result<SubscribeUpdate, DecodeError>>) -> (relay: Relay)
    ensures
        match relay {
            Relay::Forward(update) => decoded == Some(
                Ok::<SubscribeUpdate, DecodeError>(update),
            ),
            Relay::Skip(why) => Some(why) == unrelayed_given(
                decoded is Some,
                decoded is Some && decoded.unwrap() is Ok,
            ),
        },
{
    match decoded {
        None => Relay::Skip(Unrelayed::NoPayload),
        Some(Ok(update)) => Relay::Forward(update),
        Some(Err(_)) => Relay::Skip(Unrelayed::Undecodable),
    }
}

/// Decodes the payload of a consumed message and decides whether it is
/// handed on.
pub fn relay(payload: Option<&[u8]>) -> (relay: Relay)
    ensures
        match relay {
            Relay::Forward(_) => payload is Some && decodes_as_update(payload.unwrap()@),
            Relay::Skip(why) => Some(why) == unrelayed(
                match payload {
                    Some(bytes) => Some(bytes@),
                    None => None,
                },
            ),
        },
{
    let decoded = match payload {
        Some(bytes) => Some(decode_update(bytes)),
        None => None,
    };
    relay_decoded(decoded)
}

/// Where the stage stands.
#[derive(Clone, Copy, Debug, PartialEq, Eq, Structural)]
pub enum FanoutPhase {
    /// Messages are consumed and handed on.
    Relaying,
    /// Consuming is over; the server is waited for. `fatal` says that a
    /// fatal Kafka error ended it, not the shutdown signal.
    Closing { fatal: bool },
    /// The stage is over.
    Done(ExitStatus),
}

/// What happened outside.
#[derive(Clone, Copy, Debug, PartialEq, Eq, Structural)]
pub enum FanoutEvent {
    /// The consumer yielded a message, which was dealt with.
    Message,
    /// The consumer yielded an error.
    ReceiveFailed,
    /// The shutdown signal arrived.
    Shutdown,
    /// The consumer's fatal-error channel fired.
    KafkaFatal,
    /// The gRPC server has ended, with or without an error.
    ServerStopped { ok: bool },
}

/// What the program around the stage does next.
#[derive(Clone, Copy, Debug, PartialEq, Eq, Structural)]
pub enum FanoutAction {
    /// Take the next message from the consumer.
    Receive,
    /// Wait for the gRPC server to end.
    AwaitServer,
    /// Stop.
    Exit(ExitStatus),
}

/// The status with which the stage ends once its server has.
pub open spec fn closing_status(fatal: bool, server_ok: bool) -> ExitStatus {
    if !server_ok {
        ExitStatus::ServerFailed
    } else if fatal {
        ExitStatus::KafkaFatal
    } else {
        ExitStatus::Clean
    }
}

impl FanoutPhase {
    /// The stage after an event. An event that the stage does not wait for
    /// leaves it as it is.
    pub open spec fn next(self, event: FanoutEvent) -> FanoutPhase {
        match (self, event) {
            (FanoutPhase::Relaying, FanoutEvent::Message) => FanoutPhase::Relaying,
            (FanoutPhase::Relaying, FanoutEvent::ReceiveFailed) => FanoutPhase::Done(
                ExitStatus::ReceiveFailed,
            ),
            (FanoutPhase::Relaying, FanoutEvent::Shutdown) => FanoutPhase::Closing { fatal: false },
            (FanoutPhase::Relaying, FanoutEvent::KafkaFatal) => FanoutPhase::Closing {
                fatal: true,
            },
            (FanoutPhase::Closing { fatal }, FanoutEvent::ServerStopped { ok }) => {
                FanoutPhase::Done(closing_status(fatal, ok))
            },
            _ => self,
        }
    }

    /// What is done next.
    pub open spec fn spec_action(&self) -> FanoutAction {
        match self {
            FanoutPhase::Relaying => FanoutAction::Receive,
            FanoutPhase::Closing { .. } => FanoutAction::AwaitServer,
            FanoutPhase::Done(status) => FanoutAction::Exit(*status),
        }
    }

    /// The stage at its start.
    pub fn new() -> (phase: FanoutPhase)
        ensures
            phase == FanoutPhase::Relaying,
    {
        FanoutPhase::Relaying
    }

    /// What is to be done next.
    #[verifier::when_used_as_spec(spec_action)]
    pub fn action(&self) -> (action: FanoutAction)
        ensures
            action == self.spec_action(),
    {
        match self {
            FanoutPhase::Relaying => FanoutAction::Receive,
            FanoutPhase::Closing { .. } => FanoutAction::AwaitServer,
            FanoutPhase::Done(status) => FanoutAction::Exit(*status),
        }
    }

    /// Takes in what happened.
    pub fn step(&mut self, event: FanoutEvent)
        ensures
            *final(self) == old(self).next(event),
    {
        let after = match (*self, event) {
            (FanoutPhase::Relaying, FanoutEvent::ReceiveFailed) => FanoutPhase::Done(
                ExitStatus::ReceiveFailed,
            ),
            (FanoutPhase::Relaying, FanoutEvent::Shutdown) => FanoutPhase::Closing { fatal: false },
            (FanoutPhase::Relaying, FanoutEvent::KafkaFatal) => FanoutPhase::Closing {
                fatal: true,
            },
            (FanoutPhase::Closing { fatal }, FanoutEvent::ServerStopped { ok }) => {
                let status = if !ok {
                    ExitStatus::ServerFailed
                } else if fatal {
                    ExitStatus::KafkaFatal
                } else {
                    ExitStatus::Clean
                };
                FanoutPhase::Done(status)
            },
            (phase, _) => phase,
        };
        *self = after;
    }
}

/// Once consuming is over no message is taken any more, whatever happens.
pub proof fn lemma_closing_never_receives(phase: FanoutPhase, event: FanoutEvent)
    requires
        phase.spec_action() != FanoutAction::Receive,
    ensures
        phase.next(event).spec_action() != FanoutAction::Receive,
{
}

/// What a subscriber's end of the broadcast channel yields.
#[derive(Clone, Copy, Debug, PartialEq, Eq, Structural)]
pub enum Broadcast {
    /// The next update.
    Update,
    /// The subscriber fell behind by more than the channel holds, and this
    /// many updates are lost to it.
    Lagged { missed: u64 },
    /// The channel is closed.
    Closed,
}

/// What is done for a subscriber.
#[derive(Clone, Copy, Debug, PartialEq, Eq, Structural)]
pub enum SubscriberAction {
    /// Send the update on.
    Send,
    /// Tell the subscriber that it lagged, and end its stream.
    Disconnect,
    /// End its stream.
    End,
}

/// What is done for a subscriber on what the channel yields: updates are
/// sent on as they come, with no replay, and a subscriber that lagged is
/// disconnected.
pub open spec fn subscriber_action(yielded: Broadcast) -> SubscriberAction {
    match yielded {
        Broadcast::Update => SubscriberAction::Send,
        Broadcast::Lagged { .. } => SubscriberAction::Disconnect,
        Broadcast::Closed => SubscriberAction::End,
    }
}

/// Decides what is done for a subscriber.
pub fn serve_subscriber(yielded: Broadcast) -> (action: SubscriberAction)
    ensures
        action == subscriber_action(yielded),
{
    match yielded {
        Broadcast::Update => SubscriberAction::Send,
        Broadcast::Lagged { .. } => SubscriberAction::Disconnect,
        Broadcast::Closed => SubscriberAction::End,
    }
}

} // verus!
