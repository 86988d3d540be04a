use yellowstone_grpc_kafka::fanout::{
    relay, relay_decoded, serve_subscriber, Broadcast, FanoutAction, FanoutEvent, FanoutPhase,
    Relay, SubscriberAction, Unrelayed,
};
use yellowstone_grpc_kafka::scheduler::ExitStatus;
use yellowstone_grpc_proto::geyser::subscribe_update::UpdateOneof;
use yellowstone_grpc_proto::geyser::{SubscribeUpdate, SubscribeUpdatePing, SubscribeUpdateSlot};
use yellowstone_grpc_proto::prost::Message;

fn slot_update(slot: u64) -> SubscribeUpdate {
    SubscribeUpdate {
        filters: vec!["all".to_string()],
        update_oneof: Some(UpdateOneof::Slot(SubscribeUpdateSlot {
            slot,
            parent: Some(slot - 1),
            ..Default::default()
        })),
        created_at: None,
    }
}

#[test]
fn relay_forwards_a_decoded_update() {
    let update = slot_update(77);
    let bytes = update.encode_to_vec();
    assert_eq!(relay(Some(&bytes)), Relay::Forward(update));
}

#[test]
fn decode_then_encode_gives_the_same_bytes() {
    let ping = SubscribeUpdate {
        filters: vec![],
        update_oneof: Some(UpdateOneof::Ping(SubscribeUpdatePing {})),
        created_at: None,
    };
    for update in [slot_update(1), slot_update(u64::MAX), ping] {
        let bytes = update.encode_to_vec();
        match relay(Some(&bytes)) {
            Relay::Forward(decoded) => assert_eq!(decoded.encode_to_vec(), bytes),
            other => panic!("{:?}", other),
        }
    }
}

#[test]
fn relay_skips_what_is_no_update() {
    assert_eq!(relay(None), Relay::Skip(Unrelayed::NoPayload));
    assert_eq!(relay(Some(&[0xff, 0xff, 0xff])), Relay::Skip(Unrelayed::Undecodable));
    assert_eq!(relay(Some(&[0x0a])), Relay::Skip(Unrelayed::Undecodable));
}

#[test]
fn relay_accepts_an_empty_payload_as_the_empty_update() {
    assert_eq!(relay(Some(&[])), Relay::Forward(SubscribeUpdate::default()));
}

#[test]
fn relay_decoded_follows_the_decoder() {
    assert_eq!(relay_decoded(None), Relay::Skip(Unrelayed::NoPayload));
    assert_eq!(relay_decoded(Some(Ok(slot_update(3)))), Relay::Forward(slot_update(3)));
    let error = SubscribeUpdate::decode(&[0xffu8][..]).unwrap_err();
    assert_eq!(relay_decoded(Some(Err(error))), Relay::Skip(Unrelayed::Undecodable));
}

#[test]
fn fanout_stage_relays_until_shutdown_then_waits_for_the_server() {
    let mut stage = FanoutPhase::new();
    assert_eq!(stage.action(), FanoutAction::Receive);
    stage.step(FanoutEvent::Message);
    assert_eq!(stage.action(), FanoutAction::Receive);
    stage.step(FanoutEvent::ServerStopped { ok: true });
    assert_eq!(stage, FanoutPhase::Relaying);
    stage.step(FanoutEvent::Shutdown);
    assert_eq!(stage, FanoutPhase::Closing { fatal: false });
    assert_eq!(stage.action(), FanoutAction::AwaitServer);
    stage.step(FanoutEvent::Message);
    stage.step(FanoutEvent::Shutdown);
    stage.step(FanoutEvent::KafkaFatal);
    stage.step(FanoutEvent::ReceiveFailed);
    assert_eq!(stage, FanoutPhase::Closing { fatal: false });
    stage.step(FanoutEvent::ServerStopped { ok: true });
    assert_eq!(stage.action(), FanoutAction::Exit(ExitStatus::Clean));
    stage.step(FanoutEvent::ServerStopped { ok: false });
    assert_eq!(stage.action(), FanoutAction::Exit(ExitStatus::Clean));
}

#[test]
fn fanout_stage_exit_statuses() {
    let mut fatal = FanoutPhase::new();
    fatal.step(FanoutEvent::KafkaFatal);
    assert_eq!(fatal, FanoutPhase::Closing { fatal: true });
    fatal.step(FanoutEvent::ServerStopped { ok: true });
    assert_eq!(fatal.action(), FanoutAction::Exit(ExitStatus::KafkaFatal));

    let mut server = FanoutPhase::new();
    server.step(FanoutEvent::Shutdown);
    server.step(FanoutEvent::ServerStopped { ok: false });
    assert_eq!(server.action(), FanoutAction::Exit(ExitStatus::ServerFailed));

    let mut both = FanoutPhase::new();
    both.step(FanoutEvent::KafkaFatal);
    both.step(FanoutEvent::ServerStopped { ok: false });
    assert_eq!(both.action(), FanoutAction::Exit(ExitStatus::ServerFailed));

    let mut receive = FanoutPhase::new();
    receive.step(FanoutEvent::ReceiveFailed);
    assert_eq!(receive.action(), FanoutAction::Exit(ExitStatus::ReceiveFailed));
}

#[test]
fn lagging_subscriber_is_disconnected() {
    assert_eq!(serve_subscriber(Broadcast::Update), SubscriberAction::Send);
    assert_eq!(serve_subscriber(Broadcast::Lagged { missed: 1 }), SubscriberAction::Disconnect);
    assert_eq!(
        serve_subscriber(Broadcast::Lagged { missed: u64::MAX }),
        SubscriberAction::Disconnect
    );
    assert_eq!(serve_subscriber(Broadcast::Closed), SubscriberAction::End);
}
