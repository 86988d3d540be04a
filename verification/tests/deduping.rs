use yellowstone_grpc_kafka::backend::{same_key, DedupBackend, MemoryDedup};
use yellowstone_grpc_kafka::dedup::{examine, Arrival, Dedup, DedupAction, Verdict};
use yellowstone_grpc_kafka::key::{format_key, SeenKey};
use yellowstone_grpc_kafka::scheduler::{ExitStatus, Phase};
use yellowstone_grpc_kafka::update::{PublishRecord, UpdateKind};

const H: &str = "ba7816bf8f01cfea414140de5dae2223b00361a396177a9cb410ff61f20015ad";

fn hash_of(n: u8) -> [u8; 32] {
    let mut hash = [0u8; 32];
    hash[0] = n;
    hash[31] = n.wrapping_mul(3);
    hash
}

fn message(key: &str, payload: &[u8]) -> Arrival {
    Arrival::Message { key: Some(key.as_bytes().to_vec()), payload: Some(payload.to_vec()) }
}

#[test]
fn dedup_hit_with_fresh_memory_backend() {
    let key = format!("5_{}", H);
    let mut stage = Dedup::new(MemoryDedup::new(128), 4);
    let mut duplicates = 0u64;

    let first = stage.step(message(&key, b"abc"));
    assert_eq!(
        first,
        Verdict::Publish(PublishRecord {
            key: key.clone(),
            payload: b"abc".to_vec(),
            kind: UpdateKind::Unknown,
        })
    );
    assert_eq!(stage.step(Arrival::Settled { delivered: true }), Verdict::Idle);
    assert_eq!(stage.publisher().acknowledged(), 1);

    let second = stage.step(message(&key, b"abc"));
    assert_eq!(second, Verdict::Duplicate);
    if second == Verdict::Duplicate {
        duplicates += 1;
    }
    assert_eq!(duplicates, 1);
    assert_eq!(stage.publisher().accepted(), 1);
    assert_eq!(stage.publisher().acknowledged(), 1);
    assert_eq!(stage.publisher().in_flight(), 0);
}

#[test]
fn repeated_key_is_republished_at_most_once() {
    let mut stage = Dedup::new(MemoryDedup::new(8), 100);
    let keys: Vec<String> = (0..4u64).map(|slot| format!("{}_{}", slot, H)).collect();
    let mut published = 0;
    for round in 0..5 {
        for key in &keys {
            match stage.step(message(key, b"p")) {
                Verdict::Publish(_) => {
                    assert_eq!(round, 0);
                    published += 1;
                }
                Verdict::Duplicate => assert!(round > 0),
                other => panic!("{:?}", other),
            }
        }
    }
    assert_eq!(published, 4);
    assert_eq!(stage.publisher().accepted(), 4);
}

#[test]
fn same_digest_at_another_slot_is_another_key() {
    let mut stage = Dedup::new(MemoryDedup::new(8), 100);
    assert!(matches!(stage.step(message(&format!("5_{}", H), b"p")), Verdict::Publish(_)));
    assert!(matches!(stage.step(message(&format!("6_{}", H), b"p")), Verdict::Publish(_)));
    assert_eq!(stage.step(message(&format!("5_{}", H), b"p")), Verdict::Duplicate);
    assert_eq!(stage.step(message(&format!("05_{}", H), b"p")), Verdict::Duplicate);
    assert_eq!(stage.step(message(&format!("5_{}", H.to_uppercase()), b"p")), Verdict::Duplicate);
}

#[test]
fn malformed_keys_are_dropped_without_any_count_moving() {
    let mut stage = Dedup::new(MemoryDedup::new(8), 4);
    let bad = [
        format!("5{}", H),
        format!("five_{}", H),
        format!("_{}", H),
        format!("5_{}", &H[..63]),
        format!("5_{}00", H),
        format!("5_{}zz", &H[..62]),
        String::new(),
    ];
    for key in bad {
        assert_eq!(stage.step(message(&key, b"p")), Verdict::Skipped, "{}", key);
        assert_eq!(stage.publisher().accepted(), 0);
        assert_eq!(stage.publisher().in_flight(), 0);
        assert_eq!(stage.backend().len(), 0);
        assert_eq!(stage.action(), DedupAction::Receive);
    }
    assert_eq!(
        stage.step(Arrival::Message { key: Some(vec![0xff, 0xfe]), payload: Some(vec![1]) }),
        Verdict::Skipped
    );
}

#[test]
fn message_without_key_or_payload_is_skipped() {
    let mut stage = Dedup::new(MemoryDedup::new(8), 4);
    let key = format!("5_{}", H).into_bytes();
    assert_eq!(
        stage.step(Arrival::Message { key: None, payload: Some(vec![1]) }),
        Verdict::Skipped
    );
    assert_eq!(
        stage.step(Arrival::Message { key: Some(key.clone()), payload: None }),
        Verdict::Skipped
    );
    assert_eq!(stage.step(Arrival::Message { key: None, payload: None }), Verdict::Skipped);
    assert_eq!(stage.backend().len(), 0);
    assert!(matches!(
        stage.step(Arrival::Message { key: Some(key), payload: Some(vec![]) }),
        Verdict::Publish(_)
    ));
}

#[test]
fn examine_reads_key_and_builds_the_record() {
    let key = format!("77_{}", H);
    let (seen, record) = examine(Some(key.as_bytes()), Some(b"payload")).unwrap();
    assert_eq!(seen.slot, 77);
    assert_eq!(seen.hash[0], 0xba);
    assert_eq!(record.key, key);
    assert_eq!(record.payload, b"payload".to_vec());
    assert_eq!(record.kind, UpdateKind::Unknown);
    assert_eq!(examine(None, Some(b"payload")), None);
    assert_eq!(examine(Some(key.as_bytes()), None), None);
    assert_eq!(examine(Some(b"77"), Some(b"payload")), None);
}

#[test]
fn saturated_stage_asks_nothing_of_the_backend() {
    let mut stage = Dedup::new(MemoryDedup::new(8), 1);
    assert!(matches!(stage.step(message(&format!("1_{}", H), b"p")), Verdict::Publish(_)));
    assert_eq!(stage.action(), DedupAction::Hold);
    assert_eq!(stage.step(message(&format!("2_{}", H), b"p")), Verdict::Idle);
    assert_eq!(stage.backend().len(), 1);
    assert_eq!(stage.step(Arrival::Settled { delivered: true }), Verdict::Idle);
    assert_eq!(stage.action(), DedupAction::Receive);
    assert!(matches!(stage.step(message(&format!("2_{}", H), b"p")), Verdict::Publish(_)));
}

#[test]
fn dedup_stage_drains_on_shutdown() {
    let mut stage = Dedup::new(MemoryDedup::new(8), 4);
    assert!(matches!(stage.step(message(&format!("1_{}", H), b"p")), Verdict::Publish(_)));
    assert!(stage.awaits_completion());
    assert_eq!(stage.step(Arrival::Shutdown), Verdict::Idle);
    assert_eq!(stage.action(), DedupAction::Drain);
    assert_eq!(stage.step(message(&format!("2_{}", H), b"p")), Verdict::Idle);
    assert_eq!(stage.step(Arrival::Settled { delivered: true }), Verdict::Idle);
    assert_eq!(stage.action(), DedupAction::Exit(ExitStatus::Clean));
    assert_eq!(stage.publisher().phase(), Phase::Finished);
}

#[test]
fn dedup_stage_error_exits() {
    let mut failed = Dedup::new(MemoryDedup::new(8), 4);
    assert_eq!(failed.step(Arrival::ReceiveFailed), Verdict::Idle);
    assert_eq!(failed.action(), DedupAction::Exit(ExitStatus::ReceiveFailed));
    assert_eq!(failed.step(message(&format!("1_{}", H), b"p")), Verdict::Idle);
    assert_eq!(failed.step(Arrival::Shutdown), Verdict::Idle);
    assert_eq!(failed.action(), DedupAction::Exit(ExitStatus::ReceiveFailed));
    assert!(!failed.awaits_completion());

    let mut fatal = Dedup::new(MemoryDedup::new(8), 4);
    assert!(matches!(fatal.step(message(&format!("1_{}", H), b"p")), Verdict::Publish(_)));
    assert_eq!(fatal.step(Arrival::KafkaFatal), Verdict::Idle);
    assert_eq!(fatal.action(), DedupAction::Exit(ExitStatus::KafkaFatal));

    let mut send = Dedup::new(MemoryDedup::new(8), 4);
    assert!(matches!(send.step(message(&format!("1_{}", H), b"p")), Verdict::Publish(_)));
    assert_eq!(send.step(Arrival::Settled { delivered: false }), Verdict::Idle);
    assert_eq!(send.action(), DedupAction::Exit(ExitStatus::SendFailed));

    let mut late = Dedup::new(MemoryDedup::new(8), 4);
    assert_eq!(late.step(Arrival::Shutdown), Verdict::Idle);
    assert_eq!(late.step(Arrival::ReceiveFailed), Verdict::Idle);
    assert_eq!(late.action(), DedupAction::Exit(ExitStatus::Clean));
}

#[test]
fn memory_backend_answers_true_once_per_key() {
    let mut store = MemoryDedup::new(4);
    assert_eq!(store.capacity(), 4);
    assert_eq!(store.len(), 0);
    assert!(!store.contains(1, &hash_of(1)));
    assert!(store.allowed(1, &hash_of(1)));
    assert!(store.contains(1, &hash_of(1)));
    assert!(!store.allowed(1, &hash_of(1)));
    assert!(store.allowed(1, &hash_of(2)));
    assert!(store.allowed(2, &hash_of(1)));
    assert!(!store.allowed(1, &hash_of(2)));
    assert_eq!(store.len(), 3);
}

#[test]
fn memory_backend_forgets_the_key_seen_longest_ago() {
    let mut store = MemoryDedup::new(3);
    assert!(store.allowed(1, &hash_of(1)));
    assert!(store.allowed(2, &hash_of(2)));
    assert!(store.allowed(3, &hash_of(3)));
    assert!(!store.allowed(1, &hash_of(1)));
    assert!(store.allowed(4, &hash_of(4)));
    assert_eq!(store.len(), 3);
    assert!(!store.contains(2, &hash_of(2)));
    assert!(store.contains(1, &hash_of(1)));
    assert!(store.contains(3, &hash_of(3)));
    assert!(store.contains(4, &hash_of(4)));
    assert!(store.allowed(2, &hash_of(2)));
    assert!(!store.contains(3, &hash_of(3)));
}

#[test]
fn memory_backend_keeps_a_key_for_capacity_minus_one_other_asks() {
    let capacity = 5usize;
    let mut store = MemoryDedup::new(capacity);
    assert!(store.allowed(0, &hash_of(0)));
    for other in 1..capacity as u8 {
        assert!(store.allowed(other as u64, &hash_of(other)));
    }
    assert!(!store.allowed(0, &hash_of(0)));
    for other in 10..10 + capacity as u8 {
        assert!(store.allowed(other as u64, &hash_of(other)));
    }
    assert!(store.allowed(0, &hash_of(0)));
}

#[test]
fn memory_backend_without_capacity_holds_nothing() {
    let mut store = MemoryDedup::new(0);
    assert!(store.allowed(1, &hash_of(1)));
    assert!(store.allowed(1, &hash_of(1)));
    assert_eq!(store.len(), 0);
}

#[test]
fn same_key_compares_slot_and_digest() {
    let a = SeenKey { slot: 1, hash: hash_of(1) };
    let mut other_hash = hash_of(1);
    other_hash[17] = 9;
    assert!(same_key(&a, &SeenKey { slot: 1, hash: hash_of(1) }));
    assert!(!same_key(&a, &SeenKey { slot: 2, hash: hash_of(1) }));
    assert!(!same_key(&a, &SeenKey { slot: 1, hash: other_hash }));
    let _ = format_key(1, &a.hash);
}

#[test]
fn memory_backend_answers_false_inside_the_window_of_any_run() {
    let capacity = 4usize;
    let mut store = MemoryDedup::new(capacity);
    let asks: Vec<u8> = vec![1, 2, 3, 1, 4, 5, 2, 6, 7, 8, 1, 1, 9, 3, 9, 8];
    let mut answers = Vec::new();
    for ask in &asks {
        answers.push(store.allowed(*ask as u64, &hash_of(*ask)));
    }
    for later in 0..asks.len() {
        for earlier in 0..later {
            if asks[earlier] == asks[later] && later - earlier <= capacity {
                assert!(!answers[later], "ask {} after {}", later, earlier);
            }
        }
    }
    assert_eq!(
        answers,
        vec![
            true, true, true, false, true, true, true, true, true, true, true, false, true,
            true, false, false
        ]
    );
}
