use proxy_cache::key::encode_key;
use proxy_cache::leveldb::{
    eviction_command, persist_command, ActorAction, ActorEvent, ActorExit, LevelDB,
    PersistentStorageEvent, StoreOp,
};
use std::collections::BTreeMap;

type Engine = BTreeMap<Vec<u8>, Vec<u8>>;

fn record(key: &[u8], value: &[u8]) -> (Vec<u8>, Vec<u8>) {
    (key.to_vec(), value.to_vec())
}

fn scan(engine: &Engine) -> Vec<(Vec<u8>, Vec<u8>)> {
    engine.iter().map(|(key, value)| (key.clone(), value.clone())).collect()
}

/// Runs the actor on an in-memory engine until it ends or the mailbox is
/// empty; returns how it ended, if it did.
fn drive(
    actor: &mut LevelDB,
    engine: &mut Engine,
    mailbox: &mut Vec<PersistentStorageEvent>,
    reports: &mut usize,
) -> Option<ActorExit> {
    mailbox.reverse();
    loop {
        let event = match actor.pending() {
            ActorAction::Put { key, value } => {
                engine.insert(key.to_vec(), value.to_vec());
                ActorEvent::Applied { ok: true }
            }
            ActorAction::Delete { key } => {
                engine.remove(key);
                ActorEvent::Applied { ok: true }
            }
            ActorAction::Receive => match mailbox.pop() {
                Some(command) => ActorEvent::Received(Some(command)),
                None => return None,
            },
            ActorAction::Report => {
                *reports += 1;
                ActorEvent::Reported
            }
            ActorAction::Close => ActorEvent::Closed { ok: true },
            ActorAction::Finish(exit) => return Some(exit),
        };
        actor.step(event);
    }
}

#[test]
fn recovery_decodes_full_width_keys() {
    let (recovered, actor) = LevelDB::run(vec![
        record(&[0, 0, 0, 0, 0, 0, 0, 1], b"one"),
        record(&[0, 0, 0, 0, 0, 0, 1, 0], b"two"),
    ]);
    assert_eq!(recovered.len(), 2);
    assert_eq!(recovered.get(&1), Some(&b"one".to_vec()));
    assert_eq!(recovered.get(&256), Some(&b"two".to_vec()));
    assert_eq!(actor.pending(), ActorAction::Receive);
}

#[test]
fn recovery_of_an_empty_store() {
    let (recovered, actor) = LevelDB::run(Vec::new());
    assert!(recovered.is_empty());
    assert_eq!(actor.pending(), ActorAction::Receive);
    assert!(!actor.is_stopped());
}

#[test]
fn recovery_sets_short_keys_aside() {
    let (recovered, mut actor) = LevelDB::run(vec![
        record(b"", b"empty key"),
        record(&[1, 2, 3], b"short"),
        record(&[0, 0, 0, 0, 0, 0, 0, 9], b"nine"),
        record(&[9, 9, 9, 9, 9, 9, 9], b"seven bytes"),
    ]);
    assert_eq!(recovered.len(), 1);
    assert_eq!(recovered.get(&9), Some(&b"nine".to_vec()));
    assert_eq!(actor.pending(), ActorAction::Delete { key: b"" });
    actor.step(ActorEvent::Applied { ok: true });
    assert_eq!(actor.pending(), ActorAction::Delete { key: &[1, 2, 3] });
    actor.step(ActorEvent::Applied { ok: true });
    assert_eq!(actor.pending(), ActorAction::Delete { key: &[9, 9, 9, 9, 9, 9, 9] });
    actor.step(ActorEvent::Applied { ok: true });
    assert_eq!(actor.pending(), ActorAction::Receive);
}

#[test]
fn recovery_reads_only_the_first_eight_bytes() {
    let (recovered, actor) = LevelDB::run(vec![record(&[0, 0, 0, 0, 0, 0, 0, 7, 1, 2], b"long")]);
    assert_eq!(recovered.get(&7), Some(&b"long".to_vec()));
    assert_eq!(recovered.len(), 1);
    assert_eq!(actor.pending(), ActorAction::Receive);
}

#[test]
fn later_record_wins_a_shared_key() {
    let (recovered, _) = LevelDB::run(vec![
        record(&[0, 0, 0, 0, 0, 0, 0, 7], b"exact"),
        record(&[0, 0, 0, 0, 0, 0, 0, 7, 0], b"longer"),
    ]);
    assert_eq!(recovered.len(), 1);
    assert_eq!(recovered.get(&7), Some(&b"longer".to_vec()));
}

#[test]
fn purge_comes_before_any_command() {
    let mut engine = Engine::new();
    engine.insert(vec![1], b"x".to_vec());
    engine.insert(vec![2, 2], b"y".to_vec());
    engine.insert(encode_key(5), b"five".to_vec());
    let (recovered, mut actor) = LevelDB::run(scan(&engine));
    assert_eq!(recovered.get(&5), Some(&b"five".to_vec()));
    let mut seen = Vec::new();
    while let ActorAction::Delete { key } = actor.pending() {
        seen.push(key.to_vec());
        engine.remove(key);
        actor.step(ActorEvent::Received(Some(PersistentStorageEvent::Put(1, vec![1]))));
        assert_eq!(actor.pending(), ActorAction::Delete { key: seen.last().unwrap() });
        actor.step(ActorEvent::Applied { ok: true });
    }
    assert_eq!(seen, vec![vec![1], vec![2, 2]]);
    assert_eq!(actor.pending(), ActorAction::Receive);
    assert_eq!(scan(&engine), vec![(encode_key(5), b"five".to_vec())]);
}

#[test]
fn failed_purge_ends_the_actor() {
    let (_, mut actor) = LevelDB::run(vec![record(&[1], b"x"), record(&[2], b"y")]);
    actor.step(ActorEvent::Applied { ok: true });
    assert_eq!(actor.pending(), ActorAction::Delete { key: &[2] });
    actor.step(ActorEvent::Applied { ok: false });
    assert_eq!(actor.pending(), ActorAction::Finish(ActorExit::PurgeFailed));
    assert!(actor.is_stopped());
    actor.step(ActorEvent::Applied { ok: true });
    actor.step(ActorEvent::Received(None));
    assert_eq!(actor.pending(), ActorAction::Finish(ActorExit::PurgeFailed));
}

#[test]
fn commands_are_applied_in_arrival_order() {
    let mut engine = Engine::new();
    let (_, mut actor) = LevelDB::run(Vec::new());
    let mut mailbox = vec![
        PersistentStorageEvent::Put(1, b"a".to_vec()),
        PersistentStorageEvent::Put(2, b"b".to_vec()),
        PersistentStorageEvent::Put(1, b"c".to_vec()),
        PersistentStorageEvent::Delete(2),
        PersistentStorageEvent::Put(3, b"d".to_vec()),
    ];
    let mut reports = 0;
    assert_eq!(drive(&mut actor, &mut engine, &mut mailbox, &mut reports), None);
    assert_eq!(
        scan(&engine),
        vec![(encode_key(1), b"c".to_vec()), (encode_key(3), b"d".to_vec())]
    );
    assert_eq!(reports, 0);
}

#[test]
fn put_is_written_under_the_big_endian_key() {
    let (_, mut actor) = LevelDB::run(Vec::new());
    actor.step(ActorEvent::Received(Some(PersistentStorageEvent::Put(
        0x0102_0304_0506_0708,
        b"WORLD".to_vec(),
    ))));
    assert_eq!(
        actor.pending(),
        ActorAction::Put { key: &[1, 2, 3, 4, 5, 6, 7, 8], value: b"WORLD" }
    );
    actor.step(ActorEvent::Applied { ok: true });
    assert_eq!(actor.pending(), ActorAction::Receive);
}

#[test]
fn delete_is_sent_for_the_big_endian_key() {
    let (_, mut actor) = LevelDB::run(Vec::new());
    actor.step(ActorEvent::Received(Some(PersistentStorageEvent::Delete(258))));
    assert_eq!(actor.pending(), ActorAction::Delete { key: &[0, 0, 0, 0, 0, 0, 1, 2] });
}

#[test]
fn failed_write_is_reported_and_survived() {
    let (_, mut actor) = LevelDB::run(Vec::new());
    actor.step(ActorEvent::Received(Some(PersistentStorageEvent::Put(1, b"a".to_vec()))));
    actor.step(ActorEvent::Applied { ok: false });
    assert_eq!(actor.pending(), ActorAction::Report);
    assert!(!actor.is_stopped());
    actor.step(ActorEvent::Reported);
    assert_eq!(actor.pending(), ActorAction::Receive);
    actor.step(ActorEvent::Received(Some(PersistentStorageEvent::Delete(1))));
    assert_eq!(actor.pending(), ActorAction::Delete { key: &[0, 0, 0, 0, 0, 0, 0, 1] });
    actor.step(ActorEvent::Applied { ok: false });
    assert_eq!(actor.pending(), ActorAction::Report);
}

#[test]
fn exit_closes_the_store() {
    let mut engine = Engine::new();
    let (_, mut actor) = LevelDB::run(Vec::new());
    let mut mailbox = vec![
        PersistentStorageEvent::Put(1, b"a".to_vec()),
        PersistentStorageEvent::Exit,
        PersistentStorageEvent::Put(2, b"late".to_vec()),
    ];
    let mut reports = 0;
    assert_eq!(
        drive(&mut actor, &mut engine, &mut mailbox, &mut reports),
        Some(ActorExit::Clean)
    );
    assert_eq!(scan(&engine), vec![(encode_key(1), b"a".to_vec())]);
    assert_eq!(mailbox, vec![PersistentStorageEvent::Put(2, b"late".to_vec())]);
    assert!(actor.is_stopped());
}

#[test]
fn closed_mailbox_closes_the_store() {
    let (_, mut actor) = LevelDB::run(Vec::new());
    actor.step(ActorEvent::Received(None));
    assert_eq!(actor.pending(), ActorAction::Close);
    actor.step(ActorEvent::Closed { ok: true });
    assert_eq!(actor.pending(), ActorAction::Finish(ActorExit::Clean));
}

#[test]
fn failed_close_is_fatal() {
    let (_, mut actor) = LevelDB::run(Vec::new());
    actor.step(ActorEvent::Received(Some(PersistentStorageEvent::Exit)));
    assert_eq!(actor.pending(), ActorAction::Close);
    actor.step(ActorEvent::Closed { ok: false });
    assert_eq!(actor.pending(), ActorAction::Finish(ActorExit::CloseFailed));
    assert!(actor.is_stopped());
}

#[test]
fn nothing_is_taken_while_closing() {
    let (_, mut actor) = LevelDB::run(Vec::new());
    actor.step(ActorEvent::Received(Some(PersistentStorageEvent::Exit)));
    actor.step(ActorEvent::Received(Some(PersistentStorageEvent::Put(1, vec![1]))));
    assert_eq!(actor.pending(), ActorAction::Close);
    actor.step(ActorEvent::Applied { ok: true });
    actor.step(ActorEvent::Reported);
    assert_eq!(actor.pending(), ActorAction::Close);
}

#[test]
fn stray_answers_leave_the_actor_alone() {
    let (_, mut actor) = LevelDB::run(Vec::new());
    actor.step(ActorEvent::Applied { ok: false });
    actor.step(ActorEvent::Reported);
    actor.step(ActorEvent::Closed { ok: false });
    assert_eq!(actor.pending(), ActorAction::Receive);
    actor.step(ActorEvent::Received(Some(PersistentStorageEvent::Put(4, b"v".to_vec()))));
    actor.step(ActorEvent::Received(Some(PersistentStorageEvent::Delete(9))));
    actor.step(ActorEvent::Closed { ok: true });
    assert_eq!(
        actor.pending(),
        ActorAction::Put { key: &[0, 0, 0, 0, 0, 0, 0, 4], value: b"v" }
    );
}

#[test]
fn handle_event_encodes_the_key() {
    assert_eq!(
        LevelDB::handle_event(PersistentStorageEvent::Put(1, b"v".to_vec())),
        Some(StoreOp::Put { key: vec![0, 0, 0, 0, 0, 0, 0, 1], value: b"v".to_vec() })
    );
    assert_eq!(
        LevelDB::handle_event(PersistentStorageEvent::Delete(u64::MAX)),
        Some(StoreOp::Delete { key: vec![0xff; 8] })
    );
}

#[test]
fn handle_event_writes_nothing_on_exit() {
    assert_eq!(LevelDB::handle_event(PersistentStorageEvent::Exit), None);
}

#[test]
fn eviction_becomes_a_delete() {
    assert_eq!(eviction_command(17), PersistentStorageEvent::Delete(17));
}

#[test]
fn persisting_becomes_a_put() {
    assert_eq!(persist_command(17, b"WORLD"), PersistentStorageEvent::Put(17, b"WORLD".to_vec()));
}

#[test]
fn what_was_put_is_recovered_after_a_restart() {
    let mut engine = Engine::new();
    let (_, mut actor) = LevelDB::run(scan(&engine));
    let mut mailbox = vec![
        persist_command(0xdead_beef, b"X"),
        persist_command(7, b"seven"),
        PersistentStorageEvent::Exit,
    ];
    let mut reports = 0;
    assert_eq!(
        drive(&mut actor, &mut engine, &mut mailbox, &mut reports),
        Some(ActorExit::Clean)
    );

    let (recovered, actor) = LevelDB::run(scan(&engine));
    assert_eq!(recovered.len(), 2);
    assert_eq!(recovered.get(&0xdead_beef), Some(&b"X".to_vec()));
    assert_eq!(recovered.get(&7), Some(&b"seven".to_vec()));
    assert_eq!(actor.pending(), ActorAction::Receive);
}

#[test]
fn what_was_evicted_is_not_recovered() {
    let mut engine = Engine::new();
    let (_, mut actor) = LevelDB::run(scan(&engine));
    let mut mailbox = vec![
        persist_command(1, b"a"),
        persist_command(2, b"b"),
        eviction_command(1),
        PersistentStorageEvent::Exit,
    ];
    let mut reports = 0;
    drive(&mut actor, &mut engine, &mut mailbox, &mut reports);
    let (recovered, _) = LevelDB::run(scan(&engine));
    assert_eq!(recovered.len(), 1);
    assert_eq!(recovered.get(&1), None);
    assert_eq!(recovered.get(&2), Some(&b"b".to_vec()));
}

#[test]
fn corrupt_records_are_gone_after_startup() {
    let mut engine = Engine::new();
    engine.insert(b"legacy".to_vec(), b"old".to_vec());
    engine.insert(Vec::new(), b"nameless".to_vec());
    engine.insert(encode_key(3), b"three".to_vec());
    let (recovered, mut actor) = LevelDB::run(scan(&engine));
    assert_eq!(recovered.len(), 1);
    assert_eq!(recovered.get(&3), Some(&b"three".to_vec()));
    let mut mailbox = Vec::new();
    let mut reports = 0;
    assert_eq!(drive(&mut actor, &mut engine, &mut mailbox, &mut reports), None);
    assert_eq!(scan(&engine), vec![(encode_key(3), b"three".to_vec())]);
}
