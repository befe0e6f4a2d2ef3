use agent_web_server::message::ChatMessage;
use agent_web_server::store::{clear_history_by_uuid, clear_old_history, TranscriptStore};

fn roles_and_contents(turns: &[ChatMessage]) -> Vec<(String, String)> {
    turns.iter().map(|t| (t.role.clone(), t.content.clone())).collect()
}

#[test]
fn load_returns_only_own_subject_in_order() {
    let mut store = TranscriptStore::new();
    store.append(ChatMessage::create_user("a", "a1"), 10);
    store.append(ChatMessage::create_user("b", "b1"), 11);
    store.append(ChatMessage::create_assistant("a", "a2"), 12);
    store.append(ChatMessage::create_assistant("b", "b2"), 13);
    let a = store.load("a");
    assert_eq!(
        roles_and_contents(&a),
        vec![
            ("User".to_string(), "a1".to_string()),
            ("Assistant".to_string(), "a2".to_string())
        ]
    );
    let b = store.load("b");
    assert_eq!(
        roles_and_contents(&b),
        vec![
            ("User".to_string(), "b1".to_string()),
            ("Assistant".to_string(), "b2".to_string())
        ]
    );
    assert!(store.load("c").is_empty());
}

#[test]
fn clear_then_load_is_empty() {
    let mut store = TranscriptStore::new();
    store.append(ChatMessage::create_user("a", "a1"), 1);
    store.append(ChatMessage::create_assistant("a", "a2"), 2);
    store.append(ChatMessage::create_user("b", "b1"), 3);
    store.clear("a");
    assert!(store.load("a").is_empty());
    assert_eq!(store.load("b").len(), 1);
}

#[test]
fn clear_history_by_uuid_deletes_only_that_subject() {
    let mut store = TranscriptStore::new();
    store.append(ChatMessage::create_user("a", "a1"), 1);
    store.append(ChatMessage::create_user("b", "b1"), 2);
    clear_history_by_uuid(&mut store, "b");
    assert_eq!(store.load("a").len(), 1);
    assert!(store.load("b").is_empty());
}

#[test]
fn sweep_with_no_stale_subject_deletes_nothing() {
    let mut store = TranscriptStore::new();
    store.append(ChatMessage::create_user("a", "a1"), 1000);
    store.append(ChatMessage::create_user("b", "b1"), 1900);
    let removed = store.sweep(1000, 2000);
    assert_eq!(removed, 0);
    assert_eq!(store.load("a").len(), 1);
    assert_eq!(store.load("b").len(), 1);
}

#[test]
fn sweep_deletes_whole_stale_subjects() {
    let mut store = TranscriptStore::new();
    store.append(ChatMessage::create_user("stale", "s1"), 100);
    store.append(ChatMessage::create_assistant("stale", "s2"), 200);
    store.append(ChatMessage::create_user("fresh", "f1"), 150);
    store.append(ChatMessage::create_assistant("fresh", "f2"), 1950);
    let removed = store.sweep(100, 2000);
    assert_eq!(removed, 2);
    assert!(store.load("stale").is_empty());
    assert_eq!(store.load("fresh").len(), 2);
}

#[test]
fn sweep_keeps_subject_with_newest_exactly_at_cutoff() {
    let mut store = TranscriptStore::new();
    store.append(ChatMessage::create_user("edge", "e1"), 1000);
    let removed = store.sweep(1000, 2000);
    assert_eq!(removed, 0);
    assert_eq!(store.load("edge").len(), 1);
}

#[test]
fn clear_old_history_uses_days() {
    let mut store = TranscriptStore::new();
    let day: u64 = 86400;
    store.append(ChatMessage::create_user("old", "o1"), day - 100);
    store.append(ChatMessage::create_user("new", "n1"), 2 * day);
    let removed = clear_old_history(&mut store, 30, 31 * day);
    assert_eq!(removed, 1);
    assert!(store.load("old").is_empty());
    assert_eq!(store.load("new").len(), 1);
}

#[test]
fn empty_store_operations_are_no_ops() {
    let mut store = TranscriptStore::new();
    assert!(store.load("nobody").is_empty());
    store.clear("nobody");
    assert_eq!(store.sweep(10, 1000), 0);
    assert!(store.load("nobody").is_empty());
}

#[test]
fn clear_of_absent_subject_changes_nothing() {
    let mut store = TranscriptStore::new();
    store.append(ChatMessage::create_user("a", "a1"), 1);
    store.clear("ghost");
    assert_eq!(store.load("a").len(), 1);
}

#[test]
fn persist_and_load_all_round_trip() {
    let mut store = TranscriptStore::new();
    let msg = ChatMessage::create_user("s", "hello");
    msg.persist(&mut store, 5);
    let turns = ChatMessage::load_all(&store, "s");
    assert_eq!(turns.len(), 1);
    assert_eq!(turns[0].content, "hello");
    assert_eq!(turns[0].role, "User");
    assert_eq!(turns[0].uuid, "s");
}

#[test]
fn snapshot_replays_into_an_equal_store() {
    let mut store = TranscriptStore::new();
    store.append(ChatMessage::create_user("a", "a1"), 10);
    store.append(ChatMessage::create_assistant("a", "a2"), 20);
    store.append(ChatMessage::create_user("b", "b1"), 30);

    let rows = store.snapshot();
    assert_eq!(rows.len(), 3);
    assert_eq!(rows[0].0.content, "a1");
    assert_eq!(rows[0].1, 10);
    assert_eq!(rows[2].0.uuid, "b");
    assert_eq!(rows[2].1, 30);

    let mut copy = TranscriptStore::new();
    for (msg, time) in rows {
        copy.append(msg, time);
    }
    assert_eq!(roles_and_contents(&copy.load("a")), roles_and_contents(&store.load("a")));
    assert_eq!(roles_and_contents(&copy.load("b")), roles_and_contents(&store.load("b")));
    assert_eq!(copy.sweep(5, 30), 2);
    assert_eq!(store.sweep(5, 30), 2);
    assert!(copy.load("a").is_empty());
    assert_eq!(copy.load("b").len(), 1);
}

#[test]
fn interleaved_subjects_never_mix() {
    let mut store = TranscriptStore::new();
    for i in 0..10u64 {
        store.append(ChatMessage::create_user("a", &format!("a{i}")), i);
        store.append(ChatMessage::create_user("b", &format!("b{i}")), i);
    }
    let a = store.load("a");
    assert_eq!(a.len(), 10);
    for (i, turn) in a.iter().enumerate() {
        assert_eq!(turn.uuid, "a");
        assert_eq!(turn.content, format!("a{i}"));
    }
    let b = store.load("b");
    assert_eq!(b.len(), 10);
    for (i, turn) in b.iter().enumerate() {
        assert_eq!(turn.uuid, "b");
        assert_eq!(turn.content, format!("b{i}"));
    }
}
