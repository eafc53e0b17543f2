use omnipaxos_kv::database::{CommandResult, Database};
use omnipaxos_kv::kv::KVCommand;

fn put(db: &mut Database, key: &str, value: &str) -> CommandResult {
    db.handle_command(KVCommand::Put(key.to_string(), value.to_string()))
}

fn get(db: &mut Database, key: &str) -> Option<String> {
    match db.handle_command(KVCommand::Get(key.to_string())) {
        CommandResult::Read(value) => value,
        other => panic!("a read gave {:?}", other),
    }
}

fn cas(db: &mut Database, key: &str, from: &str, to: &str) -> bool {
    let command = KVCommand::Cas(key.to_string(), from.to_string(), to.to_string());
    match db.handle_command(command) {
        CommandResult::Cas(applied) => applied,
        other => panic!("a compare-and-set gave {:?}", other),
    }
}

#[test]
fn new_store_is_empty() {
    let mut db = Database::new();
    assert_eq!(get(&mut db, "foo"), None);
}

#[test]
fn read_finds_what_was_put() {
    let mut db = Database::new();
    assert!(matches!(put(&mut db, "foo", "bar"), CommandResult::Write));
    assert_eq!(get(&mut db, "foo"), Some("bar".to_string()));
    assert_eq!(get(&mut db, "foo"), Some("bar".to_string()));
}

#[test]
fn put_overwrites() {
    let mut db = Database::new();
    put(&mut db, "foo", "bar");
    put(&mut db, "foo", "baz");
    assert_eq!(get(&mut db, "foo"), Some("baz".to_string()));
}

#[test]
fn delete_removes_and_succeeds_on_unset_keys() {
    let mut db = Database::new();
    put(&mut db, "foo", "bar");
    let gone = db.handle_command(KVCommand::Delete("foo".to_string()));
    assert!(matches!(gone, CommandResult::Write));
    assert_eq!(get(&mut db, "foo"), None);
    let again = db.handle_command(KVCommand::Delete("foo".to_string()));
    assert!(matches!(again, CommandResult::Write));
}

#[test]
fn cas_with_the_right_value_sets_the_new_one() {
    let mut db = Database::new();
    put(&mut db, "foo", "bar");
    assert!(cas(&mut db, "foo", "bar", "baz"));
    assert_eq!(get(&mut db, "foo"), Some("baz".to_string()));
}

#[test]
fn cas_with_a_wrong_value_changes_nothing() {
    let mut db = Database::new();
    put(&mut db, "foo", "bar");
    assert!(!cas(&mut db, "foo", "qux", "baz"));
    assert_eq!(get(&mut db, "foo"), Some("bar".to_string()));
}

#[test]
fn cas_on_an_unset_key_fails() {
    let mut db = Database::new();
    assert!(!cas(&mut db, "foo", "", "baz"));
    assert_eq!(get(&mut db, "foo"), None);
}

#[test]
fn keys_do_not_interfere() {
    let mut db = Database::new();
    put(&mut db, "a", "1");
    put(&mut db, "b", "2");
    cas(&mut db, "a", "1", "3");
    assert_eq!(get(&mut db, "a"), Some("3".to_string()));
    assert_eq!(get(&mut db, "b"), Some("2".to_string()));
    assert_eq!(get(&mut db, "c"), None);
}
