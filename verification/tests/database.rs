use respkv::command::Command;
use respkv::database::{Database, Value};
use respkv::error::Error;

fn dump() -> Vec<u8> {
    let mut file = b"REDIS0011".to_vec();
    file.extend_from_slice(&[0xFA, 0x09]);
    file.extend_from_slice(b"redis-ver");
    file.extend_from_slice(&[0x05]);
    file.extend_from_slice(b"7.2.0");
    file.extend_from_slice(&[0xFE, 0x00, 0xFB, 0x03, 0x01]);
    file.extend_from_slice(&[0x00, 0x04]);
    file.extend_from_slice(b"key1");
    file.extend_from_slice(&[0x06]);
    file.extend_from_slice(b"value1");
    file.extend_from_slice(&[0xFC]);
    file.extend_from_slice(&4_102_444_800_000u64.to_le_bytes());
    file.extend_from_slice(&[0x00, 0x07]);
    file.extend_from_slice(b"key_exp");
    file.extend_from_slice(&[0x03]);
    file.extend_from_slice(b"exp");
    file.extend_from_slice(&[0x00, 0x04]);
    file.extend_from_slice(b"key2");
    file.extend_from_slice(&[0x06]);
    file.extend_from_slice(b"value2");
    file.extend_from_slice(&[0xFF, 0, 0, 0, 0, 0, 0, 0, 0]);
    file
}

#[test]
fn test_import() {
    let mut db = Database::new();
    let _result = db.restore(dump()).unwrap();
    assert_eq!(db.data.keys().len(), 3);
    let expired_keys = db.data.get(&"key_exp".to_string()).unwrap();
    assert!(expired_keys.expire_at.is_some());
}

#[test]
fn restored_key_is_served() {
    let mut file = b"REDIS0011".to_vec();
    file.extend_from_slice(&[0xFE, 0x00, 0xFB, 0x01, 0x00, 0x00, 0x04]);
    file.extend_from_slice(b"key1");
    file.extend_from_slice(&[0x06]);
    file.extend_from_slice(b"value1");
    file.push(0xFF);
    let mut db = Database::new();
    db.restore(file).unwrap();
    let get = Command { name: "GET".to_string(), args: vec!["key1".to_string()] };
    assert_eq!(get.execute(&mut db).unwrap(), "$6\r\nvalue1\r\n");
}

#[test]
fn restored_deadline_is_honoured() {
    let mut db = Database::new();
    db.restore(dump()).unwrap();
    let get = Command { name: "GET".to_string(), args: vec!["key_exp".to_string()] };
    assert_eq!(get.execute_at(&mut db, 4_102_444_799_999_999_999).unwrap(), "$3\r\nexp\r\n");
    assert_eq!(get.execute_at(&mut db, 4_102_444_800_000_000_000).unwrap(), "$-1\r\n");
    let keys = Command { name: "KEYS".to_string(), args: vec!["*".to_string()] };
    assert_eq!(
        keys.execute_at(&mut db, 4_102_444_800_000_000_000).unwrap(),
        "*3\r\n$4\r\nkey1\r\n$7\r\nkey_exp\r\n$4\r\nkey2\r\n"
    );
}

#[test]
fn restore_replaces_the_entries_and_keeps_the_configuration() {
    let mut db = Database::new();
    db.config.insert("dir".to_string(), "/data".to_string());
    db.data.insert("old".to_string(), Value::string("x".to_string(), None));
    db.restore(dump()).unwrap();
    assert!(db.data.get(&"old".to_string()).is_none());
    assert_eq!(db.data.len(), 3);
    assert_eq!(db.config.get(&"dir".to_string()), Some(&"/data".to_string()));
}

#[test]
fn failed_restore_leaves_the_store_alone() {
    let mut db = Database::new();
    db.data.insert("old".to_string(), Value::string("x".to_string(), None));
    let mut file = dump();
    file.truncate(40);
    assert_eq!(db.restore(file).unwrap_err(), Error::EncodingError);
    assert_eq!(db.restore(Vec::new()).unwrap_err(), Error::EncodingError);
    assert_eq!(db.data.len(), 1);
    assert_eq!(db.data.get(&"old".to_string()).unwrap().scalar, "x");
}

#[test]
fn new_database_is_empty() {
    let db = Database::new();
    assert_eq!(db.data.len(), 0);
    assert_eq!(db.config.len(), 0);
    assert_eq!(db.get_path(), None);
}

#[test]
fn get_path_needs_both_settings() {
    let mut db = Database::new();
    db.config.insert("dir".to_string(), "/tmp/redis-files".to_string());
    assert_eq!(db.get_path(), None);
    db.config.insert("dbfilename".to_string(), "dump.rdb".to_string());
    assert_eq!(db.get_path(), Some("/tmp/redis-files/dump.rdb".to_string()));
    let mut db = Database::new();
    db.config.insert("dbfilename".to_string(), "dump.rdb".to_string());
    assert_eq!(db.get_path(), None);
}

#[test]
fn error_messages() {
    assert_eq!(Error::ProtocolError.message(), "Request is malformed");
    assert_eq!(Error::EncodingError.message(), "Snapshot is malformed");
    assert_eq!(Error::UnknownCommand("HELLO".to_string()).message(), "Command is not recognized HELLO");
}
