use respkv::database::Database;
use respkv::error::Error;
use respkv::server::{handle_command, handle_config, handle_connection, Action, Args, ReadEvent};

fn reply(action: Action) -> String {
    match action {
        Action::Reply(text) => text,
        Action::Close => panic!("the connection was closed"),
    }
}

#[test]
fn handle_config_seeds_what_was_given() {
    let mut db = Database::new();
    handle_config(Args { dir: None, dbfilename: None }, &mut db);
    assert_eq!(db.config.len(), 0);
    handle_config(Args { dir: Some("/data".to_string()), dbfilename: None }, &mut db);
    assert_eq!(db.config.get(&"dir".to_string()), Some(&"/data".to_string()));
    assert!(db.config.get(&"dbfilename".to_string()).is_none());
    assert_eq!(db.get_path(), None);
    handle_config(
        Args { dir: Some("/srv".to_string()), dbfilename: Some("dump.rdb".to_string()) },
        &mut db,
    );
    assert_eq!(db.get_path(), Some("/srv/dump.rdb".to_string()));
    assert_eq!(db.config.len(), 2);
}

#[test]
fn seeded_setting_is_answered_by_config_get() {
    let mut db = Database::new();
    handle_config(Args { dir: Some("/data".to_string()), dbfilename: None }, &mut db);
    assert_eq!(
        handle_command("*3\r\n$6\r\nCONFIG\r\n$3\r\nGET\r\n$3\r\ndir\r\n".to_string(), &mut db).unwrap(),
        "*2\r\n$3\r\ndir\r\n$5\r\n/data\r\n"
    );
}

#[test]
fn handle_command_decodes_and_runs() {
    let mut db = Database::new();
    assert_eq!(handle_command("*1\r\n$4\r\nPING\r\n".to_string(), &mut db).unwrap(), "+PONG\r\n");
    assert_eq!(
        handle_command("*3\r\n$3\r\nSET\r\n$3\r\nfoo\r\n$3\r\nbar\r\n".to_string(), &mut db).unwrap(),
        "+OK\r\n"
    );
    assert_eq!(
        handle_command("*2\r\n$3\r\nGET\r\n$3\r\nfoo\r\n".to_string(), &mut db).unwrap(),
        "$3\r\nbar\r\n"
    );
    assert_eq!(handle_command("".to_string(), &mut db).unwrap_err(), Error::ProtocolError);
    assert_eq!(
        handle_command("*1\r\n$4\r\nQUIT\r\n".to_string(), &mut db).unwrap_err(),
        Error::UnknownCommand("QUIT".to_string())
    );
}

#[test]
fn connection_answers_data() {
    let mut db = Database::new();
    let action = handle_connection(ReadEvent::Data(b"*1\r\n$4\r\nPING\r\n".to_vec()), &mut db);
    assert_eq!(reply(action), "+PONG\r\n");
    let action = handle_connection(
        ReadEvent::Data(b"*4\r\n$4\r\nXADD\r\n$1\r\ns\r\n$3\r\n0-1\r\n$5\r\nfield\r\n$5\r\nvalue\r\n".to_vec()),
        &mut db,
    );
    assert_eq!(reply(action), "$3\r\n0-1\r\n");
    let action = handle_connection(ReadEvent::Data(b"*2\r\n$4\r\nTYPE\r\n$1\r\ns\r\n".to_vec()), &mut db);
    assert_eq!(reply(action), "+stream\r\n");
}

#[test]
fn connection_answers_errors_with_their_message() {
    let mut db = Database::new();
    let action = handle_connection(ReadEvent::Data(b"*1\r\n$3\r\nFOO\r\n".to_vec()), &mut db);
    assert_eq!(reply(action), "Command is not recognized FOO");
    let action = handle_connection(ReadEvent::Data(b"\r\n".to_vec()), &mut db);
    assert_eq!(reply(action), "Request is malformed");
    let action = handle_connection(ReadEvent::Data(vec![0xFF, 0xFE, b'\r', b'\n']), &mut db);
    assert_eq!(reply(action), "Request is malformed");
    let action = handle_connection(ReadEvent::Data(Vec::new()), &mut db);
    assert_eq!(reply(action), "Request is malformed");
    assert_eq!(db.data.len(), 0);
}

#[test]
fn connection_closes_on_end_or_failure() {
    let mut db = Database::new();
    assert!(matches!(handle_connection(ReadEvent::EndOfStream, &mut db), Action::Close));
    assert!(matches!(handle_connection(ReadEvent::Failed, &mut db), Action::Close));
}
