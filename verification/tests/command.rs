use respkv::command::{deadline_after, unit_from, verb, verb_from, Command, Verb};
use respkv::database::{Database, Kind, Value};
use respkv::error::Error;
use respkv::resp::decoder::decode;
use respkv::resp::encoder::{bulk_string_encode, simple_string_encode};

fn cmd(name: &str, args: &[&str]) -> Command {
    Command { name: name.to_string(), args: args.iter().map(|a| a.to_string()).collect() }
}

#[test]
fn test_key_command() {
    let mut db = Database::new();
    db.data.insert(String::from("key1"), Value::string(String::from("value1"), None));

    let cmd = Command { name: String::from("type"), args: vec![String::from("key1")] };

    let result = cmd.execute(&mut db).unwrap();

    assert_eq!(result, simple_string_encode(&"string".to_string()))
}

#[test]
fn test_key_command_missing_key() {
    let mut db = Database::new();
    db.data.insert(String::from("key1"), Value::string(String::from("value1"), None));
    let cmd = Command { name: String::from("type"), args: vec![String::from("missing_key")] };

    let result = cmd.execute(&mut db).unwrap();

    assert_eq!(result, simple_string_encode(&"none".to_string()))
}

#[test]
fn test_xadd_command() {
    let mut db = Database::new();

    let cmd = Command {
        name: String::from("xadd"),
        args: vec![
            "stream_key".to_string(),
            "0-1".to_string(),
            "key".to_string(),
            "value".to_string(),
        ],
    };

    {
        let result = cmd.execute(&mut db).unwrap();
        assert_eq!(result, bulk_string_encode(&"0-1".to_string()));
    }

    {
        let cmd = Command { name: String::from("type"), args: vec![String::from("stream_key")] };

        let result = cmd.execute(&mut db).unwrap();
        assert_eq!(result, simple_string_encode(&"stream".to_string()));
    }
}

#[test]
fn ping_answers_pong() {
    let mut db = Database::new();
    assert_eq!(cmd("PING", &[]).ping_command(), "+PONG\r\n");
    assert_eq!(cmd("PING", &[]).execute(&mut db).unwrap(), "+PONG\r\n");
    assert_eq!(cmd("ping", &["extra"]).execute(&mut db).unwrap(), "+PONG\r\n");
}

#[test]
fn decoded_ping_answers_pong() {
    let mut db = Database::new();
    let command = decode(&"*1\r\n$4\r\nPING\r\n".to_string()).unwrap();
    assert_eq!(command.name, "PING");
    assert!(command.args.is_empty());
    assert_eq!(command.execute(&mut db).unwrap(), "+PONG\r\n");
}

#[test]
fn echo_joins_its_arguments() {
    let mut db = Database::new();
    assert_eq!(cmd("ECHO", &["hey"]).echo_command(), "$3\r\nhey\r\n");
    assert_eq!(cmd("echo", &["hello", "world"]).execute(&mut db).unwrap(), "$11\r\nhello world\r\n");
    assert_eq!(cmd("ECHO", &[]).execute(&mut db).unwrap(), "$0\r\n\r\n");
}

#[test]
fn verbs_are_found_in_any_case() {
    assert!(matches!(verb(&"PING".to_string()), Some(Verb::Ping)));
    assert!(matches!(verb(&"Echo".to_string()), Some(Verb::Echo)));
    assert!(matches!(verb(&"sEt".to_string()), Some(Verb::SetKey)));
    assert!(matches!(verb(&"GET".to_string()), Some(Verb::GetKey)));
    assert!(matches!(verb(&"config".to_string()), Some(Verb::Config)));
    assert!(matches!(verb(&"KeYs".to_string()), Some(Verb::Keys)));
    assert!(matches!(verb(&"TYPE".to_string()), Some(Verb::Type)));
    assert!(matches!(verb(&"xadd".to_string()), Some(Verb::Xadd)));
    assert!(verb(&"".to_string()).is_none());
    assert!(verb(&"PINGS".to_string()).is_none());
    assert!(verb(&"DEL".to_string()).is_none());
}

#[test]
fn verbs_are_found_by_their_unicode_lower_case() {
    assert!(matches!(verb(&"\u{212a}EYS".to_string()), Some(Verb::Keys)));
    assert!(matches!(verb(&"\u{212a}eys".to_string()), Some(Verb::Keys)));
    assert!(verb(&"\u{c9}CHO".to_string()).is_none());
    assert!(verb(&"p\u{130}ng".to_string()).is_none());
    assert!(verb(&"ke\u{fd}s".to_string()).is_none());
}

#[test]
fn keys_spelled_with_the_kelvin_sign_lists_the_keys() {
    let mut db = Database::new();
    cmd("SET", &["a", "1"]).execute(&mut db).unwrap();
    let plain = cmd("keys", &["*"]).execute_at(&mut db, 7).unwrap();
    let kelvin = cmd("\u{212a}EYS", &["*"]).execute_at(&mut db, 7).unwrap();
    assert_eq!(plain, "*1\r\n$1\r\na\r\n");
    assert_eq!(kelvin, plain);
}

#[test]
fn names_of_the_same_lower_case_answer_alike() {
    for name in ["PING", "ping", "PiNg"] {
        let mut db = Database::new();
        assert_eq!(cmd(name, &[]).execute(&mut db).unwrap(), "+PONG\r\n");
    }
    for name in ["SET", "set", "Set", "sEt"] {
        let mut db = Database::new();
        assert_eq!(cmd(name, &["k", "v", "Px", "5"]).execute_at(&mut db, 10).unwrap(), "+OK\r\n");
        assert_eq!(db.data.get(&"k".to_string()).unwrap().expire_at, Some(5_000_010));
    }
}

#[test]
fn verb_from_takes_lower_case_only() {
    let word = |s: &str| s.chars().collect::<Vec<char>>();
    assert!(matches!(verb_from(&word("ping")), Some(Verb::Ping)));
    assert!(matches!(verb_from(&word("echo")), Some(Verb::Echo)));
    assert!(matches!(verb_from(&word("set")), Some(Verb::SetKey)));
    assert!(matches!(verb_from(&word("get")), Some(Verb::GetKey)));
    assert!(matches!(verb_from(&word("config")), Some(Verb::Config)));
    assert!(matches!(verb_from(&word("keys")), Some(Verb::Keys)));
    assert!(matches!(verb_from(&word("type")), Some(Verb::Type)));
    assert!(matches!(verb_from(&word("xadd")), Some(Verb::Xadd)));
    assert!(verb_from(&word("PING")).is_none());
    assert!(verb_from(&word("")).is_none());
    assert!(verb_from(&word("\u{212a}eys")).is_none());
}

#[test]
fn unit_from_knows_px_and_ex() {
    let word = |s: &str| s.chars().collect::<Vec<char>>();
    assert_eq!(unit_from(&word("px")), Some(1_000_000));
    assert_eq!(unit_from(&word("ex")), Some(1_000_000_000));
    assert_eq!(unit_from(&word("PX")), None);
    assert_eq!(unit_from(&word("nx")), None);
    assert_eq!(unit_from(&word("")), None);
}

#[test]
fn unknown_verb_is_refused_with_its_name() {
    let mut db = Database::new();
    let err = cmd("FLUSHALL", &["x"]).execute(&mut db).unwrap_err();
    assert_eq!(err, Error::UnknownCommand("FLUSHALL".to_string()));
    assert_eq!(err.message(), "Command is not recognized FLUSHALL");
    assert_eq!(db.data.len(), 0);
}

#[test]
fn set_then_get_returns_the_value() {
    let mut db = Database::new();
    assert_eq!(cmd("SET", &["foo", "bar"]).execute(&mut db).unwrap(), "+OK\r\n");
    assert_eq!(cmd("GET", &["foo"]).execute(&mut db).unwrap(), "$3\r\nbar\r\n");
    assert_eq!(cmd("TYPE", &["foo"]).execute(&mut db).unwrap(), "+string\r\n");
}

#[test]
fn get_and_type_of_absent_key() {
    let mut db = Database::new();
    assert_eq!(cmd("GET", &["nothing"]).execute(&mut db).unwrap(), "$-1\r\n");
    assert_eq!(cmd("TYPE", &["nothing"]).execute(&mut db).unwrap(), "+none\r\n");
}

#[test]
fn set_overwrites_until_overwritten_again() {
    let mut db = Database::new();
    cmd("SET", &["foo", "one"]).execute_at(&mut db, 1_000).unwrap();
    cmd("SET", &["other", "x"]).execute_at(&mut db, 1_001).unwrap();
    assert_eq!(cmd("GET", &["foo"]).execute_at(&mut db, 1_002).unwrap(), "$3\r\none\r\n");
    cmd("SET", &["foo", "three"]).execute_at(&mut db, 1_003).unwrap();
    assert_eq!(cmd("GET", &["foo"]).execute_at(&mut db, 1_004).unwrap(), "$5\r\nthree\r\n");
    assert_eq!(db.data.len(), 2);
}

#[test]
fn set_px_zero_is_masked_at_once_but_keeps_its_type() {
    let mut db = Database::new();
    assert_eq!(cmd("SET", &["k", "v", "PX", "0"]).execute_at(&mut db, 5_000).unwrap(), "+OK\r\n");
    assert_eq!(cmd("GET", &["k"]).execute_at(&mut db, 5_000).unwrap(), "$-1\r\n");
    assert_eq!(cmd("GET", &["k"]).execute_at(&mut db, 9_999_999).unwrap(), "$-1\r\n");
    assert_eq!(cmd("TYPE", &["k"]).execute_at(&mut db, 9_999_999).unwrap(), "+string\r\n");
    assert_eq!(db.data.len(), 1);
    assert_eq!(db.data.get(&"k".to_string()).unwrap().scalar, "v");
}

#[test]
fn set_px_zero_is_masked_with_the_real_clock() {
    let mut db = Database::new();
    cmd("set", &["k", "v", "px", "0"]).execute(&mut db).unwrap();
    assert_eq!(cmd("get", &["k"]).execute(&mut db).unwrap(), "$-1\r\n");
    assert_eq!(cmd("type", &["k"]).execute(&mut db).unwrap(), "+string\r\n");
}

#[test]
fn set_with_deadline_expires_exactly_then() {
    let mut db = Database::new();
    cmd("SET", &["k", "v", "PX", "100"]).execute_at(&mut db, 1_000).unwrap();
    assert_eq!(db.data.get(&"k".to_string()).unwrap().expire_at, Some(100_001_000));
    assert_eq!(cmd("GET", &["k"]).execute_at(&mut db, 100_000_999).unwrap(), "$1\r\nv\r\n");
    assert_eq!(cmd("GET", &["k"]).execute_at(&mut db, 100_001_000).unwrap(), "$-1\r\n");
    cmd("SET", &["s", "v", "ex", "2"]).execute_at(&mut db, 1_000).unwrap();
    assert_eq!(db.data.get(&"s".to_string()).unwrap().expire_at, Some(2_000_001_000));
    assert_eq!(cmd("GET", &["s"]).execute_at(&mut db, 2_000_000_999).unwrap(), "$1\r\nv\r\n");
    assert_eq!(cmd("GET", &["s"]).execute_at(&mut db, 2_000_001_000).unwrap(), "$-1\r\n");
}

#[test]
fn set_with_negative_count_is_already_expired() {
    let mut db = Database::new();
    cmd("SET", &["k", "v", "EX", "-1"]).execute_at(&mut db, 10_000).unwrap();
    assert_eq!(db.data.get(&"k".to_string()).unwrap().expire_at, Some(-999_990_000));
    assert_eq!(cmd("GET", &["k"]).execute_at(&mut db, 10_000).unwrap(), "$-1\r\n");
}

#[test]
fn set_reads_the_clock_for_its_deadline() {
    let mut db = Database::new();
    let before = chrono::Utc::now().timestamp_nanos_opt().unwrap() as i128;
    cmd("SET", &["k", "v", "EX", "60"]).execute(&mut db).unwrap();
    let after = chrono::Utc::now().timestamp_nanos_opt().unwrap() as i128;
    let deadline = db.data.get(&"k".to_string()).unwrap().expire_at.unwrap();
    assert!(before + 60_000_000_000 <= deadline && deadline <= after + 60_000_000_000);
    assert_eq!(cmd("GET", &["k"]).execute(&mut db).unwrap(), "$1\r\nv\r\n");
}

#[test]
fn set_with_other_third_argument_has_no_deadline() {
    let mut db = Database::new();
    assert_eq!(cmd("SET", &["k", "v", "NX"]).execute_at(&mut db, 1).unwrap(), "+OK\r\n");
    assert_eq!(db.data.get(&"k".to_string()).unwrap().expire_at, None);
    assert_eq!(cmd("SET", &["j", "v", "KEEPTTL", "abc"]).execute_at(&mut db, 1).unwrap(), "+OK\r\n");
    assert_eq!(db.data.get(&"j".to_string()).unwrap().expire_at, None);
}

#[test]
fn set_with_unit_needs_an_integer_count() {
    let mut db = Database::new();
    assert_eq!(cmd("SET", &["k", "v", "PX"]).execute_at(&mut db, 1).unwrap_err(), Error::ProtocolError);
    assert_eq!(
        cmd("SET", &["k", "v", "EX", "soon"]).execute_at(&mut db, 1).unwrap_err(),
        Error::ProtocolError
    );
    assert_eq!(
        cmd("SET", &["k", "v", "EX", "9223372036854775808"]).execute_at(&mut db, 1).unwrap_err(),
        Error::ProtocolError
    );
    assert_eq!(db.data.len(), 0);
}

#[test]
fn set_takes_every_count_at_any_time_of_the_clock() {
    let mut db = Database::new();
    assert_eq!(
        cmd("SET", &["k", "v", "EX", "9223372036854775807"]).execute(&mut db).unwrap(),
        "+OK\r\n"
    );
    assert_eq!(cmd("GET", &["k"]).execute(&mut db).unwrap(), "$1\r\nv\r\n");
    assert_eq!(
        cmd("SET", &["k", "v", "EX", "-9223372036854775808"]).execute(&mut db).unwrap(),
        "+OK\r\n"
    );
    assert_eq!(cmd("GET", &["k"]).execute(&mut db).unwrap(), "$-1\r\n");
    assert_eq!(
        cmd("SET", &["k", "v", "EX", "9223372036854775807"]).execute_at(&mut db, 1).unwrap(),
        "+OK\r\n"
    );
    assert_eq!(
        db.data.get(&"k".to_string()).unwrap().expire_at,
        Some(9_223_372_036_854_775_807_000_000_001)
    );
}

#[test]
fn set_refuses_a_deadline_beyond_the_last_instant() {
    let mut db = Database::new();
    assert_eq!(
        cmd("SET", &["k", "v", "PX", "1"]).execute_at(&mut db, i128::MAX).unwrap_err(),
        Error::ProtocolError
    );
    assert_eq!(
        cmd("SET", &["k", "v", "PX", "-1"]).execute_at(&mut db, i128::MIN).unwrap_err(),
        Error::ProtocolError
    );
    assert_eq!(db.data.len(), 0);
    assert_eq!(cmd("SET", &["k", "v", "PX", "0"]).execute_at(&mut db, i128::MAX).unwrap(), "+OK\r\n");
    assert_eq!(db.data.get(&"k".to_string()).unwrap().expire_at, Some(i128::MAX));
}

#[test]
fn commands_without_their_arguments_are_refused() {
    let mut db = Database::new();
    assert_eq!(cmd("SET", &[]).execute(&mut db).unwrap_err(), Error::ProtocolError);
    assert_eq!(cmd("SET", &["k"]).execute(&mut db).unwrap_err(), Error::ProtocolError);
    assert_eq!(cmd("GET", &[]).execute(&mut db).unwrap_err(), Error::ProtocolError);
    assert_eq!(cmd("CONFIG", &[]).execute(&mut db).unwrap_err(), Error::ProtocolError);
    assert_eq!(cmd("CONFIG", &["GET"]).execute(&mut db).unwrap_err(), Error::ProtocolError);
    assert_eq!(cmd("KEYS", &[]).execute(&mut db).unwrap_err(), Error::ProtocolError);
    assert_eq!(cmd("TYPE", &[]).execute(&mut db).unwrap_err(), Error::ProtocolError);
    assert_eq!(cmd("XADD", &[]).execute(&mut db).unwrap_err(), Error::ProtocolError);
    assert_eq!(cmd("XADD", &["s"]).execute(&mut db).unwrap_err(), Error::ProtocolError);
    assert_eq!(cmd("XADD", &["s", "0-1", "field"]).execute(&mut db).unwrap_err(), Error::ProtocolError);
    assert_eq!(db.data.len(), 0);
}

#[test]
fn config_get_answers_name_and_value() {
    let mut db = Database::new();
    db.config.insert("dir".to_string(), "/tmp/redis-files".to_string());
    assert_eq!(
        cmd("CONFIG", &["GET", "dir"]).execute(&mut db).unwrap(),
        "*2\r\n$3\r\ndir\r\n$16\r\n/tmp/redis-files\r\n"
    );
    assert_eq!(cmd("CONFIG", &["GET", "dbfilename"]).execute(&mut db).unwrap(), "$-1\r\n");
}

#[test]
fn keys_star_lists_every_key() {
    let mut db = Database::new();
    assert_eq!(cmd("KEYS", &["*"]).execute(&mut db).unwrap(), "*0\r\n");
    cmd("SET", &["b", "1"]).execute(&mut db).unwrap();
    cmd("SET", &["a", "2"]).execute(&mut db).unwrap();
    cmd("XADD", &["s", "0-1"]).execute(&mut db).unwrap();
    cmd("SET", &["b", "3"]).execute(&mut db).unwrap();
    assert_eq!(
        cmd("KEYS", &["*"]).execute(&mut db).unwrap(),
        "*3\r\n$1\r\nb\r\n$1\r\na\r\n$1\r\ns\r\n"
    );
    let mut keys: Vec<String> = db.data.keys().into_iter().cloned().collect();
    keys.sort();
    assert_eq!(keys, vec!["a", "b", "s"]);
}

#[test]
fn keys_lists_expired_keys_too() {
    let mut db = Database::new();
    cmd("SET", &["gone", "v", "PX", "0"]).execute_at(&mut db, 100).unwrap();
    assert_eq!(cmd("KEYS", &["*"]).execute_at(&mut db, 200).unwrap(), "*1\r\n$4\r\ngone\r\n");
}

#[test]
fn keys_with_another_pattern_answers_null() {
    let mut db = Database::new();
    cmd("SET", &["abc", "1"]).execute(&mut db).unwrap();
    assert_eq!(cmd("KEYS", &["a*"]).execute(&mut db).unwrap(), "$-1\r\n");
    assert_eq!(cmd("KEYS", &["abc"]).execute(&mut db).unwrap(), "$-1\r\n");
    assert_eq!(cmd("KEYS", &["**"]).execute(&mut db).unwrap(), "$-1\r\n");
}

#[test]
fn xadd_replaces_the_stream_and_keeps_fields() {
    let mut db = Database::new();
    assert_eq!(
        cmd("XADD", &["s", "0-1", "field", "value"]).execute(&mut db).unwrap(),
        "$3\r\n0-1\r\n"
    );
    assert_eq!(cmd("TYPE", &["s"]).execute(&mut db).unwrap(), "+stream\r\n");
    assert_eq!(
        cmd("XADD", &["s", "0-2", "a", "1", "b", "2", "a", "3"]).execute(&mut db).unwrap(),
        "$3\r\n0-2\r\n"
    );
    let value = db.data.get(&"s".to_string()).unwrap();
    assert_eq!(value.scalar, "0-2");
    assert_eq!(value.expire_at, None);
    match &value.kind {
        Kind::Stream(entries) => {
            assert_eq!(entries.len(), 2);
            assert_eq!(entries.get(&"a".to_string()), Some(&"3".to_string()));
            assert_eq!(entries.get(&"b".to_string()), Some(&"2".to_string()));
            assert!(entries.get(&"field".to_string()).is_none());
        }
        Kind::String => panic!("a stream was written"),
    }
    assert_eq!(cmd("GET", &["s"]).execute(&mut db).unwrap(), "$3\r\n0-2\r\n");
}

#[test]
fn set_over_a_stream_makes_it_a_string() {
    let mut db = Database::new();
    cmd("XADD", &["k", "0-1", "f", "v"]).execute(&mut db).unwrap();
    cmd("SET", &["k", "plain"]).execute(&mut db).unwrap();
    assert_eq!(cmd("TYPE", &["k"]).execute(&mut db).unwrap(), "+string\r\n");
    assert!(matches!(db.data.get(&"k".to_string()).unwrap().kind, Kind::String));
    cmd("SET", &["k", "timed", "EX", "10"]).execute_at(&mut db, 0).unwrap();
    cmd("XADD", &["k", "0-2"]).execute_at(&mut db, 1).unwrap();
    assert_eq!(cmd("GET", &["k"]).execute_at(&mut db, i128::MAX).unwrap(), "$3\r\n0-2\r\n");
}

#[test]
fn reads_do_not_change_the_store() {
    let mut db = Database::new();
    cmd("SET", &["k", "v", "PX", "1"]).execute_at(&mut db, 0).unwrap();
    for name in ["GET", "TYPE", "KEYS", "PING", "ECHO"] {
        cmd(name, &["k"]).execute_at(&mut db, 50).unwrap();
    }
    cmd("CONFIG", &["GET", "k"]).execute_at(&mut db, 50).unwrap();
    assert_eq!(db.data.len(), 1);
    assert_eq!(db.config.len(), 0);
    let value = db.data.get(&"k".to_string()).unwrap();
    assert_eq!(value.scalar, "v");
    assert_eq!(value.expire_at, Some(1_000_000));
}

#[test]
fn deadline_after_adds_or_refuses() {
    assert_eq!(deadline_after(1_000, 5, 1000), Some(6_000));
    assert_eq!(deadline_after(1_000, -5, 1), Some(995));
    assert_eq!(deadline_after(7, 3, 1_000_000_000), Some(3_000_000_007));
    assert_eq!(deadline_after(i128::MAX, 0, 1000), Some(i128::MAX));
    assert_eq!(deadline_after(i128::MAX, 1, 1), None);
    assert_eq!(deadline_after(i128::MAX, -1, 1), Some(i128::MAX - 1));
    assert_eq!(deadline_after(i128::MIN, -1, 1), None);
    assert_eq!(deadline_after(i128::MIN, 1, 1), Some(i128::MIN + 1));
    assert_eq!(deadline_after(i128::MAX - 10, 1, 10), Some(i128::MAX));
    assert_eq!(deadline_after(i128::MAX - 10, 1, 11), None);
    assert_eq!(
        deadline_after(0, i64::MIN, i64::MAX),
        Some(i64::MIN as i128 * i64::MAX as i128)
    );
    assert_eq!(
        deadline_after(-5, i64::MIN, i64::MIN),
        Some(i64::MIN as i128 * i64::MIN as i128 - 5)
    );
}

#[test]
fn value_knows_kind_and_readability() {
    let v = Value::string("x".to_string(), Some(10));
    assert_eq!(v.kind_name(), "string");
    assert!(v.is_readable(9));
    assert!(!v.is_readable(10));
    assert!(!v.is_readable(11));
    let v = Value::string("x".to_string(), None);
    assert!(v.is_readable(i128::MAX));
    let v = Value::stream("0-1".to_string(), respkv::dict::Dict::new());
    assert_eq!(v.kind_name(), "stream");
    assert_eq!(v.expire_at, None);
    assert!(v.is_readable(i128::MAX));
}
