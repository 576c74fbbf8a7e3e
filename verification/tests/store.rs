use rcollection::store::{new_shard_db, Command, PlainFrame as Frame, ProcessError, Reply, Store};

fn bulk(s: &str) -> Frame {
    Frame::Bulk(s.as_bytes().to_vec())
}

fn value_of(r: Result<Reply, ProcessError>) -> Option<Vec<u8>> {
    match r {
        Ok(Reply::Bulk(v)) => Some(v),
        Ok(Reply::Null) => None,
        other => panic!("unexpected reply {:?}", other),
    }
}

#[test]
fn get_of_missing_key_is_null() {
    let mut db = Store::new();
    let r = db.execute(Command::GetValue { key: "k".to_string() });
    assert!(matches!(r, Ok(Reply::Null)));
}

#[test]
fn set_answers_ok_and_get_reads_it_back() {
    let mut db = Store::new();
    let r = db.execute(Command::SetValue { key: "k".to_string(), value: b"v1".to_vec() });
    match r {
        Ok(Reply::Simple(s)) => assert_eq!(s, "OK"),
        other => panic!("unexpected reply {:?}", other),
    }
    let r = db.execute(Command::GetValue { key: "k".to_string() });
    assert_eq!(value_of(r), Some(b"v1".to_vec()));
}

#[test]
fn last_set_wins_and_other_keys_stay() {
    let mut db = Store::new();
    let _ = db.execute(Command::SetValue { key: "a".to_string(), value: b"1".to_vec() });
    let _ = db.execute(Command::SetValue { key: "b".to_string(), value: b"2".to_vec() });
    let _ = db.execute(Command::SetValue { key: "a".to_string(), value: b"3".to_vec() });
    assert_eq!(value_of(db.execute(Command::GetValue { key: "a".to_string() })), Some(b"3".to_vec()));
    assert_eq!(value_of(db.execute(Command::GetValue { key: "b".to_string() })), Some(b"2".to_vec()));
}

#[test]
fn unsupported_commands_are_refused() {
    let mut db = Store::new();
    let r = db.execute(Command::Publish);
    assert!(matches!(r, Err(ProcessError::Unimplemented(Command::Publish))));
    let r = db.execute(Command::Unknown);
    assert!(matches!(r, Err(ProcessError::Unimplemented(Command::Unknown))));
}

#[test]
fn frames_are_parsed_and_executed() {
    let mut db = Store::new();
    let set = Frame::Array(vec![bulk("set"), bulk("hello"), bulk("world")]);
    match db.process_frame(set) {
        Ok(Reply::Simple(s)) => assert_eq!(s, "OK"),
        other => panic!("unexpected reply {:?}", other),
    }
    let get = Frame::Array(vec![bulk("GET"), bulk("hello")]);
    assert_eq!(value_of(db.process_frame(get)), Some(b"world".to_vec()));
    let get = Frame::Array(vec![bulk("get"), bulk("nothing")]);
    assert_eq!(value_of(db.process_frame(get)), None);
}

#[test]
fn set_with_expiry_option_is_accepted() {
    let mut db = Store::new();
    let set = Frame::Array(vec![bulk("set"), bulk("k"), bulk("v"), bulk("EX"), Frame::Integer(10)]);
    assert!(matches!(db.process_frame(set), Ok(Reply::Simple(_))));
    let get = Frame::Array(vec![bulk("get"), bulk("k")]);
    assert_eq!(value_of(db.process_frame(get)), Some(b"v".to_vec()));
}

#[test]
fn malformed_frames_are_reported() {
    let mut db = Store::new();
    assert!(matches!(db.process_frame(bulk("get")), Err(ProcessError::Malformed(_))));
    let too_many = Frame::Array(vec![bulk("get"), bulk("a"), bulk("b")]);
    assert!(matches!(db.process_frame(too_many), Err(ProcessError::Malformed(_))));
    let get = Frame::Array(vec![bulk("get"), bulk("a")]);
    assert_eq!(value_of(db.process_frame(get)), None);
}

#[test]
fn unknown_frames_are_unimplemented() {
    let mut db = Store::new();
    let f = Frame::Array(vec![bulk("flushall")]);
    assert!(matches!(db.process_frame(f), Err(ProcessError::Unimplemented(Command::Unknown))));
    let f = Frame::Array(vec![bulk("publish"), bulk("chan"), bulk("msg")]);
    assert!(matches!(db.process_frame(f), Err(ProcessError::Unimplemented(Command::Publish))));
    let f = Frame::Array(vec![bulk("subscribe"), bulk("chan")]);
    assert!(matches!(db.process_frame(f), Err(ProcessError::Unimplemented(Command::Subscribe))));
}

#[test]
fn shards_start_empty() {
    let mut shards = new_shard_db(5);
    assert_eq!(shards.len(), 5);
    for shard in shards.iter_mut() {
        assert!(matches!(shard.execute(Command::GetValue { key: "x".to_string() }), Ok(Reply::Null)));
    }
    assert!(new_shard_db(0).is_empty());
}

#[test]
fn simple_strings_count_as_keys_and_values() {
    let mut db = Store::new();
    let set = Frame::Array(vec![
        Frame::Simple("SET".to_string()),
        Frame::Simple("k".to_string()),
        Frame::Simple("v".to_string()),
    ]);
    assert!(matches!(db.process_frame(set), Ok(Reply::Simple(_))));
    let get = Frame::Array(vec![bulk("get"), Frame::Simple("k".to_string())]);
    assert_eq!(value_of(db.process_frame(get)), Some(b"v".to_vec()));
}

#[test]
fn malformed_frame_message_and_store_unchanged() {
    let mut db = Store::new();
    let _ = db.process_frame(Frame::Array(vec![bulk("set"), bulk("k"), bulk("v")]));
    let nested = Frame::Array(vec![bulk("get"), Frame::Array(vec![bulk("k")])]);
    match db.process_frame(nested) {
        Err(ProcessError::Malformed(msg)) => assert!(msg.starts_with("protocol error")),
        other => panic!("unexpected outcome {:?}", other),
    }
    let bad_option = Frame::Array(vec![bulk("set"), bulk("k"), bulk("w"), bulk("XX")]);
    assert!(matches!(db.process_frame(bad_option), Err(ProcessError::Malformed(_))));
    let get = Frame::Array(vec![bulk("get"), bulk("k")]);
    assert_eq!(value_of(db.process_frame(get)), Some(b"v".to_vec()));
}

#[test]
fn unsupported_command_comes_back_unchanged() {
    let mut db = Store::new();
    match db.execute(Command::Unsubscribe) {
        Err(ProcessError::Unimplemented(Command::Unsubscribe)) => {}
        other => panic!("unexpected outcome {:?}", other),
    }
}

#[test]
fn read_back_after_other_commands() {
    let mut db = Store::new();
    let _ = db.execute(Command::SetValue { key: "k".to_string(), value: b"first".to_vec() });
    let _ = db.execute(Command::SetValue { key: "k".to_string(), value: b"latest".to_vec() });
    let _ = db.execute(Command::SetValue { key: "other".to_string(), value: b"x".to_vec() });
    let _ = db.execute(Command::GetValue { key: "other".to_string() });
    let _ = db.execute(Command::Publish);
    let _ = db.execute(Command::SetValue { key: "k2".to_string(), value: b"y".to_vec() });
    assert_eq!(value_of(db.execute(Command::GetValue { key: "k".to_string() })), Some(b"latest".to_vec()));
}
