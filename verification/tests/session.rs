use replay::errors::ReplayError;
use replay::session::index::SessionIndexFile;
use replay::session::storage::StorageFormat;
use replay::session::{first_two_commands, to_hex_lower, MetaData, Session, Timestamp};
use sha2::{Digest, Sha256};

fn expected_id(user: &str, description: Option<&str>, secs: i64, nanos: u32) -> String {
    let stamp = chrono::DateTime::from_timestamp(secs, nanos).unwrap().to_rfc3339();
    let mut hasher = Sha256::new();
    hasher.update(user.as_bytes());
    if let Some(desc) = description {
        hasher.update(desc.as_bytes());
    }
    hasher.update(stamp.as_bytes());
    format!("{:x}", hasher.finalize())
}

#[test]
fn session_test_session_creation() {
    let session = Session::new(Some("test session".into())).unwrap();
    assert_eq!(session.description, Some("test session".into()));
}

#[test]
fn mod_test_session_creation() {
    let session = Session::new(Some("test session".into())).unwrap();
    assert_eq!(session.description, Some("test session".into()));
    assert!(session.commands.is_empty());
    assert_eq!(session.user, whoami::username());
    assert_eq!(
        session.id,
        expected_id(
            &session.user,
            Some("test session"),
            session.timestamp.secs,
            session.timestamp.nanos
        )
    );
}

#[test]
fn session_test_session_saving() {
    let session = Session::new(Some("test session".into())).unwrap();
    let mut index = SessionIndexFile::new();

    // Non-compressed saving
    let plain = session.save_session(b"{}".to_vec(), false, &mut index).unwrap();
    assert_eq!(plain.path, Session::get_session_path(&session.id, "json"));
    assert_eq!(plain.path, format!("sessions/{}.json", session.id));
    assert_eq!(plain.bytes, b"{}".to_vec());

    // Compressed saving
    let packed = session.save_session(b"{}".to_vec(), true, &mut index).unwrap();
    assert_eq!(packed.path, Session::get_session_path(&session.id, "zst"));
    assert_eq!(packed.path, format!("sessions/{}.zst", session.id));
    assert_ne!(packed.bytes, b"{}".to_vec());
    assert_eq!(StorageFormat::Zst.decode(packed.bytes).unwrap(), b"{}".to_vec());
}

#[test]
fn mod_test_session_saving() {
    let session = Session::new(Some("test session".into())).unwrap();
    let mut index = SessionIndexFile::new();

    // Non-compressed saving
    let plain = session.save_session(b"{}".to_vec(), false, &mut index).unwrap();
    assert_eq!(plain.path, Session::get_session_path(&session.id, "json"));

    // Compressed saving
    let packed = session.save_session(b"{}".to_vec(), true, &mut index).unwrap();
    assert_eq!(packed.path, Session::get_session_path(&session.id, "zst"));
}

#[test]
fn every_save_adds_one_record_to_the_index() {
    let session = Session::new(Some("test session".into())).unwrap();
    let mut index = SessionIndexFile::new();
    session.save_session(b"[1]".to_vec(), false, &mut index).unwrap();
    assert_eq!(index.len(), 1);
    session.save_session(b"[1]".to_vec(), true, &mut index).unwrap();
    assert_eq!(index.len(), 2);
    assert_eq!(index.get_session_id(0).unwrap(), session.id);
    assert_eq!(index.get_session_id(1).unwrap(), session.id);
    assert_eq!(index.as_bytes().len(), 128);
}

fn distinct_session(description: &str, nanos: u32) -> Session {
    Session::with_identity(
        Some(description.to_string()),
        "tester".to_string(),
        Timestamp { secs: 1_700_000_000, nanos },
    )
    .unwrap()
}

#[test]
fn session_test_session_index_file() {
    let mut index = SessionIndexFile::new();
    let session_1 = distinct_session("test session 1", 1);
    session_1.save_session(Vec::new(), true, &mut index).unwrap();
    assert_eq!(index.peek_session_id().unwrap(), session_1.id);

    let session_2 = distinct_session("test session 2", 2);
    session_2.save_session(Vec::new(), true, &mut index).unwrap();
    assert_eq!(index.peek_session_id().unwrap(), session_2.id);
    assert_eq!(index.pop_session_id().unwrap(), session_2.id);
    assert_eq!(index.pop_session_id().unwrap(), session_1.id);

    // Test popping and peeking from empty index file returns error
    assert!(matches!(
        index.pop_session_id(),
        Err(ReplayError::SessionError(_))
    ));
    assert!(matches!(
        index.peek_session_id(),
        Err(ReplayError::SessionError(_))
    ));
}

#[test]
fn mod_test_session_index_file() {
    let mut index = SessionIndexFile::new();
    let session_1 = distinct_session("test session 1", 1);
    session_1.save_session(Vec::new(), true, &mut index).unwrap();
    assert_eq!(index.get_session_id(0).unwrap(), session_1.id);

    let session_2 = distinct_session("test session 2", 2);
    session_2.save_session(Vec::new(), true, &mut index).unwrap();
    assert_eq!(index.get_session_id(0).unwrap(), session_2.id);
    assert_eq!(index.remove_session_id(0).unwrap(), session_2.id);
    assert_eq!(index.remove_session_id(0).unwrap(), session_1.id);

    // Test popping and peeking from empty index file returns error
    assert!(matches!(
        index.remove_session_id(0),
        Err(ReplayError::SessionError(_))
    ));
    assert!(matches!(
        index.get_session_id(0),
        Err(ReplayError::SessionError(_))
    ));
}

#[test]
fn session_test_session_remove() {
    let mut index = SessionIndexFile::new();
    let session1 = distinct_session("test session1", 1);
    let session2 = distinct_session("test session2", 2);
    session1.save_session(Vec::new(), true, &mut index).unwrap();
    session2.save_session(Vec::new(), true, &mut index).unwrap();
    let removed = Session::remove_session_by_index(&mut index, 1, true).unwrap();
    assert_eq!(removed, Session::get_session_path(&session1.id, "zst"));
    let res = index.get_session_id(1);
    if let Err(ReplayError::SessionError(msg)) = res {
        assert_eq!(msg, "Replay index out of range");
    } else {
        panic!("Expected SessionError, got {:?}", res);
    }
    let removed = Session::remove_session_by_index(&mut index, 0, true).unwrap();
    assert_eq!(removed, Session::get_session_path(&session2.id, "zst"));
    assert!(matches!(
        index.get_session_id(2),
        Err(ReplayError::SessionError(ref msg)) if msg == "No replay entries found"
    ));
}

#[test]
fn mod_test_session_remove() {
    let mut index = SessionIndexFile::new();
    let session1 = distinct_session("test session1", 1);
    let session2 = distinct_session("test session2", 2);
    session1.save_session(Vec::new(), true, &mut index).unwrap();
    session2.save_session(Vec::new(), true, &mut index).unwrap();
    let removed = Session::remove_session_by_index(&mut index, 1, true).unwrap();
    assert_eq!(removed, Session::get_session_path(&session1.id, "zst"));
    let res = index.get_session_id(1);
    if let Err(ReplayError::SessionError(msg)) = res {
        assert_eq!(msg, "Replay index out of range");
    } else {
        panic!("Expected SessionError, got {:?}", res);
    }
    let removed = Session::remove_session_by_index(&mut index, 0, true).unwrap();
    assert_eq!(removed, Session::get_session_path(&session2.id, "zst"));
    assert!(matches!(
        index.get_session_id(2),
        Err(ReplayError::SessionError(ref msg)) if msg == "No replay entries found"
    ));
}

#[test]
fn removing_a_plain_session_names_its_json_file() {
    let mut index = SessionIndexFile::new();
    let session1 = distinct_session("test session1", 1);
    let session2 = distinct_session("test session2", 2);
    session1.save_session(Vec::new(), false, &mut index).unwrap();
    session2.save_session(Vec::new(), false, &mut index).unwrap();
    let removed = Session::remove_session_by_index(&mut index, 1, false).unwrap();
    assert_eq!(removed, format!("sessions/{}.json", session1.id));
    assert_eq!(index.get_session_id(0).unwrap(), session2.id);
    let failed = Session::remove_session_by_index(&mut index, 1, false);
    assert!(matches!(
        failed,
        Err(ReplayError::SessionError(ref msg)) if msg == "Replay index out of range"
    ));
    assert_eq!(index.len(), 1);
    Session::remove_session_by_index(&mut index, 0, false).unwrap();
    let failed = Session::remove_session_by_index(&mut index, 0, false);
    assert!(matches!(
        failed,
        Err(ReplayError::SessionError(ref msg)) if msg == "No replay entries found"
    ));
}

#[test]
fn id_is_the_digest_of_user_description_and_time() {
    let stamp = Timestamp { secs: 1_700_000_000, nanos: 123_456_789 };
    let a = Session::with_identity(Some("hello world".into()), "alice".into(), stamp).unwrap();
    assert_eq!(
        a.id,
        expected_id("alice", Some("hello world"), 1_700_000_000, 123_456_789)
    );
    assert_eq!(a.id.len(), 64);
    assert!(a.id.chars().all(|c| c.is_ascii_digit() || ('a'..='f').contains(&c)));

    let none = Session::with_identity(None, "alice".into(), stamp).unwrap();
    assert_eq!(none.id, expected_id("alice", None, 1_700_000_000, 123_456_789));
    assert_ne!(none.id, a.id);
}

#[test]
fn same_fields_give_the_same_id_and_other_fields_another() {
    let stamp = Timestamp { secs: 1_700_000_000, nanos: 0 };
    let a = Session::with_identity(Some("first try!".into()), "alice".into(), stamp).unwrap();
    let b = Session::with_identity(Some("first try!".into()), "alice".into(), stamp).unwrap();
    assert_eq!(a.id, b.id);

    let other_user = Session::with_identity(Some("first try!".into()), "bob".into(), stamp).unwrap();
    let other_text = Session::with_identity(Some("second try".into()), "alice".into(), stamp).unwrap();
    let later = Timestamp { secs: 1_700_000_001, nanos: 0 };
    let other_time = Session::with_identity(Some("first try!".into()), "alice".into(), later).unwrap();
    assert_ne!(a.id, other_user.id);
    assert_ne!(a.id, other_text.id);
    assert_ne!(a.id, other_time.id);
}

#[test]
fn id_does_not_tell_user_from_description() {
    let stamp = Timestamp { secs: 1_700_000_000, nanos: 0 };
    let joined = Session::with_identity(None, "alicebob".into(), stamp).unwrap();
    let split = Session::with_identity(Some("bob".into()), "alice".into(), stamp).unwrap();
    assert_eq!(joined.id, split.id);
}

#[test]
fn a_time_outside_the_calendar_gives_no_session() {
    let stamp = Timestamp { secs: i64::MAX, nanos: 0 };
    assert!(Session::with_identity(None, "alice".into(), stamp).is_none());
    assert!(Session::generate_id(&None, &stamp, "alice").is_none());
}

#[test]
fn known_digest_in_hex() {
    let empty = Session::generate_id(&None, &Timestamp { secs: 0, nanos: 0 }, "").unwrap();
    let mut hasher = Sha256::new();
    hasher.update(b"1970-01-01T00:00:00+00:00");
    assert_eq!(empty, format!("{:x}", hasher.finalize()));
    assert_eq!(to_hex_lower(&[0x00, 0x0f, 0xa5, 0xff]), "000fa5ff");
    assert_eq!(to_hex_lower(&[]), "");
}

#[test]
fn commands_are_appended_and_taken_back() {
    let mut session = Session::new(None).unwrap();
    let id = session.id.clone();
    assert_eq!(session.get_last_command(), None);
    assert_eq!(session.remove_last_command(), None);
    session.add_command(b"ls\r".to_vec());
    session.add_command(b"echo \xff\r".to_vec());
    assert_eq!(session.iter_commands(), vec!["ls\r", "echo \u{fffd}\r"]);
    assert_eq!(session.get_last_command(), Some(&"echo \u{fffd}\r".to_string()));
    assert_eq!(session.remove_last_command(), Some("echo \u{fffd}\r".to_string()));
    assert_eq!(session.iter_commands(), vec!["ls\r"]);
    assert_eq!(session.id, id);
}

#[test]
fn metadata_keeps_the_first_two_commands_without_carriage_returns() {
    let mut session = Session::new(Some("described".into())).unwrap();
    session.add_command(b"ls\r".to_vec());
    session.add_command(b"echo\r test\r".to_vec());
    session.add_command(b"exit\r".to_vec());
    let meta = MetaData::from_session(&session);
    assert_eq!(meta.description, Some("described".to_string()));
    assert_eq!(meta.timestamp, session.timestamp);
    assert_eq!(meta.first_commands, vec!["ls", "echo test"]);

    let one = vec!["only\r".to_string()];
    assert_eq!(first_two_commands(&one), vec!["only"]);
    assert!(first_two_commands(&[]).is_empty());
}

#[test]
fn whole_seconds_between_two_instants() {
    let then = Timestamp { secs: 100, nanos: 900_000_000 };
    assert_eq!(then.seconds_until(&Timestamp { secs: 101, nanos: 0 }), 0);
    assert_eq!(then.seconds_until(&Timestamp { secs: 101, nanos: 900_000_000 }), 1);
    assert_eq!(then.seconds_until(&Timestamp { secs: 160, nanos: 899_999_999 }), 59);
    assert_eq!(then.seconds_until(&Timestamp { secs: 100, nanos: 0 }), 0);
    assert_eq!(then.seconds_until(&Timestamp { secs: 99, nanos: 900_000_000 }), -1);
    assert_eq!(then.seconds_until(&Timestamp { secs: 98, nanos: 950_000_000 }), -1);
    assert_eq!(
        Timestamp { secs: i64::MIN, nanos: 0 }.seconds_until(&Timestamp { secs: i64::MAX, nanos: 0 }),
        i64::MAX as i128 - i64::MIN as i128
    );
}

#[test]
fn the_clock_gives_a_time_that_the_calendar_holds() {
    let now = Timestamp::now().unwrap();
    assert!(now.secs > 1_600_000_000);
    assert!(now.nanos < 1_000_000_000);
    let session = Session::new(None).unwrap();
    assert!(session.timestamp.seconds_until(&Timestamp::now().unwrap()) >= 0);
    assert!(now.seconds_until(&session.timestamp) >= 0);
}
