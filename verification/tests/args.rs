use replay::args::{is_integer, only_digits, parse_digits, parse_session_index, parse_u32};
use replay::commands::drop::DropCommand;
use replay::commands::pop::PopCommand;
use replay::commands::record::RecordCommand;
use replay::commands::run::RunCommand;
use replay::session::{Session, Timestamp};

fn chars(s: &str) -> Vec<char> {
    s.chars().collect()
}

#[test]
fn handles_name_a_position() {
    assert_eq!(parse_session_index("replay@{0}"), Ok(0));
    assert_eq!(parse_session_index("replay@{17}"), Ok(17));
    assert_eq!(parse_session_index("replay@{007}"), Ok(7));
    assert_eq!(parse_session_index("replay@{+3}"), Ok(3));
    assert_eq!(parse_session_index("replay@{4294967295}"), Ok(u32::MAX));
}

#[test]
fn other_texts_are_refused_with_a_message_that_quotes_them() {
    assert_eq!(
        parse_session_index("invalid_session_name"),
        Err("Session name must be of the form replay@{index}, got 'invalid_session_name'".to_string())
    );
    assert_eq!(
        parse_session_index("replay@{1"),
        Err("Session name must be of the form replay@{index}, got 'replay@{1'".to_string())
    );
    assert_eq!(
        parse_session_index("replay@{"),
        Err("Session name must be of the form replay@{index}, got 'replay@{'".to_string())
    );
    assert_eq!(
        parse_session_index(""),
        Err("Session name must be of the form replay@{index}, got ''".to_string())
    );
    assert_eq!(
        parse_session_index("replay@{}"),
        Err("Invalid session index in 'replay@{}'".to_string())
    );
    assert_eq!(
        parse_session_index("replay@{-1}"),
        Err("Invalid session index in 'replay@{-1}'".to_string())
    );
    assert_eq!(
        parse_session_index("replay@{4294967296}"),
        Err("Invalid session index in 'replay@{4294967296}'".to_string())
    );
    assert_eq!(
        parse_session_index("replay@{1 }"),
        Err("Invalid session index in 'replay@{1 }'".to_string())
    );
    assert_eq!(
        parse_session_index("replay@{+}"),
        Err("Invalid session index in 'replay@{+}'".to_string())
    );
}

#[test]
fn numbers_are_read_as_the_standard_library_reads_them() {
    for text in ["0", "+0", "12", "0012", "4294967295", "4294967296", "", "+", "-", "-0", "1a", " 1", "٣"] {
        assert_eq!(parse_u32(&chars(text)), text.parse::<u32>().ok(), "{:?}", text);
    }
    assert_eq!(parse_digits(&chars("42"), 100), Some(42));
    assert_eq!(parse_digits(&chars("42"), 41), None);
    assert_eq!(parse_digits(&chars(""), 41), None);
    assert_eq!(parse_digits(&chars("4x"), 41), None);
    assert_eq!(
        parse_digits(&chars("18446744073709551615"), u64::MAX),
        Some(u64::MAX)
    );
    assert_eq!(parse_digits(&chars("18446744073709551616"), u64::MAX), None);
    assert_eq!(parse_digits(&chars("99999999999999999999999"), u64::MAX), None);
}

#[test]
fn whole_numbers_of_any_size_are_recognised() {
    for text in [
        "0", "-0", "+7", "-7", "2147483647", "2147483648", "-2147483649",
        "12345678901234567890", "-99999999999999999999999999999999999999999",
    ] {
        assert!(is_integer(&chars(text)), "{:?}", text);
    }
    for text in ["", "+", "-", "--1", "1_000", "1.5", " 1", "1 ", "0x10", "one", "+-1", "٣"] {
        assert!(!is_integer(&chars(text)), "{:?}", text);
    }
    assert!(only_digits(&chars("")));
    assert!(only_digits(&chars("0123456789")));
    assert!(!only_digits(&chars("12a")));
}

#[test]
fn descriptions_have_ten_to_eighty_characters_and_are_no_numbers() {
    assert_eq!(
        RecordCommand::validate_session_description("to short"),
        Err("Session description is too short (min 10 chars)".to_string())
    );
    assert_eq!(
        RecordCommand::validate_session_description(
            "this session description is way too long and exceeds the maximum length of eighty characters"
        ),
        Err("Session description is too long (max 80 chars)".to_string())
    );
    assert_eq!(
        RecordCommand::validate_session_description("1234567890"),
        Err("Session description cannot be an integer".to_string())
    );
    assert_eq!(
        RecordCommand::validate_session_description("-0000000001"),
        Err("Session description cannot be an integer".to_string())
    );
    assert_eq!(
        RecordCommand::validate_session_description("12345678901"),
        Err("Session description cannot be an integer".to_string())
    );
    assert_eq!(
        RecordCommand::validate_session_description("12345678901234567890"),
        Err("Session description cannot be an integer".to_string())
    );
    assert_eq!(
        RecordCommand::validate_session_description("+12345678901234567890"),
        Err("Session description cannot be an integer".to_string())
    );
    assert_eq!(
        RecordCommand::validate_session_description("1234567890 times"),
        Ok("1234567890 times".to_string())
    );
    assert_eq!(
        RecordCommand::validate_session_description("ten chars!"),
        Ok("ten chars!".to_string())
    );
    let eighty = "d".repeat(80);
    assert_eq!(RecordCommand::validate_session_description(&eighty), Ok(eighty.clone()));
    let eighty_one = "d".repeat(81);
    assert!(RecordCommand::validate_session_description(&eighty_one).is_err());
    assert_eq!(
        RecordCommand::validate_session_description("\"test_valid_record_command\""),
        Ok("\"test_valid_record_command\"".to_string())
    );
}

#[test]
fn commands_are_plain_values() {
    let record = RecordCommand::new(Some("\"test_valid_record_command\"".to_string()), false);
    assert_eq!(
        record,
        RecordCommand::new(Some("\"test_valid_record_command\"".to_string()), false)
    );
    let config = record.config();
    assert!(config.record_input);
    assert!(!config.no_compression);
    assert_eq!(
        config.session_description,
        Some("\"test_valid_record_command\"".to_string())
    );
    assert!(RecordCommand::new(None, true).config().no_compression);

    let run = RunCommand::new(0, true, 10);
    assert_eq!(run, RunCommand::new(0, true, 10));
    assert_ne!(run, RunCommand::new(0, false, 10));
    assert_eq!(run.session_index(), 0);
    assert!(run.show());
    assert_eq!(run.delay(), 10);
    assert!(!run.config().record_input);

    assert_eq!(DropCommand::new(3).session_index(), 3);
    assert_eq!(PopCommand {}.session_index(), 0);
}

fn recorded(commands: &[&str]) -> Session {
    let mut session =
        Session::with_identity(None, "tester".into(), Timestamp { secs: 0, nanos: 0 }).unwrap();
    for command in commands {
        session.add_command(command.as_bytes().to_vec());
    }
    session
}

#[test]
fn show_lists_all_commands_but_the_last() {
    let run = RunCommand::new(4, true, 10);
    assert_eq!(
        run.show_commands(&recorded(&["ls\r", "echo test\r", "exit\r"])),
        vec![
            "Commands for session 'replay@{4}':",
            "  1. ls\r",
            "  2. echo test\r",
        ]
    );
    assert_eq!(
        run.show_commands(&recorded(&["exit\r"])),
        vec!["Commands for session 'replay@{4}':"]
    );
    assert_eq!(
        run.show_commands(&recorded(&[])),
        vec!["Commands for session 'replay@{4}':"]
    );
}

#[test]
fn replay_hands_out_the_commands_byte_by_byte() {
    let run = RunCommand::new(0, false, 15);
    let mut reader = run.replay_input(&recorded(&["ls\r", "é\r", "exit\r"]));
    assert_eq!(reader.delay_ms(), 15);
    let mut bytes = Vec::new();
    let mut buf = [0u8; 1];
    while reader.read(&mut buf) == 1 {
        bytes.push(buf[0]);
    }
    assert_eq!(bytes, "ls\ré\rexit\r".as_bytes());
}
