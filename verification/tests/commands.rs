use kalah::board::Board;
use kalah::commands::{Command, ParseError};

#[test]
fn version_command_is_read() {
    match Command::from_str("kgp 1 0 0").unwrap() {
        Command::Kpg { id, ref_id, major, minor, patch } => {
            assert_eq!((id, ref_id), (None, None));
            assert_eq!((major, minor, patch), (1, 0, 0));
        }
        other => panic!("{:?}", other),
    }
    match Command::from_str("  4 kgp 12 255 +3 \r\n").unwrap() {
        Command::Kpg { id, ref_id, major, minor, patch } => {
            assert_eq!((id, ref_id), (Some(4), None));
            assert_eq!((major, minor, patch), (12, 255, 3));
        }
        other => panic!("{:?}", other),
    }
}

#[test]
fn state_command_carries_a_board() {
    match Command::from_str("12@7 state <3,2,3,11,12,13,21,22,23>\n").unwrap() {
        Command::State { id, ref_id, board } => {
            assert_eq!((id, ref_id), (Some(12), Some(7)));
            assert_eq!(board.h(), 3);
            assert_eq!(board.our_store(), 2);
            assert_eq!(board.their_store(), 3);
            assert_eq!(board.our_houses(), &[11, 12, 13]);
            assert_eq!(board.their_houses(), &[21, 22, 23]);
        }
        other => panic!("{:?}", other),
    }
}

#[test]
fn commands_without_arguments_are_read() {
    assert!(matches!(
        Command::from_str("3@1 stop").unwrap(),
        Command::Stop { id: Some(3), ref_id: Some(1) }
    ));
    assert!(matches!(Command::from_str("ok").unwrap(), Command::Okay { id: None, ref_id: None }));
    assert!(matches!(
        Command::from_str("9 goodbye").unwrap(),
        Command::Goodbye { id: Some(9), ref_id: None }
    ));
    // arguments that are not asked for are passed over
    assert!(matches!(
        Command::from_str("9 stop now please").unwrap(),
        Command::Stop { id: Some(9), ref_id: None }
    ));
}

#[test]
fn set_command_takes_option_and_value() {
    match Command::from_str("5 set time:mode   absolute ").unwrap() {
        Command::SetOption { id, ref_id, option, value } => {
            assert_eq!((id, ref_id), (Some(5), None));
            assert_eq!(option, "time:mode");
            assert_eq!(value, "absolute");
        }
        other => panic!("{:?}", other),
    }
}

#[test]
fn messages_are_kept_or_dropped_as_the_command_asks() {
    match Command::from_str("1 ping are you there").unwrap() {
        Command::Ping { id, msg, .. } => {
            assert_eq!(id, Some(1));
            assert_eq!(msg, "");
        }
        other => panic!("{:?}", other),
    }
    match Command::from_str("1@2 pong  here  I am  ").unwrap() {
        Command::Pong { id, ref_id, msg } => {
            assert_eq!((id, ref_id), (Some(1), Some(2)));
            assert_eq!(msg, "here  I am");
        }
        other => panic!("{:?}", other),
    }
    match Command::from_str("error something broke").unwrap() {
        Command::Error { id, ref_id, msg } => {
            assert_eq!((id, ref_id), (None, None));
            assert_eq!(msg, "something broke");
        }
        other => panic!("{:?}", other),
    }
    match Command::from_str("error").unwrap() {
        Command::Error { msg, .. } => assert_eq!(msg, ""),
        other => panic!("{:?}", other),
    }
}

fn error_of(line: &str) -> ParseError {
    match Command::from_str(line) {
        Ok(command) => panic!("{:?}", command),
        Err(e) => e,
    }
}

#[test]
fn every_error_has_a_line_that_gives_it() {
    assert_eq!(error_of(""), ParseError::NoMatch);
    assert_eq!(error_of("   "), ParseError::NoMatch);
    assert_eq!(error_of("@3 ok"), ParseError::NoMatch);
    assert_eq!(error_of("99999999999 ok"), ParseError::BadId);
    assert_eq!(error_of("4294967296 ok"), ParseError::BadId);
    assert_eq!(error_of("1@99999999999 ok"), ParseError::BadRef);
    assert_eq!(error_of("kgp 1 0"), ParseError::UnexpectedArgs);
    assert_eq!(error_of("kgp 1 0 0 0"), ParseError::UnexpectedArgs);
    assert_eq!(error_of("state"), ParseError::UnexpectedArgs);
    assert_eq!(error_of("state <1, 0, 0, 1, 1>"), ParseError::UnexpectedArgs);
    assert_eq!(error_of("set option"), ParseError::UnexpectedArgs);
    assert_eq!(error_of("kgp 1 0 256"), ParseError::BadVersion);
    assert_eq!(error_of("kgp 1 x 0"), ParseError::BadVersion);
    assert_eq!(error_of("kgp -1 0 0"), ParseError::BadVersion);
    assert_eq!(error_of("state <1,0,0,1>"), ParseError::BadBoard);
    assert_eq!(error_of("state nonsense"), ParseError::BadBoard);
    assert_eq!(error_of("hello"), ParseError::UnknownCommand);
    assert_eq!(error_of("KGP 1 0 0"), ParseError::UnknownCommand);
    // a number alone is taken for the name of a command
    assert_eq!(error_of("12 "), ParseError::UnknownCommand);
}

#[test]
fn greatest_id_is_read() {
    assert!(matches!(
        Command::from_str("4294967295@0 ok").unwrap(),
        Command::Okay { id: Some(4294967295), ref_id: Some(0) }
    ));
}

#[test]
fn parts_of_a_line_give_the_command() {
    let id = Some(String::from("17"));
    let none = None;
    match Command::from_parts(&id, &none, "set", "a b").unwrap() {
        Command::SetOption { id, ref_id, option, value } => {
            assert_eq!((id, ref_id), (Some(17), None));
            assert_eq!(option, "a");
            assert_eq!(value, "b");
        }
        other => panic!("{:?}", other),
    }
    let bad = Some(String::from("x"));
    assert_eq!(Command::from_parts(&bad, &none, "ok", "").err(), Some(ParseError::BadId));
    assert_eq!(Command::from_parts(&none, &bad, "ok", "").err(), Some(ParseError::BadRef));
    // the id is looked at before the reference, and both before the name
    assert_eq!(Command::from_parts(&bad, &bad, "what", "").err(), Some(ParseError::BadId));
    assert_eq!(Command::from_parts(&none, &bad, "what", "").err(), Some(ParseError::BadRef));
    assert_eq!(
        Command::from_parts(&none, &none, "what", "").err(),
        Some(ParseError::UnknownCommand)
    );
    // words are parted by white space of ASCII only
    match Command::from_parts(&none, &none, "set", "\ta\u{a0}b \r\n c\x0C").unwrap() {
        Command::SetOption { option, value, .. } => {
            assert_eq!(option, "a\u{a0}b");
            assert_eq!(value, "c");
        }
        other => panic!("{:?}", other),
    }
}

#[test]
fn commands_are_written_as_lines() {
    let text = |c: Command| c.to_text();
    assert_eq!(
        text(Command::Kpg { id: Some(3), ref_id: Some(1), major: 1, minor: 0, patch: 12 }),
        "3@1 kpg 1 0 12"
    );
    assert_eq!(
        text(Command::Kpg { id: None, ref_id: None, major: 255, minor: 0, patch: 0 }),
        " kpg 255 0 0"
    );
    assert_eq!(
        text(Command::State { id: Some(2), ref_id: None, board: Board::new(2, 3) }),
        "2 state <2, 0, 0, 3, 3, 3, 3>"
    );
    assert_eq!(text(Command::Stop { id: Some(10), ref_id: Some(4294967295) }), "10@4294967295 stop");
    assert_eq!(text(Command::Okay { id: None, ref_id: Some(7) }), "@7 ok");
    assert_eq!(
        text(Command::SetOption {
            id: Some(1),
            ref_id: None,
            option: String::from("info:name"),
            value: String::from("Sauerkraut"),
        }),
        "1 set info:name Sauerkraut"
    );
    assert_eq!(
        text(Command::Ping { id: Some(1), ref_id: None, msg: String::from("hi there") }),
        "1 ping hi there"
    );
    assert_eq!(
        text(Command::Pong { id: None, ref_id: None, msg: String::new() }),
        " pong "
    );
    assert_eq!(text(Command::Goodbye { id: Some(0), ref_id: None }), "0 goodbye");
    assert_eq!(
        text(Command::Error { id: None, ref_id: Some(3), msg: String::from("no") }),
        "@3 error no"
    );
}

#[test]
fn line_is_parsed_as_a_command() {
    let command: Command = "7 ok".parse().unwrap();
    assert!(matches!(command, Command::Okay { id: Some(7), ref_id: None }));
    let refused: Result<Command, ParseError> = "nothing known".parse();
    assert_eq!(refused.err(), Some(ParseError::UnknownCommand));
}
