use kalah::board::Board;
use kalah::commands::Command;
use kalah::moves::{Move, Player};
use kalah::protocol::{frame_command, next_report, process_command, take_line, Reaction};

#[test]
fn version_one_is_answered_and_any_other_refused() {
    let one = Command::Kpg { id: Some(5), ref_id: None, major: 1, minor: 3, patch: 9 };
    assert_eq!(process_command(&one, 0), Reaction::Introduce);
    let two = Command::Kpg { id: Some(5), ref_id: None, major: 2, minor: 0, patch: 0 };
    assert_eq!(process_command(&two, 0), Reaction::Refuse { reply_to: Some(5) });
    let zero = Command::Kpg { id: None, ref_id: None, major: 0, minor: 0, patch: 0 };
    assert_eq!(process_command(&zero, 0), Reaction::Refuse { reply_to: None });
}

#[test]
fn state_starts_a_search_under_its_id() {
    let state = |id, ref_id| Command::State { id, ref_id, board: Board::new(3, 3) };
    assert_eq!(process_command(&state(Some(8), None), 2), Reaction::StartSearch { id: 8 });
    assert_eq!(process_command(&state(Some(8), Some(2)), 2), Reaction::StartSearch { id: 8 });
    assert_eq!(process_command(&state(Some(8), Some(3)), 2), Reaction::Violation);
    assert_eq!(process_command(&state(None, None), 2), Reaction::Violation);
    assert_eq!(process_command(&state(None, Some(2)), 2), Reaction::Violation);
}

#[test]
fn stop_must_name_the_search_that_runs() {
    let stop = |ref_id| Command::Stop { id: Some(1), ref_id };
    assert_eq!(process_command(&stop(Some(4)), 4), Reaction::StopSearch);
    assert_eq!(process_command(&stop(Some(5)), 4), Reaction::Violation);
    assert_eq!(process_command(&stop(None), 4), Reaction::Violation);
}

#[test]
fn other_commands_are_answered_or_passed_over() {
    let id = Some(3);
    let ref_id = None;
    assert_eq!(process_command(&Command::Okay { id, ref_id }, 0), Reaction::Nothing);
    assert_eq!(
        process_command(
            &Command::SetOption { id, ref_id, option: String::new(), value: String::new() },
            0
        ),
        Reaction::Nothing
    );
    assert_eq!(
        process_command(&Command::Ping { id, ref_id, msg: String::from("x") }, 0),
        Reaction::Pong { reply_to: Some(3) }
    );
    assert_eq!(
        process_command(&Command::Pong { id, ref_id, msg: String::from("x") }, 0),
        Reaction::Nothing
    );
    assert_eq!(
        process_command(&Command::Error { id, ref_id, msg: String::from("x") }, 0),
        Reaction::Quit { failed: true }
    );
    assert_eq!(process_command(&Command::Goodbye { id, ref_id }, 0), Reaction::Quit { failed: false });
}

#[test]
fn move_is_reported_once() {
    let a = Move::new(0, Player::White);
    let b = Move::new(127, Player::White);
    assert_eq!(next_report(a, None), Some(1));
    assert_eq!(next_report(a, Some(a)), None);
    assert_eq!(next_report(b, Some(a)), Some(128));
    assert_eq!(next_report(a, Some(a.flip_player())), Some(1));
}

#[test]
fn command_is_framed_with_id_and_reference() {
    assert_eq!(frame_command(1, "mode freeplay", None), "1 mode freeplay\r\n");
    assert_eq!(frame_command(13, "move 4", Some(8)), "13@8 move 4\r\n");
    assert_eq!(frame_command(4294967295, "", Some(0)), "4294967295@0 \r\n");
}

#[test]
fn lines_are_taken_off_the_buffer_one_by_one() {
    let mut buf: Vec<char> = "1 kgp 1 0 0\r\n2 ping\nrest".chars().collect();
    assert_eq!(take_line(&mut buf), Some(String::from("1 kgp 1 0 0\r\n")));
    assert_eq!(buf.iter().collect::<String>(), "2 ping\nrest");
    assert_eq!(take_line(&mut buf), Some(String::from("2 ping\n")));
    assert_eq!(buf.iter().collect::<String>(), "rest");
    assert_eq!(take_line(&mut buf), None);
    assert_eq!(buf.iter().collect::<String>(), "rest");
    let mut empty: Vec<char> = Vec::new();
    assert_eq!(take_line(&mut empty), None);
    let mut only: Vec<char> = vec!['\n'];
    assert_eq!(take_line(&mut only), Some(String::from("\n")));
    assert!(only.is_empty());
}
