//! What a client of the game protocol does with the commands that
//! reach it, and how it frames the lines that it sends and receives.

use vstd::prelude::*;
use crate::commands::{tag_text, Command, CommandView};
use crate::moves::Move;
use crate::text::{push_decimal, string_of};

verus! {

/// The version of the protocol that the client speaks.
pub const PROTOCOL_MAJOR: u8 = 1;

/// What a client does with a command.
#[derive(Debug, Clone, Copy, PartialEq, Eq, Structural)]
pub enum Reaction {
    /// The server speaks another version of the protocol: tell it so, in
    /// reply to the command with id `reply_to`, and give up.
    Refuse { reply_to: Option<u32> },
    /// Send name, token and mode of play.
    Introduce,
    /// Show the agent the board of the command and tell it to go; from
    /// now on the moves are sent in reply to `id`.
    StartSearch { id: u32 },
    /// Tell the agent to stop.
    StopSearch,
    /// Nothing to do.
    Nothing,
    /// Answer with a pong that carries the message of the command, in
    /// reply to the command with id `reply_to`.
    Pong { reply_to: Option<u32> },
    /// End the client; `failed` after an error of the server.
    Quit { failed: bool },
    /// The server has broken the protocol: a state without an id, or a
    /// reference to another search than the one that runs.
    Violation,
}

/// What a client whose search runs under id `cur_id` does with a
/// command.
pub open spec fn reaction(cmd: CommandView, cur_id: u32) -> Reaction {
    match cmd {
        CommandView::Kpg { id, major, .. } => if major != PROTOCOL_MAJOR {
            Reaction::Refuse { reply_to: id }
        } else {
            Reaction::Introduce
        },
        CommandView::State { id, ref_id, .. } => match id {
            None => Reaction::Violation,
            Some(id) => if ref_id is Some && ref_id != Some(cur_id) {
                Reaction::Violation
            } else {
                Reaction::StartSearch { id }
            },
        },
        CommandView::Stop { ref_id, .. } => if ref_id == Some(cur_id) {
            Reaction::StopSearch
        } else {
            Reaction::Violation
        },
        CommandView::Okay { .. } => Reaction::Nothing,
        CommandView::SetOption { .. } => Reaction::Nothing,
        CommandView::Error { .. } => Reaction::Quit { failed: true },
        CommandView::Ping { id, .. } => Reaction::Pong { reply_to: id },
        CommandView::Pong { .. } => Reaction::Nothing,
        CommandView::Goodbye { .. } => Reaction::Quit { failed: false },
    }
}

/// Decides what to do with a command, when the search of the client runs
/// under id `cur_id`.
pub fn process_command(cmd: &Command, cur_id: u32) -> (r: Reaction)
    ensures
        r == reaction(cmd@, cur_id),
{
    match cmd {
        Command::Kpg { id, ref_id: _, major, minor: _, patch: _ } => {
            if *major != PROTOCOL_MAJOR {
                Reaction::Refuse { reply_to: *id }
            } else {
                Reaction::Introduce
            }
        },
        Command::State { id, ref_id, board: _ } => {
            match (id, ref_id) {
                (None, _) => Reaction::Violation,
                (Some(id), None) => Reaction::StartSearch { id: *id },
                (Some(id), Some(ref_id)) => {
                    if *ref_id != cur_id {
                        Reaction::Violation
                    } else {
                        Reaction::StartSearch { id: *id }
                    }
                },
            }
        },
        Command::Stop { id: _, ref_id } => {
            match ref_id {
                Some(ref_id) => if *ref_id == cur_id {
                    Reaction::StopSearch
                } else {
                    Reaction::Violation
                },
                None => Reaction::Violation,
            }
        },
        Command::Okay { .. } => Reaction::Nothing,
        Command::SetOption { .. } => Reaction::Nothing,
        Command::Error { .. } => Reaction::Quit { failed: true },
        Command::Ping { id, ref_id: _, msg: _ } => Reaction::Pong { reply_to: *id },
        Command::Pong { .. } => Reaction::Nothing,
        Command::Goodbye { .. } => Reaction::Quit { failed: false },
    }
}

/// The number of the house to send to the server for the best move of
/// the agent: the house counted from one, or nothing if that move was
/// the last one sent.
pub fn next_report(best_move: Move, last_sent: Option<Move>) -> (house: Option<u8>)
    ensures
        house == if last_sent == Some(best_move) {
            None
        } else {
            Some((best_move.house_spec() + 1) as u8)
        },
{
    match last_sent {
        Some(last) => if last == best_move {
            None
        } else {
            Some(best_move.display_number())
        },
        None => Some(best_move.display_number()),
    }
}

/// The line that carries command `cmd` with id `next_id`, in reply to
/// `ref_id` if there is one.
pub open spec fn framed(next_id: u32, cmd: Seq<char>, ref_id: Option<u32>) -> Seq<char> {
    tag_text(Some(next_id), ref_id) + seq![' '] + cmd + seq!['\r', '\n']
}

/// Frames a command for sending: the id, the reference behind an `@` if
/// there is one, a blank, the command and the end of the line.
pub fn frame_command(next_id: u32, cmd: &str, ref_id: Option<u32>) -> (line: String)
    ensures
        line@ == framed(next_id, cmd@, ref_id),
{
    let mut line = String::new();
    push_decimal(&mut line, next_id);
    if let Some(id_ref) = ref_id {
        line.push('@');
        push_decimal(&mut line, id_ref);
    }
    line.push(' ');
    line.push_str(cmd);
    line.push('\r');
    line.push('\n');
    proof {
        assert(line@ =~= framed(next_id, cmd@, ref_id));
    }
    line
}

/// Takes the first line off the text that has been received so far: all
/// up to the first line feed, the line feed included.  Without a line
/// feed the text is left as it is.
pub fn take_line(buf: &mut Vec<char>) -> (line: Option<String>)
    ensures
        line is None ==> !old(buf)@.contains('\n') && final(buf)@ == old(buf)@,
        line matches Some(l) ==> {
            &&& l@ + final(buf)@ == old(buf)@
            &&& l@.len() > 0
            &&& l@.last() == '\n'
            &&& !l@.drop_last().contains('\n')
        },
{
    let n = buf.len();
    let mut idx: usize = 0;
    while idx < n
        invariant
            idx <= n,
            n == buf@.len(),
            buf@ == old(buf)@,
            forall|j: int| 0 <= j < idx ==> buf@[j] != '\n',
        decreases n - idx,
    {
        if buf[idx] == '\n' {
            let line = string_of(buf, 0, idx + 1);
            let mut rest: Vec<char> = Vec::new();
            let mut i: usize = idx + 1;
            while i < n
                invariant
                    idx < i <= n,
                    n == buf@.len(),
                    rest@ == buf@.subrange(idx + 1, i as int),
                decreases n - i,
            {
                rest.push(buf[i]);
                proof {
                    assert(rest@ =~= buf@.subrange(idx + 1, i + 1));
                }
                i += 1;
            }
            proof {
                assert(line@ + rest@ =~= buf@);
                assert forall|j: int| 0 <= j < line@.drop_last().len() implies line@.drop_last()[j]
                    != '\n' by {
                    assert(line@.drop_last()[j] == buf@[j]);
                }
            }
            *buf = rest;
            return Some(line);
        }
        idx += 1;
    }
    None
}

} // verus!
