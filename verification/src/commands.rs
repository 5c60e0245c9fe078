//! The commands of the game protocol, as lines of text.
//!
//! A line is an optional `id`, with an optional `@ref` behind it, then
//! the name of the command and its arguments.

use vstd::prelude::*;
use vstd::string::StrSliceExecFns;
use crate::board::Board;
use crate::rules::Position;
use crate::text::{bounded_number, chars_of, decimal, decode, encode, push_decimal, read_number, string_of};

verus! {

/// A command of the protocol.
#[derive(Debug)]
pub enum Command {
    Kpg { id: Option<u32>, ref_id: Option<u32>, major: u8, minor: u8, patch: u8 },
    State { id: Option<u32>, ref_id: Option<u32>, board: Board },
    Stop { id: Option<u32>, ref_id: Option<u32> },
    Okay { id: Option<u32>, ref_id: Option<u32> },
    SetOption { id: Option<u32>, ref_id: Option<u32>, option: String, value: String },
    Ping { id: Option<u32>, ref_id: Option<u32>, msg: String },
    Pong { id: Option<u32>, ref_id: Option<u32>, msg: String },
    Goodbye { id: Option<u32>, ref_id: Option<u32> },
    Error { id: Option<u32>, ref_id: Option<u32>, msg: String },
}

/// A command with its texts as sequences of characters and its board as
/// a position.
pub enum CommandView {
    Kpg { id: Option<u32>, ref_id: Option<u32>, major: u8, minor: u8, patch: u8 },
    State { id: Option<u32>, ref_id: Option<u32>, board: Position },
    Stop { id: Option<u32>, ref_id: Option<u32> },
    Okay { id: Option<u32>, ref_id: Option<u32> },
    SetOption { id: Option<u32>, ref_id: Option<u32>, option: Seq<char>, value: Seq<char> },
    Ping { id: Option<u32>, ref_id: Option<u32>, msg: Seq<char> },
    Pong { id: Option<u32>, ref_id: Option<u32>, msg: Seq<char> },
    Goodbye { id: Option<u32>, ref_id: Option<u32> },
    Error { id: Option<u32>, ref_id: Option<u32>, msg: Seq<char> },
}

impl View for Command {
    type V = CommandView;

    open spec fn view(&self) -> CommandView {
        match self {
            Command::Kpg { id, ref_id, major, minor, patch } => CommandView::Kpg {
                id: *id,
                ref_id: *ref_id,
                major: *major,
                minor: *minor,
                patch: *patch,
            },
            Command::State { id, ref_id, board } => CommandView::State {
                id: *id,
                ref_id: *ref_id,
                board: board@,
            },
            Command::Stop { id, ref_id } => CommandView::Stop { id: *id, ref_id: *ref_id },
            Command::Okay { id, ref_id } => CommandView::Okay { id: *id, ref_id: *ref_id },
            Command::SetOption { id, ref_id, option, value } => CommandView::SetOption {
                id: *id,
                ref_id: *ref_id,
                option: option@,
                value: value@,
            },
            Command::Ping { id, ref_id, msg } => CommandView::Ping {
                id: *id,
                ref_id: *ref_id,
                msg: msg@,
            },
            Command::Pong { id, ref_id, msg } => CommandView::Pong {
                id: *id,
                ref_id: *ref_id,
                msg: msg@,
            },
            Command::Goodbye { id, ref_id } => CommandView::Goodbye { id: *id, ref_id: *ref_id },
            Command::Error { id, ref_id, msg } => CommandView::Error {
                id: *id,
                ref_id: *ref_id,
                msg: msg@,
            },
        }
    }
}

impl Command {
    /// The board of a command that carries one is well formed.
    pub open spec fn wf(&self) -> bool {
        self matches Command::State { board, .. } ==> board.wf()
    }
}

/// Why a line is no command.
#[derive(Debug, Clone, Copy, PartialEq, Eq, Structural)]
pub enum ParseError {
    /// The line does not have the form of a command.
    NoMatch,
    /// The id is no number of 32 bits.
    BadId,
    /// The reference is no number of 32 bits.
    BadRef,
    /// The command has not the number of arguments that it takes.
    UnexpectedArgs,
    /// A part of the version is no number of 8 bits.
    BadVersion,
    /// The text of the board stands for no board.
    BadBoard,
    /// The name of the command is not known.
    UnknownCommand,
}

/// The form of a command line, as a regular expression.
pub const COMMAND_PATTERN: &'static str =
    r"^\s*(?:(?P<id>\d+)(?:@(?P<ref>\d+))?\s+)?(?P<cmd>\w+)(?:\s+(?P<args>.*?))?\s*$";

/// What the regular expression `pattern` captures in its group `name`
/// when it is matched against `text`; `None` if the pattern does not
/// match, if the group takes no part in the match, if the pattern has no
/// such group or if it is no regular expression.
pub uninterp spec fn regex_group(pattern: Seq<char>, text: Seq<char>, name: Seq<char>) -> Option<
    Seq<char>,
>;

/// Matches `pattern` against `text` and returns what its group `name`
/// has captured.
///
/// Calls `regex::Regex::new`, `Regex::captures`, `Captures::name` and
/// `Match::as_str`.  The result depends on the three texts alone; no more
/// is claimed of it than that.
#[verifier::external_body]
fn capture_group(pattern: &str, text: &str, name: &str) -> (group: Option<String>)
    ensures
        match group {
            Some(g) => regex_group(pattern@, text@, name@) == Some(g@),
            None => regex_group(pattern@, text@, name@) is None,
        },
{
    match regex::Regex::new(pattern) {
        Ok(re) => match re.captures(text) {
            Some(captures) => match captures.name(name) {
                Some(m) => Some(m.as_str().to_owned()),
                None => None,
            },
            None => None,
        },
        Err(_) => None,
    }
}

/// Whether `c` is white space of ASCII: a blank, a tab, a line feed, a
/// form feed or a carriage return.
pub open spec fn is_ascii_space(c: char) -> bool {
    c == ' ' || c == '\t' || c == '\n' || c == '\x0C' || c == '\r'
}

/// The words of a text: its longest runs of characters that are not
/// white space of ASCII.
pub open spec fn words(s: Seq<char>) -> Seq<Seq<char>>
    decreases s.len(),
{
    if s.len() == 0 {
        Seq::empty()
    } else {
        let before = words(s.drop_last());
        if is_ascii_space(s.last()) {
            before
        } else if s.len() >= 2 && !is_ascii_space(s[s.len() - 2]) && before.len() > 0 {
            before.drop_last().push(before.last().push(s.last()))
        } else {
            before.push(seq![s.last()])
        }
    }
}

/// The number that an id or a reference stands for, where there is one.
pub open spec fn tag_of(text: Option<Seq<char>>) -> Option<Option<u32>> {
    match text {
        None => Some(None),
        Some(t) => match bounded_number(t, u32::MAX as nat) {
            Some(n) => Some(Some(n as u32)),
            None => None,
        },
    }
}

/// The command that the parts of a line stand for.
///
/// `kgp` takes three numbers of 8 bits, `state` the text of a board,
/// `set` an option and a value; `stop`, `ok`, `goodbye` and `ping` take
/// no notice of their arguments, and `pong` and `error` take them as
/// their message.
pub open spec fn command_of(
    id: Option<Seq<char>>,
    ref_id: Option<Seq<char>>,
    cmd: Seq<char>,
    args: Seq<char>,
) -> Result<CommandView, ParseError> {
    if tag_of(id) is None {
        Err(ParseError::BadId)
    } else if tag_of(ref_id) is None {
        Err(ParseError::BadRef)
    } else {
        let id = tag_of(id).unwrap();
        let ref_id = tag_of(ref_id).unwrap();
        let ws = words(args);
        if cmd == "kgp"@ {
            if ws.len() != 3 {
                Err(ParseError::UnexpectedArgs)
            } else if bounded_number(ws[0], 255) is None || bounded_number(ws[1], 255) is None
                || bounded_number(ws[2], 255) is None {
                Err(ParseError::BadVersion)
            } else {
                Ok(
                    CommandView::Kpg {
                        id,
                        ref_id,
                        major: bounded_number(ws[0], 255).unwrap() as u8,
                        minor: bounded_number(ws[1], 255).unwrap() as u8,
                        patch: bounded_number(ws[2], 255).unwrap() as u8,
                    },
                )
            }
        } else if cmd == "state"@ {
            if ws.len() != 1 {
                Err(ParseError::UnexpectedArgs)
            } else {
                match decode(ws[0]) {
                    Some(board) => Ok(CommandView::State { id, ref_id, board }),
                    None => Err(ParseError::BadBoard),
                }
            }
        } else if cmd == "stop"@ {
            Ok(CommandView::Stop { id, ref_id })
        } else if cmd == "ok"@ {
            Ok(CommandView::Okay { id, ref_id })
        } else if cmd == "set"@ {
            if ws.len() != 2 {
                Err(ParseError::UnexpectedArgs)
            } else {
                Ok(CommandView::SetOption { id, ref_id, option: ws[0], value: ws[1] })
            }
        } else if cmd == "ping"@ {
            Ok(CommandView::Ping { id, ref_id, msg: Seq::empty() })
        } else if cmd == "pong"@ {
            Ok(CommandView::Pong { id, ref_id, msg: args })
        } else if cmd == "goodbye"@ {
            Ok(CommandView::Goodbye { id, ref_id })
        } else if cmd == "error"@ {
            Ok(CommandView::Error { id, ref_id, msg: args })
        } else {
            Err(ParseError::UnknownCommand)
        }
    }
}

/// The id of a command and, behind an `@`, its reference, as far as the
/// command has them.
pub open spec fn tag_text(id: Option<u32>, ref_id: Option<u32>) -> Seq<char> {
    (match id {
        Some(n) => decimal(n as nat),
        None => Seq::empty(),
    }) + (match ref_id {
        Some(n) => seq!['@'] + decimal(n as nat),
        None => Seq::empty(),
    })
}

/// The line of text that stands for a command: its id and reference, a
/// blank, the name of the command and its arguments.
pub open spec fn command_text(c: CommandView) -> Seq<char> {
    match c {
        CommandView::Kpg { id, ref_id, major, minor, patch } => tag_text(id, ref_id) + " kpg "@
            + decimal(major as nat) + " "@ + decimal(minor as nat) + " "@ + decimal(patch as nat),
        CommandView::State { id, ref_id, board } => tag_text(id, ref_id) + " state "@ + encode(
            board,
        ),
        CommandView::Stop { id, ref_id } => tag_text(id, ref_id) + " stop"@,
        CommandView::Okay { id, ref_id } => tag_text(id, ref_id) + " ok"@,
        CommandView::SetOption { id, ref_id, option, value } => tag_text(id, ref_id) + " set "@
            + option + " "@ + value,
        CommandView::Ping { id, ref_id, msg } => tag_text(id, ref_id) + " ping "@ + msg,
        CommandView::Pong { id, ref_id, msg } => tag_text(id, ref_id) + " pong "@ + msg,
        CommandView::Goodbye { id, ref_id } => tag_text(id, ref_id) + " goodbye"@,
        CommandView::Error { id, ref_id, msg } => tag_text(id, ref_id) + " error "@ + msg,
    }
}

/// Begins a line with the id and the reference of a command.
fn tagged(id: &Option<u32>, ref_id: &Option<u32>) -> (out: String)
    ensures
        out@ == tag_text(*id, *ref_id),
{
    let mut out = String::new();
    if let Some(n) = id {
        push_decimal(&mut out, *n);
    }
    if let Some(n) = ref_id {
        out.push('@');
        push_decimal(&mut out, *n);
    }
    proof {
        assert(out@ =~= tag_text(*id, *ref_id));
    }
    out
}

/// Whether `c` is white space of ASCII.
fn is_ascii_space_char(c: char) -> (r: bool)
    ensures
        r == is_ascii_space(c),
{
    c == ' ' || c == '\t' || c == '\n' || c == '\x0C' || c == '\r'
}

/// The places of the words of `text`: for each word the index of its
/// first character and the index behind its last.
fn word_bounds(text: &Vec<char>) -> (bounds: Vec<(usize, usize)>)
    ensures
        bounds@.len() == words(text@).len(),
        forall|i: int|
            0 <= i < bounds@.len() ==> {
                let (from, to) = #[trigger] bounds@[i];
                &&& from < to <= text@.len()
                &&& words(text@)[i] == text@.subrange(from as int, to as int)
            },
{
    let n = text.len();
    let mut bounds: Vec<(usize, usize)> = Vec::new();
    let mut start: usize = 0;
    let mut in_word = false;
    let mut i: usize = 0;
    while i < n
        invariant
            i <= n,
            n == text@.len(),
            in_word == (i > 0 && !is_ascii_space(text@[i - 1])),
            in_word ==> start < i && words(text@.subrange(0, i as int)).len() == bounds@.len() + 1
                && words(text@.subrange(0, i as int)).last() == text@.subrange(
                start as int,
                i as int,
            ),
            !in_word ==> words(text@.subrange(0, i as int)).len() == bounds@.len(),
            forall|j: int|
                0 <= j < bounds@.len() ==> {
                    let (from, to) = #[trigger] bounds@[j];
                    &&& from < to <= i
                    &&& words(text@.subrange(0, i as int))[j] == text@.subrange(
                        from as int,
                        to as int,
                    )
                },
        decreases n - i,
    {
        let ghost before = words(text@.subrange(0, i as int));
        proof {
            let next = text@.subrange(0, i + 1);
            assert(next.drop_last() =~= text@.subrange(0, i as int));
            assert(next.last() == text@[i as int]);
            if i > 0 {
                assert(next[next.len() - 2] == text@[i - 1]);
            }
        }
        if is_ascii_space_char(text[i]) {
            if in_word {
                bounds.push((start, i));
            }
            in_word = false;
        } else {
            if !in_word {
                start = i;
                in_word = true;
                proof {
                    assert(text@.subrange(start as int, i + 1) =~= seq![text@[i as int]]);
                }
            } else {
                proof {
                    assert(text@.subrange(start as int, i + 1) =~= text@.subrange(
                        start as int,
                        i as int,
                    ).push(text@[i as int]));
                }
            }
        }
        i += 1;
    }
    proof {
        assert(text@.subrange(0, n as int) =~= text@);
    }
    if in_word {
        bounds.push((start, n));
    }
    bounds
}

/// Whether `chars` spells `word`.
fn spells(chars: &Vec<char>, word: &str) -> (r: bool)
    ensures
        r == (chars@ == word@),
{
    let n = word.unicode_len();
    if chars.len() != n {
        return false;
    }
    let mut i: usize = 0;
    while i < n
        invariant
            i <= n,
            n == word@.len(),
            n == chars@.len(),
            forall|j: int| 0 <= j < i ==> chars@[j] == word@[j],
        decreases n - i,
    {
        if chars[i] != word.get_char(i) {
            return false;
        }
        i += 1;
    }
    proof {
        assert(chars@ =~= word@);
    }
    true
}

/// Reads an id or a reference, where there is one.
fn read_tag(text: &Option<String>) -> (r: Option<Option<u32>>)
    ensures
        r == tag_of(
            match text {
                Some(t) => Some(t@),
                None => None,
            },
        ),
{
    match text {
        None => Some(None),
        Some(t) => {
            let chars = chars_of(t.as_str());
            proof {
                assert(chars@.subrange(0, chars@.len() as int) =~= chars@);
            }
            match read_number(&chars, 0, chars.len(), u32::MAX) {
                Some(n) => Some(Some(n)),
                None => None,
            }
        },
    }
}

/// Reads word `i` of the arguments as a number of 8 bits.
fn read_byte(args: &Vec<char>, bounds: &Vec<(usize, usize)>, i: usize) -> (r: Option<u8>)
    requires
        i < bounds@.len(),
        bounds@.len() == words(args@).len(),
        forall|i: int|
            0 <= i < bounds@.len() ==> {
                let (from, to) = #[trigger] bounds@[i];
                &&& from < to <= args@.len()
                &&& words(args@)[i] == args@.subrange(from as int, to as int)
            },
    ensures
        match r {
            Some(n) => bounded_number(words(args@)[i as int], 255) == Some(n as nat),
            None => bounded_number(words(args@)[i as int], 255) is None,
        },
{
    let (from, to) = bounds[i];
    match read_number(args, from, to, 255) {
        Some(n) => Some(n as u8),
        None => None,
    }
}

impl Command {
    /// The command that the parts of a line stand for: its id and its
    /// reference, where it has them, the name of the command and its
    /// arguments.
    pub fn from_parts(
        id: &Option<String>,
        ref_id: &Option<String>,
        cmd: &str,
        args: &str,
    ) -> (r: Result<Command, ParseError>)
        ensures
            match command_of(
                match id {
                    Some(t) => Some(t@),
                    None => None,
                },
                match ref_id {
                    Some(t) => Some(t@),
                    None => None,
                },
                cmd@,
                args@,
            ) {
                Ok(view) => r is Ok && r.unwrap()@ == view && r.unwrap().wf(),
                Err(e) => r == Err::<Command, ParseError>(e),
            },
    {
        let id = match read_tag(id) {
            Some(id) => id,
            None => {
                return Err(ParseError::BadId);
            },
        };
        let ref_id = match read_tag(ref_id) {
            Some(ref_id) => ref_id,
            None => {
                return Err(ParseError::BadRef);
            },
        };
        let cmd = chars_of(cmd);
        let args = chars_of(args);
        let bounds = word_bounds(&args);
        if spells(&cmd, "kgp") {
            if bounds.len() != 3 {
                return Err(ParseError::UnexpectedArgs);
            }
            let major = read_byte(&args, &bounds, 0);
            let minor = read_byte(&args, &bounds, 1);
            let patch = read_byte(&args, &bounds, 2);
            match (major, minor, patch) {
                (Some(major), Some(minor), Some(patch)) => Ok(
                    Command::Kpg { id, ref_id, major, minor, patch },
                ),
                _ => Err(ParseError::BadVersion),
            }
        } else if spells(&cmd, "state") {
            if bounds.len() != 1 {
                return Err(ParseError::UnexpectedArgs);
            }
            let (from, to) = bounds[0];
            let mut word: Vec<char> = Vec::new();
            let mut i: usize = from;
            while i < to
                invariant
                    from <= i <= to <= args@.len(),
                    word@ == args@.subrange(from as int, i as int),
                decreases to - i,
            {
                word.push(args[i]);
                proof {
                    assert(word@ =~= args@.subrange(from as int, i + 1));
                }
                i += 1;
            }
            match Board::parse_kgp_chars(&word) {
                Some(board) => Ok(Command::State { id, ref_id, board }),
                None => Err(ParseError::BadBoard),
            }
        } else if spells(&cmd, "stop") {
            Ok(Command::Stop { id, ref_id })
        } else if spells(&cmd, "ok") {
            Ok(Command::Okay { id, ref_id })
        } else if spells(&cmd, "set") {
            if bounds.len() != 2 {
                return Err(ParseError::UnexpectedArgs);
            }
            let (from0, to0) = bounds[0];
            let (from1, to1) = bounds[1];
            Ok(
                Command::SetOption {
                    id,
                    ref_id,
                    option: string_of(&args, from0, to0),
                    value: string_of(&args, from1, to1),
                },
            )
        } else if spells(&cmd, "ping") {
            Ok(Command::Ping { id, ref_id, msg: String::new() })
        } else if spells(&cmd, "pong") {
            proof {
                assert(args@.subrange(0, args@.len() as int) =~= args@);
            }
            Ok(Command::Pong { id, ref_id, msg: string_of(&args, 0, args.len()) })
        } else if spells(&cmd, "goodbye") {
            Ok(Command::Goodbye { id, ref_id })
        } else if spells(&cmd, "error") {
            proof {
                assert(args@.subrange(0, args@.len() as int) =~= args@);
            }
            Ok(Command::Error { id, ref_id, msg: string_of(&args, 0, args.len()) })
        } else {
            Err(ParseError::UnknownCommand)
        }
    }

    /// Writes the command as a line of text.
    pub fn to_text(&self) -> (text: String)
        requires
            self.wf(),
        ensures
            text@ == command_text(self@),
    {
        match self {
            Command::Kpg { id, ref_id, major, minor, patch } => {
                let mut text = tagged(id, ref_id);
                text.push_str(" kpg ");
                push_decimal(&mut text, *major as u32);
                text.push_str(" ");
                push_decimal(&mut text, *minor as u32);
                text.push_str(" ");
                push_decimal(&mut text, *patch as u32);
                text
            },
            Command::State { id, ref_id, board } => {
                let mut text = tagged(id, ref_id);
                text.push_str(" state ");
                let board_text = board.to_kgp();
                text.push_str(board_text.as_str());
                text
            },
            Command::Stop { id, ref_id } => {
                let mut text = tagged(id, ref_id);
                text.push_str(" stop");
                text
            },
            Command::Okay { id, ref_id } => {
                let mut text = tagged(id, ref_id);
                text.push_str(" ok");
                text
            },
            Command::SetOption { id, ref_id, option, value } => {
                let mut text = tagged(id, ref_id);
                text.push_str(" set ");
                text.push_str(option.as_str());
                text.push_str(" ");
                text.push_str(value.as_str());
                text
            },
            Command::Ping { id, ref_id, msg } => {
                let mut text = tagged(id, ref_id);
                text.push_str(" ping ");
                text.push_str(msg.as_str());
                text
            },
            Command::Pong { id, ref_id, msg } => {
                let mut text = tagged(id, ref_id);
                text.push_str(" pong ");
                text.push_str(msg.as_str());
                text
            },
            Command::Goodbye { id, ref_id } => {
                let mut text = tagged(id, ref_id);
                text.push_str(" goodbye");
                text
            },
            Command::Error { id, ref_id, msg } => {
                let mut text = tagged(id, ref_id);
                text.push_str(" error ");
                text.push_str(msg.as_str());
                text
            },
        }
    }

    /// The parts of a line as [`COMMAND_PATTERN`] takes it apart, and the
    /// command that they stand for.
    pub open spec fn of_line(line: Seq<char>) -> Result<CommandView, ParseError> {
        match regex_group(COMMAND_PATTERN@, line, "cmd"@) {
            None => Err(ParseError::NoMatch),
            Some(cmd) => command_of(
                regex_group(COMMAND_PATTERN@, line, "id"@),
                regex_group(COMMAND_PATTERN@, line, "ref"@),
                cmd,
                match regex_group(COMMAND_PATTERN@, line, "args"@) {
                    Some(args) => args,
                    None => Seq::empty(),
                },
            ),
        }
    }

    /// Reads a command from a line of text.
    pub fn from_str(s: &str) -> (r: Result<Command, ParseError>)
        ensures
            match Command::of_line(s@) {
                Ok(view) => r is Ok && r.unwrap()@ == view && r.unwrap().wf(),
                Err(e) => r == Err::<Command, ParseError>(e),
            },
    {
        let cmd = match capture_group(COMMAND_PATTERN, s, "cmd") {
            Some(cmd) => cmd,
            None => {
                return Err(ParseError::NoMatch);
            },
        };
        let id = capture_group(COMMAND_PATTERN, s, "id");
        let ref_id = capture_group(COMMAND_PATTERN, s, "ref");
        let args = match capture_group(COMMAND_PATTERN, s, "args") {
            Some(args) => args,
            None => String::new(),
        };
        Command::from_parts(&id, &ref_id, cmd.as_str(), args.as_str())
    }
}

impl std::str::FromStr for Command {
    type Err = ParseError;

    /// Reads a command from a line of text.
    fn from_str(s: &str) -> (r: Result<Command, ParseError>)
        ensures
            match Command::of_line(s@) {
                Ok(view) => r is Ok && r.unwrap()@ == view && r.unwrap().wf(),
                Err(e) => r == Err::<Command, ParseError>(e),
            },
    {
        Command::from_str(s)
    }
}

} // verus!
