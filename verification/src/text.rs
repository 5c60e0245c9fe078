//! The board as a line of text: `<h, our store, their store, our houses,
//! their houses>`, all as decimal numbers, from the point of view of the
//! side to move.

use vstd::prelude::*;
use vstd::string::StrSliceExecFns;
use crate::board::{counts, Board, House};
use crate::rules::Position;
use crate::valuation::{Score, Valuation};

verus! {

/// `String::push_str` appends a string slice to a string.
pub assume_specification[ String::push_str ](s: &mut String, other: &str)
    ensures
        final(s)@ == old(s)@ + other@,
;

/// `String::push` appends one character to a string.
pub assume_specification[ String::push ](s: &mut String, ch: char)
    ensures
        final(s)@ == old(s)@.push(ch),
;

/// Whether `c` is white space: a character with the Unicode property
/// `White_Space`.
pub open spec fn is_space(c: char) -> bool {
    let u = c as u32;
    ||| 0x09 <= u <= 0x0D
    ||| u == 0x20
    ||| u == 0x85
    ||| u == 0xA0
    ||| u == 0x1680
    ||| 0x2000 <= u <= 0x200A
    ||| u == 0x2028
    ||| u == 0x2029
    ||| u == 0x202F
    ||| u == 0x205F
    ||| u == 0x3000
}

/// The text without its white space.
pub open spec fn without_spaces(s: Seq<char>) -> Seq<char>
    decreases s.len(),
{
    if s.len() == 0 {
        s
    } else if is_space(s.last()) {
        without_spaces(s.drop_last())
    } else {
        without_spaces(s.drop_last()).push(s.last())
    }
}

/// The fields of a text that commas separate.  A text without a comma is
/// one field, and so is the empty text.
pub open spec fn fields(s: Seq<char>) -> Seq<Seq<char>>
    decreases s.len(),
{
    if s.len() == 0 {
        seq![Seq::<char>::empty()]
    } else {
        let before = fields(s.drop_last());
        if s.last() == ',' {
            before.push(Seq::<char>::empty())
        } else {
            before.drop_last().push(before.last().push(s.last()))
        }
    }
}

/// Whether `c` is one of the digits `0` to `9`.
pub open spec fn is_digit(c: char) -> bool {
    '0' <= c <= '9'
}

/// The number that a row of digits stands for.
pub open spec fn digits_value(s: Seq<char>) -> nat
    decreases s.len(),
{
    if s.len() == 0 {
        0
    } else {
        digits_value(s.drop_last()) * 10 + (s.last() as u32 - '0' as u32) as nat
    }
}

/// The number that a text of digits stands for: one digit or more, and
/// nothing else.
pub open spec fn unsigned_number(digits: Seq<char>) -> Option<nat> {
    if digits.len() > 0 && (forall|i: int| 0 <= i < digits.len() ==> is_digit(#[trigger] digits[i])) {
        Some(digits_value(digits))
    } else {
        None
    }
}

/// The number that a text stands for: one digit or more, after at most
/// one plus sign.
pub open spec fn number(s: Seq<char>) -> Option<nat> {
    if s.len() > 0 && s[0] == '+' {
        unsigned_number(s.drop_first())
    } else {
        unsigned_number(s)
    }
}

/// The number that a text stands for, if it is at most `max`.
pub open spec fn bounded_number(s: Seq<char>, max: nat) -> Option<nat> {
    match number(s) {
        Some(n) => if n <= max {
            Some(n)
        } else {
            None
        },
        None => None,
    }
}

/// The number that a text stands for, if it is a seed count: at most
/// 65535.
pub open spec fn seed_count(s: Seq<char>) -> Option<nat> {
    bounded_number(s, 65535)
}

/// The position that a text stands for, if it stands for one.
///
/// White space counts nowhere.  The text is a `<`, numbers that commas
/// separate, and a `>`.  The first number is the number `h` of houses
/// of a side, at most 128; the second and the third are the stores of
/// the side to move and of the opponent; then come the `h` houses of the
/// side to move and the `h` houses of the opponent, and nothing else.
pub open spec fn decode(s: Seq<char>) -> Option<Position> {
    let t = without_spaces(s);
    if t.len() < 2 || t[0] != '<' || t.last() != '>' {
        None
    } else {
        let fs = fields(t.subrange(1, t.len() - 1));
        if forall|i: int| 0 <= i < fs.len() ==> (#[trigger] seed_count(fs[i])) is Some {
            let h = seed_count(fs[0]).unwrap();
            if h <= 128 && fs.len() == 3 + 2 * h {
                Some(
                    Position {
                        ours: Seq::new(h, |i: int| seed_count(fs[3 + i]).unwrap()),
                        theirs: Seq::new(h, |i: int| seed_count(fs[3 + h + i]).unwrap()),
                        our_store: seed_count(fs[1]).unwrap(),
                        their_store: seed_count(fs[2]).unwrap(),
                        flipped: false,
                    },
                )
            } else {
                None
            }
        } else {
            None
        }
    }
}

/// The digit for a number below ten.
pub open spec fn digit(d: nat) -> char {
    ('0' as u32 + d) as u8 as char
}

/// A number in decimal digits.
pub open spec fn decimal(n: nat) -> Seq<char>
    decreases n,
{
    if n < 10 {
        seq![digit(n)]
    } else {
        decimal(n / 10).push(digit(n % 10))
    }
}

/// The seed counts of a row of houses, each after a comma and a blank.
pub open spec fn listed(row: Seq<nat>) -> Seq<char>
    decreases row.len(),
{
    if row.len() == 0 {
        Seq::<char>::empty()
    } else {
        listed(row.drop_last()) + seq![',', ' '] + decimal(row.last())
    }
}

/// The text that stands for a position, from the point of view of the
/// side to move.
pub open spec fn encode(pos: Position) -> Seq<char> {
    seq!['<'] + decimal(pos.h()) + seq![',', ' '] + decimal(pos.our_store) + seq![',', ' ']
        + decimal(pos.their_store) + listed(pos.ours) + listed(pos.theirs) + seq!['>']
}

/// A number in decimal digits, behind as many blanks as it takes to
/// fill three places.
pub open spec fn padded(n: nat) -> Seq<char> {
    let digits = decimal(n);
    if digits.len() >= 3 {
        digits
    } else if digits.len() == 2 {
        seq![' '] + digits
    } else {
        seq![' ', ' '] + digits
    }
}

/// The houses of a row from the last to the first, each padded behind a
/// blank.
pub open spec fn row_leftwards(row: Seq<nat>) -> Seq<char>
    decreases row.len(),
{
    if row.len() == 0 {
        Seq::<char>::empty()
    } else {
        seq![' '] + padded(row.last()) + row_leftwards(row.drop_last())
    }
}

/// The houses of a row from the first to the last, each padded before a
/// blank.
pub open spec fn row_rightwards(row: Seq<nat>) -> Seq<char>
    decreases row.len(),
{
    if row.len() == 0 {
        Seq::<char>::empty()
    } else {
        row_rightwards(row.drop_last()) + padded(row.last()) + seq![' ']
    }
}

/// The board as a picture of two lines with an empty line between them:
/// above, the store of the opponent and its houses from the last to the
/// first; below, our houses from the first to the last and our store.
pub open spec fn picture(pos: Position) -> Seq<char> {
    padded(pos.their_store) + seq![' ', '|'] + row_leftwards(pos.theirs) + seq![
        '\n',
        '\n',
        ' ',
        ' ',
        ' ',
        ' ',
        ' ',
        ' ',
    ] + row_rightwards(pos.ours) + seq!['|', ' '] + padded(pos.our_store)
}

/// A signed number in decimal digits.
pub open spec fn signed_decimal(n: int) -> Seq<char> {
    if n < 0 {
        seq!['-'] + decimal((-n) as nat)
    } else {
        decimal(n as nat)
    }
}

/// The text that stands for a value: the number of an open game, or the
/// proven result with its plies in brackets.
pub open spec fn score_text(score: Score) -> Seq<char> {
    match score {
        Score::NonTerminal { value } => signed_decimal(value),
        Score::WhiteWin { plies } => "WhiteWin("@ + decimal(plies) + seq![')'],
        Score::BlackWin { plies } => "BlackWin("@ + decimal(plies) + seq![')'],
        Score::Draw { plies } => "Draw("@ + decimal(plies) + seq![')'],
    }
}

/// Whether `c` is white space.
fn is_space_char(c: char) -> (r: bool)
    ensures
        r == is_space(c),
{
    let u = c as u32;
    (0x09 <= u && u <= 0x0D) || u == 0x20 || u == 0x85 || u == 0xA0 || u == 0x1680 || (0x2000
        <= u && u <= 0x200A) || u == 0x2028 || u == 0x2029 || u == 0x202F || u == 0x205F || u
        == 0x3000
}

/// The characters of `s`.
pub fn chars_of(s: &str) -> (out: Vec<char>)
    ensures
        out@ == s@,
{
    let n = s.unicode_len();
    let mut out: Vec<char> = Vec::new();
    let mut i: usize = 0;
    while i < n
        invariant
            i <= n,
            n == s@.len(),
            out@ == s@.subrange(0, i as int),
        decreases n - i,
    {
        out.push(s.get_char(i));
        proof {
            assert(out@ =~= s@.subrange(0, i + 1));
        }
        i += 1;
    }
    proof {
        assert(s@.subrange(0, n as int) =~= s@);
    }
    out
}

/// The characters `from..to` of `chars` as a string.
pub fn string_of(chars: &Vec<char>, from: usize, to: usize) -> (out: String)
    requires
        from <= to <= chars@.len(),
    ensures
        out@ == chars@.subrange(from as int, to as int),
{
    let mut out = String::new();
    let mut i: usize = from;
    proof {
        assert(out@ =~= chars@.subrange(from as int, from as int));
    }
    while i < to
        invariant
            from <= i <= to <= chars@.len(),
            out@ == chars@.subrange(from as int, i as int),
        decreases to - i,
    {
        out.push(chars[i]);
        proof {
            assert(out@ =~= chars@.subrange(from as int, i + 1));
        }
        i += 1;
    }
    out
}

/// The characters of `text` that are not white space.
fn spaceless_chars(text: &Vec<char>) -> (out: Vec<char>)
    ensures
        out@ == without_spaces(text@),
{
    let n = text.len();
    let mut out: Vec<char> = Vec::new();
    let mut i: usize = 0;
    while i < n
        invariant
            i <= n,
            n == text@.len(),
            out@ == without_spaces(text@.subrange(0, i as int)),
        decreases n - i,
    {
        let c = text[i];
        proof {
            assert(text@.subrange(0, i + 1).drop_last() =~= text@.subrange(0, i as int));
        }
        if !is_space_char(c) {
            out.push(c);
        }
        i += 1;
    }
    proof {
        assert(text@.subrange(0, n as int) =~= text@);
    }
    out
}

/// The first digits of a row stand for no more than the whole row.
proof fn lemma_digits_prefix(s: Seq<char>, i: int)
    requires
        0 <= i <= s.len(),
    ensures
        digits_value(s.subrange(0, i)) <= digits_value(s),
    decreases s.len() - i,
{
    if i < s.len() {
        lemma_digits_prefix(s, i + 1);
        assert(s.subrange(0, i + 1).drop_last() =~= s.subrange(0, i));
    } else {
        assert(s.subrange(0, i) =~= s);
    }
}

/// Reads the number that the characters `from..to` of `text` stand for,
/// if it is at most `max`.
pub fn read_number(text: &Vec<char>, from: usize, to: usize, max: u32) -> (r: Option<u32>)
    requires
        from <= to <= text@.len(),
    ensures
        r matches Some(n) ==> bounded_number(text@.subrange(from as int, to as int), max as nat)
            == Some(n as nat),
        r is None ==> bounded_number(text@.subrange(from as int, to as int), max as nat) is None,
{
    let ghost field = text@.subrange(from as int, to as int);
    let start = if from < to && text[from] == '+' {
        from + 1
    } else {
        from
    };
    let ghost digits = text@.subrange(start as int, to as int);
    proof {
        if start == from {
            assert(digits =~= field);
        } else {
            assert(digits =~= field.drop_first());
        }
    }
    if start == to {
        return None;
    }
    let mut acc: u64 = 0;
    let mut i: usize = start;
    while i < to
        invariant
            from <= start <= i <= to <= text@.len(),
            start < to,
            field == text@.subrange(from as int, to as int),
            digits == text@.subrange(start as int, to as int),
            number(field) == unsigned_number(digits),
            forall|j: int| 0 <= j < i - start ==> is_digit(#[trigger] digits[j]),
            acc == digits_value(digits.subrange(0, i - start)),
            acc <= max,
        decreases to - i,
    {
        let c = text[i];
        if !('0' <= c && c <= '9') {
            assert(!is_digit(digits[i - start]));
            return None;
        }
        proof {
            assert(digits.subrange(0, i - start + 1).drop_last() =~= digits.subrange(
                0,
                i - start,
            ));
            lemma_digits_prefix(digits, i - start + 1);
        }
        acc = acc * 10 + (c as u64 - '0' as u64);
        if acc > max as u64 {
            return None;
        }
        i += 1;
    }
    proof {
        assert(digits.subrange(0, to - start) =~= digits);
    }
    Some(acc as u32)
}

/// Reads the seed count that the characters `from..to` of `text` stand
/// for.
fn read_seed_count(text: &Vec<char>, from: usize, to: usize) -> (r: Option<u16>)
    requires
        from <= to <= text@.len(),
    ensures
        r matches Some(n) ==> seed_count(text@.subrange(from as int, to as int)) == Some(n as nat),
        r is None ==> seed_count(text@.subrange(from as int, to as int)) is None,
{
    match read_number(text, from, to, 65535) {
        Some(n) => Some(n as u16),
        None => None,
    }
}

/// The seed counts that the fields of `text[from..to]` stand for, or
/// `None` if a field stands for none.
fn read_fields(text: &Vec<char>, from: usize, to: usize) -> (r: Option<Vec<u16>>)
    requires
        from <= to <= text@.len(),
    ensures
        r matches Some(nums) ==> {
            let fs = fields(text@.subrange(from as int, to as int));
            &&& nums@.len() == fs.len()
            &&& nums@.len() >= 1
            &&& forall|i: int|
                0 <= i < fs.len() ==> seed_count(#[trigger] fs[i]) == Some(nums@[i] as nat)
        },
        r is None ==> {
            let fs = fields(text@.subrange(from as int, to as int));
            exists|i: int| 0 <= i < fs.len() && (#[trigger] seed_count(fs[i])) is None
        },
{
    let ghost body = text@.subrange(from as int, to as int);
    let mut nums: Vec<u16> = Vec::new();
    let mut field_start: usize = from;
    let mut i: usize = from;
    proof {
        assert(body.subrange(0, 0) =~= Seq::<char>::empty());
        assert(text@.subrange(from as int, from as int) =~= Seq::<char>::empty());
    }
    while i < to
        invariant
            from <= field_start <= i <= to <= text@.len(),
            body == text@.subrange(from as int, to as int),
            ({
                let fs = fields(body.subrange(0, i - from));
                &&& fs.len() == nums@.len() + 1
                &&& fs.last() == text@.subrange(field_start as int, i as int)
                &&& forall|j: int|
                    0 <= j < nums@.len() ==> seed_count(#[trigger] fs[j]) == Some(nums@[j] as nat)
            }),
        decreases to - i,
    {
        let ghost before = fields(body.subrange(0, i - from));
        proof {
            assert(body.subrange(0, i - from + 1).drop_last() =~= body.subrange(0, i - from));
            assert(body.subrange(0, i - from + 1).last() == text@[i as int]);
        }
        if text[i] == ',' {
            match read_seed_count(text, field_start, i) {
                None => {
                    proof {
                        lemma_fields_grow(body, i - from + 1, nums@.len() as int);
                    }
                    return None;
                },
                Some(n) => {
                    nums.push(n);
                },
            }
            field_start = i + 1;
            proof {
                assert(text@.subrange(field_start as int, i + 1) =~= Seq::<char>::empty());
            }
        } else {
            proof {
                assert(text@.subrange(field_start as int, i + 1) =~= text@.subrange(
                    field_start as int,
                    i as int,
                ).push(text@[i as int]));
            }
        }
        i += 1;
    }
    proof {
        assert(body.subrange(0, to - from) =~= body);
    }
    match read_seed_count(text, field_start, to) {
        None => None,
        Some(n) => {
            nums.push(n);
            Some(nums)
        },
    }
}

/// More text adds fields and changes only the last of those that are
/// there.
proof fn lemma_fields_grow(s: Seq<char>, i: int, j: int)
    requires
        0 <= i <= s.len(),
        0 <= j < fields(s.subrange(0, i)).len() - 1,
    ensures
        j < fields(s).len() - 1,
        fields(s)[j] == fields(s.subrange(0, i))[j],
    decreases s.len() - i,
{
    if i < s.len() {
        assert(s.subrange(0, i + 1).drop_last() =~= s.subrange(0, i));
        lemma_fields_grow(s, i + 1, j);
    } else {
        assert(s.subrange(0, i) =~= s);
    }
}

/// Appends the decimal digits of `n` to `out`.
pub(crate) fn push_decimal(out: &mut String, n: u32)
    ensures
        final(out)@ == old(out)@ + decimal(n as nat),
    decreases n,
{
    if n >= 10 {
        push_decimal(out, n / 10);
    }
    let d: u8 = (n % 10) as u8;
    out.push((48u8 + d) as char);
    proof {
        if n >= 10 {
            assert(out@ =~= old(out)@ + decimal(n as nat));
        } else {
            assert(out@ =~= old(out)@ + decimal(n as nat));
        }
    }
}

/// Appends the seed counts of a row of houses, each after a comma and a
/// blank.
fn push_listed(out: &mut String, row: &[House])
    ensures
        final(out)@ == old(out)@ + listed(counts(row@)),
{
    let ghost all = counts(row@);
    let mut i: usize = 0;
    proof {
        assert(all.subrange(0, 0) =~= Seq::<nat>::empty());
        assert(out@ =~= old(out)@ + listed(all.subrange(0, 0)));
    }
    while i < row.len()
        invariant
            i <= row@.len(),
            all == counts(row@),
            out@ == old(out)@ + listed(all.subrange(0, i as int)),
        decreases row@.len() - i,
    {
        let ghost before = out@;
        out.push(',');
        out.push(' ');
        push_decimal(out, row[i] as u32);
        proof {
            let part = all.subrange(0, i + 1);
            assert(part.drop_last() =~= all.subrange(0, i as int));
            assert(part.last() == row@[i as int] as nat);
            assert(out@ =~= old(out)@ + listed(part));
        }
        i += 1;
    }
    proof {
        assert(all.subrange(0, row@.len() as int) =~= all);
    }
}

/// Appends the digits of `n`, behind as many blanks as it takes to fill
/// three places.
fn push_padded(out: &mut String, n: u16)
    ensures
        final(out)@ == old(out)@ + padded(n as nat),
{
    proof {
        lemma_decimal_len(n as nat);
    }
    if n < 10 {
        out.push(' ');
        out.push(' ');
    } else if n < 100 {
        out.push(' ');
    }
    push_decimal(out, n as u32);
    proof {
        assert(out@ =~= old(out)@ + padded(n as nat));
    }
}

/// Appends the houses of a row from the last to the first.
fn push_row_leftwards(out: &mut String, row: &[House])
    ensures
        final(out)@ == old(out)@ + row_leftwards(counts(row@)),
{
    let ghost all = counts(row@);
    let mut i: usize = row.len();
    proof {
        assert(all.subrange(0, i as int) =~= all);
    }
    while i > 0
        invariant
            i <= row@.len(),
            all == counts(row@),
            out@ + row_leftwards(all.subrange(0, i as int)) == old(out)@ + row_leftwards(all),
        decreases i,
    {
        let ghost part = all.subrange(0, i as int);
        let ghost before = out@;
        proof {
            assert(part.drop_last() =~= all.subrange(0, i - 1));
            assert(part.last() == row@[i - 1] as nat);
        }
        i -= 1;
        out.push(' ');
        push_padded(out, row[i]);
        proof {
            assert(out@ + row_leftwards(all.subrange(0, i as int)) =~= before + row_leftwards(
                part,
            ));
        }
    }
    proof {
        assert(all.subrange(0, 0) =~= Seq::<nat>::empty());
        assert(out@ + Seq::<char>::empty() =~= out@);
    }
}

/// Appends the houses of a row from the first to the last.
fn push_row_rightwards(out: &mut String, row: &[House])
    ensures
        final(out)@ == old(out)@ + row_rightwards(counts(row@)),
{
    let ghost all = counts(row@);
    let mut j: usize = 0;
    proof {
        assert(all.subrange(0, 0) =~= Seq::<nat>::empty());
        assert(old(out)@ + row_rightwards(all.subrange(0, 0)) =~= old(out)@);
    }
    while j < row.len()
        invariant
            j <= row@.len(),
            all == counts(row@),
            out@ == old(out)@ + row_rightwards(all.subrange(0, j as int)),
        decreases row@.len() - j,
    {
        push_padded(out, row[j]);
        out.push(' ');
        proof {
            let part = all.subrange(0, j + 1);
            assert(part.drop_last() =~= all.subrange(0, j as int));
            assert(part.last() == row@[j as int] as nat);
            assert(out@ =~= old(out)@ + row_rightwards(part));
        }
        j += 1;
    }
    proof {
        assert(all.subrange(0, row@.len() as int) =~= all);
    }
}

/// How many digits a number has.
proof fn lemma_decimal_len(n: nat)
    ensures
        n < 10 ==> decimal(n).len() == 1,
        10 <= n < 100 ==> decimal(n).len() == 2,
        n >= 100 ==> decimal(n).len() >= 3,
    decreases n,
{
    if n >= 10 {
        lemma_decimal_len(n / 10);
    }
}

impl Valuation {
    /// Writes the value as text.
    pub fn to_text(&self) -> (text: String)
        ensures
            text@ == score_text(self@),
    {
        let mut text = String::new();
        match *self {
            Valuation::NonTerminal { value } => {
                if value < 0 {
                    text.push('-');
                    push_decimal(&mut text, (-(value as i64)) as u32);
                } else {
                    push_decimal(&mut text, value as u32);
                }
                proof {
                    assert(text@ =~= score_text(self@));
                }
            },
            Valuation::TerminalWhiteWin { plies } => {
                text.push_str("WhiteWin(");
                push_decimal(&mut text, plies);
                text.push(')');
                proof {
                    assert(text@ =~= score_text(self@));
                }
            },
            Valuation::TerminalBlackWin { plies } => {
                text.push_str("BlackWin(");
                push_decimal(&mut text, plies);
                text.push(')');
                proof {
                    assert(text@ =~= score_text(self@));
                }
            },
            Valuation::TerminalDraw { plies } => {
                text.push_str("Draw(");
                push_decimal(&mut text, plies);
                text.push(')');
                proof {
                    assert(text@ =~= score_text(self@));
                }
            },
        }
        text
    }
}

impl Board {
    /// Draws the board for a human reader.
    pub fn to_picture(&self) -> (text: String)
        requires
            self.wf(),
        ensures
            text@ == picture(self@),
    {
        proof {
            self.lemma_wf();
        }
        let mut text = String::new();
        push_padded(&mut text, self.their_store());
        text.push(' ');
        text.push('|');
        push_row_leftwards(&mut text, self.their_houses());
        text.push('\n');
        text.push('\n');
        text.push(' ');
        text.push(' ');
        text.push(' ');
        text.push(' ');
        text.push(' ');
        text.push(' ');
        push_row_rightwards(&mut text, self.our_houses());
        text.push('|');
        text.push(' ');
        push_padded(&mut text, self.our_store());
        proof {
            assert(text@ =~= picture(self@));
        }
        text
    }

    /// Writes the board as text, from the point of view of the side to
    /// move: `<h, our store, their store, our houses, their houses>`.
    pub fn to_kgp(&self) -> (text: String)
        requires
            self.wf(),
        ensures
            text@ == encode(self@),
    {
        proof {
            self.lemma_wf();
        }
        let mut text = String::new();
        text.push('<');
        push_decimal(&mut text, self.h() as u32);
        text.push(',');
        text.push(' ');
        push_decimal(&mut text, self.our_store() as u32);
        text.push(',');
        text.push(' ');
        push_decimal(&mut text, self.their_store() as u32);
        push_listed(&mut text, self.our_houses());
        push_listed(&mut text, self.their_houses());
        text.push('>');
        proof {
            assert(text@ =~= encode(self@));
        }
        text
    }

    /// Reads a board from text, or returns `None` if the text stands for
    /// none.  The side to move of the board that was read is the first
    /// player.
    pub fn parse_kgp(kpg: &str) -> (r: Option<Board>)
        ensures
            match decode(kpg@) {
                Some(pos) => r is Some && r.unwrap().wf() && r.unwrap()@ == pos,
                None => r is None,
            },
    {
        let chars = chars_of(kpg);
        Board::parse_kgp_chars(&chars)
    }

    /// Reads a board from the characters of a text, or returns `None` if
    /// the text stands for none.
    pub fn parse_kgp_chars(kpg: &Vec<char>) -> (r: Option<Board>)
        ensures
            match decode(kpg@) {
                Some(pos) => r is Some && r.unwrap().wf() && r.unwrap()@ == pos,
                None => r is None,
            },
    {
        let t = spaceless_chars(kpg);
        let n = t.len();
        if n < 2 || t[0] != '<' || t[n - 1] != '>' {
            return None;
        }
        let ghost fs = fields(t@.subrange(1, n - 1));
        let nums = match read_fields(&t, 1, n - 1) {
            None => {
                return None;
            },
            Some(nums) => nums,
        };
        let h = nums[0] as usize;
        proof {
            assert(seed_count(fs[0]) == Some(nums@[0] as nat));
        }
        if h > 128 || nums.len() != 3 + 2 * h {
            return None;
        }
        let mut ours: Vec<House> = Vec::new();
        let mut theirs: Vec<House> = Vec::new();
        let mut i: usize = 0;
        while i < h
            invariant
                i <= h <= 128,
                nums@.len() == 3 + 2 * h,
                ours@ == nums@.subrange(3, 3 + i),
                theirs@ == nums@.subrange(3 + h, 3 + h + i),
            decreases h - i,
        {
            ours.push(nums[3 + i]);
            theirs.push(nums[3 + h + i]);
            proof {
                assert(ours@ =~= nums@.subrange(3, 3 + i + 1));
                assert(theirs@ =~= nums@.subrange(3 + h, 3 + h + i + 1));
            }
            i += 1;
        }
        let board = Board::from_parts(h as u8, ours, theirs, nums[1], nums[2], false);
        proof {
            let pos = decode(kpg@).unwrap();
            assert(seed_count(fs[1]) == Some(nums@[1] as nat));
            assert(seed_count(fs[2]) == Some(nums@[2] as nat));
            assert forall|j: int| 0 <= j < h implies board@.ours[j] == pos.ours[j] by {
                assert(seed_count(fs[3 + j]) == Some(nums@[3 + j] as nat));
            }
            assert forall|j: int| 0 <= j < h implies board@.theirs[j] == pos.theirs[j] by {
                assert(seed_count(fs[3 + h + j]) == Some(nums@[3 + h + j] as nat));
            }
            assert(board@.ours =~= pos.ours);
            assert(board@.theirs =~= pos.theirs);
        }
        Some(board)
    }

    /// Reads a board from a text that stands for one.  The side to move
    /// is the first player.
    pub fn from_kpg(kpg: &str) -> (board: Board)
        requires
            decode(kpg@) is Some,
        ensures
            board.wf(),
            board@ == decode(kpg@).unwrap(),
    {
        Board::parse_kgp(kpg).unwrap()
    }
}

} // verus!
