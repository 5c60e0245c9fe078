//! The text of a board can be read back: reading what was written gives
//! the position that was written.

use vstd::prelude::*;
use crate::rules::Position;
use crate::text::{
    decimal, decode, digit, digits_value, encode, fields, is_digit, is_space, listed, number,
    seed_count, without_spaces,
};

verus! {

/// The seed counts of a row, each after a comma.
pub open spec fn packed(row: Seq<nat>) -> Seq<char>
    decreases row.len(),
{
    if row.len() == 0 {
        Seq::<char>::empty()
    } else {
        packed(row.drop_last()) + seq![','] + decimal(row.last())
    }
}

/// A digit is a digit, and neither white space nor a comma nor a sign.
proof fn lemma_digit(d: nat)
    requires
        d < 10,
    ensures
        is_digit(digit(d)),
        !is_space(digit(d)),
        digit(d) != ',',
        digit(d) != '+',
        digit(d) as u32 - '0' as u32 == d,
{
}

/// The decimal digits of a number are digits and stand for the number.
proof fn lemma_decimal(n: nat)
    ensures
        decimal(n).len() >= 1,
        forall|i: int| 0 <= i < decimal(n).len() ==> is_digit(#[trigger] decimal(n)[i]),
        forall|i: int| 0 <= i < decimal(n).len() ==> !is_space(#[trigger] decimal(n)[i]),
        forall|i: int| 0 <= i < decimal(n).len() ==> #[trigger] decimal(n)[i] != ',',
        decimal(n)[0] != '+',
        digits_value(decimal(n)) == n,
        number(decimal(n)) == Some(n),
    decreases n,
{
    if n < 10 {
        lemma_digit(n);
        assert(decimal(n).drop_last() =~= Seq::<char>::empty());
        assert(digits_value(Seq::<char>::empty()) == 0);
    } else {
        lemma_decimal(n / 10);
        lemma_digit(n % 10);
        let d = decimal(n);
        assert(d.drop_last() =~= decimal(n / 10));
        assert forall|i: int| 0 <= i < d.len() implies is_digit(#[trigger] d[i]) && !is_space(d[i])
            && d[i] != ',' by {
            if i < d.len() - 1 {
                assert(d[i] == decimal(n / 10)[i]);
            }
        }
        assert(d[0] == decimal(n / 10)[0]);
    }
}

/// White space is taken out of the parts of a text one by one.
proof fn lemma_without_spaces_concat(a: Seq<char>, b: Seq<char>)
    ensures
        without_spaces(a + b) == without_spaces(a) + without_spaces(b),
    decreases b.len(),
{
    if b.len() == 0 {
        assert(a + b =~= a);
        assert(without_spaces(a) + without_spaces(b) =~= without_spaces(a));
    } else {
        assert((a + b).drop_last() =~= a + b.drop_last());
        lemma_without_spaces_concat(a, b.drop_last());
        if is_space(b.last()) {
        } else {
            assert(without_spaces(a) + without_spaces(b) =~= (without_spaces(a) + without_spaces(
                b.drop_last(),
            )).push(b.last()));
        }
    }
}

/// A text without white space stays as it is.
proof fn lemma_spaceless(s: Seq<char>)
    requires
        forall|i: int| 0 <= i < s.len() ==> !is_space(#[trigger] s[i]),
    ensures
        without_spaces(s) == s,
    decreases s.len(),
{
    if s.len() > 0 {
        lemma_spaceless(s.drop_last());
        assert(s.drop_last().push(s.last()) =~= s);
    }
}

/// A comma and a blank, without the blank.
proof fn lemma_separator()
    ensures
        without_spaces(seq![',', ' ']) == seq![','],
{
    let sep = seq![',', ' '];
    let comma = seq![','];
    lemma_spaceless(comma);
    assert(sep.drop_last() =~= comma);
    assert(is_space(sep.last()));
}

/// The listed seed counts of a row, without their blanks.
proof fn lemma_listed(row: Seq<nat>)
    ensures
        without_spaces(listed(row)) == packed(row),
    decreases row.len(),
{
    if row.len() > 0 {
        lemma_listed(row.drop_last());
        lemma_decimal(row.last());
        let sep = seq![',', ' '];
        lemma_separator();
        lemma_spaceless(decimal(row.last()));
        lemma_without_spaces_concat(listed(row.drop_last()), sep);
        lemma_without_spaces_concat(listed(row.drop_last()) + sep, decimal(row.last()));
    }
}

/// Rows that follow each other are packed one after the other.
proof fn lemma_packed_concat(a: Seq<nat>, b: Seq<nat>)
    ensures
        packed(a + b) == packed(a) + packed(b),
    decreases b.len(),
{
    if b.len() == 0 {
        assert(a + b =~= a);
        assert(packed(a) + packed(b) =~= packed(a));
    } else {
        assert((a + b).drop_last() =~= a + b.drop_last());
        lemma_packed_concat(a, b.drop_last());
        assert(packed(a + b) =~= packed(a) + packed(b));
    }
}

/// A text has at least one field.
proof fn lemma_fields_len(s: Seq<char>)
    ensures
        fields(s).len() >= 1,
    decreases s.len(),
{
    if s.len() > 0 {
        lemma_fields_len(s.drop_last());
    }
}

/// Text without a comma lengthens the last field.
proof fn lemma_fields_plain(s: Seq<char>, d: Seq<char>)
    requires
        forall|i: int| 0 <= i < d.len() ==> #[trigger] d[i] != ',',
    ensures
        fields(s).len() >= 1,
        fields(s + d) == fields(s).drop_last().push(fields(s).last() + d),
    decreases d.len(),
{
    lemma_fields_len(s);
    if d.len() == 0 {
        assert(s + d =~= s);
        assert(fields(s).last() + d =~= fields(s).last());
        assert(fields(s).drop_last().push(fields(s).last()) =~= fields(s));
    } else {
        assert((s + d).drop_last() =~= s + d.drop_last());
        lemma_fields_plain(s, d.drop_last());
        let before = fields(s + d.drop_last());
        assert(before.drop_last() =~= fields(s).drop_last());
        assert(before.last().push(d.last()) =~= fields(s).last() + d);
    }
}

/// The fields of a number followed by packed numbers are the decimals of
/// all these numbers.
proof fn lemma_fields_packed(first: nat, row: Seq<nat>)
    ensures
        fields(decimal(first) + packed(row)).len() == 1 + row.len(),
        fields(decimal(first) + packed(row))[0] == decimal(first),
        forall|i: int|
            0 <= i < row.len() ==> #[trigger] fields(decimal(first) + packed(row))[1 + i]
                == decimal(row[i]),
    decreases row.len(),
{
    if row.len() == 0 {
        lemma_decimal(first);
        lemma_fields_plain(Seq::<char>::empty(), decimal(first));
        assert(Seq::<char>::empty() + decimal(first) =~= decimal(first));
        assert(decimal(first) + packed(row) =~= decimal(first));
        assert(Seq::<char>::empty() + decimal(first) =~= decimal(first));
    } else {
        lemma_fields_packed(first, row.drop_last());
        lemma_decimal(row.last());
        let head = decimal(first) + packed(row.drop_last());
        let with_comma = head + seq![','];
        assert(with_comma.drop_last() =~= head);
        assert(fields(with_comma) == fields(head).push(Seq::<char>::empty()));
        lemma_fields_plain(with_comma, decimal(row.last()));
        assert(decimal(first) + packed(row) =~= with_comma + decimal(row.last()));
        assert(Seq::<char>::empty() + decimal(row.last()) =~= decimal(row.last()));
        let fs = fields(decimal(first) + packed(row));
        assert(fs == fields(head).push(decimal(row.last())));
        assert forall|i: int| 0 <= i < row.len() implies #[trigger] fs[1 + i] == decimal(
            row[i],
        ) by {
            if i < row.len() - 1 {
                assert(fs[1 + i] == fields(head)[1 + i]);
                assert(row.drop_last()[i] == row[i]);
            }
        }
    }
}

/// The numbers of a position that are written behind the first.
pub open spec fn numbers_behind(pos: Position) -> Seq<nat> {
    seq![pos.our_store, pos.their_store] + pos.ours + pos.theirs
}

/// The stores, packed.
proof fn lemma_packed_stores(a: nat, b: nat)
    ensures
        packed(seq![a, b]) == seq![','] + decimal(a) + seq![','] + decimal(b),
{
    let stores = seq![a, b];
    assert(stores.drop_last() =~= seq![a]);
    assert(seq![a].drop_last() =~= Seq::<nat>::empty());
    assert(packed(Seq::<nat>::empty()) =~= Seq::<char>::empty());
    assert(packed(seq![a]) =~= seq![','] + decimal(a));
    assert(packed(stores) =~= seq![','] + decimal(a) + seq![','] + decimal(b));
}

/// The head of the text of a position, without its blanks.
proof fn lemma_head_stripped(h: nat, a: nat, b: nat)
    ensures
        without_spaces(
            seq!['<'] + decimal(h) + seq![',', ' '] + decimal(a) + seq![',', ' '] + decimal(b),
        ) == seq!['<'] + decimal(h) + packed(seq![a, b]),
{
    let sep = seq![',', ' '];
    let open = seq!['<'];
    lemma_decimal(h);
    lemma_decimal(a);
    lemma_decimal(b);
    lemma_spaceless(decimal(h));
    lemma_spaceless(decimal(a));
    lemma_spaceless(decimal(b));
    lemma_spaceless(open);
    lemma_separator();
    lemma_packed_stores(a, b);
    let e1 = open + decimal(h);
    let e2 = e1 + sep;
    let e3 = e2 + decimal(a);
    let e4 = e3 + sep;
    lemma_without_spaces_concat(open, decimal(h));
    lemma_without_spaces_concat(e1, sep);
    lemma_without_spaces_concat(e2, decimal(a));
    lemma_without_spaces_concat(e3, sep);
    lemma_without_spaces_concat(e4, decimal(b));
    assert(without_spaces(e4 + decimal(b)) =~= open + decimal(h) + packed(seq![a, b]));
}

/// The text of a position without its blanks: the numbers of the
/// position between the brackets, with commas between them.
proof fn lemma_stripped(pos: Position)
    ensures
        without_spaces(encode(pos)) == seq!['<'] + (decimal(pos.h()) + packed(
            numbers_behind(pos),
        )) + seq!['>'],
{
    let close = seq!['>'];
    let stores = seq![pos.our_store, pos.their_store];
    let head = seq!['<'] + decimal(pos.h()) + seq![',', ' '] + decimal(pos.our_store) + seq![
        ',',
        ' ',
    ] + decimal(pos.their_store);
    lemma_head_stripped(pos.h(), pos.our_store, pos.their_store);
    lemma_listed(pos.ours);
    lemma_listed(pos.theirs);
    lemma_spaceless(close);
    let e6 = head + listed(pos.ours);
    let e7 = e6 + listed(pos.theirs);
    lemma_without_spaces_concat(head, listed(pos.ours));
    lemma_without_spaces_concat(e6, listed(pos.theirs));
    lemma_without_spaces_concat(e7, close);
    lemma_packed_concat(stores, pos.ours);
    lemma_packed_concat(stores + pos.ours, pos.theirs);
    assert(encode(pos) == e7 + close);
    assert(without_spaces(e7 + close) =~= seq!['<'] + (decimal(pos.h()) + packed(
        numbers_behind(pos),
    )) + close);
}

/// Reading the text of a position gives the position back, if the first
/// player is to move in it and its numbers can be held by a board: at
/// most 128 houses a side and at most 65535 seeds in a pit.
pub proof fn written_board_is_read_back(pos: Position)
    requires
        pos.wf(),
        !pos.flipped,
        pos.h() <= 128,
        pos.our_store <= u16::MAX,
        pos.their_store <= u16::MAX,
        forall|i: int| 0 <= i < pos.h() ==> #[trigger] pos.ours[i] <= u16::MAX,
        forall|i: int| 0 <= i < pos.h() ==> #[trigger] pos.theirs[i] <= u16::MAX,
    ensures
        decode(encode(pos)) == Some(pos),
{
    let h = pos.h() as int;
    let rest = numbers_behind(pos);
    let body = decimal(pos.h()) + packed(rest);
    let t = without_spaces(encode(pos));
    lemma_stripped(pos);
    assert(t.subrange(1, t.len() - 1) =~= body);
    lemma_fields_packed(pos.h(), rest);
    let fs = fields(body);
    lemma_decimal(pos.h());
    assert forall|i: int| 0 <= i < rest.len() implies seed_count(#[trigger] fs[1 + i]) == Some(
        rest[i],
    ) by {
        lemma_decimal(rest[i]);
    }
    assert forall|i: int| 0 <= i < fs.len() implies (#[trigger] seed_count(fs[i])) is Some by {
        if i > 0 {
            assert(seed_count(fs[1 + (i - 1)]) == Some(rest[i - 1]));
        }
    }
    assert(seed_count(fs[1 + 0int]) == Some(rest[0]));
    assert(seed_count(fs[1 + 1int]) == Some(rest[1]));
    let back = decode(encode(pos)).unwrap();
    assert forall|i: int| 0 <= i < h implies back.ours[i] == pos.ours[i] by {
        assert(seed_count(fs[1 + (2 + i)]) == Some(rest[2 + i]));
    }
    assert forall|i: int| 0 <= i < h implies back.theirs[i] == pos.theirs[i] by {
        assert(seed_count(fs[1 + (2 + h + i)]) == Some(rest[2 + h + i]));
    }
    assert(back.ours =~= pos.ours);
    assert(back.theirs =~= pos.theirs);
}

} // verus!
