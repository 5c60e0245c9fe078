//! Laws of the game and of the values of positions.

use vstd::prelude::*;
use crate::moves::Move;
use crate::rules::Position;
use crate::sowing::{lemma_finished, lemma_flip, lemma_play};
use crate::valuation::Score;

verus! {

/// A legal move only moves seeds: the seeds in all houses and both stores
/// together are as many after it as before.
pub proof fn move_conserves_seeds(pos: Position, m: Move)
    requires
        pos.wf(),
        pos.is_legal(m),
    ensures
        pos.play(m).total() == pos.total(),
        pos.play(m).wf(),
        pos.play(m).h() == pos.h(),
{
    lemma_play(pos, m);
}

/// Finishing a game only moves seeds: every house is emptied into the
/// store of its side, and the seeds together stay as many as before.
pub proof fn finish_conserves_seeds(pos: Position)
    requires
        pos.wf(),
    ensures
        pos.finished().total() == pos.total(),
        pos.finished().our_store == pos.our_store + crate::rules::seq_sum(pos.ours),
        pos.finished().their_store == pos.their_store + crate::rules::seq_sum(pos.theirs),
        crate::rules::seq_sum(pos.finished().ours) == 0,
        crate::rules::seq_sum(pos.finished().theirs) == 0,
{
    lemma_finished(pos);
    crate::sowing::lemma_sum_zeros(pos.ours.len());
    crate::sowing::lemma_sum_zeros(pos.theirs.len());
}

/// Sowing passes the store of the opponent by: whatever house is played,
/// no seed is sown into it.
pub proof fn sowing_spares_their_store(pos: Position, k: int)
    requires
        pos.wf(),
        0 <= k < pos.h(),
    ensures
        pos.sown(k).their_store == pos.their_store,
{
    crate::sowing::lemma_sown(pos, k);
}

/// A move that earns another turn has brought a seed into the store of
/// its player.
pub proof fn extra_turn_fills_our_store(pos: Position, k: int)
    requires
        pos.wf(),
        0 <= k < pos.h(),
        pos.ours[k] > 0,
        pos.extra_turn(k),
    ensures
        pos.play_house(k).our_store > pos.our_store,
{
    crate::sowing::lemma_play_house(pos, k);
}

/// After a move the game goes on only if each side has a seed to move:
/// otherwise all houses are empty.
pub proof fn game_is_over_or_goes_on(pos: Position, m: Move)
    requires
        pos.wf(),
        pos.is_legal(m),
    ensures
        pos.play(m).has_legal_move() || (pos.play(m).ours == crate::rules::zeros(pos.h())
            && pos.play(m).theirs == crate::rules::zeros(pos.h())),
{
    lemma_play(pos, m);
    lemma_flip(pos);
    match m.player_spec() {
        crate::moves::Player::White => {
            let k = m.house_spec();
            crate::sowing::lemma_sown(pos, k);
            crate::sowing::lemma_captured(pos.sown(k), pos.last_pit(k));
            let before = pos.sown(k).captured(pos.last_pit(k));
            lemma_finished(before);
        },
        crate::moves::Player::Black => {
            let f = pos.flip();
            let k = m.house_spec();
            crate::sowing::lemma_sown(f, k);
            crate::sowing::lemma_captured(f.sown(k), f.last_pit(k));
            let before = f.sown(k).captured(f.last_pit(k));
            lemma_finished(before);
            lemma_flip(before.settled());
        },
    }
}

/// Flipping a board twice gives the board back: houses, stores and the
/// side to move.
pub proof fn flip_is_involution(pos: Position)
    ensures
        pos.flip().flip() == pos,
{
    lemma_flip(pos);
}

/// Flipping a board moves no seed.
pub proof fn flip_conserves_seeds(pos: Position)
    ensures
        pos.flip().total() == pos.total(),
{
    lemma_flip(pos);
}

/// Any two values can be compared, and the comparison does not depend on
/// the side from which it is made: one of them is not better than the
/// other.
pub proof fn order_is_total(a: Score, b: Score)
    ensures
        a.order(b) == -b.order(a),
        -1 <= a.order(b) <= 1,
        a.le(b) || b.le(a),
        a.order(a) == 0,
{
}

/// "Worse than" is transitive.
pub proof fn lt_is_transitive(a: Score, b: Score, c: Score)
    requires
        a.lt(b),
        b.lt(c),
    ensures
        a.lt(c),
{
}

/// "Not better than" is transitive, but for one chain: an open game of
/// value zero is neither better nor worse than any draw, while of two
/// draws the longer is better.
pub proof fn le_is_transitive(a: Score, b: Score, c: Score)
    requires
        a.le(b),
        b.le(c),
        !(a is Draw && c is Draw && b == (Score::NonTerminal { value: 0 }) && a.plies()
            > c.plies()),
    ensures
        a.le(c),
{
}

/// Seeing a value from the other side twice gives the value back.
pub proof fn neg_is_involution(v: Score)
    ensures
        v.neg().neg() == v,
{
}

/// Seen from the other side the order of two values is reversed, unless
/// both are draws: a draw looks the same from either side, and the longer
/// draw is the better one for both.
pub proof fn neg_reverses_order(a: Score, b: Score)
    requires
        !(a is Draw && b is Draw),
    ensures
        a.neg().order(b.neg()) == -a.order(b),
        a.lt(b) ==> a.neg().gt(b.neg()),
{
}

/// Of two draws the longer is the better from either side.
pub proof fn neg_keeps_order_of_draws(a: Score, b: Score)
    requires
        a is Draw,
        b is Draw,
    ensures
        a.neg().order(b.neg()) == a.order(b),
{
}

} // verus!
