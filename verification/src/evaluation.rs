//! Heuristics that give a position its value.

use vstd::prelude::*;
use crate::board::Board;
use crate::rules::{seq_sum, Position};
use crate::sowing::lemma_sum_prefix;
use crate::valuation::{Score, Valuation};

verus! {

/// The result of a game that is over: the side with more seeds in its
/// store has won, and equal stores are a draw.
pub open spec fn final_score(pos: Position) -> Score {
    if pos.our_store > pos.their_store {
        Score::WhiteWin { plies: 0 }
    } else if pos.our_store < pos.their_store {
        Score::BlackWin { plies: 0 }
    } else {
        Score::Draw { plies: 0 }
    }
}

/// The lead in captured seeds; the result of the game once it is over.
pub open spec fn store_diff_score(pos: Position) -> Score {
    if !pos.has_legal_move() {
        final_score(pos)
    } else {
        Score::NonTerminal { value: pos.our_store - pos.their_store }
    }
}

/// As [`store_diff_score`], but a game also counts as over once a store
/// holds more than half of all seeds.
pub open spec fn store_diff_score2(pos: Position) -> Score {
    let half = pos.total() / 2;
    if !pos.has_legal_move() || pos.our_store > half || pos.their_store > half {
        final_score(pos)
    } else {
        Score::NonTerminal { value: pos.our_store - pos.their_store }
    }
}

/// The lead in seeds, those in the houses included; the result of the
/// game once it is over.
pub open spec fn seed_diff_score(pos: Position) -> Score {
    if !pos.has_legal_move() {
        final_score(pos)
    } else {
        Score::NonTerminal {
            value: pos.our_store + seq_sum(pos.ours) - pos.their_store - seq_sum(pos.theirs),
        }
    }
}

/// The result of a finished game by the stores.
fn final_valuation(our_store: i32, their_store: i32) -> (v: Valuation)
    ensures
        v == if our_store > their_store {
            (Valuation::TerminalWhiteWin { plies: 0 })
        } else if our_store < their_store {
            (Valuation::TerminalBlackWin { plies: 0 })
        } else {
            (Valuation::TerminalDraw { plies: 0 })
        },
{
    if our_store > their_store {
        Valuation::TerminalWhiteWin { plies: 0 }
    } else if our_store < their_store {
        Valuation::TerminalBlackWin { plies: 0 }
    } else {
        Valuation::TerminalDraw { plies: 0 }
    }
}

/// The seeds in a row of houses.
fn houses_sum(houses: &[u16]) -> (r: i32)
    requires
        seq_sum(crate::board::counts(houses@)) <= u16::MAX,
    ensures
        r == seq_sum(crate::board::counts(houses@)),
{
    let ghost row = crate::board::counts(houses@);
    let mut acc: i32 = 0;
    let mut i: usize = 0;
    proof {
        lemma_sum_prefix(row, 0);
    }
    while i < houses.len()
        invariant
            i <= houses@.len(),
            row == crate::board::counts(houses@),
            seq_sum(row) <= u16::MAX,
            acc == seq_sum(row.subrange(0, i as int)),
        decreases houses@.len() - i,
    {
        proof {
            lemma_sum_prefix(row, i as int);
            lemma_sum_prefix(row, i + 1);
        }
        acc = acc + houses[i] as i32;
        i += 1;
    }
    proof {
        lemma_sum_prefix(row, row.len() as int);
    }
    acc
}

/// Values a position by the lead in captured seeds.
pub fn store_diff_valuation(board: &Board) -> (v: Valuation)
    requires
        board.wf(),
    ensures
        v@ == store_diff_score(board@),
        v.leaf_ok(),
{
    let our_store = board.our_store() as i32;
    let their_store = board.their_store() as i32;
    if !board.has_legal_move() {
        return final_valuation(our_store, their_store);
    }
    Valuation::NonTerminal { value: our_store - their_store }
}

/// Values a position by the lead in captured seeds, and as decided once
/// a store holds more than half of all seeds.
pub fn store_diff_valuation2(board: &Board) -> (v: Valuation)
    requires
        board.wf(),
        board.fits(),
    ensures
        v@ == store_diff_score2(board@),
        v.leaf_ok(),
{
    let our_store = board.our_store() as i32;
    let their_store = board.their_store() as i32;
    let our_houses_sum = houses_sum(board.our_houses());
    let their_houses_sum = houses_sum(board.their_houses());
    let half_total_seeds = (our_store + our_houses_sum + their_store + their_houses_sum) / 2;
    if !board.has_legal_move() || our_store > half_total_seeds || their_store
        > half_total_seeds {
        return final_valuation(our_store, their_store);
    }
    Valuation::NonTerminal { value: our_store - their_store }
}

/// Values a position by the lead in seeds, those in the houses included.
pub fn seed_diff_valuation(board: &Board) -> (v: Valuation)
    requires
        board.wf(),
        board.fits(),
    ensures
        v@ == seed_diff_score(board@),
        v.leaf_ok(),
{
    let our_store = board.our_store() as i32;
    let their_store = board.their_store() as i32;
    let our_houses_sum = houses_sum(board.our_houses());
    let their_houses_sum = houses_sum(board.their_houses());
    if !board.has_legal_move() {
        return final_valuation(our_store, their_store);
    }
    Valuation::NonTerminal {
        value: our_store + our_houses_sum - their_store - their_houses_sum,
    }
}

/// A heuristic that the search can be run with: a function from
/// positions to values.
pub trait Evaluator {
    /// The value that the heuristic gives to a position.
    spec fn score(&self, pos: Position) -> Score;

    /// Values the position on `board`.
    fn evaluate(&self, board: &Board) -> (v: Valuation)
        requires
            board.wf(),
            board.fits(),
        ensures
            v@ == self.score(board@),
            v.leaf_ok(),
    ;
}

/// The heuristic [`store_diff_valuation`].
#[derive(Debug, Clone, Copy)]
pub struct StoreDiff;

impl Evaluator for StoreDiff {
    open spec fn score(&self, pos: Position) -> Score {
        store_diff_score(pos)
    }

    fn evaluate(&self, board: &Board) -> (v: Valuation) {
        store_diff_valuation(board)
    }
}

/// The heuristic [`store_diff_valuation2`].
#[derive(Debug, Clone, Copy)]
pub struct StoreDiffMajority;

impl Evaluator for StoreDiffMajority {
    open spec fn score(&self, pos: Position) -> Score {
        store_diff_score2(pos)
    }

    fn evaluate(&self, board: &Board) -> (v: Valuation) {
        store_diff_valuation2(board)
    }
}

/// The heuristic [`seed_diff_valuation`].
#[derive(Debug, Clone, Copy)]
pub struct SeedDiff;

impl Evaluator for SeedDiff {
    open spec fn score(&self, pos: Position) -> Score {
        seed_diff_score(pos)
    }

    fn evaluate(&self, board: &Board) -> (v: Valuation) {
        seed_diff_valuation(board)
    }
}

} // verus!
