//! Depth-limited game-tree search: negamax with alpha-beta pruning.
//!
//! The board is always seen by the side to move.  A move that earns
//! another turn is followed at the same depth and from the same side; any
//! other move hands the flipped board to the opponent, one level deeper,
//! and the value that comes back is negated.

use vstd::prelude::*;
use crate::board::Board;
use crate::evaluation::Evaluator;
use crate::moves::{Move, Player};
use crate::rules::Position;
use crate::sowing::{lemma_flip, lemma_play_house};
use crate::state::{Handoff, MinimaxSearchState, Watch};
use crate::valuation::{Score, Valuation, LEAF_PLIES_MAX};

verus! {

/// What a search finds at a node: the value of the node and the move
/// that leads to it.  A leaf has no move.
pub struct Found {
    pub score: Score,
    pub best: Option<Move>,
}

/// The seeds that are not in the store of the side to move.  A move that
/// earns another turn makes them fewer.
pub open spec fn seeds_outside(pos: Position) -> int {
    pos.total() - pos.our_store
}

/// The value below which nothing lies: an immediate win of Black.
pub open spec fn lowest() -> Score {
    Score::BlackWin { plies: 0 }
}

/// The value above which nothing lies: an immediate win of White.
pub open spec fn highest() -> Score {
    Score::WhiteWin { plies: 0 }
}

/// The better of the best so far and a new move with its value.  Of
/// equal values the later move is kept.
pub open spec fn better(best: Found, k: int, value: Score) -> Found {
    if value.ge(best.score) {
        Found { score: value, best: Some(Move::make(k, Player::White)) }
    } else {
        best
    }
}

/// The lower bound of the window once `best` is known.
pub open spec fn raised(alpha: Score, best: Found) -> Score {
    if best.score.gt(alpha) {
        best.score
    } else {
        alpha
    }
}

/// The result of the alpha-beta search of `pos` to `depth` within the
/// window from `alpha` to `beta`.
///
/// A position at depth zero, or one in which the game is over, has the
/// value that the heuristic gives it.  Otherwise the houses of the side
/// to move are tried in their order.
pub open spec fn alpha_beta<E: Evaluator>(
    ev: &E,
    pos: Position,
    depth: nat,
    alpha: Score,
    beta: Score,
    prune: bool,
) -> Found
    decreases depth, seeds_outside(pos), pos.h() + 1,
    when pos.wf()
    via alpha_beta_decreases::<E>
{
    if depth == 0 || !pos.has_legal_move() {
        Found { score: ev.score(pos), best: None }
    } else {
        scan(ev, pos, depth, 0, alpha, beta, prune, Found { score: lowest(), best: None })
    }
}

/// The value of our house `k` as a move: the value of the position that
/// it leads to, seen by the side that made the move, one ply on.
pub open spec fn move_value(pos: Position, k: int, reply: Score) -> Score {
    if pos.extra_turn(k) {
        reply.advance()
    } else {
        reply.neg().advance()
    }
}

/// The search of the houses from `k` on, when `best` is the best found
/// among the houses before `k` and `alpha` the lower bound by now.
///
/// An empty house is passed over.  Any other house is played and the
/// position it leads to is searched.  A value that is not worse than the
/// best so far becomes the best; if pruning is on and the value reaches
/// `beta`, the remaining houses are not tried; a best value above
/// `alpha` becomes the new `alpha`.
pub open spec fn scan<E: Evaluator>(
    ev: &E,
    pos: Position,
    depth: nat,
    k: nat,
    alpha: Score,
    beta: Score,
    prune: bool,
    best: Found,
) -> Found
    decreases depth, seeds_outside(pos), pos.h() - k,
    when pos.wf() && depth > 0
    via scan_decreases::<E>
{
    if k >= pos.h() {
        best
    } else if pos.ours[k as int] == 0 {
        scan(ev, pos, depth, k + 1, alpha, beta, prune, best)
    } else {
        let next = pos.play_house(k as int);
        let reply = if pos.extra_turn(k as int) {
            alpha_beta(ev, next, depth, alpha, beta, prune).score
        } else {
            alpha_beta(ev, next.flip(), (depth - 1) as nat, beta.neg(), alpha.neg(), prune).score
        };
        let value = move_value(pos, k as int, reply);
        let best = better(best, k as int, value);
        if prune && value.ge(beta) {
            best
        } else {
            scan(ev, pos, depth, k + 1, raised(alpha, best), beta, prune, best)
        }
    }
}

#[via_fn]
proof fn alpha_beta_decreases<E: Evaluator>(
    ev: &E,
    pos: Position,
    depth: nat,
    alpha: Score,
    beta: Score,
    prune: bool,
) {
}

#[via_fn]
proof fn scan_decreases<E: Evaluator>(
    ev: &E,
    pos: Position,
    depth: nat,
    k: nat,
    alpha: Score,
    beta: Score,
    prune: bool,
    best: Found,
) {
    if k < pos.h() && pos.ours[k as int] > 0 {
        lemma_play_house(pos, k as int);
        lemma_flip(pos.play_house(k as int));
    }
}

/// The deepest search.  Every level of a search adds a ply to a proven
/// result, and beyond this depth the plies could leave their type.
pub const MAX_DEPTH: u32 = 65000;

/// A bound on the plies of the result of a search of `pos` to `depth`:
/// the plies of a leaf, and one for each level above it.  A level either
/// uses up one unit of depth or brings a seed into the store of the side
/// to move.
pub open spec fn plies_bound(depth: nat, pos: Position) -> int {
    LEAF_PLIES_MAX + depth * 65536 + (65535 - pos.our_store)
}

/// Searches the position on `board` to `remaining_depth` within the
/// window from `alpha` to `beta`, and returns the best move with its
/// value.  With `prune` off no house is left out.
///
/// The search gives up, and returns `None`, as soon as `watch` tells it
/// that it is no longer wanted; it asks at every node.
pub fn alpha_beta_search<E: Evaluator, W: Watch>(
    ev: &E,
    board: &Board,
    remaining_depth: u32,
    alpha: Valuation,
    beta: Valuation,
    prune: bool,
    watch: &W,
) -> (r: Option<(Option<Move>, Valuation)>)
    requires
        board.wf(),
        board.fits(),
        remaining_depth <= MAX_DEPTH,
        alpha.negatable(),
        beta.negatable(),
    ensures
        watch.never_stops() ==> r is Some,
        watch.has_stopped() ==> r is None,
        r matches Some((best_move, value)) ==> {
            let found = alpha_beta(ev, board@, remaining_depth as nat, alpha@, beta@, prune);
            &&& value@ == found.score
            &&& best_move == found.best
            &&& value.negatable()
            &&& value@.plies() <= plies_bound(remaining_depth as nat, board@)
            &&& remaining_depth > 0 && board@.has_legal_move() ==> best_move is Some
                && board@.is_legal(best_move.unwrap())
        },
    decreases remaining_depth, seeds_outside(board@),
{
    if !watch.still_wanted() {
        return None;
    }
    proof {
        board.lemma_wf();
    }
    if remaining_depth == 0 || !board.has_legal_move() {
        return Some((None, ev.evaluate(board)));
    }
    let ghost pos = board@;
    let ghost depth = remaining_depth as nat;
    let h = board.h();
    let mut best_move: Option<Move> = None;
    let mut best_value = Valuation::TerminalBlackWin { plies: 0 };
    let mut lower = alpha;
    let mut house: u8 = 0;
    let ghost mut tried = false;
    while house < h
        invariant
            house <= h,
            h == pos.h(),
            h == board.h_spec(),
            h <= 128,
            board.wf(),
            board.fits(),
            pos == board@,
            pos.wf(),
            depth == remaining_depth,
            0 < remaining_depth <= MAX_DEPTH,
            lower.negatable(),
            beta.negatable(),
            best_value.negatable(),
            best_value@.plies() <= plies_bound(depth, pos),
            scan(
                ev,
                pos,
                depth,
                house as nat,
                lower@,
                beta@,
                prune,
                Found { score: best_value@, best: best_move },
            ) == alpha_beta(ev, pos, depth, alpha@, beta@, prune),
            best_move matches Some(m) ==> pos.is_legal(m),
            tried ==> best_move is Some,
            !tried ==> best_value@ == lowest(),
            !tried ==> forall|j: int| 0 <= j < house ==> pos.ours[j] == 0,
        decreases h - house,
    {
        let m = Move::new(house, Player::White);
        if board.is_legal_move(m) {
            let mut next = board.clone();
            let again = next.apply_move(m);
            proof {
                lemma_play_house(pos, house as int);
                lemma_flip(next@);
            }
            let reply = if again {
                alpha_beta_search(ev, &next, remaining_depth, lower, beta, prune, watch)
            } else {
                next.flip_board();
                alpha_beta_search(
                    ev,
                    &next,
                    remaining_depth - 1,
                    beta.neg(),
                    lower.neg(),
                    prune,
                    watch,
                )
            };
            let value = match reply {
                None => {
                    return None;
                },
                Some((_, v)) => if again {
                    v.increase_plies()
                } else {
                    v.neg().increase_plies()
                },
            };
            let ghost before = Found { score: best_value@, best: best_move };
            if value.is_ge(&best_value) {
                best_move = Some(m);
                best_value = value;
            }
            proof {
                tried = true;
                assert(Found { score: best_value@, best: best_move } == better(
                    before,
                    house as int,
                    value@,
                ));
            }
            if prune && value.is_ge(&beta) {
                return Some((best_move, best_value));
            }
            if best_value.is_gt(&lower) {
                lower = best_value;
            }
        }
        house += 1;
    }
    proof {
        if !tried {
            let i = choose|i: int| 0 <= i < pos.ours.len() && #[trigger] pos.ours[i] > 0;
            assert(pos.ours[i] == 0);
        }
    }
    Some((best_move, best_value))
}

/// The result of the plain search of `pos` to `depth`: every house is
/// tried, and the best value is kept.
pub open spec fn minimax<E: Evaluator>(ev: &E, pos: Position, depth: nat) -> Found
    decreases depth, seeds_outside(pos), pos.h() + 1,
    when pos.wf()
    via minimax_decreases::<E>
{
    if depth == 0 || !pos.has_legal_move() {
        Found { score: ev.score(pos), best: None }
    } else {
        minimax_scan(ev, pos, depth, 0, Found { score: lowest(), best: None })
    }
}

/// The plain search of the houses from `k` on, when `best` is the best
/// found among the houses before `k`.
pub open spec fn minimax_scan<E: Evaluator>(
    ev: &E,
    pos: Position,
    depth: nat,
    k: nat,
    best: Found,
) -> Found
    decreases depth, seeds_outside(pos), pos.h() - k,
    when pos.wf() && depth > 0
    via minimax_scan_decreases::<E>
{
    if k >= pos.h() {
        best
    } else if pos.ours[k as int] == 0 {
        minimax_scan(ev, pos, depth, k + 1, best)
    } else {
        let next = pos.play_house(k as int);
        let reply = if pos.extra_turn(k as int) {
            minimax(ev, next, depth).score
        } else {
            minimax(ev, next.flip(), (depth - 1) as nat).score
        };
        minimax_scan(
            ev,
            pos,
            depth,
            k + 1,
            better(best, k as int, move_value(pos, k as int, reply)),
        )
    }
}

#[via_fn]
proof fn minimax_decreases<E: Evaluator>(ev: &E, pos: Position, depth: nat) {
}

#[via_fn]
proof fn minimax_scan_decreases<E: Evaluator>(
    ev: &E,
    pos: Position,
    depth: nat,
    k: nat,
    best: Found,
) {
    if k < pos.h() && pos.ours[k as int] > 0 {
        lemma_play_house(pos, k as int);
        lemma_flip(pos.play_house(k as int));
    }
}

/// With pruning off, the alpha-beta search finds the value and the move
/// of the plain search, whatever its window.
pub proof fn pruning_off_is_minimax<E: Evaluator>(
    ev: &E,
    pos: Position,
    depth: nat,
    alpha: Score,
    beta: Score,
)
    requires
        pos.wf(),
    ensures
        alpha_beta(ev, pos, depth, alpha, beta, false) == minimax(ev, pos, depth),
    decreases depth, seeds_outside(pos), pos.h() + 1,
{
    if depth == 0 || !pos.has_legal_move() {
    } else {
        pruning_off_scan(ev, pos, depth, 0, alpha, beta, Found { score: lowest(), best: None });
    }
}

/// With pruning off, the alpha-beta search of the houses from `k` on
/// finds what the plain search finds.
proof fn pruning_off_scan<E: Evaluator>(
    ev: &E,
    pos: Position,
    depth: nat,
    k: nat,
    alpha: Score,
    beta: Score,
    best: Found,
)
    requires
        pos.wf(),
        depth > 0,
    ensures
        scan(ev, pos, depth, k, alpha, beta, false, best) == minimax_scan(ev, pos, depth, k, best),
    decreases depth, seeds_outside(pos), pos.h() - k,
{
    if k >= pos.h() {
    } else if pos.ours[k as int] == 0 {
        pruning_off_scan(ev, pos, depth, k + 1, alpha, beta, best);
    } else {
        let next = pos.play_house(k as int);
        lemma_play_house(pos, k as int);
        lemma_flip(next);
        let reply = if pos.extra_turn(k as int) {
            pruning_off_is_minimax(ev, next, depth, alpha, beta);
            minimax(ev, next, depth).score
        } else {
            pruning_off_is_minimax(ev, next.flip(), (depth - 1) as nat, beta.neg(), alpha.neg());
            minimax(ev, next.flip(), (depth - 1) as nat).score
        };
        let found = better(best, k as int, move_value(pos, k as int, reply));
        pruning_off_scan(ev, pos, depth, k + 1, raised(alpha, found), beta, found);
    }
}

/// Searches the position on `board` to `remaining_depth` without any
/// pruning, and returns the best move with its value.
pub fn full_width_search<E: Evaluator>(ev: &E, board: &Board, remaining_depth: u32) -> (r: (
    Option<Move>,
    Valuation,
))
    requires
        board.wf(),
        board.fits(),
        remaining_depth <= MAX_DEPTH,
    ensures
        r.1@ == minimax(ev, board@, remaining_depth as nat).score,
        r.0 == minimax(ev, board@, remaining_depth as nat).best,
        r.1.negatable(),
        r.1@.plies() <= plies_bound(remaining_depth as nat, board@),
    decreases remaining_depth, seeds_outside(board@),
{
    proof {
        board.lemma_wf();
    }
    if remaining_depth == 0 || !board.has_legal_move() {
        return (None, ev.evaluate(board));
    }
    let ghost pos = board@;
    let ghost depth = remaining_depth as nat;
    let h = board.h();
    let mut best_move: Option<Move> = None;
    let mut best_value = Valuation::TerminalBlackWin { plies: 0 };
    let mut house: u8 = 0;
    while house < h
        invariant
            house <= h,
            h == pos.h(),
            h == board.h_spec(),
            h <= 128,
            board.wf(),
            board.fits(),
            pos == board@,
            pos.wf(),
            depth == remaining_depth,
            0 < remaining_depth <= MAX_DEPTH,
            best_value.negatable(),
            best_value@.plies() <= plies_bound(depth, pos),
            minimax_scan(
                ev,
                pos,
                depth,
                house as nat,
                Found { score: best_value@, best: best_move },
            ) == minimax(ev, pos, depth),
        decreases h - house,
    {
        let m = Move::new(house, Player::White);
        if board.is_legal_move(m) {
            let mut next = board.clone();
            let again = next.apply_move(m);
            proof {
                lemma_play_house(pos, house as int);
                lemma_flip(next@);
            }
            let value = if again {
                full_width_search(ev, &next, remaining_depth).1.increase_plies()
            } else {
                next.flip_board();
                full_width_search(ev, &next, remaining_depth - 1).1.neg().increase_plies()
            };
            let ghost before = Found { score: best_value@, best: best_move };
            if value.is_ge(&best_value) {
                best_move = Some(m);
                best_value = value;
            }
            proof {
                assert(Found { score: best_value@, best: best_move } == better(
                    before,
                    house as int,
                    value@,
                ));
            }
        }
        house += 1;
    }
    (best_move, best_value)
}

/// What the search from the root finds at `depth`, with pruning and the
/// widest window.
pub open spec fn root_found<E: Evaluator>(ev: &E, pos: Position, depth: nat) -> Found {
    alpha_beta(ev, pos, depth, lowest(), highest(), true)
}

/// The last depth that a deepening search has finished, with the move
/// and the value that it found there.
#[derive(Debug, Clone, Copy)]
pub struct Completed {
    pub depth: u32,
    pub best_move: Move,
    pub value: Valuation,
}

/// Searches the position on `board` deeper and deeper, from depth one
/// on, and publishes the best move of every depth that it finishes in
/// `search_state`.
///
/// The search ends when it finds in `search_state` that it is no longer
/// wanted, when a depth proves a win, or at [`MAX_DEPTH`]; in the last
/// two cases it marks `search_state` as inactive itself.  A proven loss
/// does not end it: a deeper search may find a longer defence, and the
/// opponent may yet go wrong.
///
/// Returns the last depth that was finished and published, or `None` if
/// the search was called off before it had finished the first.
///
/// With a cell that the search has to itself the outcome is known.  A
/// cell that is not active stays as it is, and nothing is returned.  In
/// an active cell the search ends with a proven win or at [`MAX_DEPTH`],
/// and leaves the cell inactive, with the move of the depth that it
/// returns.
pub fn start_search<E: Evaluator, C: Handoff>(
    ev: &E,
    board: &Board,
    search_state: &mut C,
) -> (done: Option<Completed>)
    requires
        board.wf(),
        board.fits(),
        board@.has_legal_move(),
    ensures
        done matches Some(c) ==> {
            &&& 1 <= c.depth <= MAX_DEPTH
            &&& c.value@ == root_found(ev, board@, c.depth as nat).score
            &&& Some(c.best_move) == root_found(ev, board@, c.depth as nat).best
            &&& board@.is_legal(c.best_move)
            &&& forall|d: nat|
                1 <= d < c.depth ==> !(#[trigger] root_found(ev, board@, d).score is WhiteWin)
        },
        match old(search_state).held() {
            None => final(search_state).held() is None,
            Some(before) => if before.search_active {
                &&& done is Some
                &&& done.unwrap().value@ is WhiteWin || done.unwrap().depth == MAX_DEPTH
                &&& final(search_state).held() == Some(
                    MinimaxSearchState {
                        search_active: false,
                        current_best_move: done.unwrap().best_move,
                        ..before
                    },
                )
            } else {
                &&& done is None
                &&& final(search_state).held() == Some(before)
            },
        },
{
    let alpha = Valuation::TerminalBlackWin { plies: 0 };
    let beta = Valuation::TerminalWhiteWin { plies: 0 };
    let mut done: Option<Completed> = None;
    let mut depth: u32 = 1;
    while depth <= MAX_DEPTH
        invariant
            1 <= depth <= MAX_DEPTH + 1,
            board.wf(),
            board.fits(),
            board@.has_legal_move(),
            alpha@ == lowest(),
            beta@ == highest(),
            alpha.negatable(),
            beta.negatable(),
            done is None ==> depth == 1,
            done matches Some(c) ==> {
                &&& c.depth == depth - 1
                &&& depth >= 2
                &&& c.value@ == root_found(ev, board@, c.depth as nat).score
                &&& Some(c.best_move) == root_found(ev, board@, c.depth as nat).best
                &&& board@.is_legal(c.best_move)
            },
            forall|d: nat| 1 <= d < depth ==> !(#[trigger] root_found(ev, board@, d).score is WhiteWin),
            match old(search_state).held() {
                None => search_state.held() is None,
                Some(before) => search_state.held() == Some(
                    match done {
                        Some(c) => MinimaxSearchState { current_best_move: c.best_move, ..before },
                        None => before,
                    },
                ) && (done is Some ==> before.search_active),
            },
        decreases MAX_DEPTH + 1 - depth,
    {
        proof {
            search_state.lemma_held();
        }
        let found = alpha_beta_search(ev, board, depth, alpha, beta, true, &*search_state);
        let (best_move, value) = match found {
            Some((Some(best_move), value)) => (best_move, value),
            _ => {
                return done;
            },
        };
        if !search_state.still_wanted() {
            return done;
        }
        search_state.publish_move(best_move);
        done = Some(Completed { depth, best_move, value });
        if let Valuation::TerminalWhiteWin { .. } = value {
            search_state.end_search();
            return done;
        }
        depth += 1;
    }
    search_state.end_search();
    done
}

/// Searches the position on `board` to `depth` once, publishes the best
/// move in `search_state` and marks the search there as ended.
///
/// Returns the move with its value, or `None`, with nothing published,
/// if the search was called off before it had finished.
///
/// With a cell that the search has to itself the outcome is known: a
/// cell that is not active stays as it is, and nothing is returned; an
/// active cell is left inactive, with the move that is returned.
pub fn search_to_depth<E: Evaluator, C: Handoff>(
    ev: &E,
    board: &Board,
    depth: u32,
    search_state: &mut C,
) -> (done: Option<Completed>)
    requires
        board.wf(),
        board.fits(),
        board@.has_legal_move(),
        1 <= depth <= MAX_DEPTH,
    ensures
        done matches Some(c) ==> {
            &&& c.depth == depth
            &&& c.value@ == root_found(ev, board@, depth as nat).score
            &&& Some(c.best_move) == root_found(ev, board@, depth as nat).best
            &&& board@.is_legal(c.best_move)
        },
        match old(search_state).held() {
            None => final(search_state).held() is None,
            Some(before) => if before.search_active {
                &&& done is Some
                &&& final(search_state).held() == Some(
                    MinimaxSearchState {
                        search_active: false,
                        current_best_move: done.unwrap().best_move,
                        ..before
                    },
                )
            } else {
                &&& done is None
                &&& final(search_state).held() == Some(before)
            },
        },
{
    let alpha = Valuation::TerminalBlackWin { plies: 0 };
    let beta = Valuation::TerminalWhiteWin { plies: 0 };
    proof {
        search_state.lemma_held();
    }
    match alpha_beta_search(ev, board, depth, alpha, beta, true, &*search_state) {
        Some((Some(best_move), value)) => {
            search_state.publish_move(best_move);
            search_state.end_search();
            Some(Completed { depth, best_move, value })
        },
        _ => None,
    }
}

} // verus!
