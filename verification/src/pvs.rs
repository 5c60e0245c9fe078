//! Principal-variation search: the alpha-beta search that also keeps the
//! line of play that it expects.

use vstd::prelude::*;
use crate::board::Board;
use crate::evaluation::Evaluator;
use crate::line::{Line, LINE_MAX_SIZE};
use crate::moves::{Move, Player};
use crate::rules::Position;
use crate::search::{
    alpha_beta, better, highest, lowest, move_value, plies_bound, scan, seeds_outside, Found,
    MAX_DEPTH,
};
use crate::sowing::{lemma_flip, lemma_play, lemma_play_house};
use crate::state::{Handoff, MinimaxSearchState, Watch};
use crate::valuation::{Score, Valuation};

verus! {

/// What the search finds at a node: the value of the node and the line
/// of play that leads to it.
pub struct Variation {
    pub score: Score,
    pub line: Seq<Move>,
}

/// The line that begins with `head` and goes on with `tail`, cut down to
/// the length that a [`Line`] can hold.
pub open spec fn prefixed(head: Move, tail: Seq<Move>) -> Seq<Move> {
    if tail.len() < LINE_MAX_SIZE {
        seq![head] + tail
    } else {
        seq![head] + tail.take(LINE_MAX_SIZE - 1)
    }
}

/// The result of the principal-variation search of `pos` to `depth`
/// within the window from `alpha` to `beta`.  A leaf has the empty line.
pub open spec fn pvs<E: Evaluator>(
    ev: &E,
    pos: Position,
    depth: nat,
    alpha: Score,
    beta: Score,
) -> Variation
    decreases depth, seeds_outside(pos), pos.h() + 1,
    when pos.wf()
    via pvs_decreases::<E>
{
    if depth == 0 || !pos.has_legal_move() {
        Variation { score: ev.score(pos), line: Seq::empty() }
    } else {
        pvs_scan(ev, pos, depth, 0, alpha, beta, Variation { score: lowest(), line: Seq::empty() })
    }
}

/// The search of the houses from `k` on, when `best` holds the best value
/// and the line found among the houses before `k`, and `alpha` is the
/// lower bound by now.
///
/// The values are those of the alpha-beta search with pruning.  Where a
/// move raises `alpha`, the line becomes that move followed by the line
/// of the position that the move leads to.
pub open spec fn pvs_scan<E: Evaluator>(
    ev: &E,
    pos: Position,
    depth: nat,
    k: nat,
    alpha: Score,
    beta: Score,
    best: Variation,
) -> Variation
    decreases depth, seeds_outside(pos), pos.h() - k,
    when pos.wf() && depth > 0
    via pvs_scan_decreases::<E>
{
    if k >= pos.h() {
        best
    } else if pos.ours[k as int] == 0 {
        pvs_scan(ev, pos, depth, k + 1, alpha, beta, best)
    } else {
        let next = pos.play_house(k as int);
        let reply = if pos.extra_turn(k as int) {
            pvs(ev, next, depth, alpha, beta)
        } else {
            pvs(ev, next.flip(), (depth - 1) as nat, beta.neg(), alpha.neg())
        };
        let value = move_value(pos, k as int, reply.score);
        let score = if value.ge(best.score) {
            value
        } else {
            best.score
        };
        if value.ge(beta) {
            Variation { score, line: best.line }
        } else if score.gt(alpha) {
            pvs_scan(
                ev,
                pos,
                depth,
                k + 1,
                score,
                beta,
                Variation {
                    score,
                    line: prefixed(Move::make(k as int, Player::White), reply.line),
                },
            )
        } else {
            pvs_scan(ev, pos, depth, k + 1, alpha, beta, Variation { score, line: best.line })
        }
    }
}

#[via_fn]
proof fn pvs_decreases<E: Evaluator>(ev: &E, pos: Position, depth: nat, alpha: Score, beta: Score) {
}

#[via_fn]
proof fn pvs_scan_decreases<E: Evaluator>(
    ev: &E,
    pos: Position,
    depth: nat,
    k: nat,
    alpha: Score,
    beta: Score,
    best: Variation,
) {
    if k < pos.h() && pos.ours[k as int] > 0 {
        lemma_play_house(pos, k as int);
        lemma_flip(pos.play_house(k as int));
    }
}

/// The principal-variation search finds the value that the alpha-beta
/// search with pruning finds.
pub proof fn pvs_value_is_alpha_beta<E: Evaluator>(
    ev: &E,
    pos: Position,
    depth: nat,
    alpha: Score,
    beta: Score,
)
    requires
        pos.wf(),
    ensures
        pvs(ev, pos, depth, alpha, beta).score == alpha_beta(ev, pos, depth, alpha, beta, true).score,
    decreases depth, seeds_outside(pos), pos.h() + 1,
{
    if depth == 0 || !pos.has_legal_move() {
    } else {
        pvs_scan_value(
            ev,
            pos,
            depth,
            0,
            alpha,
            beta,
            Variation { score: lowest(), line: Seq::empty() },
            Found { score: lowest(), best: None },
        );
    }
}

/// From house `k` on, the two searches find the same value if they have
/// found the same value before.
proof fn pvs_scan_value<E: Evaluator>(
    ev: &E,
    pos: Position,
    depth: nat,
    k: nat,
    alpha: Score,
    beta: Score,
    best: Variation,
    found: Found,
)
    requires
        pos.wf(),
        depth > 0,
        best.score == found.score,
    ensures
        pvs_scan(ev, pos, depth, k, alpha, beta, best).score == scan(
            ev,
            pos,
            depth,
            k,
            alpha,
            beta,
            true,
            found,
        ).score,
    decreases depth, seeds_outside(pos), pos.h() - k,
{
    if k >= pos.h() {
    } else if pos.ours[k as int] == 0 {
        pvs_scan_value(ev, pos, depth, k + 1, alpha, beta, best, found);
    } else {
        let next = pos.play_house(k as int);
        lemma_play_house(pos, k as int);
        lemma_flip(next);
        let reply = if pos.extra_turn(k as int) {
            pvs_value_is_alpha_beta(ev, next, depth, alpha, beta);
            pvs(ev, next, depth, alpha, beta)
        } else {
            pvs_value_is_alpha_beta(ev, next.flip(), (depth - 1) as nat, beta.neg(), alpha.neg());
            pvs(ev, next.flip(), (depth - 1) as nat, beta.neg(), alpha.neg())
        };
        let value = move_value(pos, k as int, reply.score);
        let found2 = better(found, k as int, value);
        let score = found2.score;
        if value.ge(beta) {
        } else if score.gt(alpha) {
            pvs_scan_value(
                ev,
                pos,
                depth,
                k + 1,
                score,
                beta,
                Variation {
                    score,
                    line: prefixed(Move::make(k as int, Player::White), reply.line),
                },
                found2,
            );
        } else {
            pvs_scan_value(
                ev,
                pos,
                depth,
                k + 1,
                alpha,
                beta,
                Variation { score, line: best.line },
                found2,
            );
        }
    }
}

/// The position after the move `m`, seen by the side that moves next.
pub open spec fn position_after(pos: Position, m: Move) -> Position {
    if pos.moves_again(m) {
        pos.play(m)
    } else {
        pos.play(m).flip()
    }
}

/// Whether `line` can be played from `pos`: each of its moves is a legal
/// move of the side that is to move when its turn comes.
pub open spec fn playable(pos: Position, line: Seq<Move>) -> bool
    decreases line.len(),
{
    line.len() == 0 || {
        &&& line[0].player_spec() == Player::White
        &&& pos.is_legal(line[0])
        &&& playable(position_after(pos, line[0]), line.drop_first())
    }
}

/// The first moves of a line that can be played can be played.
proof fn lemma_playable_prefix(pos: Position, line: Seq<Move>, n: int)
    requires
        playable(pos, line),
        0 <= n <= line.len(),
    ensures
        playable(pos, line.take(n)),
    decreases line.len(),
{
    if n > 0 {
        lemma_playable_prefix(position_after(pos, line[0]), line.drop_first(), n - 1);
        assert(line.take(n).drop_first() =~= line.drop_first().take(n - 1));
    }
}

/// A legal move before a line that can be played after it.
proof fn lemma_playable_prefixed(pos: Position, k: int, tail: Seq<Move>)
    requires
        pos.wf(),
        pos.h() <= 128,
        0 <= k < pos.h(),
        pos.ours[k] > 0,
        playable(position_after(pos, Move::make(k, Player::White)), tail),
    ensures
        playable(pos, prefixed(Move::make(k, Player::White), tail)),
{
    let m = Move::make(k, Player::White);
    Move::lemma_make(k, Player::White);
    if tail.len() < LINE_MAX_SIZE {
        assert((seq![m] + tail).drop_first() =~= tail);
    } else {
        lemma_playable_prefix(position_after(pos, m), tail, LINE_MAX_SIZE - 1);
        assert((seq![m] + tail.take(LINE_MAX_SIZE - 1)).drop_first() =~= tail.take(
            LINE_MAX_SIZE - 1,
        ));
    }
}

/// The line of play that the search expects can be played: each of its
/// moves is legal when its turn comes.
pub proof fn pvs_line_is_playable<E: Evaluator>(
    ev: &E,
    pos: Position,
    depth: nat,
    alpha: Score,
    beta: Score,
)
    requires
        pos.wf(),
        pos.h() <= 128,
    ensures
        playable(pos, pvs(ev, pos, depth, alpha, beta).line),
    decreases depth, seeds_outside(pos), pos.h() + 1,
{
    if depth == 0 || !pos.has_legal_move() {
    } else {
        pvs_scan_line(
            ev,
            pos,
            depth,
            0,
            alpha,
            beta,
            Variation { score: lowest(), line: Seq::empty() },
        );
    }
}

/// From house `k` on, the search keeps a line that can be played.
proof fn pvs_scan_line<E: Evaluator>(
    ev: &E,
    pos: Position,
    depth: nat,
    k: nat,
    alpha: Score,
    beta: Score,
    best: Variation,
)
    requires
        pos.wf(),
        pos.h() <= 128,
        depth > 0,
        playable(pos, best.line),
    ensures
        playable(pos, pvs_scan(ev, pos, depth, k, alpha, beta, best).line),
    decreases depth, seeds_outside(pos), pos.h() - k,
{
    if k >= pos.h() {
    } else if pos.ours[k as int] == 0 {
        pvs_scan_line(ev, pos, depth, k + 1, alpha, beta, best);
    } else {
        let m = Move::make(k as int, Player::White);
        Move::lemma_make(k as int, Player::White);
        let next = pos.play_house(k as int);
        lemma_play_house(pos, k as int);
        lemma_flip(next);
        let reply = if pos.extra_turn(k as int) {
            pvs_line_is_playable(ev, next, depth, alpha, beta);
            pvs(ev, next, depth, alpha, beta)
        } else {
            pvs_line_is_playable(ev, next.flip(), (depth - 1) as nat, beta.neg(), alpha.neg());
            pvs(ev, next.flip(), (depth - 1) as nat, beta.neg(), alpha.neg())
        };
        let value = move_value(pos, k as int, reply.score);
        let score = if value.ge(best.score) {
            value
        } else {
            best.score
        };
        if value.ge(beta) {
        } else if score.gt(alpha) {
            lemma_playable_prefixed(pos, k as int, reply.line);
            pvs_scan_line(
                ev,
                pos,
                depth,
                k + 1,
                score,
                beta,
                Variation { score, line: prefixed(m, reply.line) },
            );
        } else {
            pvs_scan_line(
                ev,
                pos,
                depth,
                k + 1,
                alpha,
                beta,
                Variation { score, line: best.line },
            );
        }
    }
}

/// Searches the position on `board` to `remaining_depth` within the
/// window from `alpha` to `beta`.  Returns the value of the position and
/// leaves the line of play that leads to it in `principal_line`.
///
/// The search gives up, and returns `None`, as soon as `watch` tells it
/// that it is no longer wanted; it asks at every node.
pub fn pvs_search<E: Evaluator, W: Watch>(
    ev: &E,
    board: &Board,
    remaining_depth: u32,
    alpha: Valuation,
    beta: Valuation,
    principal_line: &mut Line,
    watch: &W,
) -> (r: Option<Valuation>)
    requires
        board.wf(),
        board.fits(),
        remaining_depth <= MAX_DEPTH,
        alpha.negatable(),
        beta.negatable(),
    ensures
        final(principal_line).wf(),
        watch.never_stops() ==> r is Some,
        watch.has_stopped() ==> r is None,
        r matches Some(value) ==> {
            let found = pvs(ev, board@, remaining_depth as nat, alpha@, beta@);
            &&& value@ == found.score
            &&& final(principal_line)@ == found.line
            &&& value.negatable()
            &&& value@.plies() <= plies_bound(remaining_depth as nat, board@)
            &&& remaining_depth > 0 && board@.has_legal_move() && alpha@ == lowest() && beta@
                == highest() ==> found.line.len() > 0 && board@.is_legal(found.line[0])
                && found.line[0].player_spec() == Player::White
        },
    decreases remaining_depth, seeds_outside(board@),
{
    principal_line.reset();
    if !watch.still_wanted() {
        return None;
    }
    proof {
        board.lemma_wf();
    }
    if remaining_depth == 0 || !board.has_legal_move() {
        return Some(ev.evaluate(board));
    }
    let ghost pos = board@;
    let ghost depth = remaining_depth as nat;
    let h = board.h();
    let mut best_value = Valuation::TerminalBlackWin { plies: 0 };
    let mut lower = alpha;
    let mut house: u8 = 0;
    let ghost mut tried = false;
    let ghost root = alpha@ == lowest() && beta@ == highest();
    while house < h
        invariant
            house <= h,
            h == pos.h(),
            h == board.h_spec(),
            h <= 128,
            board.wf(),
            board.fits(),
            pos == board@,
            pos.wf(),
            depth == remaining_depth,
            0 < remaining_depth <= MAX_DEPTH,
            lower.negatable(),
            beta.negatable(),
            best_value.negatable(),
            best_value@.plies() <= plies_bound(depth, pos),
            principal_line.wf(),
            root == (alpha@ == lowest() && beta@ == highest()),
            !tried ==> lower@ == alpha@ && forall|j: int| 0 <= j < house ==> pos.ours[j] == 0,
            root && tried ==> principal_line@.len() > 0 && pos.is_legal(principal_line@[0])
                && principal_line@[0].player_spec() == Player::White,
            pvs_scan(
                ev,
                pos,
                depth,
                house as nat,
                lower@,
                beta@,
                Variation { score: best_value@, line: principal_line@ },
            ) == pvs(ev, pos, depth, alpha@, beta@),
        decreases h - house,
    {
        let m = Move::new(house, Player::White);
        if board.is_legal_move(m) {
            let mut next = board.clone();
            let again = next.apply_move(m);
            proof {
                lemma_play_house(pos, house as int);
                lemma_flip(next@);
            }
            let mut search_line = Line::new();
            let reply = if again {
                pvs_search(ev, &next, remaining_depth, lower, beta, &mut search_line, watch)
            } else {
                next.flip_board();
                pvs_search(
                    ev,
                    &next,
                    remaining_depth - 1,
                    beta.neg(),
                    lower.neg(),
                    &mut search_line,
                    watch,
                )
            };
            let value = match reply {
                None => {
                    return None;
                },
                Some(v) => if again {
                    v.increase_plies()
                } else {
                    v.neg().increase_plies()
                },
            };
            if value.is_ge(&best_value) {
                best_value = value;
            }
            if value.is_ge(&beta) {
                return Some(best_value);
            }
            if best_value.is_gt(&lower) {
                lower = best_value;
                proof {
                    search_line.lemma_len();
                }
                search_line.truncate(LINE_MAX_SIZE - 1);
                principal_line.overwrite(m, &search_line);
            }
            proof {
                tried = true;
            }
        }
        house += 1;
    }
    proof {
        if !tried {
            let i = choose|i: int| 0 <= i < pos.ours.len() && #[trigger] pos.ours[i] > 0;
            assert(pos.ours[i] == 0);
        }
    }
    Some(best_value)
}

/// The position that is reached from `pos` along `line`, each side seeing
/// the board from its own side when it is to move.  The walk ends at the
/// first move of the line that is not legal.
pub open spec fn walk(pos: Position, line: Seq<Move>) -> Position
    decreases line.len(),
{
    if line.len() == 0 || !pos.is_legal(line[0]) {
        pos
    } else if pos.moves_again(line[0]) {
        walk(pos.play(line[0]), line.drop_first())
    } else {
        walk(pos.play(line[0]).flip(), line.drop_first())
    }
}

/// The line `line` followed by `more`, cut down to the length that a
/// [`Line`] can hold.
pub open spec fn extended(line: Seq<Move>, more: Seq<Move>) -> Seq<Move> {
    if line.len() + more.len() <= LINE_MAX_SIZE {
        line + more
    } else {
        line + more.take(LINE_MAX_SIZE - line.len())
    }
}

/// Plays the moves of `line` on `board` while they are legal, a move of
/// the side to move each, and flips the board wherever the turn passes.
fn walk_line(board: &Board, line: &Line) -> (end: Board)
    requires
        board.wf(),
        board.fits(),
        line.wf(),
    ensures
        end.wf(),
        end.fits(),
        end@ == walk(board@, line@),
{
    let mut end = board.clone();
    let n = line.len();
    let mut i: usize = 0;
    proof {
        assert(line@.subrange(0, n as int) =~= line@);
    }
    while i < n
        invariant
            i <= n,
            n == line@.len(),
            line.wf(),
            end.wf(),
            end.fits(),
            walk(end@, line@.subrange(i as int, n as int)) == walk(board@, line@),
        decreases n - i,
    {
        let m = line.get(i);
        proof {
            end.lemma_wf();
            assert(line@.subrange(i as int, n as int).drop_first() =~= line@.subrange(
                i + 1,
                n as int,
            ));
            assert(line@.subrange(i as int, n as int)[0] == m);
        }
        if m.house() >= end.h() || !end.is_legal_move(m) {
            return end;
        }
        proof {
            lemma_play(end@, m);
            lemma_flip(end@.play(m));
        }
        if !end.apply_move(m) {
            end.flip_board();
        }
        i += 1;
    }
    proof {
        assert(line@.subrange(n as int, n as int) =~= Seq::<Move>::empty());
    }
    end
}

/// Extends the line `pv` by one ply: the position at the end of the line
/// is searched to depth one, and the move that the search expects there
/// is appended to the line.  Returns the value of that position.
///
/// Returns `None`, and leaves the line as it was, if the search was
/// called off.
pub fn extend_pv<E: Evaluator, W: Watch>(
    ev: &E,
    board: &Board,
    pv: &mut Line,
    watch: &W,
) -> (r: Option<Valuation>)
    requires
        board.wf(),
        board.fits(),
        old(pv).wf(),
    ensures
        final(pv).wf(),
        watch.never_stops() ==> r is Some,
        watch.has_stopped() ==> r is None,
        r is None ==> final(pv)@ == old(pv)@,
        r matches Some(value) ==> {
            let look = pvs(ev, walk(board@, old(pv)@), 1, lowest(), highest());
            &&& value@ == look.score
            &&& final(pv)@ == extended(old(pv)@, look.line)
        },
{
    let end = walk_line(board, pv);
    let alpha = Valuation::TerminalBlackWin { plies: 0 };
    let beta = Valuation::TerminalWhiteWin { plies: 0 };
    let mut extend_line = Line::new();
    let value = pvs_search(ev, &end, 1, alpha, beta, &mut extend_line, watch);
    if value.is_some() {
        proof {
            pv.lemma_len();
            extend_line.lemma_len();
        }
        extend_line.truncate(LINE_MAX_SIZE - pv.len());
        pv.append(&extend_line);
    }
    value
}

/// The last depth that a deepening search has finished, with the value
/// and the line of play that it found there.
#[derive(Clone, Copy)]
pub struct CompletedLine {
    pub depth: u32,
    pub value: Valuation,
    pub line: Line,
}

/// Searches the position on `board` deeper and deeper, from depth one
/// on, keeping one line of play: before each depth the line of the depth
/// before is extended by one ply, and after each depth that it finishes
/// the search publishes the new line, and its first move as the best
/// move, in `search_state`.
///
/// The search ends when it finds in `search_state` that it is no longer
/// wanted, when a depth proves a win, or at the depth that is the
/// greatest length of a line; in the last two cases it marks
/// `search_state` as inactive itself.  A proven loss does not end it.
///
/// Returns the last depth that was finished and published, or `None` if
/// the search was called off before it had finished the first.
///
/// With a cell that the search has to itself the outcome is known.  A
/// cell that is not active stays as it is, and nothing is returned.  In
/// an active cell the search ends with a proven win or at its greatest
/// depth, and leaves the cell inactive, with the line of the depth that
/// it returns and the first move of that line.
pub fn start_pvs_search<E: Evaluator, C: Handoff>(
    ev: &E,
    board: &Board,
    search_state: &mut C,
) -> (done: Option<CompletedLine>)
    requires
        board.wf(),
        board.fits(),
        board@.has_legal_move(),
    ensures
        done matches Some(c) ==> {
            let found = pvs(ev, board@, c.depth as nat, lowest(), highest());
            &&& 1 <= c.depth <= LINE_MAX_SIZE
            &&& c.value@ == found.score
            &&& c.line.wf()
            &&& c.line@ == found.line
            &&& c.line@.len() > 0
            &&& board@.is_legal(c.line@[0])
            &&& forall|d: nat|
                1 <= d < c.depth ==> !(#[trigger] pvs(ev, board@, d, lowest(), highest()).score
                    is WhiteWin)
        },
        match old(search_state).held() {
            None => final(search_state).held() is None,
            Some(before) => if before.search_active {
                &&& done is Some
                &&& done.unwrap().value@ is WhiteWin || done.unwrap().depth == LINE_MAX_SIZE
                &&& final(search_state).held() == Some(
                    MinimaxSearchState {
                        search_active: false,
                        current_best_move: done.unwrap().line@[0],
                        principal_variation: done.unwrap().line,
                    },
                )
            } else {
                &&& done is None
                &&& final(search_state).held() == Some(before)
            },
        },
{
    let alpha = Valuation::TerminalBlackWin { plies: 0 };
    let beta = Valuation::TerminalWhiteWin { plies: 0 };
    let mut done: Option<CompletedLine> = None;
    let mut pv = Line::new();
    let mut depth: u32 = 1;
    while depth <= LINE_MAX_SIZE as u32
        invariant
            1 <= depth <= LINE_MAX_SIZE + 1,
            board.wf(),
            board.fits(),
            board@.has_legal_move(),
            alpha@ == lowest(),
            beta@ == highest(),
            alpha.negatable(),
            beta.negatable(),
            pv.wf(),
            done is None ==> depth == 1,
            done matches Some(c) ==> {
                let found = pvs(ev, board@, c.depth as nat, lowest(), highest());
                &&& c.depth == depth - 1
                &&& depth >= 2
                &&& c.value@ == found.score
                &&& c.line.wf()
                &&& c.line@ == found.line
                &&& c.line@.len() > 0
                &&& board@.is_legal(c.line@[0])
            },
            forall|d: nat|
                1 <= d < depth ==> !(#[trigger] pvs(ev, board@, d, lowest(), highest()).score
                    is WhiteWin),
            match old(search_state).held() {
                None => search_state.held() is None,
                Some(before) => search_state.held() == Some(
                    match done {
                        Some(c) => MinimaxSearchState {
                            search_active: before.search_active,
                            current_best_move: c.line@[0],
                            principal_variation: c.line,
                        },
                        None => before,
                    },
                ) && (done is Some ==> before.search_active),
            },
        decreases LINE_MAX_SIZE + 1 - depth,
    {
        proof {
            search_state.lemma_held();
        }
        if extend_pv(ev, board, &mut pv, &*search_state).is_none() {
            return done;
        }
        let value = match pvs_search(ev, board, depth, alpha, beta, &mut pv, &*search_state) {
            None => {
                return done;
            },
            Some(value) => value,
        };
        if !search_state.still_wanted() {
            return done;
        }
        search_state.publish_line(pv);
        search_state.publish_move(pv.get(0));
        done = Some(CompletedLine { depth, value, line: pv });
        if let Valuation::TerminalWhiteWin { .. } = value {
            search_state.end_search();
            return done;
        }
        depth += 1;
    }
    search_state.end_search();
    done
}

} // verus!
