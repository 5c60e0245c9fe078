//! Facts about sums of seeds and about sowing, on which the proofs of the
//! board operations rest.

use vstd::prelude::*;
use crate::moves::{Move, Player};
use crate::rules::{seq_sum, sow_ring, zeros, Position};

verus! {

/// Replacing one pit changes the sum by the difference.
pub proof fn lemma_sum_update(s: Seq<nat>, i: int, v: nat)
    requires
        0 <= i < s.len(),
    ensures
        seq_sum(s.update(i, v)) + s[i] == seq_sum(s) + v,
    decreases s.len(),
{
    let u = s.update(i, v);
    if i == s.len() - 1 {
        assert(u.drop_last() =~= s.drop_last());
    } else {
        assert(u.drop_last() =~= s.drop_last().update(i, v));
        lemma_sum_update(s.drop_last(), i, v);
    }
}

/// The sum of two rows of pits laid end to end.
pub proof fn lemma_sum_concat(a: Seq<nat>, b: Seq<nat>)
    ensures
        seq_sum(a + b) == seq_sum(a) + seq_sum(b),
    decreases b.len(),
{
    if b.len() == 0 {
        assert(a + b =~= a);
    } else {
        assert((a + b).drop_last() =~= a + b.drop_last());
        lemma_sum_concat(a, b.drop_last());
    }
}

/// No pit holds more than all pits together.
pub proof fn lemma_sum_bound(s: Seq<nat>, i: int)
    requires
        0 <= i < s.len(),
    ensures
        s[i] <= seq_sum(s),
    decreases s.len(),
{
    if i < s.len() - 1 {
        lemma_sum_bound(s.drop_last(), i);
    }
}

/// Empty pits sum to nothing.
pub proof fn lemma_sum_zeros(n: nat)
    ensures
        seq_sum(zeros(n)) == 0,
    decreases n,
{
    if n > 0 {
        assert(zeros(n).drop_last() =~= zeros((n - 1) as nat));
        lemma_sum_zeros((n - 1) as nat);
    }
}

/// The first pits of a row hold no more than the whole row.
pub proof fn lemma_sum_prefix(s: Seq<nat>, i: int)
    requires
        0 <= i <= s.len(),
    ensures
        seq_sum(s.subrange(0, i)) <= seq_sum(s),
        i < s.len() ==> seq_sum(s.subrange(0, i + 1)) == seq_sum(s.subrange(0, i)) + s[i],
        seq_sum(s.subrange(0, s.len() as int)) == seq_sum(s),
        seq_sum(s.subrange(0, 0)) == 0,
{
    assert(s =~= s.subrange(0, i) + s.subrange(i, s.len() as int));
    lemma_sum_concat(s.subrange(0, i), s.subrange(i, s.len() as int));
    if i < s.len() {
        assert(s.subrange(0, i + 1).drop_last() =~= s.subrange(0, i));
    }
    assert(s.subrange(0, s.len() as int) =~= s);
}

/// The sum of a single pit.
pub proof fn lemma_sum_one(v: nat)
    ensures
        seq_sum(seq![v]) == v,
{
    assert(seq![v].drop_last() =~= Seq::<nat>::empty());
    assert(seq_sum(Seq::<nat>::empty()) == 0);
}

/// How many of `seeds` seeds, sown round a ring of `c` pits from pit
/// `pos` on, fall into pit `p`: one for every full round, and one more
/// if the last, partial round reaches the pit.
pub open spec fn seeds_received(c: int, pos: int, seeds: nat, p: int) -> nat {
    (seeds as int / c + if (p - pos) % c < seeds as int % c { 1int } else { 0int }) as nat
}

proof fn lemma_div_mod_step(n: int, c: int)
    requires
        n > 0,
        c > 0,
    ensures
        n % c != 0 ==> (n - 1) % c == n % c - 1 && (n - 1) / c == n / c,
        n % c == 0 ==> (n - 1) % c == c - 1 && (n - 1) / c == n / c - 1,
        0 <= n % c < c,
        n / c >= 0,
{
    vstd::arithmetic::div_mod::lemma_fundamental_div_mod(n, c);
    vstd::arithmetic::div_mod::lemma_fundamental_div_mod(n - 1, c);
    vstd::arithmetic::div_mod::lemma_mod_bound(n, c);
    vstd::arithmetic::div_mod::lemma_mod_bound(n - 1, c);
    let q = n / c;
    let r = n % c;
    let q1 = (n - 1) / c;
    let r1 = (n - 1) % c;
    assert(n == c * q + r);
    assert(n - 1 == c * q1 + r1);
    assert(c * (q - q1) == r1 - r + 1) by (nonlinear_arith)
        requires
            n == c * q + r,
            n - 1 == c * q1 + r1,
    ;
    if q - q1 >= 2 {
        assert(c * (q - q1) >= 2 * c) by (nonlinear_arith)
            requires
                q - q1 >= 2,
                c > 0,
        ;
    }
    if q - q1 <= -1 {
        assert(c * (q - q1) <= -c) by (nonlinear_arith)
            requires
                q - q1 <= -1,
                c > 0,
        ;
    }
    if q - q1 == 1 {
        assert(c * (q - q1) == c) by (nonlinear_arith)
            requires
                q - q1 == 1,
        ;
    }
    if q - q1 == 0 {
        assert(c * (q - q1) == 0) by (nonlinear_arith)
            requires
                q - q1 == 0,
        ;
    }
    if n / c < 0 {
        assert(c * q <= -c) by (nonlinear_arith)
            requires
                q <= -1,
                c > 0,
        ;
    }
}

/// The remainder of a number that lies within one ring length of the
/// range of remainders.
pub proof fn lemma_mod_near(x: int, c: int)
    requires
        c > 0,
        -c <= x < 2 * c,
    ensures
        0 <= x < c ==> x % c == x,
        x < 0 ==> x % c == x + c,
        x >= c ==> x % c == x - c,
{
    vstd::arithmetic::div_mod::lemma_small_mod(
        (if x < 0 { x + c } else if x >= c { x - c } else { x }) as nat,
        c as nat,
    );
    if x < 0 {
        vstd::arithmetic::div_mod::lemma_mod_add_multiples_vanish(x, c);
    } else if x >= c {
        vstd::arithmetic::div_mod::lemma_mod_sub_multiples_vanish(x, c);
    }
}

/// Sowing seed by seed gives every pit what the closed form says, keeps
/// the number of pits, and adds exactly the seeds sown.
pub proof fn lemma_sow_ring(ring: Seq<nat>, pos: int, seeds: nat)
    requires
        0 <= pos < ring.len(),
    ensures
        sow_ring(ring, pos, seeds).len() == ring.len(),
        forall|p: int|
            0 <= p < ring.len() ==> #[trigger] sow_ring(ring, pos, seeds)[p] == ring[p]
                + seeds_received(ring.len() as int, pos, seeds, p),
        seq_sum(sow_ring(ring, pos, seeds)) == seq_sum(ring) + seeds,
    decreases seeds,
{
    let c = ring.len() as int;
    if seeds == 0 {
        assert forall|p: int| 0 <= p < c implies seeds_received(c, pos, seeds, p) == 0 by {
            lemma_mod_near(p - pos, c);
            vstd::arithmetic::div_mod::lemma_small_mod(0, c as nat);
            vstd::arithmetic::div_mod::lemma_basic_div(0, c);
        }
    } else {
        let next = ring.update(pos, ring[pos] + 1);
        let npos = (pos + 1) % c;
        let rest = (seeds - 1) as nat;
        lemma_mod_near(pos + 1, c);
        lemma_sow_ring(next, npos, rest);
        lemma_sum_update(ring, pos, ring[pos] + 1);
        lemma_div_mod_step(seeds as int, c);
        let out = sow_ring(ring, pos, seeds);
        assert(out == sow_ring(next, npos, rest));
        assert forall|p: int| 0 <= p < c implies #[trigger] out[p] == ring[p] + seeds_received(
            c,
            pos,
            seeds,
            p,
        ) by {
            lemma_mod_near(p - pos, c);
            lemma_mod_near(p - npos, c);
            assert(out[p] == next[p] + seeds_received(c, npos, rest, p));
        }
    }
}

/// How many seeds a move from our house `k` drops into ring position `p`.
pub open spec fn received(pos: Position, k: int, p: int) -> nat {
    seeds_received(pos.ring_len(), (k + 1) % pos.ring_len(), pos.ours[k], p)
}

/// A ring falls apart again into the houses and the store it was made of.
pub proof fn lemma_ring_parts(pos: Position)
    requires
        pos.wf(),
    ensures
        pos.ring().len() == 2 * pos.h() + 1,
        pos.with_ring(pos.ring()) == pos,
        seq_sum(pos.ring()) == seq_sum(pos.ours) + pos.our_store + seq_sum(pos.theirs),
        forall|p: int| 0 <= p < pos.h() ==> #[trigger] pos.ring()[p] == pos.ours[p],
        pos.ring()[pos.h() as int] == pos.our_store,
        forall|j: int| 0 <= j < pos.h() ==> pos.ring()[pos.h() + 1 + j] == #[trigger] pos.theirs[j],
{
    let h = pos.h() as int;
    let ring = pos.ring();
    assert(ring.subrange(0, h) =~= pos.ours);
    assert(ring.subrange(h + 1, 2 * h + 1) =~= pos.theirs);
    lemma_sum_concat(pos.ours, seq![pos.our_store]);
    lemma_sum_concat(pos.ours + seq![pos.our_store], pos.theirs);
    lemma_sum_one(pos.our_store);
}

/// A position built from a ring has the sum of the ring, and the
/// untouched store of the opponent, as its seeds.
pub proof fn lemma_with_ring(pos: Position, ring: Seq<nat>)
    requires
        pos.wf(),
        ring.len() == 2 * pos.h() + 1,
    ensures
        pos.with_ring(ring).wf(),
        pos.with_ring(ring).h() == pos.h(),
        pos.with_ring(ring).ring() =~= ring,
        pos.with_ring(ring).total() == seq_sum(ring) + pos.their_store,
{
    let q = pos.with_ring(ring);
    assert(q.ring() =~= ring);
    lemma_ring_parts(q);
}

/// What sowing from our house `k` leaves in every pit, and that it
/// neither adds nor loses a seed.
pub proof fn lemma_sown(pos: Position, k: int)
    requires
        pos.wf(),
        0 <= k < pos.h(),
    ensures
        pos.sown(k).wf(),
        pos.sown(k).h() == pos.h(),
        pos.sown(k).flipped == pos.flipped,
        pos.sown(k).their_store == pos.their_store,
        pos.sown(k).total() == pos.total(),
        forall|p: int|
            0 <= p < pos.h() ==> #[trigger] pos.sown(k).ours[p] == (if p == k {
                0
            } else {
                pos.ours[p]
            }) + received(pos, k, p),
        pos.sown(k).our_store == pos.our_store + received(pos, k, pos.h() as int),
        forall|j: int|
            0 <= j < pos.h() ==> #[trigger] pos.sown(k).theirs[j] == pos.theirs[j] + received(
                pos,
                k,
                pos.h() + 1 + j,
            ),
{
    let h = pos.h() as int;
    let c = 2 * h + 1;
    let start = (k + 1) % c;
    let emptied = pos.ring().update(k, 0);
    let out = sow_ring(emptied, start, pos.ours[k]);
    lemma_ring_parts(pos);
    lemma_mod_near(k + 1, c);
    lemma_sum_update(pos.ring(), k, 0);
    lemma_sow_ring(emptied, start, pos.ours[k]);
    lemma_with_ring(pos, out);
    assert forall|p: int| 0 <= p < h implies #[trigger] pos.sown(k).ours[p] == (if p == k {
        0
    } else {
        pos.ours[p]
    }) + seeds_received(c, start, pos.ours[k], p) by {
        assert(pos.sown(k).ours[p] == out[p]);
    }
    assert forall|j: int| 0 <= j < h implies #[trigger] pos.sown(k).theirs[j] == pos.theirs[j]
        + seeds_received(c, start, pos.ours[k], h + 1 + j) by {
        assert(pos.sown(k).theirs[j] == out[h + 1 + j]);
        assert(emptied[h + 1 + j] == pos.theirs[j]);
    }
}

/// A capture moves seeds into our store and loses none.
pub proof fn lemma_captured(pos: Position, last: int)
    requires
        pos.wf(),
    ensures
        pos.captured(last).wf(),
        pos.captured(last).h() == pos.h(),
        pos.captured(last).total() == pos.total(),
        pos.captured(last).flipped == pos.flipped,
        pos.captured(last).their_store == pos.their_store,
        pos.captured(last).our_store >= pos.our_store,
{
    if pos.captures_at(last) {
        let opp = pos.h() - 1 - last;
        lemma_sum_update(pos.ours, last, 0);
        lemma_sum_update(pos.theirs, opp, 0);
    }
}

/// Sweeping the houses into the stores loses no seed.
pub proof fn lemma_finished(pos: Position)
    requires
        pos.wf(),
    ensures
        pos.finished().wf(),
        pos.finished().h() == pos.h(),
        pos.finished().total() == pos.total(),
        !pos.finished().has_legal_move(),
        pos.settled().wf(),
        pos.settled().h() == pos.h(),
        pos.settled().total() == pos.total(),
        pos.settled().flipped == pos.flipped,
        pos.settled().our_store >= pos.our_store,
{
    lemma_sum_zeros(pos.ours.len());
    lemma_sum_zeros(pos.theirs.len());
}

/// Playing a house keeps the shape of the board and every seed on it.
pub proof fn lemma_play_house(pos: Position, k: int)
    requires
        pos.wf(),
        0 <= k < pos.h(),
    ensures
        pos.play_house(k).wf(),
        pos.play_house(k).h() == pos.h(),
        pos.play_house(k).flipped == pos.flipped,
        pos.play_house(k).total() == pos.total(),
        pos.play_house(k).our_store >= pos.our_store,
        pos.extra_turn(k) && pos.ours[k] > 0 ==> pos.play_house(k).our_store > pos.our_store,
{
    let h = pos.h() as int;
    let c = 2 * h + 1;
    lemma_sown(pos, k);
    lemma_captured(pos.sown(k), pos.last_pit(k));
    lemma_finished(pos.sown(k).captured(pos.last_pit(k)));
    if pos.extra_turn(k) && pos.ours[k] > 0 {
        lemma_store_gains(pos, k);
    }
}

/// A move whose last seed lands in our store has put a seed there.
proof fn lemma_store_gains(pos: Position, k: int)
    requires
        pos.wf(),
        0 <= k < pos.h(),
        pos.ours[k] > 0,
        pos.extra_turn(k),
    ensures
        received(pos, k, pos.h() as int) > 0,
{
    let h = pos.h() as int;
    let c = 2 * h + 1;
    let n = pos.ours[k] as int;
    lemma_mod_near(k + 1, c);
    lemma_mod_near(h - (k + 1), c);
    vstd::arithmetic::div_mod::lemma_fundamental_div_mod(n, c);
    vstd::arithmetic::div_mod::lemma_mod_bound(n, c);
    vstd::arithmetic::div_mod::lemma_fundamental_div_mod(k + n, c);
    let q = n / c;
    let r = n % c;
    if q <= 0 {
        assert(c * q <= 0) by (nonlinear_arith)
            requires
                q <= 0,
                c > 0,
        ;
        // fewer seeds than pits: the last one lands `n` pits after `k`
        assert(0 < n < c);
        lemma_mod_near(k + n, c);
    }
}

/// Flipping relabels the sides and moves no seed.
pub proof fn lemma_flip(pos: Position)
    ensures
        pos.flip().flip() == pos,
        pos.flip().total() == pos.total(),
        pos.flip().wf() == pos.wf(),
        pos.flip().has_legal_move() == pos.has_legal_move(),
{
}

/// A legal move keeps the shape of the board and every seed on it.
pub proof fn lemma_play(pos: Position, m: Move)
    requires
        pos.wf(),
        pos.is_legal(m),
    ensures
        pos.play(m).wf(),
        pos.play(m).h() == pos.h(),
        pos.play(m).flipped == pos.flipped,
        pos.play(m).total() == pos.total(),
{
    lemma_flip(pos);
    match m.player_spec() {
        Player::White => {
            lemma_play_house(pos, m.house_spec());
        },
        Player::Black => {
            lemma_play_house(pos.flip(), m.house_spec());
            lemma_flip(pos.flip().play_house(m.house_spec()));
        },
    }
}

} // verus!
