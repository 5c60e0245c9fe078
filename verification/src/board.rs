//! The board: seed counts of both sides, seen by the side to move.

use vstd::prelude::*;
use crate::moves::{Move, Player};
use crate::rules::{any_seed, seq_sum, zeros, Position};
use crate::sowing::{
    lemma_captured, lemma_finished, lemma_mod_near, lemma_sown, lemma_sum_bound,
    lemma_sum_concat, lemma_sum_prefix, received,
};

verus! {

/// The number of seeds in one pit.
pub type House = u16;

/// The seed counts of a row of pits as natural numbers.
pub open spec fn counts(s: Seq<House>) -> Seq<nat> {
    Seq::new(s.len(), |i: int| s[i] as nat)
}

/// The game state, stored from the point of view of the side to move.
///
/// The houses of both sides lie in one row: first our `h` houses, then
/// their `h` houses.
#[derive(Debug)]
pub struct Board {
    h: u8,
    houses: Vec<House>,
    pub our_store: u16,
    pub their_store: u16,
    flipped: bool,
}

impl View for Board {
    type V = Position;

    open spec fn view(&self) -> Position {
        Position {
            ours: counts(self.our_row()),
            theirs: counts(self.their_row()),
            our_store: self.our_store_spec() as nat,
            their_store: self.their_store_spec() as nat,
            flipped: self.flipped_spec(),
        }
    }
}

impl Board {
    /// The row of houses has two halves of `h` houses, and `h` fits the
    /// seven bits that a move has for a house.
    pub closed spec fn wf(&self) -> bool {
        &&& self.h <= 128
        &&& self.houses@.len() == 2 * self.h
    }

    /// The number of houses of each side.
    pub closed spec fn h_spec(&self) -> nat {
        self.h as nat
    }

    /// The seed counts of our houses.
    pub closed spec fn our_row(&self) -> Seq<House> {
        self.houses@.subrange(0, self.h as int)
    }

    /// The seed counts of their houses.
    pub closed spec fn their_row(&self) -> Seq<House> {
        self.houses@.subrange(self.h as int, 2 * self.h)
    }

    /// Whether the side to move is the second player.
    pub closed spec fn flipped_spec(&self) -> bool {
        self.flipped
    }

    /// The seeds in our store.
    pub closed spec fn our_store_spec(&self) -> House {
        self.our_store
    }

    /// The seeds in their store.
    pub closed spec fn their_store_spec(&self) -> House {
        self.their_store
    }

    /// All seeds of the board fit the type of a pit, so that no pit can
    /// overflow however the seeds are moved.
    pub open spec fn fits(&self) -> bool {
        self@.total() <= u16::MAX
    }

    /// A well-formed board has `h` houses on either side.
    pub broadcast proof fn lemma_wf(&self)
        requires
            #[trigger] self.wf(),
        ensures
            self@.wf(),
            self@.h() == self.h_spec(),
            self.h_spec() <= 128,
            self.our_row().len() == self.h_spec(),
            self.their_row().len() == self.h_spec(),
    {
    }

    /// A board from its parts.
    pub fn from_parts(
        h: u8,
        our_houses: Vec<House>,
        their_houses: Vec<House>,
        our_store: House,
        their_store: House,
        flipped: bool,
    ) -> (b: Board)
        requires
            h <= 128,
            our_houses@.len() == h,
            their_houses@.len() == h,
        ensures
            b.wf(),
            b.h_spec() == h,
            b.our_row() == our_houses@,
            b.their_row() == their_houses@,
            b.our_store_spec() == our_store,
            b.their_store_spec() == their_store,
            b.flipped_spec() == flipped,
    {
        let mut houses: Vec<House> = Vec::with_capacity(2 * (h as usize));
        let mut i: usize = 0;
        while i < h as usize
            invariant
                i <= h,
                our_houses@.len() == h,
                houses@ == our_houses@.subrange(0, i as int),
            decreases h - i,
        {
            houses.push(our_houses[i]);
            assert(houses@ =~= our_houses@.subrange(0, i + 1));
            i += 1;
        }
        assert(houses@ =~= our_houses@);
        let mut j: usize = 0;
        while j < h as usize
            invariant
                j <= h,
                our_houses@.len() == h,
                their_houses@.len() == h,
                houses@ == our_houses@ + their_houses@.subrange(0, j as int),
            decreases h - j,
        {
            houses.push(their_houses[j]);
            assert(houses@ =~= our_houses@ + their_houses@.subrange(0, j + 1));
            j += 1;
        }
        let b = Board { h, houses, our_store, their_store, flipped };
        assert(b.our_row() =~= our_houses@);
        assert(b.their_row() =~= their_houses@);
        b
    }

    /// The opening position: `s` seeds in each of the `h` houses of
    /// either side, empty stores, the first player to move.
    pub open spec fn opening(h: nat, s: nat) -> Position {
        Position {
            ours: Seq::new(h, |i: int| s),
            theirs: Seq::new(h, |i: int| s),
            our_store: 0,
            their_store: 0,
            flipped: false,
        }
    }

    /// The opening position: `s` seeds in each of the `h` houses of
    /// either side, empty stores, the first player to move.
    pub fn new(h: u8, s: House) -> (b: Board)
        requires
            h <= 128,
        ensures
            b.wf(),
            b.h_spec() == h,
            b@ == Board::opening(h as nat, s as nat),
    {
        let ours: Vec<House> = vec![s; h as usize];
        let theirs: Vec<House> = vec![s; h as usize];
        let b = Board::from_parts(h, ours, theirs, 0, 0, false);
        assert(b@.ours =~= Board::opening(h as nat, s as nat).ours);
        assert(b@.theirs =~= Board::opening(h as nat, s as nat).theirs);
        b
    }

    /// The opening position, or `None` if `h` is more than the 128 houses
    /// that a move can tell apart.
    pub fn try_new(h: u8, s: House) -> (r: Option<Board>)
        ensures
            r is Some <==> h <= 128,
            r matches Some(b) ==> b.wf() && b.h_spec() == h && b@ == Board::opening(
                h as nat,
                s as nat,
            ),
    {
        if h <= 128 {
            Some(Board::new(h, s))
        } else {
            None
        }
    }

    /// The number of houses of each side.
    pub fn h(&self) -> (r: u8)
        ensures
            r == self.h_spec(),
    {
        self.h
    }

    /// The seeds captured by the side to move.
    pub fn our_store(&self) -> (r: u16)
        ensures
            r == self.our_store_spec(),
    {
        self.our_store
    }

    /// The seeds captured by the opponent.
    pub fn their_store(&self) -> (r: u16)
        ensures
            r == self.their_store_spec(),
    {
        self.their_store
    }

    /// Whether the side to move is the second player.
    pub fn flipped(&self) -> (r: bool)
        ensures
            r == self.flipped_spec(),
    {
        self.flipped
    }

    /// The houses of the side to move.
    pub fn our_houses(&self) -> (r: &[House])
        requires
            self.wf(),
        ensures
            r@ == self.our_row(),
    {
        let (a, _b) = self.houses.as_slice().split_at(self.h as usize);
        a
    }

    /// The houses of the opponent.
    pub fn their_houses(&self) -> (r: &[House])
        requires
            self.wf(),
        ensures
            r@ == self.their_row(),
    {
        let (_a, b) = self.houses.as_slice().split_at(self.h as usize);
        b
    }

    /// The houses of the side to move, to be changed in place.
    pub fn our_houses_mut(&mut self) -> (r: &mut [House])
        requires
            old(self).wf(),
        ensures
            r@ == old(self).our_row(),
            final(self).h_spec() == old(self).h_spec(),
            final(self).our_store_spec() == old(self).our_store_spec(),
            final(self).their_store_spec() == old(self).their_store_spec(),
            final(self).flipped_spec() == old(self).flipped_spec(),
            final(r)@.len() == r@.len() ==> {
                &&& final(self).wf()
                &&& final(self).our_row() == final(r)@
                &&& final(self).their_row() == old(self).their_row()
            },
    {
        let h = self.h as usize;
        let (a, b) = self.houses.as_mut_slice().split_at_mut(h);
        proof {
            assert forall|x: Seq<House>, y: Seq<House>| x.len() == h && y.len() == h implies (#[trigger] (x
                + y)).subrange(0, h as int) == x && (x + y).subrange(h as int, 2 * h) == y by {
                assert((x + y).subrange(0, h as int) =~= x);
                assert((x + y).subrange(h as int, 2 * h) =~= y);
            }
        }
        a
    }

    /// The houses of the opponent, to be changed in place.
    pub fn their_houses_mut(&mut self) -> (r: &mut [House])
        requires
            old(self).wf(),
        ensures
            r@ == old(self).their_row(),
            final(self).h_spec() == old(self).h_spec(),
            final(self).our_store_spec() == old(self).our_store_spec(),
            final(self).their_store_spec() == old(self).their_store_spec(),
            final(self).flipped_spec() == old(self).flipped_spec(),
            final(r)@.len() == r@.len() ==> {
                &&& final(self).wf()
                &&& final(self).their_row() == final(r)@
                &&& final(self).our_row() == old(self).our_row()
            },
    {
        let h = self.h as usize;
        let (a, b) = self.houses.as_mut_slice().split_at_mut(h);
        proof {
            assert forall|x: Seq<House>, y: Seq<House>| x.len() == h && y.len() == h implies (#[trigger] (x
                + y)).subrange(0, h as int) == x && (x + y).subrange(h as int, 2 * h) == y by {
                assert((x + y).subrange(0, h as int) =~= x);
                assert((x + y).subrange(h as int, 2 * h) =~= y);
            }
        }
        b
    }

    /// Relabels the sides: what was ours is theirs and the other way
    /// round.  No seed moves between the players.
    pub fn flip_board(&mut self)
        requires
            old(self).wf(),
        ensures
            final(self).wf(),
            final(self).h_spec() == old(self).h_spec(),
            final(self)@ == old(self)@.flip(),
    {
        let h = self.h as usize;
        let mut i: usize = 0;
        while i < h
            invariant
                i <= h,
                h == self.h,
                self.h == old(self).h,
                self.houses@.len() == 2 * h,
                old(self).houses@.len() == 2 * h,
                self.our_store == old(self).our_store,
                self.their_store == old(self).their_store,
                self.flipped == old(self).flipped,
                forall|j: int|
                    0 <= j < 2 * h ==> #[trigger] self.houses@[j] == (if j < i {
                        old(self).houses@[h + j]
                    } else if h <= j < h + i {
                        old(self).houses@[j - h]
                    } else {
                        old(self).houses@[j]
                    }),
            decreases h - i,
        {
            let a = self.houses[i];
            let b = self.houses[h + i];
            self.houses.set(i, b);
            self.houses.set(h + i, a);
            i += 1;
        }
        let t = self.our_store;
        self.our_store = self.their_store;
        self.their_store = t;
        self.flipped = !self.flipped;
        proof {
            assert(self@.ours =~= old(self)@.theirs);
            assert(self@.theirs =~= old(self)@.ours);
        }
    }

    /// Whether a house in `from..to` of the row holds a seed.
    fn row_has_seed(&self, from: usize, to: usize) -> (r: bool)
        requires
            from <= to <= self.houses@.len(),
        ensures
            r == any_seed(counts(self.houses@.subrange(from as int, to as int))),
    {
        let ghost row = counts(self.houses@.subrange(from as int, to as int));
        let mut i: usize = from;
        while i < to
            invariant
                from <= i <= to <= self.houses@.len(),
                row == counts(self.houses@.subrange(from as int, to as int)),
                forall|j: int| 0 <= j < i - from ==> row[j] == 0,
            decreases to - i,
        {
            if self.houses[i] != 0 {
                assert(row[i - from] > 0);
                return true;
            }
            i += 1;
        }
        false
    }

    /// The seeds in the houses `from..to` of the row.
    fn row_sum(&self, from: usize, to: usize) -> (r: u16)
        requires
            from <= to <= self.houses@.len(),
            seq_sum(counts(self.houses@.subrange(from as int, to as int))) <= u16::MAX,
        ensures
            r == seq_sum(counts(self.houses@.subrange(from as int, to as int))),
    {
        let ghost row = counts(self.houses@.subrange(from as int, to as int));
        let mut acc: u16 = 0;
        let mut i: usize = from;
        proof {
            lemma_sum_prefix(row, 0);
        }
        while i < to
            invariant
                from <= i <= to <= self.houses@.len(),
                row == counts(self.houses@.subrange(from as int, to as int)),
                seq_sum(row) <= u16::MAX,
                acc == seq_sum(row.subrange(0, i - from)),
            decreases to - i,
        {
            proof {
                lemma_sum_prefix(row, i - from);
                lemma_sum_prefix(row, i - from + 1);
            }
            acc = acc + self.houses[i];
            i += 1;
        }
        proof {
            lemma_sum_prefix(row, to - from);
        }
        acc
    }

    /// All seeds on the board: houses and stores of both sides.
    pub fn total_seeds(&self) -> (r: u32)
        requires
            self.wf(),
        ensures
            r == self@.total(),
    {
        let n = self.houses.len();
        let ghost ours = counts(self.our_row());
        let ghost theirs = counts(self.their_row());
        let ghost all = counts(self.houses@);
        proof {
            assert(all =~= ours + theirs);
            lemma_sum_concat(ours, theirs);
            lemma_sum_prefix(all, 0);
        }
        let mut acc: u32 = 0;
        let mut i: usize = 0;
        while i < n
            invariant
                i <= n,
                n == self.houses@.len(),
                n <= 256,
                all == counts(self.houses@),
                acc == seq_sum(all.subrange(0, i as int)),
                acc <= i * 65535,
            decreases n - i,
        {
            proof {
                lemma_sum_prefix(all, i as int);
            }
            acc = acc + self.houses[i] as u32;
            i += 1;
        }
        proof {
            lemma_sum_prefix(all, n as int);
        }
        acc + self.our_store as u32 + self.their_store as u32
    }

    /// Whether the game goes on: each side has a seed in one of its
    /// houses.
    pub fn has_legal_move(&self) -> (r: bool)
        requires
            self.wf(),
        ensures
            r == self@.has_legal_move(),
    {
        let h = self.h as usize;
        self.row_has_seed(0, h) && self.row_has_seed(h, 2 * h)
    }

    /// Whether the house that `move_` names holds a seed.
    pub fn is_legal_move(&self, move_: Move) -> (r: bool)
        requires
            self.wf(),
            move_.house_spec() < self.h_spec(),
        ensures
            r == self@.is_legal(move_),
    {
        let k = move_.house() as usize;
        match move_.player() {
            Player::White => self.houses[k] != 0,
            Player::Black => self.houses[self.h as usize + k] != 0,
        }
    }

    /// The moves that `player` may make, in the order of the houses.
    /// White is the side to move.
    pub fn legal_moves(&self, player: Player) -> (moves: Vec<Move>)
        requires
            self.wf(),
        ensures
            moves@ == self@.legal_moves(player),
    {
        let h = self.h as usize;
        let offset: usize = match player {
            Player::White => 0,
            Player::Black => h,
        };
        let mut moves: Vec<Move> = Vec::new();
        let mut i: usize = 0;
        while i < h
            invariant
                i <= h,
                h == self.h,
                self.wf(),
                offset == (if player == Player::White { 0 } else { h as int }),
                moves@ == self@.moves_upto(player, i as nat),
            decreases h - i,
        {
            if self.houses[offset + i] != 0 {
                moves.push(Move::new(i as u8, player));
            }
            i += 1;
        }
        moves
    }

    /// Ends the game: every house is swept into the store of its side.
    pub fn finish_game(&mut self)
        requires
            old(self).wf(),
            old(self).fits(),
        ensures
            final(self).wf(),
            final(self).h_spec() == old(self).h_spec(),
            final(self)@ == old(self)@.finished(),
            final(self)@.total() == old(self)@.total(),
    {
        let h = self.h as usize;
        proof {
            lemma_finished(self@);
            assert(self.houses@.subrange(0, h as int) == self.our_row());
            assert(self.houses@.subrange(h as int, 2 * h) == self.their_row());
        }
        let ours = self.row_sum(0, h);
        let theirs = self.row_sum(h, 2 * h);
        self.our_store = self.our_store + ours;
        self.their_store = self.their_store + theirs;
        let mut i: usize = 0;
        while i < 2 * h
            invariant
                i <= 2 * h,
                h == self.h,
                self.h == old(self).h,
                self.houses@.len() == 2 * h,
                self.our_store == old(self).our_store + ours,
                self.their_store == old(self).their_store + theirs,
                self.flipped == old(self).flipped,
                forall|j: int| 0 <= j < i ==> self.houses@[j] == 0,
            decreases 2 * h - i,
        {
            self.houses.set(i, 0);
            i += 1;
        }
        proof {
            assert(self@.ours =~= zeros(h as nat));
            assert(self@.theirs =~= zeros(h as nat));
        }
    }

    /// Empties house `k` of the side to move and sows its seeds.  Returns
    /// the ring position of the last seed.
    #[verifier::rlimit(50)]
    fn sow(&mut self, k: u8) -> (last: usize)
        requires
            old(self).wf(),
            k < old(self).h_spec(),
            old(self).fits(),
        ensures
            final(self).wf(),
            final(self).h_spec() == old(self).h_spec(),
            final(self)@ == old(self)@.sown(k as int),
            last == old(self)@.last_pit(k as int),
    {
        let ghost pos = self@;
        let ghost sown = pos.sown(k as int);
        let h = self.h as usize;
        let c: u16 = 2 * (self.h as u16) + 1;
        let seeds: u16 = self.houses[k as usize];
        let start: u16 = k as u16 + 1;
        proof {
            lemma_sown(pos, k as int);
            lemma_mod_near(k + 1, c as int);
            assert forall|p: int| 0 <= p < h implies #[trigger] sown.ours[p] <= u16::MAX by {
                lemma_sum_bound(sown.ours, p);
            }
            assert forall|p: int| 0 <= p < h implies #[trigger] sown.theirs[p] <= u16::MAX by {
                lemma_sum_bound(sown.theirs, p);
            }
            vstd::arithmetic::div_mod::lemma_fundamental_div_mod(seeds as int, c as int);
            vstd::arithmetic::div_mod::lemma_mod_bound(seeds as int, c as int);
            assert(3 * (seeds as int / c as int) <= seeds) by (nonlinear_arith)
                requires
                    seeds as int == (c as int) * (seeds as int / c as int) + (seeds as int
                        % c as int),
                    0 <= seeds as int % c as int,
                    c >= 3,
                    seeds >= 0,
            ;
        }
        let full_rounds: u16 = seeds / c;
        let rest: u16 = seeds % c;
        self.houses.set(k as usize, 0);

        // our houses
        let mut p: usize = 0;
        while p < h
            invariant
                p <= h,
                h == self.h,
                0 < h <= 128,
                c == 2 * h + 1,
                start == k + 1,
                k < h,
                self.h == old(self).h,
                self.houses@.len() == 2 * h,
                old(self).houses@.len() == 2 * h,
                self.our_store == old(self).our_store,
                self.their_store == old(self).their_store,
                self.flipped == old(self).flipped,
                pos == old(self)@,
                pos.wf(),
                pos.h() == h,
                sown == pos.sown(k as int),
                sown.wf(),
                sown.h() == h,
                seeds == pos.ours[k as int],
                full_rounds == seeds as int / c as int,
                rest == seeds as int % c as int,
                full_rounds <= 21845,
                (k + 1) % (c as int) == k + 1,
                forall|i: int| 0 <= i < h ==> #[trigger] sown.ours[i] <= u16::MAX,
                forall|i: int|
                    0 <= i < h ==> #[trigger] sown.ours[i] == (if i == k {
                        0
                    } else {
                        pos.ours[i]
                    }) + received(pos, k as int, i),
                forall|i: int|
                    0 <= i < 2 * h ==> #[trigger] self.houses@[i] == (if i < p {
                        sown.ours[i] as u16
                    } else if i == k {
                        0
                    } else {
                        old(self).houses@[i]
                    }),
            decreases h - p,
        {
            let d: u16 = if p as u16 >= start {
                p as u16 - start
            } else {
                p as u16 + c - start
            };
            let add: u16 = if d < rest {
                full_rounds + 1
            } else {
                full_rounds
            };
            let v = self.houses[p];
            proof {
                lemma_mod_near(p - start, c as int);
                assert(add == received(pos, k as int, p as int));
                assert(pos.ours[p as int] == old(self).houses@[p as int]);
                assert(sown.ours[p as int] == v + add);
            }
            self.houses.set(p, v + add);
            p += 1;
        }

        // our store
        let d: u16 = h as u16 - start;
        let add: u16 = if d < rest {
            full_rounds + 1
        } else {
            full_rounds
        };
        proof {
            lemma_mod_near(h - start, c as int);
            assert(add == received(pos, k as int, h as int));
            assert(sown.our_store <= sown.total());
        }
        self.our_store = self.our_store + add;

        // their houses
        let mut j: usize = 0;
        while j < h
            invariant
                j <= h,
                h == self.h,
                0 < h <= 128,
                c == 2 * h + 1,
                start == k + 1,
                k < h,
                self.h == old(self).h,
                self.houses@.len() == 2 * h,
                old(self).houses@.len() == 2 * h,
                self.our_store == sown.our_store,
                self.their_store == old(self).their_store,
                self.flipped == old(self).flipped,
                pos == old(self)@,
                pos.wf(),
                pos.h() == h,
                sown == pos.sown(k as int),
                sown.wf(),
                sown.h() == h,
                seeds == pos.ours[k as int],
                full_rounds == seeds as int / c as int,
                rest == seeds as int % c as int,
                full_rounds <= 21845,
                (k + 1) % (c as int) == k + 1,
                forall|i: int| 0 <= i < h ==> #[trigger] sown.theirs[i] <= u16::MAX,
                forall|i: int|
                    0 <= i < h ==> #[trigger] sown.theirs[i] == pos.theirs[i] + received(
                        pos,
                        k as int,
                        h + 1 + i,
                    ),
                forall|i: int|
                    0 <= i < 2 * h ==> #[trigger] self.houses@[i] == (if i < h {
                        sown.ours[i] as u16
                    } else if i < h + j {
                        sown.theirs[i - h] as u16
                    } else {
                        old(self).houses@[i]
                    }),
            decreases h - j,
        {
            let d: u16 = (h + 1 + j) as u16 - start;
            let add: u16 = if d < rest {
                full_rounds + 1
            } else {
                full_rounds
            };
            let v = self.houses[h + j];
            proof {
                lemma_mod_near(h + 1 + j - start, c as int);
                assert(add == received(pos, k as int, h + 1 + j));
                assert(pos.theirs[j as int] == old(self).houses@[h + j]);
                assert(sown.theirs[j as int] == v + add);
            }
            self.houses.set(h + j, v + add);
            j += 1;
        }
        proof {
            assert(self@.ours =~= sown.ours);
            assert(self@.theirs =~= sown.theirs);
            assert(self@ == sown);
        }
        (k as usize + seeds as usize) % (c as usize)
    }

    /// The capture, if the last seed of a move, in ring position `last`,
    /// has earned one.
    fn capture(&mut self, last: usize)
        requires
            old(self).wf(),
            old(self).fits(),
        ensures
            final(self).wf(),
            final(self).h_spec() == old(self).h_spec(),
            final(self)@ == old(self)@.captured(last as int),
    {
        let ghost pos = self@;
        let ghost taken = pos.captured(last as int);
        let h = self.h as usize;
        if last < h && self.houses[last] == 1 && self.houses[h + (h - 1 - last)] > 0 {
            let opp: usize = h + (h - 1 - last);
            proof {
                lemma_captured(pos, last as int);
                assert(pos.captures_at(last as int));
                assert(taken.our_store <= taken.total());
            }
            self.our_store = self.our_store + self.houses[opp] + 1;
            self.houses.set(last, 0);
            self.houses.set(opp, 0);
            proof {
                assert(self@.ours =~= taken.ours);
                assert(self@.theirs =~= taken.theirs);
            }
        }
    }

    /// Plays house `k` of the side to move: sows its seeds, captures,
    /// and ends the game if a side is left without a seed to move.
    /// Returns whether the side moves again.
    fn play_own_house(&mut self, k: u8) -> (again: bool)
        requires
            old(self).wf(),
            k < old(self).h_spec(),
            old(self).fits(),
        ensures
            final(self).wf(),
            final(self).h_spec() == old(self).h_spec(),
            final(self)@ == old(self)@.play_house(k as int),
            again == old(self)@.extra_turn(k as int),
    {
        proof {
            lemma_sown(self@, k as int);
            lemma_captured(self@.sown(k as int), self@.last_pit(k as int));
        }
        let last = self.sow(k);
        self.capture(last);
        if !self.has_legal_move() {
            self.finish_game();
        }
        last == self.h as usize
    }

    /// Applies `move_`, which must be legal, and returns whether its
    /// player moves again.
    ///
    /// The seeds of the named house are sown one to a pit through the
    /// houses that follow it, the mover's store and the opponent's
    /// houses, round and round.  A last seed that lands alone in one of
    /// the mover's houses, opposite a house that is not empty, captures
    /// both houses.  A last seed in the mover's store earns another turn.
    /// If a side is then left without a seed to move, the game is
    /// finished.
    pub fn apply_move(&mut self, move_: Move) -> (again: bool)
        requires
            old(self).wf(),
            old(self)@.is_legal(move_),
            old(self).fits(),
        ensures
            final(self).wf(),
            final(self).h_spec() == old(self).h_spec(),
            final(self)@ == old(self)@.play(move_),
            again == old(self)@.moves_again(move_),
            final(self)@.total() == old(self)@.total(),
    {
        proof {
            crate::sowing::lemma_play(self@, move_);
        }
        match move_.player() {
            Player::White => self.play_own_house(move_.house()),
            Player::Black => {
                self.flip_board();
                let again = self.play_own_house(move_.house());
                self.flip_board();
                again
            },
        }
    }

    /// Applies `move_` if it is legal and the seeds of the board fit the
    /// type of a pit, and returns whether its player moves again.
    /// Otherwise the board is left as it is and `None` is returned.
    pub fn try_apply_move(&mut self, move_: Move) -> (again: Option<bool>)
        requires
            old(self).wf(),
        ensures
            final(self).wf(),
            final(self).h_spec() == old(self).h_spec(),
            old(self)@.is_legal(move_) && old(self).fits() ==> again == Some(
                old(self)@.moves_again(move_),
            ) && final(self)@ == old(self)@.play(move_),
            !(old(self)@.is_legal(move_) && old(self).fits()) ==> again is None && final(self)@
                == old(self)@,
    {
        proof {
            self.lemma_wf();
        }
        if move_.house() < self.h && self.is_legal_move(move_) && self.total_seeds() <= 65535 {
            Some(self.apply_move(move_))
        } else {
            None
        }
    }

    /// Overwrites this board with the seeds of `other`, which has the
    /// same number of houses.
    pub fn clone_from(&mut self, other: &Board)
        requires
            old(self).wf(),
            other.wf(),
            old(self).h_spec() == other.h_spec(),
        ensures
            final(self).wf(),
            final(self).h_spec() == other.h_spec(),
            final(self)@ == other@,
    {
        let n = self.houses.len();
        let mut i: usize = 0;
        while i < n
            invariant
                i <= n,
                self.h == other.h,
                n == 2 * self.h,
                self.houses@.len() == n,
                other.houses@.len() == n,
                forall|j: int| 0 <= j < i ==> self.houses@[j] == other.houses@[j],
            decreases n - i,
        {
            self.houses.set(i, other.houses[i]);
            i += 1;
        }
        self.our_store = other.our_store;
        self.their_store = other.their_store;
        self.flipped = other.flipped;
        proof {
            assert(self@.ours =~= other@.ours);
            assert(self@.theirs =~= other@.theirs);
        }
    }
}

impl Clone for Board {
    /// A copy with the same seeds in every pit.
    fn clone(&self) -> (b: Board)
        ensures
            b.wf() == self.wf(),
            b.h_spec() == self.h_spec(),
            b@ == self@,
    {
        let houses = self.houses.clone();
        assert(houses@ =~= self.houses@);
        Board {
            h: self.h,
            houses,
            our_store: self.our_store,
            their_store: self.their_store,
            flipped: self.flipped,
        }
    }
}

} // verus!
