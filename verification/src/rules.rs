//! The rules of the game, stated over a mathematical model of the board.
//!
//! A [`Position`] holds the seed counts as natural numbers.  Sowing is
//! defined one seed at a time on the *ring* of pits that a move passes:
//! the mover's houses, the mover's store, then the opponent's houses.

use vstd::prelude::*;
use crate::moves::{Move, Player};

verus! {

/// The sum of a sequence of seed counts.
pub open spec fn seq_sum(s: Seq<nat>) -> nat
    decreases s.len(),
{
    if s.len() == 0 {
        0
    } else {
        seq_sum(s.drop_last()) + s.last()
    }
}

/// A sequence of `n` empty pits.
pub open spec fn zeros(n: nat) -> Seq<nat> {
    Seq::new(n, |i: int| 0nat)
}

/// Whether some pit of `s` holds a seed.
pub open spec fn any_seed(s: Seq<nat>) -> bool {
    exists|i: int| 0 <= i < s.len() && #[trigger] s[i] > 0
}

/// Drops seeds one at a time into consecutive pits of a ring,
/// starting at `pos` and wrapping round at the end.
pub open spec fn sow_ring(ring: Seq<nat>, pos: int, seeds: nat) -> Seq<nat>
    decreases seeds,
{
    if seeds == 0 || ring.len() == 0 {
        ring
    } else {
        sow_ring(
            ring.update(pos, ring[pos] + 1),
            (pos + 1) % (ring.len() as int),
            (seeds - 1) as nat,
        )
    }
}

/// The state of a game as seen by the side to move.
pub struct Position {
    /// Seeds in the houses of the side to move.
    pub ours: Seq<nat>,
    /// Seeds in the houses of the opponent.
    pub theirs: Seq<nat>,
    /// Seeds captured by the side to move.
    pub our_store: nat,
    /// Seeds captured by the opponent.
    pub their_store: nat,
    /// Whether the side to move is the second player.
    pub flipped: bool,
}

impl Position {
    /// Both sides have the same number of houses.
    pub open spec fn wf(self) -> bool {
        self.ours.len() == self.theirs.len()
    }

    /// The number of houses of each side.
    pub open spec fn h(self) -> nat {
        self.ours.len()
    }

    /// All seeds in play: houses and stores of both sides.
    pub open spec fn total(self) -> nat {
        seq_sum(self.ours) + seq_sum(self.theirs) + self.our_store + self.their_store
    }

    /// The same state seen by the other side.
    pub open spec fn flip(self) -> Position {
        Position {
            ours: self.theirs,
            theirs: self.ours,
            our_store: self.their_store,
            their_store: self.our_store,
            flipped: !self.flipped,
        }
    }

    /// The houses of `player`, where White is the side to move.
    pub open spec fn houses_of(self, player: Player) -> Seq<nat> {
        match player {
            Player::White => self.ours,
            Player::Black => self.theirs,
        }
    }

    /// Whether `m` names a house of this board that holds a seed.
    pub open spec fn is_legal(self, m: Move) -> bool {
        &&& 0 <= m.house_spec() < self.h()
        &&& self.houses_of(m.player_spec())[m.house_spec()] > 0
    }

    /// The legal moves of `player` among the first `n` houses, in the
    /// order of the houses.
    pub open spec fn moves_upto(self, player: Player, n: nat) -> Seq<Move>
        decreases n,
    {
        if n == 0 {
            Seq::empty()
        } else {
            let rest = self.moves_upto(player, (n - 1) as nat);
            if self.houses_of(player)[n - 1] > 0 {
                rest.push(Move::make(n - 1, player))
            } else {
                rest
            }
        }
    }

    /// The legal moves of `player`: one for each of its houses that holds
    /// a seed, in the order of the houses.
    pub open spec fn legal_moves(self, player: Player) -> Seq<Move> {
        self.moves_upto(player, self.h())
    }

    /// The game goes on while each side has a seed in one of its houses.
    pub open spec fn has_legal_move(self) -> bool {
        any_seed(self.ours) && any_seed(self.theirs)
    }

    /// The pits that a move of the side to move passes, in sowing order:
    /// our houses, our store, their houses.
    pub open spec fn ring(self) -> Seq<nat> {
        self.ours + seq![self.our_store] + self.theirs
    }

    /// The position whose ring is `ring`, with the other fields of `self`.
    pub open spec fn with_ring(self, ring: Seq<nat>) -> Position {
        let h = self.h() as int;
        Position {
            ours: ring.subrange(0, h),
            theirs: ring.subrange(h + 1, 2 * h + 1),
            our_store: ring[h],
            their_store: self.their_store,
            flipped: self.flipped,
        }
    }

    /// The number of pits on the ring.
    pub open spec fn ring_len(self) -> int {
        2 * (self.h() as int) + 1
    }

    /// The ring position in which the last seed of a move from our house
    /// `k` lands.
    pub open spec fn last_pit(self, k: int) -> int {
        (k + self.ours[k]) % self.ring_len()
    }

    /// Our house `k` is emptied and its seeds are sown into the pits
    /// that follow it.
    pub open spec fn sown(self, k: int) -> Position {
        self.with_ring(
            sow_ring(self.ring().update(k, 0), (k + 1) % self.ring_len(), self.ours[k]),
        )
    }

    /// Whether a last seed in ring position `last` captures: it lies in
    /// one of our houses, alone, opposite a house that is not empty.
    pub open spec fn captures_at(self, last: int) -> bool {
        &&& 0 <= last < self.h()
        &&& self.ours[last] == 1
        &&& self.theirs[self.h() - 1 - last] > 0
    }

    /// The capture, if any, after the last seed landed in ring position
    /// `last`: the seed and the opposite house go to our store.
    pub open spec fn captured(self, last: int) -> Position {
        if self.captures_at(last) {
            let opp = self.h() - 1 - last;
            Position {
                ours: self.ours.update(last, 0),
                theirs: self.theirs.update(opp, 0),
                our_store: self.our_store + 1 + self.theirs[opp],
                ..self
            }
        } else {
            self
        }
    }

    /// Every house is swept into the store of its side.
    pub open spec fn finished(self) -> Position {
        Position {
            ours: zeros(self.ours.len()),
            theirs: zeros(self.theirs.len()),
            our_store: self.our_store + seq_sum(self.ours),
            their_store: self.their_store + seq_sum(self.theirs),
            flipped: self.flipped,
        }
    }

    /// The game is finished as soon as a side has no seed to move.
    pub open spec fn settled(self) -> Position {
        if self.has_legal_move() {
            self
        } else {
            self.finished()
        }
    }

    /// The position after the side to move has played its house `k`.
    pub open spec fn play_house(self, k: int) -> Position {
        self.sown(k).captured(self.last_pit(k)).settled()
    }

    /// A move from our house `k` earns another turn when its last seed
    /// lands in our store.
    pub open spec fn extra_turn(self, k: int) -> bool {
        self.last_pit(k) == self.h()
    }

    /// The position after move `m`.  A move of Black is played on the
    /// flipped board, which is then flipped back.
    pub open spec fn play(self, m: Move) -> Position {
        match m.player_spec() {
            Player::White => self.play_house(m.house_spec()),
            Player::Black => self.flip().play_house(m.house_spec()).flip(),
        }
    }

    /// Whether move `m` earns its player another turn.
    pub open spec fn moves_again(self, m: Move) -> bool {
        match m.player_spec() {
            Player::White => self.extra_turn(m.house_spec()),
            Player::Black => self.flip().extra_turn(m.house_spec()),
        }
    }
}

} // verus!
