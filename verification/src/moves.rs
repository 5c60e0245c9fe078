//! Players and moves.

use vstd::prelude::*;

verus! {

/// One of the two sides.  White moves first.
#[derive(Debug, Clone, Copy, PartialEq, Eq, Structural)]
pub enum Player {
    White,
    Black,
}

impl Player {
    /// The other side.
    pub open spec fn other(self) -> Player {
        match self {
            Player::White => Player::Black,
            Player::Black => Player::White,
        }
    }

    /// The name of the side.
    pub fn name(self) -> (r: &'static str)
        ensures
            r@ == (match self {
                Player::White => "White"@,
                Player::Black => "Black"@,
            }),
    {
        match self {
            Player::White => "White",
            Player::Black => "Black",
        }
    }

    /// The other side.
    pub fn opponent(self) -> (r: Player)
        ensures
            r == self.other(),
    {
        match self {
            Player::White => Player::Black,
            Player::Black => Player::White,
        }
    }
}

impl vstd::std_specs::ops::NotSpecImpl for Player {
    open spec fn obeys_not_spec() -> bool {
        true
    }

    open spec fn not_req(self) -> bool {
        true
    }

    open spec fn not_spec(self) -> Player {
        self.other()
    }
}

impl std::ops::Not for Player {
    type Output = Player;

    /// The other side.
    fn not(self) -> (r: Player) {
        self.opponent()
    }
}

/// Largest number of houses a side can have: a house index takes seven bits.
pub const MAX_HOUSES: u8 = 128;

/// A move: the house it starts from and the side that owns the house,
/// packed into one byte (bits 0 to 6: the house, bit 7: set for Black).
#[derive(Debug, Clone, Copy, PartialEq, Eq, Structural)]
pub struct Move {
    data: u8,
}

impl Move {
    /// The house index of the move.
    pub closed spec fn house_spec(self) -> int {
        self.data as int % 128
    }

    /// The side that makes the move.
    pub closed spec fn player_spec(self) -> Player {
        if (self.data as int) < 128 {
            Player::White
        } else {
            Player::Black
        }
    }

    /// The move of `player` from house `house`.
    pub open spec fn make(house: int, player: Player) -> Move
        recommends
            0 <= house < 128,
    {
        choose|m: Move| m.house_spec() == house && m.player_spec() == player
    }

    /// A move is determined by its house and its player.
    pub broadcast proof fn lemma_move_ext(a: Move, b: Move)
        requires
            #[trigger] a.house_spec() == #[trigger] b.house_spec(),
            a.player_spec() == b.player_spec(),
        ensures
            a == b,
    {
    }

    /// The house of a move lies below 128.
    pub broadcast proof fn lemma_house_range(self)
        ensures
            0 <= #[trigger] self.house_spec() < 128,
    {
    }

    /// `make` builds the move with the given house and player.
    pub broadcast proof fn lemma_make(house: int, player: Player)
        requires
            0 <= house < 128,
        ensures
            (#[trigger] Move::make(house, player)).house_spec() == house,
            Move::make(house, player).player_spec() == player,
    {
        let d: u8 = match player {
            Player::White => house as u8,
            Player::Black => (house + 128) as u8,
        };
        let m = Move { data: d };
        assert(m.house_spec() == house && m.player_spec() == player);
    }

    pub fn new(house_num: u8, player: Player) -> (m: Move)
        requires
            house_num < 128,
        ensures
            m.house_spec() == house_num,
            m.player_spec() == player,
            m == Move::make(house_num as int, player),
    {
        let mut data: u8 = house_num;
        match player {
            Player::White => {},
            Player::Black => {
                assert(house_num < 128 ==> (house_num | (1u8 << 7u8)) == house_num + 128)
                    by (bit_vector);
                data = data | (1u8 << 7u8);
            },
        }
        let m = Move { data };
        proof {
            Move::lemma_make(house_num as int, player);
            Move::lemma_move_ext(m, Move::make(house_num as int, player));
        }
        m
    }

    pub fn house(&self) -> (r: u8)
        ensures
            r == self.house_spec(),
            r < 128,
    {
        let d: u8 = self.data;
        assert(d & 0b0111_1111u8 == d % 128) by (bit_vector);
        self.data & 0b0111_1111u8
    }

    pub fn player(&self) -> (r: Player)
        ensures
            r == self.player_spec(),
    {
        let d: u8 = self.data;
        assert((d & 0b1000_0000u8 == 0) <==> d < 128) by (bit_vector);
        if (self.data & 0b1000_0000u8) == 0 {
            Player::White
        } else {
            Player::Black
        }
    }

    /// The same house, owned by the other side.
    pub open spec fn flipped(self) -> Move {
        Move::make(self.house_spec(), self.player_spec().other())
    }

    /// The same move as seen when the other side owns the house.
    pub fn flip_player(&self) -> (m: Move)
        ensures
            m == self.flipped(),
            m.house_spec() == self.house_spec(),
            m.player_spec() == self.player_spec().other(),
    {
        Move::new(self.house(), self.player().opponent())
    }

    /// The house as it is written for a human reader, counted from one.
    pub fn display_number(&self) -> (r: u8)
        ensures
            r == self.house_spec() + 1,
    {
        self.house() + 1
    }
}

} // verus!
