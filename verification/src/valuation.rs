//! The value of a position: a heuristic score, or a proven result with
//! its distance in plies.  Values are always those of the first side,
//! White.

use vstd::prelude::*;
use std::cmp::Ordering;
use std::cmp::PartialOrd;
use vstd::std_specs::cmp::PartialOrdSpecImpl;

verus! {

/// The mathematical value of a position, seen by White.
pub enum Score {
    /// The game is open; `value` estimates White's advantage.
    NonTerminal { value: int },
    /// White wins in `plies` plies.
    WhiteWin { plies: nat },
    /// Black wins in `plies` plies.
    BlackWin { plies: nat },
    /// The game is drawn in `plies` plies.
    Draw { plies: nat },
}

/// The sign of a number: -1, 0 or 1.
pub open spec fn sign(x: int) -> int {
    if x < 0 {
        -1
    } else if x == 0 {
        0
    } else {
        1
    }
}

impl Score {
    /// How `self` stands to `other`: -1 if it is worse for White, 1 if it
    /// is better, 0 if neither.
    ///
    /// A win of White beats everything else, and a quicker win a slower
    /// one.  A win of Black loses to everything else, and a quicker loss
    /// to a slower one.  Between them, open games go by their value, a
    /// draw counts as value zero, and of two draws the longer is better.
    pub open spec fn order(self, other: Score) -> int {
        match (self, other) {
            (Score::WhiteWin { plies: a }, Score::WhiteWin { plies: b }) => sign(b - a),
            (Score::WhiteWin { .. }, _) => 1,
            (_, Score::WhiteWin { .. }) => -1,
            (Score::BlackWin { plies: a }, Score::BlackWin { plies: b }) => sign(a - b),
            (Score::BlackWin { .. }, _) => -1,
            (_, Score::BlackWin { .. }) => 1,
            (Score::NonTerminal { value: x }, Score::NonTerminal { value: y }) => sign(x - y),
            (Score::NonTerminal { value }, Score::Draw { .. }) => sign(value),
            (Score::Draw { .. }, Score::NonTerminal { value }) => sign(-value),
            (Score::Draw { plies: a }, Score::Draw { plies: b }) => sign(a - b),
        }
    }

    /// `self` is worse for White than `other`.
    pub open spec fn lt(self, other: Score) -> bool {
        self.order(other) < 0
    }

    /// `self` is not better for White than `other`.
    pub open spec fn le(self, other: Score) -> bool {
        self.order(other) <= 0
    }

    /// `self` is better for White than `other`.
    pub open spec fn gt(self, other: Score) -> bool {
        self.order(other) > 0
    }

    /// `self` is not worse for White than `other`.
    pub open spec fn ge(self, other: Score) -> bool {
        self.order(other) >= 0
    }

    /// The same value seen by the other side.
    pub open spec fn neg(self) -> Score {
        match self {
            Score::NonTerminal { value } => Score::NonTerminal { value: -value },
            Score::WhiteWin { plies } => Score::BlackWin { plies },
            Score::BlackWin { plies } => Score::WhiteWin { plies },
            Score::Draw { plies } => Score::Draw { plies },
        }
    }

    /// The same value one ply further from the end.
    pub open spec fn advance(self) -> Score {
        match self {
            Score::NonTerminal { value } => self,
            Score::WhiteWin { plies } => Score::WhiteWin { plies: plies + 1 },
            Score::BlackWin { plies } => Score::BlackWin { plies: plies + 1 },
            Score::Draw { plies } => Score::Draw { plies: plies + 1 },
        }
    }

    /// The distance in plies of a proven result; zero for an open game.
    pub open spec fn plies(self) -> nat {
        match self {
            Score::NonTerminal { value } => 0,
            Score::WhiteWin { plies } => plies,
            Score::BlackWin { plies } => plies,
            Score::Draw { plies } => plies,
        }
    }
}

/// The value of a position as the search handles it.
#[derive(Debug, Clone, Copy, PartialEq, Eq, Structural)]
pub enum Valuation {
    NonTerminal { value: i32 },
    TerminalWhiteWin { plies: u32 },
    TerminalBlackWin { plies: u32 },
    TerminalDraw { plies: u32 },
}

impl View for Valuation {
    type V = Score;

    open spec fn view(&self) -> Score {
        match *self {
            Valuation::NonTerminal { value } => Score::NonTerminal { value: value as int },
            Valuation::TerminalWhiteWin { plies } => Score::WhiteWin { plies: plies as nat },
            Valuation::TerminalBlackWin { plies } => Score::BlackWin { plies: plies as nat },
            Valuation::TerminalDraw { plies } => Score::Draw { plies: plies as nat },
        }
    }
}

impl vstd::std_specs::ops::NegSpecImpl for Valuation {
    open spec fn obeys_neg_spec() -> bool {
        true
    }

    open spec fn neg_req(self) -> bool {
        self.negatable()
    }

    open spec fn neg_spec(self) -> Valuation {
        match self {
            Valuation::NonTerminal { value } => Valuation::NonTerminal { value: (-value) as i32 },
            Valuation::TerminalWhiteWin { plies } => Valuation::TerminalBlackWin { plies },
            Valuation::TerminalBlackWin { plies } => Valuation::TerminalWhiteWin { plies },
            Valuation::TerminalDraw { plies } => Valuation::TerminalDraw { plies },
        }
    }
}

impl std::ops::Neg for Valuation {
    type Output = Valuation;

    /// The same value seen by the other side.
    fn neg(self) -> (r: Valuation) {
        match self {
            Valuation::NonTerminal { value } => Valuation::NonTerminal { value: -value },
            Valuation::TerminalWhiteWin { plies } => Valuation::TerminalBlackWin { plies },
            Valuation::TerminalBlackWin { plies } => Valuation::TerminalWhiteWin { plies },
            Valuation::TerminalDraw { plies } => Valuation::TerminalDraw { plies },
        }
    }
}

/// The ordering that stands for a sign.
pub open spec fn ordering_of(s: int) -> Ordering {
    if s < 0 {
        Ordering::Less
    } else if s == 0 {
        Ordering::Equal
    } else {
        Ordering::Greater
    }
}

impl PartialOrdSpecImpl for Valuation {
    open spec fn obeys_partial_cmp_spec() -> bool {
        true
    }

    open spec fn partial_cmp_spec(&self, other: &Valuation) -> Option<Ordering> {
        Some(ordering_of(self@.order(other@)))
    }
}

/// The ordering of two numbers.
fn order_u32(a: u32, b: u32) -> (o: Ordering)
    ensures
        o == ordering_of(sign(a - b)),
{
    if a < b {
        Ordering::Less
    } else if a == b {
        Ordering::Equal
    } else {
        Ordering::Greater
    }
}

/// The ordering of two numbers.
fn order_i32(a: i32, b: i32) -> (o: Ordering)
    ensures
        o == ordering_of(sign(a - b)),
{
    if a < b {
        Ordering::Less
    } else if a == b {
        Ordering::Equal
    } else {
        Ordering::Greater
    }
}

impl PartialOrd for Valuation {
    /// Compares two values from White's point of view.
    fn partial_cmp(&self, other: &Valuation) -> (r: Option<Ordering>) {
        let o = match (*self, *other) {
            (
                Valuation::TerminalWhiteWin { plies: a },
                Valuation::TerminalWhiteWin { plies: b },
            ) => order_u32(b, a),
            (Valuation::TerminalWhiteWin { .. }, _) => Ordering::Greater,
            (_, Valuation::TerminalWhiteWin { .. }) => Ordering::Less,
            (Valuation::NonTerminal { value: x }, Valuation::NonTerminal { value: y }) => {
                order_i32(x, y)
            },
            (Valuation::NonTerminal { value }, Valuation::TerminalDraw { .. }) => order_i32(
                value,
                0,
            ),
            (Valuation::TerminalDraw { .. }, Valuation::NonTerminal { value }) => order_i32(
                0,
                value,
            ),
            (Valuation::TerminalDraw { plies: a }, Valuation::TerminalDraw { plies: b }) => {
                order_u32(a, b)
            },
            (
                Valuation::TerminalBlackWin { plies: a },
                Valuation::TerminalBlackWin { plies: b },
            ) => order_u32(a, b),
            (Valuation::TerminalBlackWin { .. }, _) => Ordering::Less,
            (_, Valuation::TerminalBlackWin { .. }) => Ordering::Greater,
        };
        Some(o)
    }
}

/// The most plies that the value of a leaf may carry.
pub const LEAF_PLIES_MAX: u32 = 65535;

impl Valuation {
    /// The value of an open game can be negated: it is not the least
    /// number of its type.
    pub open spec fn negatable(&self) -> bool {
        *self matches Valuation::NonTerminal { value } ==> value > i32::MIN
    }

    /// What the search asks of the value of a leaf: it can be negated,
    /// and it carries at most [`LEAF_PLIES_MAX`] plies, so that the plies
    /// of the levels above can be added to it.
    pub open spec fn leaf_ok(&self) -> bool {
        self.negatable() && self@.plies() <= LEAF_PLIES_MAX
    }

    /// The same value one ply further from the end of the game.
    pub fn increase_plies(self) -> (r: Valuation)
        requires
            self@.plies() < u32::MAX,
        ensures
            r@ == self@.advance(),
            r.negatable() == self.negatable(),
    {
        match self {
            Valuation::NonTerminal { .. } => self,
            Valuation::TerminalWhiteWin { plies } => Valuation::TerminalWhiteWin {
                plies: plies + 1,
            },
            Valuation::TerminalBlackWin { plies } => Valuation::TerminalBlackWin {
                plies: plies + 1,
            },
            Valuation::TerminalDraw { plies } => Valuation::TerminalDraw { plies: plies + 1 },
        }
    }

    /// The same value seen by the other side.
    pub fn neg(self) -> (r: Valuation)
        requires
            self.negatable(),
        ensures
            r@ == self@.neg(),
            r.negatable(),
    {
        match self {
            Valuation::NonTerminal { value } => Valuation::NonTerminal { value: -value },
            Valuation::TerminalWhiteWin { plies } => Valuation::TerminalBlackWin { plies },
            Valuation::TerminalBlackWin { plies } => Valuation::TerminalWhiteWin { plies },
            Valuation::TerminalDraw { plies } => Valuation::TerminalDraw { plies },
        }
    }

    /// Whether `self` is worse for White than `other`.
    pub fn is_lt(&self, other: &Valuation) -> (r: bool)
        ensures
            r == self@.lt(other@),
    {
        *self < *other
    }

    /// Whether `self` is better for White than `other`.
    pub fn is_gt(&self, other: &Valuation) -> (r: bool)
        ensures
            r == self@.gt(other@),
    {
        *self > *other
    }

    /// Whether `self` is not worse for White than `other`.
    pub fn is_ge(&self, other: &Valuation) -> (r: bool)
        ensures
            r == self@.ge(other@),
    {
        *self >= *other
    }

    /// Whether `self` is not better for White than `other`.
    pub fn is_le(&self, other: &Valuation) -> (r: bool)
        ensures
            r == self@.le(other@),
    {
        *self <= *other
    }
}

} // verus!
