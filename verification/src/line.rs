//! A line of moves: the continuation that the search expects.

use vstd::prelude::*;
use crate::moves::{Move, Player};

verus! {

/// The largest number of moves that a line holds.
pub const LINE_MAX_SIZE: usize = 100;

/// A sequence of at most [`LINE_MAX_SIZE`] moves, kept in a fixed array
/// so that a line can be copied freely.
#[derive(Clone, Copy)]
pub struct Line {
    len: u32,
    moves: [Move; 100],
}

impl View for Line {
    type V = Seq<Move>;

    closed spec fn view(&self) -> Seq<Move> {
        self.moves@.subrange(0, self.len as int)
    }
}

impl Line {
    /// The line holds no more moves than its array has room for.
    pub closed spec fn wf(&self) -> bool {
        self.len <= LINE_MAX_SIZE
    }

    /// A well-formed line holds at most [`LINE_MAX_SIZE`] moves.
    pub broadcast proof fn lemma_len(&self)
        requires
            #[trigger] self.wf(),
        ensures
            self@.len() <= LINE_MAX_SIZE,
    {
    }

    /// The empty line.
    pub fn new() -> (line: Line)
        ensures
            line.wf(),
            line@ == Seq::<Move>::empty(),
    {
        let line = Line { len: 0, moves: [Move::new(127, Player::Black);100] };
        assert(line@ =~= Seq::<Move>::empty());
        line
    }

    /// Empties the line.
    pub fn reset(&mut self)
        ensures
            final(self).wf(),
            final(self)@ == Seq::<Move>::empty(),
    {
        self.len = 0;
        assert(self@ =~= Seq::<Move>::empty());
    }

    /// The number of moves in the line.
    pub fn len(&self) -> (n: usize)
        requires
            self.wf(),
        ensures
            n == self@.len(),
    {
        self.len as usize
    }

    /// The move at place `i` of the line.
    pub fn get(&self, i: usize) -> (m: Move)
        requires
            self.wf(),
            i < self@.len(),
        ensures
            m == self@[i as int],
    {
        self.moves[i]
    }

    /// Makes this line `head` followed by the moves of `tail`.
    pub fn overwrite(&mut self, head: Move, tail: &Line)
        requires
            tail.wf(),
            1 + tail@.len() <= LINE_MAX_SIZE,
        ensures
            final(self).wf(),
            final(self)@ == seq![head] + tail@,
    {
        self.moves[0] = head;
        self.len = 1;
        assert(self@ =~= seq![head]);
        self.append(tail);
    }

    /// Appends the moves of `other` to this line.
    pub fn append(&mut self, other: &Line)
        requires
            old(self).wf(),
            other.wf(),
            old(self)@.len() + other@.len() <= LINE_MAX_SIZE,
        ensures
            final(self).wf(),
            final(self)@ == old(self)@ + other@,
    {
        let n = other.len as usize;
        let base = self.len as usize;
        let mut i: usize = 0;
        while i < n
            invariant
                i <= n,
                n == other.len,
                base == old(self).len,
                base + n <= LINE_MAX_SIZE,
                self.len == old(self).len,
                forall|j: int| 0 <= j < base ==> self.moves@[j] == old(self).moves@[j],
                forall|j: int| 0 <= j < i ==> self.moves@[base + j] == other.moves@[j],
            decreases n - i,
        {
            self.moves[base + i] = other.moves[i];
            i += 1;
        }
        self.len = self.len + other.len;
        assert(self@ =~= old(self)@ + other@);
    }

    /// Appends the moves of `other` if the line has room for them all,
    /// and says whether it had.
    pub fn try_append(&mut self, other: &Line) -> (done: bool)
        requires
            old(self).wf(),
            other.wf(),
        ensures
            final(self).wf(),
            done == (old(self)@.len() + other@.len() <= LINE_MAX_SIZE),
            final(self)@ == if done {
                old(self)@ + other@
            } else {
                old(self)@
            },
    {
        if self.len as usize + other.len as usize <= LINE_MAX_SIZE {
            self.append(other);
            true
        } else {
            false
        }
    }

    /// Makes this line `head` followed by the moves of `tail` if it has
    /// room for them all, and says whether it had.
    pub fn try_overwrite(&mut self, head: Move, tail: &Line) -> (done: bool)
        requires
            old(self).wf(),
            tail.wf(),
        ensures
            final(self).wf(),
            done == (1 + tail@.len() <= LINE_MAX_SIZE),
            final(self)@ == if done {
                seq![head] + tail@
            } else {
                old(self)@
            },
    {
        if 1 + tail.len as usize <= LINE_MAX_SIZE {
            self.overwrite(head, tail);
            true
        } else {
            false
        }
    }

    /// Cuts the line down to its first `n` moves, if it holds more.
    pub fn truncate(&mut self, n: usize)
        requires
            old(self).wf(),
        ensures
            final(self).wf(),
            final(self)@ == if n < old(self)@.len() {
                old(self)@.take(n as int)
            } else {
                old(self)@
            },
    {
        if n < self.len as usize {
            self.len = n as u32;
            assert(self@ =~= old(self)@.take(n as int));
        }
    }

    /// The first move of the line, if the line holds one.
    pub fn best_move(&self) -> (m: Option<Move>)
        requires
            self.wf(),
        ensures
            m == if self@.len() > 0 {
                Some(self@[0])
            } else {
                None
            },
    {
        if self.len > 0 {
            Some(self.moves[0])
        } else {
            None
        }
    }

    /// An iterator over the moves of the line, first to last.
    pub fn iter(&self) -> (it: std::slice::Iter<'_, Move>)
        requires
            self.wf(),
        ensures
            vstd::std_specs::slice::into_iter_elts(it) == self@,
    {
        let moves = vstd::slice::slice_subrange(self.moves.as_slice(), 0, self.len as usize);
        let it = moves.iter();
        proof {
            vstd::std_specs::slice::axiom_spec_slice_iter(moves);
            assert(moves@.as_ref().unref() =~= moves@);
        }
        it
    }

    /// The moves of the line, first to last.
    pub fn to_vec(&self) -> (v: Vec<Move>)
        requires
            self.wf(),
        ensures
            v@ == self@,
    {
        let mut v: Vec<Move> = Vec::new();
        let mut i: usize = 0;
        while i < self.len as usize
            invariant
                i <= self.len,
                self.wf(),
                v@ == self@.subrange(0, i as int),
            decreases self.len - i,
        {
            v.push(self.moves[i]);
            assert(v@ =~= self@.subrange(0, i + 1));
            i += 1;
        }
        assert(v@ =~= self@);
        v
    }
}

} // verus!
