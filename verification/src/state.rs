//! The cell through which a running search and its consumer talk.
//!
//! The search writes its best move so far into the cell and reads from it
//! whether it is still wanted; the consumer reads the move and may call
//! the search off.  The cell is shared between threads, so nothing that
//! one side has read from it is known to hold a moment later.

use vstd::prelude::*;
use std::sync::Arc;
use std::sync::Mutex;
use crate::line::Line;
use crate::moves::Move;

verus! {

/// What a search shares with its consumer.
pub struct MinimaxSearchState {
    /// Whether the search is still wanted.
    pub search_active: bool,
    /// The best move that the search has found so far.
    pub current_best_move: Move,
    /// The line of play that the search expects; empty until a search
    /// that keeps one has finished a depth.
    pub principal_variation: Line,
}

/// `std::sync::Mutex`, which Verus takes on trust as an opaque type.
#[verifier::external_type_specification]
#[verifier::external_body]
#[verifier::reject_recursive_types(T)]
pub struct ExMutex<T: ?Sized>(Mutex<T>);

/// A search state that a search and its consumer share.
pub type SharedMinimaxSearchState = Arc<Mutex<MinimaxSearchState>>;

/// Puts a search state behind a lock.
///
/// Calls `Mutex::new`.  Nothing is claimed of the result: what lies
/// behind the lock cannot be seen from outside.
#[verifier::external_body]
fn new_mutex(state: MinimaxSearchState) -> (cell: Mutex<MinimaxSearchState>) {
    Mutex::new(state)
}

impl MinimaxSearchState {
    /// A search state with `fallback_move` as the best move so far and the
    /// empty line as the line of play.
    pub fn new(search_active: bool, fallback_move: Move) -> (state: MinimaxSearchState)
        ensures
            state.search_active == search_active,
            state.current_best_move == fallback_move,
            state.principal_variation.wf(),
            state.principal_variation@ == Seq::<Move>::empty(),
    {
        MinimaxSearchState {
            search_active,
            current_best_move: fallback_move,
            principal_variation: Line::new(),
        }
    }
}

/// Makes a shared state that holds what [`MinimaxSearchState::new`]
/// makes of the flag and the move to fall back on.
pub fn new_shared_minimax_search_state(search_active: bool, fallback_move: Move) -> (state:
    SharedMinimaxSearchState) {
    Arc::new(new_mutex(MinimaxSearchState::new(search_active, fallback_move)))
}

/// Another handle on the same shared state.
///
/// Calls `Arc::clone`.  Nothing is claimed of the result.
#[verifier::external_body]
pub(crate) fn share(state: &SharedMinimaxSearchState) -> (other: SharedMinimaxSearchState) {
    Arc::clone(state)
}

/// Reads whether the search is still wanted.
///
/// Calls `Mutex::lock`.  Nothing is claimed of the result: the consumer
/// may call the search off at any time.
#[verifier::external_body]
pub(crate) fn search_is_active(state: &SharedMinimaxSearchState) -> (active: bool) {
    match state.lock() {
        Ok(guard) => guard.search_active,
        Err(poisoned) => poisoned.into_inner().search_active,
    }
}

/// Reads the best move published so far.
///
/// Calls `Mutex::lock`.  Nothing is claimed of the result.
#[verifier::external_body]
pub(crate) fn read_best_move(state: &SharedMinimaxSearchState) -> (m: Move) {
    match state.lock() {
        Ok(guard) => guard.current_best_move,
        Err(poisoned) => poisoned.into_inner().current_best_move,
    }
}

/// Reads the line of play published so far.
///
/// Calls `Mutex::lock`.  Nothing is claimed of the result.
#[verifier::external_body]
pub(crate) fn read_line(state: &SharedMinimaxSearchState) -> (line: Line) {
    match state.lock() {
        Ok(guard) => guard.principal_variation,
        Err(poisoned) => poisoned.into_inner().principal_variation,
    }
}

/// Publishes `m` as the best move so far.
///
/// Calls `Mutex::lock`.
#[verifier::external_body]
pub(crate) fn publish_move(state: &SharedMinimaxSearchState, m: Move) {
    match state.lock() {
        Ok(mut guard) => guard.current_best_move = m,
        Err(poisoned) => poisoned.into_inner().current_best_move = m,
    }
}

/// Publishes `line` as the expected line of play.
///
/// Calls `Mutex::lock`.
#[verifier::external_body]
pub(crate) fn publish_line(state: &SharedMinimaxSearchState, line: Line) {
    match state.lock() {
        Ok(mut guard) => guard.principal_variation = line,
        Err(poisoned) => poisoned.into_inner().principal_variation = line,
    }
}

/// Marks the search as no longer wanted.
///
/// Calls `Mutex::lock`.
#[verifier::external_body]
pub(crate) fn set_inactive(state: &SharedMinimaxSearchState) {
    match state.lock() {
        Ok(mut guard) => guard.search_active = false,
        Err(poisoned) => poisoned.into_inner().search_active = false,
    }
}

/// Something that a search asks, at every node, whether it is still
/// wanted.
pub trait Watch {
    /// Whether it is known that the search is wanted as long as it runs.
    spec fn never_stops(&self) -> bool;

    /// Whether it is known that the search has been called off.
    spec fn has_stopped(&self) -> bool;

    /// Whether the search is still wanted.
    fn still_wanted(&self) -> (wanted: bool)
        ensures
            self.never_stops() ==> wanted,
            self.has_stopped() ==> !wanted,
    ;
}

/// The cell in which a search leaves its results and finds whether it is
/// still wanted.
///
/// Of a cell that the search has to itself all is known that it holds.
/// Of a cell that is shared with others nothing is: they may change it at
/// any time.
pub trait Handoff: Watch {
    /// What the cell holds, where that is known.
    spec fn held(&self) -> Option<MinimaxSearchState>;

    /// Where it is known what the cell holds, the search is wanted just
    /// as long as the cell says that it is active.
    proof fn lemma_held(&self)
        ensures
            self.held() matches Some(state) ==> self.never_stops() == state.search_active
                && self.has_stopped() == !state.search_active,
    ;

    /// Puts `m` into the cell as the best move so far.
    fn publish_move(&mut self, m: Move)
        ensures
            final(self).held() == match old(self).held() {
                Some(state) => Some(MinimaxSearchState { current_best_move: m, ..state }),
                None => None,
            },
    ;

    /// Puts `line` into the cell as the expected line of play.
    fn publish_line(&mut self, line: Line)
        ensures
            final(self).held() == match old(self).held() {
                Some(state) => Some(MinimaxSearchState { principal_variation: line, ..state }),
                None => None,
            },
    ;

    /// Marks the search in the cell as ended.
    fn end_search(&mut self)
        ensures
            final(self).held() == match old(self).held() {
                Some(state) => Some(MinimaxSearchState { search_active: false, ..state }),
                None => None,
            },
    ;
}

/// The watch of a search that nobody calls off.
#[derive(Debug, Clone, Copy)]
pub struct Unwatched;

impl Watch for Unwatched {
    open spec fn never_stops(&self) -> bool {
        true
    }

    open spec fn has_stopped(&self) -> bool {
        false
    }

    fn still_wanted(&self) -> (wanted: bool) {
        true
    }
}

impl Watch for MinimaxSearchState {
    open spec fn never_stops(&self) -> bool {
        self.search_active
    }

    open spec fn has_stopped(&self) -> bool {
        !self.search_active
    }

    fn still_wanted(&self) -> (wanted: bool) {
        self.search_active
    }
}

/// A search state that a search has to itself: the cell holds what has
/// been put into it.
impl Handoff for MinimaxSearchState {
    open spec fn held(&self) -> Option<MinimaxSearchState> {
        Some(*self)
    }

    proof fn lemma_held(&self) {
    }

    fn publish_move(&mut self, m: Move) {
        self.current_best_move = m;
    }

    fn publish_line(&mut self, line: Line) {
        self.principal_variation = line;
    }

    fn end_search(&mut self) {
        self.search_active = false;
    }
}

impl Watch for SharedMinimaxSearchState {
    open spec fn never_stops(&self) -> bool {
        false
    }

    open spec fn has_stopped(&self) -> bool {
        false
    }

    fn still_wanted(&self) -> (wanted: bool) {
        search_is_active(self)
    }
}

/// A search state that is shared with others: what it holds is not
/// known, since they may change it at any time.
impl Handoff for SharedMinimaxSearchState {
    open spec fn held(&self) -> Option<MinimaxSearchState> {
        None
    }

    proof fn lemma_held(&self) {
    }

    fn publish_move(&mut self, m: Move) {
        publish_move(self, m);
    }

    fn publish_line(&mut self, line: Line) {
        publish_line(self, line);
    }

    fn end_search(&mut self) {
        set_inactive(self);
    }
}

} // verus!
