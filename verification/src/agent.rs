//! Players that answer a position with a move.

use vstd::prelude::*;
use rand::seq::SliceRandom;
use crate::board::Board;
use crate::moves::{Move, Player};
use crate::rules::Position;
use crate::sowing::{lemma_flip, lemma_play};
use crate::line::Line;
use crate::state::{
    new_shared_minimax_search_state, read_best_move, read_line, search_is_active, set_inactive,
    share, SharedMinimaxSearchState,
};

verus! {

/// What an agent is doing.
#[derive(Debug, PartialEq, Eq, Clone, Copy, Structural)]
pub enum AgentState {
    /// Doing nothing, waiting to be told to go or to ponder.
    Waiting,
    /// Working out its next move.
    Go,
    /// Thinking ahead while the opponent is to move.
    Ponder,
}

/// A player.  It is shown the board from its own point of view, is told
/// to go, and is then asked for its move.
pub trait Agent {
    /// What the agent holds is in order.
    spec fn wf(&self) -> bool;

    /// What the agent is doing.
    spec fn state(&self) -> AgentState;

    /// The position that the agent was shown last.
    spec fn position(&self) -> Position;

    /// Shows the agent the board, seen by the agent as the side to move.
    fn update_board(&mut self, board: &Board)
        requires
            old(self).wf(),
            board.wf(),
        ensures
            final(self).wf(),
            final(self).position() == board@,
            final(self).state() == old(self).state(),
    ;

    /// The best move that the agent knows by now.  The agent must have
    /// been told to go, on a board on which it has a move.
    fn get_current_best_move(&mut self) -> (m: Move)
        requires
            old(self).wf(),
            old(self).state() == AgentState::Go,
            old(self).position().has_legal_move(),
        ensures
            final(self).wf(),
            final(self).position() == old(self).position(),
            m.player_spec() == Player::White,
            final(self).position().is_legal(m),
    ;

    /// What the agent is doing.
    fn get_state(&self) -> (s: AgentState)
        ensures
            s == self.state(),
    ;

    /// Tells the agent to work out its move.
    fn go(&mut self)
        requires
            old(self).wf(),
        ensures
            final(self).wf(),
            final(self).state() == AgentState::Go,
            final(self).position() == old(self).position(),
    ;

    /// Tells the agent to stop working.
    fn stop(&mut self)
        requires
            old(self).wf(),
        ensures
            final(self).wf(),
            final(self).state() == AgentState::Waiting,
            final(self).position() == old(self).position(),
    ;

    /// Tells the agent to think ahead.
    fn ponder(&mut self)
        requires
            old(self).wf(),
        ensures
            final(self).wf(),
            final(self).state() == AgentState::Ponder,
            final(self).position() == old(self).position(),
    ;
}

/// Every legal move of `player` among the first `n` houses is a move of
/// `player` from one of these houses that holds a seed, and there is one
/// unless all these houses are empty.
pub proof fn lemma_legal_moves(pos: Position, player: Player, n: nat)
    requires
        pos.wf(),
        n <= pos.h(),
        pos.h() <= 128,
    ensures
        forall|i: int|
            0 <= i < pos.moves_upto(player, n).len() ==> {
                let m = #[trigger] pos.moves_upto(player, n)[i];
                &&& m.player_spec() == player
                &&& pos.is_legal(m)
                &&& m.house_spec() < n
            },
        pos.moves_upto(player, n).len() == 0 <==> (forall|k: int|
            0 <= k < n ==> pos.houses_of(player)[k] == 0),
    decreases n,
{
    if n > 0 {
        lemma_legal_moves(pos, player, (n - 1) as nat);
        Move::lemma_make(n - 1, player);
        if pos.houses_of(player)[n - 1] > 0 {
            assert(pos.moves_upto(player, n).len() > 0);
        }
    }
}

/// The first legal move of the side to move.
pub fn first_legal_move(board: &Board) -> (m: Move)
    requires
        board.wf(),
        board@.has_legal_move(),
    ensures
        m == board@.legal_moves(Player::White)[0],
        m.player_spec() == Player::White,
        board@.is_legal(m),
{
    proof {
        board.lemma_wf();
        lemma_legal_moves(board@, Player::White, board@.h());
    }
    let moves = board.legal_moves(Player::White);
    moves[0]
}

/// An agent that always plays its first legal move.
pub struct FirstMoveAgent {
    state: AgentState,
    board: Board,
}

impl FirstMoveAgent {
    /// An agent that waits, on the opening position of `h` houses a side
    /// with `s` seeds each.
    pub fn new(h: u8, s: u16) -> (agent: FirstMoveAgent)
        requires
            h <= 128,
        ensures
            agent.wf(),
            agent.state() == AgentState::Waiting,
            agent.position() == Board::opening(h as nat, s as nat),
    {
        FirstMoveAgent { state: AgentState::Waiting, board: Board::new(h, s) }
    }
}

impl Agent for FirstMoveAgent {
    closed spec fn wf(&self) -> bool {
        self.board.wf()
    }

    closed spec fn state(&self) -> AgentState {
        self.state
    }

    closed spec fn position(&self) -> Position {
        self.board@
    }

    fn update_board(&mut self, board: &Board) {
        self.board = board.clone();
    }

    /// The first legal move.  The agent goes on as before.
    fn get_current_best_move(&mut self) -> (m: Move)
        ensures
            final(self).state() == old(self).state(),
            m == old(self).position().legal_moves(Player::White)[0],
    {
        first_legal_move(&self.board)
    }

    fn get_state(&self) -> (s: AgentState) {
        self.state
    }

    fn go(&mut self) {
        self.state = AgentState::Go;
    }

    fn stop(&mut self) {
        self.state = AgentState::Waiting;
    }

    fn ponder(&mut self) {
        self.state = AgentState::Ponder;
    }
}

/// Picks one of `moves` at random.
///
/// Calls `rand::seq::SliceRandom::choose` with the generator of
/// `rand::thread_rng`, which returns `None` for an empty slice and else
/// one of the slice's items.  Which one is not known.
#[verifier::external_body]
fn choose_move(moves: &Vec<Move>) -> (m: Option<Move>)
    ensures
        moves@.len() == 0 ==> m is None,
        moves@.len() > 0 ==> m is Some && moves@.contains(m.unwrap()),
{
    moves.choose(&mut rand::thread_rng()).copied()
}

/// An agent that plays a legal move picked at random.
pub struct RandomAgent {
    state: AgentState,
    board: Board,
}

impl RandomAgent {
    /// An agent that waits, on the opening position of `h` houses a side
    /// with `s` seeds each.
    pub fn new(h: u8, s: u16) -> (agent: RandomAgent)
        requires
            h <= 128,
        ensures
            agent.wf(),
            agent.state() == AgentState::Waiting,
            agent.position() == Board::opening(h as nat, s as nat),
    {
        RandomAgent { state: AgentState::Waiting, board: Board::new(h, s) }
    }
}

impl Agent for RandomAgent {
    closed spec fn wf(&self) -> bool {
        self.board.wf()
    }

    closed spec fn state(&self) -> AgentState {
        self.state
    }

    closed spec fn position(&self) -> Position {
        self.board@
    }

    fn update_board(&mut self, board: &Board) {
        self.board = board.clone();
    }

    /// One of the legal moves.  The agent waits again afterwards.
    fn get_current_best_move(&mut self) -> (m: Move)
        ensures
            final(self).state() == AgentState::Waiting,
    {
        self.state = AgentState::Waiting;
        proof {
            self.board.lemma_wf();
            lemma_legal_moves(self.board@, Player::White, self.board@.h());
        }
        let moves = self.board.legal_moves(Player::White);
        match choose_move(&moves) {
            Some(m) => m,
            None => moves[0],
        }
    }

    fn get_state(&self) -> (s: AgentState) {
        self.state
    }

    fn go(&mut self) {
        self.state = AgentState::Go;
    }

    fn stop(&mut self) {
        self.state = AgentState::Waiting;
    }

    fn ponder(&mut self) {
        self.state = AgentState::Ponder;
    }
}

/// Plays one move of `player` on `board`, which is stored from White's
/// point of view: `agent` is shown the board from the side of `player`,
/// told to go and asked for its move.  Returns the player who moves next.
pub fn single_ply<A: Agent>(board: &mut Board, agent: &mut A, player: Player) -> (next: Player)
    requires
        old(board).wf(),
        old(board).fits(),
        old(board)@.has_legal_move(),
        old(agent).wf(),
    ensures
        final(board).wf(),
        final(board).fits(),
        final(board).h_spec() == old(board).h_spec(),
        final(board)@.total() == old(board)@.total(),
        final(agent).wf(),
        exists|m: Move|
            m.player_spec() == player && old(board)@.is_legal(m) && final(board)@ == old(
                board,
            )@.play(m) && next == (if old(board)@.moves_again(m) {
                player
            } else {
                player.other()
            }),
{
    proof {
        board.lemma_wf();
        lemma_flip(board@);
        lemma_flip(board@.flip());
    }
    match player {
        Player::White => agent.update_board(board),
        Player::Black => {
            board.flip_board();
            agent.update_board(board);
            board.flip_board();
        },
    }
    agent.go();
    let mut player_move = agent.get_current_best_move();
    agent.stop();
    if player == Player::Black {
        player_move = player_move.flip_player();
    }
    proof {
        board.lemma_wf();
        assert(board@ == old(board)@);
        assert(board@.is_legal(player_move));
        lemma_play(board@, player_move);
    }
    let moves_again = board.apply_move(player_move);
    if moves_again {
        player
    } else {
        player.opponent()
    }
}

/// Whether the legal move `m` leads from `mid`, where the game is not
/// over, to `to`, with `next` to move there.
pub open spec fn leads_to(mid: Position, m: Move, to: Position, next: Player) -> bool {
    &&& mid.has_legal_move()
    &&& mid.is_legal(m)
    &&& to == mid.play(m)
    &&& next == if mid.moves_again(m) {
        m.player_spec()
    } else {
        m.player_spec().other()
    }
}

/// Whether `to` is reached from `from` by `n` legal moves, White moving
/// first and the turn passing as the rules say, with `next` to move in
/// `to`.  No move is made once the game is over.
pub open spec fn played(from: Position, to: Position, next: Player, n: nat) -> bool
    decreases n,
{
    if n == 0 {
        to == from && next == Player::White
    } else {
        exists|mid: Position, m: Move|
            played(from, mid, m.player_spec(), (n - 1) as nat) && #[trigger] leads_to(
                mid,
                m,
                to,
                next,
            )
    }
}

/// Plays random moves on `board`, White first: `num_moves` of them, or
/// fewer if the game is over before.
pub fn advance_random(h: u8, s: u16, board: &mut Board, num_moves: usize)
    requires
        h <= 128,
        old(board).wf(),
        old(board).fits(),
    ensures
        final(board).wf(),
        final(board).h_spec() == old(board).h_spec(),
        final(board)@.total() == old(board)@.total(),
        exists|n: nat, next: Player| #[trigger]
            played(old(board)@, final(board)@, next, n) && n <= num_moves && (n == num_moves
                || !final(board)@.has_legal_move()),
{
    let mut current_player = Player::White;
    let mut random_agent = RandomAgent::new(h, s);
    let mut i: usize = 0;
    while i < num_moves
        invariant
            i <= num_moves,
            board.wf(),
            board.fits(),
            board.h_spec() == old(board).h_spec(),
            board@.total() == old(board)@.total(),
            random_agent.wf(),
            played(old(board)@, board@, current_player, i as nat),
        decreases num_moves - i,
    {
        if !board.has_legal_move() {
            return ;
        }
        let ghost mid = board@;
        let ghost mover = current_player;
        current_player = single_ply(board, &mut random_agent, current_player);
        proof {
            let m = choose|m: Move|
                m.player_spec() == mover && mid.is_legal(m) && board@ == mid.play(m)
                    && current_player == (if mid.moves_again(m) {
                    mover
                } else {
                    mover.other()
                });
            assert(played(old(board)@, mid, m.player_spec(), i as nat));
            assert(leads_to(mid, m, board@, current_player));
        }
        i += 1;
    }
}

/// An agent that has its moves searched for.
///
/// The agent holds the board and the state that it shares with the
/// search.  It does not run the search itself: [`MinimaxAgent::go`]
/// hands out what the search needs, and whoever holds the agent runs
/// [`crate::search::start_search`] with it, on a thread of its own.
pub struct MinimaxAgent {
    state: AgentState,
    board: Board,
    search_state: Option<SharedMinimaxSearchState>,
}

impl MinimaxAgent {
    /// The board is well formed, and while the agent searches it holds a
    /// shared state.
    pub closed spec fn wf(&self) -> bool {
        &&& self.board.wf()
        &&& self.state == AgentState::Go ==> self.search_state is Some
    }

    /// What the agent is doing.
    pub closed spec fn state(&self) -> AgentState {
        self.state
    }

    /// The position that the agent was shown last.
    pub closed spec fn position(&self) -> Position {
        self.board@
    }

    /// An agent that waits, on `board`.
    pub fn new(board: Board) -> (agent: MinimaxAgent)
        requires
            board.wf(),
        ensures
            agent.wf(),
            agent.state() == AgentState::Waiting,
            agent.position() == board@,
    {
        MinimaxAgent { state: AgentState::Waiting, board, search_state: None }
    }

    /// Shows the agent the board, seen by the agent as the side to move.
    pub fn update_board(&mut self, board: &Board)
        requires
            old(self).wf(),
            board.wf(),
        ensures
            final(self).wf(),
            final(self).position() == board@,
            final(self).state() == old(self).state(),
    {
        self.board = board.clone();
    }

    /// What the agent is doing.
    pub fn get_state(&self) -> (s: AgentState)
        ensures
            s == self.state(),
    {
        self.state
    }

    /// Begins a search: the agent makes a fresh shared state, with its
    /// first legal move as the move to fall back on, and hands out the
    /// board to search together with a handle on that state.
    pub fn go(&mut self) -> (job: (Board, SharedMinimaxSearchState))
        requires
            old(self).wf(),
            old(self).position().has_legal_move(),
        ensures
            final(self).wf(),
            final(self).state() == AgentState::Go,
            final(self).position() == old(self).position(),
            job.0.wf(),
            job.0@ == old(self).position(),
    {
        let fallback_move = first_legal_move(&self.board);
        let search_state = new_shared_minimax_search_state(true, fallback_move);
        let handle = share(&search_state);
        self.state = AgentState::Go;
        self.search_state = Some(search_state);
        (self.board.clone(), handle)
    }

    /// The best move that the search has published by now.  Once the
    /// search has ended by itself the agent waits again.
    pub fn get_current_best_move(&mut self) -> (m: Move)
        requires
            old(self).wf(),
            old(self).state() == AgentState::Go,
        ensures
            final(self).wf(),
            final(self).position() == old(self).position(),
            final(self).state() == AgentState::Go || final(self).state() == AgentState::Waiting,
    {
        let search_state = self.search_state.as_ref().unwrap();
        let active = search_is_active(search_state);
        let m = read_best_move(search_state);
        self.take_reading(active, m)
    }

    /// Takes note of what was read from the shared state: the agent goes
    /// on searching while the search is active there and waits again once
    /// it is not.  Returns the move that was read.
    pub fn take_reading(&mut self, active: bool, best_move: Move) -> (m: Move)
        requires
            old(self).wf(),
            old(self).state() == AgentState::Go,
        ensures
            final(self).wf(),
            final(self).position() == old(self).position(),
            final(self).state() == if active {
                AgentState::Go
            } else {
                AgentState::Waiting
            },
            m == best_move,
    {
        if !active {
            self.state = AgentState::Waiting;
        }
        best_move
    }

    /// The line of play that the search has published by now; empty
    /// unless the search keeps one and has finished a depth.
    pub fn get_current_line(&self) -> (line: Line)
        requires
            self.wf(),
            self.state() == AgentState::Go,
    {
        read_line(self.search_state.as_ref().unwrap())
    }

    /// Calls the search off and lets go of the shared state.
    pub fn stop(&mut self)
        requires
            old(self).wf(),
        ensures
            final(self).wf(),
            final(self).state() == AgentState::Waiting,
            final(self).position() == old(self).position(),
    {
        self.state = AgentState::Waiting;
        match &self.search_state {
            Some(search_state) => set_inactive(search_state),
            None => {},
        }
        self.search_state = None;
    }
}

} // verus!
