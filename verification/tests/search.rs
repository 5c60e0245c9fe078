use kalah::board::Board;
use kalah::evaluation::{SeedDiff, StoreDiff};
use kalah::line::Line;
use kalah::moves::{Move, Player};
use kalah::pvs::{extend_pv, pvs_search, start_pvs_search};
use kalah::search::{
    alpha_beta_search, full_width_search, search_to_depth, start_search, MAX_DEPTH,
};
use kalah::state::{new_shared_minimax_search_state, MinimaxSearchState, Unwatched};
use kalah::valuation::Valuation;
use kalah::valuation::Valuation::{NonTerminal, TerminalBlackWin, TerminalDraw, TerminalWhiteWin};

const LOWEST: Valuation = TerminalBlackWin { plies: 0 };
const HIGHEST: Valuation = TerminalWhiteWin { plies: 0 };

fn white(house: u8) -> Move {
    Move::new(house, Player::White)
}

fn some_boards() -> Vec<Board> {
    vec![
        Board::new(1, 1),
        Board::new(2, 1),
        Board::new(2, 2),
        Board::new(3, 2),
        Board::new(3, 3),
        Board::from_parts(3, vec![1, 0, 2], vec![2, 2, 2], 0, 0, false),
        Board::from_parts(3, vec![0, 0, 1], vec![1, 0, 0], 4, 3, false),
        Board::from_parts(2, vec![0, 0], vec![1, 1], 4, 3, false),
        Board::from_parts(4, vec![9, 0, 1, 3], vec![0, 0, 0, 5], 2, 7, false),
    ]
}

#[test]
fn depth_zero_is_the_heuristic() {
    let state = new_shared_minimax_search_state(true, white(0));
    let board = Board::from_parts(2, vec![1, 2], vec![3, 9], 5, 7, false);
    let found = alpha_beta_search(&StoreDiff, &board, 0, LOWEST, HIGHEST, true, &state);
    assert_eq!(found, Some((None, NonTerminal { value: -2 })));
    assert_eq!(full_width_search(&SeedDiff, &board, 0), (None, NonTerminal { value: -11 }));
}

#[test]
fn finished_game_is_a_leaf_at_any_depth() {
    let state = new_shared_minimax_search_state(true, white(0));
    let board = Board::from_parts(2, vec![0, 0], vec![0, 0], 5, 3, false);
    let found = alpha_beta_search(&StoreDiff, &board, 7, LOWEST, HIGHEST, true, &state);
    assert_eq!(found, Some((None, TerminalWhiteWin { plies: 0 })));
    assert_eq!(full_width_search(&StoreDiff, &board, 7), (None, TerminalWhiteWin { plies: 0 }));
}

#[test]
fn single_house_game_is_a_draw_in_one_ply() {
    let state = new_shared_minimax_search_state(true, white(0));
    let board = Board::new(1, 1);
    for depth in 1..6 {
        let found = alpha_beta_search(&StoreDiff, &board, depth, LOWEST, HIGHEST, true, &state);
        assert_eq!(found, Some((Some(white(0)), TerminalDraw { plies: 1 })));
    }
}

#[test]
fn capture_is_the_best_move_at_depth_one() {
    let state = new_shared_minimax_search_state(true, white(0));
    let board = Board::from_parts(3, vec![1, 0, 2], vec![2, 2, 2], 0, 0, false);
    let found = alpha_beta_search(&StoreDiff, &board, 1, LOWEST, HIGHEST, true, &state);
    assert_eq!(found, Some((Some(white(0)), NonTerminal { value: 3 })));
    assert_eq!(
        full_width_search(&StoreDiff, &board, 1),
        (Some(white(0)), NonTerminal { value: 3 })
    );
}

#[test]
fn extra_turn_is_followed_at_the_same_depth() {
    let state = new_shared_minimax_search_state(true, white(0));
    let board = Board::new(2, 1);
    let found = alpha_beta_search(&StoreDiff, &board, 1, LOWEST, HIGHEST, true, &state);
    assert_eq!(found, Some((Some(white(1)), TerminalWhiteWin { plies: 2 })));
    let found = alpha_beta_search(&StoreDiff, &board, 2, LOWEST, HIGHEST, true, &state);
    assert_eq!(found, Some((Some(white(1)), TerminalWhiteWin { plies: 2 })));
}

#[test]
fn of_equal_values_the_later_move_is_kept() {
    let state = new_shared_minimax_search_state(true, white(0));
    // either move sows into own houses only and leaves the stores alone
    let board = Board::from_parts(3, vec![1, 1, 0], vec![0, 0, 5], 0, 0, false);
    let found = alpha_beta_search(&StoreDiff, &board, 1, LOWEST, HIGHEST, true, &state);
    assert_eq!(found, Some((Some(white(1)), NonTerminal { value: 0 })));
}

#[test]
fn search_without_pruning_is_the_plain_search() {
    let state = new_shared_minimax_search_state(true, white(0));
    for board in some_boards() {
        for depth in 0..5 {
            let plain = full_width_search(&StoreDiff, &board, depth);
            let unpruned =
                alpha_beta_search(&StoreDiff, &board, depth, LOWEST, HIGHEST, false, &state);
            assert_eq!(unpruned, Some(plain));
            // whatever the window
            let narrow = alpha_beta_search(
                &StoreDiff,
                &board,
                depth,
                NonTerminal { value: 1 },
                NonTerminal { value: 2 },
                false,
                &state,
            );
            assert_eq!(narrow, Some(plain));
            let plain = full_width_search(&SeedDiff, &board, depth);
            let unpruned =
                alpha_beta_search(&SeedDiff, &board, depth, LOWEST, HIGHEST, false, &state);
            assert_eq!(unpruned, Some(plain));
        }
    }
}

#[test]
fn best_move_is_a_legal_move() {
    let state = new_shared_minimax_search_state(true, white(0));
    for board in some_boards() {
        for depth in 1..5 {
            let (best, _) =
                alpha_beta_search(&StoreDiff, &board, depth, LOWEST, HIGHEST, true, &state)
                    .unwrap();
            if board.has_legal_move() {
                assert!(board.is_legal_move(best.unwrap()));
            } else {
                assert_eq!(best, None);
            }
        }
    }
}

#[test]
fn search_that_is_not_wanted_gives_up() {
    let state = new_shared_minimax_search_state(false, white(2));
    let board = Board::new(3, 2);
    assert_eq!(alpha_beta_search(&StoreDiff, &board, 3, LOWEST, HIGHEST, true, &state), None);
    assert!(start_search(&StoreDiff, &board, &mut state.clone()).is_none());
    let mut line = Line::new();
    assert_eq!(pvs_search(&StoreDiff, &board, 3, LOWEST, HIGHEST, &mut line, &state), None);
    assert!(start_pvs_search(&StoreDiff, &board, &mut state.clone()).is_none());
    // the move to fall back on is still there
    assert_eq!(state.lock().unwrap().current_best_move, white(2));
    assert!(!state.lock().unwrap().search_active);
}

#[test]
fn deepening_search_stops_at_a_proven_win() {
    let state = new_shared_minimax_search_state(true, white(0));
    let board = Board::new(2, 1);
    let done = start_search(&StoreDiff, &board, &mut state.clone()).unwrap();
    assert_eq!(done.depth, 1);
    assert_eq!(done.best_move, white(1));
    assert_eq!(done.value, TerminalWhiteWin { plies: 2 });
    assert_eq!(state.lock().unwrap().current_best_move, white(1));
    assert!(!state.lock().unwrap().search_active);
}

#[test]
fn deepening_search_of_a_drawn_game_runs_to_the_deepest_depth() {
    let state = new_shared_minimax_search_state(true, white(0));
    let board = Board::new(1, 1);
    let done = start_search(&StoreDiff, &board, &mut state.clone()).unwrap();
    assert_eq!(done.depth, MAX_DEPTH);
    assert_eq!(done.best_move, white(0));
    assert_eq!(done.value, TerminalDraw { plies: 1 });
    assert!(!state.lock().unwrap().search_active);
}

#[test]
fn deepening_search_goes_on_after_a_proven_loss() {
    let state = new_shared_minimax_search_state(true, white(0));
    // the only move ends the game two seeds behind
    let board = Board::from_parts(2, vec![0, 1], vec![0, 1], 0, 2, false);
    let done = start_search(&StoreDiff, &board, &mut state.clone()).unwrap();
    assert_eq!(done.depth, MAX_DEPTH);
    assert_eq!(done.best_move, white(1));
    assert_eq!(done.value, TerminalBlackWin { plies: 1 });
}

#[test]
fn principal_variation_is_the_expected_line_of_play() {
    let state = new_shared_minimax_search_state(true, white(0));
    let board = Board::new(2, 1);
    let mut line = Line::new();
    let value = pvs_search(&StoreDiff, &board, 2, LOWEST, HIGHEST, &mut line, &state);
    assert_eq!(value, Some(TerminalWhiteWin { plies: 2 }));
    assert_eq!(line.to_vec(), vec![white(1), white(0)]);

    let board = Board::from_parts(3, vec![1, 0, 2], vec![2, 2, 2], 0, 0, false);
    let value = pvs_search(&StoreDiff, &board, 1, LOWEST, HIGHEST, &mut line, &state);
    assert_eq!(value, Some(NonTerminal { value: 3 }));
    assert_eq!(line.to_vec(), vec![white(0)]);

    let value = pvs_search(&StoreDiff, &board, 0, LOWEST, HIGHEST, &mut line, &state);
    assert_eq!(value, Some(NonTerminal { value: 0 }));
    assert_eq!(line.len(), 0);
}

#[test]
fn principal_variation_search_finds_the_value_of_alpha_beta() {
    let state = new_shared_minimax_search_state(true, white(0));
    for board in some_boards() {
        for depth in 0..5 {
            let mut line = Line::new();
            let value =
                pvs_search(&StoreDiff, &board, depth, LOWEST, HIGHEST, &mut line, &state).unwrap();
            let (_, expected) =
                alpha_beta_search(&StoreDiff, &board, depth, LOWEST, HIGHEST, true, &state)
                    .unwrap();
            assert_eq!(value, expected);
            if depth > 0 && board.has_legal_move() {
                assert!(board.is_legal_move(line.best_move().unwrap()));
            } else {
                assert_eq!(line.len(), 0);
            }
            // the line can be played move by move
            let mut b = board.clone();
            for m in line.to_vec() {
                assert!(b.is_legal_move(m));
                if !b.apply_move(m) {
                    b.flip_board();
                }
            }
        }
    }
}

#[test]
fn line_is_extended_by_the_move_expected_at_its_end() {
    let state = new_shared_minimax_search_state(true, white(0));
    let board = Board::from_parts(3, vec![1, 0, 2], vec![2, 2, 2], 0, 0, false);
    let mut pv = Line::new();
    // from the empty line: the best move at depth one
    let value = extend_pv(&StoreDiff, &board, &mut pv, &state);
    assert_eq!(value, Some(NonTerminal { value: 3 }));
    assert_eq!(pv.to_vec(), vec![white(0)]);
    // then the reply of the opponent, who sees [2, 0, 2] against [0, 0, 2]
    // and three seeds in the other store: house 2 sows its second seed
    // into its own store
    let value = extend_pv(&StoreDiff, &board, &mut pv, &state);
    assert_eq!(pv.len(), 2);
    assert_eq!(pv.get(0), white(0));
    assert_eq!(pv.get(1), white(2));
    assert_eq!(value, Some(NonTerminal { value: -2 }));
}

#[test]
fn deepening_principal_variation_search_stops_at_a_proven_win() {
    let state = new_shared_minimax_search_state(true, white(0));
    let board = Board::new(2, 1);
    let done = start_pvs_search(&StoreDiff, &board, &mut state.clone()).unwrap();
    assert_eq!(done.depth, 1);
    assert_eq!(done.value, TerminalWhiteWin { plies: 2 });
    assert_eq!(done.line.to_vec(), vec![white(1), white(0)]);
    let published = state.lock().unwrap();
    assert_eq!(published.current_best_move, white(1));
    assert_eq!(published.principal_variation.to_vec(), vec![white(1), white(0)]);
    assert!(!published.search_active);
}

#[test]
fn deepening_principal_variation_search_ends_at_the_length_of_a_line() {
    let state = new_shared_minimax_search_state(true, white(0));
    let board = Board::new(1, 1);
    let done = start_pvs_search(&StoreDiff, &board, &mut state.clone()).unwrap();
    assert_eq!(done.depth, 100);
    assert_eq!(done.value, TerminalDraw { plies: 1 });
    assert_eq!(done.line.to_vec(), vec![white(0)]);
    assert!(!state.lock().unwrap().search_active);
}

#[test]
fn search_that_nobody_watches_always_finds_its_value() {
    for board in some_boards() {
        for depth in 0..5 {
            let state = new_shared_minimax_search_state(true, white(0));
            let free = alpha_beta_search(&StoreDiff, &board, depth, LOWEST, HIGHEST, true, &Unwatched);
            let watched = alpha_beta_search(&StoreDiff, &board, depth, LOWEST, HIGHEST, true, &state);
            assert!(free.is_some());
            assert_eq!(free, watched);
            let mut free_line = Line::new();
            let mut watched_line = Line::new();
            let free =
                pvs_search(&StoreDiff, &board, depth, LOWEST, HIGHEST, &mut free_line, &Unwatched);
            let watched =
                pvs_search(&StoreDiff, &board, depth, LOWEST, HIGHEST, &mut watched_line, &state);
            assert!(free.is_some());
            assert_eq!(free, watched);
            assert_eq!(free_line.to_vec(), watched_line.to_vec());
        }
    }
    let mut pv = Line::new();
    assert!(extend_pv(&StoreDiff, &Board::new(3, 3), &mut pv, &Unwatched).is_some());
    assert!(pv.len() >= 1);
}

#[test]
fn pruning_finds_a_value_that_is_neither_better_nor_worse() {
    for board in some_boards() {
        for depth in 0..5 {
            let (_, plain) = full_width_search(&StoreDiff, &board, depth);
            let (_, pruned) =
                alpha_beta_search(&StoreDiff, &board, depth, LOWEST, HIGHEST, true, &Unwatched)
                    .unwrap();
            assert!(!(pruned < plain) && !(pruned > plain), "{} depth {}", board.to_kgp(), depth);
        }
    }
    // a draw in sight and an open game of value zero are such a pair
    let board = Board::new(3, 2);
    let (_, plain) = full_width_search(&StoreDiff, &board, 4);
    let (_, pruned) =
        alpha_beta_search(&StoreDiff, &board, 4, LOWEST, HIGHEST, true, &Unwatched).unwrap();
    assert_eq!(plain, NonTerminal { value: 0 });
    assert_eq!(pruned, TerminalDraw { plies: 8 });
}

#[test]
fn search_to_a_given_depth_publishes_its_move_and_ends() {
    let state = new_shared_minimax_search_state(true, white(2));
    let board = Board::from_parts(3, vec![1, 0, 2], vec![2, 2, 2], 0, 0, false);
    let done = search_to_depth(&StoreDiff, &board, 1, &mut state.clone()).unwrap();
    assert_eq!(done.depth, 1);
    assert_eq!(done.best_move, white(0));
    assert_eq!(done.value, NonTerminal { value: 3 });
    assert_eq!(state.lock().unwrap().current_best_move, white(0));
    assert!(!state.lock().unwrap().search_active);
    // a search that is not wanted publishes nothing
    let state = new_shared_minimax_search_state(false, white(2));
    assert!(search_to_depth(&StoreDiff, &board, 1, &mut state.clone()).is_none());
    assert_eq!(state.lock().unwrap().current_best_move, white(2));
}

#[test]
fn search_leaves_its_move_in_a_cell_of_its_own() {
    let board = Board::new(2, 1);
    let mut cell = MinimaxSearchState::new(true, white(0));
    let done = start_search(&StoreDiff, &board, &mut cell).unwrap();
    assert_eq!(done.depth, 1);
    assert_eq!(done.value, TerminalWhiteWin { plies: 2 });
    assert_eq!(cell.current_best_move, white(1));
    assert_eq!(cell.current_best_move, done.best_move);
    assert!(!cell.search_active);
    assert_eq!(cell.principal_variation.len(), 0);

    let mut cell = MinimaxSearchState::new(true, white(0));
    let done = start_pvs_search(&StoreDiff, &board, &mut cell).unwrap();
    assert_eq!(done.depth, 1);
    assert_eq!(cell.current_best_move, white(1));
    assert_eq!(cell.principal_variation.to_vec(), vec![white(1), white(0)]);
    assert_eq!(cell.principal_variation.to_vec(), done.line.to_vec());
    assert!(!cell.search_active);

    let board = Board::from_parts(3, vec![1, 0, 2], vec![2, 2, 2], 0, 0, false);
    let mut cell = MinimaxSearchState::new(true, white(2));
    let done = search_to_depth(&StoreDiff, &board, 1, &mut cell).unwrap();
    assert_eq!(done.best_move, white(0));
    assert_eq!(cell.current_best_move, white(0));
    assert!(!cell.search_active);
}

#[test]
fn search_that_runs_to_its_greatest_depth_ends_by_itself() {
    let board = Board::new(1, 1);
    let mut cell = MinimaxSearchState::new(true, white(0));
    let done = start_search(&StoreDiff, &board, &mut cell).unwrap();
    assert_eq!(done.depth, MAX_DEPTH);
    assert!(!cell.search_active);
    let mut cell = MinimaxSearchState::new(true, white(0));
    let done = start_pvs_search(&StoreDiff, &board, &mut cell).unwrap();
    assert_eq!(done.depth, 100);
    assert!(!cell.search_active);
    assert_eq!(cell.principal_variation.to_vec(), vec![white(0)]);
}

#[test]
fn cell_that_is_not_active_stays_as_it_is() {
    let board = Board::new(3, 2);
    let mut cell = MinimaxSearchState::new(false, white(2));
    assert!(start_search(&StoreDiff, &board, &mut cell).is_none());
    assert!(start_pvs_search(&StoreDiff, &board, &mut cell).is_none());
    assert!(search_to_depth(&StoreDiff, &board, 2, &mut cell).is_none());
    assert_eq!(cell.current_best_move, white(2));
    assert_eq!(cell.principal_variation.len(), 0);
    assert!(!cell.search_active);
    assert_eq!(alpha_beta_search(&StoreDiff, &board, 2, LOWEST, HIGHEST, true, &cell), None);
    let mut line = Line::new();
    assert_eq!(pvs_search(&StoreDiff, &board, 2, LOWEST, HIGHEST, &mut line, &cell), None);
    assert_eq!(extend_pv(&StoreDiff, &board, &mut line, &cell), None);
    assert_eq!(line.len(), 0);
    let active = MinimaxSearchState::new(true, white(2));
    assert!(alpha_beta_search(&StoreDiff, &board, 2, LOWEST, HIGHEST, true, &active).is_some());
}

#[test]
fn new_search_state_holds_flag_and_fallback() {
    let cell = MinimaxSearchState::new(true, white(5));
    assert!(cell.search_active);
    assert_eq!(cell.current_best_move, white(5));
    assert_eq!(cell.principal_variation.len(), 0);
    let shared = new_shared_minimax_search_state(false, white(4));
    let held = shared.lock().unwrap();
    assert!(!held.search_active);
    assert_eq!(held.current_best_move, white(4));
    assert_eq!(held.principal_variation.len(), 0);
}
