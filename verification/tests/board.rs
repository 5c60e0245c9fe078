use kalah::board::Board;
use kalah::moves::{Move, Player};

fn board_with(ours: &[u16], theirs: &[u16], our_store: u16, their_store: u16) -> Board {
    Board::from_parts(
        ours.len() as u8,
        ours.to_vec(),
        theirs.to_vec(),
        our_store,
        their_store,
        false,
    )
}

fn total(board: &Board) -> u32 {
    board.our_houses().iter().map(|&x| x as u32).sum::<u32>()
        + board.their_houses().iter().map(|&x| x as u32).sum::<u32>()
        + board.our_store() as u32
        + board.their_store() as u32
}

#[test]
fn test_board_new() {
    let h = 6;
    let s = 4;

    let board = Board::new(h, s);

    assert!(board.h() == h);

    for our_house in board.our_houses() {
        assert!(*our_house == s);
    }

    for their_house in board.their_houses() {
        assert!(*their_house == s);
    }
}

#[test]
fn board_test_board_new() {
    let h = 6;
    let s = 4;

    let board = Board::new(h, s);

    assert!(board.h() == h);

    for our_house in board.our_houses() {
        assert!(*our_house == s);
    }

    for their_house in board.their_houses() {
        assert!(*their_house == s);
    }
}

#[test]
fn test_board_flip() {
    let mut board = Board::new(6, 4);

    for (i, our_house) in board.our_houses_mut().iter_mut().enumerate() {
        *our_house = i as u16;
    }

    for (i, their_house) in board.their_houses_mut().iter_mut().enumerate() {
        *their_house = i as u16 + 10;
    }

    board.our_store = 42;
    board.their_store = 24;

    board.flip_board();

    for (i, our_house) in board.our_houses().iter().enumerate() {
        assert!(*our_house == i as u16 + 10);
    }

    for (i, their_house) in board.their_houses().iter().enumerate() {
        assert!(*their_house == i as u16);
    }

    assert!(board.our_store == 24);
    assert!(board.their_store == 42);
}

#[test]
fn board_test_board_flip() {
    let mut board = Board::new(6, 4);

    for (i, our_house) in board.our_houses_mut().iter_mut().enumerate() {
        *our_house = i as u16;
    }

    for (i, their_house) in board.their_houses_mut().iter_mut().enumerate() {
        *their_house = i as u16 + 10;
    }

    board.our_store = 42;
    board.their_store = 24;

    board.flip_board();

    for (i, our_house) in board.our_houses().iter().enumerate() {
        assert!(*our_house == i as u16 + 10);
    }

    for (i, their_house) in board.their_houses().iter().enumerate() {
        assert!(*their_house == i as u16);
    }

    assert!(board.our_store == 24);
    assert!(board.their_store == 42);
}

#[test]
fn new_board_has_empty_stores_and_first_player_to_move() {
    let board = Board::new(3, 2);
    assert_eq!(board.our_store(), 0);
    assert_eq!(board.their_store(), 0);
    assert!(!board.flipped());
    assert_eq!(board.our_houses(), &[2, 2, 2]);
    assert_eq!(board.their_houses(), &[2, 2, 2]);
}

#[test]
fn board_with_128_houses_is_accepted() {
    let board = Board::new(128, 1);
    assert_eq!(board.h(), 128);
    assert_eq!(board.our_houses().len(), 128);
    assert_eq!(board.their_houses().len(), 128);
}

#[test]
fn move_keeps_house_and_player() {
    let m = Move::new(5, Player::Black);
    assert_eq!(m.house(), 5);
    assert_eq!(m.player(), Player::Black);
    let w = Move::new(127, Player::White);
    assert_eq!(w.house(), 127);
    assert_eq!(w.player(), Player::White);
    assert_eq!(w.display_number(), 128);
}

#[test]
fn flip_player_keeps_house_and_swaps_player() {
    let m = Move::new(3, Player::White);
    let f = m.flip_player();
    assert_eq!(f.house(), 3);
    assert_eq!(f.player(), Player::Black);
    assert_eq!(f.flip_player(), m);
    assert_eq!(Player::White.opponent(), Player::Black);
    assert_eq!(Player::Black.opponent(), Player::White);
}

#[test]
fn sowing_two_seeds_fills_the_next_two_houses() {
    let mut board = Board::new(3, 2);
    let again = board.apply_move(Move::new(0, Player::White));
    assert!(!again);
    assert_eq!(board.our_houses(), &[0, 3, 3]);
    assert_eq!(board.their_houses(), &[2, 2, 2]);
    assert_eq!(board.our_store(), 0);
    assert_eq!(board.their_store(), 0);
}

#[test]
fn last_seed_in_empty_house_captures_opposite_house() {
    let mut board = board_with(&[1, 0, 2], &[2, 2, 2], 0, 0);
    let again = board.apply_move(Move::new(0, Player::White));
    assert!(!again);
    assert_eq!(board.our_houses(), &[0, 0, 2]);
    assert_eq!(board.their_houses(), &[2, 0, 2]);
    assert_eq!(board.our_store(), 3);
    assert_eq!(board.their_store(), 0);
}

#[test]
fn last_seed_in_own_store_gives_extra_turn() {
    let mut board = board_with(&[0, 0, 1], &[2, 2, 2], 4, 1);
    let again = board.apply_move(Move::new(2, Player::White));
    assert!(again);
    assert_eq!(board.our_houses(), &[0, 0, 0]);
    assert_eq!(board.our_store(), 5);
    // the mover has no seed left to move: the game is finished
    assert_eq!(board.their_houses(), &[0, 0, 0]);
    assert_eq!(board.their_store(), 7);
    assert!(!board.has_legal_move());
}

#[test]
fn no_capture_when_opposite_house_is_empty() {
    let mut board = board_with(&[1, 0, 2], &[2, 0, 2], 0, 0);
    let again = board.apply_move(Move::new(0, Player::White));
    assert!(!again);
    assert_eq!(board.our_houses(), &[0, 1, 2]);
    assert_eq!(board.their_houses(), &[2, 0, 2]);
    assert_eq!(board.our_store(), 0);
}

#[test]
fn sowing_passes_own_store_and_opponent_houses() {
    let mut board = board_with(&[0, 0, 5], &[1, 1, 1], 0, 0);
    let again = board.apply_move(Move::new(2, Player::White));
    assert!(!again);
    // store, three houses of the opponent, then our first house,
    // which was empty and captures the house opposite to it
    assert_eq!(board.our_houses(), &[0, 0, 0]);
    assert_eq!(board.our_store(), 1 + 1 + 2);
    // our side is empty: the rest is swept into the opponent's store
    assert_eq!(board.their_houses(), &[0, 0, 0]);
    assert_eq!(board.their_store(), 4);
}

#[test]
fn a_full_round_puts_one_seed_in_every_pit() {
    // 7 seeds in a ring of 7 pits: one each, the last in the house they came from
    let mut board = board_with(&[7, 1, 1], &[1, 1, 0], 0, 0);
    let before = total(&board);
    let again = board.apply_move(Move::new(0, Player::White));
    assert!(!again);
    // the last seed lands in house 0, now alone, opposite their house 2,
    // which holds the one seed it has just got: capture
    assert_eq!(board.our_houses(), &[0, 2, 2]);
    assert_eq!(board.their_houses(), &[2, 2, 0]);
    assert_eq!(board.our_store(), 1 + 2);
    assert_eq!(total(&board), before);
}

#[test]
fn many_rounds_are_sown_arithmetically() {
    let mut board = board_with(&[0, 16, 0], &[0, 0, 3], 0, 0);
    let before = total(&board);
    let again = board.apply_move(Move::new(1, Player::White));
    // 16 seeds, ring of 7: two full rounds and two seeds more
    assert!(again);
    assert_eq!(board.our_houses(), &[2, 2, 3]);
    assert_eq!(board.their_houses(), &[2, 2, 5]);
    assert_eq!(board.our_store(), 3);
    assert_eq!(total(&board), before);
}

#[test]
fn move_of_black_is_played_on_their_houses() {
    let mut board = Board::new(3, 2);
    let again = board.apply_move(Move::new(1, Player::Black));
    assert!(again);
    assert_eq!(board.our_houses(), &[2, 2, 2]);
    assert_eq!(board.their_houses(), &[2, 0, 3]);
    assert_eq!(board.their_store(), 1);
    assert_eq!(board.our_store(), 0);
    assert!(!board.flipped());
}

#[test]
fn every_legal_move_conserves_seeds() {
    for h in 1..=4u8 {
        for s in 0..=9u16 {
            let start = Board::new(h, s);
            let mut frontier = vec![start];
            for _round in 0..3 {
                let mut next_frontier = Vec::new();
                for board in &frontier {
                    for player in [Player::White, Player::Black] {
                        for m in board.legal_moves(player) {
                            let mut b = board.clone();
                            let before = total(&b);
                            b.apply_move(m);
                            assert_eq!(total(&b), before);
                            next_frontier.push(b);
                        }
                    }
                }
                frontier = next_frontier;
                frontier.truncate(50);
            }
        }
    }
}

#[test]
fn finish_game_sweeps_houses_into_stores() {
    let mut board = board_with(&[1, 2, 3], &[4, 5, 6], 10, 20);
    board.finish_game();
    assert_eq!(board.our_houses(), &[0, 0, 0]);
    assert_eq!(board.their_houses(), &[0, 0, 0]);
    assert_eq!(board.our_store(), 16);
    assert_eq!(board.their_store(), 35);
}

#[test]
fn flipping_twice_gives_the_board_back() {
    let mut board = board_with(&[1, 2, 3], &[4, 5, 6], 7, 8);
    board.flip_board();
    assert!(board.flipped());
    assert_eq!(board.our_houses(), &[4, 5, 6]);
    assert_eq!(board.their_houses(), &[1, 2, 3]);
    assert_eq!(board.our_store(), 8);
    assert_eq!(board.their_store(), 7);
    board.flip_board();
    assert!(!board.flipped());
    assert_eq!(board.our_houses(), &[1, 2, 3]);
    assert_eq!(board.their_houses(), &[4, 5, 6]);
    assert_eq!(board.our_store(), 7);
    assert_eq!(board.their_store(), 8);
}

#[test]
fn legal_moves_are_the_houses_with_seeds() {
    let board = board_with(&[0, 2, 0, 1], &[3, 0, 0, 0], 0, 0);
    let white = board.legal_moves(Player::White);
    assert_eq!(white, vec![Move::new(1, Player::White), Move::new(3, Player::White)]);
    let black = board.legal_moves(Player::Black);
    assert_eq!(black, vec![Move::new(0, Player::Black)]);
    assert!(board.is_legal_move(Move::new(1, Player::White)));
    assert!(!board.is_legal_move(Move::new(0, Player::White)));
    assert!(board.is_legal_move(Move::new(0, Player::Black)));
    assert!(!board.is_legal_move(Move::new(3, Player::Black)));
    assert!(board.has_legal_move());
}

#[test]
fn no_legal_move_when_one_side_is_empty() {
    let board = board_with(&[0, 0], &[3, 1], 0, 0);
    assert!(!board.has_legal_move());
    let board = board_with(&[1, 0], &[0, 0], 0, 0);
    assert!(!board.has_legal_move());
}

#[test]
fn clone_from_copies_every_pit() {
    let source = board_with(&[1, 2, 3], &[4, 5, 6], 7, 8);
    let mut target = Board::new(3, 0);
    target.clone_from(&source);
    assert_eq!(target.our_houses(), &[1, 2, 3]);
    assert_eq!(target.their_houses(), &[4, 5, 6]);
    assert_eq!(target.our_store(), 7);
    assert_eq!(target.their_store(), 8);
    assert_eq!(target.flipped(), source.flipped());
}

#[test]
fn not_gives_the_other_player() {
    assert_eq!(!Player::White, Player::Black);
    assert_eq!(!Player::Black, Player::White);
    assert_eq!(Player::White.name(), "White");
    assert_eq!(Player::Black.name(), "Black");
}

#[test]
fn seeds_of_a_board_are_counted() {
    assert_eq!(Board::new(6, 4).total_seeds(), 48);
    assert_eq!(Board::new(128, 65535).total_seeds(), 256 * 65535);
    let board = board_with(&[1, 2, 3], &[4, 5, 6], 65535, 65535);
    assert_eq!(board.total_seeds(), 21 + 2 * 65535);
    assert_eq!(Board::new(0, 9).total_seeds(), 0);
}

#[test]
fn board_with_more_than_128_houses_is_refused() {
    assert!(Board::try_new(128, 3).is_some());
    assert!(Board::try_new(129, 3).is_none());
    assert!(Board::try_new(255, 0).is_none());
    let board = Board::try_new(2, 5).unwrap();
    assert_eq!(board.our_houses(), &[5, 5]);
    assert_eq!(board.their_houses(), &[5, 5]);
}

#[test]
fn illegal_move_is_refused_and_leaves_the_board() {
    let mut board = board_with(&[1, 0, 2], &[2, 2, 2], 0, 0);
    // an empty house
    assert_eq!(board.try_apply_move(Move::new(1, Player::White)), None);
    // a house that the board has not
    assert_eq!(board.try_apply_move(Move::new(3, Player::White)), None);
    assert_eq!(board.try_apply_move(Move::new(127, Player::Black)), None);
    assert_eq!(board.our_houses(), &[1, 0, 2]);
    assert_eq!(board.their_houses(), &[2, 2, 2]);
    // a legal move
    assert_eq!(board.try_apply_move(Move::new(0, Player::White)), Some(false));
    assert_eq!(board.our_store(), 3);
    // more seeds than a pit can hold
    let mut crowded = board_with(&[65535, 1], &[1, 1], 0, 0);
    assert_eq!(crowded.try_apply_move(Move::new(1, Player::White)), None);
    assert_eq!(crowded.our_houses(), &[65535, 1]);
}

#[test]
fn board_may_hold_as_many_seeds_as_a_pit_can_count() {
    let mut board = board_with(&[65533, 0], &[1, 0], 1, 0);
    assert_eq!(board.total_seeds(), 65535);
    let again = board.apply_move(Move::new(0, Player::White));
    // 65533 seeds round a ring of 5 pits: 13106 rounds and 3 seeds more
    assert!(!again);
    assert_eq!(board.our_houses(), &[13106, 13107]);
    assert_eq!(board.our_store(), 1 + 13107);
    assert_eq!(board.their_houses(), &[1 + 13107, 13106]);
    assert_eq!(board.total_seeds(), 65535);
}
