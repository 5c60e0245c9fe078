use kalah::board::Board;
use kalah::evaluation::{
    seed_diff_valuation, store_diff_valuation, store_diff_valuation2, Evaluator, SeedDiff,
    StoreDiff, StoreDiffMajority,
};
use kalah::moves::{Move, Player};
use kalah::valuation::Valuation;
use kalah::valuation::Valuation::{NonTerminal, TerminalBlackWin, TerminalDraw, TerminalWhiteWin};

#[test]
fn test_cmp() {
    let nt1 = NonTerminal { value: -5 };
    let nt2 = NonTerminal { value: 5 };

    let ww1 = TerminalWhiteWin { plies: 5 };
    let ww2 = TerminalWhiteWin { plies: 10 };

    let bw1 = TerminalBlackWin { plies: 5 };
    let bw2 = TerminalBlackWin { plies: 10 };

    let draw1 = TerminalDraw { plies: 5 };
    let draw2 = TerminalDraw { plies: 10 };

    assert!(nt1 < nt2);
    assert!(ww1 > ww2);
    assert!(bw1 < bw2);
    assert!(draw1 < draw2);

    assert!(bw1 < nt1);
    assert!(nt1 < draw1);
    assert!(draw1 < nt2);
    assert!(nt2 < ww1);

    assert!(bw1 < draw1);
    assert!(draw1 < ww1);
    assert!(bw1 < ww1);
}

fn samples() -> Vec<Valuation> {
    let mut all = Vec::new();
    for value in [-7, -1, 0, 1, 7] {
        all.push(NonTerminal { value });
    }
    for plies in [0, 1, 5] {
        all.push(TerminalWhiteWin { plies });
        all.push(TerminalBlackWin { plies });
        all.push(TerminalDraw { plies });
    }
    all
}

#[test]
fn comparison_is_total_and_the_same_from_both_sides() {
    for a in samples() {
        for b in samples() {
            assert!(a <= b || b <= a);
            assert_eq!(a < b, b > a);
            assert_eq!(a.is_lt(&b), a < b);
            assert_eq!(a.is_gt(&b), a > b);
            assert_eq!(a.is_le(&b), a <= b);
            assert_eq!(a.is_ge(&b), a >= b);
            assert_eq!(a.partial_cmp(&b).map(|o| o.reverse()), b.partial_cmp(&a));
        }
    }
}

#[test]
fn worse_than_is_transitive() {
    for a in samples() {
        for b in samples() {
            for c in samples() {
                if a < b && b < c {
                    assert!(a < c);
                }
            }
        }
    }
}

#[test]
fn not_better_than_fails_to_be_transitive_only_through_value_zero_between_draws() {
    for a in samples() {
        for b in samples() {
            for c in samples() {
                if a <= b && b <= c && !(a <= c) {
                    assert!(matches!(a, TerminalDraw { .. }));
                    assert_eq!(b, NonTerminal { value: 0 });
                    assert!(matches!(c, TerminalDraw { .. }));
                }
            }
        }
    }
    let long = TerminalDraw { plies: 5 };
    let short = TerminalDraw { plies: 1 };
    let zero = NonTerminal { value: 0 };
    assert!(long <= zero && zero <= short && !(long <= short));
}

#[test]
fn negation_is_an_involution() {
    for v in samples() {
        assert_eq!(v.neg().neg(), v);
    }
    assert_eq!(NonTerminal { value: 3 }.neg(), NonTerminal { value: -3 });
    assert_eq!(TerminalWhiteWin { plies: 4 }.neg(), TerminalBlackWin { plies: 4 });
    assert_eq!(TerminalBlackWin { plies: 4 }.neg(), TerminalWhiteWin { plies: 4 });
    assert_eq!(TerminalDraw { plies: 4 }.neg(), TerminalDraw { plies: 4 });
}

#[test]
fn negation_reverses_the_order_unless_both_are_draws() {
    for a in samples() {
        for b in samples() {
            let both_draws =
                matches!(a, TerminalDraw { .. }) && matches!(b, TerminalDraw { .. });
            if a < b && !both_draws {
                assert!(a.neg() > b.neg());
            }
            if a < b && both_draws {
                assert!(a.neg() < b.neg());
            }
        }
    }
}

#[test]
fn increase_plies_counts_only_proven_results() {
    assert_eq!(NonTerminal { value: 3 }.increase_plies(), NonTerminal { value: 3 });
    assert_eq!(TerminalWhiteWin { plies: 0 }.increase_plies(), TerminalWhiteWin { plies: 1 });
    assert_eq!(TerminalBlackWin { plies: 7 }.increase_plies(), TerminalBlackWin { plies: 8 });
    assert_eq!(TerminalDraw { plies: 2 }.increase_plies(), TerminalDraw { plies: 3 });
}

#[test]
fn open_game_is_valued_by_the_stores() {
    let board = Board::from_parts(2, vec![1, 2], vec![3, 9], 5, 7, false);
    assert_eq!(store_diff_valuation(&board), NonTerminal { value: -2 });
    assert_eq!(seed_diff_valuation(&board), NonTerminal { value: 8 - 19 });
    assert_eq!(store_diff_valuation2(&board), NonTerminal { value: -2 });
    assert_eq!(StoreDiff.evaluate(&board), NonTerminal { value: -2 });
    assert_eq!(SeedDiff.evaluate(&board), NonTerminal { value: -11 });
    assert_eq!(StoreDiffMajority.evaluate(&board), NonTerminal { value: -2 });
}

#[test]
fn a_store_with_more_than_half_of_the_seeds_decides_the_game() {
    // 27 seeds in all, half of them is 13
    let board = Board::from_parts(2, vec![1, 2], vec![3, 1], 14, 6, false);
    assert_eq!(store_diff_valuation2(&board), TerminalWhiteWin { plies: 0 });
    assert_eq!(store_diff_valuation(&board), NonTerminal { value: 8 });
    let board = Board::from_parts(2, vec![1, 2], vec![3, 1], 6, 14, false);
    assert_eq!(store_diff_valuation2(&board), TerminalBlackWin { plies: 0 });
    let board = Board::from_parts(2, vec![1, 2], vec![3, 2], 13, 6, false);
    assert_eq!(store_diff_valuation2(&board), NonTerminal { value: 7 });
}

#[test]
fn finished_game_is_valued_by_the_sign_of_the_store_difference() {
    for (ours, theirs, expected) in [
        (5u16, 3u16, TerminalWhiteWin { plies: 0 }),
        (3, 5, TerminalBlackWin { plies: 0 }),
        (4, 4, TerminalDraw { plies: 0 }),
    ] {
        let board = Board::from_parts(2, vec![0, 0], vec![0, 0], ours, theirs, false);
        assert_eq!(store_diff_valuation(&board), expected);
        assert_eq!(store_diff_valuation2(&board), expected);
        assert_eq!(seed_diff_valuation(&board), expected);
    }
}

#[test]
fn move_that_ends_the_game_leads_to_a_terminal_value() {
    // the mover plays its last seed into its store: its houses are empty,
    // the game is finished and the stores decide
    let mut board = Board::from_parts(3, vec![0, 0, 1], vec![1, 0, 0], 4, 3, false);
    let again = board.apply_move(Move::new(2, Player::White));
    assert!(again);
    assert!(!board.has_legal_move());
    assert_eq!(board.our_store(), 5);
    assert_eq!(board.their_store(), 4);
    assert_eq!(store_diff_valuation(&board), TerminalWhiteWin { plies: 0 });

    let mut board = Board::from_parts(3, vec![0, 0, 1], vec![1, 1, 1], 4, 3, false);
    board.apply_move(Move::new(2, Player::White));
    assert_eq!(board.our_store(), 5);
    assert_eq!(board.their_store(), 6);
    assert_eq!(store_diff_valuation(&board), TerminalBlackWin { plies: 0 });

    let mut board = Board::from_parts(3, vec![0, 0, 1], vec![1, 1, 0], 4, 3, false);
    board.apply_move(Move::new(2, Player::White));
    assert_eq!(board.our_store(), 5);
    assert_eq!(board.their_store(), 5);
    assert_eq!(store_diff_valuation(&board), TerminalDraw { plies: 0 });
    assert_eq!(seed_diff_valuation(&board), TerminalDraw { plies: 0 });
}

#[test]
fn minus_sign_negates_a_value() {
    assert_eq!(-NonTerminal { value: 3 }, NonTerminal { value: -3 });
    assert_eq!(-NonTerminal { value: i32::MAX }, NonTerminal { value: -i32::MAX });
    assert_eq!(-TerminalWhiteWin { plies: 4 }, TerminalBlackWin { plies: 4 });
    assert_eq!(-TerminalBlackWin { plies: 0 }, TerminalWhiteWin { plies: 0 });
    assert_eq!(-TerminalDraw { plies: 9 }, TerminalDraw { plies: 9 });
}

#[test]
fn values_are_written_as_text() {
    assert_eq!(NonTerminal { value: 0 }.to_text(), "0");
    assert_eq!(NonTerminal { value: 17 }.to_text(), "17");
    assert_eq!(NonTerminal { value: -5 }.to_text(), "-5");
    assert_eq!(NonTerminal { value: i32::MIN }.to_text(), "-2147483648");
    assert_eq!(NonTerminal { value: i32::MAX }.to_text(), "2147483647");
    assert_eq!(TerminalWhiteWin { plies: 3 }.to_text(), "WhiteWin(3)");
    assert_eq!(TerminalBlackWin { plies: 0 }.to_text(), "BlackWin(0)");
    assert_eq!(TerminalDraw { plies: 4294967295 }.to_text(), "Draw(4294967295)");
}
