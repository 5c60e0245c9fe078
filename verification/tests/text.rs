use kalah::board::Board;

#[test]
fn test_from_to_kpg() {
    let kpg = "<3, 2, 3, 11, 12, 13, 21, 22, 23>";

    let board = Board::from_kpg(kpg);

    assert_eq!(board.h(), 3);

    assert_eq!(board.our_store(), 2);
    assert_eq!(board.their_store(), 3);

    assert_eq!(board.our_houses(), &[11, 12, 13]);
    assert_eq!(board.their_houses(), &[21, 22, 23]);

    assert_eq!(board.to_kgp(), kpg);
}

#[test]
fn opening_board_is_written_in_full() {
    assert_eq!(Board::new(2, 4).to_kgp(), "<2, 0, 0, 4, 4, 4, 4>");
    assert_eq!(Board::new(0, 4).to_kgp(), "<0, 0, 0>");
}

#[test]
fn large_counts_are_written_in_decimal() {
    let board = Board::from_parts(1, vec![65535], vec![0], 10000, 907, false);
    assert_eq!(board.to_kgp(), "<1, 10000, 907, 65535, 0>");
}

#[test]
fn text_is_written_from_the_side_to_move() {
    let mut board = Board::from_parts(2, vec![1, 2], vec![3, 4], 5, 6, false);
    board.flip_board();
    assert_eq!(board.to_kgp(), "<2, 6, 5, 3, 4, 1, 2>");
}

#[test]
fn white_space_counts_nowhere() {
    let board = Board::parse_kgp(" <2,1 ,\t2,3,4 , 5,6>\n").unwrap();
    assert_eq!(board.h(), 2);
    assert_eq!(board.our_store(), 1);
    assert_eq!(board.their_store(), 2);
    assert_eq!(board.our_houses(), &[3, 4]);
    assert_eq!(board.their_houses(), &[5, 6]);
    assert!(!board.flipped());
    // white space inside a number counts as little as anywhere else
    let board = Board::parse_kgp("<1, 1 0, 2, 3, 4>").unwrap();
    assert_eq!(board.our_store(), 10);
}

#[test]
fn plus_sign_and_leading_zeros_are_read() {
    let board = Board::parse_kgp("<+1, 007, +0, 0000000000000000065535, 4>").unwrap();
    assert_eq!(board.h(), 1);
    assert_eq!(board.our_store(), 7);
    assert_eq!(board.their_store(), 0);
    assert_eq!(board.our_houses(), &[65535]);
    assert_eq!(board.their_houses(), &[4]);
}

#[test]
fn text_that_stands_for_no_board_is_refused() {
    for text in [
        "",
        "<",
        ">",
        "<>",
        "3, 2, 3, 11, 12, 13, 21, 22, 23",
        "<3, 2, 3, 11, 12, 13, 21, 22, 23",
        "3, 2, 3, 11, 12, 13, 21, 22, 23>",
        "<3, 2, 3, 11, 12, 13, 21, 22>",
        "<3, 2, 3, 11, 12, 13, 21, 22, 23, 24>",
        "<3, 2, 3, 11, 12, 13, 21, 22, 23,>",
        "<3, 2, 3, 11, , 13, 21, 22, 23>",
        "<3, 2, 3, 11, -12, 13, 21, 22, 23>",
        "<3, 2, 3, 11, 1x, 13, 21, 22, 23>",
        "<3, 2, 3, 11, ++12, 13, 21, 22, 23>",
        "<3, 2, 3, 11, +, 13, 21, 22, 23>",
        "<1, 65536, 0, 1, 1>",
        "<1, 0, 0, 99999999999999999999, 1>",
        "<129, 0, 0>",
        "<<1, 0, 0, 1, 1>",
        "<1, 0, 0, 1, 1>>",
    ] {
        assert!(Board::parse_kgp(text).is_none(), "{}", text);
    }
}

#[test]
fn board_with_128_houses_is_read() {
    let mut text = String::from("<128, 0, 0");
    for i in 0..256 {
        text.push_str(&format!(", {}", i));
    }
    text.push('>');
    let board = Board::parse_kgp(&text).unwrap();
    assert_eq!(board.h(), 128);
    assert_eq!(board.our_houses()[127], 127);
    assert_eq!(board.their_houses()[0], 128);
    assert_eq!(board.to_kgp(), text);
}

#[test]
fn written_text_is_read_back() {
    for h in 0..5u8 {
        for s in [0u16, 1, 9, 10, 99, 100, 12345, 65535] {
            let mut ours = vec![s; h as usize];
            let theirs = vec![s / 2; h as usize];
            if h > 0 {
                ours[0] = 7;
            }
            let board = Board::from_parts(h, ours.clone(), theirs.clone(), s, s / 3, false);
            let text = board.to_kgp();
            let back = Board::from_kpg(&text);
            assert_eq!(back.h(), h);
            assert_eq!(back.our_houses(), &ours[..]);
            assert_eq!(back.their_houses(), &theirs[..]);
            assert_eq!(back.our_store(), s);
            assert_eq!(back.their_store(), s / 3);
            assert_eq!(back.to_kgp(), text);
        }
    }
}

#[test]
fn board_is_drawn_with_the_houses_of_the_opponent_on_top() {
    assert_eq!(Board::new(2, 4).to_picture(), "  0 |   4   4\n\n        4   4 |   0");
    let board = Board::from_parts(3, vec![1, 20, 300], vec![4000, 5, 66], 7, 12345, false);
    assert_eq!(
        board.to_picture(),
        "12345 |  66   5 4000\n\n        1  20 300 |   7"
    );
    assert_eq!(Board::new(0, 0).to_picture(), "  0 |\n\n      |   0");
}
