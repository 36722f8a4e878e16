use reflexer::state_codec::{
    default_hold_ready, piece_from_id, piece_id, GameState, Piece, StateError, HEIGHT, WIDTH,
};

const ALL: [Piece; 7] = [Piece::I, Piece::O, Piece::T, Piece::S, Piece::Z, Piece::J, Piece::L];

fn empty_board() -> Vec<Vec<bool>> {
    vec![vec![false; WIDTH]; HEIGHT]
}

/// A deterministic board with `rows` partly-filled rows at the bottom,
/// each with exactly one hole.
fn holed_board(seed: u64, rows: usize) -> Vec<Vec<bool>> {
    let mut b = empty_board();
    let mut s = seed.wrapping_mul(6364136223846793005).wrapping_add(1442695040888963407);
    for r in HEIGHT - rows..HEIGHT {
        s = s.wrapping_mul(6364136223846793005).wrapping_add(1442695040888963407);
        let hole = ((s >> 33) as usize) % WIDTH;
        for c in 0..WIDTH {
            b[r][c] = c != hole;
        }
    }
    b
}

fn roundtrip(board: &Vec<Vec<bool>>, cur: Piece, next: Piece, held: Option<Piece>) {
    let s = GameState::encode(board, cur, next, held, true, &[Piece::T, Piece::L]);
    let sim = s.to_sim().unwrap();
    assert_eq!(&sim.board, board);
    assert_eq!(sim.cur, cur);
    assert_eq!(sim.next, next);
    assert_eq!(sim.held, held);
    assert!(sim.hold_ready);
    assert_eq!(sim.bag, vec![Piece::T, Piece::L]);
}

#[test]
fn roundtrips_empty_and_garbage_boards_all_pieces() {
    let empty = empty_board();
    for cur in ALL {
        for next in ALL {
            roundtrip(&empty, cur, next, None);
        }
    }
    for seed in 0..8u64 {
        let b = holed_board(seed, 8);
        roundtrip(&b, Piece::T, Piece::I, Some(Piece::Z));
    }
}

#[test]
fn rejects_wrong_shape() {
    let mut s = GameState::encode(&empty_board(), Piece::I, Piece::O, None, true, &[]);
    s.board = vec![];
    assert_eq!(s.to_sim().err(), Some(StateError::Rows(0)));
    s.board = vec!["..........".to_string(); HEIGHT];
    s.cur = "X".into();
    assert_eq!(s.to_sim().err(), Some(StateError::Piece("X".into())));
    s.cur = "I".into();
    s.board[3] = "###".into();
    assert_eq!(s.to_sim().err(), Some(StateError::RowWidth { row: 3, len: 3 }));
    s.board[3] = "xx..##....".into();
    assert_eq!(s.to_sim().err(), Some(StateError::RowChars { row: 3 }));
}

#[test]
fn encode_renders_rows_and_ids() {
    let mut b = empty_board();
    b[HEIGHT - 1][0] = true;
    b[HEIGHT - 1][9] = true;
    let s = GameState::encode(&b, Piece::S, Piece::Z, Some(Piece::J), false, &[Piece::O]);
    assert_eq!(s.board[HEIGHT - 1], "#........#");
    assert_eq!(s.board[0], "..........");
    assert_eq!(s.cur, "S");
    assert_eq!(s.next, "Z");
    assert_eq!(s.held, Some("J".to_string()));
    assert!(!s.hold_ready);
    assert_eq!(s.bag, vec!["O".to_string()]);
}

#[test]
fn width_counts_bytes_and_pieces_are_checked_in_order() {
    let mut s = GameState::encode(&empty_board(), Piece::I, Piece::O, None, true, &[]);
    // ten chars, eleven bytes
    s.board[0] = "é.........".into();
    assert_eq!(s.to_sim().err(), Some(StateError::RowWidth { row: 0, len: 11 }));
    s.board[0] = "..........".into();
    s.next = "Q".into();
    assert_eq!(s.to_sim().err(), Some(StateError::Piece("Q".into())));
    s.next = "O".into();
    s.held = Some("II".into());
    assert_eq!(s.to_sim().err(), Some(StateError::Piece("II".into())));
    s.held = None;
    s.bag = vec!["L".into(), "".into()];
    assert_eq!(s.to_sim().err(), Some(StateError::Piece("".into())));
}

#[test]
fn piece_ids_roundtrip() {
    for p in ALL {
        assert_eq!(piece_from_id(piece_id(p)), Some(p));
    }
    assert_eq!(piece_id(Piece::I), "I");
    assert_eq!(piece_from_id("i"), None);
    assert_eq!(piece_from_id(""), None);
    assert!(default_hold_ready());
}

#[test]
fn state_refusal_texts() {
    assert_eq!(StateError::Rows(3).message(), "board must be 20 rows, got 3");
    assert_eq!(
        StateError::RowWidth { row: 3, len: 4 }.message(),
        "row 3 must be 10 chars, got 4"
    );
    assert_eq!(StateError::RowChars { row: 2 }.message(), "row 2 has chars other than '#'/'.'");
    assert_eq!(
        StateError::Piece("X".into()).message(),
        "unknown piece id \"X\" (want I O T S Z J L)"
    );
}
