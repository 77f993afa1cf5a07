use knucklebones::board::{Board, Die, Move};

#[test]
fn test_dice_add() {
    let die_1 = Die::new(4).unwrap();
    let die_2 = Die::new(5).unwrap();
    assert_eq!(die_1 + die_2, 9);
}

#[test]
fn test_board_instantiates() {
    let b = Board::empty();
    assert_eq!(b.to_string(), "___\n___\n___");

    let b = Board::from_string("5__\n__2\n___".to_string()).unwrap();
    assert_eq!(b.to_string(), "5__\n__2\n___");
}

#[test]
fn test_board_sums() {
    let b = Board::empty();
    assert_eq!(b.sum(), 0);

    let b = Board::from_string("5__\n__2\n___".to_string()).unwrap();
    assert_eq!(b.sum(), 7);

    let b = Board::from_string("5__\n5_2\n1__".to_string()).unwrap();
    assert_eq!(b.sum(), 24);

    let b = Board::from_string("4_2\n5_2\n1_2".to_string()).unwrap();
    assert_eq!(b.sum(), 28);

    let b = Board::from_string("412\n542\n162".to_string()).unwrap();
    assert_eq!(b.sum(), 39);
}

#[test]
fn test_board_is_full() {
    let b = Board::empty();
    assert_eq!(b.is_full(), false);

    let b = Board::from_string("5__\n__2\n___".to_string()).unwrap();
    assert_eq!(b.is_full(), false);

    let b = Board::from_string("5__\n5_2\n1__".to_string()).unwrap();
    assert_eq!(b.is_full(), false);

    let b = Board::from_string("412\n542\n162".to_string()).unwrap();
    assert_eq!(b.is_full(), true);
}

#[test]
fn test_board_eliminates() {
    let board = Board::from_string("5__\n__2\n_32".to_string()).unwrap();
    let non_eliminated_board = board.eliminate(Die::Two, 1);

    assert_eq!(non_eliminated_board, board);

    let non_eliminated_board = board.eliminate(Die::Six, 2);

    assert_eq!(non_eliminated_board, board);

    let eliminated_board = board.eliminate(Die::Two, 2);

    assert_eq!(eliminated_board, Board::from_string("5__\n___\n_3_".to_string()).unwrap());
}

#[test]
fn test_move_instantiates() {
    let m = Move::from_string("1 2").unwrap();
    assert_eq!(m, Move::new(1, 2));
}

#[test]
fn test_board_debug_format() {
    let b = Board::from_string("5__\n__2\n_32".to_string()).unwrap();
    assert_eq!(format!("{:?}", b.to_string()), "\"5__\\n__2\\n_32\"");
}
