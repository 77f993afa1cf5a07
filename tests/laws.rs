use knucklebones::board::{Bitboard, Board, Die, Move, Outcome, Player, Square};
use knucklebones::error::GameError;
use knucklebones::evaluation::{Evaluation, Objective};
use knucklebones::solver::{Solver, SolverMode};
use knucklebones::tree::{Node, NodeType};

fn board(s: &str) -> Board {
    Board::from_string(s.to_string()).unwrap()
}

#[test]
fn score_multiplies_column_sums() {
    // Column 0 holds three ones (x3), column 1 two fives and a two (x2), column 2 one six.
    let b = board("156\n15_\n12_");
    assert_eq!(b.get_column_multiplicity(0), 3);
    assert_eq!(b.get_column_multiplicity(1), 2);
    assert_eq!(b.get_column_multiplicity(2), 1);
    assert_eq!(b.sum(), 3 * 3 + 12 * 2 + 6);
    // Two equal dice that are not adjacent still double the column.
    let b = board("4__\n3__\n4__");
    assert_eq!(b.sum(), 22);
}

#[test]
fn board_text_round_trips() {
    for text in ["___\n___\n___", "651\n142\n62_", "2_5\n1_2\n3_2", "666\n666\n666"] {
        let b = board(text);
        assert_eq!(Board::from_string(b.to_string()).unwrap(), b);
        assert_eq!(b.to_string(), text);
    }
}

#[test]
fn board_text_round_trips_after_a_move() {
    let b = board("2_5\n1_2\n3_2");
    for die in Die::all() {
        for (row, col) in b.get_empty_squares() {
            let after = b.with_move_made(die, Move::new(row, col)).unwrap();
            assert_eq!(Board::from_string(after.to_string()).unwrap(), after);
            assert_eq!(after.get(row, col), Square::Die(die));
        }
    }
}

#[test]
fn board_text_ignores_spaces_and_tabs() {
    let b = Board::from_string(" 5 _ _\n\t__2\n___ ".to_string()).unwrap();
    assert_eq!(b, board("5__\n__2\n___"));
}

#[test]
fn board_text_errors() {
    let bad = [
        "5__\n__2",
        "5__\n__2\n___\n",
        "5___\n_2\n___",
        "5__\n__7\n___",
        "5__ __2 ___",
    ];
    for text in bad {
        assert_eq!(Board::from_string(text.to_string()), Err(GameError::InvalidBoardString));
    }
}

#[test]
fn move_text_round_trips() {
    for m in Move::all() {
        assert_eq!(Move::from_string(&m.to_string()), Ok(m));
    }
    assert_eq!(Move::new(2, 1).to_string(), "2 1");
}

#[test]
fn move_text_errors() {
    assert_eq!(Move::from_string("1\u{a0}2"), Ok(Move::new(1, 2)));
    for text in ["", "1", "123", "13", "a1", "3 0"] {
        assert_eq!(Move::from_string(text), Err(GameError::InvalidMoveString));
    }
}

#[test]
fn die_errors() {
    assert_eq!(Die::new(0), Err(GameError::InvalidDieValue));
    assert_eq!(Die::new(7), Err(GameError::InvalidDieValue));
    assert_eq!(Die::new(6), Ok(Die::Six));
    assert_eq!(Die::from_char('7'), Err(GameError::InvalidDieChar));
    assert_eq!(Die::from_char('3'), Ok(Die::Three));
    assert_eq!(Square::from_char('_'), Ok(Square::Empty));
    assert_eq!(Square::from_char('x'), Err(GameError::InvalidDieChar));
    assert_eq!(Die::Four.to_string(), "4");
    assert_eq!(Die::Four.to_value(), 4);
}

#[test]
fn random_draws_are_faces_and_players() {
    for _ in 0..200 {
        let d = Die::random();
        assert!(1 <= d.to_value() && d.to_value() <= 6);
    }
    let mut seen = [false; 6];
    for _ in 0..2000 {
        seen[(Die::random().to_value() - 1) as usize] = true;
    }
    assert!(seen.iter().all(|s| *s));
    let p = Player::get_random();
    assert!(p == Player::Player1 || p == Player::Player2);
}

#[test]
fn making_a_move_on_a_taken_square_fails() {
    let mut b = board("5__\n___\n___");
    assert_eq!(b.make_move(Die::One, Move::new(0, 0)), Err(GameError::SquareOccupied));
    assert_eq!(b, board("5__\n___\n___"));
    assert_eq!(b.make_move(Die::One, Move::new(0, 1)), Ok(()));
    assert_eq!(b, board("51_\n___\n___"));
}

#[test]
fn empty_cells_column_by_column() {
    let b = board("5_1\n__2\n3__");
    assert_eq!(b.get_empty_squares(), vec![(1, 0), (0, 1), (1, 1), (2, 1), (2, 2)]);
    assert_eq!(b.get_n_empty_squares(), 5);
    assert_eq!(b.get_empty_squares_up_to_row_symmetry(), vec![(1, 0), (0, 1), (2, 2)]);
}

#[test]
fn symmetric_moves_count_open_columns() {
    let cases = [("___\n___\n___", 3), ("5__\n2__\n3__", 2), ("51_\n22_\n34_", 1), ("516\n224\n341", 0)];
    for (text, open_columns) in cases {
        let root = Node::new(board(text), Board::empty(), NodeType::Move(Player::Player1, Die::One));
        assert_eq!(root.get_legal_moves_up_to_row_symmetry().unwrap().len(), open_columns);
    }
}

#[test]
fn child_after_move_is_the_moved_node() {
    let mut root = Node::new(board("2_5\n1_2\n3_2"), board("15_\n363\n12_"), NodeType::Move(Player::Player1, Die::Three));
    root.generate_children_up_to_symmetry();
    for m in root.get_legal_moves_up_to_row_symmetry().unwrap() {
        assert_eq!(*root.get_child_from_move(m).unwrap(), root.with_move_made(m).unwrap());
    }
    // A move that is legal but not the topmost of its column has no stored child.
    let mut root = Node::new(Board::empty(), Board::empty(), NodeType::Move(Player::Player1, Die::Three));
    root.generate_children_up_to_symmetry();
    assert_eq!(root.get_child(1, 0), Err(GameError::NoSuchChild));
}

#[test]
fn placing_a_die_eliminates_equal_dice_opposite() {
    let root = Node::new(board("3__\n3__\n4__"), board("___\n___\n___"), NodeType::Move(Player::Player2, Die::Three));
    let after = root.with_move_made(Move::new(0, 0)).unwrap();
    assert_eq!(after.get_player_1_board(), board("___\n___\n4__"));
    assert_eq!(after.get_player_2_board(), board("3__\n___\n___"));
    // The mover's own dice are never removed.
    let root = Node::new(board("3__\n___\n___"), board("___\n___\n___"), NodeType::Move(Player::Player1, Die::Three));
    let after = root.with_move_made(Move::new(1, 0)).unwrap();
    assert_eq!(after.get_player_1_board(), board("3__\n3__\n___"));
}

#[test]
fn outcome_follows_scores_only_at_the_end() {
    let root = Node::new(board("666\n666\n66_"), board("111\n111\n111"), NodeType::Roll(Player::Player1));
    assert_eq!(root.get_outcome(), Outcome::Victory(Player::Player1));
    let root = Node::new(board("666\n666\n66_"), board("111\n111\n11_"), NodeType::Roll(Player::Player1));
    assert_eq!(root.get_outcome(), Outcome::InProgress);
    let root = Node::new(board("111\n111\n111"), board("666\n666\n66_"), NodeType::Roll(Player::Player1));
    assert_eq!(root.get_outcome(), Outcome::Victory(Player::Player2));
    assert_eq!(Outcome::Draw.to_string(), "Draw");
    assert_eq!(Player::Player2.to_string(), "Player 2");
}

#[test]
fn wrong_node_kinds_are_errors() {
    let mut roll = Node::new(Board::empty(), Board::empty(), NodeType::Roll(Player::Player1));
    let mut mv = Node::new(Board::empty(), Board::empty(), NodeType::Move(Player::Player1, Die::One));
    assert_eq!(roll.with_move_made(Move::new(0, 0)), Err(GameError::NotAMoveNode));
    assert_eq!(roll.add_move(Move::new(0, 0)), Err(GameError::NotAMoveNode));
    assert_eq!(mv.add_rolls(), Err(GameError::NotARollNode));
    assert_eq!(mv.with_rolls(Die::One), Err(GameError::NotARollNode));
    assert_eq!(mv.get_child_from_roll(Die::One), Err(GameError::NotARollNode));
    assert_eq!(roll.get_child_from_roll(Die::One), Err(GameError::RollsNotExpanded));
    roll.add_rolls().unwrap();
    assert_eq!(roll.get_child_from_roll(Die::Four).unwrap().get_die(), Some(Die::Four));
    assert!(!roll.is_legal_move(Move::new(0, 0)));
    assert!(mv.is_legal_move(Move::new(2, 2)));
    assert!(!mv.is_legal_move(Move::new(3, 0)));
    assert_eq!(mv.get_next_moves_and_evaluation(Objective::Outcome), Err(GameError::CannotEvaluateInProgressLeaf));
    assert_eq!(roll.get_next_moves_and_evaluation(Objective::Outcome), Err(GameError::NotAMoveNode));
    mv.add_move(Move::new(0, 0)).unwrap();
    assert_eq!(mv.add_move(Move::new(0, 0)), Ok(()));
    let taken = Node::new(board("1__\n___\n___"), Board::empty(), NodeType::Move(Player::Player1, Die::One));
    assert_eq!(taken.with_move_made(Move::new(0, 0)), Err(GameError::SquareOccupied));
}

#[test]
fn with_rolls_copies_and_rolls() {
    let roll = Node::new(board("1__\n___\n___"), Board::empty(), NodeType::Roll(Player::Player2));
    let rolled = roll.with_rolls(Die::Two).unwrap();
    assert_eq!(roll.get_n_children(), 0);
    assert_eq!(rolled.get_n_children(), 6);
    let child = rolled.get_child_from_roll(Die::Two).unwrap();
    assert_eq!(child.get_node_type(), NodeType::Move(Player::Player2, Die::Two));
    assert_eq!(child.get_player_1_board(), board("1__\n___\n___"));
}

#[test]
fn perspective_text() {
    let node = Node::new(board("1__\n___\n___"), board("__2\n___\n___"), NodeType::Move(Player::Player2, Die::Five));
    assert_eq!(
        node.to_string_from_perspective(Player::Player2),
        "Player:\n__2\n___\n___\n\nOpponent:\n1__\n___\n___\n\nRoll: 5\n\n"
    );
    let node = Node::new(board("1__\n___\n___"), board("__2\n___\n___"), NodeType::Roll(Player::Player1));
    assert_eq!(
        node.to_string_from_perspective(Player::Player1),
        "Player:\n1__\n___\n___\n\nOpponent:\n__2\n___\n___\n\nRoll: \n"
    );
}

#[test]
fn evaluations_are_canonical() {
    assert_eq!(Evaluation::new(36, 1), Evaluation::new(6, 0));
    assert_eq!(Evaluation::new(-216, 3), Evaluation::new(-1, 0));
    assert_eq!(Evaluation::new(0, 5), Evaluation::new(0, 0));
    let half = Evaluation::new(18, 2);
    assert_eq!((half.get_numerator(), half.get_exponent()), (3, 1));
    assert_eq!(half.from_perspective(Player::Player2), Evaluation::new(-3, 1));
    assert_eq!(half.from_perspective(Player::Player1), half);
}

#[test]
fn brute_force_values_lie_between_minus_one_and_one() {
    let positions = [
        ("651\n142\n62_", "256\n1_2\n62_", Player::Player2),
        ("255\n1_2\n352", "15_\n333\n12_", Player::Player1),
        ("62_\n1_2\n62_", "356\n122\n62_", Player::Player2),
    ];
    for (p1, p2, player) in positions {
        for die in [Die::Six] {
            let root = Node::new(board(p1), board(p2), NodeType::Move(player, die));
            let (moves, e) = Solver::from_root(root).get_best_moves_and_evaluation(SolverMode::BruteForce).unwrap();
            let unit = 6i128.pow(e.get_exponent());
            assert!(-unit <= e.get_numerator() && e.get_numerator() <= unit);
            assert!(!moves.is_empty());
        }
    }
}

#[test]
fn forced_wins_evaluate_to_one() {
    let root = Node::new(board("255\n1_2\n352"), board("15_\n333\n12_"), NodeType::Move(Player::Player1, Die::Six));
    let (moves, e) = Solver::from_root(root).get_best_moves_and_evaluation(SolverMode::BruteForce).unwrap();
    assert_eq!(e, Evaluation::new(1, 0));
    assert_eq!(moves, vec![Move::new(1, 1)]);
    // Player 2 completes a board worth more than player 1's.
    let root = Node::new(board("11_\n___\n___"), board("666\n666\n66_"), NodeType::Move(Player::Player2, Die::Six));
    let (moves, e) = Solver::from_root(root).get_best_moves_and_evaluation(SolverMode::BruteForce).unwrap();
    assert_eq!(e, Evaluation::new(-1, 0));
    assert_eq!(moves, vec![Move::new(2, 2)]);
}

#[test]
fn value_is_the_best_candidate() {
    // Player 2 to place a six: the value is the smaller of the two candidate means.
    let mut root = Node::new(board("651\n142\n62_"), board("256\n1_2\n62_"), NodeType::Move(Player::Player2, Die::Six));
    root.build_entire_tree_up_to_symmetry();
    let (moves, value) = root.get_next_moves_and_evaluation(Objective::Outcome).unwrap();
    assert_eq!(moves, vec![Move::new(2, 2)]);
    let mut candidates = Vec::new();
    for m in root.get_legal_moves_up_to_row_symmetry().unwrap() {
        let child = root.get_child_from_move(m).unwrap();
        let mut sum = 0i128;
        for die in Die::all() {
            let grandchild = child.get_child_from_roll(die).unwrap();
            let (_, v) = grandchild.get_next_moves_and_evaluation(Objective::Outcome).unwrap();
            sum += v.get_numerator() * 6i128.pow(6 - v.get_exponent());
        }
        candidates.push(Evaluation::new(sum, 7));
    }
    assert_eq!(candidates.len(), 2);
    assert!(candidates.contains(&value));
    assert_eq!(value, Evaluation::new(3, 1));
}

#[test]
fn hybrid_near_the_end_is_brute_force() {
    let root = Node::new(board("651\n142\n62_"), board("256\n1_2\n62_"), NodeType::Move(Player::Player2, Die::Six));
    let brute = Solver::from_root(root.clone()).get_best_moves_and_evaluation(SolverMode::BruteForce).unwrap();
    let heuristic = Objective::Difference(Evaluation::new(21, 1));
    let hybrid = Solver::from_root(root.clone()).get_best_moves_and_evaluation(SolverMode::Hybrid(3, (1, heuristic))).unwrap();
    assert_eq!(hybrid, brute);
    let far = Solver::from_root(root).get_best_moves_and_evaluation(SolverMode::Hybrid(2, (1, heuristic))).unwrap();
    assert_ne!(far, brute);
}

#[test]
fn roll_root_is_rejected() {
    let root = Node::new(board("255\n1_2\n352"), board("255\n1_2\n652"), NodeType::Roll(Player::Player1));
    let mut solver = Solver::from_root(root);
    assert_eq!(solver.get_best_moves_and_evaluation(SolverMode::BruteForce), Err(GameError::RollRoot));
    assert_eq!(solver.get_evaluation(SolverMode::BruteForce), Err(GameError::RollRoot));
}

#[test]
fn heuristic_scenarios() {
    let k = Evaluation::new(21, 1);
    let root = Node::new(Board::empty(), Board::empty(), NodeType::Move(Player::Player1, Die::Six));
    let mut solver = Solver::from_root(root);
    assert_eq!(solver.get_evaluation(SolverMode::Heuristic((1, Objective::Difference(k)))), Ok(Evaluation::new(6, 0)));
    assert_eq!(solver.get_root().get_n_children(), 3);
    let root = Node::new(board("__1\n___\n___"), Board::empty(), NodeType::Move(Player::Player2, Die::Six));
    assert_eq!(Solver::difference_heuristic(&root, k), Evaluation::new(1, 0));
    let after = root.with_move_made(Move::new(0, 0)).unwrap();
    assert_eq!(after.get_player_1_board(), board("__1\n___\n___"));
    assert_eq!(Solver::difference_heuristic(&after, Evaluation::new(0, 0)), Evaluation::new(-5, 0));
    assert_eq!(Solver::difference_heuristic(&after, k), Evaluation::new(-9, 1));
    assert_eq!(after.get_score_difference(), -5);
    assert_eq!(after.get_n_empty_squares(), 16);
}

#[test]
fn tree_depth_and_copies() {
    let mut root = Node::empty();
    assert_eq!(root.get_max_depth(), 1);
    assert!(root.is_leaf());
    root.build_n_moves_up_to_symmetry(0);
    assert_eq!(root.get_n_children(), 6);
    assert!(root.get_children().iter().all(|c| c.is_leaf()));
    let copy = root.clone();
    assert_eq!(copy, root);
    assert_eq!(Node::from_player_and_boards(Player::Player2, board("1__\n___\n___"), Board::empty(), NodeType::Roll(Player::Player2)).get_player_2_board(), board("1__\n___\n___"));
}

#[test]
fn bitboards() {
    let b = Bitboard::from_binary("111000000").unwrap();
    assert!(b.is_victory());
    assert!(b.is_set(0, 0) && b.is_set(0, 2) && !b.is_set(1, 0));
    assert_eq!(b.n_set(), 3);
    let d = Bitboard::from_binary("100010001").unwrap();
    assert!(d.is_victory());
    let c = Bitboard::from_binary("110001000").unwrap();
    assert!(!c.is_victory());
    assert_eq!(Bitboard::from_binary("11100000"), Err(GameError::InvalidBinaryString));
    assert_eq!(Bitboard::from_binary("11100000x"), Err(GameError::InvalidBinaryString));
    let mut e = Bitboard::empty();
    assert!(e.is_empty());
    e.set(1, 1);
    assert!(e.is_set(1, 1));
    assert_eq!(e, Bitboard::from_binary("000010000").unwrap());
    assert!(Bitboard::full().contains(d));
    assert!(!c.contains(d));
    assert_eq!(b.union(&d), Bitboard::from_binary("111010001").unwrap());
    assert_eq!(b.intersection(&d), Bitboard::from_binary("100000000").unwrap());
    assert_eq!(b.difference(&d), Bitboard::from_binary("011000000").unwrap());
    assert_eq!(Bitboard::full().n_set(), 9);
}
