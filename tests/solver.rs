use knucklebones::board::{Board, Die, Move, Player};
use knucklebones::evaluation::{Evaluation, Objective};
use knucklebones::solver::{Solver, SolverMode};
use knucklebones::tree::{Node, NodeType};

fn board(s: &str) -> Board {
    Board::from_string(s.to_string()).unwrap()
}

/// The exact evaluation of a value that is a whole number of sixths.
fn ev(x: f64) -> Evaluation {
    Evaluation::new((x * 6.0).round() as i128, 1)
}

/// The difference heuristic objective with tempo weight `k`.
fn difference(k: f64) -> Objective {
    Objective::Difference(ev(k))
}

#[test]
fn test_solver_solves_endgame_situations() {
    let root = Node::new(
        board("255\n1_2\n352"),
        board("15_\n333\n12_"),
        NodeType::Move(Player::Player1, Die::Six),
    );
    let mut solver = Solver::from_root(root);
    let (best_moves, evaluation) = solver.get_best_moves_and_evaluation(SolverMode::BruteForce).unwrap();
    assert_eq!(best_moves, vec![Move::new(1, 1)]);
    assert_eq!(evaluation, ev(1.0));

    let root = Node::new(board("255\n1_2\n352"), board("255\n1_2\n652"), NodeType::Roll(Player::Player1));
    let mut solver = Solver::from_root(root);
    let result = solver.get_best_moves_and_evaluation(SolverMode::BruteForce);
    assert!(result.is_err());

    let player_1_board = board("651\n142\n62_"); // 40 before move.
    let player_2_board = board("256\n1_2\n62_"); // 28 before move.
    let root = Node::new(player_1_board, player_2_board, NodeType::Move(Player::Player2, Die::Six));
    let mut solver = Solver::from_root(root);
    let (best_moves, evaluation) = solver.get_best_moves_and_evaluation(SolverMode::BruteForce).unwrap();
    assert_eq!(
        (best_moves, evaluation),
        (vec![Move::new(2, 2)], ev((4. * 1. + 1. * 0. + 1. * (-1.)) / 6.))
    );
}

#[test]
fn test_solver_solves_heuristically() {
    let root = Node::new(Board::empty(), Board::empty(), NodeType::Move(Player::Player1, Die::Six));
    let mut solver = Solver::from_root(root);
    let result = solver.get_best_moves_and_evaluation(SolverMode::Heuristic((1, difference(3.5)))).unwrap();
    assert_eq!(result, (vec![Move::new(0, 0), Move::new(0, 1), Move::new(0, 2)], ev(6.0)));

    let player_1_board = board("651\n142\n62_"); // 40 before move.
    let player_2_board = board("256\n1_2\n62_"); // 24 before move.
    let root = Node::new(player_1_board, player_2_board, NodeType::Move(Player::Player2, Die::Six));
    let mut solver = Solver::from_root(root);
    let (best_moves, evaluation) =
        solver.get_best_moves_and_evaluation(SolverMode::Heuristic((5, difference(3.5)))).unwrap();
    assert_eq!(
        (best_moves, evaluation),
        (vec![Move::new(2, 2)], ev((1. + 7. - 1. + 0. + 1. + 28.) / 6.))
    );
}

#[test]
fn test_solver_solves_hybrid() {
    let root = Node::new(
        board("255\n1_2\n352"),
        board("15_\n333\n12_"),
        NodeType::Move(Player::Player1, Die::Six),
    );
    let mut solver = Solver::from_root(root);
    let (best_moves, evaluation) =
        solver.get_best_moves_and_evaluation(SolverMode::Hybrid(5, (4, difference(3.5)))).unwrap();
    assert_eq!(best_moves, vec![Move::new(1, 1)]);
    assert_eq!(evaluation, ev(1.0));

    let root = Node::new(Board::empty(), Board::empty(), NodeType::Move(Player::Player1, Die::Six));
    let mut solver = Solver::from_root(root);
    let result = solver.get_best_moves_and_evaluation(SolverMode::Hybrid(5, (1, difference(3.5)))).unwrap();
    assert_eq!(result, (vec![Move::new(0, 0), Move::new(0, 1), Move::new(0, 2)], ev(6.0)));

    let root = Node::new(board("35_\n___\n___"), board("__4\n__4\n___"), NodeType::Move(Player::Player1, Die::Six));
    let mut solver = Solver::from_root(root);
    let (evaluation_tree, _evaluation) =
        solver.get_evaluation_tree(SolverMode::Hybrid(1, (2, difference(3.5)))).unwrap();
    assert_eq!(evaluation_tree.clone().unwrap().get_max_depth(), 5);
    assert_eq!(
        evaluation_tree
            .unwrap()
            .get_child_from_move(Move::new(1, 1))
            .unwrap()
            .get_child_from_roll(Die::Six)
            .unwrap()
            .get_n_children(),
        1
    );

    let root = Node::new(board("62_\n1_2\n62_"), board("356\n122\n62_"), NodeType::Move(Player::Player2, Die::Six));
    let mut solver = Solver::from_root(root);
    let (_best_moves, evaluation) =
        solver.get_best_moves_and_evaluation(SolverMode::Hybrid(5, (4, difference(3.5)))).unwrap();
    // -1 <= evaluation <= 1, with evaluation = numerator / 6^exponent.
    let unit = 6i128.pow(evaluation.get_exponent());
    assert!(evaluation.get_numerator() >= -unit);
    assert!(evaluation.get_numerator() <= unit);
}

#[test]
fn test_difference_heuristic() {
    let mut root = Node::new(board("111\n111\n11_"), board("222\n222\n22_"), NodeType::Move(Player::Player1, Die::One));
    assert_eq!(Solver::difference_heuristic(&root, ev(0.)), ev(-22.0));
    assert_eq!(Solver::difference_heuristic(&root, ev(3.5)), ev(-22.0 + 3.5));

    root.add_move(Move::new(2, 2)).unwrap();
    let after_move = root.get_child_from_move(Move::new(2, 2)).unwrap();
    assert!(after_move.is_game_over());
    assert_eq!(Solver::difference_heuristic(&after_move, ev(0.)), ev(27.0 - 44.0));
    assert_eq!(Solver::difference_heuristic(&after_move, ev(3.5)), ev(27.0 - 44.0));

    let mut root = Node::new(board("111\n111\n11_"), board("222\n222\n22_"), NodeType::Move(Player::Player2, Die::Two));
    assert_eq!(Solver::difference_heuristic(&root, ev(0.)), ev(22.0 - 44.0));
    assert_eq!(Solver::difference_heuristic(&root, ev(3.5)), ev(22.0 - 44.0 - 3.5));

    root.add_move(Move::new(2, 2)).unwrap();
    let after_move = root.get_child_from_move(Move::new(2, 2)).unwrap();
    assert!(after_move.is_game_over());
    assert_eq!(Solver::difference_heuristic(&after_move, ev(0.)), ev(22.0 - 54.0));
    assert_eq!(Solver::difference_heuristic(&after_move, ev(3.5)), ev(22.0 - 54.0));

    let mut root = Node::new(Board::empty(), Board::empty(), NodeType::Move(Player::Player1, Die::Six));
    assert_eq!(Solver::difference_heuristic(&root, ev(0.)), ev(0.0));
    assert_eq!(Solver::difference_heuristic(&root, ev(3.5)), ev(3.5));

    root.add_move(Move::new(0, 0)).unwrap();
    let after_move = root.get_child_from_move(Move::new(0, 0)).unwrap();
    assert_eq!(Solver::difference_heuristic(&after_move, ev(0.)), ev(6.0));
    assert_eq!(Solver::difference_heuristic(&after_move, ev(3.5)), ev(6.0));

    let mut root = Node::new(Board::empty(), Board::empty(), NodeType::Move(Player::Player1, Die::One));
    assert_eq!(Solver::difference_heuristic(&root, ev(0.)), ev(0.0));
    assert_eq!(Solver::difference_heuristic(&root, ev(3.5)), ev(3.5));

    root.add_move(Move::new(0, 0)).unwrap();
    let after_move = root.get_child_from_move(Move::new(0, 0)).unwrap();
    assert_eq!(Solver::difference_heuristic(&after_move, ev(0.)), ev(1.0));
    assert_eq!(Solver::difference_heuristic(&after_move, ev(3.5)), ev(1.0));

    let mut root = Node::new(board("__1\n___\n___"), Board::empty(), NodeType::Move(Player::Player2, Die::Six));
    assert_eq!(Solver::difference_heuristic(&root, ev(0.)), ev(1.0));
    assert_eq!(Solver::difference_heuristic(&root, ev(3.5)), ev(1.0));

    root.add_move(Move::new(0, 0)).unwrap();
    let after_move = root.get_child_from_move(Move::new(0, 0)).unwrap();
    assert_eq!(Solver::difference_heuristic(&after_move, ev(0.)), ev(-5.0));
    assert_eq!(Solver::difference_heuristic(&after_move, ev(3.5)), ev(-1.5));

    let player_1_board = board("651\n142\n62_"); // 40 before move.
    let player_2_board = board("256\n1_2\n62_"); // 24 before move.
    let mut root = Node::new(player_1_board, player_2_board, NodeType::Move(Player::Player2, Die::Six));
    assert_eq!(Solver::difference_heuristic(&root, ev(0.)), ev(40.0 - 24.0));
    assert_eq!(Solver::difference_heuristic(&root, ev(3.5)), ev(40.0 - 24.0));

    root.build_n_moves_up_to_symmetry(5);
    let after_final_move = root
        .get_child_from_move(Move::new(2, 2))
        .unwrap()
        .get_child_from_roll(Die::Two)
        .unwrap()
        .get_child_from_move(Move::new(2, 2))
        .unwrap();
    assert_eq!(Solver::difference_heuristic(&after_final_move, ev(0.0)), ev(7.0));
    assert_eq!(Solver::difference_heuristic(&after_final_move, ev(3.5)), ev(7.0));
}
