use vstd::prelude::*;

use crate::board::Move;
use crate::error::GameError;
use crate::evaluation::{
    difference_numerator, difference_score, evaluation_matches, fits_rolls, result_view,
    value_matches, Evaluation, Objective, MAX_ROLL_LAYERS,
};
use crate::tree::{Node, NodeType};

verus! {

/// How many moves a heuristic search looks ahead, and how it values its leaves.
pub type HeuristicDepthAndObjective = (usize, Objective);

/// The largest number of empty cells, both boards together, for which a hybrid search
/// searches to the end of the game.
pub type BruteForceMaxMovesRemaining = usize;

/// How the solver searches.
#[derive(Debug, Clone, Copy)]
pub enum SolverMode {
    /// The whole game tree, leaves valued by their outcome.
    BruteForce,
    /// A fixed number of moves ahead, leaves valued by the objective.
    Heuristic(HeuristicDepthAndObjective),
    /// Brute force once few enough cells are empty, the heuristic search before.
    Hybrid(BruteForceMaxMovesRemaining, HeuristicDepthAndObjective),
}

impl SolverMode {
    pub open spec fn wf(self) -> bool {
        match self {
            SolverMode::BruteForce => true,
            SolverMode::Heuristic(h) => h.1.wf(),
            SolverMode::Hybrid(_, h) => h.1.wf(),
        }
    }
}

/// The empty cells of both boards of a node, eliminations ignored: a bound on the moves left.
pub open spec fn moves_left(t: Node) -> int {
    (t.board1().empty_cells().len() + t.board2().empty_cells().len()) as int
}

/// The search that `mode` asks for at `root`: the moves to look ahead and the leaf objective.
pub open spec fn search_of(mode: SolverMode, root: Node) -> (int, Objective) {
    match mode {
        SolverMode::BruteForce => (usize::MAX as int, Objective::Outcome),
        SolverMode::Heuristic(h) => (h.0 as int, h.1),
        SolverMode::Hybrid(max_brute, h) => if moves_left(root) <= max_brute {
            (usize::MAX as int, Objective::Outcome)
        } else {
            (h.0 as int, h.1)
        },
    }
}

/// A hybrid search on a root with at most `max_brute` empty cells is a brute-force search.
pub proof fn lemma_hybrid_is_brute_force_near_the_end(
    max_brute: usize,
    heuristic: HeuristicDepthAndObjective,
    root: Node,
)
    requires
        moves_left(root) <= max_brute,
    ensures
        search_of(SolverMode::Hybrid(max_brute, heuristic), root) == search_of(
            SolverMode::BruteForce,
            root,
        ),
{
}

/// Searches from a root position for the first player's best moves.
pub struct Solver {
    root: Node,
}

impl Solver {
    pub closed spec fn root(self) -> Node {
        self.root
    }

    pub fn from_root(root: Node) -> (r: Solver)
        ensures
            r.root() == root,
    {
        Solver { root }
    }

    pub fn get_root(&self) -> (r: &Node)
        ensures
            *r == self.root(),
    {
        &self.root
    }

    /// The move count and objective of `mode` at the root.
    fn search(&self, mode: SolverMode) -> (r: (usize, Objective))
        ensures
            r.0 as int == search_of(mode, self.root()).0,
            r.1 == search_of(mode, self.root()).1,
    {
        match mode {
            SolverMode::BruteForce => (usize::MAX, Objective::Outcome),
            SolverMode::Heuristic((depth, f)) => (depth, f),
            SolverMode::Hybrid(max_brute, (depth, f)) => {
                if self.root.get_n_empty_squares() <= max_brute {
                    (usize::MAX, Objective::Outcome)
                } else {
                    (depth, f)
                }
            },
        }
    }

    /// Builds the tree that `mode` asks for from the root's position, keeps it as the root,
    /// and evaluates it.
    fn solve(&mut self, mode: SolverMode) -> (r: Result<(Vec<Move>, Evaluation), GameError>)
        requires
            mode.wf(),
        ensures
            old(self).root().kind() is Roll ==> r == Err::<(Vec<Move>, Evaluation), GameError>(
                GameError::RollRoot,
            ) && final(self).root() == old(self).root(),
            old(self).root().kind() is Move ==> final(self).root().same_position(old(self).root())
                && final(self).root().is_built(search_of(mode, old(self).root()).0)
                && evaluation_matches(
                final(self).root(),
                search_of(mode, old(self).root()).1,
                result_view(r),
            ),
    {
        if let NodeType::Roll(_) = self.root.get_node_type() {
            return Err(GameError::RollRoot);
        }
        let (depth, objective) = self.search(mode);
        let mut tree = Node::new(
            self.root.get_player_1_board(),
            self.root.get_player_2_board(),
            self.root.get_node_type(),
        );
        tree.build_n_moves_up_to_symmetry(depth);
        let result = tree.get_next_moves_and_evaluation(objective);
        self.root = tree;
        result
    }

    /// The evaluation and the tree it was computed on cut down to its best lines (see
    /// `Node::optimal_tree`); no tree where the cut-down tree cannot be had.
    pub fn get_evaluation_tree(&mut self, solver_mode: SolverMode) -> (r: Result<
        (Option<Node>, Evaluation),
        GameError,
    >)
        requires
            solver_mode.wf(),
        ensures
            old(self).root().kind() is Roll ==> r == Err::<(Option<Node>, Evaluation), GameError>(
                GameError::RollRoot,
            ),
            old(self).root().kind() is Move ==> final(self).root().same_position(old(self).root())
                && final(self).root().is_built(search_of(solver_mode, old(self).root()).0)
                && value_matches(
                final(self).root(),
                search_of(solver_mode, old(self).root()).1,
                match r {
                    Ok(q) => Ok(q.1),
                    Err(e) => Err(e),
                },
            ),
            r matches Ok(q) ==> (q.0 matches Some(t) ==> t.same_position(final(self).root())),
    {
        let (_, search_objective) = self.search(solver_mode);
        match self.solve(solver_mode) {
            Ok((_, evaluation)) => {
                let tree = if fits_rolls(&self.root, MAX_ROLL_LAYERS) {
                    match self.root.optimal_tree(search_objective, MAX_ROLL_LAYERS) {
                        Ok(t) => Some(t),
                        Err(_) => None,
                    }
                } else {
                    None
                };
                Ok((tree, evaluation))
            },
            Err(e) => Err(e),
        }
    }

    /// The first player's best moves at the root, up to row symmetry, and the root's value.
    pub fn get_best_moves_and_evaluation(&mut self, solver_mode: SolverMode) -> (r: Result<
        (Vec<Move>, Evaluation),
        GameError,
    >)
        requires
            solver_mode.wf(),
        ensures
            old(self).root().kind() is Roll ==> r == Err::<(Vec<Move>, Evaluation), GameError>(
                GameError::RollRoot,
            ),
            old(self).root().kind() is Move ==> final(self).root().same_position(old(self).root())
                && final(self).root().is_built(search_of(solver_mode, old(self).root()).0)
                && evaluation_matches(
                final(self).root(),
                search_of(solver_mode, old(self).root()).1,
                result_view(r),
            ),
    {
        self.solve(solver_mode)
    }

    /// The root's value.
    pub fn get_evaluation(&mut self, solver_mode: SolverMode) -> (r: Result<Evaluation, GameError>)
        requires
            solver_mode.wf(),
        ensures
            old(self).root().kind() is Roll ==> r == Err::<Evaluation, GameError>(
                GameError::RollRoot,
            ),
            old(self).root().kind() is Move ==> final(self).root().same_position(old(self).root())
                && final(self).root().is_built(search_of(solver_mode, old(self).root()).0)
                && value_matches(final(self).root(), search_of(solver_mode, old(self).root()).1, r),
    {
        match self.solve(solver_mode) {
            Ok((_, evaluation)) => Ok(evaluation),
            Err(e) => Err(e),
        }
    }

    /// The difference heuristic: player 1's score less player 2's, plus, where the game is
    /// not over, `empty_square_fill` times the tempo term.
    pub fn difference_heuristic(node: &Node, empty_square_fill: Evaluation) -> (r: Evaluation)
        requires
            Objective::Difference(empty_square_fill).wf(),
        ensures
            r.is_canonical(),
            r.equals_ratio(
                difference_score(*node, empty_square_fill),
                empty_square_fill.exp(),
            ),
    {
        let n = difference_numerator(node, empty_square_fill);
        Evaluation::new(n, empty_square_fill.get_exponent())
    }
}

} // verus!
