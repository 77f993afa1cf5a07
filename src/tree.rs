use vstd::prelude::*;

use crate::board::{Board, Die, Move, Outcome, Player, Square};
use crate::error::GameError;

verus! {

/// What happens next at a node: a player rolls, or a player places the die just rolled.
#[derive(Debug, Clone, Copy, PartialEq, Eq, Structural)]
pub enum NodeType {
    Roll(Player),
    Move(Player, Die),
}

/// The player about to act in a node of the given kind.
pub open spec fn kind_player(kind: NodeType) -> Player {
    match kind {
        NodeType::Roll(p) => p,
        NodeType::Move(p, _) => p,
    }
}

/// The boards, seen from the active player: (player 1's board, player 2's board).
pub open spec fn arrange(active: Player, active_board: Board, opponent_board: Board) -> (
    Board,
    Board,
) {
    match active {
        Player::Player1 => (active_board, opponent_board),
        Player::Player2 => (opponent_board, active_board),
    }
}

/// The six faces, in ascending order.
pub open spec fn face(i: int) -> Die {
    if i == 0 {
        Die::One
    } else if i == 1 {
        Die::Two
    } else if i == 2 {
        Die::Three
    } else if i == 3 {
        Die::Four
    } else if i == 4 {
        Die::Five
    } else {
        Die::Six
    }
}

/// The moves that address the given cells, in the same order.
pub open spec fn moves_of(cells: Seq<(usize, usize)>) -> Seq<Move> {
    cells.map_values(|p: (usize, usize)| Move { row: p.0, column: p.1 })
}

/// One position of the game tree with the children generated so far.
#[derive(Debug, PartialEq)]
pub struct Node {
    pub(crate) player_1_board: Board,
    pub(crate) player_2_board: Board,
    pub(crate) node_type: NodeType,
    pub(crate) children: Vec<Node>,
}

impl Node {
    pub open(crate) spec fn board1(self) -> Board {
        self.player_1_board
    }

    pub open(crate) spec fn board2(self) -> Board {
        self.player_2_board
    }

    pub open(crate) spec fn kind(self) -> NodeType {
        self.node_type
    }

    /// The children, in the order they were generated.
    pub open(crate) spec fn kids(self) -> Seq<Node> {
        self.children@
    }

    pub open spec fn active(self) -> Player {
        kind_player(self.kind())
    }

    pub open spec fn board_of(self, p: Player) -> Board {
        match p {
            Player::Player1 => self.board1(),
            Player::Player2 => self.board2(),
        }
    }

    /// Both nodes hold the same boards and the same kind; their children are not compared.
    pub open spec fn same_position(self, other: Node) -> bool {
        self.board1() == other.board1() && self.board2() == other.board2() && self.kind()
            == other.kind()
    }

    pub open spec fn is_position(self, b1: Board, b2: Board, kind: NodeType) -> bool {
        self.board1() == b1 && self.board2() == b2 && self.kind() == kind
    }

    /// A node with no children.
    pub open spec fn is_fresh(self) -> bool {
        self.kids().len() == 0
    }

    pub open spec fn spec_is_game_over(self) -> bool {
        self.board1().spec_is_full() || self.board2().spec_is_full()
    }

    pub open spec fn spec_outcome(self) -> Outcome {
        if !self.spec_is_game_over() {
            Outcome::InProgress
        } else if self.board1().score() > self.board2().score() {
            Outcome::Victory(Player::Player1)
        } else if self.board2().score() > self.board1().score() {
            Outcome::Victory(Player::Player2)
        } else {
            Outcome::Draw
        }
    }

    /// The legal moves of a move node: every empty cell of the active player's board.
    pub open spec fn legal_moves(self) -> Seq<Move> {
        moves_of(self.board_of(self.active()).empty_cells())
    }

    /// The legal moves up to row symmetry: the topmost empty cell of each column.
    pub open spec fn legal_moves_up_to_row_symmetry(self) -> Seq<Move> {
        moves_of(self.board_of(self.active()).empty_cells_up_to_row_symmetry())
    }

    /// The boards (player 1's, player 2's) after the active player of a move node places the
    /// rolled die at `m`, eliminating the opponent's equal dice in that column.
    pub open spec fn boards_after_move(self, m: Move) -> (Board, Board) {
        match self.kind() {
            NodeType::Move(p, d) => arrange(
                p.spec_opponent(),
                self.board_of(p.spec_opponent()).spec_eliminate(d, m.column as int),
                self.board_of(p).spec_with_move(d, m),
            ),
            NodeType::Roll(_) => (self.board1(), self.board2()),
        }
    }

    /// The kind of the node that follows a move: the opponent rolls.
    pub open spec fn kind_after_move(self) -> NodeType {
        NodeType::Roll(self.active().spec_opponent())
    }

    /// `n` is the node reached from this move node by the move `m`, before its expansion.
    pub open spec fn is_successor(self, m: Move, n: Node) -> bool {
        n.is_position(self.boards_after_move(m).0, self.boards_after_move(m).1, self.kind_after_move())
    }

    /// `n` is the node reached from this roll node when face `die` comes up.
    pub open spec fn is_roll_successor(self, die: Die, n: Node) -> bool {
        n.is_position(self.board1(), self.board2(), NodeType::Move(self.active(), die))
    }

    /// The move `m` can be played here: a move node, and an empty cell of the active board.
    pub open spec fn spec_is_legal_move(self, m: Move) -> bool {
        self.kind() is Move && m.wf() && self.board_of(self.active()).is_empty_at(
            m.row as int,
            m.column as int,
        )
    }

    pub fn empty() -> (r: Node)
        ensures
            r.is_fresh(),
            r.kind() == NodeType::Roll(Player::Player1),
            forall|row: int, col: int| #[trigger] r.board1().cell(row, col) == Square::Empty
                && r.board2().cell(row, col) == Square::Empty,
    {
        Node {
            player_1_board: Board::empty(),
            player_2_board: Board::empty(),
            node_type: NodeType::Roll(Player::Player1),
            children: Vec::new(),
        }
    }

    pub fn new(player_1_board: Board, player_2_board: Board, node_type: NodeType) -> (r: Node)
        ensures
            r.is_fresh(),
            r.is_position(player_1_board, player_2_board, node_type),
    {
        Node { player_1_board, player_2_board, node_type, children: Vec::new() }
    }

    /// A fresh node in which `active_player`'s board is `active_players_board`.
    pub fn from_player_and_boards(
        active_player: Player,
        active_players_board: Board,
        opponents_board: Board,
        node_type: NodeType,
    ) -> (r: Node)
        ensures
            r.is_fresh(),
            r.is_position(
                arrange(active_player, active_players_board, opponents_board).0,
                arrange(active_player, active_players_board, opponents_board).1,
                node_type,
            ),
    {
        match active_player {
            Player::Player1 => Node::new(active_players_board, opponents_board, node_type),
            Player::Player2 => Node::new(opponents_board, active_players_board, node_type),
        }
    }

    pub fn get_boards(&self) -> (r: (Board, Board))
        ensures
            r == (self.board1(), self.board2()),
    {
        (self.player_1_board, self.player_2_board)
    }

    pub fn get_player_1_board(&self) -> (r: Board)
        ensures
            r == self.board1(),
    {
        self.player_1_board
    }

    pub fn get_player_2_board(&self) -> (r: Board)
        ensures
            r == self.board2(),
    {
        self.player_2_board
    }

    pub fn get_node_type(&self) -> (r: NodeType)
        ensures
            r == self.kind(),
    {
        self.node_type
    }

    pub fn get_player_board(&self, player: Player) -> (r: Board)
        ensures
            r == self.board_of(player),
    {
        match player {
            Player::Player1 => self.player_1_board,
            Player::Player2 => self.player_2_board,
        }
    }

    /// The die to be placed, for a move node.
    pub fn get_die(&self) -> (r: Option<Die>)
        ensures
            r == match self.kind() {
                NodeType::Roll(_) => None,
                NodeType::Move(_, d) => Some(d),
            },
    {
        match self.node_type {
            NodeType::Roll(_) => None,
            NodeType::Move(_, die) => Some(die),
        }
    }

    pub fn get_active_player(&self) -> (r: Player)
        ensures
            r == self.active(),
    {
        match self.node_type {
            NodeType::Roll(player) => player,
            NodeType::Move(player, _) => player,
        }
    }

    pub fn is_legal_move(&self, m: Move) -> (r: bool)
        ensures
            r == self.spec_is_legal_move(m),
    {
        match self.node_type {
            NodeType::Roll(_) => false,
            NodeType::Move(player, _) => {
                m.row < 3 && m.column < 3 && self.get_player_board(player).get(m.row, m.column)
                    == Square::Empty
            },
        }
    }

    pub fn get_legal_moves(&self) -> (r: Result<Vec<Move>, GameError>)
        ensures
            self.kind() is Roll ==> r == Err::<Vec<Move>, GameError>(GameError::NotAMoveNode),
            self.kind() is Move ==> (r matches Ok(v) && v@ == self.legal_moves()),
    {
        match self.node_type {
            NodeType::Roll(_) => Err(GameError::NotAMoveNode),
            NodeType::Move(player, _) => {
                let cells = self.get_player_board(player).get_empty_squares();
                Ok(moves_from_cells(&cells))
            },
        }
    }

    pub fn get_legal_moves_up_to_row_symmetry(&self) -> (r: Result<Vec<Move>, GameError>)
        ensures
            self.kind() is Roll ==> r == Err::<Vec<Move>, GameError>(GameError::NotAMoveNode),
            self.kind() is Move ==> (r matches Ok(v) && v@ == self.legal_moves_up_to_row_symmetry()),
    {
        match self.node_type {
            NodeType::Roll(_) => Err(GameError::NotAMoveNode),
            NodeType::Move(player, _) => {
                let cells = self.get_player_board(player).get_empty_squares_up_to_row_symmetry();
                Ok(moves_from_cells(&cells))
            },
        }
    }

    /// The empty cells of both boards together.
    pub fn get_n_empty_squares(&self) -> (r: usize)
        ensures
            r == self.board1().empty_cells().len() + self.board2().empty_cells().len(),
    {
        proof {
            self.board1().lemma_empty_cells_len();
            self.board2().lemma_empty_cells_len();
        }
        self.player_1_board.get_n_empty_squares() + self.player_2_board.get_n_empty_squares()
    }

    pub fn equals_up_to_children(&self, other: &Node) -> (r: bool)
        ensures
            r == self.same_position(*other),
    {
        self.player_1_board == other.player_1_board && self.player_2_board
            == other.player_2_board && self.node_type == other.node_type
    }

    pub fn get_scores(&self) -> (r: (u16, u16))
        ensures
            r.0 as int == self.board1().score(),
            r.1 as int == self.board2().score(),
    {
        (self.player_1_board.sum(), self.player_2_board.sum())
    }

    pub fn get_score(&self, player: Player) -> (r: u16)
        ensures
            r as int == self.board_of(player).score(),
    {
        match player {
            Player::Player1 => self.player_1_board.sum(),
            Player::Player2 => self.player_2_board.sum(),
        }
    }

    /// Player 1's score less player 2's.
    pub fn get_score_difference(&self) -> (r: i16)
        ensures
            r as int == self.board1().score() - self.board2().score(),
    {
        self.player_1_board.sum() as i16 - self.player_2_board.sum() as i16
    }

    pub fn is_game_over(&self) -> (r: bool)
        ensures
            r == self.spec_is_game_over(),
    {
        self.player_1_board.is_full() || self.player_2_board.is_full()
    }

    pub fn get_outcome(&self) -> (r: Outcome)
        ensures
            r == self.spec_outcome(),
    {
        if self.is_game_over() {
            let player_1_score = self.player_1_board.sum();
            let player_2_score = self.player_2_board.sum();
            if player_1_score > player_2_score {
                Outcome::Victory(Player::Player1)
            } else if player_2_score > player_1_score {
                Outcome::Victory(Player::Player2)
            } else {
                Outcome::Draw
            }
        } else {
            Outcome::InProgress
        }
    }

    /// The fresh node reached by playing `m` from this move node: the die is placed on the
    /// active board, the opponent's equal dice in that column are removed, and the opponent
    /// rolls next.
    pub fn with_move_made(&self, m: Move) -> (r: Result<Node, GameError>)
        requires
            m.wf(),
        ensures
            self.kind() is Roll ==> r == Err::<Node, GameError>(GameError::NotAMoveNode),
            self.kind() is Move && !self.board_of(self.active()).is_empty_at(
                m.row as int,
                m.column as int,
            ) ==> r == Err::<Node, GameError>(GameError::SquareOccupied),
            self.spec_is_legal_move(m) ==> (r matches Ok(n) && n.is_fresh() && self.is_successor(
                m,
                n,
            )),
    {
        match self.node_type {
            NodeType::Roll(_) => Err(GameError::NotAMoveNode),
            NodeType::Move(player, die) => {
                let next_player = player.opponent();
                let current_players_board = match self.get_player_board(player).with_move_made(
                    die,
                    m,
                ) {
                    Ok(board) => board,
                    Err(e) => return Err(e),
                };
                let next_players_board = self.get_player_board(next_player).eliminate(
                    die,
                    m.get_column(),
                );
                Ok(
                    Node::from_player_and_boards(
                        next_player,
                        next_players_board,
                        current_players_board,
                        NodeType::Roll(next_player),
                    ),
                )
            },
        }
    }

    /// Appends the child reached by `m` to this move node's children.
    pub fn add_move(&mut self, next_move: Move) -> (r: Result<(), GameError>)
        requires
            next_move.wf(),
        ensures
            final(self).same_position(*old(self)),
            old(self).kind() is Roll ==> r == Err::<(), GameError>(GameError::NotAMoveNode),
            old(self).kind() is Move && !old(self).spec_is_legal_move(next_move) ==> r == Err::<
                (),
                GameError,
            >(GameError::SquareOccupied),
            r is Err ==> final(self).kids() == old(self).kids(),
            old(self).spec_is_legal_move(next_move) ==> r is Ok && final(self).kids().len()
                == old(self).kids().len() + 1 && final(self).kids().take(
                old(self).kids().len() as int,
            ) == old(self).kids() && final(self).kids().last().is_fresh() && old(
                self,
            ).is_successor(next_move, final(self).kids().last()),
    {
        match self.with_move_made(next_move) {
            Ok(node) => {
                self.children.push(node);
                proof {
                    assert(final(self).kids().take(old(self).kids().len() as int) =~= old(
                        self,
                    ).kids());
                }
                Ok(())
            },
            Err(e) => Err(e),
        }
    }

    /// Appends to this roll node one child per face, in ascending order.
    pub fn add_rolls(&mut self) -> (r: Result<(), GameError>)
        ensures
            final(self).same_position(*old(self)),
            old(self).kind() is Move ==> r == Err::<(), GameError>(GameError::NotARollNode)
                && final(self).kids() == old(self).kids(),
            old(self).kind() is Roll ==> r is Ok && final(self).kids().len() == old(
                self,
            ).kids().len() + 6 && final(self).kids().take(old(self).kids().len() as int) == old(
                self,
            ).kids() && forall|i: int|
                0 <= i < 6 ==> {
                    let c = #[trigger] final(self).kids()[old(self).kids().len() + i];
                    c.is_fresh() && old(self).is_roll_successor(face(i), c)
                },
    {
        match self.node_type {
            NodeType::Roll(player) => {
                let ghost n0 = old(self).kids().len();
                let faces = Die::all();
                let mut i: usize = 0;
                while i < 6
                    invariant
                        faces@ == seq![Die::One, Die::Two, Die::Three, Die::Four, Die::Five, Die::Six],
                        i <= 6,
                        self.same_position(*old(self)),
                        self.kind() == NodeType::Roll(player),
                        self.kids().len() == n0 + i,
                        self.kids().take(n0 as int) == old(self).kids(),
                        n0 == old(self).kids().len(),
                        forall|j: int|
                            0 <= j < i ==> {
                                let c = #[trigger] self.kids()[n0 + j];
                                c.is_fresh() && old(self).is_roll_successor(face(j), c)
                            },
                    decreases 6 - i,
                {
                    let new_node = Node::new(
                        self.player_1_board,
                        self.player_2_board,
                        NodeType::Move(player, faces[i]),
                    );
                    let ghost before = self.kids();
                    self.children.push(new_node);
                    proof {
                        assert(self.kids().take(n0 as int) =~= before.take(n0 as int));
                        assert forall|j: int| 0 <= j <= i implies {
                            let c = #[trigger] self.kids()[n0 + j];
                            c.is_fresh() && old(self).is_roll_successor(face(j), c)
                        } by {
                            if j < i {
                                assert(self.kids()[n0 + j] == before[n0 + j]);
                            }
                        }
                    }
                    i += 1;
                }
                Ok(())
            },
            NodeType::Move(_, _) => Err(GameError::NotARollNode),
        }
    }

    pub fn is_leaf(&self) -> (r: bool)
        ensures
            r == self.is_fresh(),
    {
        self.children.len() == 0
    }

    pub fn get_n_children(&self) -> (r: usize)
        ensures
            r == self.kids().len(),
    {
        self.children.len()
    }

    pub fn get_children(&self) -> (r: &Vec<Node>)
        ensures
            r@ == self.kids(),
    {
        &self.children
    }
}

impl Node {
    /// The children a move node gets from its expansion, after the first `start` children:
    /// one per legal move up to row symmetry, in order; for a roll node, one per face.
    pub open spec fn generated_from(self, start: int) -> bool {
        match self.kind() {
            NodeType::Roll(_) => self.kids().len() == start + 6 && forall|i: int|
                0 <= i < 6 ==> {
                    let c = #[trigger] self.kids()[start + i];
                    c.is_fresh() && self.is_roll_successor(face(i), c)
                },
            NodeType::Move(_, _) => {
                let ms = self.legal_moves_up_to_row_symmetry();
                self.kids().len() == start + ms.len() && forall|i: int|
                    0 <= i < ms.len() ==> {
                        let c = #[trigger] self.kids()[start + i];
                        c.is_fresh() && self.is_successor(ms[i], c)
                    }
            },
        }
    }

    /// The tree below this node is exactly what building it `n` moves deep up to row
    /// symmetry yields: nodes where the game is over are not expanded, roll nodes get their
    /// six children, move nodes get one child per legal move up to row symmetry while moves
    /// are left, and each child is built in turn (a roll does not use up a move).
    pub open spec fn is_built(self, n: int) -> bool
        decreases self,
    {
        if self.spec_is_game_over() {
            self.is_fresh()
        } else {
            match self.kind() {
                NodeType::Roll(_) => self.kids().len() == 6 && forall|i: int|
                    0 <= i < 6 ==> self.is_roll_successor(face(i), #[trigger] self.kids()[i])
                        && self.kids()[i].is_built(n),
                NodeType::Move(_, _) => if n <= 0 {
                    self.is_fresh()
                } else {
                    let ms = self.legal_moves_up_to_row_symmetry();
                    self.kids().len() == ms.len() && forall|i: int|
                        0 <= i < ms.len() ==> self.is_successor(ms[i], #[trigger] self.kids()[i])
                            && self.kids()[i].is_built(n - 1)
                },
            }
        }
    }

    /// The first child from index `i` on that holds the given boards and kind.
    pub open spec fn first_child_from(self, b1: Board, b2: Board, kind: NodeType, i: int) -> Option<
        int,
    >
        decreases self.kids().len() - i,
    {
        if i < 0 || i >= self.kids().len() {
            None
        } else if self.kids()[i].is_position(b1, b2, kind) {
            Some(i)
        } else {
            self.first_child_from(b1, b2, kind, i + 1)
        }
    }

    /// The index of the stored child that matches the node reached by `m`, if any.
    pub open spec fn child_index_after_move(self, m: Move) -> Option<int> {
        self.first_child_from(
            self.boards_after_move(m).0,
            self.boards_after_move(m).1,
            self.kind_after_move(),
            0,
        )
    }

    /// Generates this node's children up to row symmetry and appends them: six for a roll
    /// node, one per legal move up to row symmetry for a move node.
    pub fn generate_children_up_to_symmetry(&mut self)
        ensures
            final(self).same_position(*old(self)),
            final(self).kids().take(old(self).kids().len() as int) == old(self).kids(),
            final(self).generated_from(old(self).kids().len() as int),
    {
        match self.node_type {
            NodeType::Roll(_) => {
                let _ = self.add_rolls();
            },
            NodeType::Move(player, die) => {
                let legal_moves = match self.get_legal_moves_up_to_row_symmetry() {
                    Ok(v) => v,
                    Err(_) => Vec::new(),
                };
                let ghost n0 = old(self).kids().len();
                proof {
                    self.lemma_symmetric_moves_are_legal();
                }
                let mut i: usize = 0;
                while i < legal_moves.len()
                    invariant
                        legal_moves@ == old(self).legal_moves_up_to_row_symmetry(),
                        forall|j: int|
                            0 <= j < legal_moves@.len() ==> old(self).spec_is_legal_move(
                                #[trigger] legal_moves@[j],
                            ),
                        i <= legal_moves@.len(),
                        self.same_position(*old(self)),
                        self.kind() == NodeType::Move(player, die),
                        n0 == old(self).kids().len(),
                        self.kids().len() == n0 + i,
                        self.kids().take(n0 as int) == old(self).kids(),
                        forall|j: int|
                            0 <= j < i ==> {
                                let c = #[trigger] self.kids()[n0 + j];
                                c.is_fresh() && old(self).is_successor(legal_moves@[j], c)
                            },
                    decreases legal_moves@.len() - i,
                {
                    let ghost before = self.kids();
                    let _ = self.add_move(legal_moves[i]);
                    proof {
                        assert(self.kids().take(n0 as int) =~= before.take(n0 as int));
                        assert forall|j: int| 0 <= j <= i implies {
                            let c = #[trigger] self.kids()[n0 + j];
                            c.is_fresh() && old(self).is_successor(legal_moves@[j], c)
                        } by {
                            if j < i {
                                assert(self.kids()[n0 + j] == before[n0 + j]);
                            }
                        }
                    }
                    i += 1;
                }
            },
        }
    }

    /// Expands this fresh node `n` moves deep up to row symmetry. Roll layers are free; nodes
    /// where the game is over are not expanded.
    pub fn build_n_moves_up_to_symmetry(&mut self, n: usize)
        requires
            old(self).is_fresh(),
        ensures
            final(self).same_position(*old(self)),
            final(self).is_built(n as int),
        decreases n, if old(self).kind() is Roll {
            1int
        } else {
            0int
        },
    {
        if self.is_game_over() {
            return ;
        }
        match self.node_type {
            NodeType::Roll(player) => {
                let faces = Die::all();
                let mut i: usize = 0;
                while i < 6
                    invariant
                        faces@ == seq![Die::One, Die::Two, Die::Three, Die::Four, Die::Five, Die::Six],
                        i <= 6,
                        self.same_position(*old(self)),
                        self.kind() == NodeType::Roll(player),
                        self.kids().len() == i,
                        forall|j: int|
                            0 <= j < i ==> self.is_roll_successor(face(j), #[trigger] self.kids()[j])
                                && self.kids()[j].is_built(n as int),
                    decreases 6 - i,
                {
                    let mut child = Node::new(
                        self.player_1_board,
                        self.player_2_board,
                        NodeType::Move(player, faces[i]),
                    );
                    child.build_n_moves_up_to_symmetry(n);
                    let ghost before = self.kids();
                    self.children.push(child);
                    proof {
                        assert forall|j: int| 0 <= j <= i implies self.is_roll_successor(
                            face(j),
                            #[trigger] self.kids()[j],
                        ) && self.kids()[j].is_built(n as int) by {
                            if j < i {
                                assert(self.kids()[j] == before[j]);
                            }
                        }
                    }
                    i += 1;
                }
            },
            NodeType::Move(player, die) => {
                if n == 0 {
                    return ;
                }
                let legal_moves = match self.get_legal_moves_up_to_row_symmetry() {
                    Ok(v) => v,
                    Err(_) => Vec::new(),
                };
                proof {
                    self.lemma_symmetric_moves_are_legal();
                }
                let mut i: usize = 0;
                while i < legal_moves.len()
                    invariant
                        legal_moves@ == old(self).legal_moves_up_to_row_symmetry(),
                        forall|j: int|
                            0 <= j < legal_moves@.len() ==> old(self).spec_is_legal_move(
                                #[trigger] legal_moves@[j],
                            ),
                        i <= legal_moves@.len(),
                        n > 0,
                        self.same_position(*old(self)),
                        self.kind() == NodeType::Move(player, die),
                        self.kids().len() == i,
                        forall|j: int|
                            0 <= j < i ==> old(self).is_successor(
                                legal_moves@[j],
                                #[trigger] self.kids()[j],
                            ) && self.kids()[j].is_built(n - 1),
                    decreases legal_moves@.len() - i,
                {
                    let mut child = match self.with_move_made(legal_moves[i]) {
                        Ok(c) => c,
                        Err(_) => Node::empty(),
                    };
                    child.build_n_moves_up_to_symmetry(n - 1);
                    let ghost before = self.kids();
                    self.children.push(child);
                    proof {
                        assert forall|j: int| 0 <= j <= i implies old(self).is_successor(
                            legal_moves@[j],
                            #[trigger] self.kids()[j],
                        ) && self.kids()[j].is_built(n - 1) by {
                            if j < i {
                                assert(self.kids()[j] == before[j]);
                            }
                        }
                    }
                    i += 1;
                }
            },
        }
    }

    /// Expands this fresh node until the game is over on every branch, up to row symmetry.
    /// Eliminations can bring a game back to an earlier position, so the complete tree may be
    /// infinite: the expansion stops after `usize::MAX` moves, far beyond what memory holds.
    pub fn build_entire_tree_up_to_symmetry(&mut self)
        requires
            old(self).is_fresh(),
        ensures
            final(self).same_position(*old(self)),
            final(self).is_built(usize::MAX as int),
    {
        self.build_n_moves_up_to_symmetry(usize::MAX);
    }

    /// Each legal move up to row symmetry is a legal move.
    pub proof fn lemma_symmetric_moves_are_legal(self)
        ensures
            self.kind() is Move ==> forall|j: int|
                0 <= j < self.legal_moves_up_to_row_symmetry().len() ==> self.spec_is_legal_move(
                    #[trigger] self.legal_moves_up_to_row_symmetry()[j],
                ),
    {
        let b = self.board_of(self.active());
        b.lemma_symmetric_empties_are_empty(3);
    }

    /// The child stored for the move `m` of a move node: found by comparing positions, the
    /// children's own children left out.
    pub fn get_child(&self, row: usize, col: usize) -> (r: Result<&Node, GameError>)
        requires
            row < 3,
            col < 3,
        ensures
            self.kind() is Roll ==> r == Err::<&Node, GameError>(GameError::NotAMoveNode),
            self.kind() is Move && !self.board_of(self.active()).is_empty_at(row as int, col as int)
                ==> r == Err::<&Node, GameError>(GameError::SquareOccupied),
            self.spec_is_legal_move(Move { row, column: col }) ==> match self.child_index_after_move(
                Move { row, column: col },
            ) {
                Some(i) => r matches Ok(c) && *c == self.kids()[i],
                None => r == Err::<&Node, GameError>(GameError::NoSuchChild),
            },
    {
        let m = Move::new(row, col);
        let expected = match self.with_move_made(m) {
            Ok(node) => node,
            Err(e) => return Err(e),
        };
        let ghost b1 = self.boards_after_move(m).0;
        let ghost b2 = self.boards_after_move(m).1;
        let ghost kind = self.kind_after_move();
        let mut i: usize = 0;
        while i < self.children.len()
            invariant
                m == (Move { row, column: col }),
                self.spec_is_legal_move(m),
                b1 == self.boards_after_move(m).0,
                b2 == self.boards_after_move(m).1,
                kind == self.kind_after_move(),
                expected.is_position(b1, b2, kind),
                i <= self.kids().len(),
                self.first_child_from(b1, b2, kind, 0) == self.first_child_from(b1, b2, kind, i as int),
            decreases self.kids().len() - i,
        {
            if self.children[i].equals_up_to_children(&expected) {
                assert(self.first_child_from(b1, b2, kind, i as int) == Some(i as int));
                return Ok(&self.children[i]);
            }
            assert(self.first_child_from(b1, b2, kind, i as int) == self.first_child_from(
                b1,
                b2,
                kind,
                i + 1,
            ));
            i += 1;
        }
        Err(GameError::NoSuchChild)
    }

    pub fn get_child_from_move(&self, m: Move) -> (r: Result<&Node, GameError>)
        requires
            m.wf(),
        ensures
            self.kind() is Roll ==> r == Err::<&Node, GameError>(GameError::NotAMoveNode),
            self.kind() is Move && !self.board_of(self.active()).is_empty_at(
                m.row as int,
                m.column as int,
            ) ==> r == Err::<&Node, GameError>(GameError::SquareOccupied),
            self.spec_is_legal_move(m) ==> match self.child_index_after_move(m) {
                Some(i) => r matches Ok(c) && *c == self.kids()[i],
                None => r == Err::<&Node, GameError>(GameError::NoSuchChild),
            },
    {
        self.get_child(m.get_row(), m.get_column())
    }

    /// The child of an expanded roll node for the face `roll`.
    pub fn get_child_from_roll(&self, roll: Die) -> (r: Result<&Node, GameError>)
        ensures
            self.kind() is Move ==> r == Err::<&Node, GameError>(GameError::NotARollNode),
            self.kind() is Roll && self.kids().len() != 6 ==> r == Err::<&Node, GameError>(
                GameError::RollsNotExpanded,
            ),
            self.kind() is Roll && self.kids().len() == 6 ==> (r matches Ok(c) && *c
                == self.kids()[roll.value() - 1]),
    {
        match self.node_type {
            NodeType::Roll(_) => {
                if self.children.len() != 6 {
                    Err(GameError::RollsNotExpanded)
                } else {
                    Ok(&self.children[(roll.to_value() - 1) as usize])
                }
            },
            NodeType::Move(_, _) => Err(GameError::NotARollNode),
        }
    }
}

impl Node {
    /// `self` is a deep copy of `other`: the same position, and copies of its children.
    pub open spec fn is_copy_of(self, other: Node) -> bool
        decreases self,
    {
        self.same_position(other) && self.kids().len() == other.kids().len() && forall|i: int|
            0 <= i < self.kids().len() ==> (#[trigger] self.kids()[i]).is_copy_of(other.kids()[i])
    }

    /// The number of nodes on the longest path from this node down to a leaf.
    pub open spec fn depth(self) -> nat
        decreases self, 1int, 0int,
    {
        1 + self.children_depth(self.kids().len() as int)
    }

    /// The largest depth among the first `k` children, 0 when there are none.
    pub open spec fn children_depth(self, k: int) -> nat
        decreases self, 0int, k,
    {
        if k <= 0 || k > self.kids().len() {
            0
        } else {
            let a = self.children_depth(k - 1);
            let b = self.kids()[k - 1].depth();
            if a >= b {
                a
            } else {
                b
            }
        }
    }

    /// A deep copy of the node and everything below it.
    pub fn deep_copy(&self) -> (r: Node)
        ensures
            r.is_copy_of(*self),
        decreases self,
    {
        let mut children: Vec<Node> = Vec::new();
        let mut i: usize = 0;
        while i < self.children.len()
            invariant
                i <= self.kids().len(),
                children@.len() == i,
                forall|j: int| 0 <= j < i ==> (#[trigger] children@[j]).is_copy_of(self.kids()[j]),
            decreases self.kids().len() - i,
        {
            let c = self.children[i].deep_copy();
            children.push(c);
            i += 1;
        }
        Node {
            player_1_board: self.player_1_board,
            player_2_board: self.player_2_board,
            node_type: self.node_type,
            children,
        }
    }

    /// The number of nodes on the longest path from this node down to a leaf, at most
    /// `usize::MAX`.
    pub fn get_max_depth(&self) -> (r: usize)
        ensures
            r as int == if self.depth() < usize::MAX {
                self.depth() as int
            } else {
                usize::MAX as int
            },
        decreases self,
    {
        let mut deepest: usize = 0;
        let mut i: usize = 0;
        while i < self.children.len()
            invariant
                i <= self.kids().len(),
                deepest as int == if self.children_depth(i as int) < usize::MAX {
                    self.children_depth(i as int) as int
                } else {
                    usize::MAX as int
                },
            decreases self.kids().len() - i,
        {
            let d = self.children[i].get_max_depth();
            if d > deepest {
                deepest = d;
            }
            i += 1;
        }
        if deepest == usize::MAX {
            usize::MAX
        } else {
            deepest + 1
        }
    }

    /// A copy of this roll node with its six roll children appended, one per face; the
    /// face rolled picks one of them afterwards.
    pub fn with_rolls(&self, _roll: Die) -> (r: Result<Node, GameError>)
        ensures
            self.kind() is Move ==> r == Err::<Node, GameError>(GameError::NotARollNode),
            self.kind() is Roll ==> (r matches Ok(n) && n.same_position(*self)
                && n.kids().take(self.kids().len() as int).len() == self.kids().len()
                && n.generated_from(self.kids().len() as int)),
    {
        match self.node_type {
            NodeType::Roll(_) => {
                let mut copy = self.deep_copy();
                let _ = copy.add_rolls();
                Ok(copy)
            },
            NodeType::Move(_, _) => Err(GameError::NotARollNode),
        }
    }

    /// The node as text, the given player's board shown first as "Player".
    pub open spec fn perspective_text(self, player: Player) -> Seq<char> {
        let roll = match self.kind() {
            NodeType::Roll(_) => Seq::<char>::empty(),
            NodeType::Move(_, d) => seq![crate::board::die_char(d), '\n'],
        };
        "Player:\n"@ + self.board_of(player).text() + "\n\nOpponent:\n"@ + self.board_of(
            player.spec_opponent(),
        ).text() + "\n\nRoll: "@ + roll + "\n"@
    }

    pub fn to_string_from_perspective(&self, player: Player) -> (r: String)
        ensures
            r@ == self.perspective_text(player),
    {
        let mut text = String::from_str("Player:\n");
        text.append(self.get_player_board(player).to_string().as_str());
        text.append("\n\nOpponent:\n");
        text.append(self.get_player_board(player.opponent()).to_string().as_str());
        text.append("\n\nRoll: ");
        match self.node_type {
            NodeType::Roll(_) => {},
            NodeType::Move(_, die) => {
                proof {
                    reveal_strlit("\n");
                }
                text.append(die.to_str());
                text.append("\n");
            },
        }
        text.append("\n");
        proof {
            assert(text@ =~= self.perspective_text(player));
        }
        text
    }
}

impl Clone for Node {
    fn clone(&self) -> (r: Node)
        ensures
            r.is_copy_of(*self),
    {
        self.deep_copy()
    }
}

/// The number of legal moves up to row symmetry is the number of columns of the active
/// board with an empty cell.
pub proof fn lemma_symmetric_move_count(t: Node)
    ensures
        t.legal_moves_up_to_row_symmetry().len() == t.board_of(t.active()).open_columns(),
{
    t.board_of(t.active()).lemma_symmetric_empties_count();
}

/// The board of `p` once the move `m` has been played from this node.
pub open spec fn board_after_move(t: Node, m: Move, p: Player) -> Board {
    match p {
        Player::Player1 => t.boards_after_move(m).0,
        Player::Player2 => t.boards_after_move(m).1,
    }
}

/// When the active player places die `d` in column `c`, no die `d` is left in column `c`
/// of the opponent's board.
pub proof fn lemma_move_eliminates(t: Node, m: Move)
    requires
        t.kind() is Move,
        m.wf(),
    ensures
        forall|row: int|
            0 <= row < 3 ==> #[trigger] board_after_move(t, m, t.active().spec_opponent()).cell(
                row,
                m.column as int,
            ) != Square::Die(t.kind()->Move_1),
{
    t.board_of(t.active().spec_opponent()).lemma_eliminate_clears(t.kind()->Move_1, m.column as int);
}

/// Once a move node is expanded, the child stored for each legal move up to row symmetry
/// is the node that the move reaches.
pub proof fn lemma_child_after_move_is_successor(t: Node, m: Move)
    requires
        t.kind() is Move,
        t.generated_from(0),
        t.legal_moves_up_to_row_symmetry().contains(m),
    ensures
        t.child_index_after_move(m) matches Some(i) && t.is_successor(m, t.kids()[i]),
{
    let ms = t.legal_moves_up_to_row_symmetry();
    let j = choose|j: int| 0 <= j < ms.len() && ms[j] == m;
    assert(t.kids()[0 + j].is_position(
        t.boards_after_move(m).0,
        t.boards_after_move(m).1,
        t.kind_after_move(),
    ));
    lemma_first_child_found(
        t,
        t.boards_after_move(m).0,
        t.boards_after_move(m).1,
        t.kind_after_move(),
        0,
        j,
    );
}

/// A child found by position lies among the children.
pub proof fn lemma_first_child_in_range(t: Node, b1: Board, b2: Board, kind: NodeType, i: int)
    ensures
        t.first_child_from(b1, b2, kind, i) matches Some(k) ==> 0 <= k < t.kids().len(),
    decreases t.kids().len() - i,
{
    if 0 <= i < t.kids().len() && !t.kids()[i].is_position(b1, b2, kind) {
        lemma_first_child_in_range(t, b1, b2, kind, i + 1);
    }
}

proof fn lemma_first_child_found(t: Node, b1: Board, b2: Board, kind: NodeType, i: int, j: int)
    requires
        0 <= i <= j < t.kids().len(),
        t.kids()[j].is_position(b1, b2, kind),
    ensures
        t.first_child_from(b1, b2, kind, i) matches Some(k) && t.kids()[k].is_position(b1, b2, kind),
    decreases j - i,
{
    if !t.kids()[i].is_position(b1, b2, kind) {
        lemma_first_child_found(t, b1, b2, kind, i + 1, j);
    }
}

fn moves_from_cells(cells: &Vec<(usize, usize)>) -> (r: Vec<Move>)
    ensures
        r@ == moves_of(cells@),
{
    let mut moves: Vec<Move> = Vec::new();
    let mut i: usize = 0;
    while i < cells.len()
        invariant
            i <= cells@.len(),
            moves@ == moves_of(cells@.take(i as int)),
        decreases cells@.len() - i,
    {
        let (row, column) = cells[i];
        moves.push(Move::new(row, column));
        proof {
            assert(moves_of(cells@.take(i + 1)) =~= moves_of(cells@.take(i as int)).push(
                Move { row, column },
            ));
        }
        i += 1;
    }
    proof {
        assert(cells@.take(cells@.len() as int) =~= cells@);
    }
    moves
}

} // verus!
