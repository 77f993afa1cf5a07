use vstd::prelude::*;

verus! {

/// Every way an operation of this library can fail.
#[derive(Debug, Clone, Copy, PartialEq, Eq, Structural)]
pub enum GameError {
    /// A character that is not one of '1'..'6'.
    InvalidDieChar,
    /// An integer outside 1..=6.
    InvalidDieValue,
    /// A board text of the wrong shape or with a bad character.
    InvalidBoardString,
    /// A move text that is not a row digit followed by a column digit.
    InvalidMoveString,
    /// A die was placed on a cell that already holds one.
    SquareOccupied,
    /// A move was asked of a node where a die is rolled.
    NotAMoveNode,
    /// A roll was asked of a node where a die is placed.
    NotARollNode,
    /// A roll node whose six children have not been generated.
    RollsNotExpanded,
    /// No child of the node matches the requested move.
    NoSuchChild,
    /// The outcome objective met a leaf where the game is still going on.
    CannotEvaluateInProgressLeaf,
    /// The solver was handed a roll node as its root.
    RollRoot,
    /// A bitboard text that is not nine characters '0' or '1'.
    InvalidBinaryString,
    /// The tree is too deep for exact evaluation in 128-bit arithmetic.
    SearchTooDeep,
}

} // verus!
