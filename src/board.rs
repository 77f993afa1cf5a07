use vstd::prelude::*;

use crate::error::GameError;

verus! {

/// One face of a six-sided die.
#[derive(Debug, Clone, Copy, PartialEq, Eq, Structural)]
pub enum Die {
    One,
    Two,
    Three,
    Four,
    Five,
    Six,
}

/// The character that writes a die face.
pub open spec fn die_char(d: Die) -> char {
    match d {
        Die::One => '1',
        Die::Two => '2',
        Die::Three => '3',
        Die::Four => '4',
        Die::Five => '5',
        Die::Six => '6',
    }
}

/// The die face written by a character, if any.
pub open spec fn die_of_char(c: char) -> Option<Die> {
    if c == '1' {
        Some(Die::One)
    } else if c == '2' {
        Some(Die::Two)
    } else if c == '3' {
        Some(Die::Three)
    } else if c == '4' {
        Some(Die::Four)
    } else if c == '5' {
        Some(Die::Five)
    } else if c == '6' {
        Some(Die::Six)
    } else {
        None
    }
}

/// The die face of a value, if it lies in 1..=6.
pub open spec fn die_of_value(v: int) -> Option<Die> {
    if v == 1 {
        Some(Die::One)
    } else if v == 2 {
        Some(Die::Two)
    } else if v == 3 {
        Some(Die::Three)
    } else if v == 4 {
        Some(Die::Four)
    } else if v == 5 {
        Some(Die::Five)
    } else if v == 6 {
        Some(Die::Six)
    } else {
        None
    }
}

impl Die {
    /// The number of pips on the face.
    pub open spec fn value(self) -> int {
        match self {
            Die::One => 1,
            Die::Two => 2,
            Die::Three => 3,
            Die::Four => 4,
            Die::Five => 5,
            Die::Six => 6,
        }
    }

    pub fn new(value: u8) -> (r: Result<Die, GameError>)
        ensures
            die_of_value(value as int) matches Some(d) ==> r == Ok::<Die, GameError>(d),
            die_of_value(value as int) is None ==> r == Err::<Die, GameError>(
                GameError::InvalidDieValue,
            ),
    {
        match value {
            1 => Ok(Die::One),
            2 => Ok(Die::Two),
            3 => Ok(Die::Three),
            4 => Ok(Die::Four),
            5 => Ok(Die::Five),
            6 => Ok(Die::Six),
            _ => Err(GameError::InvalidDieValue),
        }
    }

    pub fn to_value(&self) -> (r: u16)
        ensures
            r as int == self.value(),
    {
        match self {
            Die::One => 1,
            Die::Two => 2,
            Die::Three => 3,
            Die::Four => 4,
            Die::Five => 5,
            Die::Six => 6,
        }
    }

    /// The six faces in ascending order.
    pub fn all() -> (r: Vec<Die>)
        ensures
            r@ == seq![Die::One, Die::Two, Die::Three, Die::Four, Die::Five, Die::Six],
    {
        vec![Die::One, Die::Two, Die::Three, Die::Four, Die::Five, Die::Six]
    }

    pub fn to_str(&self) -> (r: &'static str)
        ensures
            r@ == seq![die_char(*self)],
    {
        match self {
            Die::One => {
                proof {
                    reveal_strlit("1");
                }
                "1"
            },
            Die::Two => {
                proof {
                    reveal_strlit("2");
                }
                "2"
            },
            Die::Three => {
                proof {
                    reveal_strlit("3");
                }
                "3"
            },
            Die::Four => {
                proof {
                    reveal_strlit("4");
                }
                "4"
            },
            Die::Five => {
                proof {
                    reveal_strlit("5");
                }
                "5"
            },
            Die::Six => {
                proof {
                    reveal_strlit("6");
                }
                "6"
            },
        }
    }

    pub fn to_string(&self) -> (r: String)
        ensures
            r@ == seq![die_char(*self)],
    {
        String::from_str(self.to_str())
    }

    /// A face drawn at random by the thread-local generator.
    pub fn random() -> (r: Die) {
        match Die::new(draw_face()) {
            Ok(d) => d,
            Err(_) => Die::One,
        }
    }

    pub fn from_char(c: char) -> (r: Result<Die, GameError>)
        ensures
            die_of_char(c) matches Some(d) ==> r == Ok::<Die, GameError>(d),
            die_of_char(c) is None ==> r == Err::<Die, GameError>(GameError::InvalidDieChar),
    {
        match c {
            '1' => Ok(Die::One),
            '2' => Ok(Die::Two),
            '3' => Ok(Die::Three),
            '4' => Ok(Die::Four),
            '5' => Ok(Die::Five),
            '6' => Ok(Die::Six),
            _ => Err(GameError::InvalidDieChar),
        }
    }
}

/// Relies on rand::Rng::gen_range on the thread-local generator: a value drawn from 1..7,
/// the upper bound excluded.
#[verifier::external_body]
fn draw_face() -> (r: u8)
    ensures
        1 <= r <= 6,
{
    let mut rng = rand::thread_rng();
    rand::Rng::gen_range(&mut rng, 1..7)
}

/// Relies on rand::random: a value drawn by the thread-local generator. Nothing is promised
/// of it.
pub assume_specification<T>[ rand::random::<T> ]() -> (r: T)
    where
        rand::distributions::Standard: rand::distributions::Distribution<T>,
;

impl std::ops::Add for Die {
    type Output = u16;

    /// The sum of the pips of two dice.
    fn add(self, rhs: Die) -> (r: u16)
        ensures
            r as int == self.value() + rhs.value(),
    {
        self.to_value() + rhs.to_value()
    }
}

impl vstd::std_specs::ops::AddSpecImpl for Die {
    open spec fn obeys_add_spec() -> bool {
        true
    }

    open spec fn add_req(self, rhs: Die) -> bool {
        true
    }

    open spec fn add_spec(self, rhs: Die) -> u16 {
        (self.value() + rhs.value()) as u16
    }
}

/// A cell of a board: empty, or holding one die.
#[derive(Debug, Clone, Copy, PartialEq, Eq, Structural)]
pub enum Square {
    Empty,
    Die(Die),
}

/// The character that writes a square.
pub open spec fn square_char(s: Square) -> char {
    match s {
        Square::Empty => '_',
        Square::Die(d) => die_char(d),
    }
}

/// The square written by a character, if any.
pub open spec fn square_of_char(c: char) -> Option<Square> {
    if c == '_' {
        Some(Square::Empty)
    } else {
        match die_of_char(c) {
            Some(d) => Some(Square::Die(d)),
            None => None,
        }
    }
}

impl Square {
    pub fn to_str(&self) -> (r: &'static str)
        ensures
            r@ == seq![square_char(*self)],
    {
        match self {
            Square::Empty => {
                proof {
                    reveal_strlit("_");
                }
                "_"
            },
            Square::Die(d) => d.to_str(),
        }
    }

    pub fn to_string(&self) -> (r: String)
        ensures
            r@ == seq![square_char(*self)],
    {
        String::from_str(self.to_str())
    }

    pub fn from_char(c: char) -> (r: Result<Square, GameError>)
        ensures
            square_of_char(c) matches Some(s) ==> r == Ok::<Square, GameError>(s),
            square_of_char(c) is None ==> r == Err::<Square, GameError>(
                GameError::InvalidDieChar,
            ),
    {
        if c == '_' {
            Ok(Square::Empty)
        } else {
            match Die::from_char(c) {
                Ok(d) => Ok(Square::Die(d)),
                Err(e) => Err(e),
            }
        }
    }
}

/// One of the two players. Player1 maximises, Player2 minimises.
#[derive(Debug, Clone, Copy, PartialEq, Eq, Structural)]
pub enum Player {
    Player1,
    Player2,
}

/// How one evaluation stands against another from a player's side.
#[derive(Debug, Clone, Copy, PartialEq, Eq, Structural)]
pub enum Comparison {
    Better,
    Worse,
    Equal,
}

impl Player {
    pub open spec fn spec_opponent(self) -> Player {
        match self {
            Player::Player1 => Player::Player2,
            Player::Player2 => Player::Player1,
        }
    }

    /// How `evaluation` compares with `other_evaluation` for this player:
    /// Player1 prefers the larger value, Player2 the smaller.
    pub open spec fn spec_compare(self, evaluation: int, other_evaluation: int) -> Comparison {
        if evaluation == other_evaluation {
            Comparison::Equal
        } else if (self == Player::Player1) == (evaluation > other_evaluation) {
            Comparison::Better
        } else {
            Comparison::Worse
        }
    }

    pub fn opponent(&self) -> (r: Player)
        ensures
            r == self.spec_opponent(),
    {
        match self {
            Player::Player1 => Player::Player2,
            Player::Player2 => Player::Player1,
        }
    }

    pub fn to_string(&self) -> (r: String)
        ensures
            *self == Player::Player1 ==> r@ == "Player 1"@,
            *self == Player::Player2 ==> r@ == "Player 2"@,
    {
        match self {
            Player::Player1 => String::from_str("Player 1"),
            Player::Player2 => String::from_str("Player 2"),
        }
    }

    /// A player picked at random.
    pub fn get_random() -> (r: Player) {
        if rand::random::<bool>() {
            Player::Player1
        } else {
            Player::Player2
        }
    }

    /// Compares two evaluations given at one common scale.
    pub fn compare_evaluation(&self, evaluation: i128, other_evaluation: i128) -> (r: Comparison)
        ensures
            r == self.spec_compare(evaluation as int, other_evaluation as int),
    {
        if evaluation == other_evaluation {
            return Comparison::Equal;
        }
        match self {
            Player::Player1 => if evaluation > other_evaluation {
                Comparison::Better
            } else {
                Comparison::Worse
            },
            Player::Player2 => if evaluation < other_evaluation {
                Comparison::Better
            } else {
                Comparison::Worse
            },
        }
    }
}

/// The state of a game: won by a player, drawn, or still going on.
#[derive(Debug, Clone, Copy, PartialEq, Eq, Structural)]
pub enum Outcome {
    Victory(Player),
    Draw,
    InProgress,
}

impl Outcome {
    pub fn to_string(&self) -> (r: String)
        ensures
            *self == Outcome::Victory(Player::Player1) ==> r@ == "Player 1 wins"@,
            *self == Outcome::Victory(Player::Player2) ==> r@ == "Player 2 wins"@,
            *self == Outcome::Draw ==> r@ == "Draw"@,
            *self == Outcome::InProgress ==> r@ == "Game in progress"@,
    {
        match self {
            Outcome::Victory(Player::Player1) => String::from_str("Player 1 wins"),
            Outcome::Victory(Player::Player2) => String::from_str("Player 2 wins"),
            Outcome::Draw => String::from_str("Draw"),
            Outcome::InProgress => String::from_str("Game in progress"),
        }
    }
}

/// Whether a character has the Unicode White_Space property, as `char::is_whitespace` decides.
pub open spec fn is_white_space(c: char) -> bool {
    let u = c as u32;
    (0x9 <= u && u <= 0xd) || u == 0x20 || u == 0x85 || u == 0xa0 || u == 0x1680 || (0x2000 <= u
        && u <= 0x200a) || u == 0x2028 || u == 0x2029 || u == 0x202f || u == 0x205f || u == 0x3000
}

/// `t` without its white space.
pub open spec fn without_white_space(t: Seq<char>) -> Seq<char>
    decreases t.len(),
{
    if t.len() == 0 {
        t
    } else if is_white_space(t.last()) {
        without_white_space(t.drop_last())
    } else {
        without_white_space(t.drop_last()).push(t.last())
    }
}

/// `t` without its spaces and tabs.
pub open spec fn without_blanks(t: Seq<char>) -> Seq<char>
    decreases t.len(),
{
    if t.len() == 0 {
        t
    } else if t.last() == ' ' || t.last() == '\t' {
        without_blanks(t.drop_last())
    } else {
        without_blanks(t.drop_last()).push(t.last())
    }
}

pub fn is_white_space_char(c: char) -> (r: bool)
    ensures
        r == is_white_space(c),
{
    let u = c as u32;
    (0x9 <= u && u <= 0xd) || u == 0x20 || u == 0x85 || u == 0xa0 || u == 0x1680 || (0x2000 <= u
        && u <= 0x200a) || u == 0x2028 || u == 0x2029 || u == 0x202f || u == 0x205f || u == 0x3000
}

/// The characters of `s` that are kept: all but white space when `blanks_only` is false,
/// all but spaces and tabs when it is true.
fn strip(s: &str, blanks_only: bool) -> (r: Vec<char>)
    ensures
        !blanks_only ==> r@ == without_white_space(s@),
        blanks_only ==> r@ == without_blanks(s@),
{
    let n = s.unicode_len();
    let mut kept: Vec<char> = Vec::new();
    let mut i: usize = 0;
    while i < n
        invariant
            n == s@.len(),
            i <= n,
            !blanks_only ==> kept@ == without_white_space(s@.take(i as int)),
            blanks_only ==> kept@ == without_blanks(s@.take(i as int)),
        decreases n - i,
    {
        let c = s.get_char(i);
        let drop = if blanks_only {
            c == ' ' || c == '\t'
        } else {
            is_white_space_char(c)
        };
        if !drop {
            kept.push(c);
        }
        proof {
            let next = s@.take(i + 1);
            assert(next.drop_last() =~= s@.take(i as int));
            assert(next.last() == c);
        }
        i += 1;
    }
    proof {
        assert(s@.take(n as int) =~= s@);
    }
    kept
}

/// The digit that writes a row or column index.
pub open spec fn index_char(i: int) -> char {
    if i == 0 {
        '0'
    } else if i == 1 {
        '1'
    } else {
        '2'
    }
}

/// The row or column index written by a character, if any.
pub open spec fn index_of_char(c: char) -> Option<usize> {
    if c == '0' {
        Some(0usize)
    } else if c == '1' {
        Some(1usize)
    } else if c == '2' {
        Some(2usize)
    } else {
        None
    }
}

/// The move written by a text, once white space is taken out: a row digit, then a column digit.
pub open spec fn parse_move(t: Seq<char>) -> Option<Move> {
    let u = without_white_space(t);
    if u.len() == 2 && index_of_char(u[0]) is Some && index_of_char(u[1]) is Some {
        Some(Move { row: index_of_char(u[0])->0, column: index_of_char(u[1])->0 })
    } else {
        None
    }
}

/// A placement on a board: the row (0 is the top) and the column (0 is the leftmost).
#[derive(Debug, Clone, Copy, PartialEq, Eq, Structural)]
pub struct Move {
    pub row: usize,
    pub column: usize,
}

impl Move {
    /// The move addresses a cell of the 3 by 3 board.
    pub open spec fn wf(self) -> bool {
        self.row < 3 && self.column < 3
    }

    /// The text of a move: row digit, a space, column digit.
    pub open spec fn text(self) -> Seq<char> {
        seq![index_char(self.row as int), ' ', index_char(self.column as int)]
    }

    pub fn new(row: usize, column: usize) -> (r: Move)
        ensures
            r == (Move { row, column }),
    {
        Move { row, column }
    }

    pub fn get_row(&self) -> (r: usize)
        ensures
            r == self.row,
    {
        self.row
    }

    pub fn get_column(&self) -> (r: usize)
        ensures
            r == self.column,
    {
        self.column
    }

    /// The nine moves, row by row.
    pub fn all() -> (r: Vec<Move>)
        ensures
            r@.len() == 9,
            forall|i: int| 0 <= i < 9 ==> #[trigger] r@[i] == (Move { row: (i / 3) as usize, column: (i % 3) as usize }),
    {
        let mut moves: Vec<Move> = Vec::new();
        let mut row: usize = 0;
        while row < 3
            invariant
                row <= 3,
                moves@.len() == 3 * row,
                forall|i: int| 0 <= i < 3 * row ==> #[trigger] moves@[i] == (Move { row: (i / 3) as usize, column: (i % 3) as usize }),
            decreases 3 - row,
        {
            let mut column: usize = 0;
            while column < 3
                invariant
                    row < 3,
                    column <= 3,
                    moves@.len() == 3 * row + column,
                    forall|i: int| 0 <= i < 3 * row + column ==> #[trigger] moves@[i] == (Move { row: (i / 3) as usize, column: (i % 3) as usize }),
                decreases 3 - column,
            {
                moves.push(Move::new(row, column));
                column += 1;
            }
            row += 1;
        }
        moves
    }

    pub fn to_string(&self) -> (r: String)
        requires
            self.wf(),
        ensures
            r@ == self.text(),
    {
        let mut text = String::from_str(index_str(self.row));
        proof {
            reveal_strlit(" ");
        }
        text.append(" ");
        text.append(index_str(self.column));
        proof {
            assert(text@ =~= self.text());
        }
        text
    }

    pub fn from_string(s: &str) -> (r: Result<Move, GameError>)
        ensures
            parse_move(s@) matches Some(m) ==> r == Ok::<Move, GameError>(m),
            parse_move(s@) is None ==> r == Err::<Move, GameError>(GameError::InvalidMoveString),
    {
        let kept = strip(s, false);
        if kept.len() != 2 {
            return Err(GameError::InvalidMoveString);
        }
        let row = match index_from_char(kept[0]) {
            Some(i) => i,
            None => return Err(GameError::InvalidMoveString),
        };
        let column = match index_from_char(kept[1]) {
            Some(i) => i,
            None => return Err(GameError::InvalidMoveString),
        };
        Ok(Move { row, column })
    }
}

fn index_str(i: usize) -> (r: &'static str)
    requires
        i < 3,
    ensures
        r@ == seq![index_char(i as int)],
{
    if i == 0 {
        proof {
            reveal_strlit("0");
        }
        "0"
    } else if i == 1 {
        proof {
            reveal_strlit("1");
        }
        "1"
    } else {
        proof {
            reveal_strlit("2");
        }
        "2"
    }
}

fn index_from_char(c: char) -> (r: Option<usize>)
    ensures
        r == index_of_char(c),
{
    if c == '0' {
        Some(0)
    } else if c == '1' {
        Some(1)
    } else if c == '2' {
        Some(2)
    } else {
        None
    }
}

proof fn lemma_without_white_space_push(t: Seq<char>, c: char)
    ensures
        without_white_space(t.push(c)) == if is_white_space(c) {
            without_white_space(t)
        } else {
            without_white_space(t).push(c)
        },
{
    assert(t.push(c).drop_last() =~= t);
}

/// The round trip of a move through its text.
pub proof fn lemma_move_text_round_trip(m: Move)
    requires
        m.wf(),
    ensures
        parse_move(m.text()) == Some(m),
{
    let r = index_char(m.row as int);
    let c = index_char(m.column as int);
    let e = Seq::<char>::empty();
    assert(without_white_space(e) == e);
    lemma_without_white_space_push(e, r);
    assert(e.push(r) =~= seq![r]);
    lemma_without_white_space_push(seq![r], ' ');
    assert(seq![r].push(' ') =~= seq![r, ' ']);
    lemma_without_white_space_push(seq![r, ' '], c);
    assert(seq![r, ' '].push(c) =~= m.text());
    assert(without_white_space(m.text()) =~= seq![r, c]);
}

/// The column of three squares, top to bottom.
#[derive(Debug, Clone, Copy, PartialEq, Eq, Structural)]
pub struct Column {
    pub(crate) top: Square,
    pub(crate) centre: Square,
    pub(crate) bottom: Square,
}

impl Column {
    pub open(crate) spec fn at(self, row: int) -> Square {
        if row == 0 {
            self.top
        } else if row == 1 {
            self.centre
        } else {
            self.bottom
        }
    }

    pub open(crate) spec fn with_at(self, row: int, sq: Square) -> Column {
        if row == 0 {
            Column { top: sq, ..self }
        } else if row == 1 {
            Column { centre: sq, ..self }
        } else {
            Column { bottom: sq, ..self }
        }
    }
}

/// The value of the die on a square, 0 for an empty one.
pub open spec fn square_value(s: Square) -> int {
    match s {
        Square::Empty => 0,
        Square::Die(d) => d.value(),
    }
}

/// The multiplier of a column whose squares are `s0`, `s1`, `s2`.
pub open spec fn multiplicity_of(s0: Square, s1: Square, s2: Square) -> int {
    if s0 != Square::Empty && s0 == s1 && s1 == s2 {
        3
    } else if (s0 != Square::Empty && s0 == s1) || (s1 != Square::Empty && s1 == s2) || (s0
        != Square::Empty && s0 == s2) {
        2
    } else {
        1
    }
}

/// The column-major position `k` (0..9) as a (row, column) pair.
pub open spec fn position(k: int) -> (usize, usize) {
    ((k % 3) as usize, (k / 3) as usize)
}

/// A 3 by 3 grid of squares, addressed by (row, column).
#[derive(Debug, Clone, Copy, PartialEq, Eq, Structural)]
pub struct Board {
    pub(crate) left: Column,
    pub(crate) centre: Column,
    pub(crate) right: Column,
}

impl Board {
    pub open(crate) spec fn column(self, col: int) -> Column {
        if col == 0 {
            self.left
        } else if col == 1 {
            self.centre
        } else {
            self.right
        }
    }

    /// The square at (row, col).
    pub open spec fn cell(self, row: int, col: int) -> Square {
        self.column(col).at(row)
    }

    /// The board with the square at (row, col) replaced by `sq`.
    pub open(crate) spec fn with_cell(self, row: int, col: int, sq: Square) -> Board {
        if col == 0 {
            Board { left: self.left.with_at(row, sq), ..self }
        } else if col == 1 {
            Board { centre: self.centre.with_at(row, sq), ..self }
        } else {
            Board { right: self.right.with_at(row, sq), ..self }
        }
    }

    pub open spec fn is_empty_at(self, row: int, col: int) -> bool {
        self.cell(row, col) == Square::Empty
    }

    pub open spec fn spec_is_full(self) -> bool {
        forall|r: int, c: int| 0 <= r < 3 && 0 <= c < 3 ==> !#[trigger] self.is_empty_at(r, c)
    }

    /// The sum of the die values in column `col`.
    pub open spec fn column_sum(self, col: int) -> int {
        square_value(self.cell(0, col)) + square_value(self.cell(1, col)) + square_value(
            self.cell(2, col),
        )
    }

    pub open spec fn multiplicity(self, col: int) -> int {
        multiplicity_of(self.cell(0, col), self.cell(1, col), self.cell(2, col))
    }

    /// The board's score: each column's sum times its multiplier, added over the columns.
    pub open spec fn score(self) -> int {
        self.column_sum(0) * self.multiplicity(0) + self.column_sum(1) * self.multiplicity(1)
            + self.column_sum(2) * self.multiplicity(2)
    }

    /// The empty cells among the first `k` positions, in column-major order.
    pub open spec fn empties_before(self, k: int) -> Seq<(usize, usize)>
        decreases k,
    {
        if k <= 0 {
            Seq::empty()
        } else {
            let p = position(k - 1);
            if self.is_empty_at(p.0 as int, p.1 as int) {
                self.empties_before(k - 1).push(p)
            } else {
                self.empties_before(k - 1)
            }
        }
    }

    /// All empty cells, column by column, top to bottom within a column.
    pub open spec fn empty_cells(self) -> Seq<(usize, usize)> {
        self.empties_before(9)
    }

    /// The topmost empty row of a column, if the column has an empty cell.
    pub open spec fn first_empty_row(self, col: int) -> Option<usize> {
        if self.is_empty_at(0, col) {
            Some(0usize)
        } else if self.is_empty_at(1, col) {
            Some(1usize)
        } else if self.is_empty_at(2, col) {
            Some(2usize)
        } else {
            None
        }
    }

    /// The topmost empty cell of each of the first `c` columns that has one.
    pub open spec fn symmetric_empties_before(self, c: int) -> Seq<(usize, usize)>
        decreases c,
    {
        if c <= 0 {
            Seq::empty()
        } else {
            match self.first_empty_row(c - 1) {
                Some(r) => self.symmetric_empties_before(c - 1).push((r, (c - 1) as usize)),
                None => self.symmetric_empties_before(c - 1),
            }
        }
    }

    /// One empty cell per column that has any, the topmost, columns left to right.
    pub open spec fn empty_cells_up_to_row_symmetry(self) -> Seq<(usize, usize)> {
        self.symmetric_empties_before(3)
    }

    /// The number of columns that hold at least one empty cell.
    pub open spec fn open_columns(self) -> int {
        (if self.first_empty_row(0) is Some { 1int } else { 0 }) + (if self.first_empty_row(
            1,
        ) is Some {
            1int
        } else {
            0
        }) + (if self.first_empty_row(2) is Some { 1int } else { 0 })
    }

    /// The board after die `die` is placed at `m`.
    pub open spec fn spec_with_move(self, die: Die, m: Move) -> Board {
        self.with_cell(m.row as int, m.column as int, Square::Die(die))
    }

    /// The board after every die equal to `die` in column `col` is removed.
    pub open spec fn spec_eliminate(self, die: Die, col: int) -> Board {
        let c0 = if self.cell(0, col) == Square::Die(die) {
            self.with_cell(0, col, Square::Empty)
        } else {
            self
        };
        let c1 = if c0.cell(1, col) == Square::Die(die) {
            c0.with_cell(1, col, Square::Empty)
        } else {
            c0
        };
        if c1.cell(2, col) == Square::Die(die) {
            c1.with_cell(2, col, Square::Empty)
        } else {
            c1
        }
    }

    /// The text of the board: three lines of three characters, the top row first.
    pub open spec fn text(self) -> Seq<char> {
        self.row_text(0) + seq!['\n'] + self.row_text(1) + seq!['\n'] + self.row_text(2)
    }

    pub open spec fn row_text(self, row: int) -> Seq<char> {
        seq![
            square_char(self.cell(row, 0)),
            square_char(self.cell(row, 1)),
            square_char(self.cell(row, 2)),
        ]
    }

    pub fn empty() -> (r: Board)
        ensures
            forall|row: int, col: int| #[trigger] r.cell(row, col) == Square::Empty,
    {
        let c = Column { top: Square::Empty, centre: Square::Empty, bottom: Square::Empty };
        Board { left: c, centre: c, right: c }
    }

    pub fn get(&self, row: usize, col: usize) -> (r: Square)
        requires
            row < 3,
            col < 3,
        ensures
            r == self.cell(row as int, col as int),
    {
        let column = if col == 0 {
            &self.left
        } else if col == 1 {
            &self.centre
        } else {
            &self.right
        };
        if row == 0 {
            column.top
        } else if row == 1 {
            column.centre
        } else {
            column.bottom
        }
    }

    fn set(&mut self, row: usize, col: usize, sq: Square)
        requires
            row < 3,
            col < 3,
        ensures
            *final(self) == old(self).with_cell(row as int, col as int, sq),
    {
        let column = if col == 0 {
            &mut self.left
        } else if col == 1 {
            &mut self.centre
        } else {
            &mut self.right
        };
        if row == 0 {
            column.top = sq;
        } else if row == 1 {
            column.centre = sq;
        } else {
            column.bottom = sq;
        }
    }

    pub fn is_full(&self) -> (r: bool)
        ensures
            r == self.spec_is_full(),
    {
        let mut k: usize = 0;
        while k < 9
            invariant
                k <= 9,
                forall|j: int| 0 <= j < k ==> !self.is_empty_at(#[trigger] position(j).0 as int, position(j).1 as int),
            decreases 9 - k,
        {
            if self.get(k % 3, k / 3) == Square::Empty {
                assert(self.is_empty_at(position(k as int).0 as int, position(k as int).1 as int));
                return false;
            }
            k += 1;
        }
        assert forall|r: int, c: int| 0 <= r < 3 && 0 <= c < 3 implies !#[trigger] self.is_empty_at(r, c) by {
            let j = 3 * c + r;
            assert(position(j).0 == r && position(j).1 == c);
        }
        true
    }

    pub fn get_column_multiplicity(&self, column_index: usize) -> (r: u16)
        requires
            column_index < 3,
        ensures
            r as int == self.multiplicity(column_index as int),
    {
        let s0 = self.get(0, column_index);
        let s1 = self.get(1, column_index);
        let s2 = self.get(2, column_index);
        if s0 != Square::Empty && s0 == s1 && s1 == s2 {
            return 3;
        }
        if (s0 != Square::Empty && s0 == s1) || (s1 != Square::Empty && s1 == s2) || (s0
            != Square::Empty && s0 == s2) {
            return 2;
        }
        1
    }

    fn square_points(s: Square) -> (r: u16)
        ensures
            r as int == square_value(s),
            r <= 6,
    {
        match s {
            Square::Empty => 0,
            Square::Die(d) => d.to_value(),
        }
    }

    fn get_column_sum(&self, column_index: usize) -> (r: u16)
        requires
            column_index < 3,
        ensures
            r as int == self.column_sum(column_index as int),
            r <= 18,
    {
        Self::square_points(self.get(0, column_index)) + Self::square_points(
            self.get(1, column_index),
        ) + Self::square_points(self.get(2, column_index))
    }

    /// The board's score.
    pub fn sum(&self) -> (r: u16)
        ensures
            r as int == self.score(),
            r <= 162,
    {
        let mut total: u16 = 0;
        let mut c: usize = 0;
        while c < 3
            invariant
                c <= 3,
                total <= 54 * c,
                c == 0 ==> total == 0,
                c == 1 ==> total as int == self.column_sum(0) * self.multiplicity(0),
                c == 2 ==> total as int == self.column_sum(0) * self.multiplicity(0)
                    + self.column_sum(1) * self.multiplicity(1),
                c == 3 ==> total as int == self.score(),
            decreases 3 - c,
        {
            let s = self.get_column_sum(c);
            let m = self.get_column_multiplicity(c);
            assert(s * m <= 54) by (nonlinear_arith)
                requires
                    s <= 18,
                    1 <= m <= 3,
            ;
            total = total + s * m;
            c += 1;
        }
        total
    }

    fn is_set(&self, row: usize, col: usize) -> (r: bool)
        requires
            row < 3,
            col < 3,
        ensures
            r == !self.is_empty_at(row as int, col as int),
    {
        match self.get(row, col) {
            Square::Empty => false,
            Square::Die(_) => true,
        }
    }

    /// Places `die` at `m`; fails, leaving the board as it was, when the cell is taken.
    pub fn make_move(&mut self, die: Die, m: Move) -> (r: Result<(), GameError>)
        requires
            m.wf(),
        ensures
            old(self).is_empty_at(m.row as int, m.column as int) ==> r is Ok && *final(self)
                == old(self).spec_with_move(die, m),
            !old(self).is_empty_at(m.row as int, m.column as int) ==> r == Err::<(), GameError>(
                GameError::SquareOccupied,
            ) && *final(self) == *old(self),
    {
        if self.is_set(m.get_row(), m.get_column()) {
            return Err(GameError::SquareOccupied);
        }
        self.set(m.get_row(), m.get_column(), Square::Die(die));
        Ok(())
    }

    /// The board after `die` is placed at `m`; fails when the cell is taken.
    pub fn with_move_made(&self, die: Die, m: Move) -> (r: Result<Board, GameError>)
        requires
            m.wf(),
        ensures
            self.is_empty_at(m.row as int, m.column as int) ==> r == Ok::<Board, GameError>(
                self.spec_with_move(die, m),
            ),
            !self.is_empty_at(m.row as int, m.column as int) ==> r == Err::<Board, GameError>(
                GameError::SquareOccupied,
            ),
    {
        let mut new_board = *self;
        match new_board.make_move(die, m) {
            Ok(()) => Ok(new_board),
            Err(e) => Err(e),
        }
    }

    /// The board with every die equal to `die` in column `column_index` removed.
    pub fn eliminate(&self, die: Die, column_index: usize) -> (r: Board)
        requires
            column_index < 3,
        ensures
            r == self.spec_eliminate(die, column_index as int),
    {
        let mut new_board = *self;
        if new_board.get(0, column_index) == Square::Die(die) {
            new_board.set(0, column_index, Square::Empty);
        }
        if new_board.get(1, column_index) == Square::Die(die) {
            new_board.set(1, column_index, Square::Empty);
        }
        if new_board.get(2, column_index) == Square::Die(die) {
            new_board.set(2, column_index, Square::Empty);
        }
        new_board
    }

    fn append_row(&self, text: &mut String, row: usize)
        requires
            row < 3,
        ensures
            final(text)@ == old(text)@ + self.row_text(row as int),
    {
        text.append(self.get(row, 0).to_str());
        text.append(self.get(row, 1).to_str());
        text.append(self.get(row, 2).to_str());
        proof {
            assert(final(text)@ =~= old(text)@ + self.row_text(row as int));
        }
    }

    /// The text of the board: three lines of three characters, the top row first.
    pub fn to_string(&self) -> (r: String)
        ensures
            r@ == self.text(),
    {
        let mut text = String::new();
        proof {
            reveal_strlit("\n");
        }
        self.append_row(&mut text, 0);
        text.append("\n");
        self.append_row(&mut text, 1);
        text.append("\n");
        self.append_row(&mut text, 2);
        proof {
            assert(text@ =~= self.text());
        }
        text
    }

    proof fn lemma_empties_before_len(self, k: int)
        ensures
            self.empties_before(k).len() <= if k < 0 {
                0
            } else {
                k
            },
        decreases k,
    {
        if k > 0 {
            self.lemma_empties_before_len(k - 1);
        }
    }

    /// Every cell listed by `symmetric_empties_before(c)` is an empty cell of the board.
    pub proof fn lemma_symmetric_empties_are_empty(self, c: int)
        requires
            c <= 3,
        ensures
            forall|j: int|
                0 <= j < self.symmetric_empties_before(c).len() ==> {
                    let p = #[trigger] self.symmetric_empties_before(c)[j];
                    p.0 < 3 && p.1 < 3 && self.is_empty_at(p.0 as int, p.1 as int)
                },
        decreases c,
    {
        if c > 0 {
            self.lemma_symmetric_empties_are_empty(c - 1);
            let s = self.symmetric_empties_before(c - 1);
            match self.first_empty_row(c - 1) {
                Some(r) => {
                    assert forall|j: int| 0 <= j < s.len() + 1 implies {
                        let p = #[trigger] s.push((r, (c - 1) as usize))[j];
                        p.0 < 3 && p.1 < 3 && self.is_empty_at(p.0 as int, p.1 as int)
                    } by {
                        if j < s.len() {
                            assert(s.push((r, (c - 1) as usize))[j] == s[j]);
                        }
                    }
                },
                None => {},
            }
        }
    }

    /// Each column with an empty cell gives exactly one cell up to row symmetry.
    pub proof fn lemma_symmetric_empties_count(self)
        ensures
            self.empty_cells_up_to_row_symmetry().len() == self.open_columns(),
    {
        assert(self.symmetric_empties_before(0).len() == 0);
        assert(self.symmetric_empties_before(1).len() == if self.first_empty_row(0) is Some {
            1int
        } else {
            0
        });
        assert(self.symmetric_empties_before(2).len() == self.symmetric_empties_before(1).len()
            + if self.first_empty_row(1) is Some {
            1int
        } else {
            0
        });
        assert(self.symmetric_empties_before(3).len() == self.symmetric_empties_before(2).len()
            + if self.first_empty_row(2) is Some {
            1int
        } else {
            0
        });
    }

    /// Elimination leaves no die `die` in the column.
    pub proof fn lemma_eliminate_clears(self, die: Die, col: int)
        requires
            0 <= col < 3,
        ensures
            forall|row: int|
                0 <= row < 3 ==> #[trigger] self.spec_eliminate(die, col).cell(row, col)
                    != Square::Die(die),
    {
    }

    pub proof fn lemma_score_bounds(self)
        ensures
            0 <= self.score() <= 162,
    {
        assert forall|c: int| 0 <= c < 3 implies 0 <= #[trigger] self.column_sum(c) <= 18 && 1
            <= self.multiplicity(c) <= 3 by {}
        let a = self.column_sum(0);
        let b = self.column_sum(1);
        let d = self.column_sum(2);
        let x = self.multiplicity(0);
        let y = self.multiplicity(1);
        let z = self.multiplicity(2);
        assert(0 <= a * x + b * y + d * z <= 162) by (nonlinear_arith)
            requires
                0 <= a <= 18,
                0 <= b <= 18,
                0 <= d <= 18,
                1 <= x <= 3,
                1 <= y <= 3,
                1 <= z <= 3,
        ;
    }

    pub proof fn lemma_empty_cells_len(self)
        ensures
            self.empty_cells().len() <= 9,
    {
        self.lemma_empties_before_len(9);
    }

    /// The empty cells in column-major order.
    pub fn get_empty_squares(&self) -> (r: Vec<(usize, usize)>)
        ensures
            r@ == self.empty_cells(),
    {
        let mut empties: Vec<(usize, usize)> = Vec::new();
        let mut k: usize = 0;
        while k < 9
            invariant
                k <= 9,
                empties@ == self.empties_before(k as int),
            decreases 9 - k,
        {
            if self.get(k % 3, k / 3) == Square::Empty {
                empties.push((k % 3, k / 3));
            }
            k += 1;
        }
        empties
    }

    pub fn get_n_empty_squares(&self) -> (r: usize)
        ensures
            r == self.empty_cells().len(),
    {
        self.get_empty_squares().len()
    }

    /// The topmost empty cell of each column that has one, columns left to right.
    pub fn get_empty_squares_up_to_row_symmetry(&self) -> (r: Vec<(usize, usize)>)
        ensures
            r@ == self.empty_cells_up_to_row_symmetry(),
    {
        let mut empties: Vec<(usize, usize)> = Vec::new();
        let mut col: usize = 0;
        while col < 3
            invariant
                col <= 3,
                empties@ == self.symmetric_empties_before(col as int),
            decreases 3 - col,
        {
            if self.get(0, col) == Square::Empty {
                empties.push((0, col));
            } else if self.get(1, col) == Square::Empty {
                empties.push((1, col));
            } else if self.get(2, col) == Square::Empty {
                empties.push((2, col));
            }
            col += 1;
        }
        empties
    }

    /// Reads a board from its text. Spaces and tabs are ignored; what is left must be
    /// three lines of three square characters.
    pub fn from_string(s: String) -> (r: Result<Board, GameError>)
        ensures
            parse_board(s@) matches Some(b) ==> r == Ok::<Board, GameError>(b),
            parse_board(s@) is None ==> r == Err::<Board, GameError>(
                GameError::InvalidBoardString,
            ),
    {
        let kept = strip(s.as_str(), true);
        let t = Ghost(kept@);
        assert(t@ == without_blanks(s@));
        if kept.len() != 11 {
            return Err(GameError::InvalidBoardString);
        }
        let mut i: usize = 0;
        while i < 11
            invariant
                kept@ == t@,
                t@ == without_blanks(s@),
                t@.len() == 11,
                i <= 11,
                forall|j: int| 0 <= j < i ==> #[trigger] text_char_fits(t@, j),
            decreases 11 - i,
        {
            let c = kept[i];
            if i == 3 || i == 7 {
                if c != '\n' {
                    assert(!text_char_fits(t@, i as int));
                    return Err(GameError::InvalidBoardString);
                }
            } else {
                if Square::from_char(c).is_err() {
                    assert(!text_char_fits(t@, i as int));
                    return Err(GameError::InvalidBoardString);
                }
            }
            i += 1;
        }
        assert(text_char_fits(t@, 0) && text_char_fits(t@, 1) && text_char_fits(t@, 2));
        assert(text_char_fits(t@, 4) && text_char_fits(t@, 5) && text_char_fits(t@, 6));
        assert(text_char_fits(t@, 8) && text_char_fits(t@, 9) && text_char_fits(t@, 10));
        let left = Column {
            top: square_at(&kept, 0),
            centre: square_at(&kept, 4),
            bottom: square_at(&kept, 8),
        };
        let centre = Column {
            top: square_at(&kept, 1),
            centre: square_at(&kept, 5),
            bottom: square_at(&kept, 9),
        };
        let right = Column {
            top: square_at(&kept, 2),
            centre: square_at(&kept, 6),
            bottom: square_at(&kept, 10),
        };
        Ok(Board { left, centre, right })
    }
}

/// Position `j` of an 11-character board text holds what it must: a newline at the ends of
/// the first two lines, a square character elsewhere.
pub open spec fn text_char_fits(t: Seq<char>, j: int) -> bool {
    if j == 3 || j == 7 {
        t[j] == '\n'
    } else {
        square_of_char(t[j]) is Some
    }
}

/// The square written at position `j` of a board text.
pub open spec fn text_square(t: Seq<char>, j: int) -> Square {
    square_of_char(t[j])->0
}

/// The board written by a text, once spaces and tabs are taken out.
pub open(crate) spec fn parse_board(s: Seq<char>) -> Option<Board> {
    let t = without_blanks(s);
    if t.len() == 11 && forall|j: int| 0 <= j < 11 ==> #[trigger] text_char_fits(t, j) {
        Some(
            Board {
                left: Column {
                    top: text_square(t, 0),
                    centre: text_square(t, 4),
                    bottom: text_square(t, 8),
                },
                centre: Column {
                    top: text_square(t, 1),
                    centre: text_square(t, 5),
                    bottom: text_square(t, 9),
                },
                right: Column {
                    top: text_square(t, 2),
                    centre: text_square(t, 6),
                    bottom: text_square(t, 10),
                },
            },
        )
    } else {
        None
    }
}

fn square_at(t: &Vec<char>, j: usize) -> (r: Square)
    requires
        j < t@.len(),
        square_of_char(t@[j as int]) is Some,
    ensures
        r == text_square(t@, j as int),
{
    match Square::from_char(t[j]) {
        Ok(sq) => sq,
        Err(_) => Square::Empty,
    }
}

proof fn lemma_without_blanks_keeps(t: Seq<char>)
    requires
        forall|j: int| 0 <= j < t.len() ==> t[j] != ' ' && t[j] != '\t',
    ensures
        without_blanks(t) == t,
    decreases t.len(),
{
    if t.len() > 0 {
        lemma_without_blanks_keeps(t.drop_last());
        assert(t.drop_last().push(t.last()) =~= t);
    }
}

/// Reading the text of a board gives the board back.
pub proof fn lemma_board_text_round_trip(b: Board)
    ensures
        parse_board(b.text()) == Some(b),
{
    let t = b.text();
    assert forall|j: int| 0 <= j < t.len() implies t[j] != ' ' && t[j] != '\t' by {
        let r = j / 4;
        let c = j % 4;
        if c < 3 {
            assert(t[j] == square_char(b.cell(r, c)));
        }
    }
    lemma_without_blanks_keeps(t);
    assert forall|j: int| 0 <= j < 11 implies #[trigger] text_char_fits(t, j) by {
        if j != 3 && j != 7 {
            let r = j / 4;
            let c = j % 4;
            assert(t[j] == square_char(b.cell(r, c)));
            assert(square_of_char(square_char(b.cell(r, c))) == Some(b.cell(r, c)));
        }
    }
    let p = parse_board(t)->0;
    assert forall|j: int| 0 <= j < 11 && j != 3 && j != 7 implies text_square(t, j) == b.cell(j / 4, j % 4) by {
        assert(t[j] == square_char(b.cell(j / 4, j % 4)));
        assert(square_of_char(square_char(b.cell(j / 4, j % 4))) == Some(b.cell(j / 4, j % 4)));
    }
    assert(p.left == b.left);
    assert(p.centre == b.centre);
    assert(p.right == b.right);
}

/// Placing a die and then writing and reading the board gives the board with the die placed.
pub proof fn lemma_board_text_round_trip_after_move(b: Board, die: Die, m: Move)
    requires
        m.wf(),
        b.is_empty_at(m.row as int, m.column as int),
    ensures
        parse_board(b.spec_with_move(die, m).text()) == Some(b.spec_with_move(die, m)),
{
    lemma_board_text_round_trip(b.spec_with_move(die, m));
}

/// The bit of a bitboard for the cell (row, col): row 0, column 0 is the highest of nine.
pub open spec fn cell_mask(row: int, col: int) -> u16 {
    (1u16 << ((2 - row) * 3 + (2 - col)) as u16)
}

/// The number of set bits among the lowest `k` bits of `x`.
pub open spec fn ones_below(x: u16, k: int) -> int
    decreases k,
{
    if k <= 0 {
        0
    } else {
        ones_below(x, k - 1) + if (x >> ((k - 1) as u16)) & 1u16 == 1u16 {
            1int
        } else {
            0
        }
    }
}

/// The number read from the first `k` characters of `t` as binary digits, the first the
/// most significant.
pub open spec fn binary_value(t: Seq<char>, k: int) -> int
    decreases k,
{
    if k <= 0 {
        0
    } else {
        2 * binary_value(t, k - 1) + if t[k - 1] == '1' {
            1int
        } else {
            0
        }
    }
}

/// A set of cells of a 3 by 3 board, one bit per cell.
#[derive(Copy, Clone, Debug, Default, PartialEq, Eq, Structural)]
pub struct Bitboard(pub(crate) u16);

impl Bitboard {
    pub open(crate) spec fn bits(self) -> u16 {
        self.0
    }

    /// The cell (row, col) belongs to the set.
    pub open spec fn has(self, row: int, col: int) -> bool {
        self.bits() & cell_mask(row, col) != 0
    }

    /// Every cell of `mask` belongs to this set.
    pub open spec fn holds(self, mask: u16) -> bool {
        self.bits() & mask == mask
    }

    pub fn empty() -> (r: Bitboard)
        ensures
            r.bits() == 0,
    {
        Bitboard(0)
    }

    pub fn is_empty(&self) -> (r: bool)
        ensures
            r == (self.bits() == 0),
    {
        self.0 == 0
    }

    /// All nine cells.
    pub fn full() -> (r: Bitboard)
        ensures
            r.bits() == 0x1ff,
    {
        Bitboard(0x1ff)
    }

    /// The set holds a full row, column or diagonal.
    pub fn is_victory(&self) -> (r: bool)
        ensures
            r == (self.holds(0x1c0) || self.holds(0x38)
                || self.holds(0x7) || self.holds(0x124)
                || self.holds(0x92) || self.holds(0x49)
                || self.holds(0x111) || self.holds(0x54)),
    {
        self.contains(Bitboard(0x1c0)) || self.contains(Bitboard(0x38)) || self.contains(
            Bitboard(0x7),
        ) || self.contains(Bitboard(0x124)) || self.contains(Bitboard(0x92)) || self.contains(
            Bitboard(0x49),
        ) || self.contains(Bitboard(0x111)) || self.contains(Bitboard(0x54))
    }

    /// Reads nine characters '0' or '1', row by row, '1' for a cell in the set.
    pub fn from_binary(binary: &str) -> (r: Result<Bitboard, GameError>)
        ensures
            binary@.len() == 9 && (forall|k: int|
                0 <= k < 9 ==> #[trigger] binary@[k] == '0' || binary@[k] == '1') ==> (r matches Ok(
                b) && b.bits() as int == binary_value(binary@, 9)),
            !(binary@.len() == 9 && (forall|k: int|
                0 <= k < 9 ==> #[trigger] binary@[k] == '0' || binary@[k] == '1')) ==> r
                == Err::<Bitboard, GameError>(GameError::InvalidBinaryString),
    {
        let n = binary.unicode_len();
        if n != 9 {
            return Err(GameError::InvalidBinaryString);
        }
        let mut value: u16 = 0;
        let mut k: usize = 0;
        while k < 9
            invariant
                n == binary@.len() == 9,
                k <= 9,
                forall|j: int| 0 <= j < k ==> #[trigger] binary@[j] == '0' || binary@[j] == '1',
                value as int == binary_value(binary@, k as int),
                value < two_to(k as int),
            decreases 9 - k,
        {
            let c = binary.get_char(k);
            let digit: u16 = if c == '0' {
                0
            } else if c == '1' {
                1
            } else {
                return Err(GameError::InvalidBinaryString);
            };
            proof {
                lemma_two_to_monotone(k as int + 1, 9);
                reveal_with_fuel(two_to, 10);
            }
            value = value * 2 + digit;
            k += 1;
        }
        Ok(Bitboard(value))
    }

    pub fn union(&self, other: &Bitboard) -> (r: Bitboard)
        ensures
            r.bits() == self.bits() | other.bits(),
    {
        Bitboard(self.0 | other.0)
    }

    pub fn intersection(&self, other: &Bitboard) -> (r: Bitboard)
        ensures
            r.bits() == self.bits() & other.bits(),
    {
        Bitboard(self.0 & other.0)
    }

    pub fn difference(&self, other: &Bitboard) -> (r: Bitboard)
        ensures
            r.bits() == self.bits() & !other.bits(),
    {
        Bitboard(self.0 & !other.0)
    }

    pub fn contains(&self, other: Bitboard) -> (r: bool)
        ensures
            r == self.holds(other.bits()),
    {
        self.intersection(&other) == other
    }

    /// Adds the cell (row, col).
    pub fn set(&mut self, row: usize, col: usize)
        requires
            row < 3,
            col < 3,
        ensures
            final(self).bits() == old(self).bits() | cell_mask(row as int, col as int),
            final(self).has(row as int, col as int),
    {
        let shift = ((2 - row) * 3 + (2 - col)) as u16;
        let mask: u16 = 1u16 << shift;
        let old_bits = self.0;
        assert((old_bits | mask) & mask != 0) by (bit_vector)
            requires
                shift < 9,
                mask == 1u16 << shift,
        ;
        self.0 = self.0 | mask;
    }

    /// The number of cells in the set.
    pub fn n_set(&self) -> (r: usize)
        ensures
            r as int == ones_below(self.bits(), 16),
    {
        let mut count: usize = 0;
        let mut k: u16 = 0;
        while k < 16
            invariant
                k <= 16,
                count as int == ones_below(self.bits(), k as int),
                count <= k,
            decreases 16 - k,
        {
            if (self.0 >> k) & 1 == 1 {
                count += 1;
            }
            k += 1;
        }
        count
    }

    pub fn is_set(&self, row: usize, col: usize) -> (r: bool)
        requires
            row < 3,
            col < 3,
        ensures
            r == self.has(row as int, col as int),
    {
        self.0 & (1u16 << (((2 - row) * 3 + (2 - col)) as u16)) != 0
    }
}

/// 2 to the power `k` (1 for `k <= 0`).
pub open spec fn two_to(k: int) -> int
    decreases k,
{
    if k <= 0 {
        1
    } else {
        2 * two_to(k - 1)
    }
}

proof fn lemma_two_to_monotone(a: int, b: int)
    requires
        0 <= a <= b,
    ensures
        1 <= two_to(a) <= two_to(b),
    decreases b,
{
    if b > 0 {
        if a < b {
            lemma_two_to_monotone(a, b - 1);
        } else {
            lemma_two_to_monotone(a - 1, b - 1);
        }
    }
}

} // verus!
