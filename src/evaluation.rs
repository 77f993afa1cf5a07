use vstd::prelude::*;

use crate::board::{Move, Outcome, Player};
use crate::error::GameError;
use crate::tree::{Node, NodeType};

verus! {

/// 6 to the power `e` (1 for `e <= 0`).
pub open spec fn six_pow(e: int) -> int
    decreases e,
{
    if e <= 0 {
        1
    } else {
        6 * six_pow(e - 1)
    }
}

/// The largest number of expanded roll layers on a path that exact evaluation handles.
pub const MAX_ROLL_LAYERS: u32 = 32;

/// The largest exponent of a tempo weight.
pub const MAX_WEIGHT_EXPONENT: u32 = 4;

/// The largest magnitude of a tempo weight's numerator.
pub const MAX_WEIGHT_NUMERATOR: i128 = 1099511627776;

/// A bound on the magnitude of every leaf score.
pub const LEAF_BOUND: i128 = 17592186044416;

/// An exact evaluation: `numerator / 6^exponent`. Means over fair die rolls of such
/// values are again such values, so evaluations are computed without rounding.
#[derive(Debug, Clone, Copy, PartialEq, Eq, Structural)]
pub struct Evaluation {
    pub(crate) numerator: i128,
    pub(crate) exponent: u32,
}

impl Evaluation {
    pub open(crate) spec fn num(self) -> int {
        self.numerator as int
    }

    pub open(crate) spec fn exp(self) -> int {
        self.exponent as int
    }

    /// The evaluation stands for `n / 6^e`.
    pub open spec fn equals_ratio(self, n: int, e: int) -> bool {
        self.num() * six_pow(e) == n * six_pow(self.exp())
    }

    /// The representation is the shortest: the numerator is not a multiple of 6 unless the
    /// exponent is 0. Two canonical evaluations are equal exactly when their values are.
    pub open spec fn is_canonical(self) -> bool {
        self.exp() == 0 || self.num() % 6 != 0
    }

    /// The evaluation `numerator / 6^exponent`, in canonical form.
    pub fn new(numerator: i128, exponent: u32) -> (r: Evaluation)
        ensures
            r.is_canonical(),
            r.equals_ratio(numerator as int, exponent as int),
            r.exp() <= exponent,
    {
        let mut n = numerator;
        let mut e = exponent;
        while e > 0 && n % 6 == 0
            invariant
                e <= exponent,
                n * six_pow(exponent as int) == numerator * six_pow(e as int),
            decreases e,
        {
            let q = n / 6;
            proof {
                let p = six_pow(exponent as int);
                let s1 = six_pow(e - 1);
                assert(six_pow(e as int) == 6 * s1);
                assert(n == 6 * q);
                assert(q * p == numerator * s1) by (nonlinear_arith)
                    requires
                        n == 6 * q,
                        n * p == numerator * (6 * s1),
                ;
            }
            n = q;
            e = e - 1;
        }
        Evaluation { numerator: n, exponent: e }
    }

    pub fn get_numerator(&self) -> (r: i128)
        ensures
            r as int == self.num(),
    {
        self.numerator
    }

    pub fn get_exponent(&self) -> (r: u32)
        ensures
            r as int == self.exp(),
    {
        self.exponent
    }

    /// The evaluation from `perspective`'s side: negated for player 2.
    pub fn from_perspective(&self, perspective: Player) -> (r: Evaluation)
        requires
            self.num() > i128::MIN,
        ensures
            r.exp() == self.exp(),
            perspective == Player::Player1 ==> r.num() == self.num(),
            perspective == Player::Player2 ==> r.num() == -self.num(),
    {
        match perspective {
            Player::Player1 => Evaluation { numerator: self.numerator, exponent: self.exponent },
            Player::Player2 => Evaluation { numerator: -self.numerator, exponent: self.exponent },
        }
    }
}

/// What a leaf of the searched tree is worth.
#[derive(Debug, Clone, Copy, PartialEq, Eq, Structural)]
pub enum Objective {
    /// +1, 0 or -1 as player 1 wins, draws or loses; only for nodes where the game is over.
    Outcome,
    /// The score difference with the tempo term weighted by the given evaluation.
    Difference(Evaluation),
}

impl Objective {
    /// A tempo weight small enough for exact evaluation in 128 bits.
    pub open spec fn wf(self) -> bool {
        match self {
            Objective::Outcome => true,
            Objective::Difference(k) => k.exp() <= MAX_WEIGHT_EXPONENT && -MAX_WEIGHT_NUMERATOR
                <= k.num() <= MAX_WEIGHT_NUMERATOR,
        }
    }

    /// Leaf values are counted in units of `6^-scale()`.
    pub open spec fn scale(self) -> int {
        match self {
            Objective::Outcome => 0,
            Objective::Difference(k) => k.exp(),
        }
    }

    /// A bound on the magnitude of every leaf score.
    pub open spec fn bound(self) -> int {
        match self {
            Objective::Outcome => 1,
            Objective::Difference(_) => LEAF_BOUND as int,
        }
    }
}

/// The tempo term of the difference heuristic: the empty cells of each side credited to
/// the side that will fill them, with a bonus for the side to finish first.
pub open spec fn tempo(t: Node) -> int {
    let e1 = t.board1().empty_cells().len() as int;
    let e2 = t.board2().empty_cells().len() as int;
    let finishing_first = if e1 > e2 {
        Player::Player2
    } else if e1 < e2 {
        Player::Player1
    } else {
        t.active()
    };
    let bonus = if t.active() == finishing_first {
        1int
    } else {
        -1
    };
    if finishing_first == Player::Player1 {
        e2 - e1 + bonus
    } else {
        -(e1 - e2 + bonus)
    }
}

/// The difference heuristic of a node with tempo weight `k`, times `6^k.exp()`: the score
/// difference, plus `k` times the tempo term where the game is not over.
pub open spec fn difference_score(t: Node, k: Evaluation) -> int {
    let diff = t.board1().score() - t.board2().score();
    if t.spec_is_game_over() {
        diff * six_pow(k.exp())
    } else {
        diff * six_pow(k.exp()) + k.num() * tempo(t)
    }
}

/// What the objective gives a leaf, in units of `6^-obj.scale()`.
pub open spec fn leaf_score(obj: Objective, t: Node) -> Result<int, GameError> {
    match obj {
        Objective::Outcome => match t.spec_outcome() {
            Outcome::Victory(Player::Player1) => Ok(1),
            Outcome::Victory(Player::Player2) => Ok(-1),
            Outcome::Draw => Ok(0),
            Outcome::InProgress => Err(GameError::CannotEvaluateInProgressLeaf),
        },
        Objective::Difference(k) => Ok(difference_score(t, k)),
    }
}

/// `leaf_score` in units of `6^-(obj.scale() + r)`.
pub open spec fn scaled_leaf(obj: Objective, t: Node, r: int) -> Result<int, GameError> {
    match leaf_score(obj, t) {
        Ok(v) => Ok(v * six_pow(r)),
        Err(e) => Err(e),
    }
}

/// Every path down from `t` passes at most `r` expanded roll nodes.
pub open spec fn within_rolls(t: Node, r: int) -> bool
    decreases t,
{
    match t.kind() {
        NodeType::Roll(_) => t.is_fresh() || (r >= 1 && forall|i: int|
            0 <= i < t.kids().len() ==> within_rolls(#[trigger] t.kids()[i], r - 1)),
        NodeType::Move(_, _) => forall|i: int|
            0 <= i < t.kids().len() ==> within_rolls(#[trigger] t.kids()[i], r),
    }
}

/// The best moves of a move node and its value in units of `6^-(obj.scale() + r)`.
/// A leaf, or a node without legal moves, is worth what the objective gives it. Otherwise
/// each legal move up to row symmetry gets a candidate value (see `candidate_score`); player 1
/// takes the largest, player 2 the smallest, and the best moves are all that reach it, in
/// the order of the legal moves.
pub open spec fn node_score(t: Node, obj: Objective, r: int) -> Result<(Seq<Move>, int), GameError>
    decreases t, 3int, 0int,
{
    match t.kind() {
        NodeType::Roll(_) => Err(GameError::NotAMoveNode),
        NodeType::Move(_, _) => {
            let ms = t.legal_moves_up_to_row_symmetry();
            if t.is_fresh() || ms.len() == 0 {
                match scaled_leaf(obj, t, r) {
                    Ok(v) => Ok((Seq::empty(), v)),
                    Err(e) => Err(e),
                }
            } else {
                best_among(t, obj, r, ms.len() as int)
            }
        },
    }
}

/// The best of the first `k` legal moves up to row symmetry and their value.
pub open spec fn best_among(t: Node, obj: Objective, r: int, k: int) -> Result<
    (Seq<Move>, int),
    GameError,
>
    decreases t, 2int, k,
{
    let ms = t.legal_moves_up_to_row_symmetry();
    if k <= 0 || k > ms.len() {
        Ok((Seq::empty(), 0))
    } else {
        match best_among(t, obj, r, k - 1) {
            Err(e) => Err(e),
            Ok(sofar) => match candidate_score(t, obj, r, ms[k - 1]) {
                Err(e) => Err(e),
                Ok(c) => if k == 1 {
                    Ok((seq![ms[k - 1]], c))
                } else {
                    match t.active().spec_compare(c, sofar.1) {
                        crate::board::Comparison::Equal => Ok((sofar.0.push(ms[k - 1]), sofar.1)),
                        crate::board::Comparison::Better => Ok((seq![ms[k - 1]], c)),
                        crate::board::Comparison::Worse => Ok(sofar),
                    }
                },
            },
        }
    }
}

/// The value of playing `m`, in units of `6^-(obj.scale() + r)`: the child stored for `m`
/// is a roll node; if the game is over there or it is not expanded, the objective's value
/// of it; otherwise the mean over its six children of their values, which in units one
/// roll finer is the sum of their scores.
pub open spec fn candidate_score(t: Node, obj: Objective, r: int, m: Move) -> Result<int, GameError>
    decreases t, 1int, 0int,
{
    match t.child_index_after_move(m) {
        None => Err(GameError::NoSuchChild),
        Some(i) => if 0 <= i < t.kids().len() {
            let c = t.kids()[i];
            if c.spec_is_game_over() || c.is_fresh() {
                scaled_leaf(obj, c, r)
            } else if c.kind() is Move {
                Err(GameError::NotARollNode)
            } else if c.kids().len() != 6 {
                Err(GameError::RollsNotExpanded)
            } else {
                roll_sum(c, obj, r - 1, 6)
            }
        } else {
            Err(GameError::NoSuchChild)
        },
    }
}

/// The sum of the scores of the first `k` children of a roll node.
pub open spec fn roll_sum(c: Node, obj: Objective, r: int, k: int) -> Result<int, GameError>
    decreases c, 0int, k,
{
    if k <= 0 || k > c.kids().len() {
        Ok(0)
    } else {
        match roll_sum(c, obj, r, k - 1) {
            Err(e) => Err(e),
            Ok(s) => match node_score(c.kids()[k - 1], obj, r) {
                Err(e) => Err(e),
                Ok(v) => Ok(s + v.1),
            },
        }
    }
}

pub proof fn lemma_six_pow_positive(e: int)
    ensures
        six_pow(e) >= 1,
    decreases e,
{
    if e > 0 {
        lemma_six_pow_positive(e - 1);
    }
}

pub proof fn lemma_six_pow_monotone(a: int, b: int)
    requires
        a <= b,
    ensures
        six_pow(a) <= six_pow(b),
    decreases b - a,
{
    if a < b {
        lemma_six_pow_monotone(a, b - 1);
        lemma_six_pow_positive(b - 1);
        if b > 0 {
            assert(six_pow(b) == 6 * six_pow(b - 1));
        }
    }
}

proof fn lemma_six_pow_32()
    ensures
        six_pow(32) == 7958661109946400884391936,
{
    reveal_with_fuel(six_pow, 33);
}

/// The largest leaf score times the largest scale fits in 128 bits.
proof fn lemma_scaled_fits(e: int)
    requires
        e <= MAX_ROLL_LAYERS,
    ensures
        1 <= six_pow(e),
        LEAF_BOUND * six_pow(e) <= i128::MAX,
{
    lemma_six_pow_positive(e);
    lemma_six_pow_monotone(e, 32);
    lemma_six_pow_32();
    assert(LEAF_BOUND * six_pow(e) <= LEAF_BOUND * six_pow(32)) by (nonlinear_arith)
        requires
            six_pow(e) <= six_pow(32),
    ;
}

/// The scores below `r` roll layers fit in 128 bits.
proof fn lemma_bound_fits(obj: Objective, r: int)
    requires
        0 <= r <= MAX_ROLL_LAYERS,
    ensures
        1 <= obj.bound() * six_pow(r) <= i128::MAX,
{
    lemma_scaled_fits(r);
    let p = six_pow(r);
    let b = obj.bound();
    assert(1 <= b * p <= LEAF_BOUND * p) by (nonlinear_arith)
        requires
            1 <= b <= LEAF_BOUND,
            p >= 1,
    ;
}

/// `6^e` for `e` up to `MAX_ROLL_LAYERS`.
fn six_power(e: u32) -> (r: i128)
    requires
        e <= MAX_ROLL_LAYERS,
    ensures
        r == six_pow(e as int),
{
    let mut p: i128 = 1;
    let mut i: u32 = 0;
    while i < e
        invariant
            i <= e <= MAX_ROLL_LAYERS,
            p == six_pow(i as int),
        decreases e - i,
    {
        proof {
            lemma_scaled_fits(i + 1);
            assert(six_pow(i + 1) == 6 * six_pow(i as int));
        }
        p = p * 6;
        i += 1;
    }
    p
}

/// The tempo term of a node.
fn tempo_term(t: &Node) -> (r: i128)
    ensures
        r == tempo(*t),
        -10 <= r <= 10,
{
    proof {
        t.board1().lemma_empty_cells_len();
        t.board2().lemma_empty_cells_len();
    }
    let e1 = t.get_player_1_board().get_n_empty_squares() as i128;
    let e2 = t.get_player_2_board().get_n_empty_squares() as i128;
    let active = t.get_active_player();
    let finishing_first = if e1 > e2 {
        Player::Player2
    } else if e1 < e2 {
        Player::Player1
    } else {
        active
    };
    let bonus: i128 = if active == finishing_first {
        1
    } else {
        -1
    };
    match finishing_first {
        Player::Player1 => e2 - e1 + bonus,
        Player::Player2 => -(e1 - e2 + bonus),
    }
}

/// The difference heuristic of a node, in units of `6^-k.exp()`.
pub fn difference_numerator(t: &Node, k: Evaluation) -> (r: i128)
    requires
        Objective::Difference(k).wf(),
    ensures
        r == difference_score(*t, k),
        -LEAF_BOUND <= r <= LEAF_BOUND,
{
    proof {
        t.board1().lemma_score_bounds();
        t.board2().lemma_score_bounds();
        lemma_six_pow_monotone(k.exp(), 4);
        lemma_six_pow_positive(k.exp());
        reveal_with_fuel(six_pow, 5);
    }
    let diff = t.get_score_difference() as i128;
    let unit = six_power(k.exponent);
    assert(six_pow(4) == 1296);
    assert(-209952 <= diff * unit <= 209952) by (nonlinear_arith)
        requires
            -162 <= diff <= 162,
            1 <= unit <= 1296,
    ;
    let base = diff * unit;
    if t.is_game_over() {
        return base;
    }
    let tempo = tempo_term(t);
    assert(-10995116277760 <= k.numerator * tempo <= 10995116277760) by (nonlinear_arith)
        requires
            -10 <= tempo <= 10,
            -1099511627776 <= k.numerator <= 1099511627776,
    ;
    let weighted = k.numerator * tempo;
    base + weighted
}

/// What the objective gives a leaf.
fn leaf_score_of(t: &Node, obj: Objective) -> (r: Result<i128, GameError>)
    requires
        obj.wf(),
    ensures
        match leaf_score(obj, *t) {
            Ok(v) => (r matches Ok(x) && x == v && -obj.bound() <= v <= obj.bound()),
            Err(e) => r == Err::<i128, GameError>(e),
        },
{
    match obj {
        Objective::Outcome => match t.get_outcome() {
            Outcome::Victory(Player::Player1) => Ok(1),
            Outcome::Victory(Player::Player2) => Ok(-1),
            Outcome::Draw => Ok(0),
            Outcome::InProgress => Err(GameError::CannotEvaluateInProgressLeaf),
        },
        Objective::Difference(k) => Ok(difference_numerator(t, k)),
    }
}

/// What the objective gives a leaf, in units of `6^-(obj.scale() + r)`.
fn scaled_leaf_of(t: &Node, obj: Objective, r: u32) -> (res: Result<i128, GameError>)
    requires
        obj.wf(),
        r <= MAX_ROLL_LAYERS,
    ensures
        match scaled_leaf(obj, *t, r as int) {
            Ok(v) => (res matches Ok(x) && x == v && -(obj.bound() * six_pow(r as int))
                <= v <= obj.bound() * six_pow(r as int)),
            Err(e) => res == Err::<i128, GameError>(e),
        },
{
    match leaf_score_of(t, obj) {
        Ok(v) => {
            let p = six_power(r);
            proof {
                lemma_scaled_fits(r as int);
                let b = obj.bound();
                assert(-(b * p) <= v * p <= b * p) by (nonlinear_arith)
                    requires
                        -b <= v <= b,
                        p >= 1,
                ;
                assert(b * p <= LEAF_BOUND * p) by (nonlinear_arith)
                    requires
                        b <= LEAF_BOUND,
                        p >= 1,
                ;
                assert(-(LEAF_BOUND * p) <= v * p <= LEAF_BOUND * p);
            }
            Ok(v * p)
        },
        Err(e) => Err(e),
    }
}

/// An evaluation result with its move list seen as a sequence.
pub open spec fn result_view(r: Result<(Vec<Move>, Evaluation), GameError>) -> Result<
    (Seq<Move>, Evaluation),
    GameError,
> {
    match r {
        Ok(q) => Ok((q.0@, q.1)),
        Err(e) => Err(e),
    }
}

/// `r` is what evaluating the move node `t` with `obj` gives: `SearchTooDeep` when some path
/// passes more than `MAX_ROLL_LAYERS` expanded roll nodes; otherwise the best moves and the
/// value of `node_score`, or its error.
pub open spec fn evaluation_matches(
    t: Node,
    obj: Objective,
    r: Result<(Seq<Move>, Evaluation), GameError>,
) -> bool {
    if !within_rolls(t, MAX_ROLL_LAYERS as int) {
        r == Err::<(Seq<Move>, Evaluation), GameError>(GameError::SearchTooDeep)
    } else {
        match node_score(t, obj, MAX_ROLL_LAYERS as int) {
            Ok(p) => (r matches Ok(q) && q.0 == p.0 && q.1.is_canonical() && q.1.equals_ratio(
                p.1,
                MAX_ROLL_LAYERS + obj.scale(),
            )),
            Err(e) => r == Err::<(Seq<Move>, Evaluation), GameError>(e),
        }
    }
}

/// `r` is the value, or the error, that evaluating the move node `t` with `obj` gives.
pub open spec fn value_matches(t: Node, obj: Objective, r: Result<Evaluation, GameError>) -> bool {
    if !within_rolls(t, MAX_ROLL_LAYERS as int) {
        r == Err::<Evaluation, GameError>(GameError::SearchTooDeep)
    } else {
        match node_score(t, obj, MAX_ROLL_LAYERS as int) {
            Ok(p) => (r matches Ok(e) && e.is_canonical() && e.equals_ratio(
                p.1,
                MAX_ROLL_LAYERS + obj.scale(),
            )),
            Err(e) => r == Err::<Evaluation, GameError>(e),
        }
    }
}

/// The value of a move node is the best of its candidates: for player 1 no candidate is
/// larger, for player 2 none is smaller, and some candidate reaches it; the best moves are
/// not empty.
pub proof fn lemma_best_among_is_extreme(t: Node, obj: Objective, r: int, k: int)
    requires
        1 <= k <= t.legal_moves_up_to_row_symmetry().len(),
        best_among(t, obj, r, k) is Ok,
    ensures
        ({
            let ms = t.legal_moves_up_to_row_symmetry();
            let v = best_among(t, obj, r, k)->Ok_0.1;
            &&& best_among(t, obj, r, k)->Ok_0.0.len() > 0
            &&& forall|j: int|
                0 <= j < k ==> (#[trigger] candidate_score(t, obj, r, ms[j])) is Ok && (t.active()
                    == Player::Player1 ==> candidate_score(t, obj, r, ms[j])->Ok_0 <= v) && (
                t.active() == Player::Player2 ==> candidate_score(t, obj, r, ms[j])->Ok_0 >= v)
            &&& exists|j: int| 0 <= j < k && #[trigger] candidate_score(t, obj, r, ms[j]) == Ok::<int, GameError>(v)
        }),
    decreases k,
{
    let ms = t.legal_moves_up_to_row_symmetry();
    if k > 1 {
        lemma_best_among_is_extreme(t, obj, r, k - 1);
        let sofar = best_among(t, obj, r, k - 1)->Ok_0;
        let j0 = choose|j: int| 0 <= j < k - 1 && #[trigger] candidate_score(t, obj, r, ms[j]) == Ok::<int, GameError>(sofar.1);
        let v = best_among(t, obj, r, k)->Ok_0.1;
        let c = candidate_score(t, obj, r, ms[k - 1])->Ok_0;
        if v == sofar.1 {
            assert(candidate_score(t, obj, r, ms[j0]) == Ok::<int, GameError>(v));
        } else {
            assert(candidate_score(t, obj, r, ms[k - 1]) == Ok::<int, GameError>(v));
        }
    } else {
        assert(candidate_score(t, obj, r, ms[0]) == Ok::<int, GameError>(
            best_among(t, obj, r, k)->Ok_0.1,
        ));
    }
}

/// A move node's value is the largest candidate for player 1 and the smallest for player 2.
pub proof fn lemma_value_is_best_candidate(t: Node, obj: Objective, r: int)
    requires
        t.kind() is Move,
        !t.is_fresh(),
        t.legal_moves_up_to_row_symmetry().len() > 0,
        node_score(t, obj, r) is Ok,
    ensures
        ({
            let ms = t.legal_moves_up_to_row_symmetry();
            let v = node_score(t, obj, r)->Ok_0.1;
            &&& node_score(t, obj, r)->Ok_0.0.len() > 0
            &&& forall|j: int|
                0 <= j < ms.len() ==> (#[trigger] candidate_score(t, obj, r, ms[j])) is Ok && (
                t.active() == Player::Player1 ==> candidate_score(t, obj, r, ms[j])->Ok_0 <= v)
                && (t.active() == Player::Player2 ==> candidate_score(t, obj, r, ms[j])->Ok_0 >= v)
            &&& exists|j: int| 0 <= j < ms.len() && #[trigger] candidate_score(t, obj, r, ms[j]) == Ok::<int, GameError>(v)
        }),
{
    lemma_best_among_is_extreme(t, obj, r, t.legal_moves_up_to_row_symmetry().len() as int);
}

/// The canonical evaluation of the value `s / 6^n` when `s` is `6^n` or `-6^n`: exactly 1
/// or -1.
pub proof fn lemma_canonical_unit(e: Evaluation, n: int, sign: int)
    requires
        n >= 0,
        sign == 1 || sign == -1,
        e.is_canonical(),
        e.equals_ratio(sign * six_pow(n), n),
    ensures
        e.num() == sign,
        e.exp() == 0,
{
    lemma_six_pow_positive(n);
    let p = six_pow(n);
    let q = six_pow(e.exp());
    let a = e.num();
    assert(a == sign * q) by (nonlinear_arith)
        requires
            a * p == (sign * p) * q,
            p >= 1,
    ;
    if e.exp() > 0 {
        assert(q == 6 * six_pow(e.exp() - 1));
        assert(a == 6 * (sign * six_pow(e.exp() - 1))) by (nonlinear_arith)
            requires
                a == sign * q,
                q == 6 * six_pow(e.exp() - 1),
        ;
        assert(a % 6 == 0);
    }
}

/// A position that player 1 wins whatever is rolled (its value is 1) evaluates to exactly 1
/// under brute force, with at least one best move; one that player 2 wins evaluates to
/// exactly -1.
pub proof fn lemma_forced_win(t: Node, moves: Seq<Move>, e: Evaluation, sign: int)
    requires
        sign == 1 || sign == -1,
        t.kind() is Move,
        !t.is_fresh(),
        t.legal_moves_up_to_row_symmetry().len() > 0,
        node_score(t, Objective::Outcome, MAX_ROLL_LAYERS as int) == Ok::<(Seq<Move>, int), GameError>(
            (moves, sign * six_pow(MAX_ROLL_LAYERS as int)),
        ),
        e.is_canonical(),
        e.equals_ratio(sign * six_pow(MAX_ROLL_LAYERS as int), MAX_ROLL_LAYERS + Objective::Outcome.scale()),
    ensures
        e.num() == sign,
        e.exp() == 0,
        moves.len() > 0,
{
    lemma_canonical_unit(e, MAX_ROLL_LAYERS as int, sign);
    lemma_value_is_best_candidate(t, Objective::Outcome, MAX_ROLL_LAYERS as int);
}

proof fn lemma_best_among_error_stays(t: Node, obj: Objective, r: int, k: int, j: int)
    requires
        1 <= k <= j <= t.legal_moves_up_to_row_symmetry().len(),
        best_among(t, obj, r, k) is Err,
    ensures
        best_among(t, obj, r, j) == best_among(t, obj, r, k),
    decreases j - k,
{
    if j > k {
        lemma_best_among_error_stays(t, obj, r, k, j - 1);
    }
}

proof fn lemma_roll_sum_error_stays(c: Node, obj: Objective, r: int, k: int, j: int)
    requires
        1 <= k <= j <= c.kids().len(),
        roll_sum(c, obj, r, k) is Err,
    ensures
        roll_sum(c, obj, r, j) == roll_sum(c, obj, r, k),
    decreases j - k,
{
    if j > k {
        lemma_roll_sum_error_stays(c, obj, r, k, j - 1);
    }
}

/// Whether every path down from `t` passes at most `r` expanded roll nodes.
pub(crate) fn fits_rolls(t: &Node, r: u32) -> (res: bool)
    ensures
        res == within_rolls(*t, r as int),
    decreases t,
{
    let n = t.children.len();
    let is_roll = match t.node_type {
        NodeType::Roll(_) => true,
        NodeType::Move(_, _) => false,
    };
    if is_roll && n == 0 {
        return true;
    }
    if is_roll && r == 0 {
        return false;
    }
    let below: u32 = if is_roll {
        r - 1
    } else {
        r
    };
    let mut i: usize = 0;
    while i < n
        invariant
            n == t.kids().len(),
            is_roll == t.kind() is Roll,
            is_roll ==> r >= 1 && below == r - 1 && n > 0,
            !is_roll ==> below == r,
            i <= n,
            forall|j: int| 0 <= j < i ==> within_rolls(#[trigger] t.kids()[j], below as int),
        decreases n - i,
    {
        if !fits_rolls(&t.children[i], below) {
            assert(!within_rolls(t.kids()[i as int], below as int));
            return false;
        }
        i += 1;
    }
    true
}

impl Node {
    /// `node_score` of this move node, computed.
    fn score(&self, obj: Objective, r: u32) -> (res: Result<(Vec<Move>, i128), GameError>)
        requires
            obj.wf(),
            within_rolls(*self, r as int),
            r <= MAX_ROLL_LAYERS,
        ensures
            match node_score(*self, obj, r as int) {
                Ok(p) => (res matches Ok(q) && q.0@ == p.0 && q.1 == p.1 && -(obj.bound() * six_pow(
                    r as int,
                )) <= p.1 <= obj.bound() * six_pow(r as int)),
                Err(e) => res == Err::<(Vec<Move>, i128), GameError>(e),
            },
        decreases self, 3int, 0int,
    {
        proof {
            lemma_bound_fits(obj, r as int);
        }
        let player = self.get_active_player();
        let ms = match self.get_legal_moves_up_to_row_symmetry() {
            Ok(v) => v,
            Err(e) => return Err(e),
        };
        if self.children.len() == 0 || ms.len() == 0 {
            return match scaled_leaf_of(self, obj, r) {
                Ok(v) => Ok((Vec::new(), v)),
                Err(e) => Err(e),
            };
        }
        proof {
            self.lemma_symmetric_moves_are_legal();
        }
        let mut best_moves: Vec<Move> = Vec::new();
        let mut best: i128 = 0;
        let mut k: usize = 0;
        while k < ms.len()
            invariant
                ms@ == self.legal_moves_up_to_row_symmetry(),
                ms@.len() > 0,
                !self.is_fresh(),
                self.kind() is Move,
                player == self.active(),
                forall|j: int| 0 <= j < ms@.len() ==> self.spec_is_legal_move(#[trigger] ms@[j]),
                obj.wf(),
                within_rolls(*self, r as int),
                r <= MAX_ROLL_LAYERS,
                k <= ms@.len(),
                best_among(*self, obj, r as int, k as int) == Ok::<(Seq<Move>, int), GameError>(
                    (best_moves@, best as int),
                ),
                k > 0 ==> -(obj.bound() * six_pow(r as int)) <= best <= obj.bound() * six_pow(
                    r as int,
                ),
            decreases ms@.len() - k,
        {
            let m = ms[k];
            let c = match self.candidate(obj, r, m) {
                Ok(c) => c,
                Err(e) => {
                    proof {
                        lemma_best_among_error_stays(
                            *self,
                            obj,
                            r as int,
                            k + 1,
                            ms@.len() as int,
                        );
                    }
                    return Err(e);
                },
            };
            let ghost sofar = best_among(*self, obj, r as int, k as int);
            proof {
                assert(candidate_score(*self, obj, r as int, ms@[k as int]) == Ok::<int, GameError>(
                    c as int,
                ));
                assert(best_among(*self, obj, r as int, k + 1) == if k == 0 {
                    Ok::<(Seq<Move>, int), GameError>((seq![m], c as int))
                } else {
                    match player.spec_compare(c as int, best as int) {
                        crate::board::Comparison::Equal => Ok((best_moves@.push(m), best as int)),
                        crate::board::Comparison::Better => Ok((seq![m], c as int)),
                        crate::board::Comparison::Worse => Ok((best_moves@, best as int)),
                    }
                });
            }
            if k == 0 {
                best_moves = Vec::new();
                best_moves.push(m);
                best = c;
            } else {
                match player.compare_evaluation(c, best) {
                    crate::board::Comparison::Equal => {
                        best_moves.push(m);
                    },
                    crate::board::Comparison::Better => {
                        best_moves = Vec::new();
                        best_moves.push(m);
                        best = c;
                    },
                    crate::board::Comparison::Worse => {},
                }
            }
            proof {
                assert(best_moves@ =~= best_among(*self, obj, r as int, k + 1)->Ok_0.0);
            }
            k += 1;
        }
        Ok((best_moves, best))
    }

    /// `candidate_score` of a legal move of this move node, computed.
    fn candidate(&self, obj: Objective, r: u32, m: Move) -> (res: Result<i128, GameError>)
        requires
            obj.wf(),
            within_rolls(*self, r as int),
            r <= MAX_ROLL_LAYERS,
            self.kind() is Move,
            self.spec_is_legal_move(m),
        ensures
            match candidate_score(*self, obj, r as int, m) {
                Ok(v) => (res matches Ok(x) && x == v && -(obj.bound() * six_pow(r as int))
                    <= v <= obj.bound() * six_pow(r as int)),
                Err(e) => res == Err::<i128, GameError>(e),
            },
        decreases self, 1int, 0int,
    {
        proof {
            crate::tree::lemma_first_child_in_range(
                *self,
                self.boards_after_move(m).0,
                self.boards_after_move(m).1,
                self.kind_after_move(),
                0,
            );
        }
        proof {
            lemma_bound_fits(obj, r as int);
        }
        let c = match self.get_child_from_move(m) {
            Ok(c) => c,
            Err(e) => return Err(e),
        };
        proof {
            let i = self.child_index_after_move(m)->Some_0;
            assert(*c == self.kids()[i]);
            assert(within_rolls(self.kids()[i], r as int));
        }
        if c.is_game_over() || c.is_leaf() {
            return scaled_leaf_of(c, obj, r);
        }
        match c.node_type {
            NodeType::Move(_, _) => Err(GameError::NotARollNode),
            NodeType::Roll(_) => {
                if c.children.len() != 6 {
                    Err(GameError::RollsNotExpanded)
                } else {
                    c.roll_sum_of(obj, r - 1)
                }
            },
        }
    }

    /// `roll_sum` over the six children of this roll node, computed.
    fn roll_sum_of(&self, obj: Objective, r: u32) -> (res: Result<i128, GameError>)
        requires
            obj.wf(),
            self.kind() is Roll,
            self.kids().len() == 6,
            r < MAX_ROLL_LAYERS,
            forall|i: int| 0 <= i < 6 ==> within_rolls(#[trigger] self.kids()[i], r as int),
        ensures
            match roll_sum(*self, obj, r as int, 6) {
                Ok(v) => (res matches Ok(x) && x == v && -(obj.bound() * six_pow(r + 1))
                    <= v <= obj.bound() * six_pow(r + 1)),
                Err(e) => res == Err::<i128, GameError>(e),
            },
        decreases self, 0int, 0int,
    {
        let ghost t = obj.bound() * six_pow(r as int);
        proof {
            lemma_scaled_fits(r + 1);
            lemma_bound_fits(obj, r as int);
            lemma_bound_fits(obj, r + 1);
            assert(six_pow(r + 1) == 6 * six_pow(r as int));
            assert(obj.bound() * six_pow(r + 1) == 6 * t) by (nonlinear_arith)
                requires
                    six_pow(r + 1) == 6 * six_pow(r as int),
                    t == obj.bound() * six_pow(r as int),
            ;
            assert(obj.bound() * six_pow(r + 1) <= LEAF_BOUND * six_pow(r + 1)) by (nonlinear_arith)
                requires
                    obj.bound() <= LEAF_BOUND,
                    six_pow(r + 1) >= 1,
            ;
        }
        let mut sum: i128 = 0;
        let mut j: usize = 0;
        while j < 6
            invariant
                obj.wf(),
                self.kids().len() == 6,
                r < MAX_ROLL_LAYERS,
                forall|i: int| 0 <= i < 6 ==> within_rolls(#[trigger] self.kids()[i], r as int),
                t == obj.bound() * six_pow(r as int),
                1 <= t,
                6 * t <= i128::MAX,
                j <= 6,
                roll_sum(*self, obj, r as int, j as int) == Ok::<int, GameError>(sum as int),
                -(j * t) <= sum <= j * t,
            decreases 6 - j,
        {
            let v = match self.children[j].score(obj, r) {
                Ok(q) => q.1,
                Err(e) => {
                    proof {
                        lemma_roll_sum_error_stays(*self, obj, r as int, j + 1, 6);
                    }
                    return Err(e);
                },
            };
            proof {
                assert((j + 1) * t == j * t + t) by (nonlinear_arith);
                assert((j + 1) * t <= 6 * t) by (nonlinear_arith)
                    requires
                        j < 6,
                        t >= 1,
                ;
            }
            sum = sum + v;
            j += 1;
        }
        Ok(sum)
    }

    /// The best moves of this move node up to row symmetry, and its value: the expectiminimax
    /// of the expanded tree below it, leaves valued by `objective`, computed exactly.
    pub fn get_next_moves_and_evaluation(&self, objective: Objective) -> (r: Result<
        (Vec<Move>, Evaluation),
        GameError,
    >)
        requires
            objective.wf(),
        ensures
            self.kind() is Roll ==> r == Err::<(Vec<Move>, Evaluation), GameError>(
                GameError::NotAMoveNode,
            ),
            self.kind() is Move ==> evaluation_matches(*self, objective, result_view(r)),
            objective == Objective::Outcome ==> (r matches Ok(q) ==> -six_pow(q.1.exp()) <= q.1.num()
                <= six_pow(q.1.exp())),
    {
        if let NodeType::Roll(_) = self.node_type {
            return Err(GameError::NotAMoveNode);
        }
        if !fits_rolls(self, MAX_ROLL_LAYERS) {
            return Err(GameError::SearchTooDeep);
        }
        let scale: u32 = match objective {
            Objective::Outcome => 0,
            Objective::Difference(k) => k.exponent,
        };
        match self.score(objective, MAX_ROLL_LAYERS) {
            Ok((moves, s)) => {
                let evaluation = Evaluation::new(s, MAX_ROLL_LAYERS + scale);
                proof {
                    if objective == Objective::Outcome {
                        let p = six_pow(MAX_ROLL_LAYERS as int);
                        let q = six_pow(evaluation.exp());
                        let n = evaluation.num();
                        lemma_six_pow_positive(MAX_ROLL_LAYERS as int);
                        lemma_six_pow_positive(evaluation.exp());
                        assert(-q <= n <= q) by (nonlinear_arith)
                            requires
                                n * p == s * q,
                                -p <= s <= p,
                                p >= 1,
                                q >= 1,
                        ;
                    }
                }
                Ok((moves, evaluation))
            },
            Err(e) => Err(e),
        }
    }
}

impl Node {
    /// The tree below this move node cut down to its best lines: at each expanded move node
    /// only the children of the best moves are kept, in the order of the best moves.
    pub fn optimal_tree(&self, obj: Objective, r: u32) -> (res: Result<Node, GameError>)
        requires
            obj.wf(),
            within_rolls(*self, r as int),
            r <= MAX_ROLL_LAYERS,
        ensures
            res matches Ok(t) ==> t.same_position(*self),
            self.kind() is Move && !self.is_fresh() && self.legal_moves_up_to_row_symmetry().len()
                > 0 ==> (res matches Ok(t) ==> (node_score(*self, obj, r as int) matches Ok(p)
                && t.kids().len() == p.0.len())),
        decreases self,
    {
        let moves = match self.score(obj, r) {
            Ok((moves, _)) => moves,
            Err(e) => return Err(e),
        };
        let mut children: Vec<Node> = Vec::new();
        if let NodeType::Move(_, _) = self.node_type {
            let mut i: usize = 0;
            while i < moves.len()
                invariant
                    obj.wf(),
                    within_rolls(*self, r as int),
                    r <= MAX_ROLL_LAYERS,
                    self.kind() is Move,
                    i <= moves@.len(),
                    children@.len() == i,
                decreases moves@.len() - i,
            {
                if !self.is_legal_move(moves[i]) {
                    return Err(GameError::NoSuchChild);
                }
                proof {
                    crate::tree::lemma_first_child_in_range(
                        *self,
                        self.boards_after_move(moves@[i as int]).0,
                        self.boards_after_move(moves@[i as int]).1,
                        self.kind_after_move(),
                        0,
                    );
                }
                let c = match self.get_child_from_move(moves[i]) {
                    Ok(c) => c,
                    Err(e) => return Err(e),
                };
                proof {
                    let k = self.child_index_after_move(moves@[i as int])->Some_0;
                    assert(*c == self.kids()[k]);
                    assert(within_rolls(self.kids()[k], r as int));
                }
                let pruned = match c.optimal_roll_tree(obj, r) {
                    Ok(t) => t,
                    Err(e) => return Err(e),
                };
                children.push(pruned);
                i += 1;
            }
        }
        proof {
            if self.kind() is Move && !self.is_fresh() && self.legal_moves_up_to_row_symmetry().len()
                > 0 {
                assert(children@.len() == moves@.len());
            }
        }
        Ok(
            Node {
                player_1_board: self.player_1_board,
                player_2_board: self.player_2_board,
                node_type: self.node_type,
                children,
            },
        )
    }

    /// `optimal_tree` below each child of a roll node.
    fn optimal_roll_tree(&self, obj: Objective, r: u32) -> (res: Result<Node, GameError>)
        requires
            obj.wf(),
            within_rolls(*self, r as int),
            r <= MAX_ROLL_LAYERS,
        ensures
            res matches Ok(t) ==> t.same_position(*self),
        decreases self,
    {
        let mut children: Vec<Node> = Vec::new();
        if let NodeType::Roll(_) = self.node_type {
            if self.children.len() > 0 {
                let mut j: usize = 0;
                while j < self.children.len()
                    invariant
                        obj.wf(),
                        r >= 1,
                        r <= MAX_ROLL_LAYERS,
                        j <= self.kids().len(),
                        forall|i: int|
                            0 <= i < self.kids().len() ==> within_rolls(
                                #[trigger] self.kids()[i],
                                r - 1,
                            ),
                    decreases self.kids().len() - j,
                {
                    let pruned = match self.children[j].optimal_tree(obj, r - 1) {
                        Ok(t) => t,
                        Err(e) => return Err(e),
                    };
                    children.push(pruned);
                    j += 1;
                }
            }
        }
        Ok(
            Node {
                player_1_board: self.player_1_board,
                player_2_board: self.player_2_board,
                node_type: self.node_type,
                children,
            },
        )
    }
}

} // verus!
