//! Static evaluation: what a position is worth to one side, and how urgent a
//! move looks before it is searched.
use vstd::prelude::*;
use crate::apply::captures;
use crate::attack::in_check;
use crate::position::{GameState, Position};
use crate::types::{Color, Move, PieceKind};

verus! {

/// The score of delivering mate. It outweighs any material and position.
pub const MATE_SCORE: i32 = 30_000;

/// What being in check costs the side to move.
pub const CHECK_BONUS: i32 = 30;

/// No evaluation lies further from zero than this.
pub const EVAL_BOUND: i32 = 57_950;

/// The positional bonus of a white pawn, square by square from a1.
pub const PAWN_PST: [i16; 64] = [
    0, 0, 0, 0, 0, 0, 0, 0, 5, 5, 5, -5, -5, 5, 5, 5, 2, 2, 2, 2, 2, 2, 2, 2, 1, 1, 2, 3, 3, 2, 1,
    1, 1, 1, 1, 2, 2, 1, 1, 1, 0, 0, 0, 1, 1, 0, 0, 0, 0, -1, -1, 0, 0, -1, -1, 0, 0, 0, 0, 0, 0,
    0, 0, 0,
];

/// The positional bonus of a white knight, square by square from a1.
pub const KNIGHT_PST: [i16; 64] = [
    -5, -4, -3, -3, -3, -3, -4, -5, -4, -2, 0, 0, 0, 0, -2, -4, -3, 0, 1, 1, 1, 1, 0, -3, -3, 0, 2,
    3, 3, 2, 0, -3, -3, 0, 2, 3, 3, 2, 0, -3, -3, 0, 1, 2, 2, 1, 0, -3, -4, -2, 0, 0, 0, 0, -2, -4,
    -5, -4, -3, -3, -3, -3, -4, -5,
];

/// The positional bonus of a white bishop, square by square from a1.
pub const BISHOP_PST: [i16; 64] = [
    -2, -1, -1, -1, -1, -1, -1, -2, -1, 0, 0, 0, 0, 0, 0, -1, -1, 0, 1, 1, 1, 1, 0, -1, -1, 1, 1,
    1, 1, 1, 1, -1, -1, 0, 1, 1, 1, 1, 0, -1, -1, 0, 0, 1, 1, 0, 0, -1, -2, -1, -1, -1, -1, -1, -1,
    -2, -2, -1, -1, -1, -1, -1, -1, -2,
];

/// The positional bonus of a white rook, square by square from a1.
pub const ROOK_PST: [i16; 64] = [
    0, 0, 1, 2, 2, 1, 0, 0, -2, -2, -2, -2, -2, -2, -2, -2, -1, -1, 0, 0, 0, 0, -1, -1, -1, -1, 0,
    0, 0, 0, -1, -1, -1, -1, 0, 0, 0, 0, -1, -1, -1, -1, 0, 1, 1, 0, -1, -1, -1, -1, 2, 2, 2, 2,
    -1, -1, 0, 0, 0, 0, 2, 2, 0, 0,
];

/// The positional bonus of a white queen, square by square from a1.
pub const QUEEN_PST: [i16; 64] = [
    -4, -2, -2, -1, -1, -2, -2, -4, -2, 0, 0, 0, 0, 0, 0, -2, -2, 0, 1, 1, 1, 1, 0, -2, -1, 0, 1,
    1, 1, 1, 0, -1, 0, 0, 1, 1, 1, 1, 0, -1, -1, 0, 1, 1, 1, 1, 0, -1, -2, -2, 0, 0, 0, 0, -2, -2,
    -4, -2, -2, -1, -1, -2, -2, -4,
];

/// The positional bonus of a white king, square by square from a1.
pub const KING_PST: [i16; 64] = [
    -3, -4, -4, -5, -5, -4, -4, -3, -3, -4, -4, -5, -5, -4, -4, -3, -3, -4, -4, -5, -5, -4, -4, -3,
    -3, -4, -4, -5, -5, -4, -4, -3, -2, -3, -3, -4, -4, -3, -3, -2, -1, -2, -2, -2, -2, -2, -2, -1,
    2, 2, 0, 0, 0, 0, 2, 2, 2, 3, 1, 0, 0, 1, 3, 2,
];

/// What `piece_value` gives, for use in contracts.
pub open spec fn spec_piece_value(kind: PieceKind) -> i32 {
    match kind {
        PieceKind::Pawn => 100i32,
        PieceKind::Knight => 320i32,
        PieceKind::Bishop => 330i32,
        PieceKind::Rook => 500i32,
        PieceKind::Queen => 900i32,
        PieceKind::King => 0i32,
    }
}

/// The material value of a kind of piece.
#[verifier::when_used_as_spec(spec_piece_value)]
pub fn piece_value(kind: PieceKind) -> (v: i32)
    ensures
        v == spec_piece_value(kind),
{
    match kind {
        PieceKind::Pawn => 100,
        PieceKind::Knight => 320,
        PieceKind::Bishop => 330,
        PieceKind::Rook => 500,
        PieceKind::Queen => 900,
        PieceKind::King => 0,
    }
}

/// What `mirror_square` gives, for use in contracts.
pub open spec fn spec_mirror_square(sq: u8) -> u8 {
    ((7 - sq / 8) * 8 + sq % 8) as u8
}

/// The square that mirrors `sq` across the middle of the board: same file,
/// ranks counted from the other side.
#[verifier::when_used_as_spec(spec_mirror_square)]
pub fn mirror_square(sq: u8) -> (r: u8)
    requires
        sq < 64,
    ensures
        r == spec_mirror_square(sq),
        r < 64,
{
    let file = sq % 8;
    let rank = sq / 8;
    (7 - rank) * 8 + file
}

/// What `piece_square_bonus` gives, for use in contracts.
pub open spec fn spec_piece_square_bonus(kind: PieceKind, color: Color, sq: u8) -> i16 {
    let idx = match color {
        Color::White => sq as int,
        Color::Black => mirror_square(sq) as int,
    };
    match kind {
        PieceKind::Pawn => PAWN_PST@[idx],
        PieceKind::Knight => KNIGHT_PST@[idx],
        PieceKind::Bishop => BISHOP_PST@[idx],
        PieceKind::Rook => ROOK_PST@[idx],
        PieceKind::Queen => QUEEN_PST@[idx],
        PieceKind::King => KING_PST@[idx],
    }
}

/// The positional bonus of a piece on `sq`: the table of its kind, read at
/// `sq` for White and at the mirrored square for Black.
#[verifier::when_used_as_spec(spec_piece_square_bonus)]
pub fn piece_square_bonus(kind: PieceKind, color: Color, sq: u8) -> (r: i16)
    requires
        sq < 64,
    ensures
        r == spec_piece_square_bonus(kind, color, sq),
        -5 <= r <= 5,
{
    let idx: usize = match color {
        Color::White => sq as usize,
        Color::Black => mirror_square(sq) as usize,
    };
    match kind {
        PieceKind::Pawn => PAWN_PST[idx],
        PieceKind::Knight => KNIGHT_PST[idx],
        PieceKind::Bishop => BISHOP_PST[idx],
        PieceKind::Rook => ROOK_PST[idx],
        PieceKind::Queen => QUEEN_PST[idx],
        PieceKind::King => KING_PST[idx],
    }
}

/// What the content of square `sq` adds to the evaluation for `ai`: the
/// value of the piece plus its positional bonus, counted for a piece of `ai`
/// and against it for a piece of the other colour.
pub open spec fn square_score(p: Position, ai: Color, sq: int) -> int {
    match p.board[sq] {
        Some(piece) => {
            let total = piece_value(piece.kind) + piece_square_bonus(
                piece.kind,
                piece.color,
                sq as u8,
            );
            if piece.color == ai {
                total
            } else {
                -total
            }
        },
        None => 0,
    }
}

/// The sum of the scores of the squares below `n`.
pub open spec fn material_below(p: Position, ai: Color, n: int) -> int
    decreases n,
{
    if n <= 0 {
        0
    } else {
        material_below(p, ai, n - 1) + square_score(p, ai, n - 1)
    }
}

/// What the check on the side to move adds: nothing without a check,
/// otherwise the bonus against the side that is in check.
pub open spec fn check_score(p: Position, ai: Color) -> int {
    if in_check(p, p.side_to_move) {
        if p.side_to_move == ai {
            -CHECK_BONUS
        } else {
            CHECK_BONUS as int
        }
    } else {
        0
    }
}

/// The static evaluation of `p` for `ai`: material and position of all
/// pieces, and the check bonus.
pub open spec fn evaluation(p: Position, ai: Color) -> int {
    material_below(p, ai, 64) + check_score(p, ai)
}

/// What a position without legal moves is worth to `ai`: the mate score
/// against the side that is mated, nothing for a stalemate.
pub open spec fn terminal_value(p: Position, ai: Color) -> int {
    if in_check(p, p.side_to_move) {
        if p.side_to_move == ai {
            -MATE_SCORE
        } else {
            MATE_SCORE as int
        }
    } else {
        0
    }
}

/// The sum of the scores of `n` squares lies within 905 a square.
pub proof fn lemma_material_bound(p: Position, ai: Color, n: int)
    requires
        0 <= n <= 64,
        p.board.len() == 64,
    ensures
        -905 * n <= material_below(p, ai, n) <= 905 * n,
    decreases n,
{
    if n > 0 {
        lemma_material_bound(p, ai, n - 1);
        let sq = (n - 1) as u8;
        if let Some(piece) = p.board[n - 1] {
            lemma_bonus_bound(piece.kind, piece.color, sq);
        }
    }
}

/// Every positional bonus lies between -5 and 5.
pub proof fn lemma_bonus_bound(kind: PieceKind, color: Color, sq: u8)
    requires
        sq < 64,
    ensures
        -5 <= piece_square_bonus(kind, color, sq) <= 5,
{
    let idx = match color {
        Color::White => sq as int,
        Color::Black => mirror_square(sq) as int,
    };
    assert(0 <= idx < 64);
    assert(-5 <= PAWN_PST@[idx] <= 5);
    assert(-5 <= KNIGHT_PST@[idx] <= 5);
    assert(-5 <= BISHOP_PST@[idx] <= 5);
    assert(-5 <= ROOK_PST@[idx] <= 5);
    assert(-5 <= QUEEN_PST@[idx] <= 5);
    assert(-5 <= KING_PST@[idx] <= 5);
}

/// The static evaluation of a position of 64 squares lies within
/// `EVAL_BOUND`.
pub proof fn law_evaluation_is_bounded(p: Position, ai: Color)
    requires
        p.board.len() == 64,
    ensures
        -EVAL_BOUND <= evaluation(p, ai) <= EVAL_BOUND,
{
    lemma_material_bound(p, ai, 64);
}

/// Scores a position without legal moves.
pub fn terminal_score(state: &GameState, ai_color: Color) -> (score: i32)
    ensures
        score == terminal_value(state@, ai_color),
{
    if state.is_in_check(state.side_to_move) {
        if state.side_to_move == ai_color {
            -MATE_SCORE
        } else {
            MATE_SCORE
        }
    } else {
        0
    }
}

/// Evaluates a position for `ai_color` without looking ahead: over all
/// pieces, the material value plus the positional bonus, counted for the
/// pieces of `ai_color` and against those of the other side; and the check
/// bonus, against the side to move if it is in check.
pub fn evaluate(state: &GameState, ai_color: Color) -> (score: i32)
    ensures
        score == evaluation(state@, ai_color),
        -EVAL_BOUND <= score <= EVAL_BOUND,
{
    let mut score: i32 = 0;
    let mut sq: u8 = 0;
    while sq < 64
        invariant
            sq <= 64,
            score == material_below(state@, ai_color, sq as int),
            -905 * sq <= score <= 905 * sq,
        decreases 64 - sq,
    {
        if let Some(piece) = state.board[sq as usize] {
            let total: i32 = piece_value(piece.kind) + piece_square_bonus(
                piece.kind,
                piece.color,
                sq,
            ) as i32;
            if piece.color == ai_color {
                score = score + total;
            } else {
                score = score - total;
            }
        }
        sq += 1;
    }
    if state.is_in_check(state.side_to_move) {
        if state.side_to_move == ai_color {
            score = score - CHECK_BONUS;
        } else {
            score = score + CHECK_BONUS;
        }
    }
    score
}

/// Whether `mv` takes a piece: en passant, or by landing on an occupied
/// square.
pub fn is_capture(state: &GameState, mv: Move) -> (r: bool)
    requires
        mv.to < 64,
    ensures
        r == captures(state@, mv),
{
    mv.is_en_passant || state.board[mv.to as usize].is_some()
}

/// The ordering score of the hinted move. No other move scores as much:
/// castling, the best capture and the best promotion add up to 10350.
pub const HINT_SCORE: i32 = 20_000;

/// How early a move is tried.
///
/// The hinted move scores `HINT_SCORE`, which is more than any other move
/// scores. Any other move scores the sum of: 50 for castling; 800 for an
/// en-passant capture, or for another capture ten times the value of the piece
/// taken less the value of the piece that takes; and, for a promotion, the
/// value of the new piece plus 400.
pub open spec fn order_score(p: Position, m: Move, hint: Option<Move>) -> int {
    if hint == Some(m) {
        HINT_SCORE as int
    } else {
        let castle: int = if m.is_castling {
            50
        } else {
            0
        };
        let capture: int = if m.is_en_passant {
            800
        } else {
            match p.board[m.to as int] {
                Some(victim) => {
                    let attacker: int = match p.board[m.from as int] {
                        Some(piece) => piece_value(piece.kind) as int,
                        None => 100,
                    };
                    piece_value(victim.kind) * 10 - attacker
                },
                None => 0,
            }
        };
        let promotion: int = match m.promotion {
            Some(kind) => piece_value(kind) + 400,
            None => 0,
        };
        castle + capture + promotion
    }
}

/// The hinted move scores highest: every other move scores less than it,
/// whatever it captures and whatever it promotes to.
pub proof fn law_hint_scores_highest(p: Position, hint: Move, m: Move)
    requires
        m != hint,
    ensures
        order_score(p, m, Some(hint)) < order_score(p, hint, Some(hint)),
        -900 <= order_score(p, m, Some(hint)) <= 10_350,
        order_score(p, hint, Some(hint)) == HINT_SCORE,
{
}

/// Scores `mv` for the order in which moves are tried: the hinted move
/// highest, then captures by the worth of what is taken against what takes,
/// promotions and castling.
pub fn move_heuristic(state: &GameState, mv: Move, tt_hint: Option<Move>) -> (score: i32)
    requires
        mv.from < 64,
        mv.to < 64,
    ensures
        score == order_score(state@, mv, tt_hint),
        tt_hint == Some(mv) ==> score == HINT_SCORE,
        tt_hint != Some(mv) ==> -900 <= score <= 10_350,
{
    if let Some(hint) = tt_hint {
        if hint == mv {
            return HINT_SCORE;
        }
    }
    let mut score: i32 = 0;
    if mv.is_castling {
        score = score + 50;
    }
    if mv.is_en_passant {
        score = score + 800;
    } else if let Some(victim) = state.board[mv.to as usize] {
        let attacker: i32 = match state.board[mv.from as usize] {
            Some(piece) => piece_value(piece.kind),
            None => 100,
        };
        score = score + (piece_value(victim.kind) * 10 - attacker);
    }
    if let Some(kind) = mv.promotion {
        score = score + (piece_value(kind) + 400);
    }
    score
}

} // verus!
