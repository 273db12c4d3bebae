//! The moves of the pieces, said piece by piece, and that the generator lists
//! exactly these.
use vstd::prelude::*;
use crate::attack::{in_check, is_direction, king_delta, knight_delta, ray_delta, room};
use crate::attack_laws::{abs, along, clear_between, diagonal, ray_index, ray_piece, sign, straight};
use crate::move_list::MAX_MOVES;
use crate::movegen::{back_rank, castling, castling_moves, castling_on, en_passant_capture,
    keeps_king_safe, king_moves, king_steps, knight_moves, leap, legal_moves, may_castle, may_land,
    moves_below, pawn_advances, pawn_arrivals, pawn_capture, pawn_double_step, pawn_moves,
    piece_moves, promoting, promotion_kind, pseudo_legal_moves, ray_moves, slider_moves};
use crate::position::Position;
use crate::soundness::lemma_shifted;
use crate::types::{file_of, on_board, rank_of, spec_shifted, square_at, Color, Move, Piece,
    PieceKind};

verus! {

/// Whether the move is neither a promotion nor an en-passant capture nor
/// castling.
pub open spec fn is_plain(m: Move) -> bool {
    m.promotion is None && !m.is_en_passant && !m.is_castling
}

/// Whether `(df, dr)` is a knight's leap.
pub open spec fn knight_shape(df: int, dr: int) -> bool {
    (abs(df) == 1 && abs(dr) == 2) || (abs(df) == 2 && abs(dr) == 1)
}

/// Whether `(df, dr)` is a king's step.
pub open spec fn king_shape(df: int, dr: int) -> bool {
    abs(df) <= 1 && abs(dr) <= 1 && (df != 0 || dr != 0)
}

/// Whether the promotion of `m` is what the rules ask of a pawn of `color`
/// that arrives on the square: one of queen, rook, bishop and knight on its
/// last rank, none elsewhere.
pub open spec fn promotes_rightly(m: Move, color: Color) -> bool {
    match m.promotion {
        Some(kind) => rank_of(m.to) == color.promotion_rank() && (kind == PieceKind::Queen || kind
            == PieceKind::Rook || kind == PieceKind::Bishop || kind == PieceKind::Knight),
        None => rank_of(m.to) != color.promotion_rank(),
    }
}

/// Whether `m` is a move of a pawn of `color` from `m.from`.
///
/// A pawn steps one square straight ahead onto an empty square; or two from
/// its home rank over an empty square onto an empty square; or one square
/// diagonally ahead onto a piece of the other colour; or, as an en-passant
/// capture, diagonally ahead onto the empty en-passant target. Arriving on its
/// last rank by a step or a capture it promotes.
pub open spec fn pawn_move(p: Position, m: Move, color: Color) -> bool {
    let df = file_of(m.to) - file_of(m.from);
    let dr = rank_of(m.to) - rank_of(m.from);
    let dir = color.pawn_direction();
    &&& !m.is_castling
    &&& if m.is_en_passant {
        &&& abs(df) == 1
        &&& dr == dir
        &&& p.board[m.to as int] is None
        &&& p.en_passant == Some(m.to)
        &&& m.promotion is None
    } else if df == 0 {
        &&& p.board[m.to as int] is None
        &&& {
            ||| dr == dir && promotes_rightly(m, color)
            ||| {
                &&& dr == 2 * dir
                &&& rank_of(m.from) == color.home_rank()
                &&& p.board[(m.from + m.to) / 2] is None
                &&& m.promotion is None
            }
        }
    } else {
        &&& abs(df) == 1
        &&& dr == dir
        &&& p.board[m.to as int] matches Some(victim) && victim.color != color
        &&& promotes_rightly(m, color)
    }
}

/// Whether `m` is a castling move of the king of `color`: the king is not
/// in check and may castle on the wing on which `m.to` lies.
pub open spec fn castling_move(p: Position, m: Move, color: Color) -> bool {
    &&& m.is_castling
    &&& m.promotion is None
    &&& !m.is_en_passant
    &&& !in_check(p, color)
    &&& {
        ||| m.to == back_rank(color) + 6 && may_castle(p, color, true)
        ||| m.to == back_rank(color) + 2 && may_castle(p, color, false)
    }
}

/// Whether `m` is a pseudo-legal move in `p`: a move that the piece on
/// `m.from`, one of the side to move, makes by the rules of its kind, the
/// safety of its own king apart.
pub open spec fn is_pseudo_legal(p: Position, m: Move) -> bool {
    let df = file_of(m.to) - file_of(m.from);
    let dr = rank_of(m.to) - rank_of(m.from);
    &&& m.from < 64
    &&& m.to < 64
    &&& p.board[m.from as int] matches Some(mover) && mover.color == p.side_to_move && match mover.kind {
        PieceKind::Pawn => pawn_move(p, m, mover.color),
        PieceKind::Knight => is_plain(m) && knight_shape(df, dr) && may_land(
            p,
            m.to,
            mover.color,
        ),
        PieceKind::King => (is_plain(m) && king_shape(df, dr) && may_land(p, m.to, mover.color))
            || castling_move(p, m, mover.color),
        PieceKind::Rook => is_plain(m) && straight(df, dr) && clear_between(p, m.from, m.to)
            && may_land(p, m.to, mover.color),
        PieceKind::Bishop => is_plain(m) && diagonal(df, dr) && clear_between(p, m.from, m.to)
            && may_land(p, m.to, mover.color),
        PieceKind::Queen => is_plain(m) && (straight(df, dr) || diagonal(df, dr))
            && clear_between(p, m.from, m.to) && may_land(p, m.to, mover.color),
    }
}

proof fn lemma_contains_left(a: Seq<Move>, b: Seq<Move>, m: Move)
    requires
        a.contains(m),
    ensures
        (a + b).contains(m),
{
    let i = choose|i: int| 0 <= i < a.len() && a[i] == m;
    assert((a + b)[i] == m);
}

proof fn lemma_contains_right(a: Seq<Move>, b: Seq<Move>, m: Move)
    requires
        b.contains(m),
    ensures
        (a + b).contains(m),
{
    let i = choose|i: int| 0 <= i < b.len() && b[i] == m;
    assert((a + b)[a.len() + i] == m);
}

proof fn lemma_contains_one(m: Move)
    ensures
        seq![m].contains(m),
{
    assert(seq![m][0] == m);
}

/// The moves of a knight hold each of its leaps.
proof fn lemma_knight_moves_hold(p: Position, sq: u8, color: Color, n: int, i: int, m: Move)
    requires
        0 <= i < n <= 8,
        leap(p, sq, color, knight_delta(i).0, knight_delta(i).1).contains(m),
    ensures
        knight_moves(p, sq, color, n).contains(m),
    decreases n,
{
    let last = leap(p, sq, color, knight_delta(n - 1).0, knight_delta(n - 1).1);
    if i == n - 1 {
        lemma_contains_right(knight_moves(p, sq, color, n - 1), last, m);
    } else {
        lemma_knight_moves_hold(p, sq, color, n - 1, i, m);
        lemma_contains_left(knight_moves(p, sq, color, n - 1), last, m);
    }
}

/// The steps of a king hold each of its steps.
proof fn lemma_king_steps_hold(p: Position, sq: u8, color: Color, n: int, i: int, m: Move)
    requires
        0 <= i < n <= 8,
        leap(p, sq, color, king_delta(i).0, king_delta(i).1).contains(m),
    ensures
        king_steps(p, sq, color, n).contains(m),
    decreases n,
{
    let last = leap(p, sq, color, king_delta(n - 1).0, king_delta(n - 1).1);
    if i == n - 1 {
        lemma_contains_right(king_steps(p, sq, color, n - 1), last, m);
    } else {
        lemma_king_steps_hold(p, sq, color, n - 1, i, m);
        lemma_contains_left(king_steps(p, sq, color, n - 1), last, m);
    }
}

/// The moves of a slider hold the moves along each of its rays.
proof fn lemma_slider_moves_hold(
    p: Position,
    sq: u8,
    color: Color,
    lo: int,
    hi: int,
    i: int,
    m: Move,
)
    requires
        lo <= i < hi,
        ray_moves(
            p,
            sq,
            color,
            file_of(sq) as int,
            rank_of(sq) as int,
            ray_delta(i).0,
            ray_delta(i).1,
        ).contains(m),
    ensures
        slider_moves(p, sq, color, lo, hi).contains(m),
    decreases hi - lo,
{
    let last = ray_moves(
        p,
        sq,
        color,
        file_of(sq) as int,
        rank_of(sq) as int,
        ray_delta(hi - 1).0,
        ray_delta(hi - 1).1,
    );
    if i == hi - 1 {
        lemma_contains_right(slider_moves(p, sq, color, lo, hi - 1), last, m);
    } else {
        lemma_slider_moves_hold(p, sq, color, lo, hi - 1, i, m);
        lemma_contains_left(slider_moves(p, sq, color, lo, hi - 1), last, m);
    }
}

/// The moves along a ray hold the move onto each square that lies on the
/// ray behind empty squares only and on which the piece may land.
proof fn lemma_ray_moves_hold(
    p: Position,
    from: u8,
    color: Color,
    f: int,
    r: int,
    df: int,
    dr: int,
    n: int,
)
    requires
        p.board.len() == 64,
        is_direction(df, dr),
        on_board(f, r),
        1 <= n,
        on_board(along(f, df, n), along(r, dr, n)),
        forall|k: int| 1 <= k < n ==> (#[trigger] ray_piece(p, f, r, df, dr, k)) is None,
        may_land(p, square_at(along(f, df, n), along(r, dr, n)), color),
    ensures
        ray_moves(p, from, color, f, r, df, dr).contains(
            Move::quiet(from, square_at(along(f, df, n), along(r, dr, n))),
        ),
    decreases n,
{
    let to = square_at(f + df, r + dr);
    let target = Move::quiet(from, square_at(along(f, df, n), along(r, dr, n)));
    assert(on_board(f + df, r + dr));
    assert(ray_piece(p, f, r, df, dr, 1) == p.board[to as int]);
    if n == 1 {
        if p.board[to as int] is None {
            lemma_contains_one(target);
            lemma_contains_left(
                seq![target],
                ray_moves(p, from, color, f + df, r + dr, df, dr),
                target,
            );
        } else {
            lemma_contains_one(target);
        }
    } else {
        assert(p.board[to as int] is None);
        assert forall|k: int| 1 <= k < n - 1 implies (#[trigger] ray_piece(
            p,
            f + df,
            r + dr,
            df,
            dr,
            k,
        )) is None by {
            assert(ray_piece(p, f, r, df, dr, k + 1) == ray_piece(p, f + df, r + dr, df, dr, k));
        }
        assert(along(f + df, df, n - 1) == along(f, df, n));
        assert(along(r + dr, dr, n - 1) == along(r, dr, n));
        lemma_ray_moves_hold(p, from, color, f + df, r + dr, df, dr, n - 1);
        lemma_contains_right(
            seq![Move::quiet(from, to)],
            ray_moves(p, from, color, f + df, r + dr, df, dr),
            target,
        );
    }
}

/// A move of a slider by the rules is among the moves along its rays
/// `lo..hi`, if its direction is among these.
proof fn lemma_slider_move_listed(p: Position, m: Move, color: Color, lo: int, hi: int)
    requires
        p.board.len() == 64,
        m.from < 64,
        m.to < 64,
        is_plain(m),
        clear_between(p, m.from, m.to),
        may_land(p, m.to, color),
        ({
            let df = file_of(m.to) - file_of(m.from);
            let dr = rank_of(m.to) - rank_of(m.from);
            &&& straight(df, dr) || diagonal(df, dr)
            &&& lo <= ray_index(sign(df), sign(dr)) < hi
        }),
    ensures
        slider_moves(p, m.from, color, lo, hi).contains(m),
{
    let f = file_of(m.from) as int;
    let r = rank_of(m.from) as int;
    let df = file_of(m.to) - file_of(m.from);
    let dr = rank_of(m.to) - rank_of(m.from);
    let dx = sign(df);
    let dy = sign(dr);
    let n = if abs(df) > abs(dr) {
        abs(df)
    } else {
        abs(dr)
    };
    let i = ray_index(dx, dy);
    assert(ray_delta(i) == (dx, dy));
    assert(along(f, dx, n) == file_of(m.to) && along(r, dy, n) == rank_of(m.to));
    assert(square_at(along(f, dx, n), along(r, dy, n)) == m.to);
    lemma_ray_moves_hold(p, m.from, color, f, r, dx, dy, n);
    assert(Move::quiet(m.from, m.to) == m);
    lemma_slider_moves_hold(p, m.from, color, lo, hi, i, m);
}

/// A step or a leap by the rules is the move that `leap` gives for it.
proof fn lemma_leap_listed(p: Position, m: Move, color: Color)
    requires
        m.from < 64,
        m.to < 64,
        is_plain(m),
        may_land(p, m.to, color),
    ensures
        leap(
            p,
            m.from,
            color,
            file_of(m.to) - file_of(m.from),
            rank_of(m.to) - rank_of(m.from),
        ).contains(m),
{
    let df = file_of(m.to) - file_of(m.from);
    let dr = rank_of(m.to) - rank_of(m.from);
    assert(spec_shifted(m.from, df, dr) == Some(m.to));
    assert(Move::quiet(m.from, m.to) == m);
    lemma_contains_one(m);
}

/// A move of a knight by the rules is among its moves.
proof fn lemma_knight_move_listed(p: Position, m: Move, color: Color)
    requires
        m.from < 64,
        m.to < 64,
        is_plain(m),
        may_land(p, m.to, color),
        knight_shape(file_of(m.to) - file_of(m.from), rank_of(m.to) - rank_of(m.from)),
    ensures
        knight_moves(p, m.from, color, 8).contains(m),
{
    let dx = file_of(m.to) - file_of(m.from);
    let dy = rank_of(m.to) - rank_of(m.from);
    let i: int = if dx == 1 && dy == 2 {
        0
    } else if dx == -1 && dy == 2 {
        1
    } else if dx == 2 && dy == 1 {
        2
    } else if dx == -2 && dy == 1 {
        3
    } else if dx == -1 && dy == -2 {
        4
    } else if dx == 1 && dy == -2 {
        5
    } else if dx == -2 && dy == -1 {
        6
    } else {
        7
    };
    assert(knight_delta(i) == (dx, dy));
    lemma_leap_listed(p, m, color);
    lemma_knight_moves_hold(p, m.from, color, 8, i, m);
}

/// The number of the king's step `(dx, dy)`.
pub open spec fn king_index(dx: int, dy: int) -> int {
    if dx == 1 && dy == 0 {
        0
    } else if dx == -1 && dy == 0 {
        1
    } else if dx == 0 && dy == 1 {
        2
    } else if dx == 0 && dy == -1 {
        3
    } else if dx == 1 && dy == 1 {
        4
    } else if dx == -1 && dy == 1 {
        5
    } else if dx == 1 && dy == -1 {
        6
    } else {
        7
    }
}

/// A move of a king by the rules is among its moves.
proof fn lemma_king_move_listed(p: Position, m: Move, color: Color)
    requires
        m.from < 64,
        m.to < 64,
        (is_plain(m) && king_shape(
            file_of(m.to) - file_of(m.from),
            rank_of(m.to) - rank_of(m.from),
        ) && may_land(p, m.to, color)) || castling_move(p, m, color),
    ensures
        king_moves(p, m.from, color).contains(m),
{
    let steps = king_steps(p, m.from, color, 8);
    let castles = castling_moves(p, m.from, color);
    if m.is_castling {
        let short = castling_on(p, m.from, color, true);
        let long = castling_on(p, m.from, color, false);
        if m.to == back_rank(color) + 6 && may_castle(p, color, true) {
            assert(m == castling(m.from, (back_rank(color) + 6) as u8));
            lemma_contains_one(m);
            lemma_contains_left(short, long, m);
        } else {
            assert(m == castling(m.from, (back_rank(color) + 2) as u8));
            lemma_contains_one(m);
            lemma_contains_right(short, long, m);
        }
        lemma_contains_right(steps, castles, m);
    } else {
        let dx = file_of(m.to) - file_of(m.from);
        let dy = rank_of(m.to) - rank_of(m.from);
        let i = king_index(dx, dy);
        assert(king_delta(i) == (dx, dy));
        lemma_leap_listed(p, m, color);
        lemma_king_steps_hold(p, m.from, color, 8, i, m);
        lemma_contains_left(steps, castles, m);
    }
}

/// A pawn's arrival by the rules is among its arrivals.
proof fn lemma_pawn_arrival_listed(m: Move, color: Color)
    requires
        !m.is_castling,
        !m.is_en_passant,
        promotes_rightly(m, color),
    ensures
        pawn_arrivals(m.from, m.to, color).contains(m),
{
    let s = pawn_arrivals(m.from, m.to, color);
    match m.promotion {
        Some(kind) => {
            let i: int = if kind == PieceKind::Queen {
                0
            } else if kind == PieceKind::Rook {
                1
            } else if kind == PieceKind::Bishop {
                2
            } else {
                3
            };
            assert(promotion_kind(i) == kind);
            assert(s[i] == promoting(m.from, m.to, promotion_kind(i)));
            assert(s[i] == m);
        },
        None => {
            assert(s[0] == m);
        },
    }
}

/// A move of a pawn by the rules is among its moves.
proof fn lemma_pawn_move_listed(p: Position, m: Move, color: Color)
    requires
        p.board.len() == 64,
        m.from < 64,
        m.to < 64,
        pawn_move(p, m, color),
    ensures
        pawn_moves(p, m.from, color).contains(m),
{
    let sq = m.from;
    let df = file_of(m.to) - file_of(m.from);
    let dr = rank_of(m.to) - rank_of(m.from);
    let dir = color.pawn_direction() as int;
    let advances = pawn_advances(p, sq, color);
    let first = pawn_capture(p, sq, color, -dir);
    let second = pawn_capture(p, sq, color, dir);
    if df == 0 {
        if dr == dir {
            assert(spec_shifted(sq, 0, dir) == Some(m.to));
            lemma_pawn_arrival_listed(m, color);
            lemma_contains_left(pawn_arrivals(sq, m.to, color), pawn_double_step(p, sq, color), m);
        } else {
            let one = ((m.from + m.to) / 2) as u8;
            assert(spec_shifted(sq, 0, dir) == Some(one));
            assert(spec_shifted(sq, 0, 2 * dir) == Some(m.to));
            assert(m == Move::quiet(sq, m.to));
            lemma_contains_one(m);
            lemma_contains_right(pawn_arrivals(sq, one, color), pawn_double_step(p, sq, color), m);
        }
        lemma_contains_left(advances, first, m);
        lemma_contains_left(advances + first, second, m);
    } else {
        assert(spec_shifted(sq, df, dir) == Some(m.to));
        let capture = pawn_capture(p, sq, color, df);
        if m.is_en_passant {
            assert(m == en_passant_capture(sq, m.to));
            lemma_contains_one(m);
        } else {
            lemma_pawn_arrival_listed(m, color);
        }
        assert(capture.contains(m));
        if df == -dir {
            lemma_contains_right(advances, first, m);
            lemma_contains_left(advances + first, second, m);
        } else {
            lemma_contains_right(advances + first, second, m);
        }
    }
}

/// The moves of the squares below `n` hold the moves of each of them.
proof fn lemma_moves_below_hold(p: Position, n: int, sq: u8, m: Move)
    requires
        0 <= sq < n <= 64,
        piece_moves(p, sq).contains(m),
    ensures
        moves_below(p, n).contains(m),
    decreases n,
{
    let last = piece_moves(p, (n - 1) as u8);
    if sq == n - 1 {
        lemma_contains_right(moves_below(p, n - 1), last, m);
    } else {
        lemma_moves_below_hold(p, n - 1, sq, m);
        lemma_contains_left(moves_below(p, n - 1), last, m);
    }
}

/// Every pseudo-legal move is listed.
pub proof fn lemma_pseudo_legal_is_listed(p: Position, m: Move)
    requires
        p.board.len() == 64,
        is_pseudo_legal(p, m),
    ensures
        moves_below(p, 64).contains(m),
{
    let mover = p.board[m.from as int]->0;
    let df = file_of(m.to) - file_of(m.from);
    let dr = rank_of(m.to) - rank_of(m.from);
    match mover.kind {
        PieceKind::Pawn => lemma_pawn_move_listed(p, m, mover.color),
        PieceKind::Knight => lemma_knight_move_listed(p, m, mover.color),
        PieceKind::King => lemma_king_move_listed(p, m, mover.color),
        PieceKind::Rook => {
            assert(0 <= ray_index(sign(df), sign(dr)) < 4);
            lemma_slider_move_listed(p, m, mover.color, 0, 4);
        },
        PieceKind::Bishop => {
            assert(4 <= ray_index(sign(df), sign(dr)) < 8);
            lemma_slider_move_listed(p, m, mover.color, 4, 8);
        },
        PieceKind::Queen => {
            assert(0 <= ray_index(sign(df), sign(dr)) < 8);
            lemma_slider_move_listed(p, m, mover.color, 0, 8);
        },
    }
    lemma_moves_below_hold(p, 64, m.from, m);
}

/// Every move of `s` is a pseudo-legal move of `p`.
pub open spec fn all_by_the_rules(p: Position, s: Seq<Move>) -> bool {
    forall|i: int| 0 <= i < s.len() ==> is_pseudo_legal(p, #[trigger] s[i])
}

proof fn lemma_all_add(p: Position, a: Seq<Move>, b: Seq<Move>)
    requires
        all_by_the_rules(p, a),
        all_by_the_rules(p, b),
    ensures
        all_by_the_rules(p, a + b),
{
}

proof fn lemma_pawn_arrivals_by_the_rules(p: Position, from: u8, to: u8, color: Color, df: int)
    requires
        p.board.len() == 64,
        from < 64,
        p.board[from as int] == Some(Piece { color, kind: PieceKind::Pawn }),
        color == p.side_to_move,
        -1 <= df <= 1,
        spec_shifted(from, df, color.pawn_direction() as int) == Some(to),
        df == 0 ==> p.board[to as int] is None,
        df != 0 ==> p.board[to as int] is Some && may_land(p, to, color),
    ensures
        all_by_the_rules(p, pawn_arrivals(from, to, color)),
{
    lemma_shifted(from, df, color.pawn_direction() as int);
}

proof fn lemma_pawn_moves_by_the_rules(p: Position, sq: u8, color: Color)
    requires
        p.board.len() == 64,
        sq < 64,
        p.board[sq as int] == Some(Piece { color, kind: PieceKind::Pawn }),
        color == p.side_to_move,
    ensures
        all_by_the_rules(p, pawn_moves(p, sq, color)),
{
    let dir = color.pawn_direction() as int;
    assert(all_by_the_rules(p, pawn_advances(p, sq, color))) by {
        if let Some(one) = spec_shifted(sq, 0, dir) {
            lemma_shifted(sq, 0, dir);
            if p.board[one as int] is None {
                lemma_pawn_arrivals_by_the_rules(p, sq, one, color, 0);
                assert(all_by_the_rules(p, pawn_double_step(p, sq, color))) by {
                    if spec_shifted(sq, 0, 2 * dir) is Some {
                        lemma_shifted(sq, 0, 2 * dir);
                    }
                }
                lemma_all_add(p, pawn_arrivals(sq, one, color), pawn_double_step(p, sq, color));
            }
        }
    }
    assert forall|df: int| df == 1 || df == -1 implies all_by_the_rules(
        p,
        #[trigger] pawn_capture(p, sq, color, df),
    ) by {
        if let Some(to) = spec_shifted(sq, df, dir) {
            lemma_shifted(sq, df, dir);
            if p.board[to as int] is Some {
                if (p.board[to as int]->0).color != color {
                    lemma_pawn_arrivals_by_the_rules(p, sq, to, color, df);
                }
            }
        }
    }
    lemma_all_add(p, pawn_advances(p, sq, color), pawn_capture(p, sq, color, -dir));
    lemma_all_add(
        p,
        pawn_advances(p, sq, color) + pawn_capture(p, sq, color, -dir),
        pawn_capture(p, sq, color, dir),
    );
}

proof fn lemma_leap_by_the_rules(p: Position, sq: u8, piece: Piece, df: int, dr: int)
    requires
        p.board.len() == 64,
        sq < 64,
        p.board[sq as int] == Some(piece),
        piece.color == p.side_to_move,
        (piece.kind == PieceKind::Knight && knight_shape(df, dr)) || (piece.kind
            == PieceKind::King && king_shape(df, dr)),
    ensures
        all_by_the_rules(p, leap(p, sq, piece.color, df, dr)),
{
    if spec_shifted(sq, df, dr) is Some {
        lemma_shifted(sq, df, dr);
    }
}

proof fn lemma_knight_moves_by_the_rules(p: Position, sq: u8, piece: Piece, n: int)
    requires
        p.board.len() == 64,
        sq < 64,
        p.board[sq as int] == Some(piece),
        piece.kind == PieceKind::Knight,
        piece.color == p.side_to_move,
        0 <= n <= 8,
    ensures
        all_by_the_rules(p, knight_moves(p, sq, piece.color, n)),
    decreases n,
{
    if n > 0 {
        lemma_knight_moves_by_the_rules(p, sq, piece, n - 1);
        lemma_leap_by_the_rules(p, sq, piece, knight_delta(n - 1).0, knight_delta(n - 1).1);
        lemma_all_add(
            p,
            knight_moves(p, sq, piece.color, n - 1),
            leap(p, sq, piece.color, knight_delta(n - 1).0, knight_delta(n - 1).1),
        );
    }
}

proof fn lemma_king_steps_by_the_rules(p: Position, sq: u8, piece: Piece, n: int)
    requires
        p.board.len() == 64,
        sq < 64,
        p.board[sq as int] == Some(piece),
        piece.kind == PieceKind::King,
        piece.color == p.side_to_move,
        0 <= n <= 8,
    ensures
        all_by_the_rules(p, king_steps(p, sq, piece.color, n)),
    decreases n,
{
    if n > 0 {
        lemma_king_steps_by_the_rules(p, sq, piece, n - 1);
        lemma_leap_by_the_rules(p, sq, piece, king_delta(n - 1).0, king_delta(n - 1).1);
        lemma_all_add(
            p,
            king_steps(p, sq, piece.color, n - 1),
            leap(p, sq, piece.color, king_delta(n - 1).0, king_delta(n - 1).1),
        );
    }
}

/// Whether a piece of the given kind slides in direction `(df, dr)`.
spec fn slides(kind: PieceKind, df: int, dr: int) -> bool {
    match kind {
        PieceKind::Rook => straight(df, dr),
        PieceKind::Bishop => diagonal(df, dr),
        PieceKind::Queen => straight(df, dr) || diagonal(df, dr),
        _ => false,
    }
}

proof fn lemma_ray_moves_by_the_rules(
    p: Position,
    sq: u8,
    piece: Piece,
    f: int,
    r: int,
    df: int,
    dr: int,
    n: int,
)
    requires
        p.board.len() == 64,
        sq < 64,
        p.board[sq as int] == Some(piece),
        piece.color == p.side_to_move,
        is_direction(df, dr),
        slides(piece.kind, df, dr),
        0 <= n,
        f == along(file_of(sq) as int, df, n),
        r == along(rank_of(sq) as int, dr, n),
        forall|k: int|
            1 <= k <= n ==> (#[trigger] ray_piece(
                p,
                file_of(sq) as int,
                rank_of(sq) as int,
                df,
                dr,
                k,
            )) is None,
    ensures
        all_by_the_rules(p, ray_moves(p, sq, piece.color, f, r, df, dr)),
    decreases room(f, df) + room(r, dr),
{
    if on_board(f, r) && on_board(f + df, r + dr) {
        let to = square_at(f + df, r + dr);
        let m = Move::quiet(sq, to);
        let f0 = file_of(sq) as int;
        let r0 = rank_of(sq) as int;
        assert(file_of(to) == f + df && rank_of(to) == r + dr);
        assert(f + df == along(f0, df, n + 1) && r + dr == along(r0, dr, n + 1));
        assert(ray_piece(p, f0, r0, df, dr, n + 1) == p.board[to as int]);
        let mdf = file_of(to) - file_of(sq);
        let mdr = rank_of(to) - rank_of(sq);
        assert(sign(mdf) == df && sign(mdr) == dr);
        assert((if abs(mdf) > abs(mdr) {
            abs(mdf)
        } else {
            abs(mdr)
        }) == n + 1);
        assert(clear_between(p, sq, to));
        if may_land(p, to, piece.color) {
            assert(is_pseudo_legal(p, m));
        }
        if p.board[to as int] is None {
            lemma_ray_moves_by_the_rules(p, sq, piece, f + df, r + dr, df, dr, n + 1);
            assert(all_by_the_rules(p, seq![m]));
            lemma_all_add(p, seq![m], ray_moves(p, sq, piece.color, f + df, r + dr, df, dr));
        }
    }
}

proof fn lemma_slider_moves_by_the_rules(p: Position, sq: u8, piece: Piece, lo: int, hi: int)
    requires
        p.board.len() == 64,
        sq < 64,
        p.board[sq as int] == Some(piece),
        piece.color == p.side_to_move,
        0 <= lo <= hi <= 8,
        forall|i: int| lo <= i < hi ==> slides(piece.kind, ray_delta(i).0, ray_delta(i).1),
    ensures
        all_by_the_rules(p, slider_moves(p, sq, piece.color, lo, hi)),
    decreases hi - lo,
{
    if hi > lo {
        lemma_slider_moves_by_the_rules(p, sq, piece, lo, hi - 1);
        let d = ray_delta(hi - 1);
        assert(slides(piece.kind, d.0, d.1));
        lemma_ray_moves_by_the_rules(
            p,
            sq,
            piece,
            file_of(sq) as int,
            rank_of(sq) as int,
            d.0,
            d.1,
            0,
        );
        lemma_all_add(
            p,
            slider_moves(p, sq, piece.color, lo, hi - 1),
            ray_moves(p, sq, piece.color, file_of(sq) as int, rank_of(sq) as int, d.0, d.1),
        );
    }
}

proof fn lemma_castling_moves_by_the_rules(p: Position, sq: u8, color: Color)
    requires
        p.board.len() == 64,
        sq < 64,
        p.board[sq as int] == Some(Piece { color, kind: PieceKind::King }),
        color == p.side_to_move,
    ensures
        all_by_the_rules(p, castling_moves(p, sq, color)),
{
    if !in_check(p, color) {
        assert(all_by_the_rules(p, castling_on(p, sq, color, true)));
        assert(all_by_the_rules(p, castling_on(p, sq, color, false)));
        lemma_all_add(p, castling_on(p, sq, color, true), castling_on(p, sq, color, false));
    }
}

proof fn lemma_piece_moves_by_the_rules(p: Position, sq: u8)
    requires
        p.board.len() == 64,
        sq < 64,
    ensures
        all_by_the_rules(p, piece_moves(p, sq)),
{
    if let Some(piece) = p.board[sq as int] {
        if piece.color == p.side_to_move {
            match piece.kind {
                PieceKind::Pawn => lemma_pawn_moves_by_the_rules(p, sq, piece.color),
                PieceKind::Knight => lemma_knight_moves_by_the_rules(p, sq, piece, 8),
                PieceKind::Bishop => lemma_slider_moves_by_the_rules(p, sq, piece, 4, 8),
                PieceKind::Rook => lemma_slider_moves_by_the_rules(p, sq, piece, 0, 4),
                PieceKind::Queen => lemma_slider_moves_by_the_rules(p, sq, piece, 0, 8),
                PieceKind::King => {
                    lemma_king_steps_by_the_rules(p, sq, piece, 8);
                    lemma_castling_moves_by_the_rules(p, sq, piece.color);
                    lemma_all_add(
                        p,
                        king_steps(p, sq, piece.color, 8),
                        castling_moves(p, sq, piece.color),
                    );
                },
            }
        }
    }
}

proof fn lemma_moves_below_by_the_rules(p: Position, n: int)
    requires
        p.board.len() == 64,
        0 <= n <= 64,
    ensures
        all_by_the_rules(p, moves_below(p, n)),
    decreases n,
{
    if n > 0 {
        lemma_moves_below_by_the_rules(p, n - 1);
        lemma_piece_moves_by_the_rules(p, (n - 1) as u8);
        lemma_all_add(p, moves_below(p, n - 1), piece_moves(p, (n - 1) as u8));
    }
}

/// The generator lists exactly the pseudo-legal moves: a move is among the
/// moves that the pieces of the side to move offer if and only if it is a move
/// of one of them by the rules of its kind.
pub proof fn law_listed_moves_are_the_rules(p: Position, m: Move)
    requires
        p.board.len() == 64,
    ensures
        moves_below(p, 64).contains(m) <==> is_pseudo_legal(p, m),
{
    lemma_moves_below_by_the_rules(p, 64);
    if is_pseudo_legal(p, m) {
        lemma_pseudo_legal_is_listed(p, m);
    }
}

/// The legal moves are moves by the rules that leave the mover's king out
/// of check; and, in a position whose pseudo-legal moves all fit into a move
/// list, they are all of these.
pub proof fn law_legal_moves_are_the_rules(p: Position, m: Move)
    requires
        p.board.len() == 64,
    ensures
        legal_moves(p).contains(m) ==> is_pseudo_legal(p, m) && keeps_king_safe(p, m),
        moves_below(p, 64).len() <= MAX_MOVES && is_pseudo_legal(p, m) && keeps_king_safe(p, m)
            ==> legal_moves(p).contains(m),
{
    let pred = |m: Move| keeps_king_safe(p, m);
    let all = pseudo_legal_moves(p);
    lemma_moves_below_by_the_rules(p, 64);
    if legal_moves(p).contains(m) {
        all.lemma_filter_contains_rev(pred, m);
        let i = choose|i: int| 0 <= i < all.filter(pred).len() && all.filter(pred)[i] == m;
        all.lemma_filter_pred(pred, i);
        let j = choose|j: int| 0 <= j < all.len() && all[j] == m;
        assert(moves_below(p, 64)[j] == m);
    }
    if moves_below(p, 64).len() <= MAX_MOVES && is_pseudo_legal(p, m) && keeps_king_safe(p, m) {
        lemma_pseudo_legal_is_listed(p, m);
        let j = choose|j: int| 0 <= j < all.len() && all[j] == m;
        all.lemma_filter_contains(pred, j);
    }
}

} // verus!
