//! That no move is listed twice.
use vstd::prelude::*;
use crate::attack::{is_direction, king_delta, knight_delta, ray_delta, room};
use crate::attack_laws::{ray_index, sign};
use crate::move_list::MAX_MOVES;
use crate::movegen::{castling_moves, castling_on, keeps_king_safe, king_steps, knight_moves, leap,
    legal_moves, moves_below, pawn_advances, pawn_arrivals, pawn_capture, pawn_double_step,
    pawn_moves, piece_moves, pseudo_legal_moves, ray_moves, slider_moves};
use crate::position::Position;
use crate::rules::{is_plain, is_pseudo_legal, king_index, law_listed_moves_are_the_rules};
use crate::soundness::lemma_shifted;
use crate::types::{file_of, on_board, rank_of, spec_shifted, square_at, Color, Move, PieceKind};

verus! {

/// How often `m` stands in `s`.
pub open spec fn occurrences(s: Seq<Move>, m: Move) -> nat
    decreases s.len(),
{
    if s.len() == 0 {
        0
    } else {
        occurrences(s.drop_last(), m) + if s.last() == m {
            1nat
        } else {
            0nat
        }
    }
}

/// A move stands in two sequences joined as often as in both together.
pub proof fn lemma_occurrences_add(a: Seq<Move>, b: Seq<Move>, m: Move)
    ensures
        occurrences(a + b, m) == occurrences(a, m) + occurrences(b, m),
    decreases b.len(),
{
    if b.len() == 0 {
        assert(a + b =~= a);
    } else {
        assert((a + b).drop_last() =~= a + b.drop_last());
        assert((a + b).last() == b.last());
        lemma_occurrences_add(a, b.drop_last(), m);
    }
}

/// A move stands in a sequence of one move once if it is that move, and
/// else not at all.
pub proof fn lemma_occurrences_one(x: Move, m: Move)
    ensures
        occurrences(seq![x], m) == if x == m {
            1nat
        } else {
            0nat
        },
        occurrences(Seq::<Move>::empty(), m) == 0,
{
    assert(occurrences(Seq::<Move>::empty(), m) == 0);
    assert(seq![x].drop_last() =~= Seq::<Move>::empty());
    assert(seq![x].last() == x);
    assert(occurrences(seq![x].drop_last(), m) == 0);
}

/// A move that stands in a sequence is one of its moves, and the other way
/// round.
pub proof fn lemma_occurrences_contains(s: Seq<Move>, m: Move)
    ensures
        occurrences(s, m) >= 1 <==> s.contains(m),
    decreases s.len(),
{
    if s.len() > 0 {
        lemma_occurrences_contains(s.drop_last(), m);
        if s.drop_last().contains(m) {
            let i = choose|i: int| 0 <= i < s.drop_last().len() && s.drop_last()[i] == m;
            assert(s[i] == m);
        }
        if s.contains(m) {
            let i = choose|i: int| 0 <= i < s.len() && s[i] == m;
            if i < s.len() - 1 {
                assert(s.drop_last()[i] == m);
            }
        }
        assert(s[s.len() - 1] == s.last());
    }
}

/// What is filtered holds no move more often than what it is filtered from,
/// and as often the moves that pass.
pub proof fn lemma_occurrences_filter(s: Seq<Move>, pred: spec_fn(Move) -> bool, m: Move)
    ensures
        occurrences(s.filter(pred), m) == if pred(m) {
            occurrences(s, m)
        } else {
            0nat
        },
    decreases s.len(),
{
    reveal(Seq::filter);
    if s.len() > 0 {
        lemma_occurrences_filter(s.drop_last(), pred, m);
        let front = s.drop_last().filter(pred);
        if pred(s.last()) {
            assert(front.push(s.last()).drop_last() =~= front);
            assert(front.push(s.last()).last() == s.last());
        }
    }
}

/// The number of the knight's leap `(dx, dy)`.
pub open spec fn knight_index(dx: int, dy: int) -> int {
    if dx == 1 && dy == 2 {
        0
    } else if dx == -1 && dy == 2 {
        1
    } else if dx == 2 && dy == 1 {
        2
    } else if dx == -2 && dy == 1 {
        3
    } else if dx == -1 && dy == -2 {
        4
    } else if dx == 1 && dy == -2 {
        5
    } else if dx == -2 && dy == -1 {
        6
    } else {
        7
    }
}

/// The change of file of a move.
pub open spec fn file_step(m: Move) -> int {
    file_of(m.to) - file_of(m.from)
}

/// The change of rank of a move.
pub open spec fn rank_step(m: Move) -> int {
    rank_of(m.to) - rank_of(m.from)
}

proof fn lemma_leap_once(p: Position, sq: u8, color: Color, df: int, dr: int, m: Move)
    requires
        sq < 64,
    ensures
        occurrences(leap(p, sq, color, df, dr), m) <= 1,
        occurrences(leap(p, sq, color, df, dr), m) >= 1 ==> m.from == sq && is_plain(m) && m.to
            < 64 && file_step(m) == df && rank_step(m) == dr,
{
    if let Some(to) = spec_shifted(sq, df, dr) {
        lemma_shifted(sq, df, dr);
        lemma_occurrences_one(Move::quiet(sq, to), m);
    } else {
        lemma_occurrences_one(m, m);
    }
}

proof fn lemma_knight_moves_once(p: Position, sq: u8, color: Color, n: int, m: Move)
    requires
        sq < 64,
        0 <= n <= 8,
    ensures
        occurrences(knight_moves(p, sq, color, n), m) <= 1,
        occurrences(knight_moves(p, sq, color, n), m) >= 1 ==> m.from == sq && is_plain(m)
            && 0 <= knight_index(file_step(m), rank_step(m)) < n && knight_delta(
            knight_index(file_step(m), rank_step(m)),
        ) == (file_step(m), rank_step(m)),
    decreases n,
{
    if n > 0 {
        let d = knight_delta(n - 1);
        lemma_knight_moves_once(p, sq, color, n - 1, m);
        lemma_leap_once(p, sq, color, d.0, d.1, m);
        lemma_occurrences_add(knight_moves(p, sq, color, n - 1), leap(p, sq, color, d.0, d.1), m);
        assert(knight_index(d.0, d.1) == n - 1);
    } else {
        lemma_occurrences_one(m, m);
    }
}

proof fn lemma_king_steps_once(p: Position, sq: u8, color: Color, n: int, m: Move)
    requires
        sq < 64,
        0 <= n <= 8,
    ensures
        occurrences(king_steps(p, sq, color, n), m) <= 1,
        occurrences(king_steps(p, sq, color, n), m) >= 1 ==> m.from == sq && is_plain(m) && 0
            <= king_index(file_step(m), rank_step(m)) < n && king_delta(
            king_index(file_step(m), rank_step(m)),
        ) == (file_step(m), rank_step(m)),
    decreases n,
{
    if n > 0 {
        let d = king_delta(n - 1);
        lemma_king_steps_once(p, sq, color, n - 1, m);
        lemma_leap_once(p, sq, color, d.0, d.1, m);
        lemma_occurrences_add(king_steps(p, sq, color, n - 1), leap(p, sq, color, d.0, d.1), m);
        assert(king_index(d.0, d.1) == n - 1);
    } else {
        lemma_occurrences_one(m, m);
    }
}

proof fn lemma_castling_moves_once(p: Position, sq: u8, color: Color, m: Move)
    ensures
        occurrences(castling_moves(p, sq, color), m) <= 1,
        occurrences(castling_moves(p, sq, color), m) >= 1 ==> m.from == sq && m.is_castling,
{
    let short = castling_on(p, sq, color, true);
    let long = castling_on(p, sq, color, false);
    lemma_occurrences_one(m, m);
    if short.len() > 0 {
        lemma_occurrences_one(short[0], m);
        assert(short =~= seq![short[0]]);
    }
    if long.len() > 0 {
        lemma_occurrences_one(long[0], m);
        assert(long =~= seq![long[0]]);
    }
    lemma_occurrences_add(short, long, m);
}

/// Whether `m` leads from file `f`, rank `r` onward in direction
/// `(dx, dy)`.
spec fn leads_on(m: Move, f: int, r: int, dx: int, dy: int) -> bool {
    let a = file_of(m.to) - f;
    let b = rank_of(m.to) - r;
    &&& dx == 0 ==> a == 0
    &&& dx > 0 ==> a >= 1
    &&& dx < 0 ==> a <= -1
    &&& dy == 0 ==> b == 0
    &&& dy > 0 ==> b >= 1
    &&& dy < 0 ==> b <= -1
}

proof fn lemma_ray_moves_once(
    p: Position,
    from: u8,
    color: Color,
    f: int,
    r: int,
    dx: int,
    dy: int,
    m: Move,
)
    ensures
        occurrences(ray_moves(p, from, color, f, r, dx, dy), m) <= 1,
        occurrences(ray_moves(p, from, color, f, r, dx, dy), m) >= 1 ==> m.from == from
            && is_plain(m) && leads_on(m, f, r, dx, dy),
    decreases room(f, dx) + room(r, dy),
{
    lemma_occurrences_one(m, m);
    if is_direction(dx, dy) && on_board(f, r) && on_board(f + dx, r + dy) {
        let to = square_at(f + dx, r + dy);
        assert(file_of(to) == f + dx && rank_of(to) == r + dy);
        let here = seq![Move::quiet(from, to)];
        lemma_occurrences_one(Move::quiet(from, to), m);
        if p.board[to as int] is None {
            let rest = ray_moves(p, from, color, f + dx, r + dy, dx, dy);
            lemma_ray_moves_once(p, from, color, f + dx, r + dy, dx, dy, m);
            lemma_occurrences_add(here, rest, m);
        }
    }
}

proof fn lemma_slider_moves_once(p: Position, sq: u8, color: Color, lo: int, hi: int, m: Move)
    requires
        0 <= lo <= hi <= 8,
    ensures
        occurrences(slider_moves(p, sq, color, lo, hi), m) <= 1,
        occurrences(slider_moves(p, sq, color, lo, hi), m) >= 1 ==> m.from == sq && is_plain(m)
            && lo <= ray_index(sign(file_of(m.to) - file_of(sq)), sign(rank_of(m.to) - rank_of(sq)))
            < hi && (file_of(m.to) != file_of(sq) || rank_of(m.to) != rank_of(sq)),
    decreases hi - lo,
{
    if hi > lo {
        let d = ray_delta(hi - 1);
        let last = ray_moves(p, sq, color, file_of(sq) as int, rank_of(sq) as int, d.0, d.1);
        lemma_slider_moves_once(p, sq, color, lo, hi - 1, m);
        lemma_ray_moves_once(p, sq, color, file_of(sq) as int, rank_of(sq) as int, d.0, d.1, m);
        lemma_occurrences_add(slider_moves(p, sq, color, lo, hi - 1), last, m);
        assert(ray_index(d.0, d.1) == hi - 1);
    } else {
        lemma_occurrences_one(m, m);
    }
}

proof fn lemma_pawn_arrivals_once(from: u8, to: u8, color: Color, m: Move)
    ensures
        occurrences(pawn_arrivals(from, to, color), m) <= 1,
        occurrences(pawn_arrivals(from, to, color), m) >= 1 ==> m.from == from && m.to == to
            && !m.is_en_passant && !m.is_castling,
{
    let s = pawn_arrivals(from, to, color);
    if s.len() == 4 {
        let a = seq![s[0]];
        let b = seq![s[1]];
        let c = seq![s[2]];
        let d = seq![s[3]];
        assert(s =~= a + b + c + d);
        lemma_occurrences_one(s[0], m);
        lemma_occurrences_one(s[1], m);
        lemma_occurrences_one(s[2], m);
        lemma_occurrences_one(s[3], m);
        lemma_occurrences_add(a, b, m);
        lemma_occurrences_add(a + b, c, m);
        lemma_occurrences_add(a + b + c, d, m);
    } else {
        assert(s =~= seq![s[0]]);
        lemma_occurrences_one(s[0], m);
    }
}

proof fn lemma_pawn_moves_once(p: Position, sq: u8, color: Color, m: Move)
    requires
        sq < 64,
    ensures
        occurrences(pawn_moves(p, sq, color), m) <= 1,
        occurrences(pawn_moves(p, sq, color), m) >= 1 ==> m.from == sq,
{
    let dir = color.pawn_direction() as int;
    let advances = pawn_advances(p, sq, color);
    let first = pawn_capture(p, sq, color, -dir);
    let second = pawn_capture(p, sq, color, dir);
    lemma_occurrences_one(m, m);
    assert(occurrences(advances, m) <= 1 && (occurrences(advances, m) >= 1 ==> m.from == sq
        && m.to < 64 && file_step(m) == 0)) by {
        if let Some(one) = spec_shifted(sq, 0, dir) {
            lemma_shifted(sq, 0, dir);
            if p.board[one as int] is None {
                let double = pawn_double_step(p, sq, color);
                lemma_pawn_arrivals_once(sq, one, color, m);
                if double.len() > 0 {
                    lemma_shifted(sq, 0, 2 * dir);
                    assert(double =~= seq![double[0]]);
                    lemma_occurrences_one(double[0], m);
                }
                lemma_occurrences_add(pawn_arrivals(sq, one, color), double, m);
            }
        }
    }
    assert forall|df: int| df == 1 || df == -1 implies occurrences(
        #[trigger] pawn_capture(p, sq, color, df),
        m,
    ) <= 1 && (occurrences(pawn_capture(p, sq, color, df), m) >= 1 ==> m.from == sq && m.to < 64
        && file_step(m) == df) by {
        let capture = pawn_capture(p, sq, color, df);
        if let Some(to) = spec_shifted(sq, df, dir) {
            lemma_shifted(sq, df, dir);
            lemma_pawn_arrivals_once(sq, to, color, m);
            if capture.len() == 1 {
                assert(capture =~= seq![capture[0]]);
                lemma_occurrences_one(capture[0], m);
            }
        }
    }
    lemma_occurrences_add(advances, first, m);
    lemma_occurrences_add(advances + first, second, m);
}

proof fn lemma_piece_moves_once(p: Position, sq: u8, m: Move)
    requires
        sq < 64,
    ensures
        occurrences(piece_moves(p, sq), m) <= 1,
        occurrences(piece_moves(p, sq), m) >= 1 ==> m.from == sq,
{
    lemma_occurrences_one(m, m);
    if let Some(piece) = p.board[sq as int] {
        if piece.color == p.side_to_move {
            match piece.kind {
                PieceKind::Pawn => lemma_pawn_moves_once(p, sq, piece.color, m),
                PieceKind::Knight => lemma_knight_moves_once(p, sq, piece.color, 8, m),
                PieceKind::Bishop => lemma_slider_moves_once(p, sq, piece.color, 4, 8, m),
                PieceKind::Rook => lemma_slider_moves_once(p, sq, piece.color, 0, 4, m),
                PieceKind::Queen => lemma_slider_moves_once(p, sq, piece.color, 0, 8, m),
                PieceKind::King => {
                    lemma_king_steps_once(p, sq, piece.color, 8, m);
                    lemma_castling_moves_once(p, sq, piece.color, m);
                    lemma_occurrences_add(
                        king_steps(p, sq, piece.color, 8),
                        castling_moves(p, sq, piece.color),
                        m,
                    );
                },
            }
        }
    }
}

proof fn lemma_moves_below_once(p: Position, n: int, m: Move)
    requires
        0 <= n <= 64,
    ensures
        occurrences(moves_below(p, n), m) <= 1,
        occurrences(moves_below(p, n), m) >= 1 ==> m.from < n,
    decreases n,
{
    if n > 0 {
        lemma_moves_below_once(p, n - 1, m);
        lemma_piece_moves_once(p, (n - 1) as u8, m);
        lemma_occurrences_add(moves_below(p, n - 1), piece_moves(p, (n - 1) as u8), m);
    }
}

/// The generator lists every pseudo-legal move exactly once, and no other
/// move at all.
pub proof fn law_listed_exactly_once(p: Position, m: Move)
    requires
        p.board.len() == 64,
    ensures
        occurrences(moves_below(p, 64), m) == if is_pseudo_legal(p, m) {
            1nat
        } else {
            0nat
        },
{
    lemma_moves_below_once(p, 64, m);
    law_listed_moves_are_the_rules(p, m);
    lemma_occurrences_contains(moves_below(p, 64), m);
}

/// No move stands twice among the legal moves; and, in a position whose
/// pseudo-legal moves all fit into a move list, the legal moves hold exactly
/// once each pseudo-legal move that leaves the mover's king out of check, and
/// no other move.
pub proof fn law_legal_moves_exactly_once(p: Position, m: Move)
    requires
        p.board.len() == 64,
    ensures
        occurrences(legal_moves(p), m) <= 1,
        moves_below(p, 64).len() <= MAX_MOVES ==> occurrences(legal_moves(p), m) == if is_pseudo_legal(
            p,
            m,
        ) && keeps_king_safe(p, m) {
            1nat
        } else {
            0nat
        },
{
    let all = moves_below(p, 64);
    let listed = pseudo_legal_moves(p);
    law_listed_exactly_once(p, m);
    if all.len() > MAX_MOVES {
        let rest = all.subrange(MAX_MOVES as int, all.len() as int);
        assert(all =~= listed + rest);
        lemma_occurrences_add(listed, rest, m);
    }
    lemma_occurrences_filter(listed, |x: Move| keeps_king_safe(p, x), m);
}

} // verus!
