//! What holds of every move that the generator lists.
use vstd::prelude::*;
use crate::apply::applicable;
use crate::movegen::{back_rank, keeps_king_safe, legal_moves, may_land, moves_below,
    pseudo_legal_moves};
use crate::position::Position;
use crate::rules::{is_pseudo_legal, law_listed_moves_are_the_rules};
use crate::types::{file_of, rank_of, spec_shifted, Color, Move, PieceKind};

verus! {

/// The shape of a castling move of `color`: the king lands two files from
/// the e-file on its back rank, the right for that wing is there, and the
/// squares between king and rook are empty.
pub open spec fn castle_ok(p: Position, color: Color, m: Move) -> bool {
    let base = back_rank(color);
    ||| {
        &&& m.to == base + 6
        &&& p.castling.can_castle(color, true)
        &&& p.board[base + 5] is None
        &&& p.board[base + 6] is None
    }
    ||| {
        &&& m.to == base + 2
        &&& p.castling.can_castle(color, false)
        &&& p.board[base + 1] is None
        &&& p.board[base + 2] is None
        &&& p.board[base + 3] is None
    }
}

/// The shape of a move of a pawn of `color`: one step straight ahead onto an
/// empty square; or two over an empty square onto an empty square, without
/// promotion; or one step diagonally ahead, onto a piece or, en passant, onto
/// the empty en-passant target.
pub open spec fn pawn_step_ok(p: Position, m: Move, color: Color) -> bool {
    let df = file_of(m.to) - file_of(m.from);
    let dr = rank_of(m.to) - rank_of(m.from);
    let dir = color.pawn_direction();
    ||| {
        &&& df == 0
        &&& dr == dir
        &&& p.board[m.to as int] is None
        &&& !m.is_en_passant
    }
    ||| {
        &&& df == 0
        &&& dr == 2 * dir
        &&& p.board[(m.from + m.to) / 2] is None
        &&& p.board[m.to as int] is None
        &&& !m.is_en_passant
        &&& m.promotion is None
    }
    ||| {
        &&& df == 1 || df == -1
        &&& dr == dir
        &&& if m.is_en_passant {
            p.board[m.to as int] is None && p.en_passant == Some(m.to) && m.promotion is None
        } else {
            p.board[m.to as int] is Some
        }
    }
}

/// What holds of every pseudo-legal move `m` of `p`.
///
/// It can be played; it leads a piece of the side to move to another square,
/// which is empty or holds a piece of the other colour; only a pawn promotes
/// or captures en passant, never to a pawn or a king, and its move has the
/// shape of a pawn's move; only a king castles, and its castling has the shape
/// of castling.
pub open spec fn pseudo_ok(p: Position, m: Move) -> bool {
    let mover = p.board[m.from as int]->0;
    &&& applicable(p, m)
    &&& m.from != m.to
    &&& mover.color == p.side_to_move
    &&& may_land(p, m.to, mover.color)
    &&& mover.kind == PieceKind::Pawn ==> {
        &&& pawn_step_ok(p, m, mover.color)
        &&& !m.is_castling
        &&& m.promotion matches Some(kind) ==> kind != PieceKind::Pawn && kind != PieceKind::King
    }
    &&& mover.kind != PieceKind::Pawn ==> m.promotion is None && !m.is_en_passant
    &&& m.is_castling ==> mover.kind == PieceKind::King && castle_ok(p, mover.color, m)
}

/// Every move of `s` is a sound pseudo-legal move of `p`.
pub open spec fn all_ok(p: Position, s: Seq<Move>) -> bool {
    forall|i: int| 0 <= i < s.len() ==> pseudo_ok(p, #[trigger] s[i])
}

/// A step that stays on the board changes file and rank by what it says.
pub proof fn lemma_shifted(sq: u8, df: int, dr: int)
    requires
        sq < 64,
        spec_shifted(sq, df, dr) is Some,
    ensures
        spec_shifted(sq, df, dr)->0 < 64,
        file_of(spec_shifted(sq, df, dr)->0) == file_of(sq) + df,
        rank_of(spec_shifted(sq, df, dr)->0) == rank_of(sq) + dr,
        spec_shifted(sq, df, dr)->0 == sq + 8 * dr + df,
{
}

/// A move by the rules has all that `pseudo_ok` says.
pub proof fn lemma_rules_imply_ok(p: Position, m: Move)
    requires
        p.board.len() == 64,
        is_pseudo_legal(p, m),
    ensures
        pseudo_ok(p, m),
{
}

/// Every pseudo-legal move of a position is sound.
pub proof fn lemma_pseudo_legal_ok(p: Position)
    requires
        p.board.len() == 64,
    ensures
        all_ok(p, pseudo_legal_moves(p)),
{
    let all = pseudo_legal_moves(p);
    assert forall|i: int| 0 <= i < all.len() implies pseudo_ok(p, #[trigger] all[i]) by {
        assert(moves_below(p, 64)[i] == all[i]);
        assert(moves_below(p, 64).contains(all[i]));
        law_listed_moves_are_the_rules(p, all[i]);
        lemma_rules_imply_ok(p, all[i]);
    }
}

/// A legal move of a position is one of its pseudo-legal moves, it is sound,
/// and it leaves the mover's king out of check.
pub proof fn lemma_legal_ok(p: Position, m: Move)
    requires
        p.board.len() == 64,
        legal_moves(p).contains(m),
    ensures
        pseudo_legal_moves(p).contains(m),
        pseudo_ok(p, m),
        keeps_king_safe(p, m),
{
    let pred = |m: Move| keeps_king_safe(p, m);
    let all = pseudo_legal_moves(p);
    all.lemma_filter_contains_rev(pred, m);
    let i = choose|i: int| 0 <= i < all.filter(pred).len() && all.filter(pred)[i] == m;
    all.lemma_filter_pred(pred, i);
    lemma_pseudo_legal_ok(p);
}

} // verus!
