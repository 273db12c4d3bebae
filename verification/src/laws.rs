//! Laws of the rules: what holds of every position and every legal move.
use vstd::prelude::*;
use crate::apply::{applicable, apply_move, en_passant_victim};
use crate::movegen::{back_rank, legal_moves};
use crate::position::Position;
use crate::soundness::lemma_legal_ok;
use crate::types::{file_of, rank_of, Color, Move, Piece, PieceKind};

verus! {

/// The position reached from `p` by playing the moves of `line` in turn, each
/// of them legal where it is played; `None` if one of them is not.
pub open spec fn play_line(p: Position, line: Seq<Move>) -> Option<Position>
    decreases line.len(),
{
    if line.len() == 0 {
        Some(p)
    } else {
        match play_line(p, line.drop_last()) {
            Some(q) => if legal_moves(q).contains(line.last()) {
                Some(apply_move(q, line.last()))
            } else {
                None
            },
            None => None,
        }
    }
}

/// The home corner of the rook of `color` on the given wing.
pub open spec fn rook_corner(color: Color, king_side: bool) -> u8 {
    (back_rank(color) + if king_side { 7int } else { 0int }) as u8
}

/// The square on which the king of `color` lands when it castles on the
/// given wing.
pub open spec fn castling_target(color: Color, king_side: bool) -> u8 {
    (back_rank(color) + if king_side { 6int } else { 2int }) as u8
}

/// Playing a move keeps the board at 64 squares.
pub proof fn law_board_stays_whole(p: Position, m: Move)
    requires
        applicable(p, m),
    ensures
        apply_move(p, m).board.len() == 64,
{
}

/// A legal move is never without effect: the square it leaves is occupied
/// before and empty after, so the position that follows differs from the one
/// before even when the side to move is set back.
pub proof fn law_move_changes_position(p: Position, m: Move)
    requires
        p.board.len() == 64,
        legal_moves(p).contains(m),
    ensures
        p.board[m.from as int] is Some,
        apply_move(p, m).board[m.from as int] is None,
        (Position { side_to_move: p.side_to_move, ..apply_move(p, m) }) != p,
        apply_move(p, m).side_to_move == p.side_to_move.opposite(),
{
    lemma_legal_ok(p, m);
}

/// After a legal move an en-passant target exists exactly if a pawn has just
/// advanced two ranks, and it is the square that the pawn passed.
pub proof fn law_en_passant_target(p: Position, m: Move)
    requires
        p.board.len() == 64,
        legal_moves(p).contains(m),
    ensures
        apply_move(p, m).en_passant is Some <==> {
            &&& (p.board[m.from as int]->0).kind == PieceKind::Pawn
            &&& file_of(m.to) == file_of(m.from)
            &&& rank_of(m.to) == rank_of(m.from) + 2 * p.side_to_move.pawn_direction()
        },
        apply_move(p, m).en_passant matches Some(target) ==> {
            &&& file_of(target) == file_of(m.from)
            &&& rank_of(target) == rank_of(m.from) + p.side_to_move.pawn_direction()
            &&& apply_move(p, m).board[target as int] is None
        },
{
    lemma_legal_ok(p, m);
}

/// A legal en-passant capture is made by a pawn onto the en-passant target;
/// it leaves the capturing pawn on that square and empties the square beside
/// its start, on the file of the target, where the passed pawn stood.
pub proof fn law_en_passant_capture(p: Position, m: Move)
    requires
        p.board.len() == 64,
        legal_moves(p).contains(m),
        m.is_en_passant,
    ensures
        p.en_passant == Some(m.to),
        p.board[m.from as int] == Some(Piece { color: p.side_to_move, kind: PieceKind::Pawn }),
        apply_move(p, m).board[m.to as int] == p.board[m.from as int],
        0 <= en_passant_victim(p.side_to_move, m.to) < 64,
        rank_of(en_passant_victim(p.side_to_move, m.to) as u8) == rank_of(m.from),
        file_of(en_passant_victim(p.side_to_move, m.to) as u8) == file_of(m.to),
        apply_move(p, m).board[en_passant_victim(p.side_to_move, m.to)] is None,
{
    lemma_legal_ok(p, m);
}

/// A move never gives a castling right back.
pub proof fn law_rights_only_shrink(p: Position, m: Move, color: Color, king_side: bool)
    ensures
        apply_move(p, m).castling.can_castle(color, king_side) ==> p.castling.can_castle(
            color,
            king_side,
        ),
{
}

/// A move of the king costs its colour both rights; a move of a rook from
/// its home corner, or any arrival on that corner, costs the right of that
/// corner.
pub proof fn law_rights_lost(p: Position, m: Move, color: Color, king_side: bool)
    requires
        p.board[m.from as int] is Some,
        ({
            let mover = p.board[m.from as int]->0;
            ||| mover == Piece { color, kind: PieceKind::King }
            ||| mover.kind == PieceKind::Rook && m.from == rook_corner(color, king_side)
            ||| m.to == rook_corner(color, king_side)
        }),
    ensures
        !apply_move(p, m).castling.can_castle(color, king_side),
{
}

/// A legal castling move is a move of the king of the side to move onto one
/// of its two castling targets, and the right for that wing is still there.
pub proof fn law_castling_needs_right(p: Position, m: Move)
    requires
        p.board.len() == 64,
        legal_moves(p).contains(m),
        m.is_castling,
    ensures
        p.board[m.from as int] == Some(Piece { color: p.side_to_move, kind: PieceKind::King }),
        exists|king_side: bool|
            m.to == castling_target(p.side_to_move, king_side) && p.castling.can_castle(
                p.side_to_move,
                king_side,
            ),
{
    lemma_legal_ok(p, m);
    let color = p.side_to_move;
    if m.to == castling_target(color, true) {
        assert(m.to == castling_target(color, true) && p.castling.can_castle(color, true));
    } else {
        assert(m.to == castling_target(color, false) && p.castling.can_castle(color, false));
    }
}

/// Every position of a line of legal moves has a board of 64 squares.
pub proof fn law_line_keeps_board(p: Position, line: Seq<Move>)
    requires
        p.board.len() == 64,
        play_line(p, line) is Some,
    ensures
        (play_line(p, line)->0).board.len() == 64,
    decreases line.len(),
{
    if line.len() > 0 {
        law_line_keeps_board(p, line.drop_last());
        lemma_legal_ok(play_line(p, line.drop_last())->0, line.last());
        law_board_stays_whole(play_line(p, line.drop_last())->0, line.last());
    }
}

/// A castling right that is gone stays gone: in every position that a line
/// of legal moves leads to, the right is still missing, and no legal move
/// there castles on that wing.
pub proof fn law_lost_right_stays_lost(
    p: Position,
    line: Seq<Move>,
    color: Color,
    king_side: bool,
    m: Move,
)
    requires
        p.board.len() == 64,
        !p.castling.can_castle(color, king_side),
        play_line(p, line) is Some,
    ensures
        !(play_line(p, line)->0).castling.can_castle(color, king_side),
        !(legal_moves(play_line(p, line)->0).contains(m) && m.is_castling && (play_line(
            p,
            line,
        )->0).side_to_move == color && m.to == castling_target(color, king_side)),
    decreases line.len(),
{
    let q = play_line(p, line)->0;
    law_line_keeps_board(p, line);
    if line.len() > 0 {
        let before = play_line(p, line.drop_last())->0;
        law_lost_right_stays_lost(p, line.drop_last(), color, king_side, m);
        law_rights_only_shrink(before, line.last(), color, king_side);
    }
    if legal_moves(q).contains(m) && m.is_castling && q.side_to_move == color {
        lemma_legal_ok(q, m);
    }
}

/// Castling on a wing is over for good once the king has moved, or a rook
/// has left the corner of that wing, or a piece has arrived on that corner:
/// whatever legal moves follow, the side never again has a legal castling move
/// on that wing.
pub proof fn law_castling_is_over(
    p: Position,
    first: Move,
    line: Seq<Move>,
    color: Color,
    king_side: bool,
    m: Move,
)
    requires
        p.board.len() == 64,
        legal_moves(p).contains(first),
        ({
            let mover = p.board[first.from as int]->0;
            ||| mover == Piece { color, kind: PieceKind::King }
            ||| mover.kind == PieceKind::Rook && first.from == rook_corner(color, king_side)
            ||| first.to == rook_corner(color, king_side)
        }),
        play_line(apply_move(p, first), line) matches Some(q) && q.side_to_move == color,
    ensures
        !(legal_moves(play_line(apply_move(p, first), line)->0).contains(m) && m.is_castling && m.to
            == castling_target(color, king_side)),
{
    lemma_legal_ok(p, first);
    law_board_stays_whole(p, first);
    law_rights_lost(p, first, color, king_side);
    law_lost_right_stays_lost(apply_move(p, first), line, color, king_side, m);
}

} // verus!
