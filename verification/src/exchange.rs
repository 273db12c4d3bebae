//! Why a run of captures and promotions ends: each of them uses up material.
use vstd::prelude::*;
use crate::apply::{apply_move, captures, en_passant_victim};
use crate::position::Position;
use crate::soundness::pseudo_ok;
use crate::types::{Move, Piece, PieceKind};

verus! {

/// What a square counts for: nothing when empty, two for a pawn, one for any
/// other piece.
pub open spec fn weight(content: Option<Piece>) -> nat {
    match content {
        Some(piece) => if piece.kind == PieceKind::Pawn {
            2
        } else {
            1
        },
        None => 0,
    }
}

/// The sum of the weights of the first `n` squares.
pub open spec fn board_weight(board: Seq<Option<Piece>>, n: int) -> nat
    decreases n,
{
    if n <= 0 {
        0
    } else {
        board_weight(board, n - 1) + weight(board[n - 1])
    }
}

/// A bound on the number of captures and promotions that can follow one
/// another from `p`: twice the weight of the board, and one more while an
/// en-passant target stands.
pub open spec fn exchange_room(p: Position) -> nat {
    2 * board_weight(p.board, 64) + if p.en_passant is Some {
        1nat
    } else {
        0nat
    }
}

/// Changing one square changes the weight by the difference of the contents.
pub proof fn lemma_weight_update(board: Seq<Option<Piece>>, n: int, i: int, v: Option<Piece>)
    requires
        0 <= i < board.len(),
        0 <= n <= board.len(),
    ensures
        board_weight(board.update(i, v), n) == if i < n {
            board_weight(board, n) - weight(board[i]) + weight(v)
        } else {
            board_weight(board, n) as int
        },
        i < n ==> board_weight(board, n) >= weight(board[i]),
    decreases n,
{
    if n > 0 {
        lemma_weight_update(board, n - 1, i, v);
    }
}

/// A pseudo-legal capture or promotion leaves less room for further ones.
pub proof fn lemma_exchange_uses_room(p: Position, m: Move)
    requires
        pseudo_ok(p, m),
        captures(p, m) || m.promotion is Some,
    ensures
        exchange_room(apply_move(p, m)) < exchange_room(p),
{
    let mover = p.board[m.from as int]->0;
    let from = m.from as int;
    let to = m.to as int;
    assert(!m.is_castling);
    let lifted = if m.is_en_passant {
        p.board.update(en_passant_victim(mover.color, m.to), None)
    } else {
        p.board
    };
    if m.is_en_passant {
        lemma_weight_update(p.board, 64, en_passant_victim(mover.color, m.to), None);
    }
    assert(lifted[from] == Some(mover));
    assert(lifted[to] == p.board[to]);
    let landed = lifted.update(to, lifted[from]);
    lemma_weight_update(lifted, 64, to, lifted[from]);
    let moved = landed.update(from, None);
    lemma_weight_update(landed, 64, from, None);
    assert(landed[from] == Some(mover));
    if let Some(kind) = m.promotion {
        lemma_weight_update(moved, 64, to, Some(Piece { color: mover.color, kind }));
        assert(moved[to] == Some(mover));
    }
}

} // verus!
