//! A 64-bit fingerprint of a position, computed from the position alone.
use vstd::prelude::*;
use crate::position::{GameState, Position};
use crate::types::{Color, PieceKind};

verus! {

/// The key that is mixed in when White is to move.
pub const SIDE_KEY: u64 = 0x9E37_79B9_7F4A_7C15;

/// What `piece_index` gives, for use in contracts.
pub open spec fn spec_piece_index(color: Color, kind: PieceKind) -> usize {
    let base: usize = match color {
        Color::White => 0,
        Color::Black => 6,
    };
    let offset: usize = match kind {
        PieceKind::Pawn => 0,
        PieceKind::Knight => 1,
        PieceKind::Bishop => 2,
        PieceKind::Rook => 3,
        PieceKind::Queen => 4,
        PieceKind::King => 5,
    };
    (base + offset) as usize
}

/// The number of a piece among the twelve: White's six kinds, then Black's.
#[verifier::when_used_as_spec(spec_piece_index)]
pub fn piece_index(color: Color, kind: PieceKind) -> (r: usize)
    ensures
        r == spec_piece_index(color, kind),
        r < 12,
{
    let base: usize = match color {
        Color::White => 0,
        Color::Black => 6,
    };
    let offset: usize = match kind {
        PieceKind::Pawn => 0,
        PieceKind::Knight => 1,
        PieceKind::Bishop => 2,
        PieceKind::Rook => 3,
        PieceKind::Queen => 4,
        PieceKind::King => 5,
    };
    base + offset
}

/// What `zobrist_key` gives, for use in contracts.
pub open spec fn spec_zobrist_key(piece_idx: usize, square: u8) -> u64 {
    let seed: u64 = ((piece_idx as u64) << 8) ^ (square as u64) ^ 0x9E37_79B9_7F4A_7C15u64;
    let a: u64 = seed.wrapping_add(0xBF58_476D_1CE4_E5B9u64);
    let b: u64 = a ^ (a >> 30);
    let c: u64 = b.wrapping_mul(0xBF58_476D_1CE4_E5B9u64);
    let d: u64 = c ^ (c >> 27);
    let e: u64 = d.wrapping_mul(0x94D0_49BB_1331_11EBu64);
    e ^ (e >> 31)
}

/// The key of piece number `piece_idx` on `square`: the piece and the square
/// packed into one word, offset by the side key, and run through the three
/// shift-and-multiply rounds of the SplitMix64 finaliser. Nothing is stored:
/// the same piece and square give the same key in every run.
#[verifier::when_used_as_spec(spec_zobrist_key)]
pub fn zobrist_key(piece_idx: usize, square: u8) -> (r: u64)
    ensures
        r == spec_zobrist_key(piece_idx, square),
{
    let seed: u64 = ((piece_idx as u64) << 8) ^ (square as u64) ^ 0x9E37_79B9_7F4A_7C15u64;
    let a: u64 = seed.wrapping_add(0xBF58_476D_1CE4_E5B9u64);
    let b: u64 = a ^ (a >> 30);
    let c: u64 = b.wrapping_mul(0xBF58_476D_1CE4_E5B9u64);
    let d: u64 = c ^ (c >> 27);
    let e: u64 = d.wrapping_mul(0x94D0_49BB_1331_11EBu64);
    e ^ (e >> 31)
}

/// The keys of the pieces on the squares below `n`, combined by exclusive or.
pub open spec fn pieces_hash(p: Position, n: int) -> u64
    decreases n,
{
    if n <= 0 {
        0
    } else {
        match p.board[n - 1] {
            Some(piece) => pieces_hash(p, n - 1) ^ zobrist_key(
                piece_index(piece.color, piece.kind),
                (n - 1) as u8,
            ),
            None => pieces_hash(p, n - 1),
        }
    }
}

/// The fingerprint of a position: the keys of its pieces, and the side key
/// if White is to move, combined by exclusive or.
pub open spec fn position_hash(p: Position) -> u64 {
    if p.side_to_move == Color::White {
        pieces_hash(p, 64) ^ SIDE_KEY
    } else {
        pieces_hash(p, 64)
    }
}

/// Computes the fingerprint of `state` afresh.
pub fn zobrist(state: &GameState) -> (h: u64)
    ensures
        h == position_hash(state@),
{
    let mut h: u64 = 0;
    let mut idx: u8 = 0;
    while idx < 64
        invariant
            idx <= 64,
            h == pieces_hash(state@, idx as int),
        decreases 64 - idx,
    {
        if let Some(piece) = state.board[idx as usize] {
            h = h ^ zobrist_key(piece_index(piece.color, piece.kind), idx);
        }
        idx += 1;
    }
    if state.side_to_move == Color::White {
        h = h ^ SIDE_KEY;
    }
    h
}

} // verus!
