//! Playing a move: how one position follows from another.
use vstd::prelude::*;
use crate::position::{GameState, Position};
use crate::types::{CastlingRights, Color, Move, Piece, PieceKind};

verus! {

/// The square of the pawn that a pawn of `color` removes when it captures en
/// passant onto `to`: one rank behind `to`, seen from the capturing side.
pub open spec fn en_passant_victim(color: Color, to: u8) -> int {
    to - 8 * color.pawn_direction()
}

/// Whether the move takes a piece: en passant, or by landing on an occupied
/// square.
pub open spec fn captures(p: Position, m: Move) -> bool {
    m.is_en_passant || p.board[m.to as int] is Some
}

/// The board after the rook's part of a castling move of `color` whose king
/// lands on `to`. Any other landing square moves no rook.
pub open spec fn castle_rook(board: Seq<Option<Piece>>, color: Color, to: u8) -> Seq<
    Option<Piece>,
> {
    match color {
        Color::White => if to == 6 {
            board.update(5, board[7]).update(7, None)
        } else if to == 2 {
            board.update(3, board[0]).update(0, None)
        } else {
            board
        },
        Color::Black => if to == 62 {
            board.update(61, board[63]).update(63, None)
        } else if to == 58 {
            board.update(59, board[56]).update(56, None)
        } else {
            board
        },
    }
}

/// The rights that are left once something has left from, or arrived on,
/// square `sq`: a rook's home corner costs the right on that wing.
pub open spec fn without_corner(rights: CastlingRights, sq: u8) -> CastlingRights {
    if sq == 0 {
        rights.without(Color::White, false)
    } else if sq == 7 {
        rights.without(Color::White, true)
    } else if sq == 56 {
        rights.without(Color::Black, false)
    } else if sq == 63 {
        rights.without(Color::Black, true)
    } else {
        rights
    }
}

/// The castling rights after `piece` has played `m`: a king's move costs both
/// rights of its colour, a rook's move from a corner the right of that corner,
/// and any arrival on a corner the right of that corner.
pub open spec fn rights_after(rights: CastlingRights, piece: Piece, m: Move) -> CastlingRights {
    let moved = match piece.kind {
        PieceKind::King => rights.without_color(piece.color),
        PieceKind::Rook => without_corner(rights, m.from),
        _ => rights,
    };
    without_corner(moved, m.to)
}

/// Whether the move is a pawn's advance by two ranks.
pub open spec fn is_double_step(piece: Piece, m: Move) -> bool {
    piece.kind == PieceKind::Pawn && (m.to - m.from == 16 || m.from - m.to == 16)
}

/// The board after the move.
pub open spec fn board_after(p: Position, m: Move) -> Seq<Option<Piece>> {
    let piece = p.board[m.from as int]->0;
    let lifted = if m.is_en_passant {
        p.board.update(en_passant_victim(piece.color, m.to), None)
    } else {
        p.board
    };
    let moved = lifted.update(m.to as int, lifted[m.from as int]).update(m.from as int, None);
    let promoted = match m.promotion {
        Some(kind) => moved.update(m.to as int, Some(Piece { color: piece.color, kind })),
        None => moved,
    };
    if m.is_castling {
        castle_rook(promoted, piece.color, m.to)
    } else {
        promoted
    }
}

/// What a move must satisfy for playing it to be defined: both squares lie on
/// the board, a piece stands on the first, and an en-passant capture has a
/// square to take its pawn from.
pub open spec fn applicable(p: Position, m: Move) -> bool {
    &&& p.board.len() == 64
    &&& m.from < 64
    &&& m.to < 64
    &&& p.board[m.from as int] is Some
    &&& m.is_en_passant ==> 0 <= en_passant_victim((p.board[m.from as int]->0).color, m.to) < 64
}

/// One more, but never beyond the largest value of the counter.
pub open spec fn bumped(n: u16) -> u16 {
    if n == u16::MAX {
        n
    } else {
        (n + 1) as u16
    }
}

/// The position that follows when `m` is played in `p`.
///
/// The piece travels, with what an en-passant capture, a promotion or
/// castling adds to that; a pawn's double step leaves the square it passed as
/// the en-passant target, and any other move leaves none; the castling rights
/// shrink by `rights_after`; the half-move clock starts again at a pawn move, a
/// capture or a promotion and otherwise counts on; the move number counts on
/// after Black's move; the other side is to move. Both counters stop at their
/// largest value.
pub open spec fn apply_move(p: Position, m: Move) -> Position {
    let piece = p.board[m.from as int]->0;
    Position {
        board: board_after(p, m),
        side_to_move: p.side_to_move.opposite(),
        castling: rights_after(p.castling, piece, m),
        en_passant: if is_double_step(piece, m) {
            Some(((m.from + m.to) / 2) as u8)
        } else {
            None
        },
        halfmove_clock: if piece.kind == PieceKind::Pawn || captures(p, m) || m.promotion is Some {
            0
        } else {
            bumped(p.halfmove_clock)
        },
        fullmove_number: if p.side_to_move == Color::Black {
            bumped(p.fullmove_number)
        } else {
            p.fullmove_number
        },
    }
}

impl GameState {
    /// Gives up what the departure from, or the arrival on, `sq` costs.
    fn clear_corner_right(&mut self, sq: u8)
        ensures
            final(self)@ == (Position {
                castling: without_corner(old(self).castling, sq),
                ..old(self)@
            }),
    {
        if sq == 0 {
            self.castling.remove_white_queen_side();
        } else if sq == 7 {
            self.castling.remove_white_king_side();
        } else if sq == 56 {
            self.castling.remove_black_queen_side();
        } else if sq == 63 {
            self.castling.remove_black_king_side();
        }
    }

    /// Moves the rook of a castling move of `color` whose king lands on `to`.
    fn castle_rook_move(&mut self, color: Color, to: u8)
        ensures
            final(self)@ == (Position {
                board: castle_rook(old(self)@.board, color, to),
                ..old(self)@
            }),
    {
        match color {
            Color::White => {
                if to == 6 {
                    self.board[5] = self.board[7];
                    self.board[7] = None;
                } else if to == 2 {
                    self.board[3] = self.board[0];
                    self.board[0] = None;
                }
            },
            Color::Black => {
                if to == 62 {
                    self.board[61] = self.board[63];
                    self.board[63] = None;
                } else if to == 58 {
                    self.board[59] = self.board[56];
                    self.board[56] = None;
                }
            },
        }
    }

    /// Empties square `sq`.
    fn clear_square(&mut self, sq: u8)
        requires
            sq < 64,
        ensures
            final(self)@ == (Position { board: old(self)@.board.update(sq as int, None), ..old(self)@ }),
    {
        self.board[sq as usize] = None;
        assert(self@.board =~= old(self)@.board.update(sq as int, None));
    }

    /// Puts `content` on square `sq`.
    fn put(&mut self, sq: u8, content: Option<Piece>)
        requires
            sq < 64,
        ensures
            final(self)@ == (Position {
                board: old(self)@.board.update(sq as int, content),
                ..old(self)@
            }),
    {
        self.board[sq as usize] = content;
        assert(self@.board =~= old(self)@.board.update(sq as int, content));
    }

    /// The board's part of a move: the piece travels, with what an en-passant
    /// capture, a promotion or castling adds to that.
    fn relocate(&mut self, mv: Move, piece: Piece)
        requires
            applicable(old(self)@, mv),
            old(self)@.board[mv.from as int] == Some(piece),
        ensures
            final(self)@ == (Position { board: board_after(old(self)@, mv), ..old(self)@ }),
    {
        if mv.is_en_passant {
            let victim: u8 = match piece.color {
                Color::White => mv.to - 8,
                Color::Black => mv.to + 8,
            };
            self.clear_square(victim);
        }
        let carried = self.board[mv.from as usize];
        self.put(mv.to, carried);
        self.clear_square(mv.from);
        if let Some(kind) = mv.promotion {
            self.put(mv.to, Some(Piece { color: piece.color, kind }));
        }
        if mv.is_castling {
            self.castle_rook_move(piece.color, mv.to);
        }
    }

    /// The rights' part of a move.
    fn update_rights(&mut self, mv: Move, piece: Piece)
        ensures
            final(self)@ == (Position {
                castling: rights_after(old(self)@.castling, piece, mv),
                ..old(self)@
            }),
    {
        match piece.kind {
            PieceKind::King => match piece.color {
                Color::White => self.castling.remove_white(),
                Color::Black => self.castling.remove_black(),
            },
            PieceKind::Rook => self.clear_corner_right(mv.from),
            _ => {},
        }
        self.clear_corner_right(mv.to);
    }

    /// Plays `mv` without asking whether it is legal.
    pub fn apply_move_unchecked(&mut self, mv: Move)
        requires
            applicable(old(self)@, mv),
        ensures
            final(self)@ == apply_move(old(self)@, mv),
    {
        let piece = match self.board[mv.from as usize] {
            Some(piece) => piece,
            None => { return ; },
        };
        let taken = mv.is_en_passant || self.board[mv.to as usize].is_some();
        self.relocate(mv, piece);
        self.update_rights(mv, piece);

        let double_step = piece.kind == PieceKind::Pawn && ((mv.to >= mv.from && mv.to - mv.from
            == 16) || (mv.from >= mv.to && mv.from - mv.to == 16));
        self.en_passant = if double_step {
            Some(((mv.from as u16 + mv.to as u16) / 2) as u8)
        } else {
            None
        };
        self.halfmove_clock = if piece.kind == PieceKind::Pawn || taken || mv.promotion.is_some() {
            0
        } else {
            self.halfmove_clock.saturating_add(1)
        };
        if self.side_to_move == Color::Black {
            self.fullmove_number = self.fullmove_number.saturating_add(1);
        }
        self.side_to_move = self.side_to_move.opposite();
    }
}

} // verus!
