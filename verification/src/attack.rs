//! Which squares a colour attacks, and whether a king stands in check.
use vstd::prelude::*;
use crate::position::{GameState, Position};
use crate::types::{file_of, on_board, rank_of, shifted, Color, Piece, PieceKind};

verus! {

/// The piece on file `f` and rank `r`, if that is a square of the board and
/// a piece stands on it.
pub open spec fn piece_at(p: Position, f: int, r: int) -> Option<Piece> {
    if on_board(f, r) {
        p.board[r * 8 + f]
    } else {
        None
    }
}

/// Whether a piece of the given colour and kind stands on file `f`, rank `r`.
pub open spec fn stands(p: Position, f: int, r: int, color: Color, kind: PieceKind) -> bool {
    piece_at(p, f, r) == Some(Piece { color, kind })
}

/// The eight leaps of a knight, as changes of file and rank.
pub open spec fn knight_delta(i: int) -> (int, int) {
    if i == 0 {
        (1, 2)
    } else if i == 1 {
        (-1, 2)
    } else if i == 2 {
        (2, 1)
    } else if i == 3 {
        (-2, 1)
    } else if i == 4 {
        (-1, -2)
    } else if i == 5 {
        (1, -2)
    } else if i == 6 {
        (-2, -1)
    } else {
        (2, -1)
    }
}

/// The eight steps of a king, as changes of file and rank.
pub open spec fn king_delta(i: int) -> (int, int) {
    if i == 0 {
        (1, 0)
    } else if i == 1 {
        (-1, 0)
    } else if i == 2 {
        (0, 1)
    } else if i == 3 {
        (0, -1)
    } else if i == 4 {
        (1, 1)
    } else if i == 5 {
        (-1, 1)
    } else if i == 6 {
        (1, -1)
    } else {
        (-1, -1)
    }
}

/// The eight directions of a ray: the four of a rook first, then the four of
/// a bishop.
pub open spec fn ray_delta(i: int) -> (int, int) {
    if i == 0 {
        (0, 1)
    } else if i == 1 {
        (0, -1)
    } else if i == 2 {
        (1, 0)
    } else if i == 3 {
        (-1, 0)
    } else if i == 4 {
        (1, 1)
    } else if i == 5 {
        (-1, 1)
    } else if i == 6 {
        (-1, -1)
    } else {
        (1, -1)
    }
}

/// Whether `(df, dr)` is one step along a rank, a file or a diagonal.
pub open spec fn is_direction(df: int, dr: int) -> bool {
    -1 <= df <= 1 && -1 <= dr <= 1 && (df != 0 || dr != 0)
}

/// How many steps in direction `d` fit between coordinate `x` and the edge.
pub open spec fn room(x: int, d: int) -> int {
    if d > 0 {
        7 - x
    } else if d < 0 {
        x
    } else {
        0
    }
}

/// The first piece met when walking from file `f`, rank `r` in direction
/// `(df, dr)`, the starting square not counted; `None` where the walk reaches
/// the edge of the board first.
pub open spec fn first_on_ray(p: Position, f: int, r: int, df: int, dr: int) -> Option<Piece>
    decreases room(f, df) + room(r, dr),
{
    if !is_direction(df, dr) || !on_board(f, r) || !on_board(f + df, r + dr) {
        None
    } else if p.board[(r + dr) * 8 + (f + df)] is Some {
        p.board[(r + dr) * 8 + (f + df)]
    } else {
        first_on_ray(p, f + df, r + dr, df, dr)
    }
}

/// A pawn of colour `by` stands where it captures onto `sq`.
pub open spec fn pawn_attacks(p: Position, sq: u8, by: Color) -> bool {
    let f = file_of(sq) as int;
    let r = rank_of(sq) - by.pawn_direction();
    stands(p, f - 1, r, by, PieceKind::Pawn) || stands(p, f + 1, r, by, PieceKind::Pawn)
}

/// A knight of colour `by` stands the `i`-th knight leap away from `sq`.
pub open spec fn knight_attacks_from(p: Position, sq: u8, by: Color, i: int) -> bool {
    stands(
        p,
        file_of(sq) + knight_delta(i).0,
        rank_of(sq) + knight_delta(i).1,
        by,
        PieceKind::Knight,
    )
}

/// A king of colour `by` stands the `i`-th king step away from `sq`.
pub open spec fn king_attacks_from(p: Position, sq: u8, by: Color, i: int) -> bool {
    stands(p, file_of(sq) + king_delta(i).0, rank_of(sq) + king_delta(i).1, by, PieceKind::King)
}

/// The first piece on the `i`-th ray from `sq` is of colour `by` and moves
/// along that ray: a queen, or a rook on a rank or file, or a bishop on a
/// diagonal.
pub open spec fn ray_attacks_from(p: Position, sq: u8, by: Color, i: int) -> bool {
    match first_on_ray(p, file_of(sq) as int, rank_of(sq) as int, ray_delta(i).0, ray_delta(i).1) {
        Some(piece) => piece.color == by && (piece.kind == PieceKind::Queen || piece.kind == (if i
            < 4 {
            PieceKind::Rook
        } else {
            PieceKind::Bishop
        })),
        None => false,
    }
}

/// Whether some piece of colour `by` attacks square `sq`, as a look outward
/// from `sq` finds it: a pawn that captures onto `sq`, a knight a leap away,
/// a queen, rook or bishop as the first piece on one of its rays, or a king
/// next to it.
pub open spec fn attacked(p: Position, sq: u8, by: Color) -> bool {
    ||| pawn_attacks(p, sq, by)
    ||| exists|i: int| 0 <= i < 8 && knight_attacks_from(p, sq, by, i)
    ||| exists|i: int| 0 <= i < 8 && ray_attacks_from(p, sq, by, i)
    ||| exists|i: int| 0 <= i < 8 && king_attacks_from(p, sq, by, i)
}

/// The first square at or after `sq`, in the order of the indices, on which
/// a king of `color` stands.
pub open spec fn king_from(p: Position, color: Color, sq: int) -> Option<u8>
    decreases 64 - sq,
{
    if sq < 0 || sq >= 64 {
        None
    } else if p.board[sq] == Some(Piece { color, kind: PieceKind::King }) {
        Some(sq as u8)
    } else {
        king_from(p, color, sq + 1)
    }
}

/// The square of the king of `color`: the lowest one, should there be several.
pub open spec fn king_square(p: Position, color: Color) -> Option<u8> {
    king_from(p, color, 0)
}

/// Whether the king of `color` is attacked. A colour without a king is never
/// in check.
pub open spec fn in_check(p: Position, color: Color) -> bool {
    match king_square(p, color) {
        Some(sq) => attacked(p, sq, color.opposite()),
        None => false,
    }
}

/// The `i`-th knight leap.
pub fn knight_step(i: usize) -> (d: (i8, i8))
    requires
        i < 8,
    ensures
        (d.0 as int, d.1 as int) == knight_delta(i as int),
{
    if i == 0 {
        (1, 2)
    } else if i == 1 {
        (-1, 2)
    } else if i == 2 {
        (2, 1)
    } else if i == 3 {
        (-2, 1)
    } else if i == 4 {
        (-1, -2)
    } else if i == 5 {
        (1, -2)
    } else if i == 6 {
        (-2, -1)
    } else {
        (2, -1)
    }
}

/// The `i`-th king step.
pub fn king_step(i: usize) -> (d: (i8, i8))
    requires
        i < 8,
    ensures
        (d.0 as int, d.1 as int) == king_delta(i as int),
{
    if i == 0 {
        (1, 0)
    } else if i == 1 {
        (-1, 0)
    } else if i == 2 {
        (0, 1)
    } else if i == 3 {
        (0, -1)
    } else if i == 4 {
        (1, 1)
    } else if i == 5 {
        (-1, 1)
    } else if i == 6 {
        (1, -1)
    } else {
        (-1, -1)
    }
}

/// The `i`-th ray direction.
pub fn ray_step(i: usize) -> (d: (i8, i8))
    requires
        i < 8,
    ensures
        (d.0 as int, d.1 as int) == ray_delta(i as int),
        is_direction(d.0 as int, d.1 as int),
{
    if i == 0 {
        (0, 1)
    } else if i == 1 {
        (0, -1)
    } else if i == 2 {
        (1, 0)
    } else if i == 3 {
        (-1, 0)
    } else if i == 4 {
        (1, 1)
    } else if i == 5 {
        (-1, 1)
    } else if i == 6 {
        (-1, -1)
    } else {
        (1, -1)
    }
}

impl GameState {
    /// Whether a piece of the given colour and kind stands `(df, dr)` away
    /// from `sq`.
    fn stands_at(&self, sq: u8, df: i8, dr: i8, color: Color, kind: PieceKind) -> (r: bool)
        requires
            sq < 64,
            -8 <= df <= 8,
            -8 <= dr <= 8,
        ensures
            r == stands(self@, file_of(sq) + df, rank_of(sq) + dr, color, kind),
    {
        match shifted(sq, df, dr) {
            Some(t) => match self.board[t as usize] {
                Some(piece) => piece.color == color && piece.kind == kind,
                None => false,
            },
            None => false,
        }
    }

    /// Walks from `sq` in direction `(df, dr)` to the first occupied square
    /// or the edge of the board.
    pub fn first_piece_on_ray(&self, sq: u8, df: i8, dr: i8) -> (found: Option<Piece>)
        requires
            sq < 64,
            is_direction(df as int, dr as int),
        ensures
            found == first_on_ray(
                self@,
                file_of(sq) as int,
                rank_of(sq) as int,
                df as int,
                dr as int,
            ),
    {
        let mut f: i8 = file_of(sq) as i8;
        let mut r: i8 = rank_of(sq) as i8;
        let mut found: Option<Piece> = None;
        loop
            invariant_except_break
                on_board(f as int, r as int),
                first_on_ray(self@, f as int, r as int, df as int, dr as int) == first_on_ray(
                    self@,
                    file_of(sq) as int,
                    rank_of(sq) as int,
                    df as int,
                    dr as int,
                ),
            invariant
                is_direction(df as int, dr as int),
            ensures
                found == first_on_ray(
                    self@,
                    file_of(sq) as int,
                    rank_of(sq) as int,
                    df as int,
                    dr as int,
                ),
            decreases room(f as int, df as int) + room(r as int, dr as int),
        {
            let nf: i8 = f + df;
            let nr: i8 = r + dr;
            if nf < 0 || nf > 7 || nr < 0 || nr > 7 {
                found = None;
                break ;
            }
            let here = self.board[(nr * 8 + nf) as usize];
            if here.is_some() {
                found = here;
                break ;
            }
            f = nf;
            r = nr;
        }
        found
    }

    /// Whether a piece of colour `by` attacks square `sq`.
    ///
    /// Looks outward from `sq`: at the two squares from which a pawn of that
    /// colour captures onto it, at the eight knight leaps, along the eight rays
    /// up to the first piece, and at the eight neighbouring squares for a king.
    pub fn is_square_attacked(&self, sq: u8, by: Color) -> (r: bool)
        requires
            sq < 64,
        ensures
            r == attacked(self@, sq, by),
    {
        let back: i8 = -by.pawn_direction();
        if self.stands_at(sq, -1, back, by, PieceKind::Pawn) || self.stands_at(
            sq,
            1,
            back,
            by,
            PieceKind::Pawn,
        ) {
            return true;
        }
        let mut i: usize = 0;
        while i < 8
            invariant
                i <= 8,
                sq < 64,
                forall|j: int| 0 <= j < i ==> !knight_attacks_from(self@, sq, by, j),
            decreases 8 - i,
        {
            let d = knight_step(i);
            if self.stands_at(sq, d.0, d.1, by, PieceKind::Knight) {
                assert(knight_attacks_from(self@, sq, by, i as int));
                return true;
            }
            i += 1;
        }
        let mut i: usize = 0;
        while i < 8
            invariant
                i <= 8,
                sq < 64,
                forall|j: int| 0 <= j < i ==> !ray_attacks_from(self@, sq, by, j),
            decreases 8 - i,
        {
            let d = ray_step(i);
            if let Some(piece) = self.first_piece_on_ray(sq, d.0, d.1) {
                let along = if i < 4 {
                    piece.kind == PieceKind::Rook
                } else {
                    piece.kind == PieceKind::Bishop
                };
                if piece.color == by && (piece.kind == PieceKind::Queen || along) {
                    assert(ray_attacks_from(self@, sq, by, i as int));
                    return true;
                }
            }
            i += 1;
        }
        let mut i: usize = 0;
        while i < 8
            invariant
                i <= 8,
                sq < 64,
                forall|j: int| 0 <= j < i ==> !king_attacks_from(self@, sq, by, j),
            decreases 8 - i,
        {
            let d = king_step(i);
            if self.stands_at(sq, d.0, d.1, by, PieceKind::King) {
                assert(king_attacks_from(self@, sq, by, i as int));
                return true;
            }
            i += 1;
        }
        false
    }

    /// The square of the king of `color`, the lowest should there be several.
    pub fn find_king(&self, color: Color) -> (r: Option<u8>)
        ensures
            r == king_square(self@, color),
            r matches Some(sq) ==> sq < 64,
    {
        let mut sq: u8 = 0;
        while sq < 64
            invariant
                sq <= 64,
                king_from(self@, color, sq as int) == king_square(self@, color),
            decreases 64 - sq,
        {
            if let Some(piece) = self.board[sq as usize] {
                if piece.color == color && piece.kind == PieceKind::King {
                    return Some(sq);
                }
            }
            sq += 1;
        }
        None
    }

    /// Whether the king of `color` is attacked by the other colour. Without
    /// such a king on the board the answer is `false`.
    pub fn is_in_check(&self, color: Color) -> (r: bool)
        ensures
            r == in_check(self@, color),
    {
        match self.find_king(color) {
            Some(sq) => self.is_square_attacked(sq, color.opposite()),
            None => false,
        }
    }
}

} // verus!
