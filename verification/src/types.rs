//! The small value types of the game: colours, pieces, moves, castling rights,
//! and the geometry of the board.
use vstd::prelude::*;

verus! {

/// The two sides.
#[derive(Clone, Copy, Debug, PartialEq, Eq, Structural)]
pub enum Color {
    White,
    Black,
}

impl Color {
    /// What `opposite` gives, for use in contracts.
    pub open spec fn spec_opposite(self) -> Color {
        match self {
            Color::White => Color::Black,
            Color::Black => Color::White,
        }
    }

    /// The other colour.
    #[verifier::when_used_as_spec(spec_opposite)]
    pub fn opposite(self) -> (r: Color)
        ensures
            r == self.spec_opposite(),
    {
        match self {
            Color::White => Color::Black,
            Color::Black => Color::White,
        }
    }

    /// What `pawn_direction` gives, for use in contracts.
    pub open spec fn spec_pawn_direction(self) -> i8 {
        match self {
            Color::White => 1i8,
            Color::Black => -1i8,
        }
    }

    /// The change of rank of one pawn step: up the board for White, down for Black.
    #[verifier::when_used_as_spec(spec_pawn_direction)]
    pub fn pawn_direction(self) -> (r: i8)
        ensures
            r == self.spec_pawn_direction(),
    {
        match self {
            Color::White => 1,
            Color::Black => -1,
        }
    }

    /// What `home_rank` gives, for use in contracts.
    pub open spec fn spec_home_rank(self) -> u8 {
        match self {
            Color::White => 1u8,
            Color::Black => 6u8,
        }
    }

    /// The rank on which this colour's pawns start.
    #[verifier::when_used_as_spec(spec_home_rank)]
    pub fn home_rank(self) -> (r: u8)
        ensures
            r == self.spec_home_rank(),
    {
        match self {
            Color::White => 1,
            Color::Black => 6,
        }
    }

    /// What `promotion_rank` gives, for use in contracts.
    pub open spec fn spec_promotion_rank(self) -> u8 {
        match self {
            Color::White => 7u8,
            Color::Black => 0u8,
        }
    }

    /// The rank on which this colour's pawns promote.
    #[verifier::when_used_as_spec(spec_promotion_rank)]
    pub fn promotion_rank(self) -> (r: u8)
        ensures
            r == self.spec_promotion_rank(),
    {
        match self {
            Color::White => 7,
            Color::Black => 0,
        }
    }
}

/// The six kinds of pieces.
#[derive(Clone, Copy, Debug, PartialEq, Eq, Structural)]
pub enum PieceKind {
    Pawn,
    Knight,
    Bishop,
    Rook,
    Queen,
    King,
}

/// A piece: its colour and its kind.
#[derive(Clone, Copy, Debug, PartialEq, Eq, Structural)]
pub struct Piece {
    pub color: Color,
    pub kind: PieceKind,
}

/// A move as the generator emits it. It has a meaning only together with the
/// position it was generated for.
#[derive(Clone, Copy, Debug, PartialEq, Eq, Structural)]
pub struct Move {
    pub from: u8,
    pub to: u8,
    pub promotion: Option<PieceKind>,
    pub is_en_passant: bool,
    pub is_castling: bool,
}

impl Move {
    /// What `quiet` gives, for use in contracts.
    pub open spec fn spec_quiet(from: u8, to: u8) -> Move {
        Move { from, to, promotion: None, is_en_passant: false, is_castling: false }
    }

    /// A move without promotion, en-passant capture or castling.
    #[verifier::when_used_as_spec(spec_quiet)]
    pub fn quiet(from: u8, to: u8) -> (m: Move)
        ensures
            m == Move::spec_quiet(from, to),
    {
        Move { from, to, promotion: None, is_en_passant: false, is_castling: false }
    }
}

/// The four castling rights. A game only ever clears them.
#[derive(Clone, Copy, Debug, PartialEq, Eq, Structural)]
pub struct CastlingRights {
    pub white_king_side: bool,
    pub white_queen_side: bool,
    pub black_king_side: bool,
    pub black_queen_side: bool,
}

impl CastlingRights {
    /// What `new` gives, for use in contracts.
    pub open spec fn spec_new() -> CastlingRights {
        CastlingRights {
            white_king_side: false,
            white_queen_side: false,
            black_king_side: false,
            black_queen_side: false,
        }
    }

    /// No right at all.
    #[verifier::when_used_as_spec(spec_new)]
    pub fn new() -> (r: CastlingRights)
        ensures
            r == CastlingRights::spec_new(),
    {
        CastlingRights {
            white_king_side: false,
            white_queen_side: false,
            black_king_side: false,
            black_queen_side: false,
        }
    }

    /// What `full` gives, for use in contracts.
    pub open spec fn spec_full() -> CastlingRights {
        CastlingRights {
            white_king_side: true,
            white_queen_side: true,
            black_king_side: true,
            black_queen_side: true,
        }
    }

    /// All four rights.
    #[verifier::when_used_as_spec(spec_full)]
    pub fn full() -> (r: CastlingRights)
        ensures
            r == CastlingRights::spec_full(),
    {
        CastlingRights {
            white_king_side: true,
            white_queen_side: true,
            black_king_side: true,
            black_queen_side: true,
        }
    }

    /// What `can_castle` gives, for use in contracts.
    pub open spec fn spec_can_castle(&self, color: Color, king_side: bool) -> bool {
        match color {
            Color::White => if king_side {
                self.white_king_side
            } else {
                self.white_queen_side
            },
            Color::Black => if king_side {
                self.black_king_side
            } else {
                self.black_queen_side
            },
        }
    }

    /// Whether `color` still has the right to castle on the given wing.
    #[verifier::when_used_as_spec(spec_can_castle)]
    pub fn can_castle(&self, color: Color, king_side: bool) -> (r: bool)
        ensures
            r == self.spec_can_castle(color, king_side),
    {
        match color {
            Color::White => if king_side {
                self.white_king_side
            } else {
                self.white_queen_side
            },
            Color::Black => if king_side {
                self.black_king_side
            } else {
                self.black_queen_side
            },
        }
    }

    /// These rights without the one of `color` on the given wing.
    pub open spec fn without(self, color: Color, king_side: bool) -> CastlingRights {
        match color {
            Color::White => if king_side {
                CastlingRights { white_king_side: false, ..self }
            } else {
                CastlingRights { white_queen_side: false, ..self }
            },
            Color::Black => if king_side {
                CastlingRights { black_king_side: false, ..self }
            } else {
                CastlingRights { black_queen_side: false, ..self }
            },
        }
    }

    /// These rights without both rights of `color`.
    pub open spec fn without_color(self, color: Color) -> CastlingRights {
        self.without(color, true).without(color, false)
    }

    /// Clears both rights of White.
    pub fn remove_white(&mut self)
        ensures
            *final(self) == old(self).without_color(Color::White),
    {
        self.white_king_side = false;
        self.white_queen_side = false;
    }

    /// Clears both rights of Black.
    pub fn remove_black(&mut self)
        ensures
            *final(self) == old(self).without_color(Color::Black),
    {
        self.black_king_side = false;
        self.black_queen_side = false;
    }

    /// Clears White's right on the king side.
    pub fn remove_white_king_side(&mut self)
        ensures
            *final(self) == old(self).without(Color::White, true),
    {
        self.white_king_side = false;
    }

    /// Clears White's right on the queen side.
    pub fn remove_white_queen_side(&mut self)
        ensures
            *final(self) == old(self).without(Color::White, false),
    {
        self.white_queen_side = false;
    }

    /// Clears Black's right on the king side.
    pub fn remove_black_king_side(&mut self)
        ensures
            *final(self) == old(self).without(Color::Black, true),
    {
        self.black_king_side = false;
    }

    /// Clears Black's right on the queen side.
    pub fn remove_black_queen_side(&mut self)
        ensures
            *final(self) == old(self).without(Color::Black, false),
    {
        self.black_queen_side = false;
    }
}

/// Whether file `f` and rank `r` name a square of the board.
pub open spec fn on_board(f: int, r: int) -> bool {
    0 <= f < 8 && 0 <= r < 8
}

/// The index of the square on file `f` and rank `r`.
pub open spec fn square_at(f: int, r: int) -> u8 {
    (r * 8 + f) as u8
}

/// What `rank_of` gives, for use in contracts.
pub open spec fn spec_rank_of(sq: u8) -> u8 {
    sq / 8
}

/// What `file_of` gives, for use in contracts.
pub open spec fn spec_file_of(sq: u8) -> u8 {
    sq % 8
}

/// The rank of a square, counted from zero at White's back rank.
#[verifier::when_used_as_spec(spec_rank_of)]
pub fn rank_of(sq: u8) -> (r: u8)
    ensures
        r == spec_rank_of(sq),
{
    sq / 8
}

/// The file of a square, counted from zero at the a-file.
#[verifier::when_used_as_spec(spec_file_of)]
pub fn file_of(sq: u8) -> (r: u8)
    ensures
        r == spec_file_of(sq),
{
    sq % 8
}

/// The square reached from `sq` by `df` files and `dr` ranks, if it is on the
/// board.
pub open spec fn spec_shifted(sq: u8, df: int, dr: int) -> Option<u8> {
    if on_board(file_of(sq) + df, rank_of(sq) + dr) {
        Some(square_at(file_of(sq) + df, rank_of(sq) + dr))
    } else {
        None
    }
}

/// Steps from `sq` by `df` files and `dr` ranks. A step that would leave the
/// board on either axis gives `None`, so no step wraps from one edge of the
/// board to the other.
pub fn shifted(sq: u8, df: i8, dr: i8) -> (r: Option<u8>)
    requires
        sq < 64,
        -8 <= df <= 8,
        -8 <= dr <= 8,
    ensures
        r == spec_shifted(sq, df as int, dr as int),
        r matches Some(t) ==> t < 64,
{
    let f: i8 = (sq % 8) as i8 + df;
    let r: i8 = (sq / 8) as i8 + dr;
    if 0 <= f && f < 8 && 0 <= r && r < 8 {
        Some((r * 8 + f) as u8)
    } else {
        None
    }
}

} // verus!
