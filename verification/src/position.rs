//! The position: the board and the state that the rules need beside it.
use vstd::prelude::*;
use crate::types::{CastlingRights, Color, Piece, PieceKind};

verus! {

/// One position of a game, as a plain value.
#[derive(Clone, Copy, Debug)]
pub struct GameState {
    pub board: [Option<Piece>; 64],
    pub side_to_move: Color,
    pub castling: CastlingRights,
    pub en_passant: Option<u8>,
    pub halfmove_clock: u16,
    pub fullmove_number: u16,
}

/// The mathematical value of a position: the board as a sequence of 64 squares.
pub struct Position {
    pub board: Seq<Option<Piece>>,
    pub side_to_move: Color,
    pub castling: CastlingRights,
    pub en_passant: Option<u8>,
    pub halfmove_clock: u16,
    pub fullmove_number: u16,
}

impl View for GameState {
    type V = Position;

    open spec fn view(&self) -> Position {
        Position {
            board: self.board@,
            side_to_move: self.side_to_move,
            castling: self.castling,
            en_passant: self.en_passant,
            halfmove_clock: self.halfmove_clock,
            fullmove_number: self.fullmove_number,
        }
    }
}

impl PartialEq for GameState {
    fn eq(&self, other: &GameState) -> (r: bool) {
        let mut same: bool = self.side_to_move == other.side_to_move && self.castling
            == other.castling && self.en_passant == other.en_passant && self.halfmove_clock
            == other.halfmove_clock && self.fullmove_number == other.fullmove_number;
        let mut i: usize = 0;
        while i < 64
            invariant
                i <= 64,
                same == (self.side_to_move == other.side_to_move && self.castling
                    == other.castling && self.en_passant == other.en_passant
                    && self.halfmove_clock == other.halfmove_clock && self.fullmove_number
                    == other.fullmove_number && forall|k: int|
                    0 <= k < i ==> self.board@[k] == other.board@[k]),
            decreases 64 - i,
        {
            if self.board[i] != other.board[i] {
                same = false;
            }
            i += 1;
        }
        assert(same == (self@ == other@)) by {
            if same {
                assert(self.board@ =~= other.board@);
            }
        }
        same
    }
}

impl vstd::std_specs::cmp::PartialEqSpecImpl for GameState {
    open spec fn obeys_eq_spec() -> bool {
        true
    }

    open spec fn eq_spec(&self, other: &GameState) -> bool {
        self@ == other@
    }
}

impl Eq for GameState {

}

} // verus!

verus! {

/// The kind of the piece that starts on file `f` of a back rank.
pub open spec fn back_rank_kind(f: int) -> PieceKind {
    if f == 0 || f == 7 {
        PieceKind::Rook
    } else if f == 1 || f == 6 {
        PieceKind::Knight
    } else if f == 2 || f == 5 {
        PieceKind::Bishop
    } else if f == 3 {
        PieceKind::Queen
    } else {
        PieceKind::King
    }
}

/// What stands on square `sq` when a game starts.
pub open spec fn start_square(sq: int) -> Option<Piece> {
    let r = sq / 8;
    let f = sq % 8;
    if r == 0 {
        Some(Piece { color: Color::White, kind: back_rank_kind(f) })
    } else if r == 1 {
        Some(Piece { color: Color::White, kind: PieceKind::Pawn })
    } else if r == 6 {
        Some(Piece { color: Color::Black, kind: PieceKind::Pawn })
    } else if r == 7 {
        Some(Piece { color: Color::Black, kind: back_rank_kind(f) })
    } else {
        None
    }
}

/// The position from which every game starts.
pub open spec fn start() -> Position {
    Position {
        board: Seq::new(64, |sq: int| start_square(sq)),
        side_to_move: Color::White,
        castling: CastlingRights::full(),
        en_passant: None,
        halfmove_clock: 0,
        fullmove_number: 1,
    }
}

fn back_rank_piece(f: usize) -> (kind: PieceKind)
    requires
        f < 8,
    ensures
        kind == back_rank_kind(f as int),
{
    if f == 0 || f == 7 {
        PieceKind::Rook
    } else if f == 1 || f == 6 {
        PieceKind::Knight
    } else if f == 2 || f == 5 {
        PieceKind::Bishop
    } else if f == 3 {
        PieceKind::Queen
    } else {
        PieceKind::King
    }
}

impl GameState {
    /// The standard initial position.
    pub fn start_position() -> (state: GameState)
        ensures
            state@ == start(),
    {
        let mut board: [Option<Piece>; 64] = [None;64];
        let mut f: usize = 0;
        while f < 8
            invariant
                f <= 8,
                forall|sq: int|
                    0 <= sq < 64 ==> #[trigger] board@[sq] == if sq % 8 < f {
                        start_square(sq)
                    } else {
                        None
                    },
            decreases 8 - f,
        {
            let kind = back_rank_piece(f);
            board[f] = Some(Piece { color: Color::White, kind });
            board[8 + f] = Some(Piece { color: Color::White, kind: PieceKind::Pawn });
            board[48 + f] = Some(Piece { color: Color::Black, kind: PieceKind::Pawn });
            board[56 + f] = Some(Piece { color: Color::Black, kind });
            f += 1;
        }
        let state = GameState {
            board,
            side_to_move: Color::White,
            castling: CastlingRights::full(),
            en_passant: None,
            halfmove_clock: 0,
            fullmove_number: 1,
        };
        assert(state@.board =~= start().board);
        state
    }
}

} // verus!
