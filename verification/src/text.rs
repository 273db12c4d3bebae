//! A position as text: the board as a diagram, and the side to move.
use vstd::prelude::*;
use crate::position::{GameState, Position};
use crate::types::{Color, Piece, PieceKind};

verus! {

/// What `piece_symbol` gives, for use in contracts.
pub open spec fn spec_piece_symbol(content: Option<Piece>) -> char {
    match content {
        None => '.',
        Some(piece) => match piece.color {
            Color::White => match piece.kind {
                PieceKind::Pawn => 'P',
                PieceKind::Knight => 'N',
                PieceKind::Bishop => 'B',
                PieceKind::Rook => 'R',
                PieceKind::Queen => 'Q',
                PieceKind::King => 'K',
            },
            Color::Black => match piece.kind {
                PieceKind::Pawn => 'p',
                PieceKind::Knight => 'n',
                PieceKind::Bishop => 'b',
                PieceKind::Rook => 'r',
                PieceKind::Queen => 'q',
                PieceKind::King => 'k',
            },
        },
    }
}

/// The character that stands for the content of a square: a dot for an
/// empty square, the letter of the piece in upper case for White and in lower
/// case for Black.
#[verifier::when_used_as_spec(spec_piece_symbol)]
pub fn piece_symbol(content: Option<Piece>) -> (symbol: char)
    ensures
        symbol == spec_piece_symbol(content),
{
    match content {
        None => '.',
        Some(piece) => match piece.color {
            Color::White => match piece.kind {
                PieceKind::Pawn => 'P',
                PieceKind::Knight => 'N',
                PieceKind::Bishop => 'B',
                PieceKind::Rook => 'R',
                PieceKind::Queen => 'Q',
                PieceKind::King => 'K',
            },
            Color::Black => match piece.kind {
                PieceKind::Pawn => 'p',
                PieceKind::Knight => 'n',
                PieceKind::Bishop => 'b',
                PieceKind::Rook => 'r',
                PieceKind::Queen => 'q',
                PieceKind::King => 'k',
            },
        },
    }
}

/// The first `files` squares of a rank as text: for each its symbol and a
/// blank.
pub open spec fn rank_text(p: Position, rank: int, files: int) -> Seq<char>
    decreases files,
{
    if files <= 0 {
        Seq::empty()
    } else {
        rank_text(p, rank, files - 1).push(piece_symbol(p.board[rank * 8 + files - 1])).push(' ')
    }
}

/// The `ranks` highest ranks of the board as text, the eighth rank first,
/// each rank on a line of its own.
pub open spec fn board_text(p: Position, ranks: int) -> Seq<char>
    decreases ranks,
{
    if ranks <= 0 {
        Seq::empty()
    } else {
        (board_text(p, ranks - 1) + rank_text(p, 8 - ranks, 8)).push('\n')
    }
}

/// The name of a colour.
pub open spec fn color_name(color: Color) -> Seq<char> {
    match color {
        Color::White => seq!['W', 'h', 'i', 't', 'e'],
        Color::Black => seq!['B', 'l', 'a', 'c', 'k'],
    }
}

/// A position as text: the board, and a line that names the side to move.
pub open spec fn position_text(p: Position) -> Seq<char> {
    (board_text(p, 8) + seq!['S', 'i', 'd', 'e', ':', ' '] + color_name(p.side_to_move)).push('\n')
}

impl GameState {
    /// The position as text, character by character: eight lines for the ranks from the eighth to
    /// the first, each square as its symbol and a blank, and a last line
    /// `Side: White` or `Side: Black`.
    pub fn to_text(&self) -> (text: Vec<char>)
        ensures
            text@ == position_text(self@),
    {
        let mut text: Vec<char> = Vec::new();
        let mut done: usize = 0;
        while done < 8
            invariant
                done <= 8,
                text@ == board_text(self@, done as int),
            decreases 8 - done,
        {
            let rank = 7 - done;
            let ghost before = text@;
            let mut file: usize = 0;
            while file < 8
                invariant
                    file <= 8,
                    rank == 7 - done,
                    done < 8,
                    text@ == before + rank_text(self@, rank as int, file as int),
                decreases 8 - file,
            {
                let ghost row = rank_text(self@, rank as int, file as int);
                let symbol = piece_symbol(self.board[rank * 8 + file]);
                text.push(symbol);
                text.push(' ');
                proof {
                    assert((before + row).push(symbol).push(' ') =~= before + row.push(symbol).push(
                        ' ',
                    ));
                }
                file += 1;
            }
            text.push('\n');
            done += 1;
        }
        let ghost board = text@;
        text.push('S');
        text.push('i');
        text.push('d');
        text.push('e');
        text.push(':');
        text.push(' ');
        match self.side_to_move {
            Color::White => {
                text.push('W');
                text.push('h');
                text.push('i');
                text.push('t');
                text.push('e');
            },
            Color::Black => {
                text.push('B');
                text.push('l');
                text.push('a');
                text.push('c');
                text.push('k');
            },
        }
        text.push('\n');
        proof {
            assert(text@ =~= position_text(self@));
        }
        text
    }
}

} // verus!
