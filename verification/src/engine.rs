//! A game in progress: one position, advanced by legal moves only.
use vstd::prelude::*;
use crate::apply::apply_move;
use crate::move_list::MoveList;
use crate::movegen::legal_moves;
use crate::position::{start, GameState, Position};
use crate::types::Move;

verus! {

/// Why a move was not played.
#[derive(Debug)]
pub enum MoveError {
    /// The move is not among the legal moves of the position.
    Illegal,
}

/// Holds the current position of a game.
pub struct Engine {
    state: GameState,
}

impl View for Engine {
    type V = Position;

    closed spec fn view(&self) -> Position {
        self.state@
    }
}

impl Engine {
    /// A game at the standard initial position.
    pub fn new_startpos() -> (engine: Engine)
        ensures
            engine@ == start(),
    {
        Engine { state: GameState::start_position() }
    }

    /// The current position.
    pub fn state(&self) -> (state: &GameState)
        ensures
            state@ == self@,
    {
        &self.state
    }

    /// The legal moves of the current position.
    pub fn legal_moves(&self) -> (list: MoveList)
        ensures
            list.wf(),
            list@ == legal_moves(self@),
    {
        self.state.generate_legal_moves()
    }

    /// Plays `mv` if it is legal in the current position; otherwise reports
    /// it as illegal and leaves the position as it is.
    pub fn play_move(&mut self, mv: Move) -> (r: Result<(), MoveError>)
        ensures
            r is Ok <==> legal_moves(old(self)@).contains(mv),
            r is Ok ==> final(self)@ == apply_move(old(self)@, mv),
            r is Err ==> final(self)@ == old(self)@,
    {
        match self.state.make_move(mv) {
            Some(next) => {
                self.state = next;
                Ok(())
            },
            None => Err(MoveError::Illegal),
        }
    }
}

} // verus!
