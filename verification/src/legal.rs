//! Legal moves: generating them, testing one, and playing one.
use vstd::prelude::*;
use crate::apply::apply_move;
use crate::move_list::{answered, lemma_retained_is_filtered, retained, MoveList};
use crate::movegen::{keeps_king_safe, legal_moves};
use crate::position::GameState;
use crate::soundness::{lemma_legal_ok, lemma_pseudo_legal_ok, pseudo_ok};
use crate::types::Move;

verus! {

impl GameState {
    /// Whether the mover's king is out of check once `mv` is played. The
    /// move is tried on a copy of the position.
    fn leaves_king_safe(&self, mv: Move) -> (r: bool)
        requires
            pseudo_ok(self@, mv),
        ensures
            r == keeps_king_safe(self@, mv),
    {
        let mut scratch = *self;
        scratch.apply_move_unchecked(mv);
        !scratch.is_in_check(self.side_to_move)
    }

    /// The legal moves of the position: the pseudo-legal moves, in the order
    /// of their generation, without those that leave the mover's own king in
    /// check.
    pub fn generate_legal_moves(&self) -> (list: MoveList)
        ensures
            list.wf(),
            list@ == legal_moves(self@),
    {
        let mut list = MoveList::new();
        self.generate_pseudo_legal_moves(&mut list);
        let ghost all = list@;
        proof {
            assert(Seq::<Move>::empty() + crate::movegen::moves_below(self@, 64)
                =~= crate::movegen::moves_below(self@, 64));
            lemma_pseudo_legal_ok(self@);
        }
        let keep = |mv: &Move| -> (safe: bool)
            requires
                pseudo_ok(self@, *mv),
            ensures
                safe == keeps_king_safe(self@, *mv),
            { self.leaves_king_safe(*mv) };
        list.retain(keep);
        proof {
            let kept = choose|kept: Seq<bool>|
                answered(keep, all, kept) && list@ == #[trigger] retained(all, kept);
            lemma_retained_is_filtered(all, kept, |m: Move| keeps_king_safe(self@, m));
        }
        list
    }

    /// Whether `mv` is one of the legal moves of the position.
    pub fn is_move_legal(&self, mv: Move) -> (r: bool)
        ensures
            r == legal_moves(self@).contains(mv),
    {
        let list = self.generate_legal_moves();
        let mut i: usize = 0;
        while i < list.len
            invariant
                i <= list.len,
                list.wf(),
                list@ == legal_moves(self@),
                forall|k: int| 0 <= k < i ==> list@[k] != mv,
            decreases list.len - i,
        {
            if list.get(i) == mv {
                assert(list@[i as int] == mv);
                return true;
            }
            i += 1;
        }
        false
    }

    /// Plays `mv` if it is legal and gives the position that follows; gives
    /// nothing, and changes nothing, if it is not.
    pub fn make_move(&self, mv: Move) -> (r: Option<GameState>)
        ensures
            r is Some <==> legal_moves(self@).contains(mv),
            r matches Some(next) ==> next@ == apply_move(self@, mv),
    {
        if !self.is_move_legal(mv) {
            return None;
        }
        proof {
            lemma_legal_ok(self@, mv);
        }
        let mut next = *self;
        next.apply_move_unchecked(mv);
        Some(next)
    }
}

} // verus!
