//! A bounded list of moves that lives on the stack.
use vstd::prelude::*;
use vstd::std_specs::slice::into_iter_elts;
use crate::types::Move;

verus! {

/// The capacity of a move list: no position of a game has more moves.
pub const MAX_MOVES: usize = 218;

/// The first `MAX_MOVES` items of `s`: what is left of a sequence of pushes
/// when those beyond the capacity are dropped.
pub open spec fn capped(s: Seq<Move>) -> Seq<Move> {
    if s.len() <= MAX_MOVES {
        s
    } else {
        s.subrange(0, MAX_MOVES as int)
    }
}

/// Whether `kept` holds, move by move, what `keep` answered when it was
/// asked about the moves of `s`.
pub open spec fn answered<F: FnMut(&Move) -> bool>(keep: F, s: Seq<Move>, kept: Seq<bool>) -> bool {
    &&& kept.len() == s.len()
    &&& forall|i: int| 0 <= i < s.len() ==> call_ensures(keep, (&s[i],), #[trigger] kept[i])
}

/// The moves of `s` whose answer in `kept` is `true`, in their order.
pub open spec fn retained(s: Seq<Move>, kept: Seq<bool>) -> Seq<Move>
    decreases s.len(),
{
    if s.len() == 0 || kept.len() != s.len() {
        Seq::empty()
    } else if kept.last() {
        retained(s.drop_last(), kept.drop_last()).push(s.last())
    } else {
        retained(s.drop_last(), kept.drop_last())
    }
}

/// What is retained by the answers of a predicate is what the predicate
/// filters.
pub proof fn lemma_retained_is_filtered(s: Seq<Move>, kept: Seq<bool>, pred: spec_fn(Move) -> bool)
    requires
        kept.len() == s.len(),
        forall|i: int| 0 <= i < s.len() ==> #[trigger] kept[i] == pred(s[i]),
    ensures
        retained(s, kept) == s.filter(pred),
    decreases s.len(),
{
    reveal(Seq::filter);
    if s.len() > 0 {
        assert forall|i: int| 0 <= i < s.drop_last().len() implies (#[trigger] kept.drop_last()[i])
            == pred(s.drop_last()[i]) by {
            assert(kept.drop_last()[i] == kept[i]);
        }
        lemma_retained_is_filtered(s.drop_last(), kept.drop_last(), pred);
        assert(kept.last() == kept[kept.len() - 1]);
    }
}

/// An ordered list of at most `MAX_MOVES` moves: the first `len` items of
/// `moves`.
#[derive(Clone, Copy, Debug)]
pub struct MoveList {
    pub moves: [Move; MAX_MOVES],
    pub len: usize,
}

impl View for MoveList {
    type V = Seq<Move>;

    open spec fn view(&self) -> Seq<Move> {
        self.moves@.subrange(0, self.len as int)
    }
}

impl MoveList {
    /// The capacity of a move list.
    pub const MAX_MOVES: usize = MAX_MOVES;

    /// The count lies within the capacity.
    pub open spec fn wf(&self) -> bool {
        self.len <= MAX_MOVES
    }

    /// The empty list: no move counted, every slot holding `Move::quiet(0, 0)`.
    pub fn new() -> (list: MoveList)
        ensures
            list.wf(),
            list@ == Seq::<Move>::empty(),
            list.len == 0,
            forall|i: int| 0 <= i < MAX_MOVES ==> #[trigger] list.moves@[i] == Move::quiet(0, 0),
    {
        let list = MoveList { moves: [Move::quiet(0, 0);MAX_MOVES], len: 0 };
        assert(list@ =~= Seq::<Move>::empty());
        list
    }

    /// Appends `mv`, or drops it where the list is full. The slots behind the
    /// counted moves stay as they are.
    pub fn push(&mut self, mv: Move)
        requires
            old(self).wf(),
        ensures
            final(self).wf(),
            final(self)@ == capped(old(self)@.push(mv)),
            forall|k: int|
                final(self).len <= k < MAX_MOVES ==> final(self).moves@[k] == old(self).moves@[k],
    {
        if self.len < MAX_MOVES {
            self.moves[self.len] = mv;
            self.len += 1;
            assert(self@ =~= old(self)@.push(mv));
        } else {
            assert(old(self)@.push(mv).subrange(0, MAX_MOVES as int) =~= old(self)@);
        }
    }

    /// The move at position `i`.
    pub fn get(&self, i: usize) -> (mv: Move)
        requires
            self.wf(),
            i < self.len,
        ensures
            mv == self@[i as int],
    {
        self.moves[i]
    }

    /// Keeps the moves for which `keep` answers `true`, in their order, and
    /// drops the others. `keep` is asked once for each move, in the order of
    /// the list. The slots behind the moves that the list held stay as they
    /// are.
    pub fn retain<F: FnMut(&Move) -> bool>(&mut self, keep: F)
        requires
            old(self).wf(),
            forall|i: int|
                0 <= i < old(self)@.len() ==> call_requires(keep, (&#[trigger] old(self)@[i],)),
        ensures
            final(self).wf(),
            final(self).len <= old(self).len,
            exists|kept: Seq<bool>|
                answered(keep, old(self)@, kept) && final(self)@ == #[trigger] retained(
                    old(self)@,
                    kept,
                ),
            forall|k: int|
                old(self).len <= k < MAX_MOVES ==> final(self).moves@[k] == old(self).moves@[k],
    {
        let mut ask = keep;
        let n = self.len;
        let ghost all = self@;
        let ghost mut kept: Seq<bool> = Seq::empty();
        let mut write: usize = 0;
        let mut i: usize = 0;
        proof {
            assert(all.subrange(0, 0) =~= Seq::<Move>::empty());
            assert forall|k: int| 0 <= k < n implies self.moves@[k] == all[k] by {
                assert(self@[k] == self.moves@[k]);
            }
        }
        while i < n
            invariant
                write <= i <= n <= MAX_MOVES,
                n == all.len(),
                self.len == n,
                ask == keep,
                kept.len() == i,
                forall|k: int| 0 <= k < n ==> call_requires(keep, (&#[trigger] all[k],)),
                forall|k: int| 0 <= k < i ==> call_ensures(keep, (&all[k],), #[trigger] kept[k]),
                forall|k: int| i <= k < n ==> self.moves@[k] == all[k],
                forall|k: int| n <= k < MAX_MOVES ==> self.moves@[k] == old(self).moves@[k],
                self.moves@.subrange(0, write as int) == retained(all.subrange(0, i as int), kept),
            decreases n - i,
        {
            let mv = self.moves[i];
            assert(mv == all[i as int]);
            let answer = ask(&mv);
            if answer {
                self.moves[write] = mv;
                write += 1;
            }
            proof {
                let before = kept;
                kept = kept.push(answer);
                assert(kept.drop_last() =~= before);
                assert(all.subrange(0, i + 1).drop_last() =~= all.subrange(0, i as int));
                assert(all.subrange(0, i + 1).last() == mv);
                assert(self.moves@.subrange(0, write as int) =~= retained(
                    all.subrange(0, i + 1),
                    kept,
                ));
            }
            i += 1;
        }
        self.len = write;
        proof {
            assert(all.subrange(0, n as int) =~= all);
            assert(answered(keep, all, kept));
        }
    }

    /// Walks the moves in order.
    pub fn iter(&self) -> (it: core::slice::Iter<'_, Move>)
        requires
            self.wf(),
        ensures
            into_iter_elts(it) == self@,
    {
        self.moves[0..self.len].iter()
    }
}

/// Pushing onto a capped list and capping again is capping once.
pub proof fn lemma_capped_append(a: Seq<Move>, b: Seq<Move>)
    ensures
        capped(capped(a) + b) == capped(a + b),
        capped(a).len() <= MAX_MOVES,
        a.len() <= MAX_MOVES ==> capped(a) == a,
{
    assert(capped(capped(a) + b) =~= capped(a + b));
}

} // verus!
