//! Move ordering: a stable insertion sort by the ordering score.
use vstd::prelude::*;
use vstd::seq_lib::{to_multiset_build, to_multiset_contains};
use crate::eval::{law_hint_scores_highest, move_heuristic, order_score};
use crate::move_list::{MoveList, MAX_MOVES};
use crate::position::{GameState, Position};
use crate::types::Move;

verus! {

/// Whether a move that scores `a` is tried before one that scores `b`: the
/// higher score first when descending, the lower first when ascending.
pub open spec fn goes_before(a: int, b: int, descending: bool) -> bool {
    if descending {
        a > b
    } else {
        a < b
    }
}

/// The ordered sequence `s` with `m` put in: `m` passes every move at the
/// end of `s` that it goes before, and stays behind the first that it does
/// not go before.
pub open spec fn inserted(
    s: Seq<Move>,
    m: Move,
    p: Position,
    hint: Option<Move>,
    descending: bool,
) -> Seq<Move>
    decreases s.len(),
{
    if s.len() > 0 && goes_before(
        order_score(p, m, hint),
        order_score(p, s.last(), hint),
        descending,
    ) {
        inserted(s.drop_last(), m, p, hint, descending).push(s.last())
    } else {
        s.push(m)
    }
}

/// The moves of `s` in the order in which they are tried: each in turn put
/// into the ordered sequence of those before it. Moves of equal score keep the
/// order they had in `s`.
pub open spec fn ordered_moves(
    s: Seq<Move>,
    p: Position,
    hint: Option<Move>,
    descending: bool,
) -> Seq<Move>
    decreases s.len(),
{
    if s.len() == 0 {
        s
    } else {
        inserted(ordered_moves(s.drop_last(), p, hint, descending), s.last(), p, hint, descending)
    }
}

/// Whether no move of `s` goes before one that precedes it.
pub open spec fn is_ordered(s: Seq<Move>, p: Position, hint: Option<Move>, descending: bool) -> bool {
    forall|a: int, b: int|
        0 <= a < b < s.len() ==> !goes_before(
            order_score(p, #[trigger] s[b], hint),
            order_score(p, #[trigger] s[a], hint),
            descending,
        )
}

/// Putting a move into an ordered sequence keeps it ordered, and adds that
/// move and no other.
pub proof fn lemma_inserted(s: Seq<Move>, m: Move, p: Position, hint: Option<Move>, descending: bool)
    requires
        is_ordered(s, p, hint, descending),
    ensures
        is_ordered(inserted(s, m, p, hint, descending), p, hint, descending),
        inserted(s, m, p, hint, descending).len() == s.len() + 1,
        inserted(s, m, p, hint, descending).to_multiset() == s.to_multiset().insert(m),
    decreases s.len(),
{
    let r = inserted(s, m, p, hint, descending);
    if s.len() > 0 && goes_before(
        order_score(p, m, hint),
        order_score(p, s.last(), hint),
        descending,
    ) {
        let front = s.drop_last();
        assert forall|a: int, b: int| 0 <= a < b < front.len() implies !goes_before(
            order_score(p, #[trigger] front[b], hint),
            order_score(p, #[trigger] front[a], hint),
            descending,
        ) by {
            assert(front[a] == s[a] && front[b] == s[b]);
        }
        lemma_inserted(front, m, p, hint, descending);
        let inner = inserted(front, m, p, hint, descending);
        to_multiset_build(inner, s.last());
        to_multiset_build(front, s.last());
        assert(front.push(s.last()) =~= s);
        assert(r.to_multiset() =~= s.to_multiset().insert(m));
        assert forall|a: int, b: int| 0 <= a < b < r.len() implies !goes_before(
            order_score(p, #[trigger] r[b], hint),
            order_score(p, #[trigger] r[a], hint),
            descending,
        ) by {
            if b < inner.len() {
                assert(r[a] == inner[a] && r[b] == inner[b]);
            } else {
                assert(r[b] == s.last());
                assert(r[a] == inner[a]);
                to_multiset_contains(inner, inner[a]);
                to_multiset_contains(front, inner[a]);
                if inner[a] != m {
                    assert(front.contains(inner[a]));
                    let k = choose|k: int| 0 <= k < front.len() && front[k] == inner[a];
                    assert(s[k] == inner[a]);
                    assert(s[s.len() - 1] == s.last());
                }
            }
        }
    } else {
        to_multiset_build(s, m);
        assert forall|a: int, b: int| 0 <= a < b < r.len() implies !goes_before(
            order_score(p, #[trigger] r[b], hint),
            order_score(p, #[trigger] r[a], hint),
            descending,
        ) by {
            if b < s.len() {
                assert(r[a] == s[a] && r[b] == s[b]);
            } else {
                assert(r[b] == m);
                assert(r[a] == s[a]);
                if a < s.len() - 1 {
                    assert(s[s.len() - 1] == s.last());
                }
            }
        }
    }
}

/// The ordered moves are the same moves, each as often as before, and no
/// move among them goes before one that precedes it.
pub proof fn lemma_ordered_moves(s: Seq<Move>, p: Position, hint: Option<Move>, descending: bool)
    ensures
        is_ordered(ordered_moves(s, p, hint, descending), p, hint, descending),
        ordered_moves(s, p, hint, descending).len() == s.len(),
        ordered_moves(s, p, hint, descending).to_multiset() == s.to_multiset(),
        forall|m: Move| ordered_moves(s, p, hint, descending).contains(m) <==> s.contains(m),
    decreases s.len(),
{
    let r = ordered_moves(s, p, hint, descending);
    if s.len() > 0 {
        let front = s.drop_last();
        lemma_ordered_moves(front, p, hint, descending);
        lemma_inserted(ordered_moves(front, p, hint, descending), s.last(), p, hint, descending);
        to_multiset_build(front, s.last());
        assert(front.push(s.last()) =~= s);
    }
    assert forall|m: Move| r.contains(m) <==> s.contains(m) by {
        to_multiset_contains(r, m);
        to_multiset_contains(s, m);
    }
}

/// Moves of equal score keep their order: for every score, the moves of
/// that score stand in the ordered sequence as they stood before.
pub proof fn law_order_is_stable(
    s: Seq<Move>,
    p: Position,
    hint: Option<Move>,
    descending: bool,
    score: int,
)
    ensures
        ordered_moves(s, p, hint, descending).filter(|m: Move| order_score(p, m, hint) == score)
            == s.filter(|m: Move| order_score(p, m, hint) == score),
    decreases s.len(),
{
    reveal(Seq::filter);
    if s.len() > 0 {
        law_order_is_stable(s.drop_last(), p, hint, descending, score);
        lemma_inserted_is_stable(
            ordered_moves(s.drop_last(), p, hint, descending),
            s.last(),
            p,
            hint,
            descending,
            score,
        );
    }
}

/// Putting a move into a sequence leaves the moves of every score in their
/// order, and puts the move behind those of its own score.
proof fn lemma_inserted_is_stable(
    s: Seq<Move>,
    m: Move,
    p: Position,
    hint: Option<Move>,
    descending: bool,
    score: int,
)
    ensures
        inserted(s, m, p, hint, descending).filter(|x: Move| order_score(p, x, hint) == score)
            == if order_score(p, m, hint) == score {
            s.filter(|x: Move| order_score(p, x, hint) == score).push(m)
        } else {
            s.filter(|x: Move| order_score(p, x, hint) == score)
        },
    decreases s.len(),
{
    reveal(Seq::filter);
    if s.len() > 0 && goes_before(
        order_score(p, m, hint),
        order_score(p, s.last(), hint),
        descending,
    ) {
        let front = s.drop_last();
        lemma_inserted_is_stable(front, m, p, hint, descending, score);
        let inner = inserted(front, m, p, hint, descending);
        assert(inner.push(s.last()).drop_last() =~= inner);
    } else {
        assert(s.push(m).drop_last() =~= s);
    }
}

/// The hinted move is tried first: where the moves are ordered with the
/// highest score first and the hinted move is among them, it stands in front.
pub proof fn law_hint_comes_first(s: Seq<Move>, p: Position, hint: Move)
    requires
        s.contains(hint),
    ensures
        ordered_moves(s, p, Some(hint), true).len() == s.len(),
        ordered_moves(s, p, Some(hint), true)[0] == hint,
{
    let r = ordered_moves(s, p, Some(hint), true);
    lemma_ordered_moves(s, p, Some(hint), true);
    assert(r.contains(hint));
    let k = choose|k: int| 0 <= k < r.len() && r[k] == hint;
    if r[0] != hint {
        law_hint_scores_highest(p, hint, r[0]);
        assert(goes_before(
            order_score(p, r[k], Some(hint)),
            order_score(p, r[0], Some(hint)),
            true,
        ));
    }
}

/// Sorts the list into the order in which its moves are tried: by ordering
/// score, highest first when `descending` and lowest first otherwise, moves of
/// equal score in the order they had. The slots behind the counted moves stay
/// as they are.
pub fn sort_moves(state: &GameState, list: &mut MoveList, tt_hint: Option<Move>, descending: bool)
    requires
        old(list).wf(),
        forall|k: int|
            0 <= k < old(list)@.len() ==> (#[trigger] old(list)@[k]).from < 64 && old(list)@[k].to
                < 64,
    ensures
        final(list).wf(),
        final(list).len == old(list).len,
        final(list)@ == ordered_moves(old(list)@, state@, tt_hint, descending),
        forall|k: int|
            final(list).len <= k < MAX_MOVES ==> final(list).moves@[k] == old(list).moves@[k],
{
    let n = list.len;
    let ghost orig = list@;
    let ghost p = state@;
    if n == 0 {
        return ;
    }
    proof {
        let none = Seq::<Move>::empty();
        assert(orig.subrange(0, 1).drop_last() =~= none);
        assert(ordered_moves(none, p, tt_hint, descending) =~= none);
        assert(inserted(none, orig[0], p, tt_hint, descending) =~= seq![orig[0]]);
        assert(list.moves@.subrange(0, 1) =~= seq![orig[0]]);
        assert forall|k: int| 0 <= k < n implies (#[trigger] list.moves@[k]).from < 64
            && list.moves@[k].to < 64 by {
            assert(list.moves@[k] == list@[k]);
        }
        assert forall|k: int| 1 <= k < n implies list.moves@[k] == orig[k] by {
            assert(list.moves@[k] == list@[k]);
        }
    }
    let mut i: usize = 1;
    while i < n
        invariant
            1 <= i <= n <= 218,
            list.len == n,
            orig.len() == n,
            p == state@,
            list.moves@.subrange(0, i as int) == ordered_moves(
                orig.subrange(0, i as int),
                p,
                tt_hint,
                descending,
            ),
            forall|k: int| i <= k < n ==> list.moves@[k] == orig[k],
            forall|k: int| n <= k < MAX_MOVES ==> list.moves@[k] == old(list).moves@[k],
            forall|k: int|
                0 <= k < n ==> (#[trigger] list.moves@[k]).from < 64 && list.moves@[k].to < 64,
        decreases n - i,
    {
        let key = list.moves[i];
        let key_h = move_heuristic(state, key, tt_hint);
        let ghost before = list.moves@;
        let ghost sorted = before.subrange(0, i as int);
        let mut j: usize = i;
        let mut placed = false;
        proof {
            assert(sorted.subrange(0, i as int) =~= sorted);
            assert(before.subrange(i as int, i as int) =~= Seq::<Move>::empty());
            assert(inserted(sorted, key, p, tt_hint, descending) + Seq::<Move>::empty()
                =~= inserted(sorted, key, p, tt_hint, descending));
        }
        while j > 0 && !placed
            invariant
                0 <= j <= i < n <= 218,
                list.len == n,
                p == state@,
                key_h == order_score(p, key, tt_hint),
                before.len() == 218,
                sorted == before.subrange(0, i as int),
                forall|k: int| 0 <= k < j ==> list.moves@[k] == before[k],
                forall|k: int| j < k <= i ==> list.moves@[k] == before[k - 1],
                forall|k: int| i < k < 218 ==> list.moves@[k] == before[k],
                forall|k: int|
                    0 <= k < n ==> (#[trigger] before[k]).from < 64 && before[k].to < 64,
                inserted(sorted, key, p, tt_hint, descending) == inserted(
                    before.subrange(0, j as int),
                    key,
                    p,
                    tt_hint,
                    descending,
                ) + before.subrange(j as int, i as int),
                placed ==> !goes_before(
                    key_h as int,
                    order_score(p, before[j - 1], tt_hint),
                    descending,
                ),
            decreases j + (if placed { 0int } else { 1int }),
        {
            let prev = list.moves[j - 1];
            assert(prev == before[j - 1]);
            let prev_h = move_heuristic(state, prev, tt_hint);
            let swap = if descending {
                key_h > prev_h
            } else {
                key_h < prev_h
            };
            if swap {
                list.moves[j] = prev;
                proof {
                    let head = before.subrange(0, j as int);
                    assert(head.last() == prev);
                    assert(head.drop_last() =~= before.subrange(0, j - 1));
                    assert(inserted(before.subrange(0, j - 1), key, p, tt_hint, descending).push(
                        prev,
                    ) + before.subrange(j as int, i as int) =~= inserted(
                        before.subrange(0, j - 1),
                        key,
                        p,
                        tt_hint,
                        descending,
                    ) + before.subrange(j - 1, i as int));
                }
                j -= 1;
            } else {
                placed = true;
            }
        }
        list.moves[j] = key;
        proof {
            let head = before.subrange(0, j as int);
            if j > 0 {
                assert(head.last() == before[j - 1]);
            }
            assert(inserted(head, key, p, tt_hint, descending) == head.push(key));
            assert(list.moves@.subrange(0, i + 1) =~= head.push(key) + before.subrange(
                j as int,
                i as int,
            ));
            assert(orig.subrange(0, i + 1).drop_last() =~= orig.subrange(0, i as int));
            assert(orig.subrange(0, i + 1).last() == key);
            assert forall|k: int| 0 <= k < n implies (#[trigger] list.moves@[k]).from < 64
                && list.moves@[k].to < 64 by {
                if k < j {
                    assert(list.moves@[k] == before[k]);
                } else if k == j {
                    assert(key == before[i as int]);
                } else if k <= i {
                    assert(list.moves@[k] == before[k - 1]);
                } else {
                    assert(list.moves@[k] == before[k]);
                }
            }
        }
        i += 1;
    }
    proof {
        assert(orig.subrange(0, n as int) =~= orig);
    }
}

} // verus!
