//! Quiescence search: at the frontier of the search, captures and promotions
//! are played out before a position is judged.
use vstd::prelude::*;
use crate::apply::{apply_move, captures};
use crate::eval::{evaluate, evaluation, is_capture, terminal_score, terminal_value};
use crate::exchange::{exchange_room, lemma_exchange_uses_room};
use crate::movegen::legal_moves;
use crate::ordering::{lemma_ordered_moves, ordered_moves, sort_moves};
use crate::position::{GameState, Position};
use crate::soundness::lemma_legal_ok;
use crate::table::{SearchCtx, SearchState, NEG_INF};
use crate::types::{Color, Move};

verus! {

/// Whether quiescence search plays `m`: it is a capture or a promotion, and
/// it is legal.
pub open spec fn is_noisy(p: Position, m: Move) -> bool {
    (captures(p, m) || m.promotion is Some) && legal_moves(p).contains(m)
}

/// The better of two scores for the side that chooses: the higher for the
/// maximizing side, the lower for the other.
pub open spec fn better_of(a: i32, b: i32, maximizing: bool) -> i32 {
    if maximizing {
        if b > a {
            b
        } else {
            a
        }
    } else {
        if b < a {
            b
        } else {
            a
        }
    }
}

/// Whether the score `best` reaches the bound of the other side, so that
/// the rest of the moves need not be tried.
pub open spec fn reaches(best: i32, bound: i32, maximizing: bool) -> bool {
    if maximizing {
        best >= bound
    } else {
        best <= bound
    }
}

/// The result of quiescence search on `p` for `ai` within the window
/// `alpha..beta`, and the search state it leaves.
///
/// With the node budget used up, the result is the static evaluation and
/// nothing is tried. Else the side to move may stand pat on the static
/// evaluation. Where the side of `ai` is to move and the evaluation reaches
/// `beta`, the result is `beta`; where the other side is to move and the
/// evaluation is at most `alpha`, the result is `alpha`. A position without
/// legal moves has its terminal value. Otherwise the side to move tries its
/// captures and promotions in move order: the side of `ai` starts from the
/// higher of `alpha` and the evaluation and raises it towards `beta`, the
/// other side starts from the lower of `beta` and the evaluation and lowers it
/// towards `alpha`.
pub open spec fn quiesce_model(p: Position, ai: Color, alpha: i32, beta: i32, s: SearchState) -> (
    i32,
    SearchState,
)
    decreases exchange_room(p), 1int, 0int,
{
    let stand_pat = evaluation(p, ai) as i32;
    let maximizing = p.side_to_move == ai;
    if s.limit_hit() {
        (stand_pat, s)
    } else if maximizing && stand_pat >= beta {
        (beta, s)
    } else if !maximizing && stand_pat <= alpha {
        (alpha, s)
    } else if legal_moves(p).len() == 0 {
        (terminal_value(p, ai) as i32, s)
    } else {
        let ordered = ordered_moves(legal_moves(p), p, None, true);
        if maximizing {
            noisy_moves_model(p, ai, ordered, 0, true, better_of(alpha, stand_pat, true), beta, s)
        } else {
            noisy_moves_model(p, ai, ordered, 0, false, better_of(beta, stand_pat, false), alpha, s)
        }
    }
}

/// The result of trying the captures and promotions among `moves` from the
/// `i`-th on, `best` being the best score so far and `bound` the bound of the
/// other side.
///
/// Each such move counts one node and is searched with the window between
/// `best` and `bound`; with that node the budget may be used up, and the move
/// then scores the static evaluation of the position it leads to. The walk
/// ends behind the first move after which the best score reaches the bound or
/// the node budget is used up.
pub open spec fn noisy_moves_model(
    p: Position,
    ai: Color,
    moves: Seq<Move>,
    i: int,
    maximizing: bool,
    best: i32,
    bound: i32,
    s: SearchState,
) -> (i32, SearchState)
    decreases exchange_room(p), 0int, moves.len() - i,
    when p.board.len() == 64
{
    if i < 0 || i >= moves.len() {
        (best, s)
    } else if is_noisy(p, moves[i]) {
        proof {
            lemma_legal_ok(p, moves[i]);
            lemma_exchange_uses_room(p, moves[i]);
        }
        let child = apply_move(p, moves[i]);
        let r = if maximizing {
            quiesce_model(child, ai, best, bound, s.bumped())
        } else {
            quiesce_model(child, ai, bound, best, s.bumped())
        };
        let better = better_of(best, r.0, maximizing);
        if reaches(better, bound, maximizing) || r.1.limit_hit() {
            (better, r.1)
        } else {
            noisy_moves_model(p, ai, moves, i + 1, maximizing, better, bound, r.1)
        }
    } else {
        noisy_moves_model(p, ai, moves, i + 1, maximizing, best, bound, s)
    }
}

/// Searches the captures and promotions from `state` and scores the quiet
/// position they lead to, for `ai_color` and within the window `alpha..beta`.
///
/// Quiet moves are never tried. The static evaluation stands where no
/// capture or promotion does better for the side to move, and it is the
/// result where the node budget is used up on entry. The count of nodes never
/// falls, and with a budget it ends at most at the budget or where it was.
pub fn quiesce(state: &GameState, ai_color: Color, alpha: i32, beta: i32, ctx: &mut SearchCtx) -> (score:
    i32)
    ensures
        (score, final(ctx)@) == quiesce_model(state@, ai_color, alpha, beta, old(ctx)@),
        final(ctx).node_limit == old(ctx).node_limit,
        final(ctx)@.table == old(ctx)@.table,
        beta > NEG_INF ==> score > NEG_INF,
        final(ctx).nodes >= old(ctx).nodes,
        old(ctx).node_limit matches Some(limit) ==> final(ctx).nodes <= old(ctx).nodes
            || final(ctx).nodes <= limit,
    decreases exchange_room(state@),
{
    let ghost p = state@;
    let stand_pat = evaluate(state, ai_color);
    if ctx.hit_limit() {
        return stand_pat;
    }
    let maximizing = state.side_to_move == ai_color;
    if maximizing {
        if stand_pat >= beta {
            return beta;
        }
    } else {
        if stand_pat <= alpha {
            return alpha;
        }
    }
    let mut moves = state.generate_legal_moves();
    if moves.len == 0 {
        return terminal_score(state, ai_color);
    }
    proof {
        assert forall|k: int| 0 <= k < moves@.len() implies (#[trigger] moves@[k]).from < 64
            && moves@[k].to < 64 by {
            lemma_legal_ok(p, moves@[k]);
        }
        lemma_ordered_moves(legal_moves(p), p, None, true);
    }
    sort_moves(state, &mut moves, None, true);
    let bound = if maximizing {
        beta
    } else {
        alpha
    };
    let mut best = if maximizing {
        if stand_pat > alpha {
            stand_pat
        } else {
            alpha
        }
    } else {
        if stand_pat < beta {
            stand_pat
        } else {
            beta
        }
    };
    let ghost goal = noisy_moves_model(p, ai_color, moves@, 0, maximizing, best, bound, ctx@);
    let mut i: usize = 0;
    while i < moves.len
        invariant_except_break
            noisy_moves_model(p, ai_color, moves@, i as int, maximizing, best, bound, ctx@)
                == goal,
            !ctx@.limit_hit(),
        invariant
            i <= moves.len,
            moves.wf(),
            p == state@,
            forall|k: int| 0 <= k < moves@.len() ==> legal_moves(p).contains(#[trigger] moves@[k]),
            ctx.node_limit == old(ctx).node_limit,
            ctx@.table == old(ctx)@.table,
            beta > NEG_INF ==> best > NEG_INF,
            beta > NEG_INF && maximizing ==> bound > NEG_INF,
            maximizing == (p.side_to_move == ai_color),
            bound == if maximizing {
                beta
            } else {
                alpha
            },
            ctx.nodes >= old(ctx).nodes,
            old(ctx).node_limit matches Some(limit) ==> ctx.nodes <= limit,
        ensures
            (best, ctx@) == goal,
        decreases moves.len - i,
    {
        let mv = moves.get(i);
        proof {
            assert(legal_moves(p).contains(moves@[i as int]));
            lemma_legal_ok(p, mv);
        }
        if is_capture(state, mv) || mv.promotion.is_some() {
            if let Some(next) = state.make_move(mv) {
                proof {
                    lemma_exchange_uses_room(p, mv);
                }
                ctx.bump();
                let score = if maximizing {
                    quiesce(&next, ai_color, best, bound, ctx)
                } else {
                    quiesce(&next, ai_color, bound, best, ctx)
                };
                if maximizing {
                    if score > best {
                        best = score;
                    }
                } else {
                    if score < best {
                        best = score;
                    }
                }
                let reached = if maximizing {
                    best >= bound
                } else {
                    best <= bound
                };
                if reached || ctx.hit_limit() {
                    break ;
                }
            }
        }
        i += 1;
    }
    best
}

} // verus!
