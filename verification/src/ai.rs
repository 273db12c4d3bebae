//! The search: iterative deepening over an alpha-beta search with a
//! transposition table, move ordering and a node budget.
use vstd::prelude::*;
use crate::apply::apply_move;
use crate::book::{book_answer, book_move};
use crate::attack::in_check;
use crate::eval::{evaluate, evaluation, law_evaluation_is_bounded, terminal_score, terminal_value,
    MATE_SCORE};
use crate::movegen::legal_moves;
use crate::ordering::{lemma_ordered_moves, ordered_moves, sort_moves};
use crate::move_list::MoveList;
use crate::position::{GameState, Position};
use crate::quiescence::{quiesce, quiesce_model};
use crate::soundness::lemma_legal_ok;
use crate::table::{Bound, SearchCtx, SearchState, TtEntry, NEG_INF, POS_INF};
use crate::types::{Color, Move};
use crate::zobrist::{position_hash, zobrist};

verus! {

/// The least search depth.
pub const MIN_DEPTH: u8 = 1;

/// The greatest search depth.
pub const MAX_DEPTH: u8 = 8;

/// How far and how long a search may go.
#[derive(Clone, Copy, Debug)]
pub struct AiConfig {
    /// The depth, in plies, up to which the search deepens. It is taken into
    /// the range from `MIN_DEPTH` to `MAX_DEPTH`.
    pub max_depth: u8,
    /// The number of nodes after which the search stops, if there is one.
    pub node_limit: Option<u32>,
}

impl Default for AiConfig {
    fn default() -> (cfg: AiConfig)
        ensures
            cfg.max_depth == 6,
            cfg.node_limit == Some(20_000u32),
    {
        AiConfig { max_depth: 6, node_limit: Some(20_000) }
    }
}

/// The depth to which a search with `cfg` deepens.
pub open spec fn depth_limit(cfg: AiConfig) -> u8 {
    if cfg.max_depth < MIN_DEPTH {
        MIN_DEPTH
    } else if cfg.max_depth > MAX_DEPTH {
        MAX_DEPTH
    } else {
        cfg.max_depth
    }
}

/// What a node knows while it walks its moves: its window, the best score
/// so far and the move that gave it.
pub struct Frame {
    pub alpha: i32,
    pub beta: i32,
    pub best: i32,
    pub best_move: Option<Move>,
}

/// The window with which a node goes on after it has looked itself up in
/// the table, and the score with which it returns at once, if it does.
///
/// Only an entry searched at least as deep as `depth` counts. An exact entry
/// is returned. A lower bound raises `alpha`, an upper bound lowers `beta`;
/// where the window is then empty, the entry's score is returned.
pub open spec fn probe_window(entry: Option<TtEntry>, depth: u8, alpha: i32, beta: i32) -> (
    i32,
    i32,
    Option<i32>,
) {
    match entry {
        Some(e) => if e.depth >= depth {
            match e.flag {
                Bound::Exact => (alpha, beta, Some(e.value)),
                Bound::Lower => {
                    let a = if e.value > alpha {
                        e.value
                    } else {
                        alpha
                    };
                    (a, beta, if a >= beta {
                        Some(e.value)
                    } else {
                        None
                    })
                },
                Bound::Upper => {
                    let b = if e.value < beta {
                        e.value
                    } else {
                        beta
                    };
                    (alpha, b, if alpha >= b {
                        Some(e.value)
                    } else {
                        None
                    })
                },
            }
        } else {
            (alpha, beta, None)
        },
        None => (alpha, beta, None),
    }
}

/// The frame of a node after its move `mv` has scored `score`.
///
/// A score better than the best so far takes its place, with its move. The
/// maximizing side then raises `alpha` to the best score, the other side
/// lowers `beta` to it.
pub open spec fn after_child(f: Frame, mv: Move, score: i32, maximizing: bool) -> Frame {
    if maximizing {
        let improved = score > f.best;
        let best = if improved {
            score
        } else {
            f.best
        };
        Frame {
            alpha: if best > f.alpha {
                best
            } else {
                f.alpha
            },
            beta: f.beta,
            best,
            best_move: if improved {
                Some(mv)
            } else {
                f.best_move
            },
        }
    } else if score < f.best {
        Frame {
            alpha: f.alpha,
            beta: if score < f.beta {
                score
            } else {
                f.beta
            },
            best: score,
            best_move: Some(mv),
        }
    } else {
        f
    }
}

/// How the score `best` of a node relates to the window it was given.
pub open spec fn bound_of(best: i32, alpha: i32, beta: i32) -> Bound {
    if best <= alpha {
        Bound::Upper
    } else if best >= beta {
        Bound::Lower
    } else {
        Bound::Exact
    }
}

/// The result of the alpha-beta search of `p` for `ai` to the given depth
/// within the window `alpha..beta`, and the search state it leaves.
///
/// The node is counted. With the budget used up, the result is the static
/// evaluation. Else the table is asked (`probe_window`). At depth zero the
/// quiescence search takes over. A position without legal moves has its
/// terminal value. Otherwise the legal moves are walked in move order, the
/// table's move first, and the best score is offered to the table.
pub open spec fn alphabeta_model(
    p: Position,
    ai: Color,
    depth: u8,
    alpha: i32,
    beta: i32,
    s: SearchState,
) -> (i32, SearchState)
    decreases depth, 1int, 0int,
{
    let s1 = s.bumped();
    let hash = position_hash(p);
    let w = probe_window(s1.probe(hash), depth, alpha, beta);
    if s1.limit_hit() {
        (evaluation(p, ai) as i32, s1)
    } else if w.2 is Some {
        (w.2->0, s1)
    } else if depth == 0 {
        quiesce_model(p, ai, w.0, w.1, s1)
    } else if legal_moves(p).len() == 0 {
        (terminal_value(p, ai) as i32, s1)
    } else {
        let maximizing = p.side_to_move == ai;
        let ordered = ordered_moves(legal_moves(p), p, s1.hint(hash), maximizing);
        let start = Frame {
            alpha: w.0,
            beta: w.1,
            best: if maximizing {
                NEG_INF
            } else {
                POS_INF
            },
            best_move: None,
        };
        let r = children_model(p, ai, depth, ordered, 0, maximizing, start, s1);
        (
            r.0.best,
            r.1.stored(hash, depth, r.0.best, bound_of(r.0.best, alpha, beta), r.0.best_move),
        )
    }
}

/// The frame and the search state of a node after it has walked `moves`
/// from the `i`-th on.
///
/// Each legal move is searched one ply less deep with the window of the
/// frame. The walk ends behind the first move after which the window is empty
/// or the node budget is used up.
pub open spec fn children_model(
    p: Position,
    ai: Color,
    depth: u8,
    moves: Seq<Move>,
    i: int,
    maximizing: bool,
    f: Frame,
    s: SearchState,
) -> (Frame, SearchState)
    decreases depth, 0int, moves.len() - i,
{
    if depth == 0 || i < 0 || i >= moves.len() {
        (f, s)
    } else {
        let r = if legal_moves(p).contains(moves[i]) {
            let child = alphabeta_model(
                apply_move(p, moves[i]),
                ai,
                (depth - 1) as u8,
                f.alpha,
                f.beta,
                s,
            );
            (after_child(f, moves[i], child.0, maximizing), child.1)
        } else {
            (f, s)
        };
        if r.0.beta <= r.0.alpha || r.1.limit_hit() {
            r
        } else {
            children_model(p, ai, depth, moves, i + 1, maximizing, r.0, r.1)
        }
    }
}

/// A position without legal moves scores its terminal value: the mate
/// score against the side that is mated, nothing for a stalemate. This holds
/// at every depth with the full window, where counting the node does not use
/// up the budget and the table holds nothing for the position.
pub proof fn law_terminal_position_scores(p: Position, ai: Color, depth: u8, s: SearchState)
    requires
        p.board.len() == 64,
        legal_moves(p).len() == 0,
        !s.bumped().limit_hit(),
        s.bumped().probe(position_hash(p)) is None,
    ensures
        alphabeta_model(p, ai, depth, NEG_INF, POS_INF, s) == (
            terminal_value(p, ai) as i32,
            s.bumped(),
        ),
        in_check(p, p.side_to_move) && p.side_to_move != ai ==> alphabeta_model(
            p,
            ai,
            depth,
            NEG_INF,
            POS_INF,
            s,
        ).0 == MATE_SCORE,
        !in_check(p, p.side_to_move) ==> alphabeta_model(p, ai, depth, NEG_INF, POS_INF, s).0 == 0,
{
    law_evaluation_is_bounded(p, ai);
}

/// Looks the node up in the table.
fn probe_cut(ctx: &SearchCtx, hash: u64, depth: u8, alpha: i32, beta: i32) -> (w: (
    i32,
    i32,
    Option<i32>,
))
    ensures
        w == probe_window(ctx@.probe(hash), depth, alpha, beta),
        ctx@.sound() && beta > NEG_INF ==> w.1 > NEG_INF && (w.2 matches Some(v) ==> v > NEG_INF),
{
    let mut alpha = alpha;
    let mut beta = beta;
    if let Some(entry) = ctx.tt_probe(hash) {
        if entry.depth >= depth {
            match entry.flag {
                Bound::Exact => {
                    return (alpha, beta, Some(entry.value));
                },
                Bound::Lower => {
                    if entry.value > alpha {
                        alpha = entry.value;
                    }
                },
                Bound::Upper => {
                    if entry.value < beta {
                        beta = entry.value;
                    }
                },
            }
            if alpha >= beta {
                return (alpha, beta, Some(entry.value));
            }
        }
    }
    (alpha, beta, None)
}

/// The move that the table suggests for the position with this hash.
fn table_hint(ctx: &SearchCtx, hash: u64) -> (hint: Option<Move>)
    ensures
        hint == ctx@.hint(hash),
{
    match ctx.tt_probe(hash) {
        Some(entry) => entry.best_move,
        None => None,
    }
}

/// Searches `state` for `ai_color` to the given depth within the window
/// `alpha..beta`, and gives its score.
///
/// The node is counted on entry. With a budget, the count ends at most one
/// above the budget, or one above where it was if that was beyond the budget;
/// a search that starts below the budget ends within it.
pub fn alphabeta(
    state: &GameState,
    ai_color: Color,
    depth: u8,
    alpha: i32,
    beta: i32,
    ctx: &mut SearchCtx,
) -> (score: i32)
    ensures
        (score, final(ctx)@) == alphabeta_model(
            state@,
            ai_color,
            depth,
            alpha,
            beta,
            old(ctx)@,
        ),
        final(ctx).node_limit == old(ctx).node_limit,
        old(ctx)@.sound() && beta > NEG_INF ==> score > NEG_INF && final(ctx)@.sound(),
        final(ctx).nodes >= old(ctx).nodes,
        old(ctx).nodes < u32::MAX ==> final(ctx).nodes > old(ctx).nodes,
        old(ctx).node_limit matches Some(limit) ==> final(ctx).nodes <= (if old(ctx).nodes
            > limit {
            old(ctx).nodes
        } else {
            limit
        }) + 1,
        old(ctx).node_limit matches Some(limit) ==> old(ctx).nodes < limit ==> final(ctx).nodes
            <= limit,
    decreases depth,
{
    let ghost p = state@;
    let ghost healthy = old(ctx)@.sound() && beta > NEG_INF;
    ctx.bump();
    if ctx.hit_limit() {
        return evaluate(state, ai_color);
    }
    let hash = zobrist(state);
    let w = probe_cut(ctx, hash, depth, alpha, beta);
    if let Some(value) = w.2 {
        return value;
    }
    if depth == 0 {
        return quiesce(state, ai_color, w.0, w.1, ctx);
    }
    let mut moves = state.generate_legal_moves();
    if moves.len == 0 {
        return terminal_score(state, ai_color);
    }
    let tt_hint = table_hint(ctx, hash);
    let maximizing = state.side_to_move == ai_color;
    proof {
        assert forall|k: int| 0 <= k < moves@.len() implies (#[trigger] moves@[k]).from < 64
            && moves@[k].to < 64 by {
            lemma_legal_ok(p, moves@[k]);
        }
    }
    proof {
        lemma_ordered_moves(legal_moves(p), p, tt_hint, maximizing);
    }
    sort_moves(state, &mut moves, tt_hint, maximizing);
    let mut f_alpha = w.0;
    let mut f_beta = w.1;
    let mut best = if maximizing {
        NEG_INF
    } else {
        POS_INF
    };
    let mut best_move: Option<Move> = None;
    let ghost goal = children_model(
        p,
        ai_color,
        depth,
        moves@,
        0,
        maximizing,
        Frame { alpha: f_alpha, beta: f_beta, best, best_move },
        ctx@,
    );
    let mut i: usize = 0;
    while i < moves.len
        invariant_except_break
            children_model(
                p,
                ai_color,
                depth,
                moves@,
                i as int,
                maximizing,
                Frame { alpha: f_alpha, beta: f_beta, best, best_move },
                ctx@,
            ) == goal,
            !ctx@.limit_hit(),
        invariant
            i <= moves.len,
            moves.wf(),
            moves.len > 0,
            depth > 0,
            p == state@,
            ctx.node_limit == old(ctx).node_limit,
            forall|k: int| 0 <= k < moves@.len() ==> legal_moves(p).contains(#[trigger] moves@[k]),
            healthy ==> ctx@.sound() && f_beta > NEG_INF,
            healthy && (i > 0 || !maximizing) ==> best > NEG_INF,
            ctx.nodes >= old(ctx).nodes,
            old(ctx).nodes < u32::MAX ==> ctx.nodes > old(ctx).nodes,
            old(ctx).node_limit matches Some(limit) ==> ctx.nodes <= limit,
        ensures
            (Frame { alpha: f_alpha, beta: f_beta, best, best_move }, ctx@) == goal,
            healthy ==> best > NEG_INF,
        decreases moves.len - i,
    {
        let mv = moves.get(i);
        assert(legal_moves(p).contains(moves@[i as int]));
        if let Some(next) = state.make_move(mv) {
            let score = alphabeta(&next, ai_color, depth - 1, f_alpha, f_beta, ctx);
            if maximizing {
                if score > best {
                    best = score;
                    best_move = Some(mv);
                }
                if best > f_alpha {
                    f_alpha = best;
                }
            } else if score < best {
                best = score;
                best_move = Some(mv);
                if best < f_beta {
                    f_beta = best;
                }
            }
        }
        if f_beta <= f_alpha || ctx.hit_limit() {
            break ;
        }
        i += 1;
    }
    let flag = if best <= alpha {
        Bound::Upper
    } else if best >= beta {
        Bound::Lower
    } else {
        Bound::Exact
    };
    ctx.tt_store(hash, depth, best, flag, best_move);
    best
}

/// The best root move so far, its score, and the search state, after the
/// root has walked `moves` from the `i`-th on at one depth.
///
/// Each legal move counts one node. With that node the budget may be used
/// up: the move then scores the static evaluation of the position it leads
/// to. Else it is searched one ply less deep with the full window. A move
/// that scores above the best score so far becomes the best move. The walk
/// ends behind the first move after which the node budget is used up.
pub open spec fn root_moves_model(
    p: Position,
    ai: Color,
    depth: u8,
    moves: Seq<Move>,
    i: int,
    best: Option<Move>,
    best_score: i32,
    s: SearchState,
) -> (Option<Move>, i32, SearchState)
    decreases moves.len() - i,
{
    if depth == 0 || i < 0 || i >= moves.len() {
        (best, best_score, s)
    } else {
        let r = if legal_moves(p).contains(moves[i]) {
            let child = if s.bumped().limit_hit() {
                (evaluation(apply_move(p, moves[i]), ai) as i32, s.bumped())
            } else {
                alphabeta_model(
                    apply_move(p, moves[i]),
                    ai,
                    (depth - 1) as u8,
                    NEG_INF,
                    POS_INF,
                    s.bumped(),
                )
            };
            if child.0 > best_score {
                (Some(moves[i]), child.0, child.1)
            } else {
                (best, best_score, child.1)
            }
        } else {
            (best, best_score, s)
        };
        if r.2.limit_hit() {
            r
        } else {
            root_moves_model(p, ai, depth, moves, i + 1, r.0, r.1, r.2)
        }
    }
}

/// The move chosen by iterative deepening from `depth` up to `limit`, and
/// the search state it leaves.
///
/// At each depth the root moves are put in move order, the table's move
/// first, and walked (`root_moves_model`) starting from the best move of the
/// depth before; the best move after the walk is the best move of this depth.
/// Deepening ends at `limit`, or when the node budget is used up.
pub open spec fn deepen_model(
    p: Position,
    ai: Color,
    limit: u8,
    depth: u8,
    moves: Seq<Move>,
    best: Option<Move>,
    s: SearchState,
) -> (Option<Move>, SearchState)
    decreases limit - depth,
{
    if depth == 0 || depth > limit {
        (best, s)
    } else {
        let ordered = ordered_moves(moves, p, s.hint(position_hash(p)), true);
        let r = root_moves_model(p, ai, depth, ordered, 0, best, NEG_INF, s);
        if r.2.limit_hit() || depth == limit {
            (r.0, r.2)
        } else {
            deepen_model(p, ai, limit, (depth + 1) as u8, ordered, r.0, r.2)
        }
    }
}

/// The move that `choose_best_move` gives in position `p` for `ai` with
/// configuration `cfg`.
///
/// None if `ai` is not to move. Else the book's answer, if it has one. Else
/// none if there is no legal move. Otherwise what iterative deepening over the
/// legal moves chooses, from depth one to the configured depth, starting with
/// an empty table and no node counted.
pub open spec fn best_move_model(p: Position, ai: Color, cfg: AiConfig) -> Option<Move> {
    if p.side_to_move != ai {
        None
    } else if book_answer(p) is Some {
        book_answer(p)
    } else if legal_moves(p).len() == 0 {
        None
    } else {
        deepen_model(
            p,
            ai,
            depth_limit(cfg),
            1,
            legal_moves(p),
            None,
            SearchState::fresh(cfg.node_limit),
        ).0
    }
}

/// Deepens the search of `state` for `ai_color` from depth one up to
/// `limit`, calling `tick` before each depth and before each root move.
///
/// `moves` holds the legal moves of `state`. With a sound table the result
/// is one of these moves. With a node budget, the count of nodes ends at most
/// one above the budget, or one above where it was if that was beyond the
/// budget.
pub fn deepen<F: FnMut()>(
    state: &GameState,
    ai_color: Color,
    limit: u8,
    moves: MoveList,
    ctx: &mut SearchCtx,
    tick: &mut F,
) -> (best: Option<Move>)
    requires
        1 <= limit,
        moves.wf(),
        moves@.len() > 0,
        moves@ == legal_moves(state@),
        call_requires(*old(tick), ()),
    ensures
        (best, final(ctx)@) == deepen_model(
            state@,
            ai_color,
            limit,
            1,
            legal_moves(state@),
            None,
            old(ctx)@,
        ),
        old(ctx)@.sound() ==> best is Some && final(ctx)@.sound(),
        best matches Some(m) ==> legal_moves(state@).contains(m),
        final(ctx).node_limit == old(ctx).node_limit,
        final(ctx).nodes >= old(ctx).nodes,
        old(ctx).node_limit matches Some(budget) ==> final(ctx).nodes <= (if old(ctx).nodes
            > budget {
            old(ctx).nodes
        } else {
            budget
        }) + 1,
        old(ctx).node_limit matches Some(budget) ==> old(ctx).nodes < budget ==> final(ctx).nodes
            <= budget,
{
    let ghost p = state@;
    let ghost healthy = old(ctx)@.sound();
    let ghost goal = deepen_model(p, ai_color, limit, 1, legal_moves(p), None, ctx@);
    let mut moves = moves;
    let mut best: Option<Move> = None;
    let mut depth: u8 = 1;
    loop
        invariant_except_break
            1 <= depth <= limit,
            deepen_model(p, ai_color, limit, depth, moves@, best, ctx@) == goal,
            depth > 1 ==> !ctx@.limit_hit(),
            depth == 1 ==> ctx.nodes == old(ctx).nodes,
            healthy && depth > 1 ==> best is Some,
        invariant
            p == state@,
            moves.wf(),
            moves@.len() > 0,
            forall|k: int| 0 <= k < moves@.len() ==> legal_moves(p).contains(#[trigger] moves@[k]),
            call_requires(*tick, ()),
            ctx.node_limit == old(ctx).node_limit,
            healthy ==> ctx@.sound(),
            best matches Some(m) ==> legal_moves(p).contains(m),
            ctx.nodes >= old(ctx).nodes,
            old(ctx).node_limit matches Some(budget) ==> ctx.nodes <= old(ctx).nodes + 1
                || ctx.nodes <= budget,
            old(ctx).node_limit matches Some(budget) ==> old(ctx).nodes < budget ==> ctx.nodes
                <= budget,
        ensures
            (best, ctx@) == goal,
            healthy ==> best is Some,
        decreases limit - depth,
    {
        tick();
        let hash = zobrist(state);
        let tt_hint = table_hint(ctx, hash);
        proof {
            assert forall|k: int| 0 <= k < moves@.len() implies (#[trigger] moves@[k]).from < 64
                && moves@[k].to < 64 by {
                lemma_legal_ok(p, moves@[k]);
            }
            lemma_ordered_moves(moves@, p, tt_hint, true);
        }
        let ghost unsorted = moves@;
        sort_moves(state, &mut moves, tt_hint, true);
        proof {
            assert forall|k: int| 0 <= k < moves@.len() implies legal_moves(p).contains(
                #[trigger] moves@[k],
            ) by {
                assert(moves@.contains(moves@[k]));
                assert(unsorted.contains(moves@[k]));
                let j = choose|j: int| 0 <= j < unsorted.len() && unsorted[j] == moves@[k];
                assert(legal_moves(p).contains(unsorted[j]));
            }
        }
        let ghost start_best = best;
        let ghost walk = root_moves_model(p, ai_color, depth, moves@, 0, best, NEG_INF, ctx@);
        let ghost first_depth = depth == 1;
        let mut local_best = best;
        let mut local_best_score = NEG_INF;
        let mut i: usize = 0;
        while i < moves.len
            invariant_except_break
                root_moves_model(
                    p,
                    ai_color,
                    depth,
                    moves@,
                    i as int,
                    local_best,
                    local_best_score,
                    ctx@,
                ) == walk,
                i > 0 ==> !ctx@.limit_hit(),
                first_depth && i == 0 ==> ctx.nodes == old(ctx).nodes,
                !first_depth && i == 0 ==> !ctx@.limit_hit(),
                healthy && (i > 0 || start_best is Some) ==> local_best is Some,
            invariant
                i <= moves.len,
                moves.wf(),
                moves@.len() > 0,
                1 <= depth,
                p == state@,
                forall|k: int|
                    0 <= k < moves@.len() ==> legal_moves(p).contains(#[trigger] moves@[k]),
                call_requires(*tick, ()),
                ctx.node_limit == old(ctx).node_limit,
                healthy ==> ctx@.sound(),
                local_best is None ==> local_best_score == NEG_INF,
                local_best matches Some(m) ==> legal_moves(p).contains(m),
                ctx.nodes >= old(ctx).nodes,
                old(ctx).node_limit matches Some(budget) ==> ctx.nodes <= old(ctx).nodes + 1
                    || ctx.nodes <= budget,
                old(ctx).node_limit matches Some(budget) ==> old(ctx).nodes < budget
                    ==> ctx.nodes <= budget,
            ensures
                (local_best, local_best_score, ctx@) == walk,
                healthy ==> local_best is Some,
            decreases moves.len - i,
        {
            let mv = moves.get(i);
            assert(legal_moves(p).contains(moves@[i as int]));
            if let Some(next) = state.make_move(mv) {
                tick();
                ctx.bump();
                assert(healthy ==> ctx@.sound());
                let score = if ctx.hit_limit() {
                    evaluate(&next, ai_color)
                } else {
                    alphabeta(&next, ai_color, depth - 1, NEG_INF, POS_INF, ctx)
                };
                if score > local_best_score {
                    local_best_score = score;
                    local_best = Some(mv);
                }
            }
            if ctx.hit_limit() {
                break ;
            }
            i += 1;
        }
        best = local_best;
        if ctx.hit_limit() || depth == limit {
            break ;
        }
        depth += 1;
    }
    best
}

/// Chooses a move for `ai_color` in `state`.
///
/// There is none if `ai_color` is not to move. The opening book is asked
/// first, and its answer is given as it is recorded. Where it has no answer
/// and there are legal moves, the search deepens from one ply to the
/// configured depth, within the node budget, and gives the best move of the
/// deepest walk that it made; with any budget this is a legal move. `tick` is
/// called before each depth and before each root move.
pub fn choose_best_move<F: FnMut()>(state: &GameState, ai_color: Color, cfg: AiConfig, tick: F) -> (best:
    Option<Move>)
    requires
        call_requires(tick, ()),
    ensures
        best == best_move_model(state@, ai_color, cfg),
        best is Some <==> state@.side_to_move == ai_color && (book_answer(state@) is Some
            || legal_moves(state@).len() > 0),
        book_answer(state@) is Some && state@.side_to_move == ai_color ==> best == book_answer(
            state@,
        ),
        book_answer(state@) is None ==> (best matches Some(m) ==> legal_moves(state@).contains(m)),
{
    if state.side_to_move != ai_color {
        return None;
    }
    if let Some(book_mv) = book_move(state) {
        return Some(book_mv);
    }
    let limit: u8 = if cfg.max_depth < MIN_DEPTH {
        MIN_DEPTH
    } else if cfg.max_depth > MAX_DEPTH {
        MAX_DEPTH
    } else {
        cfg.max_depth
    };
    let moves = state.generate_legal_moves();
    if moves.len == 0 {
        return None;
    }
    let mut ctx = SearchCtx::new(cfg.node_limit);
    let mut tick = tick;
    deepen(state, ai_color, limit, moves, &mut ctx, &mut tick)
}

} // verus!
