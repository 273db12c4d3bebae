use chess_core::ai::{alphabeta, choose_best_move, deepen, AiConfig};
use chess_core::book::book_move;
use chess_core::eval::{
    evaluate, is_capture, move_heuristic, piece_value, terminal_score, HINT_SCORE, MATE_SCORE,
};
use chess_core::ordering::sort_moves;
use chess_core::quiescence::quiesce;
use chess_core::table::{Bound, SearchCtx, NEG_INF, POS_INF};
use chess_core::zobrist::{piece_index, zobrist, zobrist_key};
use chess_core::{CastlingRights, Color, GameState, Move, MoveList, Piece, PieceKind};

fn board_with(side: Color, pieces: &[(usize, Color, PieceKind)]) -> GameState {
    let mut state = GameState {
        board: [None; 64],
        side_to_move: side,
        castling: CastlingRights::new(),
        en_passant: None,
        halfmove_clock: 0,
        fullmove_number: 1,
    };
    for &(sq, color, kind) in pieces {
        state.board[sq] = Some(Piece { color, kind });
    }
    state
}

fn mate_in_one() -> GameState {
    // White: Kg6, Ra1. Black: Kh8. Ra8 mates.
    board_with(
        Color::White,
        &[
            (46, Color::White, PieceKind::King),
            (0, Color::White, PieceKind::Rook),
            (63, Color::Black, PieceKind::King),
        ],
    )
}

fn stalemate() -> GameState {
    // White: Kf7, Qg6. Black: Kh8, to move.
    board_with(
        Color::Black,
        &[
            (53, Color::White, PieceKind::King),
            (46, Color::White, PieceKind::Queen),
            (63, Color::Black, PieceKind::King),
        ],
    )
}

#[test]
fn zobrist_keys_have_their_known_values() {
    assert_eq!(zobrist_key(0, 0), 0xe4bacea5c4b9b499);
    assert_eq!(zobrist_key(5, 4), 0xe94396bd659c7903);
    assert_eq!(zobrist_key(11, 63), 0x142a9ae94b616eca);
    assert_eq!(piece_index(Color::White, PieceKind::Pawn), 0);
    assert_eq!(piece_index(Color::White, PieceKind::King), 5);
    assert_eq!(piece_index(Color::Black, PieceKind::Pawn), 6);
    assert_eq!(piece_index(Color::Black, PieceKind::King), 11);
}

#[test]
fn zobrist_of_known_positions() {
    assert_eq!(zobrist(&GameState::start_position()), 0xac5648189e0f61b8);
    let kings_black = board_with(
        Color::Black,
        &[(4, Color::White, PieceKind::King), (60, Color::Black, PieceKind::King)],
    );
    assert_eq!(zobrist(&kings_black), 0xa5feab9de03be00c);
    let mut kings_white = kings_black;
    kings_white.side_to_move = Color::White;
    assert_eq!(zobrist(&kings_white), 0x3bc9d2249f719c19);
}

#[test]
fn zobrist_ignores_clocks_and_rights() {
    let a = GameState::start_position();
    let mut b = a;
    b.halfmove_clock = 17;
    b.fullmove_number = 9;
    b.castling = CastlingRights::new();
    assert_eq!(zobrist(&a), zobrist(&b));
}

#[test]
fn piece_values() {
    assert_eq!(piece_value(PieceKind::Pawn), 100);
    assert_eq!(piece_value(PieceKind::Knight), 320);
    assert_eq!(piece_value(PieceKind::Bishop), 330);
    assert_eq!(piece_value(PieceKind::Rook), 500);
    assert_eq!(piece_value(PieceKind::Queen), 900);
    assert_eq!(piece_value(PieceKind::King), 0);
}

#[test]
fn evaluation_of_known_positions() {
    let start = GameState::start_position();
    assert_eq!(evaluate(&start, Color::White), 0);
    assert_eq!(evaluate(&start, Color::Black), 0);
    let queen_up = board_with(
        Color::White,
        &[
            (4, Color::White, PieceKind::King),
            (27, Color::White, PieceKind::Queen),
            (60, Color::Black, PieceKind::King),
        ],
    );
    assert_eq!(evaluate(&queen_up, Color::White), 901);
    assert_eq!(evaluate(&queen_up, Color::Black), -901);
    let check = board_with(
        Color::Black,
        &[
            (4, Color::White, PieceKind::King),
            (28, Color::White, PieceKind::Queen),
            (60, Color::Black, PieceKind::King),
        ],
    );
    assert_eq!(evaluate(&check, Color::White), 931);
    assert_eq!(evaluate(&check, Color::Black), -931);
}

#[test]
fn black_bonus_reads_the_mirrored_square() {
    // A white pawn on d2 and a black pawn on d7 score the same bonus, -5.
    let white = board_with(Color::White, &[(11, Color::White, PieceKind::Pawn)]);
    let black = board_with(Color::White, &[(51, Color::Black, PieceKind::Pawn)]);
    assert_eq!(evaluate(&white, Color::White), 95);
    assert_eq!(evaluate(&black, Color::Black), 95);
    assert_eq!(evaluate(&black, Color::White), -95);
}

#[test]
fn stalemate_scores_zero_and_mate_scores_mate() {
    let stale = stalemate();
    assert_eq!(stale.generate_legal_moves().len, 0);
    assert!(!stale.is_in_check(Color::Black));
    assert_eq!(terminal_score(&stale, Color::White), 0);
    assert_eq!(terminal_score(&stale, Color::Black), 0);

    let mated = mate_in_one().make_move(Move::quiet(0, 56)).unwrap();
    assert_eq!(mated.generate_legal_moves().len, 0);
    assert!(mated.is_in_check(Color::Black));
    assert_eq!(terminal_score(&mated, Color::White), MATE_SCORE);
    assert_eq!(terminal_score(&mated, Color::Black), -MATE_SCORE);
    assert_eq!(MATE_SCORE, 30_000);
}

#[test]
fn move_heuristic_values() {
    let state = board_with(
        Color::White,
        &[
            (4, Color::White, PieceKind::King),
            (60, Color::Black, PieceKind::King),
            (28, Color::White, PieceKind::Pawn),
            (35, Color::Black, PieceKind::Queen),
            (37, Color::Black, PieceKind::Pawn),
            (48, Color::White, PieceKind::Pawn),
            (0, Color::White, PieceKind::Rook),
            (56, Color::Black, PieceKind::Rook),
        ],
    );
    let takes_queen = Move::quiet(28, 35);
    let takes_pawn = Move::quiet(28, 37);
    let rook_takes_rook = Move::quiet(0, 56);
    let quiet = Move::quiet(28, 36);
    assert_eq!(move_heuristic(&state, takes_queen, None), 8900);
    assert_eq!(move_heuristic(&state, takes_pawn, None), 900);
    assert_eq!(move_heuristic(&state, rook_takes_rook, None), 4500);
    assert_eq!(move_heuristic(&state, quiet, None), 0);
    assert_eq!(move_heuristic(&state, quiet, Some(quiet)), 20_000);
    assert_eq!(HINT_SCORE, 20_000);
    assert_eq!(move_heuristic(&state, takes_queen, Some(quiet)), 8900);
    let promote = Move {
        from: 48,
        to: 56,
        promotion: Some(PieceKind::Queen),
        is_en_passant: false,
        is_castling: false,
    };
    // pawn takes rook and promotes: 5000 - 100 + 900 + 400
    assert_eq!(move_heuristic(&state, promote, None), 6200);
    let under = Move { promotion: Some(PieceKind::Knight), to: 57, ..promote };
    assert_eq!(move_heuristic(&state, under, None), 720);
    let en_passant = Move {
        from: 28,
        to: 37,
        promotion: None,
        is_en_passant: true,
        is_castling: false,
    };
    assert_eq!(move_heuristic(&state, en_passant, None), 800);
    let castle = Move {
        from: 4,
        to: 6,
        promotion: None,
        is_en_passant: false,
        is_castling: true,
    };
    assert_eq!(move_heuristic(&state, castle, None), 50);
    assert!(is_capture(&state, takes_queen));
    assert!(is_capture(&state, en_passant));
    assert!(!is_capture(&state, quiet));
}

#[test]
fn sort_moves_is_stable_and_ordered() {
    let state = board_with(
        Color::White,
        &[
            (4, Color::White, PieceKind::King),
            (60, Color::Black, PieceKind::King),
            (28, Color::White, PieceKind::Pawn),
            (35, Color::Black, PieceKind::Queen),
            (37, Color::Black, PieceKind::Pawn),
        ],
    );
    let quiet_a = Move::quiet(4, 5);
    let quiet_b = Move::quiet(4, 3);
    let takes_pawn = Move::quiet(28, 37);
    let takes_queen = Move::quiet(28, 35);
    let input = [quiet_a, takes_pawn, quiet_b, takes_queen];
    let mut list = MoveList::new();
    for (i, mv) in input.iter().enumerate() {
        list.moves[i] = *mv;
    }
    list.len = 4;
    let mut down = list;
    sort_moves(&state, &mut down, None, true);
    let got: Vec<Move> = down.iter().copied().collect();
    assert_eq!(got, vec![takes_queen, takes_pawn, quiet_a, quiet_b]);
    let mut up = list;
    sort_moves(&state, &mut up, None, false);
    let got: Vec<Move> = up.iter().copied().collect();
    assert_eq!(got, vec![quiet_a, quiet_b, takes_pawn, takes_queen]);
    let mut hinted = list;
    sort_moves(&state, &mut hinted, Some(quiet_b), true);
    let got: Vec<Move> = hinted.iter().copied().collect();
    assert_eq!(got, vec![quiet_b, takes_queen, takes_pawn, quiet_a]);
    let mut none = MoveList::new();
    sort_moves(&state, &mut none, None, true);
    assert_eq!(none.len, 0);
}

#[test]
fn table_keeps_the_deeper_entry() {
    let mut ctx = SearchCtx::new(Some(3));
    assert!(ctx.tt_probe(77).is_none());
    ctx.tt_store(77, 3, 120, Bound::Lower, Some(Move::quiet(1, 2)));
    let held = ctx.tt_probe(77).unwrap();
    assert_eq!((held.key, held.depth, held.value), (77, 3, 120));
    assert_eq!(held.flag, Bound::Lower);
    assert_eq!(held.best_move, Some(Move::quiet(1, 2)));
    // shallower result for the same key: refused
    ctx.tt_store(77, 2, -5, Bound::Exact, None);
    assert_eq!(ctx.tt_probe(77).unwrap().value, 120);
    // as deep: taken
    ctx.tt_store(77, 3, 9, Bound::Upper, None);
    assert_eq!(ctx.tt_probe(77).unwrap().value, 9);
    assert_eq!(ctx.tt_probe(77).unwrap().flag, Bound::Upper);
    // another key in the same slot replaces whatever the depth
    ctx.tt_store(77 + 1024, 0, 1, Bound::Exact, None);
    assert!(ctx.tt_probe(77).is_none());
    assert_eq!(ctx.tt_probe(77 + 1024).unwrap().value, 1);
    // the empty slot answers for key 0
    assert_eq!(ctx.tt_probe(0).unwrap().value, 0);
}

#[test]
fn node_counter_and_budget() {
    let mut ctx = SearchCtx::new(Some(2));
    assert!(!ctx.hit_limit());
    ctx.bump();
    assert!(!ctx.hit_limit());
    ctx.bump();
    assert!(ctx.hit_limit());
    assert_eq!(ctx.nodes, 2);
    let mut free = SearchCtx::new(None);
    free.nodes = u32::MAX;
    free.bump();
    assert_eq!(free.nodes, u32::MAX);
    assert!(!free.hit_limit());
    let zero = SearchCtx::new(Some(0));
    assert!(zero.hit_limit());
}

#[test]
fn alphabeta_over_budget_returns_static_evaluation() {
    let state = board_with(
        Color::White,
        &[
            (4, Color::White, PieceKind::King),
            (27, Color::White, PieceKind::Queen),
            (60, Color::Black, PieceKind::King),
        ],
    );
    let mut ctx = SearchCtx::new(Some(1));
    let score = alphabeta(&state, Color::White, 3, NEG_INF, POS_INF, &mut ctx);
    assert_eq!(score, 901);
    assert_eq!(ctx.nodes, 1);
}

#[test]
fn alphabeta_scores_terminal_positions() {
    let mated = mate_in_one().make_move(Move::quiet(0, 56)).unwrap();
    let mut ctx = SearchCtx::new(None);
    assert_eq!(alphabeta(&mated, Color::White, 2, NEG_INF, POS_INF, &mut ctx), MATE_SCORE);
    let mut ctx = SearchCtx::new(None);
    assert_eq!(alphabeta(&mated, Color::Black, 2, NEG_INF, POS_INF, &mut ctx), -MATE_SCORE);
    let mut ctx = SearchCtx::new(None);
    assert_eq!(alphabeta(&stalemate(), Color::White, 2, NEG_INF, POS_INF, &mut ctx), 0);
    let mut ctx = SearchCtx::new(None);
    assert_eq!(alphabeta(&stalemate(), Color::White, 0, NEG_INF, POS_INF, &mut ctx), 0);
}

#[test]
fn quiesce_stands_pat_at_beta() {
    let state = board_with(
        Color::White,
        &[
            (4, Color::White, PieceKind::King),
            (27, Color::White, PieceKind::Queen),
            (60, Color::Black, PieceKind::King),
        ],
    );
    let mut ctx = SearchCtx::new(None);
    assert_eq!(quiesce(&state, Color::White, 0, 500, &mut ctx), 500);
    assert_eq!(ctx.nodes, 0);
    // no capture to try: the maximizing side keeps the static evaluation
    assert_eq!(quiesce(&state, Color::White, 0, 5000, &mut ctx), 901);
    assert_eq!(quiesce(&state, Color::White, 1000, 5000, &mut ctx), 1000);
    assert_eq!(quiesce(&state, Color::White, NEG_INF, POS_INF, &mut ctx), 901);
    // the other side stands pat as well: for Black the position is worth -901
    assert_eq!(quiesce(&state, Color::Black, NEG_INF, POS_INF, &mut ctx), -901);
    let mut black = state;
    black.side_to_move = Color::Black;
    assert_eq!(quiesce(&black, Color::White, NEG_INF, POS_INF, &mut ctx), 901);
    assert_eq!(quiesce(&black, Color::White, 0, 500, &mut ctx), 500);
    assert_eq!(quiesce(&black, Color::White, 1000, 5000, &mut ctx), 1000);
    assert_eq!(quiesce(&black, Color::White, 901, 5000, &mut ctx), 901);
    assert_eq!(ctx.nodes, 0);
}

#[test]
fn quiesce_plays_out_a_capture() {
    // White pawn e4 can take a queen on d5; nothing recaptures.
    let state = board_with(
        Color::White,
        &[
            (4, Color::White, PieceKind::King),
            (28, Color::White, PieceKind::Pawn),
            (35, Color::Black, PieceKind::Queen),
            (63, Color::Black, PieceKind::King),
        ],
    );
    let before = evaluate(&state, Color::White);
    let mut ctx = SearchCtx::new(None);
    let score = quiesce(&state, Color::White, NEG_INF, POS_INF, &mut ctx);
    assert!(score > before + 800);
    assert!(ctx.nodes >= 1);
}

fn mate_by_capture() -> GameState {
    // White: Kg6, Ra1. Black: Kh8, Na8. Rxa8 mates.
    board_with(
        Color::White,
        &[
            (46, Color::White, PieceKind::King),
            (0, Color::White, PieceKind::Rook),
            (63, Color::Black, PieceKind::King),
            (56, Color::Black, PieceKind::Knight),
        ],
    )
}

#[test]
fn mate_in_one_is_found() {
    let state = mate_by_capture();
    let configs = [
        AiConfig::default(),
        AiConfig { max_depth: 1, node_limit: None },
        AiConfig { max_depth: 2, node_limit: None },
        AiConfig { max_depth: 3, node_limit: None },
        AiConfig { max_depth: 4, node_limit: None },
        AiConfig { max_depth: 8, node_limit: Some(3_000) },
        AiConfig { max_depth: 6, node_limit: Some(1) },
    ];
    for cfg in configs {
        let mv = choose_best_move(&state, Color::White, cfg, || {}).unwrap();
        assert_eq!(mv, Move::quiet(0, 56));
        let next = state.make_move(mv).unwrap();
        assert_eq!(next.generate_legal_moves().len, 0);
        assert!(next.is_in_check(Color::Black));
        let mut ctx = SearchCtx::new(None);
        let score = alphabeta(&next, Color::White, 1, NEG_INF, POS_INF, &mut ctx);
        assert!(score >= MATE_SCORE);
    }
}

#[test]
fn a_quiet_mate_in_one_is_found_at_the_first_depths() {
    let state = mate_in_one();
    for depth in [1u8, 2] {
        let cfg = AiConfig { max_depth: depth, node_limit: None };
        let mv = choose_best_move(&state, Color::White, cfg, || {}).unwrap();
        assert_eq!(mv, Move::quiet(0, 56));
        let next = state.make_move(mv).unwrap();
        assert_eq!(next.generate_legal_moves().len, 0);
        assert!(next.is_in_check(Color::Black));
    }
    // deeper, every move that mates within the horizon scores the same
    let cfg = AiConfig { max_depth: 4, node_limit: None };
    let mv = choose_best_move(&state, Color::White, cfg, || {}).unwrap();
    assert!(state.is_move_legal(mv));
}

#[test]
fn the_search_takes_a_hanging_queen() {
    let state = board_with(
        Color::White,
        &[
            (4, Color::White, PieceKind::King),
            (28, Color::White, PieceKind::Pawn),
            (35, Color::Black, PieceKind::Queen),
            (63, Color::Black, PieceKind::King),
        ],
    );
    for depth in 1..=4u8 {
        let cfg = AiConfig { max_depth: depth, node_limit: None };
        let mv = choose_best_move(&state, Color::White, cfg, || {}).unwrap();
        assert_eq!(mv, Move::quiet(28, 35));
    }
    // and Black moves it away or takes the pawn
    let mut black = state;
    black.side_to_move = Color::Black;
    for depth in 1..=3u8 {
        let cfg = AiConfig { max_depth: depth, node_limit: None };
        let mv = choose_best_move(&black, Color::Black, cfg, || {}).unwrap();
        assert_eq!(mv.from, 35);
        let next = black.make_move(mv).unwrap();
        assert!(next.make_move(Move::quiet(28, 35)).is_none() || mv.to == 28);
    }
}

#[test]
fn no_move_when_it_is_not_our_turn_or_the_game_is_over() {
    let state = mate_in_one();
    let cfg = AiConfig::default();
    assert_eq!(choose_best_move(&state, Color::Black, cfg, || {}), None);
    assert_eq!(choose_best_move(&stalemate(), Color::Black, cfg, || {}), None);
    let mated = state.make_move(Move::quiet(0, 56)).unwrap();
    assert_eq!(choose_best_move(&mated, Color::Black, cfg, || {}), None);
}

#[test]
fn default_configuration() {
    let cfg = AiConfig::default();
    assert_eq!(cfg.max_depth, 6);
    assert_eq!(cfg.node_limit, Some(20_000));
}

#[test]
fn low_node_budget_still_moves() {
    let state = mate_in_one();
    for limit in [0u32, 1, 2, 5, 50] {
        let cfg = AiConfig { max_depth: 6, node_limit: Some(limit) };
        let mv = choose_best_move(&state, Color::White, cfg, || {}).unwrap();
        assert!(state.is_move_legal(mv));
    }
}

#[test]
fn node_count_stays_near_the_budget() {
    let state = board_with(
        Color::White,
        &[
            (4, Color::White, PieceKind::King),
            (28, Color::White, PieceKind::Pawn),
            (35, Color::Black, PieceKind::Queen),
            (27, Color::White, PieceKind::Rook),
            (63, Color::Black, PieceKind::King),
            (42, Color::Black, PieceKind::Knight),
        ],
    );
    for limit in [0u32, 1, 7, 40, 300] {
        let moves = state.generate_legal_moves();
        let mut ctx = SearchCtx::new(Some(limit));
        let mut tick = || {};
        let best = deepen(&state, Color::White, 4, moves, &mut ctx, &mut tick);
        assert!(best.is_some());
        assert!(state.is_move_legal(best.unwrap()));
        // the count passes the budget only where the budget is zero
        assert!(ctx.nodes <= limit.max(1));
    }
}

#[test]
fn tick_is_called_once_a_depth_and_once_a_root_move() {
    let state = mate_in_one();
    let count = std::cell::Cell::new(0u32);
    let cfg = AiConfig { max_depth: 1, node_limit: None };
    let n_moves = state.generate_legal_moves().len as u32;
    let mv = choose_best_move(&state, Color::White, cfg, || count.set(count.get() + 1));
    assert!(mv.is_some());
    assert_eq!(count.get(), 1 + n_moves);
}

#[test]
fn depth_is_clamped() {
    let state = mate_in_one();
    let zero = AiConfig { max_depth: 0, node_limit: None };
    let one = AiConfig { max_depth: 1, node_limit: None };
    assert_eq!(
        choose_best_move(&state, Color::White, zero, || {}),
        choose_best_move(&state, Color::White, one, || {})
    );
    let huge = AiConfig { max_depth: 200, node_limit: Some(30) };
    let eight = AiConfig { max_depth: 8, node_limit: Some(30) };
    assert_eq!(
        choose_best_move(&state, Color::White, huge, || {}),
        choose_best_move(&state, Color::White, eight, || {})
    );
}

#[test]
fn book_answers_from_the_start() {
    let start = GameState::start_position();
    assert_eq!(book_move(&start), Some(Move::quiet(12, 28)));
    let cfg = AiConfig { max_depth: 1, node_limit: Some(1) };
    assert_eq!(choose_best_move(&start, Color::White, cfg, || {}), Some(Move::quiet(12, 28)));
}

#[test]
fn book_returns_the_fifth_move_after_four_plies() {
    let mut state = GameState::start_position();
    for (from, to) in [(12u8, 28u8), (52, 36), (6, 21), (57, 42)] {
        state = state.make_move(Move::quiet(from, to)).unwrap();
    }
    assert_eq!(book_move(&state), Some(Move::quiet(5, 26)));
    // the queen's gambit line
    let mut state = GameState::start_position();
    for (from, to) in [(11u8, 27u8), (51, 35), (10, 26), (52, 44)] {
        state = state.make_move(Move::quiet(from, to)).unwrap();
    }
    assert_eq!(book_move(&state), Some(Move::quiet(1, 18)));
}

#[test]
fn book_prefers_the_earlier_line() {
    // After 1. e4 the Italian line comes first and answers e5.
    let state = GameState::start_position().make_move(Move::quiet(12, 28)).unwrap();
    assert_eq!(book_move(&state), Some(Move::quiet(52, 36)));
    // After 1. e4 c5 only the Sicilian line matches.
    let state = state.make_move(Move::quiet(50, 34)).unwrap();
    assert_eq!(book_move(&state), Some(Move::quiet(6, 21)));
}

#[test]
fn book_follows_castling_in_the_spanish_line() {
    let mut state = GameState::start_position();
    for (from, to) in [(12u8, 28u8), (52, 36), (6, 21), (57, 42), (5, 33), (48, 40), (33, 24), (62, 45)] {
        state = state.make_move(Move::quiet(from, to)).unwrap();
    }
    let castle = Move { from: 4, to: 6, promotion: None, is_en_passant: false, is_castling: true };
    assert_eq!(book_move(&state), Some(castle));
    let state = state.make_move(castle).unwrap();
    assert_eq!(book_move(&state), Some(Move::quiet(61, 52)));
    // the end of the line has no answer
    let state = state.make_move(Move::quiet(61, 52)).unwrap();
    assert_eq!(book_move(&state), None);
}

#[test]
fn book_misses_one_step_off_a_line() {
    let state = GameState::start_position().make_move(Move::quiet(8, 16)).unwrap();
    assert_eq!(book_move(&state), None);
    let mut state = GameState::start_position();
    for (from, to) in [(12u8, 28u8), (52, 36), (6, 21), (57, 40)] {
        state = state.make_move(Move::quiet(from, to)).unwrap();
    }
    assert_eq!(book_move(&state), None);
    // the same board with another clock is another position
    let mut off = GameState::start_position();
    off.halfmove_clock = 3;
    assert_eq!(book_move(&off), None);
}

#[test]
fn the_hinted_move_scores_highest_and_is_tried_first() {
    // White pawn g7, black queen h8: taking the queen with promotion is the
    // best-scoring move but for the hint.
    let state = board_with(
        Color::White,
        &[
            (4, Color::White, PieceKind::King),
            (56, Color::Black, PieceKind::King),
            (54, Color::White, PieceKind::Pawn),
            (63, Color::Black, PieceKind::Queen),
        ],
    );
    let promo = |to: u8| Move {
        from: 54,
        to,
        promotion: Some(PieceKind::Queen),
        is_en_passant: false,
        is_castling: false,
    };
    let push = promo(62);
    let takes = promo(63);
    assert_eq!(move_heuristic(&state, takes, None), 10_200);
    assert_eq!(move_heuristic(&state, push, None), 1_300);
    assert_eq!(move_heuristic(&state, push, Some(push)), 20_000);
    assert_eq!(move_heuristic(&state, takes, Some(push)), 10_200);
    let mut list = state.generate_legal_moves();
    sort_moves(&state, &mut list, Some(push), true);
    assert_eq!(list.get(0), push);
    assert_eq!(list.get(1), takes);
    let mut list = state.generate_legal_moves();
    sort_moves(&state, &mut list, None, true);
    assert_eq!(list.get(0), takes);
    // no move scores as much as the hint
    let all = state.generate_legal_moves();
    for mv in all.iter() {
        for hint in all.iter() {
            if mv != hint {
                assert!(move_heuristic(&state, *mv, Some(*hint)) < 20_000);
            }
        }
    }
}

#[test]
fn sorting_leaves_the_unused_slots_alone() {
    let state = board_with(
        Color::White,
        &[(4, Color::White, PieceKind::King), (60, Color::Black, PieceKind::King)],
    );
    let mut list = MoveList::new();
    list.moves[0] = Move::quiet(4, 5);
    list.moves[1] = Move::quiet(4, 3);
    list.moves[2] = Move::quiet(9, 9);
    list.moves[217] = Move::quiet(7, 7);
    list.len = 2;
    sort_moves(&state, &mut list, Some(Move::quiet(4, 3)), true);
    assert_eq!(list.len, 2);
    assert_eq!(list.moves[0], Move::quiet(4, 3));
    assert_eq!(list.moves[1], Move::quiet(4, 5));
    assert_eq!(list.moves[2], Move::quiet(9, 9));
    assert_eq!(list.moves[3], Move::quiet(0, 0));
    assert_eq!(list.moves[217], Move::quiet(7, 7));
}

#[test]
fn quiescence_stops_at_the_budget() {
    // White: Ka1, Qd2, Rd1. Black: Kh8, Qd8, Rb8. The captures on d8 follow
    // one another.
    let state = board_with(
        Color::White,
        &[
            (0, Color::White, PieceKind::King),
            (11, Color::White, PieceKind::Queen),
            (3, Color::White, PieceKind::Rook),
            (63, Color::Black, PieceKind::King),
            (59, Color::Black, PieceKind::Queen),
            (57, Color::Black, PieceKind::Rook),
        ],
    );
    let mut ctx = SearchCtx::new(Some(2));
    alphabeta(&state, Color::White, 0, NEG_INF, POS_INF, &mut ctx);
    assert_eq!(ctx.nodes, 2);
    for limit in 0..12u32 {
        let mut ctx = SearchCtx::new(Some(limit));
        alphabeta(&state, Color::White, 0, NEG_INF, POS_INF, &mut ctx);
        assert!(ctx.nodes >= 1);
        assert!(ctx.nodes <= limit.max(1));
        let mut ctx = SearchCtx::new(Some(limit));
        alphabeta(&state, Color::White, 3, NEG_INF, POS_INF, &mut ctx);
        assert!(ctx.nodes >= 1);
        assert!(ctx.nodes <= limit.max(1));
        let mut ctx = SearchCtx::new(Some(limit));
        ctx.nodes = 7;
        quiesce(&state, Color::White, NEG_INF, POS_INF, &mut ctx);
        assert!(ctx.nodes >= 7);
        assert!(ctx.nodes <= limit.max(7));
    }
    // with the budget used up on entry the static evaluation is the result
    let mut ctx = SearchCtx::new(Some(3));
    ctx.nodes = 3;
    assert_eq!(
        quiesce(&state, Color::White, NEG_INF, POS_INF, &mut ctx),
        evaluate(&state, Color::White)
    );
    assert_eq!(ctx.nodes, 3);
    // without a budget the exchange is played out
    let mut ctx = SearchCtx::new(None);
    quiesce(&state, Color::White, NEG_INF, POS_INF, &mut ctx);
    assert!(ctx.nodes >= 3);
}

#[test]
fn the_fifth_line_is_answered_as_recorded() {
    // after the line's first four plies the book gives its fifth
    let mut state = GameState::start_position();
    for (from, to) in [(12u8, 28u8), (50, 34), (6, 21), (51, 35)] {
        state = state.make_move(Move::quiet(from, to)).unwrap();
    }
    assert_eq!(book_move(&state), Some(Move::quiet(28, 35)));
    // after the fifth it gives the sixth as it is recorded, a capture from
    // c6, though no piece stands there
    let state = state.make_move(Move::quiet(28, 35)).unwrap();
    assert_eq!(book_move(&state), Some(Move::quiet(42, 35)));
    assert!(!state.is_move_legal(Move::quiet(42, 35)));
    let cfg = AiConfig { max_depth: 1, node_limit: None };
    assert_eq!(choose_best_move(&state, Color::Black, cfg, || {}), Some(Move::quiet(42, 35)));
    // 1. e4 c6 is on no line
    let mut off = GameState::start_position();
    for (k, (from, to)) in [(12u8, 28u8), (50, 42), (6, 21), (51, 35)].iter().enumerate() {
        off = off.make_move(Move::quiet(*from, *to)).unwrap();
        if k >= 1 {
            assert_eq!(book_move(&off), None);
        }
    }
}

#[test]
fn every_line_is_answered_ply_by_ply() {
    // the first places at which each line is the first to reach its position
    let italian = [(12u8, 28u8), (52, 36), (6, 21), (57, 42), (5, 26), (61, 34), (21, 38), (34, 27)];
    let mut state = GameState::start_position();
    for (from, to) in italian {
        assert_eq!(book_move(&state), Some(Move::quiet(from, to)));
        state = state.make_move(Move::quiet(from, to)).unwrap();
    }
    assert_eq!(book_move(&state), None);
    let gambit = [(11u8, 27u8), (51, 35), (10, 26), (52, 44), (1, 18), (62, 45), (2, 38)];
    let mut state = GameState::start_position();
    for (k, (from, to)) in gambit.iter().enumerate() {
        if k >= 1 {
            assert_eq!(book_move(&state), Some(Move::quiet(*from, *to)));
        }
        state = state.make_move(Move::quiet(*from, *to)).unwrap();
    }
    assert_eq!(book_move(&state), None);
    let sicilian = [
        (12u8, 28u8),
        (50, 34),
        (6, 21),
        (51, 43),
        (11, 27),
        (34, 27),
        (21, 36),
        (48, 40),
        (36, 53),
        (57, 42),
    ];
    let mut state = GameState::start_position();
    for (k, (from, to)) in sicilian.iter().enumerate() {
        if k >= 2 {
            assert_eq!(book_move(&state), Some(Move::quiet(*from, *to)));
        }
        state = state.make_move(Move::quiet(*from, *to)).unwrap();
    }
    assert_eq!(book_move(&state), None);
}

#[test]
fn fools_mate_is_delivered() {
    let mut state = GameState::start_position();
    for (from, to) in [(13u8, 21u8), (52, 36), (14, 30)] {
        state = state.make_move(Move::quiet(from, to)).unwrap();
    }
    // without a node budget every depth is searched to its end
    for depth in 0..=5u8 {
        let cfg = AiConfig { max_depth: depth, node_limit: None };
        let mv = choose_best_move(&state, Color::Black, cfg, || {}).unwrap();
        assert_eq!(mv, Move::quiet(59, 31));
        let next = state.make_move(mv).unwrap();
        assert_eq!(next.generate_legal_moves().len, 0);
        assert!(next.is_in_check(Color::White));
    }
}
