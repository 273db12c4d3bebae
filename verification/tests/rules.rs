use chess_core::types::{file_of, rank_of, shifted};
use chess_core::{CastlingRights, Color, Engine, GameState, Move, MoveError, MoveList, Piece, PieceKind};

fn moves_of(list: &MoveList) -> Vec<Move> {
    list.iter().copied().collect()
}

fn play(state: &GameState, from: u8, to: u8) -> GameState {
    state.make_move(Move::quiet(from, to)).expect("the move is legal")
}

fn empty_board(side: Color) -> GameState {
    GameState {
        board: [None; 64],
        side_to_move: side,
        castling: CastlingRights::new(),
        en_passant: None,
        halfmove_clock: 0,
        fullmove_number: 1,
    }
}

fn put(state: &mut GameState, sq: usize, color: Color, kind: PieceKind) {
    state.board[sq] = Some(Piece { color, kind });
}

#[test]
fn start_position_has_twenty_moves() {
    let start = GameState::start_position();
    let list = start.generate_legal_moves();
    assert_eq!(list.len, 20);
    assert_eq!(moves_of(&list).len(), 20);
}

#[test]
fn twenty_replies_after_each_first_move() {
    let start = GameState::start_position();
    // e4, d4, Nf3, Nc3
    for (from, to) in [(12u8, 28u8), (11, 27), (6, 21), (1, 18)] {
        let next = play(&start, from, to);
        assert_eq!(next.side_to_move, Color::Black);
        assert_eq!(next.generate_legal_moves().len, 20);
    }
    for mv in moves_of(&start.generate_legal_moves()) {
        let next = start.make_move(mv).unwrap();
        assert_eq!(next.generate_legal_moves().len, 20);
    }
}

#[test]
fn perft_depth_three_from_start() {
    fn perft(state: &GameState, depth: u32) -> u64 {
        if depth == 0 {
            return 1;
        }
        let mut n = 0;
        for mv in moves_of(&state.generate_legal_moves()) {
            n += perft(&state.make_move(mv).unwrap(), depth - 1);
        }
        n
    }
    let start = GameState::start_position();
    assert_eq!(perft(&start, 1), 20);
    assert_eq!(perft(&start, 2), 400);
    assert_eq!(perft(&start, 3), 8902);
}

#[test]
fn rook_slides_in_all_four_directions() {
    let mut state = empty_board(Color::White);
    put(&mut state, 27, Color::White, PieceKind::Rook); // d4
    put(&mut state, 0, Color::White, PieceKind::King);
    put(&mut state, 63, Color::Black, PieceKind::King);
    let moves = moves_of(&state.generate_legal_moves());
    let rook: Vec<u8> = moves.iter().filter(|m| m.from == 27).map(|m| m.to).collect();
    assert_eq!(
        rook,
        vec![35, 43, 51, 59, 19, 11, 3, 28, 29, 30, 31, 26, 25, 24]
    );
}

fn en_passant(from: u8, to: u8) -> Move {
    Move { from, to, promotion: None, is_en_passant: true, is_castling: false }
}

fn castle(from: u8, to: u8) -> Move {
    Move { from, to, promotion: None, is_en_passant: false, is_castling: true }
}

fn piece(color: Color, kind: PieceKind) -> Option<Piece> {
    Some(Piece { color, kind })
}

#[test]
fn start_position_layout() {
    let start = GameState::start_position();
    let back = [
        PieceKind::Rook,
        PieceKind::Knight,
        PieceKind::Bishop,
        PieceKind::Queen,
        PieceKind::King,
        PieceKind::Bishop,
        PieceKind::Knight,
        PieceKind::Rook,
    ];
    for f in 0..8 {
        assert_eq!(start.board[f], piece(Color::White, back[f]));
        assert_eq!(start.board[8 + f], piece(Color::White, PieceKind::Pawn));
        assert_eq!(start.board[48 + f], piece(Color::Black, PieceKind::Pawn));
        assert_eq!(start.board[56 + f], piece(Color::Black, back[f]));
        for r in 2..6 {
            assert_eq!(start.board[r * 8 + f], None);
        }
    }
    assert_eq!(start.side_to_move, Color::White);
    assert_eq!(start.castling, CastlingRights::full());
    assert_eq!(start.en_passant, None);
    assert_eq!(start.halfmove_clock, 0);
    assert_eq!(start.fullmove_number, 1);
}

#[test]
fn first_moves_come_in_generation_order() {
    let start = GameState::start_position();
    let moves = moves_of(&start.generate_legal_moves());
    // knight b1 comes first: its leaps in the fixed order, the ones on the board
    assert_eq!(moves[0], Move::quiet(1, 18));
    assert_eq!(moves[1], Move::quiet(1, 16));
    assert_eq!(moves[2], Move::quiet(6, 23));
    assert_eq!(moves[3], Move::quiet(6, 21));
    // then the pawns, one step before two
    assert_eq!(moves[4], Move::quiet(8, 16));
    assert_eq!(moves[5], Move::quiet(8, 24));
    assert_eq!(moves[19], Move::quiet(15, 31));
}

#[test]
fn double_step_sets_the_en_passant_target() {
    let start = GameState::start_position();
    let next = play(&start, 12, 28);
    assert_eq!(next.en_passant, Some(20));
    assert_eq!(next.side_to_move, Color::Black);
    assert_eq!(next.halfmove_clock, 0);
    assert_eq!(next.fullmove_number, 1);
    let next = play(&next, 57, 42);
    assert_eq!(next.en_passant, None);
    assert_eq!(next.halfmove_clock, 1);
    assert_eq!(next.fullmove_number, 2);
    let next = play(&next, 6, 21);
    assert_eq!(next.halfmove_clock, 2);
    assert_eq!(next.fullmove_number, 2);
}

#[test]
fn en_passant_takes_the_pawn_that_passed() {
    let mut state = GameState::start_position();
    for (from, to) in [(12u8, 28u8), (48, 40), (28, 36), (51, 35)] {
        state = play(&state, from, to);
    }
    assert_eq!(state.en_passant, Some(43));
    let moves = moves_of(&state.generate_legal_moves());
    let captures: Vec<Move> = moves.iter().copied().filter(|m| m.is_en_passant).collect();
    assert_eq!(captures, vec![en_passant(36, 43)]);
    let after = state.make_move(en_passant(36, 43)).unwrap();
    assert_eq!(after.board[43], piece(Color::White, PieceKind::Pawn));
    assert_eq!(after.board[35], None);
    assert_eq!(after.board[36], None);
    assert_eq!(after.en_passant, None);
    assert_eq!(after.halfmove_clock, 0);
    // the plain diagonal step onto the empty target is no legal move
    assert!(state.make_move(Move::quiet(36, 43)).is_none());
}

#[test]
fn en_passant_lapses_after_one_move() {
    let mut state = GameState::start_position();
    for (from, to) in [(12u8, 28u8), (48, 40), (28, 36), (51, 35), (8, 16), (40, 32)] {
        state = play(&state, from, to);
    }
    assert_eq!(state.en_passant, None);
    assert!(state.make_move(en_passant(36, 43)).is_none());
    assert!(moves_of(&state.generate_legal_moves()).iter().all(|m| !m.is_en_passant));
}

#[test]
fn black_captures_en_passant_downwards() {
    let mut state = GameState::start_position();
    for (from, to) in [(8u8, 16u8), (52, 36), (16, 24), (36, 28), (11, 27)] {
        state = play(&state, from, to);
    }
    assert_eq!(state.en_passant, Some(19));
    let after = state.make_move(en_passant(28, 19)).unwrap();
    assert_eq!(after.board[19], piece(Color::Black, PieceKind::Pawn));
    assert_eq!(after.board[27], None);
    assert_eq!(after.board[28], None);
}

fn castling_position() -> GameState {
    let mut state = empty_board(Color::White);
    state.castling = CastlingRights::full();
    put(&mut state, 4, Color::White, PieceKind::King);
    put(&mut state, 0, Color::White, PieceKind::Rook);
    put(&mut state, 7, Color::White, PieceKind::Rook);
    put(&mut state, 60, Color::Black, PieceKind::King);
    put(&mut state, 56, Color::Black, PieceKind::Rook);
    put(&mut state, 63, Color::Black, PieceKind::Rook);
    state
}

#[test]
fn castling_moves_king_and_rook() {
    let state = castling_position();
    let moves = moves_of(&state.generate_legal_moves());
    let castles: Vec<Move> = moves.iter().copied().filter(|m| m.is_castling).collect();
    assert_eq!(castles, vec![castle(4, 6), castle(4, 2)]);
    let short = state.make_move(castle(4, 6)).unwrap();
    assert_eq!(short.board[6], piece(Color::White, PieceKind::King));
    assert_eq!(short.board[5], piece(Color::White, PieceKind::Rook));
    assert_eq!(short.board[4], None);
    assert_eq!(short.board[7], None);
    assert!(!short.castling.can_castle(Color::White, true));
    assert!(!short.castling.can_castle(Color::White, false));
    assert!(short.castling.can_castle(Color::Black, true));
    assert!(short.castling.can_castle(Color::Black, false));
    let long = state.make_move(castle(4, 2)).unwrap();
    assert_eq!(long.board[2], piece(Color::White, PieceKind::King));
    assert_eq!(long.board[3], piece(Color::White, PieceKind::Rook));
    assert_eq!(long.board[0], None);
    assert_eq!(long.board[4], None);
    let black = short.make_move(castle(60, 58)).unwrap();
    assert_eq!(black.board[58], piece(Color::Black, PieceKind::King));
    assert_eq!(black.board[59], piece(Color::Black, PieceKind::Rook));
    assert_eq!(black.board[56], None);
    assert_eq!(black.castling, CastlingRights::new());
    // the rook on f1 now attacks f8, which the black king would cross
    assert!(short.make_move(castle(60, 62)).is_none());
    let black = long.make_move(castle(60, 62)).unwrap();
    assert_eq!(black.board[62], piece(Color::Black, PieceKind::King));
    assert_eq!(black.board[61], piece(Color::Black, PieceKind::Rook));
    assert_eq!(black.board[63], None);
}

#[test]
fn a_king_move_loses_both_rights_for_good() {
    let mut state = castling_position();
    for (from, to) in [(4u8, 12u8), (60, 52), (12, 4), (52, 60)] {
        state = play(&state, from, to);
    }
    assert_eq!(state.board[4], piece(Color::White, PieceKind::King));
    assert_eq!(state.castling, CastlingRights::new());
    assert!(moves_of(&state.generate_legal_moves()).iter().all(|m| !m.is_castling));
    assert!(state.make_move(castle(4, 6)).is_none());
    let state = play(&state, 0, 1);
    assert!(moves_of(&state.generate_legal_moves()).iter().all(|m| !m.is_castling));
}

#[test]
fn a_rook_move_loses_the_right_of_its_wing() {
    let state = castling_position();
    let state = play(&state, 7, 15);
    assert!(!state.castling.can_castle(Color::White, true));
    assert!(state.castling.can_castle(Color::White, false));
    let state = play(&state, 56, 48);
    assert!(!state.castling.can_castle(Color::Black, false));
    assert!(state.castling.can_castle(Color::Black, true));
    let state = play(&state, 15, 7);
    let state = play(&state, 48, 56);
    let castles: Vec<Move> =
        moves_of(&state.generate_legal_moves()).into_iter().filter(|m| m.is_castling).collect();
    assert_eq!(castles, vec![castle(4, 2)]);
}

#[test]
fn a_captured_rook_loses_the_right_of_its_corner() {
    let mut state = castling_position();
    state.board[56] = None;
    put(&mut state, 9, Color::Black, PieceKind::Bishop); // b2, attacks a1
    state.side_to_move = Color::Black;
    let after = play(&state, 9, 0);
    assert!(!after.castling.can_castle(Color::White, false));
    assert!(after.castling.can_castle(Color::White, true));
    assert!(!after.castling.can_castle(Color::Black, false) || after.board[56].is_none());
}

#[test]
fn no_castling_out_of_through_or_into_check() {
    // a black rook on e8 gives check
    let mut state = castling_position();
    state.board[60] = None;
    put(&mut state, 62, Color::Black, PieceKind::King);
    state.board[63] = None;
    put(&mut state, 60, Color::Black, PieceKind::Rook);
    assert!(state.is_in_check(Color::White));
    assert!(moves_of(&state.generate_legal_moves()).iter().all(|m| !m.is_castling));
    // a black rook on f8 attacks the square the king crosses
    let mut state = castling_position();
    state.board[63] = None;
    put(&mut state, 61, Color::Black, PieceKind::Rook);
    let castles: Vec<Move> =
        moves_of(&state.generate_legal_moves()).into_iter().filter(|m| m.is_castling).collect();
    assert_eq!(castles, vec![castle(4, 2)]);
    // a black rook on c8 attacks the landing square of the long castling
    let mut state = castling_position();
    state.board[56] = None;
    put(&mut state, 58, Color::Black, PieceKind::Rook);
    let castles: Vec<Move> =
        moves_of(&state.generate_legal_moves()).into_iter().filter(|m| m.is_castling).collect();
    assert_eq!(castles, vec![castle(4, 6)]);
    // a black rook on b8 attacks only b1: long castling stays
    let mut state = castling_position();
    state.board[56] = None;
    put(&mut state, 57, Color::Black, PieceKind::Rook);
    let castles: Vec<Move> =
        moves_of(&state.generate_legal_moves()).into_iter().filter(|m| m.is_castling).collect();
    assert_eq!(castles, vec![castle(4, 6), castle(4, 2)]);
}

#[test]
fn no_castling_over_a_piece() {
    let start = GameState::start_position();
    assert!(moves_of(&start.generate_legal_moves()).iter().all(|m| !m.is_castling));
    let mut state = castling_position();
    put(&mut state, 1, Color::White, PieceKind::Knight);
    let castles: Vec<Move> =
        moves_of(&state.generate_legal_moves()).into_iter().filter(|m| m.is_castling).collect();
    assert_eq!(castles, vec![castle(4, 6)]);
}

#[test]
fn promotion_lists_four_pieces() {
    let mut state = empty_board(Color::White);
    put(&mut state, 4, Color::White, PieceKind::King);
    put(&mut state, 60, Color::Black, PieceKind::King);
    put(&mut state, 48, Color::White, PieceKind::Pawn);
    put(&mut state, 57, Color::Black, PieceKind::Knight);
    let moves = moves_of(&state.generate_legal_moves());
    let pawn: Vec<Move> = moves.into_iter().filter(|m| m.from == 48).collect();
    let promo = |to: u8, kind: PieceKind| Move {
        from: 48,
        to,
        promotion: Some(kind),
        is_en_passant: false,
        is_castling: false,
    };
    assert_eq!(
        pawn,
        vec![
            promo(56, PieceKind::Queen),
            promo(56, PieceKind::Rook),
            promo(56, PieceKind::Bishop),
            promo(56, PieceKind::Knight),
            promo(57, PieceKind::Queen),
            promo(57, PieceKind::Rook),
            promo(57, PieceKind::Bishop),
            promo(57, PieceKind::Knight),
        ]
    );
    let after = state.make_move(promo(57, PieceKind::Knight)).unwrap();
    assert_eq!(after.board[57], piece(Color::White, PieceKind::Knight));
    assert_eq!(after.board[48], None);
    assert_eq!(after.halfmove_clock, 0);
    // a plain move to the last rank is no legal move
    assert!(state.make_move(Move::quiet(48, 56)).is_none());
}

#[test]
fn black_promotes_on_the_first_rank() {
    let mut state = empty_board(Color::Black);
    put(&mut state, 4, Color::White, PieceKind::King);
    put(&mut state, 60, Color::Black, PieceKind::King);
    put(&mut state, 15, Color::Black, PieceKind::Pawn);
    let moves = moves_of(&state.generate_legal_moves());
    let pawn: Vec<Move> = moves.into_iter().filter(|m| m.from == 15).collect();
    assert_eq!(pawn.len(), 4);
    assert!(pawn.iter().all(|m| m.to == 7 && m.promotion.is_some()));
    let after = state.make_move(pawn[0]).unwrap();
    assert_eq!(after.board[7], piece(Color::Black, PieceKind::Queen));
    assert_eq!(after.fullmove_number, 2);
}

#[test]
fn pawns_attack_forwards_only() {
    let mut state = empty_board(Color::White);
    put(&mut state, 28, Color::White, PieceKind::King); // e4
    put(&mut state, 63, Color::Black, PieceKind::King);
    put(&mut state, 35, Color::Black, PieceKind::Pawn); // d5 attacks e4
    assert!(state.is_square_attacked(28, Color::Black));
    assert!(state.is_in_check(Color::White));
    state.board[35] = None;
    put(&mut state, 19, Color::Black, PieceKind::Pawn); // d3 does not
    assert!(!state.is_square_attacked(28, Color::Black));
    assert!(!state.is_in_check(Color::White));
    // a white pawn on d3 attacks e4 and c4, not e2
    put(&mut state, 19, Color::White, PieceKind::Pawn);
    assert!(state.is_square_attacked(28, Color::White));
    assert!(state.is_square_attacked(26, Color::White));
    assert!(!state.is_square_attacked(12, Color::White));
    assert!(!state.is_square_attacked(18, Color::White));
}

#[test]
fn pawn_attacks_do_not_wrap_round_the_board() {
    let mut state = empty_board(Color::White);
    put(&mut state, 23, Color::White, PieceKind::Pawn); // h3
    assert!(state.is_square_attacked(30, Color::White)); // g4
    assert!(!state.is_square_attacked(32, Color::White)); // a5
    assert!(!state.is_square_attacked(24, Color::White)); // a4
    let mut state = empty_board(Color::White);
    put(&mut state, 7, Color::White, PieceKind::Knight); // h1
    assert!(state.is_square_attacked(13, Color::White)); // f2
    assert!(state.is_square_attacked(22, Color::White)); // g3
    assert!(!state.is_square_attacked(17, Color::White)); // b3
    assert!(!state.is_square_attacked(24, Color::White)); // a4
    let mut state = empty_board(Color::White);
    put(&mut state, 7, Color::White, PieceKind::King); // h1
    assert!(state.is_square_attacked(6, Color::White));
    assert!(state.is_square_attacked(14, Color::White));
    assert!(state.is_square_attacked(15, Color::White));
    assert!(!state.is_square_attacked(8, Color::White));
    assert!(!state.is_square_attacked(16, Color::White));
}

#[test]
fn rays_stop_at_the_first_piece_and_at_the_edge() {
    let mut state = empty_board(Color::White);
    put(&mut state, 0, Color::Black, PieceKind::Rook); // a1
    assert!(state.is_square_attacked(7, Color::Black));
    assert!(state.is_square_attacked(56, Color::Black));
    assert!(!state.is_square_attacked(8 + 1, Color::Black));
    assert!(!state.is_square_attacked(15, Color::Black));
    put(&mut state, 3, Color::White, PieceKind::Pawn); // d1 blocks
    assert!(state.is_square_attacked(3, Color::Black));
    assert!(!state.is_square_attacked(4, Color::Black));
    let mut state = empty_board(Color::White);
    put(&mut state, 7, Color::Black, PieceKind::Bishop); // h1
    assert!(state.is_square_attacked(56, Color::Black)); // a8
    assert!(!state.is_square_attacked(63, Color::Black)); // h8
    assert!(!state.is_square_attacked(8, Color::Black));
    assert_eq!(state.first_piece_on_ray(56, 1, -1), Some(Piece { color: Color::Black, kind: PieceKind::Bishop }));
    assert_eq!(state.first_piece_on_ray(56, 1, 0), None);
    let mut state = empty_board(Color::White);
    put(&mut state, 27, Color::Black, PieceKind::Queen); // d4
    for sq in [24u8, 31, 3, 59, 0, 63, 6, 48] {
        assert!(state.is_square_attacked(sq, Color::Black));
    }
    for sq in [27u8, 12, 44, 7, 56] {
        assert!(!state.is_square_attacked(sq, Color::Black));
    }
    // a rook does not attack along diagonals, a bishop not along files
    let mut state = empty_board(Color::White);
    put(&mut state, 27, Color::Black, PieceKind::Rook);
    assert!(!state.is_square_attacked(36, Color::Black));
    put(&mut state, 27, Color::Black, PieceKind::Bishop);
    assert!(!state.is_square_attacked(35, Color::Black));
    assert!(state.is_square_attacked(36, Color::Black));
}

#[test]
fn bishop_and_queen_moves_in_their_order() {
    let mut state = empty_board(Color::White);
    put(&mut state, 0, Color::White, PieceKind::King);
    put(&mut state, 63, Color::Black, PieceKind::King);
    put(&mut state, 28, Color::White, PieceKind::Bishop); // e4
    let moves = moves_of(&state.generate_legal_moves());
    let bishop: Vec<u8> = moves.iter().filter(|m| m.from == 28).map(|m| m.to).collect();
    assert_eq!(bishop, vec![37, 46, 55, 35, 42, 49, 56, 19, 10, 1, 21, 14, 7]);
    put(&mut state, 28, Color::White, PieceKind::Queen);
    let moves = moves_of(&state.generate_legal_moves());
    let queen: Vec<u8> = moves.iter().filter(|m| m.from == 28).map(|m| m.to).collect();
    assert_eq!(
        queen,
        vec![
            36, 44, 52, 60, 20, 12, 4, 29, 30, 31, 27, 26, 25, 24, 37, 46, 55, 35, 42, 49, 56, 19,
            10, 1, 21, 14, 7
        ]
    );
}

#[test]
fn a_pinned_piece_stays_on_the_line() {
    let mut state = empty_board(Color::White);
    put(&mut state, 4, Color::White, PieceKind::King); // e1
    put(&mut state, 12, Color::White, PieceKind::Rook); // e2
    put(&mut state, 60, Color::Black, PieceKind::Rook); // e8
    put(&mut state, 63, Color::Black, PieceKind::King);
    let moves = moves_of(&state.generate_legal_moves());
    let rook: Vec<u8> = moves.iter().filter(|m| m.from == 12).map(|m| m.to).collect();
    assert_eq!(rook, vec![20, 28, 36, 44, 52, 60]);
    assert!(!state.is_move_legal(Move::quiet(12, 13)));
    assert!(state.is_move_legal(Move::quiet(12, 60)));
}

#[test]
fn the_king_does_not_step_into_check() {
    let mut state = empty_board(Color::White);
    put(&mut state, 4, Color::White, PieceKind::King);
    put(&mut state, 63, Color::Black, PieceKind::King);
    put(&mut state, 11 + 48, Color::Black, PieceKind::Rook); // d8 covers the d-file
    let moves = moves_of(&state.generate_legal_moves());
    let king: Vec<u8> = moves.iter().map(|m| m.to).collect();
    assert_eq!(king, vec![5, 12, 13]);
}

#[test]
fn stalemate_has_no_moves_and_no_check() {
    let mut state = empty_board(Color::Black);
    put(&mut state, 53, Color::White, PieceKind::King);
    put(&mut state, 46, Color::White, PieceKind::Queen);
    put(&mut state, 63, Color::Black, PieceKind::King);
    assert_eq!(state.generate_legal_moves().len, 0);
    assert!(!state.is_in_check(Color::Black));
}

#[test]
fn checkmate_has_no_moves_and_check() {
    let mut state = GameState::start_position();
    for (from, to) in [(13u8, 21u8), (52, 36), (14, 30), (59, 31)] {
        state = play(&state, from, to);
    }
    assert_eq!(state.generate_legal_moves().len, 0);
    assert!(state.is_in_check(Color::White));
    assert!(!state.is_in_check(Color::Black));
}

#[test]
fn a_missing_king_is_never_in_check() {
    let mut state = empty_board(Color::White);
    put(&mut state, 27, Color::Black, PieceKind::Queen);
    assert!(!state.is_in_check(Color::White));
    assert!(!state.is_in_check(Color::Black));
    assert_eq!(state.find_king(Color::White), None);
    put(&mut state, 3, Color::White, PieceKind::King);
    assert_eq!(state.find_king(Color::White), Some(3));
    assert!(state.is_in_check(Color::White));
    // with two kings the lower square counts
    put(&mut state, 2, Color::White, PieceKind::King);
    assert_eq!(state.find_king(Color::White), Some(2));
    assert!(!state.is_in_check(Color::White));
}

#[test]
fn illegal_moves_are_refused_and_change_nothing() {
    let start = GameState::start_position();
    let copy = start;
    assert!(start.make_move(Move::quiet(12, 36)).is_none());
    assert!(start.make_move(Move::quiet(52, 36)).is_none());
    assert!(start.make_move(Move::quiet(0, 0)).is_none());
    assert!(start.make_move(Move::quiet(200, 3)).is_none());
    assert!(start.make_move(castle(4, 6)).is_none());
    assert!(!start.is_move_legal(Move::quiet(4, 12)));
    assert!(start.is_move_legal(Move::quiet(12, 28)));
    assert!(start == copy);
}

#[test]
fn a_move_is_never_without_effect() {
    let start = GameState::start_position();
    for mv in moves_of(&start.generate_legal_moves()) {
        let mut next = start.make_move(mv).unwrap();
        assert_eq!(next.side_to_move, Color::Black);
        next.side_to_move = Color::White;
        assert!(next != start);
        assert_eq!(next.board[mv.from as usize], None);
    }
}

#[test]
fn clocks_reset_on_captures_and_stop_at_their_largest_value() {
    let mut state = empty_board(Color::Black);
    put(&mut state, 4, Color::White, PieceKind::King);
    put(&mut state, 60, Color::Black, PieceKind::King);
    put(&mut state, 0, Color::White, PieceKind::Rook);
    put(&mut state, 56, Color::Black, PieceKind::Rook);
    state.halfmove_clock = 40;
    state.fullmove_number = 30;
    let quiet = play(&state, 60, 61);
    assert_eq!(quiet.halfmove_clock, 41);
    assert_eq!(quiet.fullmove_number, 31);
    let capture = play(&state, 56, 0);
    assert_eq!(capture.halfmove_clock, 0);
    state.halfmove_clock = u16::MAX;
    state.fullmove_number = u16::MAX;
    let late = play(&state, 60, 61);
    assert_eq!(late.halfmove_clock, u16::MAX);
    assert_eq!(late.fullmove_number, u16::MAX);
}

#[test]
fn a_full_move_list_drops_what_is_pushed() {
    let mut list = MoveList::new();
    assert_eq!(list.len, 0);
    for i in 0..218u16 {
        list.push(Move::quiet((i % 64) as u8, (i / 64) as u8));
    }
    assert_eq!(list.len, 218);
    list.push(Move::quiet(9, 9));
    assert_eq!(list.len, 218);
    assert_eq!(list.get(217), Move::quiet((217 % 64) as u8, 3));
    assert_eq!(list.get(0), Move::quiet(0, 0));
    assert_eq!(moves_of(&list).len(), 218);
}

#[test]
fn more_moves_than_the_list_holds_are_cut_off() {
    let mut state = empty_board(Color::White);
    for f in 0..8 {
        put(&mut state, f, Color::White, PieceKind::Queen);
        put(&mut state, 56 + f, Color::White, PieceKind::Queen);
    }
    for r in 1..7 {
        put(&mut state, r * 8, Color::White, PieceKind::Queen);
        put(&mut state, r * 8 + 7, Color::White, PieceKind::Queen);
    }
    let mut list = MoveList::new();
    state.generate_pseudo_legal_moves(&mut list);
    assert_eq!(list.len, 218);
    assert_eq!(list.get(0), Move::quiet(0, 9));
    let legal = state.generate_legal_moves();
    assert_eq!(legal.len, 218);
}

#[test]
fn pseudo_legal_moves_are_appended() {
    let start = GameState::start_position();
    let mut list = MoveList::new();
    list.push(Move::quiet(60, 61));
    start.generate_pseudo_legal_moves(&mut list);
    assert_eq!(list.len, 21);
    assert_eq!(list.get(0), Move::quiet(60, 61));
    assert_eq!(list.get(1), Move::quiet(1, 18));
}

#[test]
fn colour_facts() {
    assert_eq!(Color::White.opposite(), Color::Black);
    assert_eq!(Color::Black.opposite(), Color::White);
    assert_eq!(Color::White.pawn_direction(), 1);
    assert_eq!(Color::Black.pawn_direction(), -1);
    assert_eq!(Color::White.home_rank(), 1);
    assert_eq!(Color::Black.home_rank(), 6);
    assert_eq!(Color::White.promotion_rank(), 7);
    assert_eq!(Color::Black.promotion_rank(), 0);
}

#[test]
fn castling_rights_facts() {
    let none = CastlingRights::new();
    let full = CastlingRights::full();
    for color in [Color::White, Color::Black] {
        for wing in [true, false] {
            assert!(!none.can_castle(color, wing));
            assert!(full.can_castle(color, wing));
        }
    }
    let mut rights = full;
    rights.remove_white_king_side();
    assert!(!rights.can_castle(Color::White, true));
    assert!(rights.can_castle(Color::White, false));
    rights.remove_black();
    assert!(!rights.can_castle(Color::Black, true));
    assert!(!rights.can_castle(Color::Black, false));
    rights.remove_white_queen_side();
    assert_eq!(rights, none);
    let mut rights = full;
    rights.remove_white();
    rights.remove_black_king_side();
    rights.remove_black_queen_side();
    assert_eq!(rights, none);
}

#[test]
fn steps_off_the_board_give_nothing() {
    assert_eq!(shifted(0, 1, 2), Some(17));
    assert_eq!(shifted(0, -1, 0), None);
    assert_eq!(shifted(7, 1, 0), None);
    assert_eq!(shifted(7, 1, 1), None);
    assert_eq!(shifted(63, 0, 1), None);
    assert_eq!(shifted(63, -2, -1), Some(53));
    assert_eq!(shifted(8, -1, -1), None);
    assert_eq!(file_of(29), 5);
    assert_eq!(rank_of(29), 3);
}

#[test]
fn the_engine_plays_legal_moves_only() {
    let mut engine = Engine::new_startpos();
    assert!(*engine.state() == GameState::start_position());
    assert_eq!(engine.legal_moves().len, 20);
    assert!(matches!(engine.play_move(Move::quiet(12, 36)), Err(MoveError::Illegal)));
    assert!(*engine.state() == GameState::start_position());
    assert!(engine.play_move(Move::quiet(12, 28)).is_ok());
    assert_eq!(engine.state().side_to_move, Color::Black);
    assert_eq!(engine.state().board[28], piece(Color::White, PieceKind::Pawn));
    assert_eq!(engine.legal_moves().len, 20);
}

#[test]
fn a_position_as_text() {
    let text: String = GameState::start_position().to_text().into_iter().collect();
    let expected = "r n b q k b n r \n\
                    p p p p p p p p \n\
                    . . . . . . . . \n\
                    . . . . . . . . \n\
                    . . . . . . . . \n\
                    . . . . . . . . \n\
                    P P P P P P P P \n\
                    R N B Q K B N R \n\
                    Side: White\n";
    assert_eq!(text, expected);
    let mut state = empty_board(Color::Black);
    put(&mut state, 0, Color::White, PieceKind::Queen);
    put(&mut state, 63, Color::Black, PieceKind::Bishop);
    let text: String = state.to_text().into_iter().collect();
    let lines: Vec<&str> = text.lines().collect();
    assert_eq!(lines.len(), 9);
    assert_eq!(lines[0], ". . . . . . . b ");
    assert_eq!(lines[7], "Q . . . . . . . ");
    assert_eq!(lines[8], "Side: Black");
}

#[test]
fn retain_keeps_what_the_predicate_keeps() {
    let mut list = MoveList::new();
    for to in 0..10u8 {
        list.push(Move::quiet(1, to));
    }
    list.moves[10] = Move::quiet(9, 9);
    let mut asked = Vec::new();
    list.retain(|mv| {
        asked.push(mv.to);
        mv.to % 3 == 0
    });
    assert_eq!(asked, vec![0, 1, 2, 3, 4, 5, 6, 7, 8, 9]);
    assert_eq!(list.len, 4);
    let kept: Vec<u8> = list.iter().map(|m| m.to).collect();
    assert_eq!(kept, vec![0, 3, 6, 9]);
    assert_eq!(list.moves[10], Move::quiet(9, 9));
    list.retain(|_| false);
    assert_eq!(list.len, 0);
    list.retain(|_| true);
    assert_eq!(list.len, 0);
    let mut all = GameState::start_position().generate_legal_moves();
    all.retain(|mv| mv.from == 12);
    assert_eq!(moves_of(&all), vec![Move::quiet(12, 20), Move::quiet(12, 28)]);
}
