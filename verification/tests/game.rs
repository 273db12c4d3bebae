use chess_core::debounce::{step, Phase, Verdict, DEBOUNCE_MS, LONG_PRESS_MS, POLL_INTERVAL_MS};
use chess_core::game::{material_value, Game, SquareLook, Submitted, Task};
use chess_core::interaction::{
    key_action, key_promotion, poll_action, poll_promotion_choice, Action, PressKind,
    PromotionChoice,
};
use chess_core::menu::{left_pane_width, menu_step, mode_at, MenuStep, Mode};
use chess_core::ui::{
    i32_to_str, spinner_led, sprite_origin, square_color, square_origin, u32_to_str, DARK_SQUARE,
    HIGHLIGHT_COLOR, LAST_MOVE_COLOR, LIGHT_SQUARE, PROMOTION_COLOR, SELECTED_PIECE_COLOR,
};
use chess_core::{CastlingRights, Color, GameState, Move, Piece, PieceKind};

fn human_game() -> Game {
    Game::new([false, false], Some(Color::White))
}

fn move_cursor_to(game: &mut Game, file: u8, rank: u8) {
    game.cursor = (file, rank);
}

fn submit(game: &mut Game, from: (u8, u8), to: (u8, u8)) -> Submitted {
    move_cursor_to(game, from.0, from.1);
    game.selected = None;
    assert_eq!(game.apply_action(Action::ToggleSelect), None);
    move_cursor_to(game, to.0, to.1);
    game.apply_action(Action::SubmitMove).unwrap()
}

#[test]
fn a_new_game_starts_at_a1() {
    let game = human_game();
    assert!(game.state == GameState::start_position());
    assert_eq!(game.cursor, (0, 0));
    assert_eq!(game.selected, None);
    assert!(game.promotion.is_none());
    assert_eq!(game.last_move, None);
    assert_eq!(game.next_task(), Task::AwaitAction);
    assert!(game.is_human_turn());
    assert!(!game.is_ai_turn());
}

#[test]
fn the_cursor_stops_at_the_edges() {
    let mut game = human_game();
    assert_eq!(game.apply_action(Action::MoveLeft), None);
    assert_eq!(game.apply_action(Action::MoveDown), None);
    assert_eq!(game.cursor, (0, 0));
    for _ in 0..9 {
        game.apply_action(Action::MoveRight);
    }
    assert_eq!(game.cursor, (7, 0));
    for _ in 0..3 {
        game.apply_action(Action::MoveUp);
    }
    assert_eq!(game.cursor, (7, 3));
    for _ in 0..9 {
        game.apply_action(Action::MoveUp);
    }
    assert_eq!(game.cursor, (7, 7));
    game.apply_action(Action::MoveLeft);
    game.apply_action(Action::MoveDown);
    assert_eq!(game.cursor, (6, 6));
}

#[test]
fn selection_toggles_on_occupied_squares() {
    let mut game = human_game();
    game.toggle_select();
    assert_eq!(game.selected, Some(0));
    game.toggle_select();
    assert_eq!(game.selected, None);
    move_cursor_to(&mut game, 4, 3);
    game.toggle_select();
    assert_eq!(game.selected, None);
    move_cursor_to(&mut game, 4, 1);
    game.toggle_select();
    assert_eq!(game.selected, Some(12));
    // an empty square leaves the selection where it is
    move_cursor_to(&mut game, 4, 3);
    game.toggle_select();
    assert_eq!(game.selected, Some(12));
    // another piece takes it over
    move_cursor_to(&mut game, 3, 1);
    game.toggle_select();
    assert_eq!(game.selected, Some(11));
    assert_eq!(Game::index(3, 1), 11);
    assert_eq!(Game::index(7, 7), 63);
}

#[test]
fn submitting_plays_a_legal_move() {
    let mut game = human_game();
    assert_eq!(game.try_submit_move(), Submitted::Nothing);
    assert_eq!(submit(&mut game, (4, 1), (4, 1)), Submitted::Nothing);
    assert_eq!(game.selected, Some(12));
    assert_eq!(submit(&mut game, (4, 1), (4, 4)), Submitted::Illegal);
    assert_eq!(game.selected, Some(12));
    assert!(game.state == GameState::start_position());
    assert_eq!(submit(&mut game, (4, 1), (4, 3)), Submitted::Played);
    assert_eq!(game.selected, None);
    assert_eq!(game.last_move, Some((12, 28)));
    assert_eq!(game.state.side_to_move, Color::Black);
    assert_eq!(game.state.board[28], Some(Piece { color: Color::White, kind: PieceKind::Pawn }));
    assert_eq!(game.cursor, (4, 3));
}

fn promotion_game(ai_sides: [bool; 2]) -> Game {
    let mut game = Game::new(ai_sides, Some(Color::White));
    let mut state = GameState {
        board: [None; 64],
        side_to_move: Color::White,
        castling: CastlingRights::new(),
        en_passant: None,
        halfmove_clock: 0,
        fullmove_number: 1,
    };
    state.board[4] = Some(Piece { color: Color::White, kind: PieceKind::King });
    state.board[63] = Some(Piece { color: Color::Black, kind: PieceKind::King });
    state.board[48] = Some(Piece { color: Color::White, kind: PieceKind::Pawn });
    game.state = state;
    game
}

fn promo(kind: PieceKind) -> Move {
    Move { from: 48, to: 56, promotion: Some(kind), is_en_passant: false, is_castling: false }
}

#[test]
fn a_promotion_asks_the_player() {
    let mut game = promotion_game([false, false]);
    let found = game.find_moves(48, 56).unwrap();
    assert_eq!(found.0, None);
    assert_eq!(
        found.1,
        [
            Some(promo(PieceKind::Rook)),
            Some(promo(PieceKind::Knight)),
            Some(promo(PieceKind::Bishop)),
            Some(promo(PieceKind::Queen)),
        ]
    );
    assert_eq!(game.find_moves(48, 57), None);
    assert_eq!(submit(&mut game, (0, 6), (0, 7)), Submitted::PromotionAsked);
    assert_eq!(game.selected, None);
    let prompt = game.promotion.unwrap();
    assert_eq!((prompt.from, prompt.to, prompt.color), (48, 56, Color::White));
    assert_eq!(prompt.moves, found.1);
    assert_eq!(game.next_task(), Task::AskPromotion);
    assert_eq!(game.state.board[48], Some(Piece { color: Color::White, kind: PieceKind::Pawn }));
    game.choose_promotion(PromotionChoice::Bishop);
    assert!(game.promotion.is_none());
    assert_eq!(game.state.board[56], Some(Piece { color: Color::White, kind: PieceKind::Bishop }));
    assert_eq!(game.last_move, Some((48, 56)));
    assert_eq!(game.state.side_to_move, Color::Black);
    // without a prompt a choice changes nothing
    game.choose_promotion(PromotionChoice::Queen);
    assert_eq!(game.state.side_to_move, Color::Black);
}

#[test]
fn a_promotion_submitted_for_the_search_takes_the_first_piece() {
    let mut game = promotion_game([true, false]);
    assert_eq!(game.next_task(), Task::RunAi);
    assert_eq!(submit(&mut game, (0, 6), (0, 7)), Submitted::Played);
    assert_eq!(game.state.board[56], Some(Piece { color: Color::White, kind: PieceKind::Rook }));
}

#[test]
fn find_moves_gives_the_plain_move() {
    let game = human_game();
    let found = game.find_moves(12, 28).unwrap();
    assert_eq!(found.0, Some(Move::quiet(12, 28)));
    assert_eq!(found.1, [None, None, None, None]);
    assert_eq!(game.find_moves(12, 36), None);
}

#[test]
fn the_search_plays_when_it_is_its_turn() {
    let mut game = Game::new([true, false], Some(Color::Black));
    assert!(game.is_ai_turn());
    assert_eq!(game.next_task(), Task::RunAi);
    let ticks = std::cell::Cell::new(0u32);
    game.run_ai(|| ticks.set(ticks.get() + 1));
    // the book opens with e4, without searching
    assert_eq!(game.last_move, Some((12, 28)));
    assert_eq!(ticks.get(), 0);
    assert_eq!(game.next_task(), Task::AwaitAction);
    let before = game.state;
    game.run_ai(|| {});
    assert!(game.state == before);
}

#[test]
fn material_counts() {
    assert_eq!(material_value(PieceKind::Pawn), 1);
    assert_eq!(material_value(PieceKind::Knight), 2);
    assert_eq!(material_value(PieceKind::Bishop), 3);
    assert_eq!(material_value(PieceKind::Rook), 5);
    assert_eq!(material_value(PieceKind::Queen), 9);
    assert_eq!(material_value(PieceKind::King), 0);
    let mut game = human_game();
    assert_eq!(game.material_scores(), (37, 37));
    assert_eq!(game.material_diff(Color::White), 0);
    game.state.board[59] = None;
    assert_eq!(game.material_scores(), (37, 28));
    assert_eq!(game.material_diff(Color::White), 9);
    assert_eq!(game.material_diff(Color::Black), -9);
}

#[test]
fn the_mated_player_is_told() {
    let mut game = human_game();
    assert!(!game.is_player_checkmated());
    for (from, to) in [((5u8, 1u8), (5, 2)), ((4, 6), (4, 4)), ((6, 1), (6, 3)), ((3, 7), (7, 3))] {
        assert_eq!(submit(&mut game, from, to), Submitted::Played);
    }
    assert!(game.is_player_checkmated());
    game.human_focus = Some(Color::Black);
    assert!(!game.is_player_checkmated());
    game.human_focus = None;
    assert!(!game.is_player_checkmated());
}

#[test]
fn keys_mean_actions() {
    assert_eq!(key_action(1, PressKind::Short), Some(Action::MoveLeft));
    assert_eq!(key_action(1, PressKind::Long), Some(Action::ToggleSelect));
    assert_eq!(key_action(2, PressKind::Short), Some(Action::MoveDown));
    assert_eq!(key_action(2, PressKind::Long), Some(Action::SubmitMove));
    assert_eq!(key_action(3, PressKind::Short), Some(Action::MoveUp));
    assert_eq!(key_action(3, PressKind::Long), None);
    assert_eq!(key_action(4, PressKind::Short), Some(Action::MoveRight));
    assert_eq!(key_action(4, PressKind::Long), None);
    assert_eq!(key_action(0, PressKind::Short), None);
    assert_eq!(key_action(5, PressKind::Short), None);
    assert_eq!(key_promotion(1, PressKind::Short), Some(PromotionChoice::Rook));
    assert_eq!(key_promotion(2, PressKind::Short), Some(PromotionChoice::Knight));
    assert_eq!(key_promotion(3, PressKind::Short), Some(PromotionChoice::Bishop));
    assert_eq!(key_promotion(4, PressKind::Short), Some(PromotionChoice::Queen));
    assert_eq!(key_promotion(4, PressKind::Long), None);
    assert_eq!(key_promotion(9, PressKind::Short), None);
}

#[test]
fn polling_stops_at_the_first_press() {
    let asked = std::cell::RefCell::new(Vec::new());
    let reader = |pressed: u8, kind: PressKind| {
        let asked = &asked;
        move |key: u8| {
            asked.borrow_mut().push(key);
            if key == pressed {
                Some(kind)
            } else {
                None
            }
        }
    };
    assert_eq!(poll_action(reader(2, PressKind::Long)), Some(Action::SubmitMove));
    assert_eq!(*asked.borrow(), vec![1, 2]);
    asked.borrow_mut().clear();
    // a long press of the third key means nothing, and the fourth is not asked
    assert_eq!(poll_action(reader(3, PressKind::Long)), None);
    assert_eq!(*asked.borrow(), vec![1, 2, 3]);
    asked.borrow_mut().clear();
    assert_eq!(poll_action(reader(0, PressKind::Short)), None);
    assert_eq!(*asked.borrow(), vec![1, 2, 3, 4]);
    asked.borrow_mut().clear();
    assert_eq!(poll_action(|_| Some(PressKind::Short)), Some(Action::MoveLeft));
    assert_eq!(poll_promotion_choice(reader(3, PressKind::Short)), Some(PromotionChoice::Bishop));
    assert_eq!(*asked.borrow(), vec![1, 2, 3]);
    asked.borrow_mut().clear();
    // a long press does not stop the polling for a promotion
    let mixed = |key: u8| {
        if key == 1 {
            Some(PressKind::Long)
        } else if key == 4 {
            Some(PressKind::Short)
        } else {
            None
        }
    };
    assert_eq!(poll_promotion_choice(mixed), Some(PromotionChoice::Queen));
    assert_eq!(poll_promotion_choice(|_| Some(PressKind::Long)), None);
    assert_eq!(poll_promotion_choice(|_| None), None);
}

fn run_detection(latched: &mut bool, readings: &[bool]) -> (Option<PressKind>, u32, usize) {
    let mut phase = Phase::First;
    let mut waited = 0;
    for (n, low) in readings.iter().enumerate() {
        match step(phase, latched, *low) {
            Verdict::Done { press } => return (press, waited, n + 1),
            Verdict::Again { wait_ms, next } => {
                waited += wait_ms;
                phase = next;
            }
        }
    }
    panic!("the readings ran out");
}

#[test]
fn debounce_tells_short_from_long() {
    assert_eq!((LONG_PRESS_MS, DEBOUNCE_MS, POLL_INTERVAL_MS), (500, 20, 10));
    let mut latched = false;
    // key up
    assert_eq!(run_detection(&mut latched, &[false, false]), (None, 0, 2));
    // a glitch: down, then up after the settling time
    assert_eq!(run_detection(&mut latched, &[true, true, false]), (None, 20, 3));
    // a short press: released after 30 ms of holding
    assert_eq!(
        run_detection(&mut latched, &[true, true, true, true, true, true, false]),
        (Some(PressKind::Short), 50, 7)
    );
    assert!(!latched);
    // a long press: still down after 500 ms
    let held = [true; 60];
    let (press, waited, readings) = run_detection(&mut latched, &held);
    assert_eq!(press, Some(PressKind::Long));
    assert_eq!(waited, 520);
    assert_eq!(readings, 54);
    assert!(latched);
    // still held: nothing more is reported
    assert_eq!(run_detection(&mut latched, &held), (None, 0, 1));
    assert!(latched);
    // released: the latch ends
    assert_eq!(run_detection(&mut latched, &[false, false]), (None, 0, 2));
    assert!(!latched);
}

#[test]
fn debounce_steps() {
    let mut latched = true;
    assert_eq!(
        step(Phase::First, &mut latched, false),
        Verdict::Again { wait_ms: 0, next: Phase::Second }
    );
    assert!(latched);
    assert_eq!(
        step(Phase::Held { ms: 490 }, &mut latched, true),
        Verdict::Again { wait_ms: 10, next: Phase::Held { ms: 500 } }
    );
    let mut latched = false;
    assert_eq!(
        step(Phase::Held { ms: 500 }, &mut latched, true),
        Verdict::Done { press: Some(PressKind::Long) }
    );
    assert!(latched);
    assert_eq!(
        step(Phase::Settled, &mut latched, true),
        Verdict::Again { wait_ms: 0, next: Phase::Held { ms: 0 } }
    );
}

#[test]
fn the_menu_moves_and_starts() {
    assert_eq!(menu_step(0, 2, PressKind::Short), MenuStep::Moved { selected: 1 });
    assert_eq!(menu_step(3, 2, PressKind::Short), MenuStep::Stay);
    assert_eq!(menu_step(3, 3, PressKind::Short), MenuStep::Moved { selected: 2 });
    assert_eq!(menu_step(0, 3, PressKind::Short), MenuStep::Stay);
    assert_eq!(menu_step(1, 2, PressKind::Long), MenuStep::Stay);
    assert_eq!(menu_step(1, 1, PressKind::Long), MenuStep::Stay);
    assert_eq!(menu_step(1, 4, PressKind::Short), MenuStep::Stay);
    assert_eq!(menu_step(0, 1, PressKind::Short), MenuStep::Start { mode: Mode::HumanVsHuman });
    assert_eq!(menu_step(1, 1, PressKind::Short), MenuStep::Start { mode: Mode::HumanVsComputer });
    assert_eq!(menu_step(2, 1, PressKind::Short), MenuStep::Start { mode: Mode::ComputerVsHuman });
    assert_eq!(
        menu_step(3, 1, PressKind::Short),
        MenuStep::Start { mode: Mode::ComputerVsComputer }
    );
    assert_eq!(mode_at(7), Mode::ComputerVsComputer);
    assert_eq!(Mode::HumanVsHuman.players(), ([false, false], Some(Color::White)));
    assert_eq!(Mode::HumanVsComputer.players(), ([false, true], Some(Color::White)));
    assert_eq!(Mode::ComputerVsHuman.players(), ([true, false], Some(Color::Black)));
    assert_eq!(Mode::ComputerVsComputer.players(), ([true, true], None));
    assert_eq!(left_pane_width(480, 64), 230);
    assert_eq!(left_pane_width(100, 64), 80);
    assert_eq!(left_pane_width(100, 65530), 65535);
}

#[test]
fn squares_alternate() {
    assert_eq!(square_color(0, 0), LIGHT_SQUARE);
    assert_eq!(square_color(1, 0), DARK_SQUARE);
    assert_eq!(square_color(0, 1), DARK_SQUARE);
    assert_eq!(square_color(7, 7), LIGHT_SQUARE);
    assert_eq!(square_color(255, 255), LIGHT_SQUARE);
    assert_eq!(square_color(255, 0), DARK_SQUARE);
    assert_eq!((LIGHT_SQUARE, DARK_SQUARE), (0xC618, 0x8410));
    assert_eq!(spinner_led(0), 1);
    assert_eq!(spinner_led(3), 4);
    assert_eq!(spinner_led(4), 1);
    assert_eq!(spinner_led(255), 4);
}

fn text_of(buf: &[u8; 12], start: usize) -> String {
    String::from_utf8(buf[start..].to_vec()).unwrap()
}

#[test]
fn numbers_as_text() {
    let mut buf = [0u8; 12];
    let start = u32_to_str(0, &mut buf);
    assert_eq!(text_of(&buf, start), "0");
    let start = u32_to_str(7, &mut buf);
    assert_eq!(text_of(&buf, start), "7");
    let start = u32_to_str(1203, &mut buf);
    assert_eq!(text_of(&buf, start), "1203");
    let start = u32_to_str(u32::MAX, &mut buf);
    assert_eq!(text_of(&buf, start), "4294967295");
    let start = i32_to_str(0, &mut buf);
    assert_eq!(text_of(&buf, start), "0");
    let start = i32_to_str(-9, &mut buf);
    assert_eq!(text_of(&buf, start), "-9");
    let start = i32_to_str(37, &mut buf);
    assert_eq!(text_of(&buf, start), "37");
    let start = i32_to_str(i32::MIN, &mut buf);
    assert_eq!(text_of(&buf, start), "-2147483648");
    let start = i32_to_str(i32::MAX, &mut buf);
    assert_eq!(text_of(&buf, start), "2147483647");
}

#[test]
fn squares_on_the_display() {
    assert_eq!(square_origin(0, 0), (0, 238));
    assert_eq!(square_origin(7, 7), (238, 0));
    assert_eq!(square_origin(3, 1), (102, 204));
    assert_eq!(sprite_origin(0, 0), (9, 245));
    assert_eq!(sprite_origin(7, 7), (247, 7));
}

#[test]
fn how_squares_are_shown() {
    let white_pawn = Some(Piece { color: Color::White, kind: PieceKind::Pawn });
    let mut game = human_game();
    // the cursor is on a1
    assert_eq!(
        game.square_look(0, 0),
        SquareLook {
            background: HIGHLIGHT_COLOR,
            piece: Some(Piece { color: Color::White, kind: PieceKind::Rook }),
            tint: None,
        }
    );
    assert_eq!(
        game.square_look(4, 1),
        SquareLook { background: DARK_SQUARE, piece: white_pawn, tint: None }
    );
    assert_eq!(
        game.square_look(4, 3),
        SquareLook { background: DARK_SQUARE, piece: None, tint: None }
    );
    assert_eq!(
        game.square_look(4, 2),
        SquareLook { background: LIGHT_SQUARE, piece: None, tint: None }
    );
    game.selected = Some(12);
    assert_eq!(
        game.square_look(4, 1),
        SquareLook { background: DARK_SQUARE, piece: white_pawn, tint: Some(SELECTED_PIECE_COLOR) }
    );
    assert_eq!(submit(&mut game, (4, 1), (4, 3)), Submitted::Played);
    // the cursor stands on e4 and hides the colour of the last move there
    assert_eq!(
        game.square_look(4, 3),
        SquareLook { background: HIGHLIGHT_COLOR, piece: white_pawn, tint: None }
    );
    assert_eq!(
        game.square_look(4, 1),
        SquareLook { background: LAST_MOVE_COLOR, piece: None, tint: None }
    );
    assert_eq!(game.shown_material_diff(), 0);

    let mut game = promotion_game([false, false]);
    assert_eq!(submit(&mut game, (0, 6), (0, 7)), Submitted::PromotionAsked);
    move_cursor_to(&mut game, 5, 5);
    assert_eq!(
        game.square_look(0, 7),
        SquareLook { background: PROMOTION_COLOR, piece: white_pawn, tint: None }
    );
    assert_eq!(
        game.square_look(0, 6),
        SquareLook { background: LIGHT_SQUARE, piece: None, tint: None }
    );
    assert_eq!(game.shown_material_diff(), 1);
    game.human_focus = Some(Color::Black);
    assert_eq!(game.shown_material_diff(), -1);
    game.human_focus = None;
    assert_eq!(game.shown_material_diff(), 1);
}
