//! A game at the board: the position together with the cursor, the
//! selection and the players, and what each request of a player does to them.
use vstd::prelude::*;
use crate::ai::{best_move_model, choose_best_move, AiConfig};
use crate::apply::apply_move;
use crate::attack::in_check;
use crate::interaction::{Action, PromotionChoice};
use crate::movegen::legal_moves;
use crate::position::{start, GameState, Position};
use crate::types::{Color, Move, Piece, PieceKind};
use crate::ui::{square_color, HIGHLIGHT_COLOR, LAST_MOVE_COLOR, PROMOTION_COLOR,
    SELECTED_PIECE_COLOR};

verus! {

/// A promotion that waits for the player's choice: the pawn's move, and the
/// legal move for each piece it may become, in the order rook, knight, bishop,
/// queen.
#[derive(Clone, Copy, Debug)]
pub struct PromotionPrompt {
    pub from: u8,
    pub to: u8,
    pub color: Color,
    pub moves: [Option<Move>; 4],
}

/// A game at the board.
pub struct Game {
    pub state: GameState,
    /// The cursor, as file and rank.
    pub cursor: (u8, u8),
    /// The selected square.
    pub selected: Option<u8>,
    pub promotion: Option<PromotionPrompt>,
    /// The squares of the last move played.
    pub last_move: Option<(u8, u8)>,
    /// Whether White and whether Black is played by the search.
    pub ai_sides: [bool; 2],
    /// The colour from whose side the game is shown.
    pub human_focus: Option<Color>,
}

/// The mathematical value of a game.
pub struct GameView {
    pub state: Position,
    pub cursor: (u8, u8),
    pub selected: Option<u8>,
    pub promotion: Option<PromotionPrompt>,
    pub last_move: Option<(u8, u8)>,
    pub ai_sides: [bool; 2],
    pub human_focus: Option<Color>,
}

impl View for Game {
    type V = GameView;

    open spec fn view(&self) -> GameView {
        GameView {
            state: self.state@,
            cursor: self.cursor,
            selected: self.selected,
            promotion: self.promotion,
            last_move: self.last_move,
            ai_sides: self.ai_sides,
            human_focus: self.human_focus,
        }
    }
}

/// How a square is shown: its colour, the piece on it, and the colour of
/// that piece where it is not the piece's own.
#[derive(Clone, Copy, Debug, PartialEq, Eq, Structural)]
pub struct SquareLook {
    pub background: u16,
    pub piece: Option<Piece>,
    pub tint: Option<u16>,
}

/// What the game loop has to do next.
#[derive(Clone, Copy, Debug, PartialEq, Eq, Structural)]
pub enum Task {
    /// Ask the player which piece the pawn becomes.
    AskPromotion,
    /// Let the search play.
    RunAi,
    /// Wait for the player's next request.
    AwaitAction,
}

/// What came of submitting a move.
#[derive(Clone, Copy, Debug, PartialEq, Eq, Structural)]
pub enum Submitted {
    /// Nothing was selected, or the cursor stands on the selected square.
    Nothing,
    /// No legal move leads from the selected square to the cursor.
    Illegal,
    /// The move promotes, and the player is asked for the piece.
    PromotionAsked,
    /// The move was played.
    Played,
}

/// What `material_value` gives, for use in contracts.
pub open spec fn spec_material_value(kind: PieceKind) -> u32 {
    match kind {
        PieceKind::Pawn => 1u32,
        PieceKind::Knight => 2u32,
        PieceKind::Bishop => 3u32,
        PieceKind::Rook => 5u32,
        PieceKind::Queen => 9u32,
        PieceKind::King => 0u32,
    }
}

/// What a piece counts for in the material display.
#[verifier::when_used_as_spec(spec_material_value)]
pub fn material_value(kind: PieceKind) -> (v: u32)
    ensures
        v == spec_material_value(kind),
{
    match kind {
        PieceKind::Pawn => 1,
        PieceKind::Knight => 2,
        PieceKind::Bishop => 3,
        PieceKind::Rook => 5,
        PieceKind::Queen => 9,
        PieceKind::King => 0,
    }
}

/// The material of `color` on the squares below `n`.
pub open spec fn material_of(p: Position, color: Color, n: int) -> int
    decreases n,
{
    if n <= 0 {
        0
    } else {
        material_of(p, color, n - 1) + match p.board[n - 1] {
            Some(piece) => if piece.color == color {
                material_value(piece.kind) as int
            } else {
                0
            },
            None => 0,
        }
    }
}

/// The last move of `moves` that leads from `src` to `dst` with the given
/// promotion.
pub open spec fn last_match(moves: Seq<Move>, src: u8, dst: u8, promotion: Option<PieceKind>) -> Option<
    Move,
>
    decreases moves.len(),
{
    if moves.len() == 0 {
        None
    } else if moves.last().from == src && moves.last().to == dst && moves.last().promotion
        == promotion {
        Some(moves.last())
    } else {
        last_match(moves.drop_last(), src, dst, promotion)
    }
}

/// Whether a move of `moves` leads from `src` to `dst`.
pub open spec fn any_match(moves: Seq<Move>, src: u8, dst: u8) -> bool {
    exists|i: int| 0 <= i < moves.len() && (#[trigger] moves[i]).from == src && moves[i].to == dst
}

/// The kind of piece in the `i`-th place of a promotion prompt.
pub open spec fn slot_kind(i: int) -> PieceKind {
    if i == 0 {
        PieceKind::Rook
    } else if i == 1 {
        PieceKind::Knight
    } else if i == 2 {
        PieceKind::Bishop
    } else {
        PieceKind::Queen
    }
}

/// The place of a choice in a promotion prompt.
pub open spec fn choice_slot(choice: PromotionChoice) -> int {
    match choice {
        PromotionChoice::Rook => 0,
        PromotionChoice::Knight => 1,
        PromotionChoice::Bishop => 2,
        PromotionChoice::Queen => 3,
    }
}

/// What `index` gives, for use in contracts.
pub open spec fn spec_index(file: u8, rank_from_bottom: u8) -> u8 {
    (rank_from_bottom * 8 + file) as u8
}

/// What `color_index` gives, for use in contracts.
pub open spec fn spec_color_index(color: Color) -> usize {
    match color {
        Color::White => 0usize,
        Color::Black => 1usize,
    }
}

impl GameView {
    /// How the square on the given file and rank is shown.
    ///
    /// The square under the cursor has the highlight colour; else a square
    /// of the last move has the colour of the last move; else the square on
    /// which a pawn waits for its promotion has the promotion colour; any
    /// other square has its own colour. While a promotion is pending, the
    /// square that the pawn left is shown empty and the pawn is shown on the
    /// square on which it promotes. The selected piece is shown in the colour
    /// of the selection.
    pub open spec fn square_look(self, file: u8, rank: u8) -> SquareLook {
        let idx = spec_index(file, rank);
        let promo_to = self.promotion matches Some(prompt) && prompt.to == idx;
        let promo_from = self.promotion matches Some(prompt) && prompt.from == idx;
        let on_last_move = self.last_move matches Some(squares) && (squares.0 == idx || squares.1
            == idx);
        SquareLook {
            background: if self.cursor == (file, rank) {
                HIGHLIGHT_COLOR
            } else if on_last_move {
                LAST_MOVE_COLOR
            } else if promo_to {
                PROMOTION_COLOR
            } else {
                square_color(file, rank)
            },
            piece: if promo_from {
                None
            } else if promo_to {
                Some(Piece { color: (self.promotion->0).color, kind: PieceKind::Pawn })
            } else {
                self.state.board[idx as int]
            },
            tint: if !promo_from && !promo_to && self.state.board[idx as int] is Some
                && self.selected == Some(idx) {
                Some(SELECTED_PIECE_COLOR)
            } else {
                None
            },
        }
    }

    /// The colour whose material balance is shown: that of the player from
    /// whose side the game is shown, White's where there is none.
    pub open spec fn shown_side(self) -> Color {
        match self.human_focus {
            Some(color) => color,
            None => Color::White,
        }
    }

    /// The cursor stands on the board.
    pub open spec fn wf(self) -> bool {
        self.cursor.0 < 8 && self.cursor.1 < 8 && self.state.board.len() == 64
    }

    /// The square under the cursor.
    pub open spec fn cursor_square(self) -> u8 {
        spec_index(self.cursor.0, self.cursor.1)
    }

    /// Whether the side to move is played by the search.
    pub open spec fn ai_to_move(self) -> bool {
        self.ai_sides@[spec_color_index(self.state.side_to_move) as int]
    }

    /// The game after `mv` is played, if it is legal; the same game if not.
    pub open spec fn played(self, mv: Move) -> GameView {
        if legal_moves(self.state).contains(mv) {
            GameView {
                state: apply_move(self.state, mv),
                last_move: Some((mv.from, mv.to)),
                ..self
            }
        } else {
            self
        }
    }

    /// The game after the selection is toggled: the selected square under
    /// the cursor loses the selection, an occupied square under the cursor
    /// gets it, and an empty one changes nothing.
    pub open spec fn toggled(self) -> GameView {
        if self.selected == Some(self.cursor_square()) {
            GameView { selected: None, ..self }
        } else if self.state.board[self.cursor_square() as int] is Some {
            GameView { selected: Some(self.cursor_square()), ..self }
        } else {
            self
        }
    }

    /// What comes of submitting the move from the selected square to the
    /// cursor.
    pub open spec fn submission(self) -> Submitted {
        match self.selected {
            None => Submitted::Nothing,
            Some(src) => {
                let dst = self.cursor_square();
                let moves = legal_moves(self.state);
                if src == dst {
                    Submitted::Nothing
                } else if !any_match(moves, src, dst) {
                    Submitted::Illegal
                } else if self.promotes(src, dst) && !self.ai_to_move() {
                    Submitted::PromotionAsked
                } else if self.submitted_move(src, dst) is Some {
                    Submitted::Played
                } else {
                    Submitted::Nothing
                }
            },
        }
    }

    /// Whether a legal move from `src` to `dst` promotes to one of the four
    /// pieces of a prompt.
    pub open spec fn promotes(self, src: u8, dst: u8) -> bool {
        exists|i: int|
            0 <= i < 4 && #[trigger] last_match(
                legal_moves(self.state),
                src,
                dst,
                Some(slot_kind(i)),
            ) is Some
    }

    /// The move that is played for a submission from `src` to `dst`: the
    /// move without promotion if there is one, else the first promotion in the
    /// order of a prompt.
    pub open spec fn submitted_move(self, src: u8, dst: u8) -> Option<Move> {
        let moves = legal_moves(self.state);
        if last_match(moves, src, dst, None) is Some {
            last_match(moves, src, dst, None)
        } else if last_match(moves, src, dst, Some(slot_kind(0))) is Some {
            last_match(moves, src, dst, Some(slot_kind(0)))
        } else if last_match(moves, src, dst, Some(slot_kind(1))) is Some {
            last_match(moves, src, dst, Some(slot_kind(1)))
        } else if last_match(moves, src, dst, Some(slot_kind(2))) is Some {
            last_match(moves, src, dst, Some(slot_kind(2)))
        } else {
            last_match(moves, src, dst, Some(slot_kind(3)))
        }
    }
}

impl Game {
    /// A new game at the initial position, the cursor on a1.
    pub fn new(ai_sides: [bool; 2], human_focus: Option<Color>) -> (game: Game)
        ensures
            game@ == (GameView {
                state: start(),
                cursor: (0u8, 0u8),
                selected: None,
                promotion: None,
                last_move: None,
                ai_sides,
                human_focus,
            }),
            game@.wf(),
    {
        Game {
            state: GameState::start_position(),
            cursor: (0, 0),
            selected: None,
            promotion: None,
            last_move: None,
            ai_sides,
            human_focus,
        }
    }

    /// The square on the given file and rank, the rank counted from White's
    /// side.
    pub fn index(file: u8, rank_from_bottom: u8) -> (sq: u8)
        requires
            file < 8,
            rank_from_bottom < 8,
        ensures
            sq == spec_index(file, rank_from_bottom),
            sq < 64,
    {
        rank_from_bottom * 8 + file
    }

    /// The place of a colour in `ai_sides`.
    pub fn color_index(color: Color) -> (i: usize)
        ensures
            i == spec_color_index(color),
            i < 2,
    {
        match color {
            Color::White => 0,
            Color::Black => 1,
        }
    }

    /// Whether the side to move is played by the search.
    pub fn is_ai_turn(&self) -> (r: bool)
        ensures
            r == self@.ai_to_move(),
    {
        self.ai_sides[Self::color_index(self.state.side_to_move)]
    }

    /// Whether the side to move is played by a person.
    pub fn is_human_turn(&self) -> (r: bool)
        ensures
            r == !self@.ai_to_move(),
    {
        !self.is_ai_turn()
    }

    /// What the game loop has to do next: a pending promotion comes first,
    /// then the search if it is to move, else the player.
    pub fn next_task(&self) -> (task: Task)
        ensures
            task == if self@.promotion is Some {
                Task::AskPromotion
            } else if self@.ai_to_move() {
                Task::RunAi
            } else {
                Task::AwaitAction
            },
    {
        if self.promotion.is_some() {
            Task::AskPromotion
        } else if self.is_ai_turn() {
            Task::RunAi
        } else {
            Task::AwaitAction
        }
    }

    /// Selects the piece under the cursor, or drops the selection if the
    /// cursor stands on the selected square.
    pub fn toggle_select(&mut self)
        requires
            old(self)@.wf(),
        ensures
            final(self)@ == old(self)@.toggled(),
    {
        let idx = Self::index(self.cursor.0, self.cursor.1);
        if let Some(sel) = self.selected {
            if sel == idx {
                self.selected = None;
                return ;
            }
        }
        if self.state.board[idx as usize].is_some() {
            self.selected = Some(idx);
        }
    }

    /// The place in a promotion prompt of a piece that a pawn may become.
    fn promotion_slot(kind: PieceKind) -> (slot: Option<usize>)
        ensures
            match slot {
                Some(i) => i < 4 && slot_kind(i as int) == kind,
                None => forall|i: int| 0 <= i < 4 ==> slot_kind(i) != kind,
            },
    {
        match kind {
            PieceKind::Rook => Some(0),
            PieceKind::Knight => Some(1),
            PieceKind::Bishop => Some(2),
            PieceKind::Queen => Some(3),
            PieceKind::King | PieceKind::Pawn => {
                assert(slot_kind(0) != kind && slot_kind(1) != kind && slot_kind(2) != kind
                    && slot_kind(3) != kind);
                None
            },
        }
    }

    /// The legal moves from `src` to `dst`: none if there is no such move,
    /// else the move without promotion and the promotions to rook, knight,
    /// bishop and queen, each as far as it is legal.
    pub fn find_moves(&self, src: u8, dst: u8) -> (r: Option<(Option<Move>, [Option<Move>; 4])>)
        ensures
            r is Some <==> any_match(legal_moves(self@.state), src, dst),
            r matches Some(found) ==> {
                &&& found.0 == last_match(legal_moves(self@.state), src, dst, None)
                &&& forall|i: int|
                    0 <= i < 4 ==> found.1@[i] == last_match(
                        legal_moves(self@.state),
                        src,
                        dst,
                        Some(slot_kind(i)),
                    )
            },
    {
        let mut normal: Option<Move> = None;
        let mut promos: [Option<Move>; 4] = [None, None, None, None];
        let mut found = false;
        let moves = self.state.generate_legal_moves();
        let ghost all = moves@;
        let mut i: usize = 0;
        while i < moves.len
            invariant
                i <= moves.len,
                moves.wf(),
                all == moves@,
                found == any_match(all.subrange(0, i as int), src, dst),
                normal == last_match(all.subrange(0, i as int), src, dst, None),
                forall|k: int|
                    0 <= k < 4 ==> promos@[k] == last_match(
                        all.subrange(0, i as int),
                        src,
                        dst,
                        Some(slot_kind(k)),
                    ),
            decreases moves.len - i,
        {
            let mv = moves.get(i);
            let ghost before = all.subrange(0, i as int);
            let ghost after = all.subrange(0, i + 1);
            proof {
                assert(after.drop_last() =~= before);
                assert(after.last() == mv);
                if any_match(before, src, dst) {
                    let w = choose|w: int|
                        0 <= w < before.len() && (#[trigger] before[w]).from == src && before[w].to
                            == dst;
                    assert(after[w] == before[w]);
                }
                if any_match(after, src, dst) && !(mv.from == src && mv.to == dst) {
                    let w = choose|w: int|
                        0 <= w < after.len() && (#[trigger] after[w]).from == src && after[w].to
                            == dst;
                    assert(before[w] == after[w]);
                }
            }
            if mv.from == src && mv.to == dst {
                found = true;
                assert(after[i as int].from == src);
                match mv.promotion {
                    Some(kind) => {
                        if let Some(slot) = Self::promotion_slot(kind) {
                            promos[slot] = Some(mv);
                        }
                    },
                    None => {
                        normal = Some(mv);
                    },
                }
            }
            i += 1;
        }
        proof {
            assert(all.subrange(0, moves.len as int) =~= all);
        }
        if found {
            Some((normal, promos))
        } else {
            None
        }
    }

    /// The material of White and of Black.
    pub fn material_scores(&self) -> (r: (u32, u32))
        ensures
            r.0 == material_of(self@.state, Color::White, 64),
            r.1 == material_of(self@.state, Color::Black, 64),
    {
        let mut white: u32 = 0;
        let mut black: u32 = 0;
        let mut sq: usize = 0;
        while sq < 64
            invariant
                sq <= 64,
                white == material_of(self@.state, Color::White, sq as int),
                black == material_of(self@.state, Color::Black, sq as int),
                white <= 9 * sq,
                black <= 9 * sq,
            decreases 64 - sq,
        {
            if let Some(piece) = self.state.board[sq] {
                let v = material_value(piece.kind);
                match piece.color {
                    Color::White => {
                        white = white + v;
                    },
                    Color::Black => {
                        black = black + v;
                    },
                }
            }
            sq += 1;
        }
        (white, black)
    }

    /// By how much the material of `player` exceeds that of the other side.
    pub fn material_diff(&self, player: Color) -> (diff: i32)
        ensures
            diff == material_of(self@.state, player, 64) - material_of(
                self@.state,
                player.opposite(),
                64,
            ),
    {
        let (white, black) = self.material_scores();
        proof {
            lemma_material_of_bound(self@.state, Color::White, 64);
            lemma_material_of_bound(self@.state, Color::Black, 64);
        }
        match player {
            Color::White => white as i32 - black as i32,
            Color::Black => black as i32 - white as i32,
        }
    }

    /// How the square on the given file and rank is shown.
    pub fn square_look(&self, file: u8, rank: u8) -> (look: SquareLook)
        requires
            file < 8,
            rank < 8,
        ensures
            look == self@.square_look(file, rank),
    {
        let idx = Self::index(file, rank);
        let mut promo_to = false;
        let mut promo_from = false;
        let mut pawn_color = Color::White;
        if let Some(prompt) = self.promotion {
            promo_to = prompt.to == idx;
            promo_from = prompt.from == idx;
            pawn_color = prompt.color;
        }
        let on_last_move = match self.last_move {
            Some(squares) => squares.0 == idx || squares.1 == idx,
            None => false,
        };
        let background = if self.cursor.0 == file && self.cursor.1 == rank {
            HIGHLIGHT_COLOR
        } else if on_last_move {
            LAST_MOVE_COLOR
        } else if promo_to {
            PROMOTION_COLOR
        } else {
            square_color(file, rank)
        };
        if promo_from {
            return SquareLook { background, piece: None, tint: None };
        }
        if promo_to {
            return SquareLook {
                background,
                piece: Some(Piece { color: pawn_color, kind: PieceKind::Pawn }),
                tint: None,
            };
        }
        let piece = self.state.board[idx as usize];
        let selected_here = match self.selected {
            Some(sel) => sel == idx,
            None => false,
        };
        let tint = if piece.is_some() && selected_here {
            Some(SELECTED_PIECE_COLOR)
        } else {
            None
        };
        SquareLook { background, piece, tint }
    }

    /// By how much the material of the side whose balance is shown exceeds
    /// that of the other side.
    pub fn shown_material_diff(&self) -> (diff: i32)
        ensures
            diff == material_of(self@.state, self@.shown_side(), 64) - material_of(
                self@.state,
                self@.shown_side().opposite(),
                64,
            ),
    {
        let side = match self.human_focus {
            Some(color) => color,
            None => Color::White,
        };
        self.material_diff(side)
    }

    /// Whether the player from whose side the game is shown is to move and
    /// is mated.
    pub fn is_player_checkmated(&self) -> (r: bool)
        ensures
            r == match self@.human_focus {
                Some(color) => self@.state.side_to_move == color && legal_moves(
                    self@.state,
                ).len() == 0 && in_check(self@.state, color),
                None => false,
            },
    {
        let color = match self.human_focus {
            Some(color) => color,
            None => {
                return false;
            },
        };
        if self.state.side_to_move != color {
            return false;
        }
        let moves = self.state.generate_legal_moves();
        moves.len == 0 && self.state.is_in_check(color)
    }

    /// Plays `mv` if it is legal.
    fn play(&mut self, mv: Move) -> (done: bool)
        ensures
            final(self)@ == old(self)@.played(mv),
            done == legal_moves(old(self)@.state).contains(mv),
    {
        match self.state.make_move(mv) {
            Some(next) => {
                self.state = next;
                self.last_move = Some((mv.from, mv.to));
                true
            },
            None => false,
        }
    }

    /// Submits the move from the selected square to the cursor.
    ///
    /// Nothing happens without a selection, with the cursor on the selected
    /// square, or if no legal move leads there. A move that promotes, made by
    /// a person, opens a promotion prompt and drops the selection. Any other
    /// move is played and the selection dropped.
    pub fn try_submit_move(&mut self) -> (outcome: Submitted)
        requires
            old(self)@.wf(),
        ensures
            outcome == old(self)@.submission(),
            final(self)@ == match outcome {
                Submitted::Nothing | Submitted::Illegal => old(self)@,
                Submitted::PromotionAsked => (GameView {
                    promotion: final(self)@.promotion,
                    selected: None,
                    ..old(self)@
                }),
                Submitted::Played => (GameView {
                    selected: None,
                    ..old(self)@.played(
                        old(self)@.submitted_move(
                            old(self)@.selected->0,
                            old(self)@.cursor_square(),
                        )->0,
                    )
                }),
            },
            outcome == Submitted::PromotionAsked ==> (final(self)@.promotion matches Some(prompt)
                && prompt.from == old(self)@.selected->0 && prompt.to == old(self)@.cursor_square() && prompt.color == old(self)@.state.side_to_move && forall|i: int|
                0 <= i < 4 ==> prompt.moves@[i] == last_match(
                    legal_moves(old(self)@.state),
                    prompt.from,
                    prompt.to,
                    Some(slot_kind(i)),
                )),
    {
        let src = match self.selected {
            Some(src) => src,
            None => {
                return Submitted::Nothing;
            },
        };
        let dst = Self::index(self.cursor.0, self.cursor.1);
        if src == dst {
            return Submitted::Nothing;
        }
        let (normal, promo_moves) = match self.find_moves(src, dst) {
            Some(found) => found,
            None => {
                return Submitted::Illegal;
            },
        };
        let any_promotion = promo_moves[0].is_some() || promo_moves[1].is_some()
            || promo_moves[2].is_some() || promo_moves[3].is_some();
        proof {
            let moves = legal_moves(self@.state);
            if any_promotion {
                let k = if promo_moves@[0] is Some {
                    0int
                } else if promo_moves@[1] is Some {
                    1int
                } else if promo_moves@[2] is Some {
                    2int
                } else {
                    3int
                };
                assert(last_match(moves, src, dst, Some(slot_kind(k))) is Some);
            }
        }
        if any_promotion && self.is_human_turn() {
            self.promotion = Some(
                PromotionPrompt {
                    from: src,
                    to: dst,
                    color: self.state.side_to_move,
                    moves: promo_moves,
                },
            );
            self.selected = None;
            return Submitted::PromotionAsked;
        }
        let chosen = if normal.is_some() {
            normal
        } else if promo_moves[0].is_some() {
            promo_moves[0]
        } else if promo_moves[1].is_some() {
            promo_moves[1]
        } else if promo_moves[2].is_some() {
            promo_moves[2]
        } else {
            promo_moves[3]
        };
        if let Some(mv) = chosen {
            proof {
                let moves = legal_moves(self@.state);
                lemma_last_match_in(moves, src, dst, None);
                lemma_last_match_in(moves, src, dst, Some(slot_kind(0)));
                lemma_last_match_in(moves, src, dst, Some(slot_kind(1)));
                lemma_last_match_in(moves, src, dst, Some(slot_kind(2)));
                lemma_last_match_in(moves, src, dst, Some(slot_kind(3)));
            }
            if self.play(mv) {
                self.selected = None;
                return Submitted::Played;
            }
        }
        Submitted::Nothing
    }

    /// Does what the player asks for: the cursor moves by one square and
    /// stops at the edge of the board, the selection is toggled, or the move
    /// is submitted.
    pub fn apply_action(&mut self, action: Action) -> (outcome: Option<Submitted>)
        requires
            old(self)@.wf(),
        ensures
            final(self)@.wf(),
            match action {
                Action::MoveLeft => outcome is None && final(self)@ == (GameView {
                    cursor: (
                        if old(self).cursor.0 == 0 {
                            0u8
                        } else {
                            (old(self).cursor.0 - 1) as u8
                        },
                        old(self).cursor.1,
                    ),
                    ..old(self)@
                }),
                Action::MoveRight => outcome is None && final(self)@ == (GameView {
                    cursor: (
                        if old(self).cursor.0 == 7 {
                            7u8
                        } else {
                            (old(self).cursor.0 + 1) as u8
                        },
                        old(self).cursor.1,
                    ),
                    ..old(self)@
                }),
                Action::MoveUp => outcome is None && final(self)@ == (GameView {
                    cursor: (
                        old(self).cursor.0,
                        if old(self).cursor.1 == 7 {
                            7u8
                        } else {
                            (old(self).cursor.1 + 1) as u8
                        },
                    ),
                    ..old(self)@
                }),
                Action::MoveDown => outcome is None && final(self)@ == (GameView {
                    cursor: (
                        old(self).cursor.0,
                        if old(self).cursor.1 == 0 {
                            0u8
                        } else {
                            (old(self).cursor.1 - 1) as u8
                        },
                    ),
                    ..old(self)@
                }),
                Action::ToggleSelect => outcome is None && final(self)@ == old(self)@.toggled(),
                Action::SubmitMove => outcome == Some(old(self)@.submission()) && final(self)@.cursor == old(self)@.cursor,
            },
    {
        match action {
            Action::MoveLeft => {
                self.cursor.0 = self.cursor.0.saturating_sub(1);
                None
            },
            Action::MoveRight => {
                if self.cursor.0 < 7 {
                    self.cursor.0 = self.cursor.0 + 1;
                }
                None
            },
            Action::MoveUp => {
                if self.cursor.1 < 7 {
                    self.cursor.1 = self.cursor.1 + 1;
                }
                None
            },
            Action::MoveDown => {
                self.cursor.1 = self.cursor.1.saturating_sub(1);
                None
            },
            Action::ToggleSelect => {
                self.toggle_select();
                None
            },
            Action::SubmitMove => {
                let outcome = self.try_submit_move();
                proof {
                    if outcome == Submitted::Played {
                        let mv = old(self)@.submitted_move(
                            old(self)@.selected->0,
                            old(self)@.cursor_square(),
                        )->0;
                        if legal_moves(old(self)@.state).contains(mv) {
                            crate::soundness::lemma_legal_ok(old(self)@.state, mv);
                            crate::laws::law_board_stays_whole(old(self)@.state, mv);
                        }
                    }
                }
                Some(outcome)
            },
        }
    }

    /// Settles a pending promotion with the player's choice: the move for
    /// the chosen piece is played if the prompt holds one, and the prompt and
    /// the selection are dropped. Without a pending promotion nothing changes.
    pub fn choose_promotion(&mut self, choice: PromotionChoice)
        ensures
            final(self)@ == match old(self)@.promotion {
                Some(prompt) => {
                    let played = match prompt.moves@[choice_slot(choice)] {
                        Some(mv) => old(self)@.played(mv),
                        None => old(self)@,
                    };
                    GameView { promotion: None, selected: None, ..played }
                },
                None => old(self)@,
            },
    {
        let prompt = match self.promotion {
            Some(prompt) => prompt,
            None => {
                return ;
            },
        };
        let idx: usize = match choice {
            PromotionChoice::Rook => 0,
            PromotionChoice::Knight => 1,
            PromotionChoice::Bishop => 2,
            PromotionChoice::Queen => 3,
        };
        if let Some(mv) = prompt.moves[idx] {
            self.play(mv);
        }
        self.promotion = None;
        self.selected = None;
    }

    /// Lets the search play for the side to move, if that side is played by
    /// the search: the move it chooses with the default configuration is
    /// played. `tick` is handed on to the search.
    pub fn run_ai<F: FnMut()>(&mut self, tick: F)
        requires
            call_requires(tick, ()),
        ensures
            final(self)@ == if old(self)@.ai_to_move() {
                match best_move_model(
                    old(self)@.state,
                    old(self)@.state.side_to_move,
                    (AiConfig { max_depth: 6, node_limit: Some(20_000u32) }),
                ) {
                    Some(mv) => old(self)@.played(mv),
                    None => old(self)@,
                }
            } else {
                old(self)@
            },
    {
        if !self.is_ai_turn() {
            return ;
        }
        let cfg = AiConfig::default();
        let ai_color = self.state.side_to_move;
        if let Some(mv) = choose_best_move(&self.state, ai_color, cfg, tick) {
            self.play(mv);
        }
    }
}

/// The material of one side on `n` squares is at most nine a square.
pub proof fn lemma_material_of_bound(p: Position, color: Color, n: int)
    requires
        0 <= n,
    ensures
        0 <= material_of(p, color, n) <= 9 * n,
    decreases n,
{
    if n > 0 {
        lemma_material_of_bound(p, color, n - 1);
    }
}

/// The last matching move of a list is one of its moves, and it matches.
pub proof fn lemma_last_match_in(moves: Seq<Move>, src: u8, dst: u8, promotion: Option<PieceKind>)
    ensures
        last_match(moves, src, dst, promotion) matches Some(mv) ==> moves.contains(mv) && mv.from
            == src && mv.to == dst && mv.promotion == promotion,
    decreases moves.len(),
{
    if moves.len() > 0 {
        if moves.last().from == src && moves.last().to == dst && moves.last().promotion
            == promotion {
            assert(moves[moves.len() - 1] == moves.last());
        } else {
            lemma_last_match_in(moves.drop_last(), src, dst, promotion);
            if last_match(moves, src, dst, promotion) is Some {
                let mv = last_match(moves, src, dst, promotion)->0;
                let k = choose|k: int|
                    0 <= k < moves.drop_last().len() && moves.drop_last()[k] == mv;
                assert(moves[k] == mv);
            }
        }
    }
}

} // verus!
