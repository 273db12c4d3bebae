//! A small opening book: fixed lines of play from the initial position.
use vstd::prelude::*;
use crate::apply::apply_move;
use crate::laws::play_line;
use crate::movegen::{castling, legal_moves};
use crate::position::{start, GameState, Position};
use crate::types::Move;

verus! {

/// The number of lines in the book.
pub const BOOK_SIZE: usize = 5;

/// One line of the book: the moves of a game from the initial position.
pub struct BookLine {
    pub moves: &'static [Move],
}

impl View for BookLine {
    type V = Seq<Move>;

    open spec fn view(&self) -> Seq<Move> {
        self.moves@
    }
}

/// 1. e4 e5 2. Nf3 Nc6 3. Bc4 Bc5 4. Ng5 Bd4.
pub open spec fn italian() -> Seq<Move> {
    seq![
        Move::quiet(12, 28),
        Move::quiet(52, 36),
        Move::quiet(6, 21),
        Move::quiet(57, 42),
        Move::quiet(5, 26),
        Move::quiet(61, 34),
        Move::quiet(21, 38),
        Move::quiet(34, 27),
    ]
}

/// 1. e4 e5 2. Nf3 Nc6 3. Bb5 a6 4. Ba4 Nf6 5. O-O Be7.
pub open spec fn ruy_lopez_main() -> Seq<Move> {
    seq![
        Move::quiet(12, 28),
        Move::quiet(52, 36),
        Move::quiet(6, 21),
        Move::quiet(57, 42),
        Move::quiet(5, 33),
        Move::quiet(48, 40),
        Move::quiet(33, 24),
        Move::quiet(62, 45),
        castling(4, 6),
        Move::quiet(61, 52),
    ]
}

/// 1. d4 d5 2. c4 e6 3. Nc3 Nf6 4. Bg5.
pub open spec fn queens_gambit() -> Seq<Move> {
    seq![
        Move::quiet(11, 27),
        Move::quiet(51, 35),
        Move::quiet(10, 26),
        Move::quiet(52, 44),
        Move::quiet(1, 18),
        Move::quiet(62, 45),
        Move::quiet(2, 38),
    ]
}

/// 1. e4 c5 2. Nf3 d6 3. d4 cxd4 4. Ne5 a6 5. Nxf7 Nc6.
pub open spec fn sicilian_najdorfish() -> Seq<Move> {
    seq![
        Move::quiet(12, 28),
        Move::quiet(50, 34),
        Move::quiet(6, 21),
        Move::quiet(51, 43),
        Move::quiet(11, 27),
        Move::quiet(34, 27),
        Move::quiet(21, 36),
        Move::quiet(48, 40),
        Move::quiet(36, 53),
        Move::quiet(57, 42),
    ]
}

/// 1. e4 c5 2. Nf3 d5 3. exd5, and three plies more: a capture from c6 to
/// d5, c4 and Nc6. After the fifth ply no piece stands on c6, so the replay of
/// this line ends there, with that capture as the line's answer.
pub open spec fn caro_kann() -> Seq<Move> {
    seq![
        Move::quiet(12, 28),
        Move::quiet(50, 34),
        Move::quiet(6, 21),
        Move::quiet(51, 35),
        Move::quiet(28, 35),
        Move::quiet(42, 35),
        Move::quiet(10, 26),
        Move::quiet(57, 42),
    ]
}

/// The `i`-th line of the book, in the order of their priority.
pub open spec fn book_line(i: int) -> Seq<Move> {
    if i == 0 {
        italian()
    } else if i == 1 {
        ruy_lopez_main()
    } else if i == 2 {
        queens_gambit()
    } else if i == 3 {
        sicilian_najdorfish()
    } else {
        caro_kann()
    }
}

/// What `line` answers in position `p`, the line having been replayed up to
/// its ply `k` and `sim` being the position reached there.
///
/// The line has no answer once it is used up. Else, if `sim` is `p`, the
/// answer is the ply that the line plays next, as it is recorded. If not, and
/// that ply is legal in `sim`, the replay goes on behind it; if it is not
/// legal, the replay ends without an answer.
pub open spec fn line_answer(p: Position, line: Seq<Move>, k: int, sim: Position) -> Option<Move>
    decreases line.len() - k,
{
    if k < 0 || k >= line.len() {
        None
    } else if sim == p {
        Some(line[k])
    } else if legal_moves(sim).contains(line[k]) {
        line_answer(p, line, k + 1, apply_move(sim, line[k]))
    } else {
        None
    }
}

/// The answer of the first line from the `i`-th on that has one.
pub open spec fn book_answer_from(p: Position, i: int) -> Option<Move>
    decreases BOOK_SIZE - i,
{
    if i < 0 || i >= BOOK_SIZE {
        None
    } else {
        match line_answer(p, book_line(i), 0, start()) {
            Some(m) => Some(m),
            None => book_answer_from(p, i + 1),
        }
    }
}

/// What the book plays in position `p`: the answer of the first line that
/// has one.
pub open spec fn book_answer(p: Position) -> Option<Move> {
    book_answer_from(p, 0)
}

/// The line `italian` as stored moves.
fn italian_line() -> (line: BookLine)
    ensures
        line@ == italian(),
{
    let moves: &'static [Move; 8] = &[
        Move { from: 12, to: 28, promotion: None, is_en_passant: false, is_castling: false },
        Move { from: 52, to: 36, promotion: None, is_en_passant: false, is_castling: false },
        Move { from: 6, to: 21, promotion: None, is_en_passant: false, is_castling: false },
        Move { from: 57, to: 42, promotion: None, is_en_passant: false, is_castling: false },
        Move { from: 5, to: 26, promotion: None, is_en_passant: false, is_castling: false },
        Move { from: 61, to: 34, promotion: None, is_en_passant: false, is_castling: false },
        Move { from: 21, to: 38, promotion: None, is_en_passant: false, is_castling: false },
        Move { from: 34, to: 27, promotion: None, is_en_passant: false, is_castling: false },
    ];
    assert(moves@ =~= italian());
    BookLine { moves }
}

/// The line `ruy_lopez_main` as stored moves.
fn ruy_lopez_main_line() -> (line: BookLine)
    ensures
        line@ == ruy_lopez_main(),
{
    let moves: &'static [Move; 10] = &[
        Move { from: 12, to: 28, promotion: None, is_en_passant: false, is_castling: false },
        Move { from: 52, to: 36, promotion: None, is_en_passant: false, is_castling: false },
        Move { from: 6, to: 21, promotion: None, is_en_passant: false, is_castling: false },
        Move { from: 57, to: 42, promotion: None, is_en_passant: false, is_castling: false },
        Move { from: 5, to: 33, promotion: None, is_en_passant: false, is_castling: false },
        Move { from: 48, to: 40, promotion: None, is_en_passant: false, is_castling: false },
        Move { from: 33, to: 24, promotion: None, is_en_passant: false, is_castling: false },
        Move { from: 62, to: 45, promotion: None, is_en_passant: false, is_castling: false },
        Move { from: 4, to: 6, promotion: None, is_en_passant: false, is_castling: true },
        Move { from: 61, to: 52, promotion: None, is_en_passant: false, is_castling: false },
    ];
    assert(moves@ =~= ruy_lopez_main());
    BookLine { moves }
}

/// The line `queens_gambit` as stored moves.
fn queens_gambit_line() -> (line: BookLine)
    ensures
        line@ == queens_gambit(),
{
    let moves: &'static [Move; 7] = &[
        Move { from: 11, to: 27, promotion: None, is_en_passant: false, is_castling: false },
        Move { from: 51, to: 35, promotion: None, is_en_passant: false, is_castling: false },
        Move { from: 10, to: 26, promotion: None, is_en_passant: false, is_castling: false },
        Move { from: 52, to: 44, promotion: None, is_en_passant: false, is_castling: false },
        Move { from: 1, to: 18, promotion: None, is_en_passant: false, is_castling: false },
        Move { from: 62, to: 45, promotion: None, is_en_passant: false, is_castling: false },
        Move { from: 2, to: 38, promotion: None, is_en_passant: false, is_castling: false },
    ];
    assert(moves@ =~= queens_gambit());
    BookLine { moves }
}

/// The line `sicilian_najdorfish` as stored moves.
fn sicilian_najdorfish_line() -> (line: BookLine)
    ensures
        line@ == sicilian_najdorfish(),
{
    let moves: &'static [Move; 10] = &[
        Move { from: 12, to: 28, promotion: None, is_en_passant: false, is_castling: false },
        Move { from: 50, to: 34, promotion: None, is_en_passant: false, is_castling: false },
        Move { from: 6, to: 21, promotion: None, is_en_passant: false, is_castling: false },
        Move { from: 51, to: 43, promotion: None, is_en_passant: false, is_castling: false },
        Move { from: 11, to: 27, promotion: None, is_en_passant: false, is_castling: false },
        Move { from: 34, to: 27, promotion: None, is_en_passant: false, is_castling: false },
        Move { from: 21, to: 36, promotion: None, is_en_passant: false, is_castling: false },
        Move { from: 48, to: 40, promotion: None, is_en_passant: false, is_castling: false },
        Move { from: 36, to: 53, promotion: None, is_en_passant: false, is_castling: false },
        Move { from: 57, to: 42, promotion: None, is_en_passant: false, is_castling: false },
    ];
    assert(moves@ =~= sicilian_najdorfish());
    BookLine { moves }
}

/// The line `caro_kann` as stored moves.
fn caro_kann_line() -> (line: BookLine)
    ensures
        line@ == caro_kann(),
{
    let moves: &'static [Move; 8] = &[
        Move { from: 12, to: 28, promotion: None, is_en_passant: false, is_castling: false },
        Move { from: 50, to: 34, promotion: None, is_en_passant: false, is_castling: false },
        Move { from: 6, to: 21, promotion: None, is_en_passant: false, is_castling: false },
        Move { from: 51, to: 35, promotion: None, is_en_passant: false, is_castling: false },
        Move { from: 28, to: 35, promotion: None, is_en_passant: false, is_castling: false },
        Move { from: 42, to: 35, promotion: None, is_en_passant: false, is_castling: false },
        Move { from: 10, to: 26, promotion: None, is_en_passant: false, is_castling: false },
        Move { from: 57, to: 42, promotion: None, is_en_passant: false, is_castling: false },
    ];
    assert(moves@ =~= caro_kann());
    BookLine { moves }
}

/// The `i`-th line of the book.
pub fn book_line_at(i: usize) -> (line: BookLine)
    requires
        i < BOOK_SIZE,
    ensures
        line@ == book_line(i as int),
{
    if i == 0 {
        italian_line()
    } else if i == 1 {
        ruy_lopez_main_line()
    } else if i == 2 {
        queens_gambit_line()
    } else if i == 3 {
        sicilian_najdorfish_line()
    } else {
        caro_kann_line()
    }
}

/// Replays `line` from the initial position and, where the replay meets
/// `state`, gives the move that the line plays there.
pub fn match_prefix(state: &GameState, line: &BookLine) -> (r: Option<Move>)
    ensures
        r == line_answer(state@, line@, 0, start()),
{
    let mut sim = GameState::start_position();
    let n = line.moves.len();
    let mut idx: usize = 0;
    while idx < n
        invariant
            idx <= n,
            n == line@.len(),
            line_answer(state@, line@, idx as int, sim@) == line_answer(
                state@,
                line@,
                0,
                start(),
            ),
        decreases n - idx,
    {
        let mv = line.moves[idx];
        if sim == *state {
            return Some(mv);
        }
        match sim.make_move(mv) {
            Some(next) => {
                sim = next;
            },
            None => {
                return None;
            },
        }
        idx += 1;
    }
    None
}

/// Looks the position up in the book: the lines are replayed in their fixed
/// order, and the first that reaches the position gives the move that it
/// plays there.
pub fn book_move(state: &GameState) -> (r: Option<Move>)
    ensures
        r == book_answer(state@),
{
    let mut i: usize = 0;
    while i < BOOK_SIZE
        invariant
            i <= BOOK_SIZE,
            book_answer_from(state@, i as int) == book_answer(state@),
        decreases BOOK_SIZE - i,
    {
        let line = book_line_at(i);
        if let Some(mv) = match_prefix(state, &line) {
            return Some(mv);
        }
        i += 1;
    }
    None
}

/// Whether `p` is the position that `line` reaches from the initial
/// position by its first `j` plies, with a ply left to play there.
pub open spec fn reached_at(p: Position, line: Seq<Move>, j: int) -> bool {
    0 <= j < line.len() && play_line(start(), line.take(j)) == Some(p)
}

/// The replay of a line passes through the positions that its plies lead
/// to: if the line answers from ply `k` on, where the replay stands at `sim`,
/// then `p` is reached at some ply `j` from `k` on and at none between, and
/// the answer is ply `j`.
pub proof fn lemma_line_answer_on_line(p: Position, line: Seq<Move>, k: int, sim: Position)
    requires
        0 <= k <= line.len(),
        play_line(start(), line.take(k)) == Some(sim),
        line_answer(p, line, k, sim) is Some,
    ensures
        exists|j: int|
            k <= j && #[trigger] reached_at(p, line, j) && line_answer(p, line, k, sim) == Some(
                line[j],
            ) && forall|i: int| k <= i < j ==> !reached_at(p, line, i),
    decreases line.len() - k,
{
    if sim == p {
        assert(reached_at(p, line, k));
    } else {
        let next = apply_move(sim, line[k]);
        assert(line.take(k + 1).drop_last() =~= line.take(k));
        assert(line.take(k + 1).last() == line[k]);
        assert(play_line(start(), line.take(k + 1)) == Some(next));
        lemma_line_answer_on_line(p, line, k + 1, next);
        let j = choose|j: int|
            k + 1 <= j && #[trigger] reached_at(p, line, j) && line_answer(p, line, k + 1, next)
                == Some(line[j]) && forall|i: int| k + 1 <= i < j ==> !reached_at(p, line, i);
        assert(reached_at(p, line, j));
        assert(!reached_at(p, line, k));
    }
}

/// Where a line can be played up to its ply `j`, it can be played up to
/// every earlier ply `k`, and ply `k` is legal where it is played.
pub proof fn lemma_play_line_prefix(s: Position, line: Seq<Move>, k: int, j: int)
    requires
        0 <= k <= j <= line.len(),
        play_line(s, line.take(j)) is Some,
    ensures
        play_line(s, line.take(k)) is Some,
        k < j ==> legal_moves(play_line(s, line.take(k))->0).contains(line[k]) && play_line(
            s,
            line.take(k + 1),
        ) == Some(apply_move(play_line(s, line.take(k))->0, line[k])),
    decreases j - k,
{
    if k < j {
        assert(line.take(j).drop_last() =~= line.take(j - 1));
        assert(line.take(j).last() == line[j - 1]);
        if k < j - 1 {
            lemma_play_line_prefix(s, line, k, j - 1);
        } else {
            assert(line.take(k + 1) =~= line.take(j));
        }
    }
}

/// A line answers every position that it passes through before its end.
pub proof fn lemma_line_answers_its_positions(
    p: Position,
    line: Seq<Move>,
    k: int,
    sim: Position,
    j: int,
)
    requires
        0 <= k <= j,
        play_line(start(), line.take(k)) == Some(sim),
        reached_at(p, line, j),
    ensures
        line_answer(p, line, k, sim) is Some,
    decreases j - k,
{
    if sim != p {
        lemma_play_line_prefix(start(), line, k, j);
        lemma_line_answers_its_positions(p, line, k + 1, apply_move(sim, line[k]), j);
    }
}

/// What a line of the book answers. A line answers `p` if and only if it
/// reaches `p` by playing some of its plies, but not all, from the initial
/// position, every field of the position counted; the answer is the recorded
/// ply that follows the first such place.
pub proof fn law_book_line_answers(p: Position, i: int)
    requires
        0 <= i < BOOK_SIZE,
    ensures
        line_answer(p, book_line(i), 0, start()) is Some <==> exists|j: int|
            #[trigger] reached_at(p, book_line(i), j),
        line_answer(p, book_line(i), 0, start()) matches Some(m) ==> exists|j: int|
            #[trigger] reached_at(p, book_line(i), j) && m == book_line(i)[j] && forall|k: int|
                0 <= k < j ==> !reached_at(p, book_line(i), k),
{
    let line = book_line(i);
    assert(line.take(0) =~= Seq::<Move>::empty());
    assert(play_line(start(), line.take(0)) == Some(start()));
    if line_answer(p, line, 0, start()) is Some {
        lemma_line_answer_on_line(p, line, 0, start());
    }
    if exists|j: int| #[trigger] reached_at(p, line, j) {
        let j = choose|j: int| #[trigger] reached_at(p, line, j);
        lemma_line_answers_its_positions(p, line, 0, start(), j);
    }
}

/// The first line that answers decides: the book's answer from line `i` on
/// is the answer of the first line from `i` on that has one, and there is none
/// if no line from `i` on has one.
pub proof fn lemma_first_line_decides(p: Position, i: int)
    requires
        0 <= i <= BOOK_SIZE,
    ensures
        book_answer_from(p, i) is None <==> forall|n: int|
            i <= n < BOOK_SIZE ==> (#[trigger] line_answer(p, book_line(n), 0, start())) is None,
        book_answer_from(p, i) is Some ==> exists|n: int|
            i <= n < BOOK_SIZE && #[trigger] line_answer(p, book_line(n), 0, start())
                == book_answer_from(p, i) && forall|e: int|
                i <= e < n ==> (#[trigger] line_answer(p, book_line(e), 0, start())) is None,
    decreases BOOK_SIZE - i,
{
    if i < BOOK_SIZE {
        lemma_first_line_decides(p, i + 1);
        if line_answer(p, book_line(i), 0, start()) is Some {
            assert(line_answer(p, book_line(i), 0, start()) == book_answer_from(p, i));
        } else if book_answer_from(p, i) is Some {
            let n = choose|n: int|
                i + 1 <= n < BOOK_SIZE && #[trigger] line_answer(p, book_line(n), 0, start())
                    == book_answer_from(p, i + 1) && forall|e: int|
                    i + 1 <= e < n ==> (#[trigger] line_answer(p, book_line(e), 0, start()))
                        is None;
            assert(line_answer(p, book_line(n), 0, start()) == book_answer_from(p, i));
        }
    }
}

/// What the book answers. It has an answer for `p` if and only if one of
/// its lines reaches `p` before its end; the answer is then that of the first
/// such line in the order of the book.
pub proof fn law_book_answers(p: Position)
    ensures
        book_answer(p) is Some <==> exists|n: int, j: int|
            0 <= n < BOOK_SIZE && #[trigger] reached_at(p, book_line(n), j),
        book_answer(p) is Some ==> exists|n: int|
            0 <= n < BOOK_SIZE && #[trigger] line_answer(p, book_line(n), 0, start())
                == book_answer(p) && forall|e: int|
                0 <= e < n ==> (#[trigger] line_answer(p, book_line(e), 0, start())) is None,
{
    lemma_first_line_decides(p, 0);
    assert forall|n: int| 0 <= n < BOOK_SIZE implies (line_answer(p, book_line(n), 0, start())
        is Some <==> exists|j: int| #[trigger] reached_at(p, book_line(n), j)) by {
        law_book_line_answers(p, n);
    }
    if book_answer(p) is Some {
        let n = choose|n: int|
            0 <= n < BOOK_SIZE && #[trigger] line_answer(p, book_line(n), 0, start())
                == book_answer(p);
        let j = choose|j: int| #[trigger] reached_at(p, book_line(n), j);
        assert(reached_at(p, book_line(n), j));
    }
    if exists|n: int, j: int| 0 <= n < BOOK_SIZE && #[trigger] reached_at(p, book_line(n), j) {
        let (n, j) = choose|n: int, j: int|
            0 <= n < BOOK_SIZE && #[trigger] reached_at(p, book_line(n), j);
        assert(line_answer(p, book_line(n), 0, start()) is Some);
    }
}

} // verus!
