//! Move generation: the moves that the pieces offer, and those among them
//! that the rules allow.
use vstd::prelude::*;
use crate::apply::apply_move;
use crate::attack::{attacked, in_check, is_direction, king_delta, king_step, knight_delta,
    knight_step, ray_delta, ray_step, room};
use crate::move_list::{capped, lemma_capped_append, MoveList, MAX_MOVES};
use crate::position::{GameState, Position};
use crate::types::{file_of, on_board, rank_of, shifted, spec_shifted, square_at, Color, Move,
    PieceKind};

verus! {

/// Whether a piece of `color` may land on `sq`: the square is empty or holds
/// a piece of the other colour.
pub open spec fn may_land(p: Position, sq: u8, color: Color) -> bool {
    match p.board[sq as int] {
        Some(piece) => piece.color != color,
        None => true,
    }
}

/// The kinds a pawn promotes to, in the order in which the moves are listed.
pub open spec fn promotion_kind(i: int) -> PieceKind {
    if i == 0 {
        PieceKind::Queen
    } else if i == 1 {
        PieceKind::Rook
    } else if i == 2 {
        PieceKind::Bishop
    } else {
        PieceKind::Knight
    }
}

/// The move of a pawn from `from` to `to` that promotes to `kind`.
pub open spec fn promoting(from: u8, to: u8, kind: PieceKind) -> Move {
    Move { from, to, promotion: Some(kind), is_en_passant: false, is_castling: false }
}

/// The en-passant capture from `from` onto `to`.
pub open spec fn en_passant_capture(from: u8, to: u8) -> Move {
    Move { from, to, promotion: None, is_en_passant: true, is_castling: false }
}

/// The castling move of a king from `from` to `to`.
pub open spec fn castling(from: u8, to: u8) -> Move {
    Move { from, to, promotion: None, is_en_passant: false, is_castling: true }
}

/// The moves by which a pawn of `color` arrives on `to`: the four promotions
/// on its last rank, one plain move elsewhere.
pub open spec fn pawn_arrivals(from: u8, to: u8, color: Color) -> Seq<Move> {
    if rank_of(to) == color.promotion_rank() {
        seq![
            promoting(from, to, promotion_kind(0)),
            promoting(from, to, promotion_kind(1)),
            promoting(from, to, promotion_kind(2)),
            promoting(from, to, promotion_kind(3)),
        ]
    } else {
        seq![Move::quiet(from, to)]
    }
}

/// The double step of a pawn of `color` on `sq`: from its home rank, onto an
/// empty square.
pub open spec fn pawn_double_step(p: Position, sq: u8, color: Color) -> Seq<Move> {
    if rank_of(sq) == color.home_rank() {
        match spec_shifted(sq, 0, 2 * color.pawn_direction()) {
            Some(two) => if p.board[two as int] is None {
                seq![Move::quiet(sq, two)]
            } else {
                Seq::empty()
            },
            None => Seq::empty(),
        }
    } else {
        Seq::empty()
    }
}

/// The advances of a pawn of `color` on `sq`: one step onto an empty square,
/// and then the double step.
pub open spec fn pawn_advances(p: Position, sq: u8, color: Color) -> Seq<Move> {
    match spec_shifted(sq, 0, color.pawn_direction() as int) {
        Some(one) => if p.board[one as int] is None {
            pawn_arrivals(sq, one, color) + pawn_double_step(p, sq, color)
        } else {
            Seq::empty()
        },
        None => Seq::empty(),
    }
}

/// The capture of a pawn of `color` on `sq` towards file `df`: onto a piece
/// of the other colour, or onto the empty en-passant target.
pub open spec fn pawn_capture(p: Position, sq: u8, color: Color, df: int) -> Seq<Move> {
    match spec_shifted(sq, df, color.pawn_direction() as int) {
        Some(to) => match p.board[to as int] {
            Some(piece) => if piece.color != color {
                pawn_arrivals(sq, to, color)
            } else {
                Seq::empty()
            },
            None => if p.en_passant == Some(to) {
                seq![en_passant_capture(sq, to)]
            } else {
                Seq::empty()
            },
        },
        None => Seq::empty(),
    }
}

/// The moves of a pawn of `color` on `sq`: its advances, then its two
/// captures.
pub open spec fn pawn_moves(p: Position, sq: u8, color: Color) -> Seq<Move> {
    pawn_advances(p, sq, color) + pawn_capture(p, sq, color, -color.pawn_direction())
        + pawn_capture(p, sq, color, color.pawn_direction() as int)
}

/// The move of a piece of `color` from `sq` by `(df, dr)`, if that square is
/// on the board and the piece may land there.
pub open spec fn leap(p: Position, sq: u8, color: Color, df: int, dr: int) -> Seq<Move> {
    match spec_shifted(sq, df, dr) {
        Some(to) => if may_land(p, to, color) {
            seq![Move::quiet(sq, to)]
        } else {
            Seq::empty()
        },
        None => Seq::empty(),
    }
}

/// The first `n` leaps of a knight of `color` on `sq`.
pub open spec fn knight_moves(p: Position, sq: u8, color: Color, n: int) -> Seq<Move>
    decreases n,
{
    if n <= 0 {
        Seq::empty()
    } else {
        knight_moves(p, sq, color, n - 1) + leap(
            p,
            sq,
            color,
            knight_delta(n - 1).0,
            knight_delta(n - 1).1,
        )
    }
}

/// The first `n` steps of a king of `color` on `sq`.
pub open spec fn king_steps(p: Position, sq: u8, color: Color, n: int) -> Seq<Move>
    decreases n,
{
    if n <= 0 {
        Seq::empty()
    } else {
        king_steps(p, sq, color, n - 1) + leap(p, sq, color, king_delta(n - 1).0, king_delta(n - 1).1)
    }
}

/// The moves of a piece of `color` that started on `from` and slides on from
/// file `f`, rank `r` in direction `(df, dr)`: onto each empty square up to
/// the first occupied one, and onto that one if it holds a piece of the other
/// colour.
pub open spec fn ray_moves(
    p: Position,
    from: u8,
    color: Color,
    f: int,
    r: int,
    df: int,
    dr: int,
) -> Seq<Move>
    decreases room(f, df) + room(r, dr),
{
    if !is_direction(df, dr) || !on_board(f, r) || !on_board(f + df, r + dr) {
        Seq::empty()
    } else {
        let to = square_at(f + df, r + dr);
        match p.board[to as int] {
            None => seq![Move::quiet(from, to)] + ray_moves(p, from, color, f + df, r + dr, df, dr),
            Some(piece) => if piece.color != color {
                seq![Move::quiet(from, to)]
            } else {
                Seq::empty()
            },
        }
    }
}

/// The moves of a sliding piece of `color` on `sq` along the rays `lo..hi`.
pub open spec fn slider_moves(p: Position, sq: u8, color: Color, lo: int, hi: int) -> Seq<Move>
    decreases hi - lo,
{
    if hi <= lo {
        Seq::empty()
    } else {
        slider_moves(p, sq, color, lo, hi - 1) + ray_moves(
            p,
            sq,
            color,
            file_of(sq) as int,
            rank_of(sq) as int,
            ray_delta(hi - 1).0,
            ray_delta(hi - 1).1,
        )
    }
}

/// The first square of the back rank of `color`.
pub open spec fn back_rank(color: Color) -> u8 {
    match color {
        Color::White => 0u8,
        Color::Black => 56u8,
    }
}

/// Whether `color` may castle on the given wing, its king not being in check:
/// the right is still there, the squares between king and rook are empty, and
/// the other colour attacks neither the square the king crosses nor the one it
/// lands on.
pub open spec fn may_castle(p: Position, color: Color, king_side: bool) -> bool {
    let base = back_rank(color);
    let by = color.opposite();
    if king_side {
        &&& p.castling.can_castle(color, true)
        &&& p.board[base + 5] is None
        &&& p.board[base + 6] is None
        &&& !attacked(p, (base + 5) as u8, by)
        &&& !attacked(p, (base + 6) as u8, by)
    } else {
        &&& p.castling.can_castle(color, false)
        &&& p.board[base + 1] is None
        &&& p.board[base + 2] is None
        &&& p.board[base + 3] is None
        &&& !attacked(p, (base + 2) as u8, by)
        &&& !attacked(p, (base + 3) as u8, by)
    }
}

/// The castling move of `color` on one wing, its king standing on `sq` and
/// not in check.
pub open spec fn castling_on(p: Position, sq: u8, color: Color, king_side: bool) -> Seq<Move> {
    if may_castle(p, color, king_side) {
        seq![castling(sq, (back_rank(color) + if king_side { 6int } else { 2int }) as u8)]
    } else {
        Seq::empty()
    }
}

/// The castling moves of the king of `color` on `sq`: none while it is in
/// check, else the king side first, then the queen side.
pub open spec fn castling_moves(p: Position, sq: u8, color: Color) -> Seq<Move> {
    if in_check(p, color) {
        Seq::empty()
    } else {
        castling_on(p, sq, color, true) + castling_on(p, sq, color, false)
    }
}

/// The moves of the king of `color` on `sq`: its steps, then castling.
pub open spec fn king_moves(p: Position, sq: u8, color: Color) -> Seq<Move> {
    king_steps(p, sq, color, 8) + castling_moves(p, sq, color)
}

/// The moves that the piece on `sq` offers, if it belongs to the side to move.
pub open spec fn piece_moves(p: Position, sq: u8) -> Seq<Move> {
    match p.board[sq as int] {
        Some(piece) => if piece.color != p.side_to_move {
            Seq::empty()
        } else {
            match piece.kind {
                PieceKind::Pawn => pawn_moves(p, sq, piece.color),
                PieceKind::Knight => knight_moves(p, sq, piece.color, 8),
                PieceKind::Bishop => slider_moves(p, sq, piece.color, 4, 8),
                PieceKind::Rook => slider_moves(p, sq, piece.color, 0, 4),
                PieceKind::Queen => slider_moves(p, sq, piece.color, 0, 8),
                PieceKind::King => king_moves(p, sq, piece.color),
            }
        },
        None => Seq::empty(),
    }
}

/// The moves that the pieces on the squares below `n` offer, square by square.
pub open spec fn moves_below(p: Position, n: int) -> Seq<Move>
    decreases n,
{
    if n <= 0 {
        Seq::empty()
    } else {
        moves_below(p, n - 1) + piece_moves(p, (n - 1) as u8)
    }
}

/// The pseudo-legal moves of a position: what its pieces offer, whether or not
/// the mover's king is safe afterwards, as far as a move list holds them.
pub open spec fn pseudo_legal_moves(p: Position) -> Seq<Move> {
    capped(moves_below(p, 64))
}

/// Whether playing `m` leaves the king of the side that moved out of check.
pub open spec fn keeps_king_safe(p: Position, m: Move) -> bool {
    !in_check(apply_move(p, m), p.side_to_move)
}

/// The legal moves of a position: the pseudo-legal ones, in their order, after
/// which the mover's king is not in check.
pub open spec fn legal_moves(p: Position) -> Seq<Move> {
    pseudo_legal_moves(p).filter(|m: Move| keeps_king_safe(p, m))
}

/// A list that takes nothing stays as it is.
pub proof fn lemma_emit_nothing(l0: Seq<Move>)
    requires
        l0.len() <= MAX_MOVES,
    ensures
        capped(l0 + Seq::<Move>::empty()) == l0,
{
    assert(l0 + Seq::<Move>::empty() =~= l0);
}

/// A list that has taken `acc` and then `x` holds what it holds after taking
/// both at once.
pub proof fn lemma_emit(l0: Seq<Move>, acc: Seq<Move>, x: Seq<Move>)
    ensures
        capped(capped(l0 + acc) + x) == capped(l0 + (acc + x)),
{
    lemma_capped_append(l0 + acc, x);
    assert((l0 + acc) + x =~= l0 + (acc + x));
}

/// Appends one move to the list.
fn emit(list: &mut MoveList, mv: Move)
    requires
        old(list).wf(),
    ensures
        final(list).wf(),
        final(list)@ == capped(old(list)@ + seq![mv]),
{
    list.push(mv);
    assert(old(list)@.push(mv) =~= old(list)@ + seq![mv]);
}

/// The `i`-th kind a pawn promotes to.
fn promotion_choice(i: usize) -> (kind: PieceKind)
    requires
        i < 4,
    ensures
        kind == promotion_kind(i as int),
{
    if i == 0 {
        PieceKind::Queen
    } else if i == 1 {
        PieceKind::Rook
    } else if i == 2 {
        PieceKind::Bishop
    } else {
        PieceKind::Knight
    }
}

impl GameState {
    /// Lists the moves by which a pawn of `color` arrives on `to`.
    pub fn push_pawn_move(&self, from: u8, to: u8, color: Color, list: &mut MoveList)
        requires
            old(list).wf(),
        ensures
            final(list).wf(),
            final(list)@ == capped(old(list)@ + pawn_arrivals(from, to, color)),
    {
        if rank_of(to) == color.promotion_rank() {
            let ghost l0 = list@;
            let ghost mut acc = Seq::<Move>::empty();
            assert(l0 + acc =~= l0);
            let mut i: usize = 0;
            while i < 4
                invariant
                    i <= 4,
                    list.wf(),
                    list@ == capped(l0 + acc),
                    acc.len() == i,
                    forall|k: int| 0 <= k < i ==> acc[k] == promoting(from, to, promotion_kind(k)),
                decreases 4 - i,
            {
                let mv = Move {
                    from,
                    to,
                    promotion: Some(promotion_choice(i)),
                    is_en_passant: false,
                    is_castling: false,
                };
                emit(list, mv);
                proof {
                    lemma_emit(l0, acc, seq![mv]);
                    acc = acc + seq![mv];
                }
                i += 1;
            }
            assert(acc =~= pawn_arrivals(from, to, color));
        } else {
            emit(list, Move::quiet(from, to));
        }
    }

    /// Lists the advances of the pawn of `color` on `sq`.
    fn gen_pawn_advances(&self, sq: u8, color: Color, list: &mut MoveList)
        requires
            sq < 64,
            old(list).wf(),
        ensures
            final(list).wf(),
            final(list)@ == capped(old(list)@ + pawn_advances(self@, sq, color)),
    {
        let dir = color.pawn_direction();
        let ghost l0 = list@;
        proof {
            lemma_emit_nothing(l0);
        }
        if let Some(one) = shifted(sq, 0, dir) {
            if self.board[one as usize].is_none() {
                self.push_pawn_move(sq, one, color, list);
                let ghost first = pawn_arrivals(sq, one, color);
                if rank_of(sq) == color.home_rank() {
                    if let Some(two) = shifted(sq, 0, 2 * dir) {
                        if self.board[two as usize].is_none() {
                            emit(list, Move::quiet(sq, two));
                            proof {
                                lemma_emit(l0, first, seq![Move::quiet(sq, two)]);
                            }
                            return ;
                        }
                    }
                }
                assert(first + Seq::<Move>::empty() =~= first);
            }
        }
    }

    /// Lists the capture of the pawn of `color` on `sq` towards file `df`.
    fn gen_pawn_capture(&self, sq: u8, color: Color, df: i8, list: &mut MoveList)
        requires
            sq < 64,
            -1 <= df <= 1,
            old(list).wf(),
        ensures
            final(list).wf(),
            final(list)@ == capped(old(list)@ + pawn_capture(self@, sq, color, df as int)),
    {
        proof {
            lemma_emit_nothing(list@);
        }
        if let Some(to) = shifted(sq, df, color.pawn_direction()) {
            match self.board[to as usize] {
                Some(piece) => {
                    if piece.color != color {
                        self.push_pawn_move(sq, to, color, list);
                    }
                },
                None => {
                    if let Some(ep) = self.en_passant {
                        if ep == to {
                            emit(
                                list,
                                Move {
                                    from: sq,
                                    to,
                                    promotion: None,
                                    is_en_passant: true,
                                    is_castling: false,
                                },
                            );
                        }
                    }
                },
            }
        }
    }

    /// Lists the moves of the pawn of `color` on `sq`: one step forward onto
    /// an empty square, two from the home rank over empty squares, and the
    /// captures to either side, onto an enemy piece or the en-passant target;
    /// an arrival on the last rank is listed once for each promotion.
    pub fn gen_pawn_moves(&self, sq: u8, color: Color, list: &mut MoveList)
        requires
            sq < 64,
            old(list).wf(),
        ensures
            final(list).wf(),
            final(list)@ == capped(old(list)@ + pawn_moves(self@, sq, color)),
    {
        let dir = color.pawn_direction();
        let ghost l0 = list@;
        let ghost a = pawn_advances(self@, sq, color);
        let ghost b = pawn_capture(self@, sq, color, -dir);
        let ghost c = pawn_capture(self@, sq, color, dir as int);
        self.gen_pawn_advances(sq, color, list);
        self.gen_pawn_capture(sq, color, -dir, list);
        proof {
            lemma_emit(l0, a, b);
        }
        self.gen_pawn_capture(sq, color, dir, list);
        proof {
            lemma_emit(l0, a + b, c);
        }
    }

    /// Lists the move of the piece of `color` on `sq` by `(df, dr)`, if there
    /// is one.
    fn gen_leap(&self, sq: u8, color: Color, df: i8, dr: i8, list: &mut MoveList)
        requires
            sq < 64,
            -8 <= df <= 8,
            -8 <= dr <= 8,
            old(list).wf(),
        ensures
            final(list).wf(),
            final(list)@ == capped(old(list)@ + leap(self@, sq, color, df as int, dr as int)),
    {
        proof {
            lemma_emit_nothing(list@);
        }
        if let Some(to) = shifted(sq, df, dr) {
            let free = match self.board[to as usize] {
                Some(piece) => piece.color != color,
                None => true,
            };
            if free {
                emit(list, Move::quiet(sq, to));
            }
        }
    }

    /// Lists the moves of the knight of `color` on `sq`.
    pub fn gen_knight_moves(&self, sq: u8, color: Color, list: &mut MoveList)
        requires
            sq < 64,
            old(list).wf(),
        ensures
            final(list).wf(),
            final(list)@ == capped(old(list)@ + knight_moves(self@, sq, color, 8)),
    {
        let ghost l0 = list@;
        proof {
            lemma_emit_nothing(l0);
        }
        let mut i: usize = 0;
        while i < 8
            invariant
                i <= 8,
                sq < 64,
                list.wf(),
                list@ == capped(l0 + knight_moves(self@, sq, color, i as int)),
            decreases 8 - i,
        {
            let d = knight_step(i);
            self.gen_leap(sq, color, d.0, d.1, list);
            proof {
                lemma_emit(
                    l0,
                    knight_moves(self@, sq, color, i as int),
                    leap(self@, sq, color, d.0 as int, d.1 as int),
                );
            }
            i += 1;
        }
    }

    /// Lists the moves of a piece of `color` that slides from `sq` in
    /// direction `(df, dr)`.
    fn gen_ray(&self, sq: u8, color: Color, df: i8, dr: i8, list: &mut MoveList)
        requires
            sq < 64,
            is_direction(df as int, dr as int),
            old(list).wf(),
        ensures
            final(list).wf(),
            final(list)@ == capped(
                old(list)@ + ray_moves(
                    self@,
                    sq,
                    color,
                    file_of(sq) as int,
                    rank_of(sq) as int,
                    df as int,
                    dr as int,
                ),
            ),
    {
        let ghost l0 = list@;
        let ghost all = ray_moves(
            self@,
            sq,
            color,
            file_of(sq) as int,
            rank_of(sq) as int,
            df as int,
            dr as int,
        );
        let mut f: i8 = file_of(sq) as i8;
        let mut r: i8 = rank_of(sq) as i8;
        proof {
            lemma_capped_append(l0, all);
        }
        loop
            invariant_except_break
                on_board(f as int, r as int),
                capped(list@ + ray_moves(self@, sq, color, f as int, r as int, df as int, dr as int))
                    == capped(l0 + all),
            invariant
                is_direction(df as int, dr as int),
                list.wf(),
            ensures
                list@ == capped(l0 + all),
            decreases room(f as int, df as int) + room(r as int, dr as int),
        {
            let ghost before = list@;
            let ghost rest = ray_moves(self@, sq, color, f as int, r as int, df as int, dr as int);
            let nf: i8 = f + df;
            let nr: i8 = r + dr;
            if nf < 0 || nf > 7 || nr < 0 || nr > 7 {
                proof {
                    assert(before + rest =~= before);
                    lemma_capped_append(before, Seq::empty());
                }
                break ;
            }
            let to: u8 = (nr * 8 + nf) as u8;
            match self.board[to as usize] {
                None => {
                    emit(list, Move::quiet(sq, to));
                    proof {
                        let next = ray_moves(
                            self@,
                            sq,
                            color,
                            nf as int,
                            nr as int,
                            df as int,
                            dr as int,
                        );
                        lemma_capped_append(before + seq![Move::quiet(sq, to)], next);
                        assert((before + seq![Move::quiet(sq, to)]) + next =~= before + rest);
                    }
                },
                Some(piece) => {
                    if piece.color != color {
                        emit(list, Move::quiet(sq, to));
                    } else {
                        proof {
                            assert(before + rest =~= before);
                            lemma_capped_append(before, Seq::empty());
                        }
                    }
                    break ;
                },
            }
            f = nf;
            r = nr;
        }
    }

    /// Lists the moves of the sliding piece of `color` on `sq` along the rays
    /// `lo..hi`: along each, every empty square up to the first occupied one,
    /// and that one if it holds a piece of the other colour.
    pub fn gen_slider_moves(&self, sq: u8, color: Color, list: &mut MoveList, lo: usize, hi: usize)
        requires
            sq < 64,
            lo <= hi <= 8,
            old(list).wf(),
        ensures
            final(list).wf(),
            final(list)@ == capped(
                old(list)@ + slider_moves(self@, sq, color, lo as int, hi as int),
            ),
    {
        let ghost l0 = list@;
        proof {
            lemma_emit_nothing(l0);
        }
        let mut i: usize = lo;
        while i < hi
            invariant
                lo <= i <= hi <= 8,
                sq < 64,
                list.wf(),
                list@ == capped(l0 + slider_moves(self@, sq, color, lo as int, i as int)),
            decreases hi - i,
        {
            let d = ray_step(i);
            self.gen_ray(sq, color, d.0, d.1, list);
            proof {
                lemma_emit(
                    l0,
                    slider_moves(self@, sq, color, lo as int, i as int),
                    ray_moves(
                        self@,
                        sq,
                        color,
                        file_of(sq) as int,
                        rank_of(sq) as int,
                        d.0 as int,
                        d.1 as int,
                    ),
                );
            }
            i += 1;
        }
    }

    /// Whether `color` may castle on the given wing, its king not being in
    /// check.
    fn can_castle_on(&self, color: Color, king_side: bool) -> (r: bool)
        ensures
            r == may_castle(self@, color, king_side),
    {
        let base: u8 = match color {
            Color::White => 0,
            Color::Black => 56,
        };
        let by = color.opposite();
        if king_side {
            self.castling.can_castle(color, true) && self.board[(base + 5) as usize].is_none()
                && self.board[(base + 6) as usize].is_none() && !self.is_square_attacked(
                base + 5,
                by,
            ) && !self.is_square_attacked(base + 6, by)
        } else {
            self.castling.can_castle(color, false) && self.board[(base + 1) as usize].is_none()
                && self.board[(base + 2) as usize].is_none() && self.board[(base
                + 3) as usize].is_none() && !self.is_square_attacked(base + 2, by)
                && !self.is_square_attacked(base + 3, by)
        }
    }

    /// Lists the castling move of `color` on one wing, its king standing on
    /// `sq` and not in check.
    fn gen_castling_on(&self, sq: u8, color: Color, king_side: bool, list: &mut MoveList)
        requires
            old(list).wf(),
        ensures
            final(list).wf(),
            final(list)@ == capped(old(list)@ + castling_on(self@, sq, color, king_side)),
    {
        proof {
            lemma_emit_nothing(list@);
        }
        if self.can_castle_on(color, king_side) {
            let base: u8 = match color {
                Color::White => 0,
                Color::Black => 56,
            };
            let to: u8 = if king_side {
                base + 6
            } else {
                base + 2
            };
            emit(
                list,
                Move { from: sq, to, promotion: None, is_en_passant: false, is_castling: true },
            );
        }
    }

    /// Lists the castling moves of the king of `color` on `sq`.
    ///
    /// There is none while the king is in check. On each wing the move is
    /// listed where the right is still there, the squares between king and rook
    /// are empty, and neither the square the king crosses nor the one it lands
    /// on is attacked.
    pub fn gen_castling(&self, sq: u8, color: Color, list: &mut MoveList)
        requires
            old(list).wf(),
        ensures
            final(list).wf(),
            final(list)@ == capped(old(list)@ + castling_moves(self@, sq, color)),
    {
        let ghost l0 = list@;
        if self.is_in_check(color) {
            proof {
                lemma_emit_nothing(l0);
            }
            return ;
        }
        self.gen_castling_on(sq, color, true, list);
        self.gen_castling_on(sq, color, false, list);
        proof {
            lemma_emit(
                l0,
                castling_on(self@, sq, color, true),
                castling_on(self@, sq, color, false),
            );
        }
    }

    /// Lists the moves of the king of `color` on `sq`: its steps, then
    /// castling.
    pub fn gen_king_moves(&self, sq: u8, color: Color, list: &mut MoveList)
        requires
            sq < 64,
            old(list).wf(),
        ensures
            final(list).wf(),
            final(list)@ == capped(old(list)@ + king_moves(self@, sq, color)),
    {
        let ghost l0 = list@;
        proof {
            lemma_emit_nothing(l0);
        }
        let mut i: usize = 0;
        while i < 8
            invariant
                i <= 8,
                sq < 64,
                list.wf(),
                list@ == capped(l0 + king_steps(self@, sq, color, i as int)),
            decreases 8 - i,
        {
            let d = king_step(i);
            self.gen_leap(sq, color, d.0, d.1, list);
            proof {
                lemma_emit(
                    l0,
                    king_steps(self@, sq, color, i as int),
                    leap(self@, sq, color, d.0 as int, d.1 as int),
                );
            }
            i += 1;
        }
        self.gen_castling(sq, color, list);
        proof {
            lemma_emit(l0, king_steps(self@, sq, color, 8), castling_moves(self@, sq, color));
        }
    }

    /// Lists the moves that the piece on `sq` offers, if it belongs to the
    /// side to move.
    fn gen_piece_moves(&self, sq: u8, list: &mut MoveList)
        requires
            sq < 64,
            old(list).wf(),
        ensures
            final(list).wf(),
            final(list)@ == capped(old(list)@ + piece_moves(self@, sq)),
    {
        proof {
            lemma_emit_nothing(list@);
        }
        if let Some(piece) = self.board[sq as usize] {
            if piece.color != self.side_to_move {
                return ;
            }
            match piece.kind {
                PieceKind::Pawn => self.gen_pawn_moves(sq, piece.color, list),
                PieceKind::Knight => self.gen_knight_moves(sq, piece.color, list),
                PieceKind::Bishop => self.gen_slider_moves(sq, piece.color, list, 4, 8),
                PieceKind::Rook => self.gen_slider_moves(sq, piece.color, list, 0, 4),
                PieceKind::Queen => self.gen_slider_moves(sq, piece.color, list, 0, 8),
                PieceKind::King => self.gen_king_moves(sq, piece.color, list),
            }
        }
    }

    /// Appends the pseudo-legal moves of the position to `list`: square by
    /// square, what each piece of the side to move offers, with no regard to
    /// the safety of its own king.
    pub fn generate_pseudo_legal_moves(&self, list: &mut MoveList)
        requires
            old(list).wf(),
        ensures
            final(list).wf(),
            final(list)@ == capped(old(list)@ + moves_below(self@, 64)),
    {
        let ghost l0 = list@;
        proof {
            lemma_emit_nothing(l0);
        }
        let mut sq: u8 = 0;
        while sq < 64
            invariant
                sq <= 64,
                list.wf(),
                list@ == capped(l0 + moves_below(self@, sq as int)),
            decreases 64 - sq,
        {
            self.gen_piece_moves(sq, list);
            proof {
                lemma_emit(l0, moves_below(self@, sq as int), piece_moves(self@, sq));
            }
            sq += 1;
        }
    }
}

} // verus!
