//! What an attack is, piece by piece, and that the scan from the attacked
//! square finds exactly the pieces that attack it.
use vstd::prelude::*;
use crate::attack::{attacked, first_on_ray, is_direction, king_attacks_from, king_delta,
    knight_attacks_from, knight_delta, pawn_attacks, piece_at, ray_attacks_from, ray_delta, room,
    stands};
use crate::position::Position;
use crate::types::{file_of, on_board, rank_of, square_at, Color, Piece, PieceKind};

verus! {

/// The distance of `x` from zero.
pub open spec fn abs(x: int) -> int {
    if x < 0 {
        -x
    } else {
        x
    }
}

/// The direction in which `x` lies from zero: 1, -1 or 0.
pub open spec fn sign(x: int) -> int {
    if x > 0 {
        1
    } else if x < 0 {
        -1
    } else {
        0
    }
}

/// The coordinate `n` steps from `x` in direction `d`.
pub open spec fn along(x: int, d: int, n: int) -> int {
    if d > 0 {
        x + n
    } else if d < 0 {
        x - n
    } else {
        x
    }
}

/// What stands `n` steps from file `f`, rank `r` in direction `(df, dr)`.
pub open spec fn ray_piece(p: Position, f: int, r: int, df: int, dr: int, n: int) -> Option<Piece> {
    piece_at(p, along(f, df, n), along(r, dr, n))
}

/// Whether the squares strictly between `a` and `b` are empty, the two
/// lying on one rank, file or diagonal.
pub open spec fn clear_between(p: Position, a: u8, b: u8) -> bool {
    let df = file_of(b) - file_of(a);
    let dr = rank_of(b) - rank_of(a);
    let n = if abs(df) > abs(dr) {
        abs(df)
    } else {
        abs(dr)
    };
    forall|k: int|
        1 <= k < n ==> (#[trigger] ray_piece(
            p,
            file_of(a) as int,
            rank_of(a) as int,
            sign(df),
            sign(dr),
            k,
        )) is None
}

/// Whether `(df, dr)` leads along a rank or a file.
pub open spec fn straight(df: int, dr: int) -> bool {
    (df == 0 && dr != 0) || (df != 0 && dr == 0)
}

/// Whether `(df, dr)` leads along a diagonal.
pub open spec fn diagonal(df: int, dr: int) -> bool {
    df != 0 && abs(df) == abs(dr)
}

/// Whether the piece on `from` attacks `sq`.
///
/// A pawn attacks the two squares diagonally ahead of it. A knight attacks
/// the squares a knight's leap away, a king those next to it. A rook attacks
/// along ranks and files, a bishop along diagonals, a queen along both, as far
/// as the squares in between are empty.
pub open spec fn attacks(p: Position, from: u8, sq: u8) -> bool {
    let df = file_of(sq) - file_of(from);
    let dr = rank_of(sq) - rank_of(from);
    match p.board[from as int] {
        None => false,
        Some(piece) => match piece.kind {
            PieceKind::Pawn => dr == piece.color.pawn_direction() && abs(df) == 1,
            PieceKind::Knight => (abs(df) == 1 && abs(dr) == 2) || (abs(df) == 2 && abs(dr) == 1),
            PieceKind::King => abs(df) <= 1 && abs(dr) <= 1 && (df != 0 || dr != 0),
            PieceKind::Rook => straight(df, dr) && clear_between(p, from, sq),
            PieceKind::Bishop => diagonal(df, dr) && clear_between(p, from, sq),
            PieceKind::Queen => (straight(df, dr) || diagonal(df, dr)) && clear_between(
                p,
                from,
                sq,
            ),
        },
    }
}

/// Whether a piece of colour `by` stands on `from` and attacks `sq`.
pub open spec fn attacker_on(p: Position, from: u8, sq: u8, by: Color) -> bool {
    &&& from < 64
    &&& p.board[from as int] matches Some(piece) && piece.color == by
    &&& attacks(p, from, sq)
}

/// The first piece on a ray stands some steps along it, behind empty
/// squares only.
pub proof fn lemma_first_on_ray_seen(p: Position, f: int, r: int, df: int, dr: int)
    requires
        is_direction(df, dr),
        on_board(f, r),
        first_on_ray(p, f, r, df, dr) is Some,
    ensures
        exists|n: int|
            1 <= n <= 7 && on_board(along(f, df, n), along(r, dr, n)) && #[trigger] ray_piece(
                p,
                f,
                r,
                df,
                dr,
                n,
            ) == first_on_ray(p, f, r, df, dr) && forall|k: int|
                1 <= k < n ==> (#[trigger] ray_piece(p, f, r, df, dr, k)) is None,
    decreases room(f, df) + room(r, dr),
{
    let here = p.board[(r + dr) * 8 + (f + df)];
    assert(ray_piece(p, f, r, df, dr, 1) == here);
    if here is Some {
        assert(ray_piece(p, f, r, df, dr, 1) == first_on_ray(p, f, r, df, dr));
    } else {
        lemma_first_on_ray_seen(p, f + df, r + dr, df, dr);
        let m = choose|m: int|
            1 <= m <= 7 && on_board(along(f + df, df, m), along(r + dr, dr, m))
                && #[trigger] ray_piece(p, f + df, r + dr, df, dr, m) == first_on_ray(
                p,
                f + df,
                r + dr,
                df,
                dr,
            ) && forall|k: int|
                1 <= k < m ==> (#[trigger] ray_piece(p, f + df, r + dr, df, dr, k)) is None;
        let n = m + 1;
        assert(ray_piece(p, f, r, df, dr, n) == ray_piece(p, f + df, r + dr, df, dr, m));
        assert forall|k: int| 1 <= k < n implies (#[trigger] ray_piece(p, f, r, df, dr, k)) is None by {
            if k > 1 {
                assert(ray_piece(p, f, r, df, dr, k) == ray_piece(p, f + df, r + dr, df, dr, k - 1));
            }
        }
        assert(1 <= n <= 7 && on_board(along(f, df, n), along(r, dr, n)));
    }
}

/// A piece that stands on a ray behind empty squares only is the first
/// piece on that ray.
pub proof fn lemma_seen_is_first_on_ray(p: Position, f: int, r: int, df: int, dr: int, n: int)
    requires
        is_direction(df, dr),
        on_board(f, r),
        1 <= n,
        on_board(along(f, df, n), along(r, dr, n)),
        ray_piece(p, f, r, df, dr, n) is Some,
        forall|k: int| 1 <= k < n ==> (#[trigger] ray_piece(p, f, r, df, dr, k)) is None,
    ensures
        first_on_ray(p, f, r, df, dr) == ray_piece(p, f, r, df, dr, n),
    decreases n,
{
    let here = p.board[(r + dr) * 8 + (f + df)];
    assert(on_board(f + df, r + dr));
    assert(ray_piece(p, f, r, df, dr, 1) == here);
    if n > 1 {
        assert(here is None);
        assert forall|k: int| 1 <= k < n - 1 implies (#[trigger] ray_piece(
            p,
            f + df,
            r + dr,
            df,
            dr,
            k,
        )) is None by {
            assert(ray_piece(p, f, r, df, dr, k + 1) == ray_piece(p, f + df, r + dr, df, dr, k));
        }
        assert(ray_piece(p, f, r, df, dr, n) == ray_piece(p, f + df, r + dr, df, dr, n - 1));
        lemma_seen_is_first_on_ray(p, f + df, r + dr, df, dr, n - 1);
    }
}

/// The number of the ray that leads in direction `(dx, dy)`.
pub open spec fn ray_index(dx: int, dy: int) -> int {
    if dx == 0 && dy == 1 {
        0
    } else if dx == 0 && dy == -1 {
        1
    } else if dx == 1 && dy == 0 {
        2
    } else if dx == -1 && dy == 0 {
        3
    } else if dx == 1 && dy == 1 {
        4
    } else if dx == -1 && dy == 1 {
        5
    } else if dx == -1 && dy == -1 {
        6
    } else {
        7
    }
}

/// Walking `n` steps and `k` of them back leads where `n - k` steps lead;
/// and the start lies `n` steps back from where `n` steps lead.
proof fn lemma_along_back(x: int, d: int, n: int, k: int)
    requires
        -1 <= d <= 1,
        0 <= k <= n,
    ensures
        along(along(x, d, n), -d, k) == along(x, d, n - k),
        n >= 1 ==> sign(x - along(x, d, n)) == -d,
        abs(x - along(x, d, n)) == if d == 0 {
            0
        } else {
            n
        },
{
}

/// The squares between a square and the square `n` steps from it along a
/// ray are the squares that the ray passes before it.
proof fn lemma_clear_along(p: Position, a: u8, b: u8, dx: int, dy: int, n: int)
    requires
        a < 64,
        b < 64,
        is_direction(dx, dy),
        1 <= n,
        file_of(b) == along(file_of(a) as int, dx, n),
        rank_of(b) == along(rank_of(a) as int, dy, n),
    ensures
        clear_between(p, a, b) <==> forall|k: int|
            1 <= k < n ==> (#[trigger] ray_piece(
                p,
                file_of(a) as int,
                rank_of(a) as int,
                dx,
                dy,
                k,
            )) is None,
        clear_between(p, b, a) <==> forall|k: int|
            1 <= k < n ==> (#[trigger] ray_piece(
                p,
                file_of(a) as int,
                rank_of(a) as int,
                dx,
                dy,
                k,
            )) is None,
{
    let fa = file_of(a) as int;
    let ra = rank_of(a) as int;
    let fb = file_of(b) as int;
    let rb = rank_of(b) as int;
    lemma_along_back(fa, dx, n, 0);
    lemma_along_back(ra, dy, n, 0);
    assert(sign(fb - fa) == dx && sign(rb - ra) == dy);
    assert(sign(fa - fb) == -dx && sign(ra - rb) == -dy);
    let far = if abs(fb - fa) > abs(rb - ra) {
        abs(fb - fa)
    } else {
        abs(rb - ra)
    };
    assert(far == n);
    let back = if abs(fa - fb) > abs(ra - rb) {
        abs(fa - fb)
    } else {
        abs(ra - rb)
    };
    assert(back == n);
    if clear_between(p, b, a) {
        assert forall|k: int| 1 <= k < n implies (#[trigger] ray_piece(p, fa, ra, dx, dy, k)) is None by {
            lemma_along_back(fa, dx, n, n - k);
            lemma_along_back(ra, dy, n, n - k);
            assert(ray_piece(p, fb, rb, -dx, -dy, n - k) is None);
        }
    }
    if forall|k: int| 1 <= k < n ==> (#[trigger] ray_piece(p, fa, ra, dx, dy, k)) is None {
        assert forall|k: int| 1 <= k < n implies (#[trigger] ray_piece(
            p,
            fb,
            rb,
            -dx,
            -dy,
            k,
        )) is None by {
            lemma_along_back(fa, dx, n, k);
            lemma_along_back(ra, dy, n, k);
            assert(ray_piece(p, fa, ra, dx, dy, n - k) is None);
        }
    }
}

/// A sliding piece that attacks `sq` is the first piece on a ray from `sq`.
proof fn lemma_slider_is_found(p: Position, from: u8, sq: u8, by: Color)
    requires
        p.board.len() == 64,
        sq < 64,
        attacker_on(p, from, sq, by),
        (p.board[from as int]->0).kind == PieceKind::Rook || (p.board[from as int]->0).kind
            == PieceKind::Bishop || (p.board[from as int]->0).kind == PieceKind::Queen,
    ensures
        exists|i: int| 0 <= i < 8 && ray_attacks_from(p, sq, by, i),
{
    let f = file_of(sq) as int;
    let r = rank_of(sq) as int;
    let df = f - file_of(from);
    let dr = r - rank_of(from);
    let dx = sign(-df);
    let dy = sign(-dr);
    let n = if abs(df) > abs(dr) {
        abs(df)
    } else {
        abs(dr)
    };
    let i = ray_index(dx, dy);
    assert(ray_delta(i) == (dx, dy));
    assert(file_of(from) == along(f, dx, n) && rank_of(from) == along(r, dy, n));
    lemma_clear_along(p, sq, from, dx, dy, n);
    assert(ray_piece(p, f, r, dx, dy, n) == p.board[from as int]);
    lemma_seen_is_first_on_ray(p, f, r, dx, dy, n);
    assert(ray_attacks_from(p, sq, by, i));
}

/// A piece that is seen from `sq` along a ray, and that slides along it,
/// attacks `sq`.
proof fn lemma_seen_slider_attacks(p: Position, sq: u8, dx: int, dy: int, n: int) -> (from: u8)
    requires
        p.board.len() == 64,
        sq < 64,
        is_direction(dx, dy),
        1 <= n <= 7,
        on_board(along(file_of(sq) as int, dx, n), along(rank_of(sq) as int, dy, n)),
        forall|k: int|
            1 <= k < n ==> (#[trigger] ray_piece(
                p,
                file_of(sq) as int,
                rank_of(sq) as int,
                dx,
                dy,
                k,
            )) is None,
        ray_piece(p, file_of(sq) as int, rank_of(sq) as int, dx, dy, n) matches Some(piece) && {
            ||| piece.kind == PieceKind::Queen
            ||| piece.kind == PieceKind::Rook && (dx == 0 || dy == 0)
            ||| piece.kind == PieceKind::Bishop && dx != 0 && dy != 0
        },
    ensures
        from < 64,
        p.board[from as int] == ray_piece(
            p,
            file_of(sq) as int,
            rank_of(sq) as int,
            dx,
            dy,
            n,
        ),
        attacks(p, from, sq),
{
    let f = file_of(sq) as int;
    let r = rank_of(sq) as int;
    let from = square_at(along(f, dx, n), along(r, dy, n));
    assert(file_of(from) == along(f, dx, n) && rank_of(from) == along(r, dy, n));
    lemma_clear_along(p, sq, from, dx, dy, n);
    lemma_along_back(f, dx, n, 0);
    lemma_along_back(r, dy, n, 0);
    from
}

/// The first piece on a ray from `sq`, if it moves along that ray, attacks
/// `sq`.
proof fn lemma_found_slider_attacks(p: Position, sq: u8, by: Color, i: int)
    requires
        p.board.len() == 64,
        sq < 64,
        0 <= i < 8,
        ray_attacks_from(p, sq, by, i),
    ensures
        exists|from: u8| attacker_on(p, from, sq, by),
{
    let f = file_of(sq) as int;
    let r = rank_of(sq) as int;
    let dx = ray_delta(i).0;
    let dy = ray_delta(i).1;
    lemma_first_on_ray_seen(p, f, r, dx, dy);
    let n = choose|n: int|
        1 <= n <= 7 && on_board(along(f, dx, n), along(r, dy, n)) && #[trigger] ray_piece(
            p,
            f,
            r,
            dx,
            dy,
            n,
        ) == first_on_ray(p, f, r, dx, dy) && forall|k: int|
            1 <= k < n ==> (#[trigger] ray_piece(p, f, r, dx, dy, k)) is None;
    let from = lemma_seen_slider_attacks(p, sq, dx, dy, n);
    assert(attacker_on(p, from, sq, by));
}

/// A knight or a king that attacks `sq` stands one of its steps away.
proof fn lemma_leaper_is_found(p: Position, from: u8, sq: u8, by: Color)
    requires
        p.board.len() == 64,
        sq < 64,
        attacker_on(p, from, sq, by),
        (p.board[from as int]->0).kind == PieceKind::Knight || (p.board[from as int]->0).kind
            == PieceKind::King,
    ensures
        (p.board[from as int]->0).kind == PieceKind::Knight ==> exists|i: int|
            0 <= i < 8 && knight_attacks_from(p, sq, by, i),
        (p.board[from as int]->0).kind == PieceKind::King ==> exists|i: int|
            0 <= i < 8 && king_attacks_from(p, sq, by, i),
{
    let dx = file_of(from) - file_of(sq);
    let dy = rank_of(from) - rank_of(sq);
    assert(piece_at(p, file_of(sq) + dx, rank_of(sq) + dy) == p.board[from as int]);
    if (p.board[from as int]->0).kind == PieceKind::Knight {
        let i: int = if dx == 1 && dy == 2 {
            0
        } else if dx == -1 && dy == 2 {
            1
        } else if dx == 2 && dy == 1 {
            2
        } else if dx == -2 && dy == 1 {
            3
        } else if dx == -1 && dy == -2 {
            4
        } else if dx == 1 && dy == -2 {
            5
        } else if dx == -2 && dy == -1 {
            6
        } else {
            7
        };
        assert(knight_delta(i) == (dx, dy));
        assert(knight_attacks_from(p, sq, by, i));
    } else {
        let i = ray_index(dx, dy);
        let j: int = if i == 0 {
            2
        } else if i == 1 {
            3
        } else if i == 2 {
            0
        } else if i == 3 {
            1
        } else if i == 6 {
            7
        } else if i == 7 {
            6
        } else {
            i
        };
        assert(king_delta(j) == (dx, dy));
        assert(king_attacks_from(p, sq, by, j));
    }
}

/// A piece that stands a given step from `sq` stands on a square of the
/// board, that many files and ranks away.
proof fn lemma_stands_on(p: Position, sq: u8, dx: int, dy: int, by: Color, kind: PieceKind) -> (from:
    u8)
    requires
        p.board.len() == 64,
        sq < 64,
        stands(p, file_of(sq) + dx, rank_of(sq) + dy, by, kind),
    ensures
        from < 64,
        p.board[from as int] == Some(Piece { color: by, kind }),
        file_of(from) == file_of(sq) + dx,
        rank_of(from) == rank_of(sq) + dy,
{
    square_at(file_of(sq) + dx, rank_of(sq) + dy)
}

/// A square is attacked by a colour exactly if a piece of that colour
/// attacks it.
pub proof fn law_attacked_by_an_attacker(p: Position, sq: u8, by: Color)
    requires
        p.board.len() == 64,
        sq < 64,
    ensures
        attacked(p, sq, by) <==> exists|from: u8| attacker_on(p, from, sq, by),
{
    let f = file_of(sq) as int;
    let r = rank_of(sq) as int;
    let d = by.pawn_direction() as int;
    if attacked(p, sq, by) {
        if pawn_attacks(p, sq, by) {
            let dx: int = if stands(p, f - 1, r - d, by, PieceKind::Pawn) {
                -1
            } else {
                1
            };
            let from = lemma_stands_on(p, sq, dx, -d, by, PieceKind::Pawn);
            assert(attacker_on(p, from, sq, by));
        } else if exists|i: int| 0 <= i < 8 && knight_attacks_from(p, sq, by, i) {
            let i = choose|i: int| 0 <= i < 8 && knight_attacks_from(p, sq, by, i);
            let from = lemma_stands_on(
                p,
                sq,
                knight_delta(i).0,
                knight_delta(i).1,
                by,
                PieceKind::Knight,
            );
            assert(attacker_on(p, from, sq, by));
        } else if exists|i: int| 0 <= i < 8 && ray_attacks_from(p, sq, by, i) {
            let i = choose|i: int| 0 <= i < 8 && ray_attacks_from(p, sq, by, i);
            lemma_found_slider_attacks(p, sq, by, i);
        } else {
            let i = choose|i: int| 0 <= i < 8 && king_attacks_from(p, sq, by, i);
            let from = lemma_stands_on(p, sq, king_delta(i).0, king_delta(i).1, by, PieceKind::King);
            assert(attacker_on(p, from, sq, by));
        }
    }
    if exists|from: u8| attacker_on(p, from, sq, by) {
        let from = choose|from: u8| attacker_on(p, from, sq, by);
        let piece = p.board[from as int]->0;
        match piece.kind {
            PieceKind::Pawn => {
                assert(piece_at(p, file_of(from) as int, rank_of(from) as int) == Some(piece));
                assert(pawn_attacks(p, sq, by));
            },
            PieceKind::Knight | PieceKind::King => {
                lemma_leaper_is_found(p, from, sq, by);
            },
            _ => {
                lemma_slider_is_found(p, from, sq, by);
            },
        }
    }
}

} // verus!
