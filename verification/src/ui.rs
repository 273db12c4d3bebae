//! What the display shows of a game, as far as it is arithmetic: the colours
//! of the squares and the text of numbers.
use vstd::prelude::*;

verus! {

/// The side of the board, in pixels.
pub const BOARD_SIZE: u16 = 272;

/// The side of a square, in pixels.
pub const SQUARE_SIZE: u16 = 34;

/// The colour of the light squares.
pub const LIGHT_SQUARE: u16 = 0xC618;

/// The colour of the dark squares.
pub const DARK_SQUARE: u16 = 0x8410;

/// The colour of the square under the cursor.
pub const HIGHLIGHT_COLOR: u16 = 0xFFE0;

/// The colour of the square on which a pawn promotes.
pub const PROMOTION_COLOR: u16 = 0x07E0;

/// The colour of the two squares of the last move.
pub const LAST_MOVE_COLOR: u16 = 0xE540;

/// The colour in which the selected piece is drawn.
pub const SELECTED_PIECE_COLOR: u16 = 0xF800;

/// The width of the picture of a piece, in pixels.
pub const SPRITE_W: u16 = 16;

/// The height of the picture of a piece, in pixels.
pub const SPRITE_H: u16 = 20;

/// What `square_origin` gives, for use in contracts.
pub open spec fn spec_square_origin(file: u8, rank_from_bottom: u8) -> (u16, u16) {
    ((file * SQUARE_SIZE) as u16, ((7 - rank_from_bottom) * SQUARE_SIZE) as u16)
}

/// The top left corner of a square on the display. The first rank is at the
/// bottom.
#[verifier::when_used_as_spec(spec_square_origin)]
pub fn square_origin(file: u8, rank_from_bottom: u8) -> (origin: (u16, u16))
    requires
        file < 8,
        rank_from_bottom < 8,
    ensures
        origin == spec_square_origin(file, rank_from_bottom),
        origin.0 + SQUARE_SIZE <= BOARD_SIZE,
        origin.1 + SQUARE_SIZE <= BOARD_SIZE,
{
    (file as u16 * SQUARE_SIZE, (7 - rank_from_bottom as u16) * SQUARE_SIZE)
}

/// What `sprite_origin` gives, for use in contracts.
pub open spec fn spec_sprite_origin(file: u8, rank_from_bottom: u8) -> (u16, u16) {
    (
        (file * SQUARE_SIZE + (SQUARE_SIZE - SPRITE_W) / 2) as u16,
        ((7 - rank_from_bottom) * SQUARE_SIZE + (SQUARE_SIZE - SPRITE_H) / 2) as u16,
    )
}

/// The top left corner of the picture of a piece on a square: the picture
/// stands in the middle of the square.
#[verifier::when_used_as_spec(spec_sprite_origin)]
pub fn sprite_origin(file: u8, rank_from_bottom: u8) -> (origin: (u16, u16))
    requires
        file < 8,
        rank_from_bottom < 8,
    ensures
        origin == spec_sprite_origin(file, rank_from_bottom),
        origin.0 + SPRITE_W <= BOARD_SIZE,
        origin.1 + SPRITE_H <= BOARD_SIZE,
{
    let corner = square_origin(file, rank_from_bottom);
    (corner.0 + (SQUARE_SIZE - SPRITE_W) / 2, corner.1 + (SQUARE_SIZE - SPRITE_H) / 2)
}

/// What `square_color` gives, for use in contracts.
pub open spec fn spec_square_color(file: u8, rank_from_bottom: u8) -> u16 {
    if (file + rank_from_bottom) % 2 == 0 {
        LIGHT_SQUARE
    } else {
        DARK_SQUARE
    }
}

/// The colour of a square: light where file and rank add up to an even
/// number, dark elsewhere.
#[verifier::when_used_as_spec(spec_square_color)]
pub fn square_color(file: u8, rank_from_bottom: u8) -> (color: u16)
    ensures
        color == spec_square_color(file, rank_from_bottom),
{
    if (file as u16 + rank_from_bottom as u16) % 2 == 0 {
        LIGHT_SQUARE
    } else {
        DARK_SQUARE
    }
}

/// What `spinner_led` gives, for use in contracts.
pub open spec fn spec_spinner_led(step: u8) -> u8 {
    (step % 4 + 1) as u8
}

/// The light, from one to four, that the progress display shows at `step`.
#[verifier::when_used_as_spec(spec_spinner_led)]
pub fn spinner_led(step: u8) -> (led: u8)
    ensures
        led == spec_spinner_led(step),
        1 <= led <= 4,
{
    step % 4 + 1
}

/// The decimal digits of `n`, as ASCII.
pub open spec fn decimal(n: nat) -> Seq<u8>
    decreases n,
{
    if n < 10 {
        seq![(48 + n) as u8]
    } else {
        decimal(n / 10).push((48 + n % 10) as u8)
    }
}

/// The decimal text of `v`, as ASCII, with a minus sign before a negative
/// number.
pub open spec fn signed_decimal(v: int) -> Seq<u8> {
    if v < 0 {
        seq![45u8] + decimal((-v) as nat)
    } else {
        decimal(v as nat)
    }
}

/// A number has at most as many digits as its bound allows.
pub proof fn lemma_decimal_len(n: nat, digits: nat)
    requires
        digits >= 1,
        n < vstd::arithmetic::power::pow(10, digits),
    ensures
        1 <= decimal(n).len() <= digits,
    decreases n,
{
    vstd::arithmetic::power::lemma_pow1(10);
    if n >= 10 {
        if digits == 1 {
            assert(false);
        } else {
            vstd::arithmetic::power::lemma_pow_adds(10, 1, (digits - 1) as nat);
            assert(vstd::arithmetic::power::pow(10, digits) == 10 * vstd::arithmetic::power::pow(
                10,
                (digits - 1) as nat,
            ));
            lemma_decimal_len(n / 10, (digits - 1) as nat);
        }
    }
}

/// Writes the decimal digits of `value` at the end of `buf` and gives the
/// place of the first.
fn write_digits(value: u32, buf: &mut [u8; 12]) -> (start: usize)
    ensures
        1 <= start < 12,
        final(buf)@.subrange(start as int, 12) == decimal(value as nat),
        forall|k: int| 0 <= k < start ==> final(buf)@[k] == old(buf)@[k],
{
    proof {
        assert(vstd::arithmetic::power::pow(10, 10) == 10_000_000_000int) by {
            reveal_with_fuel(vstd::arithmetic::power::pow, 11);
        }
        lemma_decimal_len(value as nat, 10);
    }
    let mut i: usize = 12;
    let mut rest: u32 = value;
    loop
        invariant_except_break
            1 <= i <= 12,
            decimal(value as nat) == decimal(rest as nat) + buf@.subrange(i as int, 12),
            decimal(rest as nat).len() + (12 - i) <= 10,
        invariant
            forall|k: int| 0 <= k < i ==> buf@[k] == old(buf)@[k],
        ensures
            1 <= i < 12,
            buf@.subrange(i as int, 12) == decimal(value as nat),
        decreases rest,
    {
        let ghost before = buf@;
        let ghost tail = buf@.subrange(i as int, 12);
        i -= 1;
        buf[i] = 48u8 + (rest % 10) as u8;
        proof {
            assert(buf@.subrange(i as int, 12) =~= seq![(48 + rest % 10) as u8] + tail);
        }
        if rest < 10 {
            proof {
                assert(decimal(rest as nat) + tail =~= buf@.subrange(i as int, 12));
            }
            break ;
        }
        proof {
            assert(decimal(rest as nat) == decimal((rest / 10) as nat).push(
                (48 + rest % 10) as u8,
            ));
            assert(decimal((rest / 10) as nat).push((48 + rest % 10) as u8) + tail =~= decimal(
                (rest / 10) as nat,
            ) + buf@.subrange(i as int, 12));
        }
        rest = rest / 10;
    }
    i
}

/// Writes `value` in decimal at the end of `buf` and gives the place where
/// the text starts.
pub fn u32_to_str(value: u32, buf: &mut [u8; 12]) -> (start: usize)
    ensures
        start < 12,
        final(buf)@.subrange(start as int, 12) == decimal(value as nat),
{
    write_digits(value, buf)
}

/// Writes `value` in decimal, with its sign if it is negative, at the end of
/// `buf` and gives the place where the text starts.
pub fn i32_to_str(value: i32, buf: &mut [u8; 12]) -> (start: usize)
    ensures
        start < 12,
        final(buf)@.subrange(start as int, 12) == signed_decimal(value as int),
{
    let magnitude: u32 = if value < 0 {
        (-(value as i64)) as u32
    } else {
        value as u32
    };
    let digits = write_digits(magnitude, buf);
    if value < 0 {
        let ghost tail = buf@.subrange(digits as int, 12);
        let start = digits - 1;
        buf[start] = 45u8;
        proof {
            assert(buf@.subrange(start as int, 12) =~= seq![45u8] + tail);
        }
        start
    } else {
        digits
    }
}

} // verus!
