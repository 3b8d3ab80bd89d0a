//! The framebuffer and sprite drawing: XOR of sprite bits onto one-byte
//! cells, wrapped through a single linear modulo over the whole buffer.

use vstd::prelude::*;
use crate::cpu::MEM_SIZE;

verus! {

/// Display width in pixels.
pub const SCREEN_WIDTH: usize = 64;
/// Display height in pixels.
pub const SCREEN_HEIGHT: usize = 32;
/// Number of display cells, one byte (0 or 1) per pixel, row-major.
pub const SCREEN_SIZE: usize = 2048;

/// Every cell holds 0 or 1.
pub open spec fn screen_is_binary(screen: Seq<u8>) -> bool {
    forall|p: int| 0 <= p < screen.len() ==> #[trigger] screen[p] <= 1
}

/// Bit `b` of a sprite row, counted from the most significant bit.
pub open spec fn sprite_bit(row: u8, b: int) -> bool {
    row & (0x80u8 >> (b as u8)) != 0
}

/// The sprite rows hold a set bit at row `l`, column `b`.
pub open spec fn lit(rows: Seq<u8>, l: int, b: int) -> bool {
    0 <= l < rows.len() && 0 <= b < 8 && sprite_bit(rows[l], b)
}

/// The cell that bit `b` of row `l` lands on for a sprite placed at `(x, y)`:
/// the row-major index reduced modulo the buffer size.
pub open spec fn pixel_index(x: u8, y: u8, l: int, b: int) -> int {
    (x + b + (y + l) * SCREEN_WIDTH) % (SCREEN_SIZE as int)
}

/// Some set bit of the sprite lands on cell `p`.
pub open spec fn covered(rows: Seq<u8>, x: u8, y: u8, p: int) -> bool {
    exists|l: int, b: int| #[trigger] pixel_index(x, y, l, b) == p && lit(rows, l, b)
}

/// The buffer after drawing: each covered cell flipped.
pub open spec fn drawn(screen: Seq<u8>, rows: Seq<u8>, x: u8, y: u8) -> Seq<u8> {
    Seq::new(
        screen.len(),
        |p: int|
            if covered(rows, x, y, p) {
                screen[p] ^ 1u8
            } else {
                screen[p]
            },
    )
}

/// Some set bit of the sprite lands on a cell that was set: drawing clears it.
pub open spec fn collides(screen: Seq<u8>, rows: Seq<u8>, x: u8, y: u8) -> bool {
    exists|l: int, b: int| lit(rows, l, b) && screen[#[trigger] pixel_index(x, y, l, b)] == 1
}

/// `(l, b)` comes before `(line, col)` in drawing order.
pub open spec fn before(l: int, b: int, line: int, col: int) -> bool {
    l < line || (l == line && b < col)
}

/// Some set bit drawn before `(line, col)` lands on cell `p`.
pub open spec fn covered_before(rows: Seq<u8>, x: u8, y: u8, line: int, col: int, p: int) -> bool {
    exists|l: int, b: int|
        #[trigger] pixel_index(x, y, l, b) == p && lit(rows, l, b) && before(l, b, line, col)
}

/// Some set bit drawn before `(line, col)` lands on a cell that was set.
pub open spec fn collides_before(screen: Seq<u8>, rows: Seq<u8>, x: u8, y: u8, line: int, col: int) -> bool {
    exists|l: int, b: int|
        lit(rows, l, b) && before(l, b, line, col) && screen[#[trigger] pixel_index(x, y, l, b)] == 1
}

/// Two distinct bits of a sprite of at most fifteen rows never land on the
/// same cell.
pub proof fn lemma_pixels_distinct(x: u8, y: u8, l1: int, b1: int, l2: int, b2: int)
    requires
        0 <= l1 < 16,
        0 <= l2 < 16,
        0 <= b1 < 8,
        0 <= b2 < 8,
        l1 != l2 || b1 != b2,
    ensures
        pixel_index(x, y, l1, b1) != pixel_index(x, y, l2, b2),
{
    let a1 = x + b1 + (y + l1) * 64;
    let a2 = x + b2 + (y + l2) * 64;
    assert(a1 != a2);
    assert(-2048 < a1 - a2 < 2048);
    assert(0 <= a1 && 0 <= a2);
    assert(a1 % 2048 != a2 % 2048) by (nonlinear_arith)
        requires
            a1 != a2,
            -2048 < a1 - a2 < 2048,
            0 <= a1,
            0 <= a2,
    {
    }
}

/// Flipping a 0-or-1 cell.
pub proof fn lemma_flip(c: u8)
    requires
        c <= 1,
    ensures
        c ^ 1u8 <= 1,
        (c ^ 1u8) ^ 1u8 == c,
        (c ^ 1u8 == 1) == (c == 0),
{
    assert(c <= 1 ==> c ^ 1u8 <= 1) by (bit_vector);
    assert((c ^ 1u8) ^ 1u8 == c) by (bit_vector);
    assert(c <= 1 ==> ((c ^ 1u8 == 1) == (c == 0))) by (bit_vector);
}

/// Drawing the same sprite at the same place twice in a row restores the
/// buffer, and the second draw reports a collision exactly when some set bit
/// of the sprite lands on a cell that was clear before the first draw.
pub proof fn lemma_draw_twice(screen: Seq<u8>, rows: Seq<u8>, x: u8, y: u8)
    requires
        screen.len() == SCREEN_SIZE,
        screen_is_binary(screen),
    ensures
        drawn(drawn(screen, rows, x, y), rows, x, y) == screen,
        collides(drawn(screen, rows, x, y), rows, x, y) == exists|l: int, b: int|
            lit(rows, l, b) && screen[#[trigger] pixel_index(x, y, l, b)] == 0,
{
    let once = drawn(screen, rows, x, y);
    assert forall|p: int| 0 <= p < screen.len() implies #[trigger] drawn(once, rows, x, y)[p] == screen[p] by {
        lemma_flip(screen[p]);
    }
    assert(drawn(once, rows, x, y) =~= screen);
    if collides(once, rows, x, y) {
        let (l, b) = choose|l: int, b: int| lit(rows, l, b) && once[#[trigger] pixel_index(x, y, l, b)] == 1;
        let p = pixel_index(x, y, l, b);
        assert(covered(rows, x, y, p));
        lemma_flip(screen[p]);
        assert(lit(rows, l, b) && screen[pixel_index(x, y, l, b)] == 0);
    }
    if exists|l: int, b: int| lit(rows, l, b) && screen[#[trigger] pixel_index(x, y, l, b)] == 0 {
        let (l, b) = choose|l: int, b: int| lit(rows, l, b) && screen[#[trigger] pixel_index(x, y, l, b)] == 0;
        let p = pixel_index(x, y, l, b);
        assert(covered(rows, x, y, p));
        lemma_flip(screen[p]);
        assert(lit(rows, l, b) && once[pixel_index(x, y, l, b)] == 1);
    }
}

/// The prefix sets grow by the bit at `(line, col)` and by nothing else.
proof fn lemma_advance(screen: Seq<u8>, rows: Seq<u8>, x: u8, y: u8, line: int, col: int)
    requires
        rows.len() < 16,
        0 <= line < rows.len(),
        0 <= col < 8,
    ensures
        forall|p: int|
            #![trigger covered_before(rows, x, y, line, col + 1, p)]
            covered_before(rows, x, y, line, col + 1, p) == (covered_before(rows, x, y, line, col, p)
                || (lit(rows, line, col) && p == pixel_index(x, y, line, col))),
        collides_before(screen, rows, x, y, line, col + 1) == (collides_before(screen, rows, x, y, line, col)
            || (lit(rows, line, col) && screen[pixel_index(x, y, line, col)] == 1)),
        lit(rows, line, col) ==> !covered_before(rows, x, y, line, col, pixel_index(x, y, line, col)),
{
    assert forall|p: int|
        #![trigger covered_before(rows, x, y, line, col + 1, p)]
        covered_before(rows, x, y, line, col + 1, p) == (covered_before(rows, x, y, line, col, p)
            || (lit(rows, line, col) && p == pixel_index(x, y, line, col))) by {
        if covered_before(rows, x, y, line, col + 1, p) {
            let (l, b) = choose|l: int, b: int|
                #[trigger] pixel_index(x, y, l, b) == p && lit(rows, l, b) && before(l, b, line, col + 1);
            if !(l == line && b == col) {
                assert(pixel_index(x, y, l, b) == p && lit(rows, l, b) && before(l, b, line, col));
            }
        }
        if covered_before(rows, x, y, line, col, p) {
            let (l, b) = choose|l: int, b: int|
                #[trigger] pixel_index(x, y, l, b) == p && lit(rows, l, b) && before(l, b, line, col);
            assert(pixel_index(x, y, l, b) == p && lit(rows, l, b) && before(l, b, line, col + 1));
        }
        if lit(rows, line, col) && p == pixel_index(x, y, line, col) {
            assert(pixel_index(x, y, line, col) == p && lit(rows, line, col) && before(line, col, line, col + 1));
        }
    }
    if collides_before(screen, rows, x, y, line, col + 1) {
        let (l, b) = choose|l: int, b: int|
            lit(rows, l, b) && before(l, b, line, col + 1) && screen[#[trigger] pixel_index(x, y, l, b)] == 1;
        if !(l == line && b == col) {
            assert(lit(rows, l, b) && before(l, b, line, col) && screen[pixel_index(x, y, l, b)] == 1);
        }
    }
    if collides_before(screen, rows, x, y, line, col) {
        let (l, b) = choose|l: int, b: int|
            lit(rows, l, b) && before(l, b, line, col) && screen[#[trigger] pixel_index(x, y, l, b)] == 1;
        assert(lit(rows, l, b) && before(l, b, line, col + 1) && screen[pixel_index(x, y, l, b)] == 1);
    }
    if lit(rows, line, col) && screen[pixel_index(x, y, line, col)] == 1 {
        assert(lit(rows, line, col) && before(line, col, line, col + 1)
            && screen[pixel_index(x, y, line, col)] == 1);
    }
    if lit(rows, line, col) && covered_before(rows, x, y, line, col, pixel_index(x, y, line, col)) {
        let (l, b) = choose|l: int, b: int|
            #[trigger] pixel_index(x, y, l, b) == pixel_index(x, y, line, col) && lit(rows, l, b)
                && before(l, b, line, col);
        lemma_pixels_distinct(x, y, l, b, line, col);
    }
}

/// Having drawn a whole row is having drawn up to the start of the next.
proof fn lemma_next_line(screen: Seq<u8>, rows: Seq<u8>, x: u8, y: u8, line: int)
    ensures
        forall|p: int|
            #![trigger covered_before(rows, x, y, line + 1, 0, p)]
            covered_before(rows, x, y, line + 1, 0, p) == covered_before(rows, x, y, line, 8, p),
        collides_before(screen, rows, x, y, line + 1, 0) == collides_before(screen, rows, x, y, line, 8),
{
    assert forall|p: int|
        #![trigger covered_before(rows, x, y, line + 1, 0, p)]
        covered_before(rows, x, y, line + 1, 0, p) == covered_before(rows, x, y, line, 8, p) by {
        if covered_before(rows, x, y, line + 1, 0, p) {
            let (l, b) = choose|l: int, b: int|
                #[trigger] pixel_index(x, y, l, b) == p && lit(rows, l, b) && before(l, b, line + 1, 0);
            assert(pixel_index(x, y, l, b) == p && lit(rows, l, b) && before(l, b, line, 8));
        }
        if covered_before(rows, x, y, line, 8, p) {
            let (l, b) = choose|l: int, b: int|
                #[trigger] pixel_index(x, y, l, b) == p && lit(rows, l, b) && before(l, b, line, 8);
            assert(pixel_index(x, y, l, b) == p && lit(rows, l, b) && before(l, b, line + 1, 0));
        }
    }
    if collides_before(screen, rows, x, y, line + 1, 0) {
        let (l, b) = choose|l: int, b: int|
            lit(rows, l, b) && before(l, b, line + 1, 0) && screen[#[trigger] pixel_index(x, y, l, b)] == 1;
        assert(lit(rows, l, b) && before(l, b, line, 8) && screen[pixel_index(x, y, l, b)] == 1);
    }
    if collides_before(screen, rows, x, y, line, 8) {
        let (l, b) = choose|l: int, b: int|
            lit(rows, l, b) && before(l, b, line, 8) && screen[#[trigger] pixel_index(x, y, l, b)] == 1;
        assert(lit(rows, l, b) && before(l, b, line + 1, 0) && screen[pixel_index(x, y, l, b)] == 1);
    }
}

/// Drawing every row is drawing the whole sprite.
proof fn lemma_all_lines(screen: Seq<u8>, rows: Seq<u8>, x: u8, y: u8)
    ensures
        forall|p: int|
            #![trigger covered(rows, x, y, p)]
            covered(rows, x, y, p) == covered_before(rows, x, y, rows.len() as int, 0, p),
        collides(screen, rows, x, y) == collides_before(screen, rows, x, y, rows.len() as int, 0),
{
    let n = rows.len() as int;
    assert forall|p: int|
        #![trigger covered(rows, x, y, p)]
        covered(rows, x, y, p) == covered_before(rows, x, y, n, 0, p) by {
        if covered(rows, x, y, p) {
            let (l, b) = choose|l: int, b: int| #[trigger] pixel_index(x, y, l, b) == p && lit(rows, l, b);
            assert(pixel_index(x, y, l, b) == p && lit(rows, l, b) && before(l, b, n, 0));
        }
        if covered_before(rows, x, y, n, 0, p) {
            let (l, b) = choose|l: int, b: int|
                #[trigger] pixel_index(x, y, l, b) == p && lit(rows, l, b) && before(l, b, n, 0);
            assert(pixel_index(x, y, l, b) == p && lit(rows, l, b));
        }
    }
    if collides(screen, rows, x, y) {
        let (l, b) = choose|l: int, b: int| lit(rows, l, b) && screen[#[trigger] pixel_index(x, y, l, b)] == 1;
        assert(lit(rows, l, b) && before(l, b, n, 0) && screen[pixel_index(x, y, l, b)] == 1);
    }
}

/// XORs the `n`-row sprite stored at `memory[start..start + n]` onto the
/// buffer at `(x, y)`, and reports whether some set cell was cleared.
pub fn draw_sprite(screen: &mut [u8; SCREEN_SIZE], memory: &[u8; MEM_SIZE], start: usize, n: usize, x: u8, y: u8) -> (collided: bool)
    requires
        start + n <= MEM_SIZE,
        n < 16,
        screen_is_binary(old(screen)@),
    ensures
        final(screen)@ == drawn(old(screen)@, memory@.subrange(start as int, start + n), x, y),
        collided == collides(old(screen)@, memory@.subrange(start as int, start + n), x, y),
        screen_is_binary(final(screen)@),
{
    let ghost s0 = screen@;
    let ghost rows = memory@.subrange(start as int, start + n);
    let mut collided = false;
    let mut line: usize = 0;
    while line < n
        invariant
            line <= n,
            n < 16,
            start + n <= MEM_SIZE,
            rows == memory@.subrange(start as int, start + n),
            s0.len() == SCREEN_SIZE,
            screen@.len() == SCREEN_SIZE,
            screen_is_binary(s0),
            forall|p: int|
                0 <= p < SCREEN_SIZE ==> #[trigger] screen@[p] == if covered_before(rows, x, y, line as int, 0, p) {
                    s0[p] ^ 1u8
                } else {
                    s0[p]
                },
            collided == collides_before(s0, rows, x, y, line as int, 0),
        decreases n - line,
    {
        let data = memory[start + line];
        let mut b: usize = 0;
        while b < 8
            invariant
                line < n,
                n < 16,
                b <= 8,
                start + n <= MEM_SIZE,
                rows == memory@.subrange(start as int, start + n),
                data == rows[line as int],
                s0.len() == SCREEN_SIZE,
                screen@.len() == SCREEN_SIZE,
                screen_is_binary(s0),
                forall|p: int|
                    0 <= p < SCREEN_SIZE ==> #[trigger] screen@[p] == if covered_before(rows, x, y, line as int, b as int, p) {
                        s0[p] ^ 1u8
                    } else {
                        s0[p]
                    },
                collided == collides_before(s0, rows, x, y, line as int, b as int),
            decreases 8 - b,
        {
            proof {
                lemma_advance(s0, rows, x, y, line as int, b as int);
            }
            let y_off: usize = (y as usize + line) * SCREEN_WIDTH;
            let pixel: usize = (x as usize + b + y_off) % SCREEN_SIZE;
            assert(pixel == pixel_index(x, y, line as int, b as int));
            if data & (0x80u8 >> (b as u8)) != 0 {
                assert(lit(rows, line as int, b as int));
                let cur = screen[pixel];
                if cur == 1 {
                    collided = true;
                }
                proof {
                    lemma_flip(s0[pixel as int]);
                }
                screen[pixel] = cur ^ 1u8;
            } else {
                assert(!lit(rows, line as int, b as int));
            }
            b = b + 1;
        }
        proof {
            lemma_next_line(s0, rows, x, y, line as int);
        }
        line = line + 1;
    }
    proof {
        lemma_all_lines(s0, rows, x, y);
        assert(screen@ =~= drawn(s0, rows, x, y));
        assert forall|p: int| 0 <= p < screen@.len() implies #[trigger] screen@[p] <= 1 by {
            lemma_flip(s0[p]);
        }
    }
    collided
}

} // verus!
