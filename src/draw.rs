use vstd::prelude::*;

use crate::io::{SCREEN_SIZE, SCREEN_WIDTH};
use crate::semantics::{bit_of, collides, covered, lit, pixel_cell, sprite_row_addr, touches};

verus! {

/// Whether cell `c` is one of the first `j` cells from `loc` whose bit is set in `byte`.
pub open spec fn row_hits(loc: int, byte: u8, j: int, c: int) -> bool {
    loc <= c < loc + j && bit_of(byte, c - loc)
}

/// Whether some on-screen cell among the first `j` cells from `loc` has its bit set in `byte`.
pub open spec fn row_touches(loc: int, byte: u8, j: int) -> bool {
    exists|c: int| 0 <= c < SCREEN_SIZE && #[trigger] row_hits(loc, byte, j, c)
}

/// Whether some on-screen cell among the first `j` cells from `loc` has its
/// bit set in `byte` and is on in `screen`.
pub open spec fn row_collides(screen: Seq<bool>, loc: int, byte: u8, j: int) -> bool {
    exists|c: int| 0 <= c < SCREEN_SIZE && #[trigger] row_hits(loc, byte, j, c) && screen[c]
}

/// Drawing row `i` of a sprite adds the cells that the row hits, and no
/// cell is hit by two rows.
pub proof fn lemma_row(
    mem: Seq<u8>,
    index: u16,
    x: int,
    y: int,
    i: int,
    byte: u8,
    screen: Seq<bool>,
)
    requires
        0 <= x,
        0 <= y,
        0 <= i,
        y + i < 32 ==> byte == mem[sprite_row_addr(index, i)],
        y + i >= 32 ==> byte == 0,
    ensures
        forall|c: int|
            #[trigger] covered(mem, index, x, y, i + 1, c) == (covered(mem, index, x, y, i, c)
                || row_hits(x + (y + i) * SCREEN_WIDTH, byte, 8, c)),
        forall|c: int|
            !(#[trigger] covered(mem, index, x, y, i, c) && row_hits(
                x + (y + i) * SCREEN_WIDTH,
                byte,
                8,
                c,
            )),
        collides(screen, mem, index, x, y, i + 1) == (collides(screen, mem, index, x, y, i)
            || row_collides(screen, x + (y + i) * SCREEN_WIDTH, byte, 8)),
        touches(mem, index, x, y, i + 1) == (touches(mem, index, x, y, i) || row_touches(
            x + (y + i) * SCREEN_WIDTH,
            byte,
            8,
        )),
{
    let loc = x + (y + i) * SCREEN_WIDTH;
    assert forall|b: int| 0 <= b < 8 implies #[trigger] lit(mem, index, y, i, b) == bit_of(byte, b) by {
        if y + i >= 32 {
            let bb = b as u8;
            assert(0u8 & (0x80u8 >> bb) == 0) by (bit_vector);
        }
    }
    assert forall|c: int|
        #[trigger] covered(mem, index, x, y, i + 1, c) == (covered(mem, index, x, y, i, c)
            || row_hits(loc, byte, 8, c)) by {
        if covered(mem, index, x, y, i + 1, c) {
            let (r, b) = choose|r: int, b: int|
                0 <= r < i + 1 && 0 <= b < 8 && #[trigger] lit(mem, index, y, r, b) && pixel_cell(
                    x,
                    y,
                    r,
                    b,
                ) == c;
            if r < i {
                assert(lit(mem, index, y, r, b));
            } else {
                assert(c - loc == b);
            }
        }
        if covered(mem, index, x, y, i, c) {
            let (r, b) = choose|r: int, b: int|
                0 <= r < i && 0 <= b < 8 && #[trigger] lit(mem, index, y, r, b) && pixel_cell(x, y, r, b)
                    == c;
            assert(0 <= r < i + 1 && 0 <= b < 8 && lit(mem, index, y, r, b) && pixel_cell(x, y, r, b)
                == c);
        }
        if row_hits(loc, byte, 8, c) {
            let b = c - loc;
            assert(lit(mem, index, y, i, b));
            assert(pixel_cell(x, y, i, b) == c);
        }
    }
    assert forall|c: int|
        !(#[trigger] covered(mem, index, x, y, i, c) && row_hits(loc, byte, 8, c)) by {
        if covered(mem, index, x, y, i, c) {
            let (r, b) = choose|r: int, b: int|
                0 <= r < i && 0 <= b < 8 && #[trigger] lit(mem, index, y, r, b) && pixel_cell(x, y, r, b)
                    == c;
            assert(c < loc);
        }
    }
    if collides(screen, mem, index, x, y, i + 1) {
        let (r, b) = choose|r: int, b: int|
            0 <= r < i + 1 && 0 <= b < 8 && #[trigger] lit(mem, index, y, r, b) && 0 <= pixel_cell(
                x,
                y,
                r,
                b,
            ) < SCREEN_SIZE && screen[pixel_cell(x, y, r, b)];
        if r == i {
            assert(row_hits(loc, byte, 8, pixel_cell(x, y, r, b)));
        }
    }
    if collides(screen, mem, index, x, y, i) {
        let (r, b) = choose|r: int, b: int|
            0 <= r < i && 0 <= b < 8 && #[trigger] lit(mem, index, y, r, b) && 0 <= pixel_cell(x, y, r, b)
                < SCREEN_SIZE && screen[pixel_cell(x, y, r, b)];
        assert(lit(mem, index, y, r, b));
    }
    if row_collides(screen, loc, byte, 8) {
        let c = choose|c: int| 0 <= c < SCREEN_SIZE && #[trigger] row_hits(loc, byte, 8, c) && screen[c];
        assert(lit(mem, index, y, i, c - loc));
        assert(pixel_cell(x, y, i, c - loc) == c);
    }
    if touches(mem, index, x, y, i + 1) {
        let (r, b) = choose|r: int, b: int|
            0 <= r < i + 1 && 0 <= b < 8 && #[trigger] lit(mem, index, y, r, b) && 0 <= pixel_cell(
                x,
                y,
                r,
                b,
            ) < SCREEN_SIZE;
        if r == i {
            assert(row_hits(loc, byte, 8, pixel_cell(x, y, r, b)));
        }
    }
    if touches(mem, index, x, y, i) {
        let (r, b) = choose|r: int, b: int|
            0 <= r < i && 0 <= b < 8 && #[trigger] lit(mem, index, y, r, b) && 0 <= pixel_cell(x, y, r, b)
                < SCREEN_SIZE;
        assert(lit(mem, index, y, r, b));
    }
    if row_touches(loc, byte, 8) {
        let c = choose|c: int| 0 <= c < SCREEN_SIZE && #[trigger] row_hits(loc, byte, 8, c);
        assert(lit(mem, index, y, i, c - loc));
        assert(pixel_cell(x, y, i, c - loc) == c);
    }
}

} // verus!
