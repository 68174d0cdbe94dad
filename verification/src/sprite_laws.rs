//! What `DXYN` does to each pixel and to `VF`, stated pixel by pixel.

use crate::semantics::{draw_row, draw_rows, frame_shape, state_wf, step, Action, Chip8State};
use vstd::prelude::*;

verus! {

/// Bit `7 - k` of a sprite byte, counted from the left: the `k`-th pixel.
pub open spec fn pixel_bit(b: u8, k: int) -> bool {
    (b >> ((7 - k) as u8)) & 1u8 == 1u8
}

/// A pixel after a sprite bit is drawn over it: a set bit flips a lit (1)
/// pixel off and any other on; a clear bit turns it off.
pub open spec fn drawn_pixel(old: u8, bit: bool) -> u8 {
    if bit && old != 1 {
        1
    } else {
        0
    }
}

/// Whether pixel `k` of sprite row `j`, placed at (`xc`, `yc`), is set and
/// falls on a lit pixel of `fb` inside the screen.
pub open spec fn collision_at(
    fb: Seq<Seq<u8>>,
    memory: Seq<u8>,
    index: int,
    xc: int,
    yc: int,
    j: int,
    k: int,
) -> bool {
    &&& 0 <= k < 8
    &&& xc + k < 64
    &&& pixel_bit(memory[index + j], k)
    &&& fb[xc + k][yc + j] == 1
}

/// How many of the sprite's rows `r..n` fit from line `yc` down.
pub open spec fn rows_left(n: int, r: int, yc: int) -> int {
    if r >= n || yc >= 32 {
        0
    } else if n - r < 32 - yc {
        n - r
    } else {
        32 - yc
    }
}

/// Pixel (`c`, `line`) after rows of a sprite from `memory[index + r..]`
/// were drawn at (`xc`, `yc`).
pub open spec fn pixel_after_rows(
    fb: Seq<Seq<u8>>,
    memory: Seq<u8>,
    index: int,
    xc: int,
    yc: int,
    count: int,
    c: int,
    line: int,
) -> u8 {
    if yc <= line < yc + count && xc <= c < xc + 8 {
        drawn_pixel(fb[c][line], pixel_bit(memory[index + (line - yc)], c - xc))
    } else {
        fb[c][line]
    }
}

proof fn lemma_row_effect(fb: Seq<Seq<u8>>, sprite: u8, xc: int, yc: int, k: int)
    requires
        frame_shape(fb),
        0 <= xc < 64,
        0 <= yc < 32,
        0 <= k <= 8,
    ensures
        frame_shape(draw_row(fb, sprite, xc, yc, k).0),
        forall|c: int, r: int|
            0 <= c < 64 && 0 <= r < 32 ==> #[trigger] draw_row(fb, sprite, xc, yc, k).0[c][r] == if r
                == yc && xc + k <= c < xc + 8 {
                drawn_pixel(fb[c][r], pixel_bit(sprite, c - xc))
            } else {
                fb[c][r]
            },
        draw_row(fb, sprite, xc, yc, k).1 <==> exists|j: int|
            k <= j < 8 && xc + j < 64 && pixel_bit(sprite, j) && #[trigger] fb[xc + j][yc] == 1,
    decreases 8 - k,
{
    if k < 8 && xc + k < 64 {
        let col = xc + k;
        let old = fb[col][yc];
        let bit = crate::semantics::sprite_bit(sprite, k);
        let fb1 = fb.update(col, fb[col].update(yc, crate::semantics::pixel_after(old, bit)));
        assert(frame_shape(fb1)) by {
            assert forall|c: int| 0 <= c < 64 implies #[trigger] fb1[c].len() == 32 by {
                assert(fb[c].len() == 32);
            }
        }
        lemma_row_effect(fb1, sprite, xc, yc, k + 1);
        let res = draw_row(fb, sprite, xc, yc, k);
        let rest = draw_row(fb1, sprite, xc, yc, k + 1);
        assert(res == (rest.0, rest.1 || (bit && old == 1)));
        assert forall|c: int, r: int| 0 <= c < 64 && 0 <= r < 32 implies #[trigger] res.0[c][r]
            == if r == yc && xc + k <= c < xc + 8 {
            drawn_pixel(fb[c][r], pixel_bit(sprite, c - xc))
        } else {
            fb[c][r]
        } by {
            assert(rest.0[c][r] == if r == yc && xc + k + 1 <= c < xc + 8 {
                drawn_pixel(fb1[c][r], pixel_bit(sprite, c - xc))
            } else {
                fb1[c][r]
            });
            assert(fb[c].len() == 32);
            if c == col && r == yc {
            } else {
                assert(fb1[c][r] == fb[c][r]);
            }
        }
        if res.1 {
            if bit && old == 1 {
                assert(fb[xc + k][yc] == 1);
            } else {
                let j = choose|j: int|
                    k + 1 <= j < 8 && xc + j < 64 && pixel_bit(sprite, j) && #[trigger] fb1[xc
                        + j][yc] == 1;
                assert(fb1[xc + j][yc] == fb[xc + j][yc]);
            }
        }
        if exists|j: int|
            k <= j < 8 && xc + j < 64 && pixel_bit(sprite, j) && #[trigger] fb[xc + j][yc] == 1 {
            let j = choose|j: int|
                k <= j < 8 && xc + j < 64 && pixel_bit(sprite, j) && #[trigger] fb[xc + j][yc]
                    == 1;
            if j > k {
                assert(fb1[xc + j][yc] == fb[xc + j][yc]);
            }
        }
    }
}

/// Whether some drawn row of the sprite collides with a lit pixel.
pub open spec fn any_collision(
    fb: Seq<Seq<u8>>,
    memory: Seq<u8>,
    index: int,
    xc: int,
    yc: int,
    count: int,
) -> bool {
    exists|j: int, k: int| 0 <= j < count && #[trigger] collision_at(fb, memory, index, xc, yc, j, k)
}

proof fn lemma_rows_effect(
    fb: Seq<Seq<u8>>,
    v: Seq<u8>,
    memory: Seq<u8>,
    index: int,
    x: int,
    xc: int,
    yc: int,
    n: int,
    r: int,
)
    requires
        frame_shape(fb),
        v.len() == 16,
        0 <= x < 15,
        xc == v[x] as int % 64,
        0 <= yc,
        0 <= r,
    ensures
        ({
            let res = draw_rows(fb, v, memory, index, x, xc, yc, n, r);
            let count = rows_left(n, r, yc);
            &&& frame_shape(res.0)
            &&& forall|c: int, line: int|
                0 <= c < 64 && 0 <= line < 32 ==> #[trigger] res.0[c][line] == pixel_after_rows(
                    fb,
                    memory,
                    index + r,
                    xc,
                    yc,
                    count,
                    c,
                    line,
                )
            &&& res.1 == if any_collision(fb, memory, index + r, xc, yc, count) {
                v.update(15, 1u8)
            } else {
                v
            }
        }),
    decreases n - r,
{
    let res = draw_rows(fb, v, memory, index, x, xc, yc, n, r);
    let count = rows_left(n, r, yc);
    if r < n && yc < 32 {
        let sprite = memory[index + r];
        let row = draw_row(fb, sprite, xc, yc, 0);
        lemma_row_effect(fb, sprite, xc, yc, 0);
        let v1 = if row.1 {
            v.update(15, 1u8)
        } else {
            v
        };
        assert(v1[x] == v[x]);
        lemma_rows_effect(row.0, v1, memory, index, x, xc, yc + 1, n, r + 1);
        let count1 = rows_left(n, r + 1, yc + 1);
        assert(count == count1 + 1);
        assert forall|c: int, line: int| 0 <= c < 64 && 0 <= line < 32 implies #[trigger] res.0[c][line]
            == pixel_after_rows(fb, memory, index + r, xc, yc, count, c, line) by {
            assert(res.0[c][line] == pixel_after_rows(
                row.0,
                memory,
                index + r + 1,
                xc,
                yc + 1,
                count1,
                c,
                line,
            ));
            assert(row.0[c][line] == if line == yc && xc <= c < xc + 8 {
                drawn_pixel(fb[c][line], pixel_bit(sprite, c - xc))
            } else {
                fb[c][line]
            });
            if line != yc {
                assert(index + r + 1 + (line - (yc + 1)) == index + r + (line - yc));
            }
        }
        // The rows below this one see the frame as it was: this row only
        // touches line `yc`.
        let later = any_collision(row.0, memory, index + r + 1, xc, yc + 1, count1);
        let all = any_collision(fb, memory, index + r, xc, yc, count);
        assert(later ==> all) by {
            if later {
                let (j, k) = choose|j: int, k: int|
                    0 <= j < count1 && #[trigger] collision_at(
                        row.0,
                        memory,
                        index + r + 1,
                        xc,
                        yc + 1,
                        j,
                        k,
                    );
                assert(row.0[xc + k][yc + 1 + j] == fb[xc + k][yc + 1 + j]);
                assert(index + r + 1 + j == index + r + (j + 1));
                assert(yc + 1 + j == yc + (j + 1));
                assert(collision_at(fb, memory, index + r, xc, yc, j + 1, k));
            }
        }
        assert(row.1 ==> all) by {
            if row.1 {
                let k = choose|k: int|
                    0 <= k < 8 && xc + k < 64 && pixel_bit(sprite, k) && #[trigger] fb[xc + k][yc]
                        == 1;
                assert(collision_at(fb, memory, index + r, xc, yc, 0, k));
            }
        }
        assert(all ==> row.1 || later) by {
            if all {
                let (j, k) = choose|j: int, k: int|
                    0 <= j < count && #[trigger] collision_at(fb, memory, index + r, xc, yc, j, k);
                if j == 0 {
                    assert(fb[xc + k][yc] == 1);
                } else {
                    assert(row.0[xc + k][yc + j] == fb[xc + k][yc + j]);
                    assert(index + r + 1 + (j - 1) == index + r + j);
                    assert(collision_at(row.0, memory, index + r + 1, xc, yc + 1, j - 1, k));
                }
            }
        }
        assert(v.update(15, 1u8).update(15, 1u8) =~= v.update(15, 1u8));
    } else {
        assert(count == 0);
        assert(!any_collision(fb, memory, index + r, xc, yc, count));
    }
}

/// `DXYN` with `X` other than `F`: `VF` is 1 exactly when some set bit of
/// any drawn row lands on a lit pixel, and 0 otherwise; each pixel of the
/// sprite's box (`VX % 64`, `VY % 32`, eight wide, `N` high, cut at the
/// screen's edges) is flipped off where lit under a set bit, turned on where
/// unlit under a set bit, and turned off under a clear bit; every other
/// pixel, every other register, memory and the program counter stay as they
/// were, and the screen is redrawn.
pub proof fn law_draw_sprite(s: Chip8State, op: u16, rnd: u8)
    requires
        state_wf(s),
        op as int / 4096 == 0xD,
        (op as int / 256) % 16 != 0xF,
    ensures
        ({
            let x = (op as int / 256) % 16;
            let y = (op as int / 16) % 16;
            let n = op as int % 16;
            let x0 = s.v[x] as int % 64;
            let y0 = s.v[y] as int % 32;
            let count = if n < 32 - y0 {
                n
            } else {
                32 - y0
            };
            let t = step(s, op, rnd);
            &&& t.1 == Action::Draw
            &&& t.0.v[15] == if exists|j: int, k: int|
                0 <= j < count && #[trigger] collision_at(s.frame, s.memory, s.index as int, x0, y0, j, k) {
                1u8
            } else {
                0u8
            }
            &&& forall|i: int| 0 <= i < 15 ==> #[trigger] t.0.v[i] == s.v[i]
            &&& forall|c: int, line: int|
                0 <= c < 64 && 0 <= line < 32 ==> #[trigger] t.0.frame[c][line] == if y0 <= line
                    < y0 + count && x0 <= c < x0 + 8 {
                    drawn_pixel(
                        s.frame[c][line],
                        pixel_bit(s.memory[s.index + (line - y0)], c - x0),
                    )
                } else {
                    s.frame[c][line]
                }
            &&& t.0.memory == s.memory
            &&& t.0.pc == s.pc
            &&& t.0.index == s.index
            &&& t.0.stack == s.stack
        }),
{
    let x = (op as int / 256) % 16;
    let y = (op as int / 16) % 16;
    let n = op as int % 16;
    let x0 = s.v[x] as int % 64;
    let y0 = s.v[y] as int % 32;
    let v1 = s.v.update(15, 0u8);
    lemma_rows_effect(s.frame, v1, s.memory, s.index as int, x, x0, y0, n, 0);
    assert(rows_left(n, 0, y0) == if n < 32 - y0 {
        n
    } else {
        32 - y0
    });
}

} // verus!
