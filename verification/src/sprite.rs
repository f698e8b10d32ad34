use vstd::prelude::*;
use crate::display::{Display, SCREEN_HEIGHT, SCREEN_WIDTH, screen_shaped};
use crate::memory::{Memory, MEMORY_SIZE};

verus! {

/// Whether column `c` (0 leftmost) of the 8-pixel sprite row `row` is set:
/// bit `7 - c` of the byte.
pub open spec fn sprite_pixel(row: u8, c: int) -> bool {
    (row >> ((7 - c) as u8)) & 1u8 == 1u8
}

/// Whether the `n`-row sprite read from `memory` at `i`, drawn with its top
/// left corner at (`vx`, `vy`) and wrapping around the screen's edges,
/// has a set pixel at (`px`, `py`).
pub open spec fn sprite_covers(
    memory: Seq<u8>,
    i: u16,
    vx: u8,
    vy: u8,
    n: int,
    px: int,
    py: int,
) -> bool {
    let c = (px - vx) % (SCREEN_WIDTH as int);
    let r = (py - vy) % (SCREEN_HEIGHT as int);
    &&& c < 8
    &&& r < n
    &&& sprite_pixel(memory[(i + r) % (MEMORY_SIZE as int)], c)
}

/// `screen` after the sprite is drawn: each pixel the sprite covers is
/// inverted, every other pixel kept.
pub open spec fn drawn(
    screen: Seq<Seq<bool>>,
    memory: Seq<u8>,
    i: u16,
    vx: u8,
    vy: u8,
    n: int,
) -> Seq<Seq<bool>> {
    Seq::new(
        SCREEN_HEIGHT as nat,
        |py: int|
            Seq::new(
                SCREEN_WIDTH as nat,
                |px: int| screen[py][px] != sprite_covers(memory, i, vx, vy, n, px, py),
            ),
    )
}

/// Whether drawing the sprite turns some lit pixel of `screen` off.
pub open spec fn collides(
    screen: Seq<Seq<bool>>,
    memory: Seq<u8>,
    i: u16,
    vx: u8,
    vy: u8,
    n: int,
) -> bool {
    exists|px: int, py: int|
        0 <= px < SCREEN_WIDTH && 0 <= py < SCREEN_HEIGHT && #[trigger] sprite_covers(
            memory,
            i,
            vx,
            vy,
            n,
            px,
            py,
        ) && screen[py][px]
}

/// The pixels covered by sprite rows before `row`, and by columns before
/// `col` of row `row`.
spec fn covered_before(
    memory: Seq<u8>,
    i: u16,
    vx: u8,
    vy: u8,
    n: int,
    row: int,
    col: int,
    px: int,
    py: int,
) -> bool {
    let c = (px - vx) % 64;
    let r = (py - vy) % 32;
    &&& sprite_covers(memory, i, vx, vy, n, px, py)
    &&& (r < row || (r == row && c < col))
}

spec fn hit_lit_before(
    screen: Seq<Seq<bool>>,
    memory: Seq<u8>,
    i: u16,
    vx: u8,
    vy: u8,
    n: int,
    row: int,
    col: int,
) -> bool {
    exists|px: int, py: int|
        0 <= px < 64 && 0 <= py < 32 && #[trigger] covered_before(
            memory,
            i,
            vx,
            vy,
            n,
            row,
            col,
            px,
            py,
        ) && screen[py][px]
}

proof fn lemma_target_pixel(vx: u8, vy: u8, row: int, col: int, px: int, py: int)
    requires
        0 <= row < 16,
        0 <= col < 8,
        0 <= px < 64,
        0 <= py < 32,
    ensures
        ((px - vx) % 64 == col && (py - vy) % 32 == row) <==> (px == (vx + col) % 64 && py == (vy
            + row) % 32),
{
}

proof fn lemma_sprite_bit(sprite: u8, col: u8)
    requires
        col < 8,
    ensures
        (sprite & (0x80u8 >> col) != 0u8) <==> sprite_pixel(sprite, col as int),
{
    let sh: u8 = (7 - col) as u8;
    assert((sprite & (0x80u8 >> col) != 0u8) <==> ((sprite >> sh) & 1u8 == 1u8)) by (bit_vector)
        requires
            col < 8,
            sh == 7 - col,
    ;
}

/// Draws the `n`-row sprite stored at `i` in `memory` at (`vx`, `vy`),
/// inverting each pixel it covers, and tells whether a lit pixel was turned
/// off.
pub fn draw_sprite(
    display: &mut Display,
    memory: &Memory,
    i: u16,
    vx: u8,
    vy: u8,
    n: u8,
) -> (collision: bool)
    requires
        n < 16,
    ensures
        final(display)@ == drawn(old(display)@, memory@, i, vx, vy, n as int),
        collision == collides(old(display)@, memory@, i, vx, vy, n as int),
{
    let ghost mem = memory@;
    let ghost start = old(display)@;
    let mut collision = false;
    let mut row: u8 = 0;
    while row < n
        invariant
            n < 16,
            row <= n,
            mem == memory@,
            start == old(display)@,
            screen_shaped(display@),
            forall|px: int, py: int|
                0 <= px < 64 && 0 <= py < 32 ==> #[trigger] display@[py][px] == (start[py][px]
                    != covered_before(mem, i, vx, vy, n as int, row as int, 0, px, py)),
            collision == hit_lit_before(start, mem, i, vx, vy, n as int, row as int, 0),
        decreases n - row,
    {
        let sprite = memory.values[((i as usize) + (row as usize)) % MEMORY_SIZE];
        let mut col: u8 = 0;
        while col < 8
            invariant
                n < 16,
                row < n,
                col <= 8,
                mem == memory@,
                sprite == mem[(i + row) % 4096],
                start == old(display)@,
                screen_shaped(display@),
                forall|px: int, py: int|
                    0 <= px < 64 && 0 <= py < 32 ==> #[trigger] display@[py][px] == (start[py][px]
                        != covered_before(mem, i, vx, vy, n as int, row as int, col as int, px, py)),
                collision == hit_lit_before(start, mem, i, vx, vy, n as int, row as int, col as int),
            decreases 8 - col,
        {
            let ghost before = display@;
            let ghost old_collision = collision;
            proof {
                lemma_sprite_bit(sprite, col);
            }
            if sprite & (0x80u8 >> col) != 0 {
                let px = vx.wrapping_add(col) % SCREEN_WIDTH;
                let py = vy.wrapping_add(row) % SCREEN_HEIGHT;
                assert(px == (vx + col) % 64);
                assert(py == (vy + row) % 32);
                let was_lit = display.toggle_pixel(px, py);
                proof {
                    lemma_target_pixel(vx, vy, row as int, col as int, px as int, py as int);
                    assert(!covered_before(
                        mem,
                        i,
                        vx,
                        vy,
                        n as int,
                        row as int,
                        col as int,
                        px as int,
                        py as int,
                    ));
                    assert(was_lit == start[py as int][px as int]);
                    assert forall|qx: int, qy: int|
                        0 <= qx < 64 && 0 <= qy < 32 implies covered_before(
                        mem,
                        i,
                        vx,
                        vy,
                        n as int,
                        row as int,
                        col + 1,
                        qx,
                        qy,
                    ) == (covered_before(
                        mem,
                        i,
                        vx,
                        vy,
                        n as int,
                        row as int,
                        col as int,
                        qx,
                        qy,
                    ) || (qx == px && qy == py)) by {
                        lemma_target_pixel(vx, vy, row as int, col as int, qx, qy);
                    }
                }
                if was_lit {
                    collision = true;
                }
                proof {
                    if hit_lit_before(start, mem, i, vx, vy, n as int, row as int, col + 1) {
                        let (wx, wy) = choose|wx: int, wy: int|
                            0 <= wx < 64 && 0 <= wy < 32 && #[trigger] covered_before(
                                mem,
                                i,
                                vx,
                                vy,
                                n as int,
                                row as int,
                                col + 1,
                                wx,
                                wy,
                            ) && start[wy][wx];
                        if covered_before(
                            mem,
                            i,
                            vx,
                            vy,
                            n as int,
                            row as int,
                            col as int,
                            wx,
                            wy,
                        ) {
                            assert(old_collision);
                        } else {
                            assert(wx == px && wy == py);
                        }
                    }
                    if collision {
                        if old_collision {
                            let (wx, wy) = choose|wx: int, wy: int|
                                0 <= wx < 64 && 0 <= wy < 32 && #[trigger] covered_before(
                                    mem,
                                    i,
                                    vx,
                                    vy,
                                    n as int,
                                    row as int,
                                    col as int,
                                    wx,
                                    wy,
                                ) && start[wy][wx];
                            assert(covered_before(
                                mem,
                                i,
                                vx,
                                vy,
                                n as int,
                                row as int,
                                col + 1,
                                wx,
                                wy,
                            ));
                        } else {
                            assert(covered_before(
                                mem,
                                i,
                                vx,
                                vy,
                                n as int,
                                row as int,
                                col + 1,
                                px as int,
                                py as int,
                            ));
                        }
                    }
                }
            } else {
                proof {
                    assert forall|qx: int, qy: int|
                        0 <= qx < 64 && 0 <= qy < 32 implies covered_before(
                        mem,
                        i,
                        vx,
                        vy,
                        n as int,
                        row as int,
                        col + 1,
                        qx,
                        qy,
                    ) == covered_before(
                        mem,
                        i,
                        vx,
                        vy,
                        n as int,
                        row as int,
                        col as int,
                        qx,
                        qy,
                    ) by {
                        lemma_target_pixel(vx, vy, row as int, col as int, qx, qy);
                    }
                    if hit_lit_before(start, mem, i, vx, vy, n as int, row as int, col + 1) {
                        let (wx, wy) = choose|wx: int, wy: int|
                            0 <= wx < 64 && 0 <= wy < 32 && #[trigger] covered_before(
                                mem,
                                i,
                                vx,
                                vy,
                                n as int,
                                row as int,
                                col + 1,
                                wx,
                                wy,
                            ) && start[wy][wx];
                        assert(covered_before(
                            mem,
                            i,
                            vx,
                            vy,
                            n as int,
                            row as int,
                            col as int,
                            wx,
                            wy,
                        ));
                    }
                    if old_collision {
                        let (wx, wy) = choose|wx: int, wy: int|
                            0 <= wx < 64 && 0 <= wy < 32 && #[trigger] covered_before(
                                mem,
                                i,
                                vx,
                                vy,
                                n as int,
                                row as int,
                                col as int,
                                wx,
                                wy,
                            ) && start[wy][wx];
                        assert(covered_before(
                            mem,
                            i,
                            vx,
                            vy,
                            n as int,
                            row as int,
                            col + 1,
                            wx,
                            wy,
                        ));
                    }
                }
            }
            col = col + 1;
        }
        proof {
            assert forall|qx: int, qy: int|
                0 <= qx < 64 && 0 <= qy < 32 implies covered_before(
                mem,
                i,
                vx,
                vy,
                n as int,
                row as int,
                8,
                qx,
                qy,
            ) == covered_before(mem, i, vx, vy, n as int, row + 1, 0, qx, qy) by {}
            if collision {
                let (wx, wy) = choose|wx: int, wy: int|
                    0 <= wx < 64 && 0 <= wy < 32 && #[trigger] covered_before(
                        mem,
                        i,
                        vx,
                        vy,
                        n as int,
                        row as int,
                        8,
                        wx,
                        wy,
                    ) && start[wy][wx];
                assert(covered_before(mem, i, vx, vy, n as int, row + 1, 0, wx, wy));
            }
            if hit_lit_before(start, mem, i, vx, vy, n as int, row + 1, 0) {
                let (wx, wy) = choose|wx: int, wy: int|
                    0 <= wx < 64 && 0 <= wy < 32 && #[trigger] covered_before(
                        mem,
                        i,
                        vx,
                        vy,
                        n as int,
                        row + 1,
                        0,
                        wx,
                        wy,
                    ) && start[wy][wx];
                assert(covered_before(mem, i, vx, vy, n as int, row as int, 8, wx, wy));
            }
        }
        row = row + 1;
    }
    proof {
        assert forall|qx: int, qy: int|
            0 <= qx < 64 && 0 <= qy < 32 implies covered_before(
            mem,
            i,
            vx,
            vy,
            n as int,
            n as int,
            0,
            qx,
            qy,
        ) == sprite_covers(mem, i, vx, vy, n as int, qx, qy) by {}
        let target = drawn(start, mem, i, vx, vy, n as int);
        assert forall|py: int| 0 <= py < 32 implies #[trigger] display@[py] =~= target[py] by {
            assert forall|px: int| 0 <= px < 64 implies display@[py][px] == target[py][px] by {}
        }
        assert(display@ =~= target);
        if collision {
            let (wx, wy) = choose|wx: int, wy: int|
                0 <= wx < 64 && 0 <= wy < 32 && #[trigger] covered_before(
                    mem,
                    i,
                    vx,
                    vy,
                    n as int,
                    n as int,
                    0,
                    wx,
                    wy,
                ) && start[wy][wx];
            assert(sprite_covers(mem, i, vx, vy, n as int, wx, wy));
        }
        if collides(start, mem, i, vx, vy, n as int) {
            let (wx, wy) = choose|wx: int, wy: int|
                0 <= wx < 64 && 0 <= wy < 32 && #[trigger] sprite_covers(
                    mem,
                    i,
                    vx,
                    vy,
                    n as int,
                    wx,
                    wy,
                ) && start[wy][wx];
            assert(covered_before(mem, i, vx, vy, n as int, n as int, 0, wx, wy));
        }
    }
    collision
}

} // verus!
