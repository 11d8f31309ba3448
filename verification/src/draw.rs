//! Dxyn, draw-sprite: XOR-toggles sprite bits onto the framebuffer with
//! per-pixel coordinate wraparound, and records in the flag register
//! whether any toggle turned a lit pixel off.

use vstd::prelude::*;

use crate::decode::lemma_field_bounds;
use crate::decode::op_n;
use crate::decode::op_x;
use crate::decode::op_y;
use crate::machine::CHIP8;
use crate::machine::MEMORY_SIZE;
use crate::machine::SCREEN_HEIGHT;
use crate::machine::SCREEN_PIXELS;
use crate::machine::SCREEN_WIDTH;
use crate::ops::same_timers_and_keys;

verus! {

/// Row-major framebuffer cell of a pixel position, with the coordinates
/// wrapped at the screen edges.
pub open spec fn pix_index(yy: int, xx: int) -> int {
    (yy % (SCREEN_HEIGHT as int)) * (SCREEN_WIDTH as int) + (xx % (SCREEN_WIDTH as int))
}

/// Whether bit `c`, counted from the left, of sprite byte `b` is set.
pub open spec fn sprite_bit(b: u8, c: int) -> bool {
    b & (0x80u8 >> (c as u8)) != 0
}

/// The left column of the sprite: register x wrapped to the screen width.
pub open spec fn draw_x(s: CHIP8, op: u16) -> int {
    (s.registers@[op_x(op)] as int) % (SCREEN_WIDTH as int)
}

/// The top row of the sprite: register y wrapped to the screen height.
pub open spec fn draw_y(s: CHIP8, op: u16) -> int {
    (s.registers@[op_y(op)] as int) % (SCREEN_HEIGHT as int)
}

/// Whether sprite row `r`, column `c` is a lit sprite bit. Sprite bytes are
/// read from memory at the index register, masked into the 4096-byte window.
pub open spec fn lit(s: CHIP8, op: u16, r: int, c: int) -> bool {
    sprite_bit(s.memory@[(s.ir + r) % (MEMORY_SIZE as int)], c)
}

/// The framebuffer cell that sprite row `r`, column `c` lands on.
pub open spec fn target(s: CHIP8, op: u16, r: int, c: int) -> int {
    pix_index(draw_y(s, op) + r, draw_x(s, op) + c)
}

/// Whether, among the first `k` sprite (row, column) pairs in drawing order,
/// some lit bit lands on framebuffer cell `i`.
pub open spec fn toggles_upto(s: CHIP8, op: u16, k: int, i: int) -> bool {
    exists|r: int, c: int|
        0 <= r < op_n(op) && 0 <= c < 8 && 8 * r + c < k && #[trigger] lit(s, op, r, c) && target(
            s,
            op,
            r,
            c,
        ) == i
}

/// Whether some lit bit of the whole sprite lands on framebuffer cell `i`.
pub open spec fn toggles(s: CHIP8, op: u16, i: int) -> bool {
    toggles_upto(s, op, 8 * op_n(op), i)
}

/// Whether, among the first `k` pairs, some lit bit lands on a cell that
/// was already on.
pub open spec fn collides_upto(s: CHIP8, op: u16, k: int) -> bool {
    exists|r: int, c: int|
        0 <= r < op_n(op) && 0 <= c < 8 && 8 * r + c < k && #[trigger] lit(s, op, r, c)
            && s.video@[target(s, op, r, c)]
}

/// Whether the whole sprite collides: some lit bit turns an on pixel off.
pub open spec fn collides(s: CHIP8, op: u16) -> bool {
    collides_upto(s, op, 8 * op_n(op))
}

/// The draw transition: each cell some lit sprite bit lands on is XOR
/// toggled, the flag register records whether a collision happened, and
/// everything else stays put.
pub open spec fn draw_rel(pre: CHIP8, post: CHIP8, op: u16) -> bool {
    &&& post.video@.len() == pre.video@.len()
    &&& forall|i: int|
        0 <= i < pre.video@.len() ==> post.video@[i] == (pre.video@[i] != toggles(pre, op, i))
    &&& post.registers@ == pre.registers@.update(
        0xF,
        (if collides(pre, op) {
            1u8
        } else {
            0u8
        }),
    )
    &&& post.memory@ == pre.memory@
    &&& post.ir == pre.ir
    &&& post.pc == pre.pc
    &&& post.stack@ == pre.stack@
    &&& post.st_pointer == pre.st_pointer
    &&& same_timers_and_keys(pre, post)
}

/// Two pairs in drawing order with the same rank are the same pair.
proof fn lemma_pair_eq(r1: int, c1: int, r2: int, c2: int)
    requires
        0 <= c1 < 8,
        0 <= c2 < 8,
        8 * r1 + c1 == 8 * r2 + c2,
    ensures
        r1 == r2,
        c1 == c2,
{
}

/// Distinct sprite bits land on distinct framebuffer cells: within one
/// sprite the wrapped rows stay distinct (height at most 16 < 32) and the
/// wrapped columns stay distinct (width 8 < 64).
proof fn lemma_target_injective(s: CHIP8, op: u16, r1: int, c1: int, r2: int, c2: int)
    requires
        s.wf(),
        0 <= r1 < 16,
        0 <= c1 < 8,
        0 <= r2 < 16,
        0 <= c2 < 8,
        !(r1 == r2 && c1 == c2),
    ensures
        target(s, op, r1, c1) != target(s, op, r2, c2),
{
    lemma_field_bounds(op);
    let x0 = draw_x(s, op);
    let y0 = draw_y(s, op);
    assert(0 <= x0 < 64);
    assert(0 <= y0 < 32);
    let yy1 = (y0 + r1) % 32;
    let yy2 = (y0 + r2) % 32;
    let xx1 = (x0 + c1) % 64;
    let xx2 = (x0 + c2) % 64;
    assert(yy1 == (if y0 + r1 < 32 { y0 + r1 } else { y0 + r1 - 32 }));
    assert(yy2 == (if y0 + r2 < 32 { y0 + r2 } else { y0 + r2 - 32 }));
    assert(xx1 == (if x0 + c1 < 64 { x0 + c1 } else { x0 + c1 - 64 }));
    assert(xx2 == (if x0 + c2 < 64 { x0 + c2 } else { x0 + c2 - 64 }));
    if target(s, op, r1, c1) == target(s, op, r2, c2) {
        assert(yy1 * 64 + xx1 == yy2 * 64 + xx2);
        assert(yy1 == yy2 && xx1 == xx2);
        assert(r1 == r2);
        assert(c1 == c2);
        assert(false);
    }
}

/// How one sprite bit, the pair of rank 8*row + col, moves the partial
/// toggle and collision predicates one step forward.
proof fn lemma_toggles_step(s: CHIP8, op: u16, row: int, col: int)
    requires
        s.wf(),
        0 <= row < op_n(op),
        0 <= col < 8,
    ensures
        lit(s, op, row, col) ==> !toggles_upto(s, op, 8 * row + col, target(s, op, row, col)),
        forall|i: int|
            #[trigger] toggles_upto(s, op, 8 * row + col + 1, i) == (toggles_upto(
                s,
                op,
                8 * row + col,
                i,
            ) || (lit(s, op, row, col) && target(s, op, row, col) == i)),
        collides_upto(s, op, 8 * row + col + 1) == (collides_upto(s, op, 8 * row + col) || (lit(
            s,
            op,
            row,
            col,
        ) && s.video@[target(s, op, row, col)])),
{
    lemma_field_bounds(op);
    let k = 8 * row + col;
    let t = target(s, op, row, col);
    if lit(s, op, row, col) && toggles_upto(s, op, k, t) {
        let (r2, c2) = choose|r2: int, c2: int|
            0 <= r2 < op_n(op) && 0 <= c2 < 8 && 8 * r2 + c2 < k && #[trigger] lit(s, op, r2, c2)
                && target(s, op, r2, c2) == t;
        lemma_target_injective(s, op, r2, c2, row, col);
        assert(false);
    }
    assert forall|i: int|
        toggles_upto(s, op, k + 1, i) == (toggles_upto(s, op, k, i) || (lit(s, op, row, col)
            && target(s, op, row, col) == i)) by {
        if toggles_upto(s, op, k + 1, i) {
            let (r2, c2) = choose|r2: int, c2: int|
                0 <= r2 < op_n(op) && 0 <= c2 < 8 && 8 * r2 + c2 < k + 1 && #[trigger] lit(
                    s,
                    op,
                    r2,
                    c2,
                ) && target(s, op, r2, c2) == i;
            if 8 * r2 + c2 == k {
                lemma_pair_eq(r2, c2, row, col);
                assert(lit(s, op, row, col) && target(s, op, row, col) == i);
            } else {
                assert(toggles_upto(s, op, k, i));
            }
        }
        if toggles_upto(s, op, k, i) {
            let (r2, c2) = choose|r2: int, c2: int|
                0 <= r2 < op_n(op) && 0 <= c2 < 8 && 8 * r2 + c2 < k && #[trigger] lit(s, op, r2, c2)
                    && target(s, op, r2, c2) == i;
            assert(toggles_upto(s, op, k + 1, i));
        }
        if lit(s, op, row, col) && target(s, op, row, col) == i {
            assert(toggles_upto(s, op, k + 1, i));
        }
    }
    if collides_upto(s, op, k + 1) {
        let (r2, c2) = choose|r2: int, c2: int|
            0 <= r2 < op_n(op) && 0 <= c2 < 8 && 8 * r2 + c2 < k + 1 && #[trigger] lit(s, op, r2, c2)
                && s.video@[target(s, op, r2, c2)];
        if 8 * r2 + c2 == k {
            lemma_pair_eq(r2, c2, row, col);
            assert(lit(s, op, row, col) && s.video@[target(s, op, row, col)]);
        } else {
            assert(collides_upto(s, op, k));
        }
    }
    if collides_upto(s, op, k) {
        let (r2, c2) = choose|r2: int, c2: int|
            0 <= r2 < op_n(op) && 0 <= c2 < 8 && 8 * r2 + c2 < k && #[trigger] lit(s, op, r2, c2)
                && s.video@[target(s, op, r2, c2)];
        assert(collides_upto(s, op, k + 1));
    }
    if lit(s, op, row, col) && s.video@[t] {
        assert(collides_upto(s, op, k + 1));
    }
}

impl CHIP8 {
    /// Dxyn, draw-sprite: reads `n` consecutive bytes from memory starting
    /// at the index register and XOR-toggles their set bits onto the screen
    /// at (register x, register y), wrapping each pixel's coordinates at the
    /// screen edges; the flag register becomes 1 exactly when a toggle turns
    /// a previously-on pixel off.
    pub fn op_dxyn(&mut self, opcode: u16)
        requires
            old(self).wf(),
        ensures
            final(self).wf(),
            draw_rel(*old(self), *final(self), opcode),
    {
        proof {
            lemma_field_bounds(opcode);
        }
        let x = ((opcode >> 8) & 0xF) as usize;
        let y = ((opcode >> 4) & 0xF) as usize;
        let n = (opcode & 0xF) as usize;

        let x_pos: u8 = self.registers[x] % 64;
        let y_pos: u8 = self.registers[y] % 32;

        self.registers.set(15, 0);
        proof {
            assert(self.registers@ =~= old(self).registers@.update(
                0xF,
                (if collides_upto(*old(self), opcode, 0) {
                    1u8
                } else {
                    0u8
                }),
            ));
        }

        let mut row: usize = 0;
        while row < n
            invariant
                row <= n,
                n == op_n(opcode),
                x_pos == draw_x(*old(self), opcode),
                y_pos == draw_y(*old(self), opcode),
                self.video@.len() == SCREEN_PIXELS,
                forall|i: int|
                    0 <= i < SCREEN_PIXELS ==> self.video@[i] == (old(self).video@[i]
                        != toggles_upto(*old(self), opcode, 8 * row, i)),
                self.registers@ == old(self).registers@.update(
                    0xF,
                    (if collides_upto(*old(self), opcode, 8 * row) {
                        1u8
                    } else {
                        0u8
                    }),
                ),
                self.memory@ == old(self).memory@,
                self.ir == old(self).ir,
                self.pc == old(self).pc,
                self.stack@ == old(self).stack@,
                self.st_pointer == old(self).st_pointer,
                same_timers_and_keys(*old(self), *self),
                old(self).wf(),
            decreases n - row,
        {
            let sprite_byte: u8 = self.memory[(self.ir as usize + row) % 4096];
            proof {
                assert(sprite_byte == old(self).memory@[(old(self).ir + row) % (
                MEMORY_SIZE as int)]);
            }
            let mut col: u8 = 0;
            while col < 8
                invariant
                    col <= 8,
                    row < n,
                    n == op_n(opcode),
                    x_pos == draw_x(*old(self), opcode),
                    y_pos == draw_y(*old(self), opcode),
                    sprite_byte == old(self).memory@[(old(self).ir + row) % (MEMORY_SIZE as int)],
                    self.video@.len() == SCREEN_PIXELS,
                    forall|i: int|
                        0 <= i < SCREEN_PIXELS ==> self.video@[i] == (old(self).video@[i]
                            != toggles_upto(*old(self), opcode, 8 * row + col, i)),
                    self.registers@ == old(self).registers@.update(
                        0xF,
                        (if collides_upto(*old(self), opcode, 8 * row + col) {
                            1u8
                        } else {
                            0u8
                        }),
                    ),
                    self.memory@ == old(self).memory@,
                    self.ir == old(self).ir,
                    self.pc == old(self).pc,
                    self.stack@ == old(self).stack@,
                    self.st_pointer == old(self).st_pointer,
                    same_timers_and_keys(*old(self), *self),
                    old(self).wf(),
                decreases 8 - col,
            {
                proof {
                    lemma_field_bounds(opcode);
                    lemma_toggles_step(*old(self), opcode, row as int, col as int);
                }
                if sprite_byte & (0x80u8 >> col) != 0 {
                    let idx: usize = ((y_pos as usize + row) % 32) * 64 + ((x_pos as usize
                        + col as usize) % 64);
                    proof {
                        assert(lit(*old(self), opcode, row as int, col as int));
                        assert(idx == target(*old(self), opcode, row as int, col as int));
                        assert(idx < SCREEN_PIXELS);
                        assert(!toggles_upto(*old(self), opcode, 8 * row + col, idx as int));
                    }
                    let was_on = self.video[idx];
                    proof {
                        assert(was_on == old(self).video@[idx as int]);
                    }
                    if was_on {
                        self.registers.set(15, 1);
                        proof {
                            assert(self.registers@ =~= old(self).registers@.update(
                                0xF,
                                (if collides_upto(*old(self), opcode, 8 * row + col + 1) {
                                    1u8
                                } else {
                                    0u8
                                }),
                            ));
                        }
                    }
                    self.video.set(idx, !was_on);
                } else {
                    proof {
                        assert(!lit(*old(self), opcode, row as int, col as int));
                    }
                }
                col = col + 1;
            }
            row = row + 1;
        }
    }
}

} // verus!
