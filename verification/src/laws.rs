//! General properties of the instruction set, each proved from the handler
//! relations alone.

use vstd::prelude::*;

use crate::decode::lemma_field_bounds;
use crate::decode::op_kk;
use crate::decode::op_n;
use crate::decode::op_x;
use crate::decode::op_y;
use crate::draw::collides;
use crate::draw::draw_rel;
use crate::draw::draw_x;
use crate::draw::draw_y;
use crate::draw::lit;
use crate::draw::target;
use crate::draw::toggles;
use crate::machine::CHIP8;
use crate::ops::call_rel;
use crate::ops::ret_rel;
use crate::ops::sets_reg;
use crate::ops::sets_reg_and_flag;
use crate::ops::wrap8;

verus! {

/// After add-immediate into a register other than the flag register, the
/// target holds the 8-bit wrapped sum of its old value and the immediate,
/// and the flag register is untouched.
pub proof fn lemma_add_immediate(pre: CHIP8, post: CHIP8, op: u16)
    requires
        pre.wf(),
        op_x(op) != 0xF,
        sets_reg(pre, post, op_x(op), wrap8(pre.registers@[op_x(op)] + op_kk(op))),
    ensures
        post.registers@[op_x(op)] == (pre.registers@[op_x(op)] + op_kk(op)) % 256,
        post.registers@[0xF] == pre.registers@[0xF],
{
    lemma_field_bounds(op);
}

/// After add-registers into a register other than the flag register, the
/// flag register is 1 exactly when the unsigned sum overflows 8 bits, and
/// the target holds the sum modulo 256.
pub proof fn lemma_add_registers(pre: CHIP8, post: CHIP8, op: u16)
    requires
        pre.wf(),
        op_x(op) != 0xF,
        sets_reg_and_flag(
            pre,
            post,
            op_x(op),
            wrap8(pre.registers@[op_x(op)] + pre.registers@[op_y(op)]),
            (if pre.registers@[op_x(op)] + pre.registers@[op_y(op)] > 255 {
                1u8
            } else {
                0u8
            }),
        ),
    ensures
        (post.registers@[0xF] == 1) <==> (pre.registers@[op_x(op)] + pre.registers@[op_y(op)]
            > 255),
        post.registers@[op_x(op)] == (pre.registers@[op_x(op)] + pre.registers@[op_y(op)]) % 256,
{
    lemma_field_bounds(op);
}

/// After subtract into a register other than the flag register, the flag
/// register is 1 exactly when no borrow was needed (x at least y), and the
/// target holds the difference modulo 256.
pub proof fn lemma_subtract(pre: CHIP8, post: CHIP8, op: u16)
    requires
        pre.wf(),
        op_x(op) != 0xF,
        sets_reg_and_flag(
            pre,
            post,
            op_x(op),
            wrap8(pre.registers@[op_x(op)] - pre.registers@[op_y(op)]),
            (if pre.registers@[op_x(op)] >= pre.registers@[op_y(op)] {
                1u8
            } else {
                0u8
            }),
        ),
    ensures
        (post.registers@[0xF] == 1) <==> (pre.registers@[op_x(op)] >= pre.registers@[op_y(op)]),
        post.registers@[op_x(op)] == (pre.registers@[op_x(op)] - pre.registers@[op_y(op)]) % 256,
{
    lemma_field_bounds(op);
}

/// A call followed immediately by a return restores the exact program
/// counter that preceded the call, and the stack pointer returns to its
/// pre-call value.
pub proof fn lemma_call_then_return(s0: CHIP8, s1: CHIP8, s2: CHIP8, nnn: u16)
    requires
        s0.wf(),
        call_rel(s0, s1, nnn),
        ret_rel(s1, s2),
    ensures
        s2.pc == s0.pc,
        s2.st_pointer == s0.st_pointer,
{
}

/// Drawing the same sprite at the same position twice in succession
/// restores the framebuffer to its pre-draw state, and the flag register
/// after the second draw reflects collisions with the after-first-draw
/// state. The two position registers must not be the flag register itself,
/// which the first draw overwrites.
pub proof fn lemma_draw_twice(s0: CHIP8, s1: CHIP8, s2: CHIP8, op: u16)
    requires
        s0.wf(),
        op_x(op) != 0xF,
        op_y(op) != 0xF,
        draw_rel(s0, s1, op),
        draw_rel(s1, s2, op),
    ensures
        forall|i: int| 0 <= i < s0.video@.len() ==> s2.video@[i] == s0.video@[i],
        s2.registers@[0xF] == (if collides(s1, op) {
            1u8
        } else {
            0u8
        }),
{
    lemma_field_bounds(op);
    assert(s1.registers@[op_x(op)] == s0.registers@[op_x(op)]);
    assert(s1.registers@[op_y(op)] == s0.registers@[op_y(op)]);
    assert(draw_x(s1, op) == draw_x(s0, op));
    assert(draw_y(s1, op) == draw_y(s0, op));
    assert forall|i: int| #[trigger] toggles(s1, op, i) == toggles(s0, op, i) by {
        if toggles(s1, op, i) {
            let (r, c) = choose|r: int, c: int|
                0 <= r < op_n(op) && 0 <= c < 8 && 8 * r + c < 8
                    * op_n(op) && #[trigger] lit(s1, op, r, c) && target(
                    s1,
                    op,
                    r,
                    c,
                ) == i;
            assert(lit(s0, op, r, c));
            assert(target(s0, op, r, c) == i);
            assert(toggles(s0, op, i));
        }
        if toggles(s0, op, i) {
            let (r, c) = choose|r: int, c: int|
                0 <= r < op_n(op) && 0 <= c < 8 && 8 * r + c < 8
                    * op_n(op) && #[trigger] lit(s0, op, r, c) && target(
                    s0,
                    op,
                    r,
                    c,
                ) == i;
            assert(lit(s1, op, r, c));
            assert(target(s1, op, r, c) == i);
            assert(toggles(s1, op, i));
        }
    }
    assert forall|i: int| 0 <= i < s0.video@.len() implies s2.video@[i] == s0.video@[i] by {
        assert(s1.video@[i] == (s0.video@[i] != toggles(s0, op, i)));
        assert(s2.video@[i] == (s1.video@[i] != toggles(s1, op, i)));
    }
}

} // verus!
