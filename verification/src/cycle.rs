//! The dispatcher and the cycle driver: one fetch-decode-execute step per
//! invocation.

use vstd::prelude::*;

use crate::decode::decode;
use crate::decode::op_kk;
use crate::decode::op_nnn;
use crate::decode::op_x;
use crate::decode::op_y;
use crate::decode::spec_decode;
use crate::decode::Instr;
use crate::draw::draw_rel;
use crate::machine::CHIP8;
use crate::machine::Chip8Error;
use crate::machine::MEMORY_SIZE;
use crate::machine::STACK_DEPTH;
use crate::ops::call_rel;
use crate::ops::clear_rel;
use crate::ops::mask12;
use crate::ops::ret_rel;
use crate::ops::sets_ir;
use crate::ops::sets_pc;
use crate::ops::sets_reg;
use crate::ops::sets_reg_and_flag;
use crate::ops::unchanged_state;
use crate::ops::wrap8;

verus! {

/// Whether the instruction word can be executed from state `s`: everything
/// can, except a return on an empty stack and a call on a full one.
pub open spec fn step_ok(s: CHIP8, op: u16) -> bool {
    match spec_decode(op) {
        Instr::Return => s.st_pointer > 0,
        Instr::Call { .. } => s.st_pointer < STACK_DEPTH,
        _ => true,
    }
}

/// The state transition of one executed instruction word: exactly the
/// handler relation that the word decodes to.
pub open spec fn step_rel(pre: CHIP8, post: CHIP8, op: u16) -> bool {
    match spec_decode(op) {
        Instr::ClearScreen => clear_rel(pre, post),
        Instr::Return => ret_rel(pre, post),
        Instr::Jump { .. } => sets_pc(pre, post, op_nnn(op)),
        Instr::Call { .. } => call_rel(pre, post, op_nnn(op)),
        Instr::SkipEqImm { .. } => sets_pc(
            pre,
            post,
            (if pre.registers@[op_x(op)] == op_kk(op) {
                mask12(pre.pc + 2)
            } else {
                pre.pc
            }),
        ),
        Instr::SkipNeImm { .. } => sets_pc(
            pre,
            post,
            (if pre.registers@[op_x(op)] != op_kk(op) {
                mask12(pre.pc + 2)
            } else {
                pre.pc
            }),
        ),
        Instr::SkipEqReg { .. } => sets_pc(
            pre,
            post,
            (if pre.registers@[op_x(op)] == pre.registers@[op_y(op)] {
                mask12(pre.pc + 2)
            } else {
                pre.pc
            }),
        ),
        Instr::LoadImm { .. } => sets_reg(pre, post, op_x(op), op_kk(op)),
        Instr::AddImm { .. } => sets_reg(
            pre,
            post,
            op_x(op),
            wrap8(pre.registers@[op_x(op)] + op_kk(op)),
        ),
        Instr::Move { .. } => sets_reg(pre, post, op_x(op), pre.registers@[op_y(op)]),
        Instr::Or { .. } => sets_reg(
            pre,
            post,
            op_x(op),
            pre.registers@[op_x(op)] | pre.registers@[op_y(op)],
        ),
        Instr::And { .. } => sets_reg(
            pre,
            post,
            op_x(op),
            pre.registers@[op_x(op)] & pre.registers@[op_y(op)],
        ),
        Instr::Xor { .. } => sets_reg(
            pre,
            post,
            op_x(op),
            pre.registers@[op_x(op)] ^ pre.registers@[op_y(op)],
        ),
        Instr::AddReg { .. } => sets_reg_and_flag(
            pre,
            post,
            op_x(op),
            wrap8(pre.registers@[op_x(op)] + pre.registers@[op_y(op)]),
            (if pre.registers@[op_x(op)] + pre.registers@[op_y(op)] > 255 {
                1u8
            } else {
                0u8
            }),
        ),
        Instr::Sub { .. } => sets_reg_and_flag(
            pre,
            post,
            op_x(op),
            wrap8(pre.registers@[op_x(op)] - pre.registers@[op_y(op)]),
            (if pre.registers@[op_x(op)] >= pre.registers@[op_y(op)] {
                1u8
            } else {
                0u8
            }),
        ),
        Instr::SubRev { .. } => sets_reg_and_flag(
            pre,
            post,
            op_x(op),
            wrap8(pre.registers@[op_y(op)] - pre.registers@[op_x(op)]),
            (if pre.registers@[op_y(op)] >= pre.registers@[op_x(op)] {
                1u8
            } else {
                0u8
            }),
        ),
        Instr::SkipNeReg { .. } => sets_pc(
            pre,
            post,
            (if pre.registers@[op_x(op)] != pre.registers@[op_y(op)] {
                mask12(pre.pc + 2)
            } else {
                pre.pc
            }),
        ),
        Instr::LoadIndex { .. } => sets_ir(pre, post, op_nnn(op)),
        Instr::JumpOffset { .. } => sets_pc(pre, post, mask12(op_nnn(op) + pre.registers@[0])),
        Instr::RandAnd { .. } => exists|b: u8|
            #[trigger] sets_reg(pre, post, op_x(op), b & op_kk(op)),
        Instr::Draw { .. } => draw_rel(pre, post, op),
        Instr::Nop => unchanged_state(pre, post),
    }
}

/// The big-endian instruction word under the program counter; the second
/// byte's address is masked into the 4096-byte window.
pub open spec fn fetched(s: CHIP8) -> u16 {
    (s.memory@[s.pc as int] * 256 + s.memory@[(s.pc + 1) % (MEMORY_SIZE as int)]) as u16
}

impl CHIP8 {
    /// Dispatches one instruction word to exactly one handler. An
    /// unrecognized word is a skipped cycle; a return on an empty stack or
    /// a call on a full one reports the fault and moves nothing.
    pub fn exec(&mut self, opcode: u16) -> (r: Result<(), Chip8Error>)
        requires
            old(self).wf(),
        ensures
            final(self).wf(),
            r.is_ok() == step_ok(*old(self), opcode),
            r.is_ok() ==> step_rel(*old(self), *final(self), opcode),
            r.is_err() ==> unchanged_state(*old(self), *final(self)),
            r.is_err() ==> ((r == Err::<(), Chip8Error>(Chip8Error::StackUnderflow))
                <==> spec_decode(opcode) is Return),
            r.is_err() ==> ((r == Err::<(), Chip8Error>(Chip8Error::StackOverflow))
                <==> spec_decode(opcode) is Call),
    {
        match decode(opcode) {
            Instr::ClearScreen => {
                self.op_00e0();
                Ok(())
            },
            Instr::Return => self.op_00ee(),
            Instr::Jump { .. } => {
                self.op_1nnn(opcode);
                Ok(())
            },
            Instr::Call { .. } => self.op_2nnn(opcode),
            Instr::SkipEqImm { .. } => {
                self.op_3xkk(opcode);
                Ok(())
            },
            Instr::SkipNeImm { .. } => {
                self.op_4xkk(opcode);
                Ok(())
            },
            Instr::SkipEqReg { .. } => {
                self.op_5xy0(opcode);
                Ok(())
            },
            Instr::LoadImm { .. } => {
                self.op_6xkk(opcode);
                Ok(())
            },
            Instr::AddImm { .. } => {
                self.op_7xkk(opcode);
                Ok(())
            },
            Instr::Move { .. } => {
                self.op_8xy0(opcode);
                Ok(())
            },
            Instr::Or { .. } => {
                self.op_8xy1(opcode);
                Ok(())
            },
            Instr::And { .. } => {
                self.op_8xy2(opcode);
                Ok(())
            },
            Instr::Xor { .. } => {
                self.op_8xy3(opcode);
                Ok(())
            },
            Instr::AddReg { .. } => {
                self.op_8xy4(opcode);
                Ok(())
            },
            Instr::Sub { .. } => {
                self.op_8xy5(opcode);
                Ok(())
            },
            Instr::SubRev { .. } => {
                self.op_8xy7(opcode);
                Ok(())
            },
            Instr::SkipNeReg { .. } => {
                self.op_9xy0(opcode);
                Ok(())
            },
            Instr::LoadIndex { .. } => {
                self.op_annn(opcode);
                Ok(())
            },
            Instr::JumpOffset { .. } => {
                self.op_bnnn(opcode);
                Ok(())
            },
            Instr::RandAnd { .. } => {
                self.op_cxkk(opcode);
                Ok(())
            },
            Instr::Draw { .. } => {
                self.op_dxyn(opcode);
                Ok(())
            },
            Instr::Nop => {
                self.op_null();
                Ok(())
            },
        }
    }

    /// One fetch-decode-execute step: reads the big-endian word under the
    /// program counter, advances the counter by 2 within the 12-bit window
    /// (always, before dispatch), then executes the word.
    pub fn cycle(&mut self) -> (r: Result<(), Chip8Error>)
        requires
            old(self).wf(),
        ensures
            final(self).wf(),
            r.is_ok() == step_ok(*old(self), fetched(*old(self))),
            r.is_ok() ==> (exists|mid: CHIP8|
                #[trigger] step_rel(mid, *final(self), fetched(*old(self))) && sets_pc(
                    *old(self),
                    mid,
                    mask12(old(self).pc + 2),
                )),
            r.is_err() ==> sets_pc(*old(self), *final(self), mask12(old(self).pc + 2)),
            r.is_err() ==> ((r == Err::<(), Chip8Error>(Chip8Error::StackUnderflow))
                <==> spec_decode(fetched(*old(self))) is Return),
            r.is_err() ==> ((r == Err::<(), Chip8Error>(Chip8Error::StackOverflow))
                <==> spec_decode(fetched(*old(self))) is Call),
    {
        let hi = self.memory[self.pc as usize];
        let lo = self.memory[(self.pc as usize + 1) % 4096];
        let opcode: u16 = (hi as u16) * 256 + (lo as u16);
        proof {
            assert(opcode == fetched(*old(self)));
        }

        self.pc = (self.pc + 2) % 0x1000;
        let ghost mid: CHIP8 = *self;
        proof {
            assert(sets_pc(*old(self), mid, mask12(old(self).pc + 2)));
        }

        let r = self.exec(opcode);
        proof {
            assert(step_ok(mid, opcode) == step_ok(*old(self), opcode));
        }
        r
    }
}

} // verus!
