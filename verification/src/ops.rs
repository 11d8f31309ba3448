//! The operation handlers: one pure state transition per opcode family.
//! Each handler's contract states the transition over the relation spec
//! functions below, which say which fields move and which stay put.

use vstd::prelude::*;

use crate::decode::lemma_field_bounds;
use crate::decode::op_kk;
use crate::decode::op_nnn;
use crate::decode::op_x;
use crate::decode::op_y;
use crate::machine::CHIP8;
use crate::machine::Chip8Error;
use crate::machine::SCREEN_PIXELS;
use crate::machine::STACK_DEPTH;

verus! {

/// 8-bit wraparound: a value reduced modulo 256.
pub open spec fn wrap8(n: int) -> u8 {
    (n % 256) as u8
}

/// 12-bit address mask: a computed address reduced into the 4096-byte window.
pub open spec fn mask12(n: int) -> u16 {
    (n % 4096) as u16
}

/// The timers and the keypad, which only the host moves, stayed put.
pub open spec fn same_timers_and_keys(pre: CHIP8, post: CHIP8) -> bool {
    &&& post.delay_timer == pre.delay_timer
    &&& post.sound_timer == pre.sound_timer
    &&& post.keypad@ == pre.keypad@
}

/// The machine did not move at all.
pub open spec fn unchanged_state(pre: CHIP8, post: CHIP8) -> bool {
    &&& post.registers@ == pre.registers@
    &&& post.memory@ == pre.memory@
    &&& post.ir == pre.ir
    &&& post.pc == pre.pc
    &&& post.stack@ == pre.stack@
    &&& post.st_pointer == pre.st_pointer
    &&& post.video@ == pre.video@
    &&& same_timers_and_keys(pre, post)
}

/// Register `x` was set to `v`; every other part of the machine stayed put.
pub open spec fn sets_reg(pre: CHIP8, post: CHIP8, x: int, v: u8) -> bool {
    &&& post.registers@ == pre.registers@.update(x, v)
    &&& post.memory@ == pre.memory@
    &&& post.ir == pre.ir
    &&& post.pc == pre.pc
    &&& post.stack@ == pre.stack@
    &&& post.st_pointer == pre.st_pointer
    &&& post.video@ == pre.video@
    &&& same_timers_and_keys(pre, post)
}

/// Register `x` was set to `v` and then the flag register to `flag`
/// (so `flag` wins when `x` is 0xF); the rest stayed put.
pub open spec fn sets_reg_and_flag(pre: CHIP8, post: CHIP8, x: int, v: u8, flag: u8) -> bool {
    &&& post.registers@ == pre.registers@.update(x, v).update(0xF, flag)
    &&& post.memory@ == pre.memory@
    &&& post.ir == pre.ir
    &&& post.pc == pre.pc
    &&& post.stack@ == pre.stack@
    &&& post.st_pointer == pre.st_pointer
    &&& post.video@ == pre.video@
    &&& same_timers_and_keys(pre, post)
}

/// The program counter was set to `pc`; the rest stayed put.
pub open spec fn sets_pc(pre: CHIP8, post: CHIP8, pc: u16) -> bool {
    &&& post.registers@ == pre.registers@
    &&& post.memory@ == pre.memory@
    &&& post.ir == pre.ir
    &&& post.pc == pc
    &&& post.stack@ == pre.stack@
    &&& post.st_pointer == pre.st_pointer
    &&& post.video@ == pre.video@
    &&& same_timers_and_keys(pre, post)
}

/// The index register was set to `ir`; the rest stayed put.
pub open spec fn sets_ir(pre: CHIP8, post: CHIP8, ir: u16) -> bool {
    &&& post.registers@ == pre.registers@
    &&& post.memory@ == pre.memory@
    &&& post.ir == ir
    &&& post.pc == pre.pc
    &&& post.stack@ == pre.stack@
    &&& post.st_pointer == pre.st_pointer
    &&& post.video@ == pre.video@
    &&& same_timers_and_keys(pre, post)
}

/// Every framebuffer cell went off; the rest stayed put.
pub open spec fn clear_rel(pre: CHIP8, post: CHIP8) -> bool {
    &&& post.video@.len() == pre.video@.len()
    &&& forall|i: int| 0 <= i < post.video@.len() ==> !post.video@[i]
    &&& post.registers@ == pre.registers@
    &&& post.memory@ == pre.memory@
    &&& post.ir == pre.ir
    &&& post.pc == pre.pc
    &&& post.stack@ == pre.stack@
    &&& post.st_pointer == pre.st_pointer
    &&& same_timers_and_keys(pre, post)
}

/// A call: the old program counter was pushed, the stack pointer grew by
/// one, and execution moved to `nnn`. Asks that the stack had room.
pub open spec fn call_rel(pre: CHIP8, post: CHIP8, nnn: u16) -> bool {
    &&& pre.st_pointer < STACK_DEPTH
    &&& post.stack@ == pre.stack@.update(pre.st_pointer as int, pre.pc)
    &&& post.st_pointer == pre.st_pointer + 1
    &&& post.pc == nnn
    &&& post.registers@ == pre.registers@
    &&& post.memory@ == pre.memory@
    &&& post.ir == pre.ir
    &&& post.video@ == pre.video@
    &&& same_timers_and_keys(pre, post)
}

/// A return: the stack pointer shrank by one and the program counter took
/// the popped address. Asks that the stack was not empty.
pub open spec fn ret_rel(pre: CHIP8, post: CHIP8) -> bool {
    &&& pre.st_pointer > 0
    &&& post.st_pointer == pre.st_pointer - 1
    &&& post.pc == pre.stack@[pre.st_pointer - 1]
    &&& post.registers@ == pre.registers@
    &&& post.memory@ == pre.memory@
    &&& post.ir == pre.ir
    &&& post.stack@ == pre.stack@
    &&& post.video@ == pre.video@
    &&& same_timers_and_keys(pre, post)
}

impl CHIP8 {
    /// 00E0, clear-screen: sets all framebuffer cells to off.
    pub fn op_00e0(&mut self)
        requires
            old(self).wf(),
        ensures
            final(self).wf(),
            clear_rel(*old(self), *final(self)),
    {
        let mut i: usize = 0;
        while i < SCREEN_PIXELS
            invariant
                i <= SCREEN_PIXELS,
                self.video@.len() == SCREEN_PIXELS,
                forall|j: int| 0 <= j < i ==> !self.video@[j],
                self.registers@ == old(self).registers@,
                self.memory@ == old(self).memory@,
                self.ir == old(self).ir,
                self.pc == old(self).pc,
                self.stack@ == old(self).stack@,
                self.st_pointer == old(self).st_pointer,
                same_timers_and_keys(*old(self), *self),
                old(self).wf(),
            decreases SCREEN_PIXELS - i,
        {
            self.video.set(i, false);
            i += 1;
        }
    }

    /// 00EE, return: pops the stack into the program counter. Reports
    /// `StackUnderflow`, moving nothing, when the stack is empty.
    pub fn op_00ee(&mut self) -> (r: Result<(), Chip8Error>)
        requires
            old(self).wf(),
        ensures
            final(self).wf(),
            r.is_ok() <==> old(self).st_pointer > 0,
            r.is_ok() ==> ret_rel(*old(self), *final(self)),
            r.is_err() ==> unchanged_state(*old(self), *final(self)) && r == Err::<(), Chip8Error>(
                Chip8Error::StackUnderflow,
            ),
    {
        if self.st_pointer == 0 {
            return Err(Chip8Error::StackUnderflow);
        }
        self.st_pointer = self.st_pointer - 1;
        self.pc = self.stack[self.st_pointer as usize];
        Ok(())
    }

    /// 1nnn, jump: sets the program counter to the 12-bit address.
    pub fn op_1nnn(&mut self, opcode: u16)
        requires
            old(self).wf(),
        ensures
            final(self).wf(),
            sets_pc(*old(self), *final(self), op_nnn(opcode)),
    {
        proof {
            lemma_field_bounds(opcode);
        }
        self.pc = opcode & 0xFFF;
    }

    /// 2nnn, call: pushes the current program counter, then jumps to the
    /// 12-bit address. Reports `StackOverflow`, moving nothing, when all 16
    /// stack levels are occupied.
    pub fn op_2nnn(&mut self, opcode: u16) -> (r: Result<(), Chip8Error>)
        requires
            old(self).wf(),
        ensures
            final(self).wf(),
            r.is_ok() <==> old(self).st_pointer < STACK_DEPTH,
            r.is_ok() ==> call_rel(*old(self), *final(self), op_nnn(opcode)),
            r.is_err() ==> unchanged_state(*old(self), *final(self)) && r == Err::<(), Chip8Error>(
                Chip8Error::StackOverflow,
            ),
    {
        proof {
            lemma_field_bounds(opcode);
        }
        if self.st_pointer as usize == STACK_DEPTH {
            return Err(Chip8Error::StackOverflow);
        }
        let pc = self.pc;
        self.stack.set(self.st_pointer as usize, pc);
        self.st_pointer = self.st_pointer + 1;
        self.pc = opcode & 0xFFF;
        Ok(())
    }

    /// 3xkk, skip-if-equal-immediate: advances the program counter by an
    /// extra 2 (within the 12-bit window) if register x equals kk.
    pub fn op_3xkk(&mut self, opcode: u16)
        requires
            old(self).wf(),
        ensures
            final(self).wf(),
            sets_pc(
                *old(self),
                *final(self),
                (if old(self).registers@[op_x(opcode)] == op_kk(opcode) {
                    mask12(old(self).pc + 2)
                } else {
                    old(self).pc
                }),
            ),
    {
        proof {
            lemma_field_bounds(opcode);
        }
        let value = (opcode & 0xFF) as u8;
        let r_address = ((opcode >> 8) & 0xF) as usize;
        if self.registers[r_address] == value {
            self.pc = (self.pc + 2) % 0x1000;
        }
    }

    /// 4xkk, skip-if-not-equal-immediate: advances the program counter by an
    /// extra 2 (within the 12-bit window) if register x differs from kk.
    pub fn op_4xkk(&mut self, opcode: u16)
        requires
            old(self).wf(),
        ensures
            final(self).wf(),
            sets_pc(
                *old(self),
                *final(self),
                (if old(self).registers@[op_x(opcode)] != op_kk(opcode) {
                    mask12(old(self).pc + 2)
                } else {
                    old(self).pc
                }),
            ),
    {
        proof {
            lemma_field_bounds(opcode);
        }
        let value = (opcode & 0xFF) as u8;
        let r_address = ((opcode >> 8) & 0xF) as usize;
        if self.registers[r_address] != value {
            self.pc = (self.pc + 2) % 0x1000;
        }
    }

    /// 5xy0, skip-if-registers-equal: advances the program counter by an
    /// extra 2 (within the 12-bit window) if the two registers are equal.
    pub fn op_5xy0(&mut self, opcode: u16)
        requires
            old(self).wf(),
        ensures
            final(self).wf(),
            sets_pc(
                *old(self),
                *final(self),
                (if old(self).registers@[op_x(opcode)] == old(self).registers@[op_y(opcode)] {
                    mask12(old(self).pc + 2)
                } else {
                    old(self).pc
                }),
            ),
    {
        proof {
            lemma_field_bounds(opcode);
        }
        let x = ((opcode >> 8) & 0xF) as usize;
        let y = ((opcode >> 4) & 0xF) as usize;
        if self.registers[x] == self.registers[y] {
            self.pc = (self.pc + 2) % 0x1000;
        }
    }

    /// 9xy0, skip-if-registers-not-equal: advances the program counter by an
    /// extra 2 (within the 12-bit window) if the two registers differ.
    pub fn op_9xy0(&mut self, opcode: u16)
        requires
            old(self).wf(),
        ensures
            final(self).wf(),
            sets_pc(
                *old(self),
                *final(self),
                (if old(self).registers@[op_x(opcode)] != old(self).registers@[op_y(opcode)] {
                    mask12(old(self).pc + 2)
                } else {
                    old(self).pc
                }),
            ),
    {
        proof {
            lemma_field_bounds(opcode);
        }
        let x = ((opcode >> 8) & 0xF) as usize;
        let y = ((opcode >> 4) & 0xF) as usize;
        if self.registers[x] != self.registers[y] {
            self.pc = (self.pc + 2) % 0x1000;
        }
    }

    /// 6xkk, load-immediate: sets register x to kk.
    pub fn op_6xkk(&mut self, opcode: u16)
        requires
            old(self).wf(),
        ensures
            final(self).wf(),
            sets_reg(*old(self), *final(self), op_x(opcode), op_kk(opcode)),
    {
        proof {
            lemma_field_bounds(opcode);
        }
        let value = (opcode & 0xFF) as u8;
        let r_address = ((opcode >> 8) & 0xF) as usize;
        self.registers.set(r_address, value);
    }

    /// 7xkk, add-immediate: adds kk to register x with 8-bit wraparound;
    /// the carry flag is not touched.
    pub fn op_7xkk(&mut self, opcode: u16)
        requires
            old(self).wf(),
        ensures
            final(self).wf(),
            sets_reg(
                *old(self),
                *final(self),
                op_x(opcode),
                wrap8(old(self).registers@[op_x(opcode)] + op_kk(opcode)),
            ),
    {
        proof {
            lemma_field_bounds(opcode);
        }
        let value = (opcode & 0xFF) as u8;
        let r_address = ((opcode >> 8) & 0xF) as usize;
        let sum = self.registers[r_address].wrapping_add(value);
        self.registers.set(r_address, sum);
    }

    /// 8xy0, move: copies register y into register x.
    pub fn op_8xy0(&mut self, opcode: u16)
        requires
            old(self).wf(),
        ensures
            final(self).wf(),
            sets_reg(
                *old(self),
                *final(self),
                op_x(opcode),
                old(self).registers@[op_y(opcode)],
            ),
    {
        proof {
            lemma_field_bounds(opcode);
        }
        let x = ((opcode >> 8) & 0xF) as usize;
        let y = ((opcode >> 4) & 0xF) as usize;
        let vy = self.registers[y];
        self.registers.set(x, vy);
    }

    /// 8xy1, bitwise OR: register x becomes x OR y.
    pub fn op_8xy1(&mut self, opcode: u16)
        requires
            old(self).wf(),
        ensures
            final(self).wf(),
            sets_reg(
                *old(self),
                *final(self),
                op_x(opcode),
                old(self).registers@[op_x(opcode)] | old(self).registers@[op_y(opcode)],
            ),
    {
        proof {
            lemma_field_bounds(opcode);
        }
        let x = ((opcode >> 8) & 0xF) as usize;
        let y = ((opcode >> 4) & 0xF) as usize;
        let v = self.registers[x] | self.registers[y];
        self.registers.set(x, v);
    }

    /// 8xy2, bitwise AND: register x becomes x AND y.
    pub fn op_8xy2(&mut self, opcode: u16)
        requires
            old(self).wf(),
        ensures
            final(self).wf(),
            sets_reg(
                *old(self),
                *final(self),
                op_x(opcode),
                old(self).registers@[op_x(opcode)] & old(self).registers@[op_y(opcode)],
            ),
    {
        proof {
            lemma_field_bounds(opcode);
        }
        let x = ((opcode >> 8) & 0xF) as usize;
        let y = ((opcode >> 4) & 0xF) as usize;
        let v = self.registers[x] & self.registers[y];
        self.registers.set(x, v);
    }

    /// 8xy3, bitwise XOR: register x becomes x XOR y.
    pub fn op_8xy3(&mut self, opcode: u16)
        requires
            old(self).wf(),
        ensures
            final(self).wf(),
            sets_reg(
                *old(self),
                *final(self),
                op_x(opcode),
                old(self).registers@[op_x(opcode)] ^ old(self).registers@[op_y(opcode)],
            ),
    {
        proof {
            lemma_field_bounds(opcode);
        }
        let x = ((opcode >> 8) & 0xF) as usize;
        let y = ((opcode >> 4) & 0xF) as usize;
        let v = self.registers[x] ^ self.registers[y];
        self.registers.set(x, v);
    }

    /// 8xy4, add-registers: register x takes the truncated 8-bit sum of x
    /// and y, and the flag register records whether the sum overflowed.
    pub fn op_8xy4(&mut self, opcode: u16)
        requires
            old(self).wf(),
        ensures
            final(self).wf(),
            sets_reg_and_flag(
                *old(self),
                *final(self),
                op_x(opcode),
                wrap8(old(self).registers@[op_x(opcode)] + old(self).registers@[op_y(opcode)]),
                (if old(self).registers@[op_x(opcode)] + old(self).registers@[op_y(opcode)]
                    > 255 {
                    1u8
                } else {
                    0u8
                }),
            ),
    {
        proof {
            lemma_field_bounds(opcode);
        }
        let x = ((opcode >> 8) & 0xF) as usize;
        let y = ((opcode >> 4) & 0xF) as usize;
        let vx = self.registers[x];
        let vy = self.registers[y];
        match vx.checked_add(vy) {
            Some(value) => {
                self.registers.set(x, value);
                self.registers.set(15, 0);
            },
            None => {
                self.registers.set(x, vx.wrapping_add(vy));
                self.registers.set(15, 1);
            },
        }
    }

    /// 8xy5, subtract: register x takes the wrapped difference x minus y,
    /// and the flag register records "no borrow", that is x >= y.
    pub fn op_8xy5(&mut self, opcode: u16)
        requires
            old(self).wf(),
        ensures
            final(self).wf(),
            sets_reg_and_flag(
                *old(self),
                *final(self),
                op_x(opcode),
                wrap8(old(self).registers@[op_x(opcode)] - old(self).registers@[op_y(opcode)]),
                (if old(self).registers@[op_x(opcode)] >= old(self).registers@[op_y(opcode)] {
                    1u8
                } else {
                    0u8
                }),
            ),
    {
        proof {
            lemma_field_bounds(opcode);
        }
        let x = ((opcode >> 8) & 0xF) as usize;
        let y = ((opcode >> 4) & 0xF) as usize;
        let vx = self.registers[x];
        let vy = self.registers[y];
        self.registers.set(x, vx.wrapping_sub(vy));
        if vx >= vy {
            self.registers.set(15, 1);
        } else {
            self.registers.set(15, 0);
        }
    }

    /// 8xy7, subtract-reverse: register x takes the wrapped difference y
    /// minus x, and the flag register records "no borrow", that is y >= x.
    pub fn op_8xy7(&mut self, opcode: u16)
        requires
            old(self).wf(),
        ensures
            final(self).wf(),
            sets_reg_and_flag(
                *old(self),
                *final(self),
                op_x(opcode),
                wrap8(old(self).registers@[op_y(opcode)] - old(self).registers@[op_x(opcode)]),
                (if old(self).registers@[op_y(opcode)] >= old(self).registers@[op_x(opcode)] {
                    1u8
                } else {
                    0u8
                }),
            ),
    {
        proof {
            lemma_field_bounds(opcode);
        }
        let x = ((opcode >> 8) & 0xF) as usize;
        let y = ((opcode >> 4) & 0xF) as usize;
        let vx = self.registers[x];
        let vy = self.registers[y];
        self.registers.set(x, vy.wrapping_sub(vx));
        if vy >= vx {
            self.registers.set(15, 1);
        } else {
            self.registers.set(15, 0);
        }
    }

    /// Annn, load-index: sets the index register to the 12-bit address.
    pub fn op_annn(&mut self, opcode: u16)
        requires
            old(self).wf(),
        ensures
            final(self).wf(),
            sets_ir(*old(self), *final(self), op_nnn(opcode)),
    {
        proof {
            lemma_field_bounds(opcode);
        }
        self.ir = opcode & 0xFFF;
    }

    /// Bnnn, jump-with-offset: sets the program counter to the 12-bit
    /// address plus register 0, reduced into the 12-bit window.
    pub fn op_bnnn(&mut self, opcode: u16)
        requires
            old(self).wf(),
        ensures
            final(self).wf(),
            sets_pc(
                *old(self),
                *final(self),
                mask12(op_nnn(opcode) + old(self).registers@[0]),
            ),
    {
        proof {
            lemma_field_bounds(opcode);
        }
        let target = self.registers[0] as u16 + (opcode & 0xFFF);
        self.pc = target % 0x1000;
    }

    /// Cxkk with the random byte already drawn: sets register x to
    /// `byte AND kk`. This is the whole deterministic part of the
    /// random-and-immediate instruction.
    pub fn op_cxkk_with(&mut self, opcode: u16, byte: u8)
        requires
            old(self).wf(),
        ensures
            final(self).wf(),
            sets_reg(*old(self), *final(self), op_x(opcode), byte & op_kk(opcode)),
    {
        proof {
            lemma_field_bounds(opcode);
        }
        let value = (opcode & 0xFF) as u8;
        let r_address = ((opcode >> 8) & 0xF) as usize;
        self.registers.set(r_address, byte & value);
    }

    /// Cxkk, random-and-immediate: sets register x to a random byte ANDed
    /// with kk. Which byte came up is chance; the contract holds for every
    /// outcome.
    pub fn op_cxkk(&mut self, opcode: u16)
        requires
            old(self).wf(),
        ensures
            final(self).wf(),
            exists|b: u8| sets_reg(*old(self), *final(self), op_x(opcode), b & op_kk(opcode)),
    {
        let byte: u8 = rand::random();
        self.op_cxkk_with(opcode, byte);
        proof {
            assert(sets_reg(*old(self), *self, op_x(opcode), byte & op_kk(opcode)));
        }
    }

    /// A no-op: the handler every unrecognized instruction word routes to.
    pub fn op_null(&self) {
    }
}

} // verus!
