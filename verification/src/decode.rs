//! The instruction decoder: a 16-bit instruction word is mapped, by nibble
//! patterns, to exactly one operation of a closed set, each carrying its
//! decoded operand fields.

use vstd::prelude::*;

verus! {

/// Primary operand register: bits 8 to 11 of the instruction word.
pub open spec fn op_x(op: u16) -> int {
    ((op >> 8) & 0xF) as int
}

/// Secondary operand register: bits 4 to 7 of the instruction word.
pub open spec fn op_y(op: u16) -> int {
    ((op >> 4) & 0xF) as int
}

/// 8-bit immediate: bits 0 to 7 of the instruction word.
pub open spec fn op_kk(op: u16) -> u8 {
    (op & 0xFF) as u8
}

/// 12-bit address immediate: bits 0 to 11 of the instruction word.
pub open spec fn op_nnn(op: u16) -> u16 {
    op & 0xFFF
}

/// 4-bit count (sprite height): bits 0 to 3 of the instruction word.
pub open spec fn op_n(op: u16) -> int {
    (op & 0xF) as int
}

/// The ranges of the extracted operand fields.
pub proof fn lemma_field_bounds(op: u16)
    by (bit_vector)
    ensures
        (op >> 12) < 16,
        ((op >> 8) & 0xF) < 16,
        ((op >> 4) & 0xF) < 16,
        (op & 0xFF) < 256,
        (op & 0xFFF) < 4096,
        (op & 0xF) < 16,
{
}

/// One operation of the instruction set, with its operand fields already
/// extracted. Words that match no implemented pattern decode to `Nop`:
/// the interpreter treats them as a skipped cycle rather than a fault.
#[derive(Clone, Copy, Debug, PartialEq, Eq, Structural)]
pub enum Instr {
    /// 00E0: set every framebuffer cell to off.
    ClearScreen,
    /// 00EE: pop the stack into the program counter.
    Return,
    /// 1nnn: set the program counter to `nnn`.
    Jump { nnn: u16 },
    /// 2nnn: push the program counter, then jump to `nnn`.
    Call { nnn: u16 },
    /// 3xkk: skip the next instruction if register `x` equals `kk`.
    SkipEqImm { x: u8, kk: u8 },
    /// 4xkk: skip the next instruction if register `x` differs from `kk`.
    SkipNeImm { x: u8, kk: u8 },
    /// 5xy0: skip the next instruction if registers `x` and `y` are equal.
    SkipEqReg { x: u8, y: u8 },
    /// 6xkk: load `kk` into register `x`.
    LoadImm { x: u8, kk: u8 },
    /// 7xkk: add `kk` to register `x` with 8-bit wraparound, no carry flag.
    AddImm { x: u8, kk: u8 },
    /// 8xy0: copy register `y` into register `x`.
    Move { x: u8, y: u8 },
    /// 8xy1: bitwise OR of the two registers into register `x`.
    Or { x: u8, y: u8 },
    /// 8xy2: bitwise AND of the two registers into register `x`.
    And { x: u8, y: u8 },
    /// 8xy3: bitwise XOR of the two registers into register `x`.
    Xor { x: u8, y: u8 },
    /// 8xy4: add the registers; flag register records the carry.
    AddReg { x: u8, y: u8 },
    /// 8xy5: subtract `y` from `x`; flag register records "no borrow".
    Sub { x: u8, y: u8 },
    /// 8xy7: subtract `x` from `y`; flag register records "no borrow".
    SubRev { x: u8, y: u8 },
    /// 9xy0: skip the next instruction if registers `x` and `y` differ.
    SkipNeReg { x: u8, y: u8 },
    /// Annn: set the index register to `nnn`.
    LoadIndex { nnn: u16 },
    /// Bnnn: jump to `nnn` plus register 0, reduced to 12 bits.
    JumpOffset { nnn: u16 },
    /// Cxkk: load a random byte ANDed with `kk` into register `x`.
    RandAnd { x: u8, kk: u8 },
    /// Dxyn: XOR an `n`-row sprite onto the screen at (register x, register y).
    Draw { x: u8, y: u8, n: u8 },
    /// Anything unrecognized: a skipped cycle.
    Nop,
}

/// Which operation a 16-bit instruction word denotes. Dispatch goes by the
/// top nibble; families 0x0 and 0x8 subdivide on the bottom nibble.
pub open spec fn spec_decode(op: u16) -> Instr {
    let family = op >> 12;
    let x = ((op >> 8) & 0xF) as u8;
    let y = ((op >> 4) & 0xF) as u8;
    let kk = (op & 0xFF) as u8;
    let nnn = op & 0xFFF;
    let n = (op & 0xF) as u8;
    if family == 0x0 {
        if op & 0xF == 0x0 {
            Instr::ClearScreen
        } else if op & 0xF == 0xE {
            Instr::Return
        } else {
            Instr::Nop
        }
    } else if family == 0x1 {
        Instr::Jump { nnn }
    } else if family == 0x2 {
        Instr::Call { nnn }
    } else if family == 0x3 {
        Instr::SkipEqImm { x, kk }
    } else if family == 0x4 {
        Instr::SkipNeImm { x, kk }
    } else if family == 0x5 {
        Instr::SkipEqReg { x, y }
    } else if family == 0x6 {
        Instr::LoadImm { x, kk }
    } else if family == 0x7 {
        Instr::AddImm { x, kk }
    } else if family == 0x8 {
        if op & 0xF == 0x0 {
            Instr::Move { x, y }
        } else if op & 0xF == 0x1 {
            Instr::Or { x, y }
        } else if op & 0xF == 0x2 {
            Instr::And { x, y }
        } else if op & 0xF == 0x3 {
            Instr::Xor { x, y }
        } else if op & 0xF == 0x4 {
            Instr::AddReg { x, y }
        } else if op & 0xF == 0x5 {
            Instr::Sub { x, y }
        } else if op & 0xF == 0x7 {
            Instr::SubRev { x, y }
        } else {
            Instr::Nop
        }
    } else if family == 0x9 {
        Instr::SkipNeReg { x, y }
    } else if family == 0xA {
        Instr::LoadIndex { nnn }
    } else if family == 0xB {
        Instr::JumpOffset { nnn }
    } else if family == 0xC {
        Instr::RandAnd { x, kk }
    } else if family == 0xD {
        Instr::Draw { x, y, n }
    } else {
        Instr::Nop
    }
}

/// Decodes one instruction word, exactly as `spec_decode` says.
pub fn decode(op: u16) -> (i: Instr)
    ensures
        i == spec_decode(op),
{
    let family = op >> 12;
    let x = ((op >> 8) & 0xF) as u8;
    let y = ((op >> 4) & 0xF) as u8;
    let kk = (op & 0xFF) as u8;
    let nnn = op & 0xFFF;
    let n = (op & 0xF) as u8;
    proof {
        lemma_field_bounds(op);
    }
    if family == 0x0 {
        let low = op & 0xF;
        if low == 0x0 {
            Instr::ClearScreen
        } else if low == 0xE {
            Instr::Return
        } else {
            Instr::Nop
        }
    } else if family == 0x1 {
        Instr::Jump { nnn }
    } else if family == 0x2 {
        Instr::Call { nnn }
    } else if family == 0x3 {
        Instr::SkipEqImm { x, kk }
    } else if family == 0x4 {
        Instr::SkipNeImm { x, kk }
    } else if family == 0x5 {
        Instr::SkipEqReg { x, y }
    } else if family == 0x6 {
        Instr::LoadImm { x, kk }
    } else if family == 0x7 {
        Instr::AddImm { x, kk }
    } else if family == 0x8 {
        let low = op & 0xF;
        if low == 0x0 {
            Instr::Move { x, y }
        } else if low == 0x1 {
            Instr::Or { x, y }
        } else if low == 0x2 {
            Instr::And { x, y }
        } else if low == 0x3 {
            Instr::Xor { x, y }
        } else if low == 0x4 {
            Instr::AddReg { x, y }
        } else if low == 0x5 {
            Instr::Sub { x, y }
        } else if low == 0x7 {
            Instr::SubRev { x, y }
        } else {
            Instr::Nop
        }
    } else if family == 0x9 {
        Instr::SkipNeReg { x, y }
    } else if family == 0xA {
        Instr::LoadIndex { nnn }
    } else if family == 0xB {
        Instr::JumpOffset { nnn }
    } else if family == 0xC {
        Instr::RandAnd { x, kk }
    } else if family == 0xD {
        Instr::Draw { x, y, n }
    } else {
        Instr::Nop
    }
}

} // verus!
