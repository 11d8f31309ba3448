//! The CHIP-8 machine state: register file, memory, call stack and
//! framebuffer, together with its constructor and the ROM copy step.

use vstd::prelude::*;

verus! {

/// Number of general-purpose registers.
pub const NUM_REGISTERS: usize = 16;
/// Bytes of addressable memory; every computed address is reduced modulo this.
pub const MEMORY_SIZE: usize = 4096;
/// Depth of the call stack.
pub const STACK_DEPTH: usize = 16;
/// Framebuffer width in pixels.
pub const SCREEN_WIDTH: usize = 64;
/// Framebuffer height in pixels.
pub const SCREEN_HEIGHT: usize = 32;
/// Total framebuffer cells.
pub const SCREEN_PIXELS: usize = 2048;
/// Address of the first program instruction.
pub const START_ADDRESS: u16 = 0x200;
/// Address where the font glyphs are placed.
pub const FONTSET_ADDRESS: usize = 0x50;
/// Total bytes of font data: 16 glyphs of 5 bytes each.
pub const FONTSET_SIZE: usize = 80;
/// Keys on the hexadecimal keypad.
pub const NUM_KEYS: usize = 16;

/// The fatal faults an executing ROM can run into: calling deeper than the
/// stack allows, or returning with nothing on the stack. The host is expected
/// to stop the machine when either comes back.
#[derive(Clone, Copy, Debug, PartialEq, Eq, Structural)]
pub enum Chip8Error {
    StackOverflow,
    StackUnderflow,
}

/// The whole machine: everything an instruction can read or write.
pub struct CHIP8 {
    /// 16 general-purpose 8-bit registers; register 0xF doubles as the
    /// carry/borrow/collision flag.
    pub registers: Vec<u8>,
    /// 4096 bytes of memory; [0x000, 0x200) is interpreter/font territory.
    pub memory: Vec<u8>,
    /// Index register, a memory address used as base pointer by draws.
    pub ir: u16,
    /// Program counter.
    pub pc: u16,
    /// Return-address stack, 16 levels.
    pub stack: Vec<u16>,
    /// Stack pointer: number of occupied stack levels, 0 to 16.
    pub st_pointer: u8,
    /// 64x32 monochrome framebuffer, row-major; true means the pixel is on.
    pub video: Vec<bool>,
    /// Delay timer, counted down by an external real-time driver; no
    /// instruction of this core touches it.
    pub delay_timer: u8,
    /// Sound timer, counted down by the same external driver.
    pub sound_timer: u8,
    /// The 16 keypad keys, populated by the host; no instruction of this
    /// core reads them yet.
    pub keypad: Vec<bool>,
}

impl CHIP8 {
    /// Well-formedness: the fixed sizes hold, and every address the machine
    /// can jump or return to lies inside the 4096-byte window.
    pub open spec fn wf(&self) -> bool {
        &&& self.registers@.len() == NUM_REGISTERS
        &&& self.memory@.len() == MEMORY_SIZE
        &&& self.stack@.len() == STACK_DEPTH
        &&& self.st_pointer <= STACK_DEPTH
        &&& self.video@.len() == SCREEN_PIXELS
        &&& self.pc < MEMORY_SIZE
        &&& self.ir < MEMORY_SIZE
        &&& forall|i: int| 0 <= i < STACK_DEPTH ==> self.stack@[i] < MEMORY_SIZE
        &&& self.keypad@.len() == NUM_KEYS
    }
}

/// The standard CHIP-8 font: 16 five-byte glyphs for the digits 0 to F.
pub open spec fn font_seq() -> Seq<u8> {
    seq![
        0xF0u8, 0x90, 0x90, 0x90, 0xF0, // 0
        0x20, 0x60, 0x20, 0x20, 0x70, // 1
        0xF0, 0x10, 0xF0, 0x80, 0xF0, // 2
        0xF0, 0x10, 0xF0, 0x10, 0xF0, // 3
        0x90, 0x90, 0xF0, 0x10, 0x10, // 4
        0xF0, 0x80, 0xF0, 0x10, 0xF0, // 5
        0xF0, 0x80, 0xF0, 0x90, 0xF0, // 6
        0xF0, 0x10, 0x20, 0x40, 0x40, // 7
        0xF0, 0x90, 0xF0, 0x90, 0xF0, // 8
        0xF0, 0x90, 0xF0, 0x10, 0xF0, // 9
        0xF0, 0x90, 0xF0, 0x90, 0x90, // A
        0xE0, 0x90, 0xE0, 0x90, 0xE0, // B
        0xF0, 0x80, 0x80, 0x80, 0xF0, // C
        0xE0, 0x90, 0x90, 0x90, 0xE0, // D
        0xF0, 0x80, 0xF0, 0x80, 0xF0, // E
        0xF0, 0x80, 0xF0, 0x80, 0x80, // F
    ]
}

/// What a memory byte holds right after construction: the font where the
/// font lives, zero everywhere else.
pub open spec fn boot_mem(i: int) -> u8 {
    if FONTSET_ADDRESS <= i < FONTSET_ADDRESS + FONTSET_SIZE {
        font_seq()[i - FONTSET_ADDRESS]
    } else {
        0u8
    }
}

/// The font table as an executable vector, byte for byte `font_seq`.
fn font_table() -> (v: Vec<u8>)
    ensures
        v@ == font_seq(),
{
    let v: Vec<u8> = vec![
        0xF0, 0x90, 0x90, 0x90, 0xF0, // 0
        0x20, 0x60, 0x20, 0x20, 0x70, // 1
        0xF0, 0x10, 0xF0, 0x80, 0xF0, // 2
        0xF0, 0x10, 0xF0, 0x10, 0xF0, // 3
        0x90, 0x90, 0xF0, 0x10, 0x10, // 4
        0xF0, 0x80, 0xF0, 0x10, 0xF0, // 5
        0xF0, 0x80, 0xF0, 0x90, 0xF0, // 6
        0xF0, 0x10, 0x20, 0x40, 0x40, // 7
        0xF0, 0x90, 0xF0, 0x90, 0xF0, // 8
        0xF0, 0x90, 0xF0, 0x10, 0xF0, // 9
        0xF0, 0x90, 0xF0, 0x90, 0x90, // A
        0xE0, 0x90, 0xE0, 0x90, 0xE0, // B
        0xF0, 0x80, 0x80, 0x80, 0xF0, // C
        0xE0, 0x90, 0x90, 0x90, 0xE0, // D
        0xF0, 0x80, 0xF0, 0x80, 0xF0, // E
        0xF0, 0x80, 0xF0, 0x80, 0x80, // F
    ];
    proof {
        assert(v@ =~= font_seq());
    }
    v
}

/// A vector of `n` copies of `value`.
fn filled<T: Copy>(n: usize, value: T) -> (v: Vec<T>)
    ensures
        v@.len() == n,
        forall|i: int| 0 <= i < n ==> v@[i] == value,
{
    let mut v: Vec<T> = Vec::new();
    while v.len() < n
        invariant
            v@.len() <= n,
            forall|i: int| 0 <= i < v@.len() ==> v@[i] == value,
        decreases n - v@.len(),
    {
        v.push(value);
    }
    v
}

impl CHIP8 {
    /// A freshly powered-on machine: all registers, the index register, the
    /// stack and the screen cleared, the program counter at `START_ADDRESS`,
    /// and the font copied into memory at `FONTSET_ADDRESS`.
    pub fn new() -> (c: CHIP8)
        ensures
            c.wf(),
            forall|i: int| 0 <= i < NUM_REGISTERS ==> c.registers@[i] == 0,
            forall|i: int| 0 <= i < MEMORY_SIZE ==> c.memory@[i] == boot_mem(i),
            c.ir == 0,
            c.pc == START_ADDRESS,
            forall|i: int| 0 <= i < STACK_DEPTH ==> c.stack@[i] == 0,
            c.st_pointer == 0,
            forall|i: int| 0 <= i < SCREEN_PIXELS ==> !c.video@[i],
            c.delay_timer == 0,
            c.sound_timer == 0,
            forall|i: int| 0 <= i < NUM_KEYS ==> !c.keypad@[i],
    {
        let mut c = CHIP8 {
            registers: filled(NUM_REGISTERS, 0u8),
            memory: filled(MEMORY_SIZE, 0u8),
            ir: 0,
            pc: START_ADDRESS,
            stack: filled(STACK_DEPTH, 0u16),
            st_pointer: 0,
            video: filled(SCREEN_PIXELS, false),
            delay_timer: 0,
            sound_timer: 0,
            keypad: filled(NUM_KEYS, false),
        };

        let font = font_table();
        let mut i: usize = 0;
        while i < FONTSET_SIZE
            invariant
                i <= FONTSET_SIZE,
                c.registers@.len() == NUM_REGISTERS,
                forall|j: int| 0 <= j < NUM_REGISTERS ==> c.registers@[j] == 0,
                c.memory@.len() == MEMORY_SIZE,
                forall|j: int|
                    0 <= j < MEMORY_SIZE ==> c.memory@[j] == (if FONTSET_ADDRESS <= j
                        < FONTSET_ADDRESS + i {
                        font_seq()[j - FONTSET_ADDRESS]
                    } else {
                        0u8
                    }),
                c.ir == 0,
                c.pc == START_ADDRESS,
                c.stack@.len() == STACK_DEPTH,
                forall|j: int| 0 <= j < STACK_DEPTH ==> c.stack@[j] == 0,
                c.st_pointer == 0,
                c.video@.len() == SCREEN_PIXELS,
                forall|j: int| 0 <= j < SCREEN_PIXELS ==> !c.video@[j],
                c.delay_timer == 0,
                c.sound_timer == 0,
                c.keypad@.len() == NUM_KEYS,
                forall|j: int| 0 <= j < NUM_KEYS ==> !c.keypad@[j],
                font@ == font_seq(),
            decreases FONTSET_SIZE - i,
        {
            c.memory.set(FONTSET_ADDRESS + i, font[i]);
            i += 1;
        }
        c
    }

    /// Copies the ROM bytes verbatim into memory starting at `START_ADDRESS`;
    /// nothing else moves. The host checks beforehand that the ROM fits in
    /// the [0x200, 0x1000) window.
    pub fn load_rom(chip8: &mut CHIP8, rom: &Vec<u8>)
        requires
            old(chip8).wf(),
            rom@.len() <= MEMORY_SIZE - START_ADDRESS,
        ensures
            final(chip8).wf(),
            forall|i: int|
                START_ADDRESS <= i < START_ADDRESS + rom@.len() ==> final(chip8).memory@[i]
                    == rom@[i - START_ADDRESS],
            forall|i: int|
                0 <= i < MEMORY_SIZE && !(START_ADDRESS <= i < START_ADDRESS + rom@.len())
                    ==> final(chip8).memory@[i] == old(chip8).memory@[i],
            final(chip8).registers@ == old(chip8).registers@,
            final(chip8).ir == old(chip8).ir,
            final(chip8).pc == old(chip8).pc,
            final(chip8).stack@ == old(chip8).stack@,
            final(chip8).st_pointer == old(chip8).st_pointer,
            final(chip8).video@ == old(chip8).video@,
            final(chip8).delay_timer == old(chip8).delay_timer,
            final(chip8).sound_timer == old(chip8).sound_timer,
            final(chip8).keypad@ == old(chip8).keypad@,
    {
        let start: usize = START_ADDRESS as usize;
        let mut i: usize = 0;
        while i < rom.len()
            invariant
                i <= rom@.len(),
                rom@.len() <= MEMORY_SIZE - START_ADDRESS,
                start == START_ADDRESS,
                chip8.memory@.len() == MEMORY_SIZE,
                forall|j: int|
                    START_ADDRESS <= j < START_ADDRESS + i ==> chip8.memory@[j] == rom@[j
                        - START_ADDRESS],
                forall|j: int|
                    0 <= j < MEMORY_SIZE && !(START_ADDRESS <= j < START_ADDRESS + i)
                        ==> chip8.memory@[j] == old(chip8).memory@[j],
                chip8.registers@ == old(chip8).registers@,
                chip8.ir == old(chip8).ir,
                chip8.pc == old(chip8).pc,
                chip8.stack@ == old(chip8).stack@,
                chip8.st_pointer == old(chip8).st_pointer,
                chip8.video@ == old(chip8).video@,
                chip8.delay_timer == old(chip8).delay_timer,
                chip8.sound_timer == old(chip8).sound_timer,
                chip8.keypad@ == old(chip8).keypad@,
                old(chip8).wf(),
            decreases rom@.len() - i,
        {
            chip8.memory.set(start + i, rom[i]);
            i += 1;
        }
    }
}

} // verus!
