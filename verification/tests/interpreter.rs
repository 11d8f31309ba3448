//! End-to-end tests of the interpreter core: the scenarios from the design
//! notes, one concrete case per general law, the edge cases, and one input
//! per error variant.

use chip8::decode::decode;
use chip8::decode::Instr;
use chip8::machine::Chip8Error;
use chip8::machine::CHIP8;

#[test]
fn new_machine_is_blank_with_font() {
    let c = CHIP8::new();
    assert_eq!(c.registers, vec![0u8; 16]);
    assert_eq!(c.pc, 0x200);
    assert_eq!(c.ir, 0);
    assert_eq!(c.st_pointer, 0);
    assert_eq!(c.stack, vec![0u16; 16]);
    assert_eq!(c.video, vec![false; 2048]);
    assert_eq!(c.delay_timer, 0);
    assert_eq!(c.sound_timer, 0);
    assert_eq!(c.keypad, vec![false; 16]);
    // The standard font: glyph 0 starts at 0x50, glyph F ends at 0x9F.
    assert_eq!(&c.memory[0x50..0x55], &[0xF0, 0x90, 0x90, 0x90, 0xF0]);
    assert_eq!(&c.memory[0x9B..0xA0], &[0xF0, 0x80, 0xF0, 0x80, 0x80]);
    assert!(c.memory[..0x50].iter().all(|&b| b == 0));
    assert!(c.memory[0xA0..].iter().all(|&b| b == 0));
}

#[test]
fn load_rom_copies_bytes_at_start_address() {
    let mut c = CHIP8::new();
    let rom = vec![0xDE, 0xAD, 0xBE, 0xEF];
    CHIP8::load_rom(&mut c, &rom);
    assert_eq!(&c.memory[0x200..0x204], &rom[..]);
    assert_eq!(c.memory[0x204], 0);
    assert_eq!(c.memory[0x1FF], 0);
}

#[test]
fn decoder_maps_words_to_operations() {
    assert_eq!(decode(0x00E0), Instr::ClearScreen);
    assert_eq!(decode(0x00EE), Instr::Return);
    assert_eq!(decode(0x1ABC), Instr::Jump { nnn: 0xABC });
    assert_eq!(decode(0x2300), Instr::Call { nnn: 0x300 });
    assert_eq!(decode(0x3A7F), Instr::SkipEqImm { x: 0xA, kk: 0x7F });
    assert_eq!(decode(0x4A7F), Instr::SkipNeImm { x: 0xA, kk: 0x7F });
    assert_eq!(decode(0x5120), Instr::SkipEqReg { x: 1, y: 2 });
    assert_eq!(decode(0x6A05), Instr::LoadImm { x: 0xA, kk: 5 });
    assert_eq!(decode(0x7A05), Instr::AddImm { x: 0xA, kk: 5 });
    assert_eq!(decode(0x8120), Instr::Move { x: 1, y: 2 });
    assert_eq!(decode(0x8121), Instr::Or { x: 1, y: 2 });
    assert_eq!(decode(0x8122), Instr::And { x: 1, y: 2 });
    assert_eq!(decode(0x8123), Instr::Xor { x: 1, y: 2 });
    assert_eq!(decode(0x8344), Instr::AddReg { x: 3, y: 4 });
    assert_eq!(decode(0x8345), Instr::Sub { x: 3, y: 4 });
    assert_eq!(decode(0x8347), Instr::SubRev { x: 3, y: 4 });
    assert_eq!(decode(0x9120), Instr::SkipNeReg { x: 1, y: 2 });
    assert_eq!(decode(0xA123), Instr::LoadIndex { nnn: 0x123 });
    assert_eq!(decode(0xB123), Instr::JumpOffset { nnn: 0x123 });
    assert_eq!(decode(0xC57F), Instr::RandAnd { x: 5, kk: 0x7F });
    assert_eq!(decode(0xD125), Instr::Draw { x: 1, y: 2, n: 5 });
    // Unimplemented families and sub-opcodes fall to the no-op.
    assert_eq!(decode(0x8126), Instr::Nop);
    assert_eq!(decode(0x812E), Instr::Nop);
    assert_eq!(decode(0xE09E), Instr::Nop);
    assert_eq!(decode(0xF01E), Instr::Nop);
}

#[test]
fn load_immediate_cycle_scenario() {
    // Word 0x6A05 at the start address: register 0xA takes 5 and the
    // program counter advances by 2.
    let mut c = CHIP8::new();
    CHIP8::load_rom(&mut c, &vec![0x6A, 0x05]);
    assert!(c.cycle().is_ok());
    assert_eq!(c.registers[0xA], 5);
    assert_eq!(c.pc, 0x202);
}

#[test]
fn clear_screen_scenario() {
    // 0x00E0 after setting some pixels on: framebuffer entirely off.
    let mut c = CHIP8::new();
    c.video[0] = true;
    c.video[77] = true;
    c.video[2047] = true;
    assert!(c.exec(0x00E0).is_ok());
    assert!(c.video.iter().all(|&p| !p));
}

#[test]
fn clear_screen_from_fully_lit() {
    let mut c = CHIP8::new();
    for p in c.video.iter_mut() {
        *p = true;
    }
    c.op_00e0();
    assert_eq!(c.video.len(), 2048);
    assert!(c.video.iter().all(|&p| !p));
}

#[test]
fn call_return_scenario() {
    // 0x2300 then 0x00EE from program counter 0x200: the counter ends at
    // 0x202 and the stack pointer returns to 0.
    let mut c = CHIP8::new();
    CHIP8::load_rom(&mut c, &vec![0x23, 0x00]);
    c.memory[0x300] = 0x00;
    c.memory[0x301] = 0xEE;
    assert!(c.cycle().is_ok());
    assert_eq!(c.pc, 0x300);
    assert_eq!(c.st_pointer, 1);
    assert!(c.cycle().is_ok());
    assert_eq!(c.pc, 0x202);
    assert_eq!(c.st_pointer, 0);
}

#[test]
fn call_then_return_restores_counter() {
    let mut c = CHIP8::new();
    assert!(c.exec(0x2ABC).is_ok());
    assert_eq!(c.pc, 0xABC);
    assert_eq!(c.stack[0], 0x200);
    assert!(c.exec(0x00EE).is_ok());
    assert_eq!(c.pc, 0x200);
    assert_eq!(c.st_pointer, 0);
}

#[test]
fn add_registers_scenario() {
    // Register 3 = 10, register 4 = 250; add-registers(3,4) leaves
    // register 3 = 4 and the flag register = 1.
    let mut c = CHIP8::new();
    c.exec(0x630A).unwrap();
    c.exec(0x64FA).unwrap();
    c.exec(0x8344).unwrap();
    assert_eq!(c.registers[0x3], 4);
    assert_eq!(c.registers[0xF], 1);
}

#[test]
fn add_immediate_wraps_and_keeps_flag() {
    let mut c = CHIP8::new();
    c.exec(0x6F01).unwrap(); // flag register := 1
    c.exec(0x60C8).unwrap(); // register 0 := 200
    c.exec(0x70C8).unwrap(); // register 0 += 200, wrapping
    assert_eq!(c.registers[0], 144); // (200 + 200) mod 256
    assert_eq!(c.registers[0xF], 1); // flag untouched
}

#[test]
fn add_registers_clears_flag_without_carry() {
    let mut c = CHIP8::new();
    c.exec(0x6F01).unwrap(); // flag register := 1
    c.exec(0x6305).unwrap();
    c.exec(0x6407).unwrap();
    c.exec(0x8344).unwrap();
    assert_eq!(c.registers[0x3], 12);
    assert_eq!(c.registers[0xF], 0); // no carry resets the flag
}

#[test]
fn subtract_sets_no_borrow_flag() {
    let mut c = CHIP8::new();
    c.exec(0x6314).unwrap(); // register 3 := 20
    c.exec(0x640A).unwrap(); // register 4 := 10
    c.exec(0x8345).unwrap();
    assert_eq!(c.registers[0x3], 10);
    assert_eq!(c.registers[0xF], 1); // 20 >= 10, no borrow
}

#[test]
fn subtract_wraps_on_borrow() {
    let mut c = CHIP8::new();
    c.exec(0x630A).unwrap(); // register 3 := 10
    c.exec(0x6414).unwrap(); // register 4 := 20
    c.exec(0x8345).unwrap();
    assert_eq!(c.registers[0x3], 246); // (10 - 20) mod 256
    assert_eq!(c.registers[0xF], 0);
}

#[test]
fn subtract_equal_values_means_no_borrow() {
    let mut c = CHIP8::new();
    c.exec(0x632A).unwrap();
    c.exec(0x642A).unwrap();
    c.exec(0x8345).unwrap();
    assert_eq!(c.registers[0x3], 0);
    assert_eq!(c.registers[0xF], 1); // x >= y holds at equality
}

#[test]
fn subtract_reverse_swaps_operands() {
    let mut c = CHIP8::new();
    c.exec(0x630A).unwrap(); // register 3 := 10
    c.exec(0x6414).unwrap(); // register 4 := 20
    c.exec(0x8347).unwrap();
    assert_eq!(c.registers[0x3], 10); // 20 - 10
    assert_eq!(c.registers[0xF], 1); // 20 >= 10
}

#[test]
fn move_copies_second_register_into_first() {
    let mut c = CHIP8::new();
    c.exec(0x6299).unwrap(); // register 2 := 0x99
    c.exec(0x8120).unwrap();
    assert_eq!(c.registers[1], 0x99);
    assert_eq!(c.registers[2], 0x99);
}

#[test]
fn bitwise_operations_combine_into_first_register() {
    let mut c = CHIP8::new();
    c.exec(0x61F0).unwrap();
    c.exec(0x620F).unwrap();
    c.exec(0x8121).unwrap(); // OR
    assert_eq!(c.registers[1], 0xFF);
    c.exec(0x61CC).unwrap();
    c.exec(0x62AA).unwrap();
    c.exec(0x8122).unwrap(); // AND
    assert_eq!(c.registers[1], 0x88);
    c.exec(0x61CC).unwrap();
    c.exec(0x62AA).unwrap();
    c.exec(0x8123).unwrap(); // XOR
    assert_eq!(c.registers[1], 0x66);
}

#[test]
fn skip_if_equal_immediate_takes_and_skips() {
    let mut c = CHIP8::new();
    c.exec(0x6142).unwrap();
    c.exec(0x3142).unwrap(); // equal: skip
    assert_eq!(c.pc, 0x202);
    c.exec(0x3141).unwrap(); // not equal: no skip
    assert_eq!(c.pc, 0x202);
    c.exec(0x4141).unwrap(); // not equal: skip
    assert_eq!(c.pc, 0x204);
    c.exec(0x4142).unwrap(); // equal: no skip
    assert_eq!(c.pc, 0x204);
}

#[test]
fn skip_if_registers_equal_and_not_equal() {
    let mut c = CHIP8::new();
    c.exec(0x6107).unwrap();
    c.exec(0x6207).unwrap();
    c.exec(0x5120).unwrap(); // equal: skip
    assert_eq!(c.pc, 0x202);
    c.exec(0x9120).unwrap(); // equal: no skip
    assert_eq!(c.pc, 0x202);
    c.exec(0x6208).unwrap();
    c.exec(0x5120).unwrap(); // differ: no skip
    assert_eq!(c.pc, 0x202);
    c.exec(0x9120).unwrap(); // differ: skip
    assert_eq!(c.pc, 0x204);
}

#[test]
fn jump_sets_program_counter() {
    let mut c = CHIP8::new();
    assert!(c.exec(0x1ABC).is_ok());
    assert_eq!(c.pc, 0xABC);
}

#[test]
fn jump_with_offset_adds_register_zero() {
    let mut c = CHIP8::new();
    c.exec(0x6005).unwrap();
    c.exec(0xB300).unwrap();
    assert_eq!(c.pc, 0x305);
}

#[test]
fn jump_with_offset_masks_to_twelve_bits() {
    let mut c = CHIP8::new();
    c.exec(0x60FF).unwrap();
    c.exec(0xBFFF).unwrap(); // 0xFFF + 0xFF wraps into the window
    assert_eq!(c.pc, (0xFFF + 0xFF) % 0x1000);
}

#[test]
fn load_index_sets_index_register() {
    let mut c = CHIP8::new();
    assert!(c.exec(0xA123).is_ok());
    assert_eq!(c.ir, 0x123);
}

#[test]
fn random_and_immediate_is_masked() {
    let mut c = CHIP8::new();
    c.exec(0x6577).unwrap();
    c.exec(0xC500).unwrap(); // any random byte AND 0 is 0
    assert_eq!(c.registers[5], 0);
    for _ in 0..32 {
        c.exec(0xC50F).unwrap();
        assert!(c.registers[5] <= 0x0F);
    }
}

#[test]
fn random_with_fixed_byte_is_deterministic() {
    let mut c = CHIP8::new();
    c.op_cxkk_with(0xC5F0, 0xAB);
    assert_eq!(c.registers[5], 0xA0);
}

#[test]
fn unknown_opcodes_are_skipped_cycles() {
    let mut c = CHIP8::new();
    c.exec(0x6142).unwrap();
    let regs = c.registers.clone();
    let video = c.video.clone();
    for op in [0x0123u16, 0x8126, 0x812E, 0xE19E, 0xF11E, 0xFFFF] {
        assert!(c.exec(op).is_ok());
        assert_eq!(c.registers, regs);
        assert_eq!(c.video, video);
        assert_eq!(c.pc, 0x200);
        assert_eq!(c.ir, 0);
        assert_eq!(c.st_pointer, 0);
    }
}

#[test]
fn instructions_never_touch_timers_or_keypad() {
    let mut c = CHIP8::new();
    c.delay_timer = 9;
    c.sound_timer = 4;
    c.keypad[7] = true;
    for op in [0x00E0u16, 0x6A05, 0x7A05, 0x8344, 0x1ABC, 0xA300, 0xD121] {
        assert!(c.exec(op).is_ok());
        assert_eq!(c.delay_timer, 9);
        assert_eq!(c.sound_timer, 4);
        assert!(c.keypad[7]);
    }
}

#[test]
fn return_on_empty_stack_underflows() {
    let mut c = CHIP8::new();
    assert_eq!(c.exec(0x00EE), Err(Chip8Error::StackUnderflow));
    assert_eq!(c.pc, 0x200);
    assert_eq!(c.st_pointer, 0);
}

#[test]
fn seventeenth_nested_call_overflows() {
    let mut c = CHIP8::new();
    for _ in 0..16 {
        assert!(c.exec(0x2300).is_ok());
    }
    assert_eq!(c.st_pointer, 16);
    assert_eq!(c.exec(0x2300), Err(Chip8Error::StackOverflow));
    assert_eq!(c.st_pointer, 16);
    assert_eq!(c.pc, 0x300);
}

#[test]
fn draw_reads_sprite_and_sets_pixels() {
    let mut c = CHIP8::new();
    c.memory[0x300] = 0b1010_0000;
    c.memory[0x301] = 0b0100_0000;
    c.exec(0xA300).unwrap(); // index register := 0x300
    c.exec(0x6105).unwrap(); // x position 5
    c.exec(0x6203).unwrap(); // y position 3
    c.exec(0xD122).unwrap(); // two rows at (5, 3)
    assert!(c.video[3 * 64 + 5]);
    assert!(!c.video[3 * 64 + 6]);
    assert!(c.video[3 * 64 + 7]);
    assert!(c.video[4 * 64 + 6]);
    assert_eq!(c.registers[0xF], 0); // nothing was on before
    assert_eq!(c.video.iter().filter(|&&p| p).count(), 3);
}

#[test]
fn draw_wraps_coordinates_per_pixel() {
    let mut c = CHIP8::new();
    c.memory[0x300] = 0xFF; // one full row of 8 pixels
    c.exec(0xA300).unwrap();
    c.exec(0x613E).unwrap(); // x = 62: columns wrap past the right edge
    c.exec(0x621F).unwrap(); // y = 31: the last row
    c.exec(0xD121).unwrap();
    assert!(c.video[31 * 64 + 62]);
    assert!(c.video[31 * 64 + 63]);
    for col in 0..6 {
        assert!(c.video[31 * 64 + col]); // wrapped to the left edge
    }
    assert_eq!(c.video.iter().filter(|&&p| p).count(), 8);
}

#[test]
fn draw_position_registers_wrap_before_drawing() {
    let mut c = CHIP8::new();
    c.memory[0x300] = 0x80;
    c.exec(0xA300).unwrap();
    c.exec(0x6141).unwrap(); // 65 wraps to x = 1
    c.exec(0x6222).unwrap(); // 34 wraps to y = 2
    c.exec(0xD121).unwrap();
    assert!(c.video[2 * 64 + 1]);
    assert_eq!(c.video.iter().filter(|&&p| p).count(), 1);
}

#[test]
fn draw_twice_restores_screen_and_reports_collision() {
    let mut c = CHIP8::new();
    c.memory[0x300] = 0x3C;
    c.memory[0x301] = 0x42;
    c.memory[0x302] = 0x81;
    c.exec(0xA300).unwrap();
    c.exec(0x610A).unwrap();
    c.exec(0x6207).unwrap();
    let before = c.video.clone();
    c.exec(0xD123).unwrap();
    assert_eq!(c.registers[0xF], 0); // first draw on a blank area
    assert!(c.video.iter().any(|&p| p));
    c.exec(0xD123).unwrap();
    assert_eq!(c.registers[0xF], 1); // every lit bit collides with itself
    assert_eq!(c.video, before); // double XOR restores the screen
}

#[test]
fn draw_collision_only_where_pixels_overlap() {
    let mut c = CHIP8::new();
    c.memory[0x300] = 0x80;
    c.exec(0xA300).unwrap();
    c.exec(0x6100).unwrap();
    c.exec(0x6200).unwrap();
    c.exec(0xD121).unwrap(); // lights (0, 0)
    assert_eq!(c.registers[0xF], 0);
    c.exec(0x6101).unwrap();
    c.exec(0xD121).unwrap(); // lights (1, 0), no overlap
    assert_eq!(c.registers[0xF], 0);
    c.exec(0x6100).unwrap();
    c.exec(0xD121).unwrap(); // overlaps (0, 0): collision, pixel goes off
    assert_eq!(c.registers[0xF], 1);
    assert!(!c.video[0]);
    assert!(c.video[1]);
}

#[test]
fn cycle_fetches_big_endian_and_advances_first() {
    let mut c = CHIP8::new();
    CHIP8::load_rom(&mut c, &vec![0x12, 0x34]);
    assert!(c.cycle().is_ok());
    // The word is 0x1234, a jump: the advanced counter is overwritten.
    assert_eq!(c.pc, 0x234);
}

#[test]
fn cycle_reports_fault_from_fetched_word() {
    let mut c = CHIP8::new();
    CHIP8::load_rom(&mut c, &vec![0x00, 0xEE]);
    assert_eq!(c.cycle(), Err(Chip8Error::StackUnderflow));
    assert_eq!(c.pc, 0x202); // the counter still advanced
}
