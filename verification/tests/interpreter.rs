use chip8::Chip8;

const FONT: [u8; 80] = [
    0xF0, 0x90, 0x90, 0x90, 0xF0, 0x20, 0x60, 0x20, 0x20, 0x70, 0xF0, 0x10, 0xF0, 0x80, 0xF0,
    0xF0, 0x10, 0xF0, 0x10, 0xF0, 0x90, 0x90, 0xF0, 0x10, 0x10, 0xF0, 0x80, 0xF0, 0x10, 0xF0,
    0xF0, 0x80, 0xF0, 0x90, 0xF0, 0xF0, 0x10, 0x20, 0x40, 0x40, 0xF0, 0x90, 0xF0, 0x90, 0xF0,
    0xF0, 0x90, 0xF0, 0x10, 0xF0, 0xF0, 0x90, 0xF0, 0x90, 0x90, 0xE0, 0x90, 0xE0, 0x90, 0xE0,
    0xF0, 0x80, 0x80, 0x80, 0xF0, 0xE0, 0x90, 0x90, 0x90, 0xE0, 0xF0, 0x80, 0xF0, 0x80, 0xF0,
    0xF0, 0x80, 0xF0, 0x80, 0x80,
];

const ON: u32 = 0xFFFF_FFFF;

#[test]
fn init_burns_font_and_zeroes_everything() {
    let c = Chip8::new();
    for i in 0..80 {
        assert_eq!(c.memory[0x50 + i], FONT[i]);
    }
    for a in 0..0x50 {
        assert_eq!(c.memory[a], 0);
    }
    for a in 0xA0..4096 {
        assert_eq!(c.memory[a], 0);
    }
    assert_eq!(c.registers, [0u8; 16]);
    assert_eq!(c.stack, [0u16; 16]);
    assert_eq!(c.keypad, [0u16; 16]);
    assert!(c.video.iter().all(|&p| p == 0));
    assert_eq!(c.pc, 0x200);
    assert_eq!(c.sp, 0);
    assert_eq!(c.index, 0);
    assert_eq!(c.delay_timer, 0);
    assert_eq!(c.sound_timer, 0);
}

#[test]
fn rom_load_copies_verbatim_and_returns_input() {
    let mut c = Chip8::new();
    let rom = vec![0xA2u8, 0x2A, 0x60, 0x0C, 0x61, 0x08];
    let loaded = c.load_rom(&rom);
    assert_eq!(loaded, rom);
    for (i, b) in rom.iter().enumerate() {
        assert_eq!(c.memory[0x200 + i], *b);
    }
    assert_eq!(c.memory[0x200 + rom.len()], 0);
    assert_eq!(c.pc, 0x200);
}

#[test]
fn rom_load_empty_changes_nothing() {
    let mut c = Chip8::new();
    let before = c.memory;
    let loaded = c.load_rom(&Vec::new());
    assert!(loaded.is_empty());
    assert_eq!(c.memory, before);
}

#[test]
fn fetch_composes_big_endian_and_jump_overrides_advance() {
    let mut c = Chip8::new();
    c.memory[0x200] = 0x12;
    c.memory[0x201] = 0x34;
    c.Cycle();
    assert_eq!(c.opcode, 0x1234);
    assert_eq!(c.pc, 0x234);
}

#[test]
fn skip_if_equal_taken_advances_four() {
    let mut c = Chip8::new();
    c.registers[1] = 0x10;
    c.memory[0x200] = 0x31;
    c.memory[0x201] = 0x10;
    c.Cycle();
    assert_eq!(c.pc, 0x204);
}

#[test]
fn skip_if_equal_not_taken_advances_two() {
    let mut c = Chip8::new();
    c.registers[1] = 0x11;
    c.memory[0x200] = 0x31;
    c.memory[0x201] = 0x10;
    c.Cycle();
    assert_eq!(c.pc, 0x202);
}

#[test]
fn skip_if_not_equal_byte() {
    let mut c = Chip8::new();
    c.registers[2] = 0x55;
    c.memory[0x200] = 0x42;
    c.memory[0x201] = 0x54;
    c.Cycle();
    assert_eq!(c.pc, 0x204);
    c.memory[0x202] = 0x42;
    c.memory[0x203] = 0x55;
    c.Cycle();
    assert_eq!(c.pc, 0x206);
}

#[test]
fn skip_if_registers_equal() {
    let mut c = Chip8::new();
    c.registers[1] = 7;
    c.registers[2] = 7;
    c.memory[0x200] = 0x51;
    c.memory[0x201] = 0x20;
    c.Cycle();
    assert_eq!(c.pc, 0x204);
}

#[test]
fn register_add_wraps_and_sets_carry() {
    let mut c = Chip8::new();
    c.registers[1] = 200;
    c.registers[2] = 100;
    c.memory[0x200] = 0x81;
    c.memory[0x201] = 0x24;
    c.Cycle();
    assert_eq!(c.registers[1], 44);
    assert_eq!(c.registers[0xF], 1);
}

#[test]
fn register_add_without_overflow_clears_carry() {
    let mut c = Chip8::new();
    c.registers[1] = 20;
    c.registers[2] = 30;
    c.registers[0xF] = 1;
    c.memory[0x200] = 0x81;
    c.memory[0x201] = 0x24;
    c.Cycle();
    assert_eq!(c.registers[1], 50);
    assert_eq!(c.registers[0xF], 0);
}

#[test]
fn immediate_add_wraps_without_touching_flag() {
    let mut c = Chip8::new();
    c.registers[1] = 200;
    c.registers[0xF] = 7;
    c.memory[0x200] = 0x71;
    c.memory[0x201] = 100;
    c.Cycle();
    assert_eq!(c.registers[1], 44);
    assert_eq!(c.registers[0xF], 7);
}

#[test]
fn load_immediate_and_copy_register() {
    let mut c = Chip8::new();
    c.opcode = 0x630C;
    c.OP_6XKK();
    assert_eq!(c.registers[3], 0x0C);
    c.opcode = 0x8430;
    c.OP_8XY0();
    assert_eq!(c.registers[4], 0x0C);
}

#[test]
fn bitwise_or_and_xor() {
    let mut c = Chip8::new();
    c.registers[1] = 0b1100;
    c.registers[2] = 0b1010;
    c.opcode = 0x8121;
    c.OP_8XY1();
    assert_eq!(c.registers[1], 0b1110);
    c.registers[1] = 0b1100;
    c.opcode = 0x8122;
    c.OP_8XY2();
    assert_eq!(c.registers[1], 0b1000);
    c.registers[1] = 0b1100;
    c.opcode = 0x8123;
    c.OP_8XY3();
    assert_eq!(c.registers[1], 0b0110);
}

#[test]
fn subtract_sets_no_borrow_flag_on_equal_values() {
    let mut c = Chip8::new();
    c.registers[1] = 50;
    c.registers[2] = 50;
    c.opcode = 0x8125;
    c.OP_8XY5();
    assert_eq!(c.registers[1], 0);
    assert_eq!(c.registers[0xF], 1);
}

#[test]
fn subtract_wraps_on_borrow() {
    let mut c = Chip8::new();
    c.registers[1] = 10;
    c.registers[2] = 25;
    c.opcode = 0x8125;
    c.OP_8XY5();
    assert_eq!(c.registers[1], 241);
    assert_eq!(c.registers[0xF], 0);
}

#[test]
fn reverse_subtract() {
    let mut c = Chip8::new();
    c.registers[1] = 10;
    c.registers[2] = 25;
    c.opcode = 0x8127;
    c.OP_8XY7();
    assert_eq!(c.registers[1], 15);
    assert_eq!(c.registers[0xF], 1);
}

#[test]
fn shifts_report_the_dropped_bit() {
    let mut c = Chip8::new();
    c.registers[1] = 0b1001_0101;
    c.opcode = 0x8106;
    c.OP_8XY6();
    assert_eq!(c.registers[1], 0b0100_1010);
    assert_eq!(c.registers[0xF], 1);
    c.registers[2] = 0b1001_0101;
    c.opcode = 0x820E;
    c.OP_8XYE();
    assert_eq!(c.registers[2], 0b0010_1010);
    assert_eq!(c.registers[0xF], 1);
}

#[test]
fn skip_if_registers_differ_compares_indices_not_values() {
    let mut c = Chip8::new();
    c.registers[1] = 1;
    c.registers[2] = 2;
    c.memory[0x200] = 0x91;
    c.memory[0x201] = 0x20;
    c.Cycle();
    // distinct register numbers: no skip, whatever the values
    assert_eq!(c.pc, 0x202);
    c.memory[0x202] = 0x91;
    c.memory[0x203] = 0x10;
    c.Cycle();
    // the same register named twice: skip, though the values are equal
    assert_eq!(c.pc, 0x206);
}

#[test]
fn set_index_and_jump_with_offset() {
    let mut c = Chip8::new();
    c.memory[0x200] = 0xA3;
    c.memory[0x201] = 0x21;
    c.Cycle();
    assert_eq!(c.index, 0x321);
    c.registers[0] = 0x10;
    c.memory[0x202] = 0xB2;
    c.memory[0x203] = 0x40;
    c.Cycle();
    assert_eq!(c.pc, 0x250);
}

#[test]
fn random_masked_by_immediate() {
    let mut c = Chip8::new();
    c.opcode = 0xC10F;
    c.OP_CXKK();
    assert_eq!(c.registers[1] & !0x0F, 0);
    c.opcode = 0xC200;
    c.OP_CXKK();
    assert_eq!(c.registers[2], 0);
}

#[test]
fn call_and_return_round_trip() {
    let mut c = Chip8::new();
    c.memory[0x200] = 0x23;
    c.memory[0x201] = 0x00;
    c.Cycle();
    assert_eq!(c.pc, 0x300);
    assert_eq!(c.sp, 1);
    assert_eq!(c.stack[0], 0x202);
    c.memory[0x300] = 0x00;
    c.memory[0x301] = 0xEE;
    c.Cycle();
    assert_eq!(c.pc, 0x202);
    assert_eq!(c.sp, 0);
}

#[test]
fn return_with_empty_stack_does_nothing() {
    let mut c = Chip8::new();
    c.opcode = 0x00EE;
    c.OP_00EE();
    assert_eq!(c.sp, 0);
    assert_eq!(c.pc, 0x200);
}

#[test]
fn call_with_full_stack_does_nothing() {
    let mut c = Chip8::new();
    c.sp = 16;
    c.opcode = 0x2300;
    c.OP_2NNN();
    assert_eq!(c.sp, 16);
    assert_eq!(c.pc, 0x200);
    assert_eq!(c.stack, [0u16; 16]);
}

#[test]
fn clear_screen() {
    let mut c = Chip8::new();
    c.video[0] = ON;
    c.video[2047] = ON;
    c.opcode = 0x00E0;
    c.OP_00E0();
    assert!(c.video.iter().all(|&p| p == 0));
}

#[test]
fn unmatched_opcodes_are_no_ops() {
    for op in [0x0123u16, 0x8128, 0xE155, 0xF1FF, 0x0000] {
        let mut c = Chip8::new();
        c.memory[0x200] = (op >> 8) as u8;
        c.memory[0x201] = op as u8;
        let regs = c.registers;
        c.Cycle();
        assert_eq!(c.pc, 0x202);
        assert_eq!(c.registers, regs);
        assert_eq!(c.sp, 0);
    }
}

#[test]
fn draw_lights_pixels_and_reports_no_collision_on_blank_screen() {
    let mut c = Chip8::new();
    c.index = 0x300;
    c.memory[0x300] = 0b1010_0000;
    c.registers[0] = 4;
    c.registers[1] = 2;
    c.opcode = 0xD011;
    c.OP_DXYN();
    assert_eq!(c.video[2 * 64 + 4], ON);
    assert_eq!(c.video[2 * 64 + 5], 0);
    assert_eq!(c.video[2 * 64 + 6], ON);
    assert_eq!(c.registers[0xF], 0);
}

#[test]
fn draw_twice_restores_the_framebuffer() {
    let mut c = Chip8::new();
    c.index = 0x50;  // draw the zero glyph straight from the font
    c.registers[0] = 10;
    c.registers[1] = 7;
    c.opcode = 0xD015;
    let before = c.video;
    c.OP_DXYN();
    assert_eq!(c.registers[0xF], 0);
    assert_ne!(&c.video[..], &before[..]);
    c.OP_DXYN();
    // the second pass collides with the first pass's pixels...
    assert_eq!(c.registers[0xF], 1);
    // ...and XOR cancels, restoring the region
    assert_eq!(&c.video[..], &before[..]);
}

#[test]
fn draw_collision_reflects_prior_content_only() {
    let mut c = Chip8::new();
    c.video[3 * 64 + 8] = ON;
    c.index = 0x300;
    c.memory[0x300] = 0b1000_0000;
    c.registers[4] = 8;
    c.registers[5] = 3;
    c.opcode = 0xD451;
    c.OP_DXYN();
    assert_eq!(c.registers[0xF], 1);
    assert_eq!(c.video[3 * 64 + 8], 0);
}

#[test]
fn draw_clips_at_the_right_edge() {
    let mut c = Chip8::new();
    c.index = 0x300;
    c.memory[0x300] = 0xFF;
    c.registers[0] = 60;
    c.registers[1] = 0;
    c.opcode = 0xD011;
    c.OP_DXYN();
    for col in 60..64 {
        assert_eq!(c.video[col], ON);
    }
    // nothing wraps around to the left edge of the same row
    for col in 0..4 {
        assert_eq!(c.video[col], 0);
    }
    assert_eq!(c.registers[0xF], 0);
}

#[test]
fn draw_origin_wraps() {
    let mut c = Chip8::new();
    c.index = 0x300;
    c.memory[0x300] = 0b1000_0000;
    c.registers[0] = 64;  // wraps to column 0
    c.registers[1] = 33;  // wraps to row 1
    c.opcode = 0xD011;
    c.OP_DXYN();
    assert_eq!(c.video[64], ON);
}

#[test]
fn skip_if_key_pressed() {
    let mut c = Chip8::new();
    c.registers[1] = 5;
    c.keypad[5] = 1;
    c.memory[0x200] = 0xE1;
    c.memory[0x201] = 0x9E;
    c.Cycle();
    assert_eq!(c.pc, 0x204);
    c.keypad[5] = 0;
    c.memory[0x204] = 0xE1;
    c.memory[0x205] = 0x9E;
    c.Cycle();
    assert_eq!(c.pc, 0x206);
}

#[test]
fn skip_if_key_not_pressed() {
    let mut c = Chip8::new();
    c.registers[1] = 5;
    c.memory[0x200] = 0xE1;
    c.memory[0x201] = 0xA1;
    c.Cycle();
    assert_eq!(c.pc, 0x204);
}

#[test]
fn key_wait_rewinds_until_a_key_arrives() {
    let mut c = Chip8::new();
    c.memory[0x200] = 0xF1;
    c.memory[0x201] = 0x0A;
    c.Cycle();
    // no key: net zero advance across the rewind
    assert_eq!(c.pc, 0x200);
    c.Cycle();
    assert_eq!(c.pc, 0x200);
    c.keypad[9] = 1;
    c.Cycle();
    assert_eq!(c.registers[1], 9);
    assert_eq!(c.pc, 0x202);
}

#[test]
fn key_wait_takes_the_lowest_pressed_key() {
    let mut c = Chip8::new();
    c.keypad[12] = 1;
    c.keypad[3] = 1;
    c.opcode = 0xF20A;
    c.OP_FX0A();
    assert_eq!(c.registers[2], 3);
}

#[test]
fn timer_transfers() {
    let mut c = Chip8::new();
    c.delay_timer = 42;
    c.opcode = 0xF107;
    c.OP_FX07();
    assert_eq!(c.registers[1], 42);
    c.registers[2] = 9;
    c.opcode = 0xF215;
    c.OP_FX15();
    assert_eq!(c.delay_timer, 9);
    c.opcode = 0xF218;
    c.OP_FX18();
    assert_eq!(c.sound_timer, 9);
}

#[test]
fn timer_tick_counts_down_and_stops_at_zero() {
    let mut c = Chip8::new();
    c.delay_timer = 2;
    c.sound_timer = 1;
    c.tick_timers();
    assert_eq!(c.delay_timer, 1);
    assert_eq!(c.sound_timer, 0);
    c.tick_timers();
    assert_eq!(c.delay_timer, 0);
    assert_eq!(c.sound_timer, 0);
    c.tick_timers();
    assert_eq!(c.delay_timer, 0);
    assert_eq!(c.sound_timer, 0);
}

#[test]
fn add_to_index() {
    let mut c = Chip8::new();
    c.index = 0x300;
    c.registers[1] = 0x20;
    c.opcode = 0xF11E;
    c.OP_FX1E();
    assert_eq!(c.index, 0x320);
}

#[test]
fn font_lookup_points_into_the_font_table() {
    let mut c = Chip8::new();
    c.registers[1] = 0xA;
    c.opcode = 0xF129;
    c.OP_FX29();
    assert_eq!(c.index, 0x50 + 5 * 0xA);
    assert_eq!(c.memory[c.index as usize], 0xF0);
}

#[test]
fn bcd_decomposes_into_three_digits() {
    let mut c = Chip8::new();
    c.registers[3] = 234;
    c.index = 0x400;
    c.memory[0x200] = 0xF3;
    c.memory[0x201] = 0x33;
    c.Cycle();
    assert_eq!(c.memory[0x400], 2);
    assert_eq!(c.memory[0x401], 3);
    assert_eq!(c.memory[0x402], 4);
}

#[test]
fn bcd_of_small_values_pads_with_zeros() {
    let mut c = Chip8::new();
    c.registers[3] = 7;
    c.index = 0x400;
    c.opcode = 0xF333;
    c.OP_FX33();
    assert_eq!(c.memory[0x400], 0);
    assert_eq!(c.memory[0x401], 0);
    assert_eq!(c.memory[0x402], 7);
}

#[test]
fn store_and_load_registers_round_trip() {
    let mut c = Chip8::new();
    for i in 0..4 {
        c.registers[i] = (10 + i) as u8;
    }
    c.index = 0x500;
    c.opcode = 0xF355;
    c.OP_FX55();
    for i in 0..4usize {
        assert_eq!(c.memory[0x500 + i], (10 + i) as u8);
    }
    assert_eq!(c.memory[0x504], 0);
    assert_eq!(c.index, 0x500);
    let mut d = Chip8::new();
    d.memory[0x500..0x504].copy_from_slice(&c.memory[0x500..0x504]);
    d.registers[4] = 99;
    d.index = 0x500;
    d.opcode = 0xF365;
    d.OP_FX65();
    for i in 0..4usize {
        assert_eq!(d.registers[i], (10 + i) as u8);
    }
    // registers past the named one stay put
    assert_eq!(d.registers[4], 99);
}

#[test]
fn null_handler_changes_nothing() {
    let mut c = Chip8::new();
    c.pc = 0x321;
    c.opcode = 0x5678;
    c.OP_NULL();
    assert_eq!(c.pc, 0x321);
    assert_eq!(c.opcode, 0x5678);
}

#[test]
fn operand_helpers_extract_fields() {
    assert_eq!(chip8::cpu::get_vx(0xA7B3), 7);
    assert_eq!(chip8::cpu::get_vy(0xA7B3), 0xB);
    assert_eq!(chip8::cpu::get_byte(0xA7B3), 0xB3);
}
