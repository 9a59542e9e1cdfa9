use chip8::display::Display;
use chip8::machine::Chip8Error;
use chip8::processor::Processor;

#[test]
fn three_cycle_add_program() {
    // V0 <- 5, V1 <- 3, V0 += V1: after three cycles V0 = 8, VF = 0,
    // and the program counter sits after the third instruction.
    let mut cpu = Processor::new();
    cpu.reset();
    cpu.load_rom(&[0x60, 0x05, 0x61, 0x03, 0x80, 0x14]).unwrap();
    cpu.execute_cycle().unwrap();
    cpu.execute_cycle().unwrap();
    cpu.execute_cycle().unwrap();
    assert_eq!(cpu.get_register(0), 8);
    assert_eq!(cpu.get_register(0xF), 0);
    assert_eq!(cpu.get_program_counter(), 0x206);
}

#[test]
fn decimal_digits_of_234() {
    let mut cpu = Processor::new();
    cpu.set_register(2, 234);
    cpu.set_index_register(0x300);
    cpu.execute_opcode(0xF233).unwrap();
    assert_eq!(cpu.get_memory(0x300), 2);
    assert_eq!(cpu.get_memory(0x301), 3);
    assert_eq!(cpu.get_memory(0x302), 4);
}

#[test]
fn reset_installs_font_and_keeps_program_space_zero() {
    let mut cpu = Processor::new();
    cpu.reset();
    let font_head = [0xF0, 0x90, 0x90, 0x90, 0xF0];
    for (i, expected) in font_head.iter().enumerate() {
        assert_eq!(cpu.get_memory(i as u16), *expected);
    }
    for addr in 0x200..4096u16 {
        assert_eq!(cpu.get_memory(addr), 0);
    }
    assert_eq!(cpu.get_program_counter(), 0x200);
    assert_eq!(cpu.get_stack_pointer(), 0);
    assert_eq!(cpu.get_index_register(), 0);
    assert_eq!(cpu.get_delay_timer(), 0);
    assert_eq!(cpu.get_sound_timer(), 0);
}

#[test]
fn draw_twice_restores_and_flags_collision() {
    // Over a blank screen the first blit collides with nothing; blitting the
    // same sprite again turns those pixels back off and reports a collision.
    let mut d = Display::new();
    let sprite = [0x3C, 0x42];
    let first = d.draw(10, 5, &sprite);
    assert!(!first);
    let lit = d.get_buffer();
    assert!(lit.iter().filter(|p| **p).count() > 0);
    let second = d.draw(10, 5, &sprite);
    assert!(second);
    let buf = d.get_buffer();
    assert!(buf.iter().all(|p| !*p));
}

#[test]
fn draw_wraps_toroidally() {
    let mut d = Display::new();
    // One byte 0x80: a single pixel at (x, y), drawn past both edges.
    let coll = d.draw(63, 31, &[0xC0]);
    assert!(!coll);
    let buf = d.get_buffer();
    assert!(buf[31 * 64 + 63], "bit 0 lands at (63, 31)");
    assert!(buf[31 * 64 + 0], "bit 1 wraps to column 0");
    assert_eq!(buf.iter().filter(|p| **p).count(), 2);
}

#[test]
fn clear_draw_clear_leaves_screen_off() {
    let mut cpu = Processor::new();
    cpu.reset();
    cpu.set_memory(0x300, 0xFF);
    cpu.set_index_register(0x300);
    cpu.set_register(0, 2);
    cpu.set_register(1, 3);
    cpu.execute_opcode(0x00E0).unwrap();
    cpu.execute_opcode(0xD011).unwrap();
    assert!(cpu.display.get_buffer().iter().filter(|p| **p).count() == 8);
    cpu.execute_opcode(0x00E0).unwrap();
    assert!(cpu.display.get_buffer().iter().all(|p| !*p));
}

#[test]
fn draw_sets_collision_flag_in_vf() {
    let mut cpu = Processor::new();
    cpu.reset();
    cpu.set_memory(0x300, 0xFF);
    cpu.set_index_register(0x300);
    cpu.execute_opcode(0xD001).unwrap();
    assert_eq!(cpu.get_register(0xF), 0, "no pixel went off on a blank screen");
    cpu.execute_opcode(0xD001).unwrap();
    assert_eq!(cpu.get_register(0xF), 1, "the same blit turns its pixels off");
}

#[test]
fn return_on_empty_stack_is_underflow() {
    let mut cpu = Processor::new();
    assert_eq!(cpu.execute_opcode(0x00EE), Err(Chip8Error::StackUnderflow));
    assert_eq!(cpu.get_program_counter(), 2, "the counter still moved past the word");
}

#[test]
fn seventeenth_nested_call_is_overflow() {
    let mut cpu = Processor::new();
    for _ in 0..16 {
        cpu.execute_opcode(0x2ABC).unwrap();
    }
    assert_eq!(cpu.get_stack_pointer(), 16);
    assert_eq!(cpu.execute_opcode(0x2ABC), Err(Chip8Error::StackOverflow));
    assert_eq!(cpu.get_stack_pointer(), 16, "nothing was pushed");
}

#[test]
fn unmatched_words_are_unknown_opcodes() {
    let mut cpu = Processor::new();
    assert_eq!(cpu.execute_opcode(0x0123), Err(Chip8Error::UnknownOpcode));
    assert_eq!(cpu.execute_opcode(0x5121), Err(Chip8Error::UnknownOpcode));
    assert_eq!(cpu.execute_opcode(0x8008), Err(Chip8Error::UnknownOpcode));
    assert_eq!(cpu.execute_opcode(0xE100), Err(Chip8Error::UnknownOpcode));
    assert_eq!(cpu.execute_opcode(0xF199), Err(Chip8Error::UnknownOpcode));
    assert_eq!(cpu.get_program_counter(), 10, "each word still advanced the counter");
}

#[test]
fn oversized_rom_is_rejected() {
    let mut cpu = Processor::new();
    cpu.reset();
    let too_big = vec![0xAB; 3585];
    assert_eq!(cpu.load_rom(&too_big), Err(Chip8Error::LoadError));
    assert_eq!(cpu.get_memory(0x200), 0, "nothing was written");
    let just_fits = vec![0xCD; 3584];
    assert_eq!(cpu.load_rom(&just_fits), Ok(()));
    assert_eq!(cpu.get_memory(0x200), 0xCD);
    assert_eq!(cpu.get_memory(4095), 0xCD);
}

#[test]
fn indexed_stores_past_memory_fail() {
    let mut cpu = Processor::new();
    cpu.set_index_register(0xFFE);
    assert_eq!(cpu.execute_opcode(0xF233), Err(Chip8Error::MemoryOutOfBounds));
    cpu.set_index_register(0xFFF);
    assert_eq!(cpu.execute_opcode(0xD002), Err(Chip8Error::MemoryOutOfBounds));
    assert_eq!(cpu.execute_opcode(0xF155), Err(Chip8Error::MemoryOutOfBounds));
    assert_eq!(cpu.execute_opcode(0xF165), Err(Chip8Error::MemoryOutOfBounds));
}

#[test]
fn fetch_past_memory_fails() {
    let mut cpu = Processor::new();
    cpu.set_program_counter(4095);
    assert_eq!(cpu.execute_cycle(), Err(Chip8Error::MemoryOutOfBounds));
    assert_eq!(cpu.get_program_counter(), 4095, "a failed fetch moves nothing");
}

#[test]
fn add_byte_wraps_without_flag() {
    let mut cpu = Processor::new();
    cpu.set_register(1, 250);
    cpu.set_register(0xF, 7);
    cpu.execute_opcode(0x710A).unwrap();
    assert_eq!(cpu.get_register(1), 4, "250 + 10 wraps to 4");
    assert_eq!(cpu.get_register(0xF), 7, "the flag register is untouched");
}

#[test]
fn subtract_sets_borrow_flag() {
    let mut cpu = Processor::new();
    cpu.set_register(1, 10);
    cpu.set_register(2, 3);
    cpu.execute_opcode(0x8125).unwrap();
    assert_eq!(cpu.get_register(1), 7);
    assert_eq!(cpu.get_register(0xF), 1, "no borrow");

    cpu.set_register(1, 3);
    cpu.set_register(2, 10);
    cpu.execute_opcode(0x8125).unwrap();
    assert_eq!(cpu.get_register(1), 249, "3 - 10 wraps");
    assert_eq!(cpu.get_register(0xF), 0, "borrow");
}

#[test]
fn subtract_from_reverses_operands() {
    let mut cpu = Processor::new();
    cpu.set_register(1, 5);
    cpu.set_register(2, 7);
    cpu.execute_opcode(0x8127).unwrap();
    assert_eq!(cpu.get_register(1), 2, "Vy - Vx");
    assert_eq!(cpu.get_register(0xF), 1, "no borrow");

    cpu.set_register(1, 7);
    cpu.set_register(2, 5);
    cpu.execute_opcode(0x8127).unwrap();
    assert_eq!(cpu.get_register(1), 254, "5 - 7 wraps");
    assert_eq!(cpu.get_register(0xF), 0, "borrow");
}

#[test]
fn shifts_latch_the_moved_bit() {
    let mut cpu = Processor::new();
    cpu.set_register(1, 0b0000_0101);
    cpu.execute_opcode(0x8106).unwrap();
    assert_eq!(cpu.get_register(1), 0b0000_0010);
    assert_eq!(cpu.get_register(0xF), 1, "low bit latched");

    cpu.set_register(1, 0b1000_0001);
    cpu.execute_opcode(0x810E).unwrap();
    assert_eq!(cpu.get_register(1), 0b0000_0010, "the high bit falls off");
    assert_eq!(cpu.get_register(0xF), 1, "high bit latched");
}

#[test]
fn index_offset_adds_v0() {
    let mut cpu = Processor::new();
    cpu.set_register(0, 5);
    cpu.execute_opcode(0xB300).unwrap();
    assert_eq!(cpu.get_index_register(), 0x305);
}

#[test]
fn font_index_points_at_glyph() {
    let mut cpu = Processor::new();
    cpu.reset();
    cpu.set_register(3, 0xA);
    cpu.execute_opcode(0xF329).unwrap();
    assert_eq!(cpu.get_index_register(), 50, "glyphs are five bytes apart");
}

#[test]
fn add_index_wraps_at_sixteen_bits() {
    let mut cpu = Processor::new();
    cpu.set_index_register(10);
    cpu.set_register(1, 5);
    cpu.execute_opcode(0xF11E).unwrap();
    assert_eq!(cpu.get_index_register(), 15);

    cpu.set_index_register(0xFFFE);
    cpu.set_register(1, 4);
    cpu.execute_opcode(0xF11E).unwrap();
    assert_eq!(cpu.get_index_register(), 2);
}

#[test]
fn random_byte_is_masked() {
    let mut cpu = Processor::new();
    cpu.execute_opcode(0xC10F).unwrap();
    assert_eq!(cpu.get_register(1) & 0xF0, 0, "only bits of NN can be set");
    cpu.execute_opcode(0xC200).unwrap();
    assert_eq!(cpu.get_register(2), 0, "a zero mask forces zero");
}

#[test]
fn skip_on_key_state() {
    let mut cpu = Processor::new();
    cpu.set_register(1, 5);
    cpu.keyboard.key_press(5);
    cpu.execute_opcode(0xE19E).unwrap();
    assert_eq!(cpu.get_program_counter(), 4, "key pressed: skip");
    cpu.execute_opcode(0xE1A1).unwrap();
    assert_eq!(cpu.get_program_counter(), 6, "key pressed: no skip");
    cpu.keyboard.key_release(5);
    cpu.execute_opcode(0xE19E).unwrap();
    assert_eq!(cpu.get_program_counter(), 8, "key released: no skip");
    cpu.execute_opcode(0xE1A1).unwrap();
    assert_eq!(cpu.get_program_counter(), 12, "key released: skip");
}

#[test]
fn wait_for_key_spins_then_latches_lowest() {
    let mut cpu = Processor::new();
    cpu.set_program_counter(0x200);
    cpu.execute_opcode(0xF10A).unwrap();
    assert_eq!(cpu.get_program_counter(), 0x200, "no key: the counter is held back");
    cpu.keyboard.key_press(9);
    cpu.keyboard.key_press(3);
    cpu.execute_opcode(0xF10A).unwrap();
    assert_eq!(cpu.get_register(1), 3, "the lowest pressed key is latched");
    assert_eq!(cpu.get_program_counter(), 0x202, "the counter moves on");
}

#[test]
fn timers_count_down_once_per_cycle() {
    let mut cpu = Processor::new();
    cpu.reset();
    // Delay <- V1 (= 3), sound <- V2 (= 1), then two clear-screen cycles.
    cpu.load_rom(&[0xF1, 0x15, 0xF2, 0x18, 0x00, 0xE0, 0x00, 0xE0]).unwrap();
    cpu.set_register(1, 3);
    cpu.set_register(2, 1);
    cpu.execute_cycle().unwrap();
    assert_eq!(cpu.get_delay_timer(), 2, "set to 3, then one tick");
    cpu.execute_cycle().unwrap();
    assert_eq!(cpu.get_delay_timer(), 1);
    assert_eq!(cpu.get_sound_timer(), 0, "set to 1, then one tick");
    cpu.execute_cycle().unwrap();
    cpu.execute_cycle().unwrap();
    assert_eq!(cpu.get_delay_timer(), 0);
    assert_eq!(cpu.get_sound_timer(), 0, "timers floor at zero");
}

#[test]
fn delay_timer_reads_back() {
    let mut cpu = Processor::new();
    cpu.set_register(1, 42);
    cpu.execute_opcode(0xF115).unwrap();
    assert_eq!(cpu.get_delay_timer(), 42);
    cpu.execute_opcode(0xF207).unwrap();
    assert_eq!(cpu.get_register(2), 42, "FX07 reads the delay timer");
}

#[test]
fn keyboard_press_release_query() {
    let mut cpu = Processor::new();
    for k in 0..16 {
        assert!(!cpu.keyboard.pressed(k));
    }
    cpu.keyboard.key_press(7);
    assert!(cpu.keyboard.pressed(7));
    assert!(!cpu.keyboard.pressed(6));
    cpu.keyboard.key_release(7);
    assert!(!cpu.keyboard.pressed(7));
    cpu.keyboard.key_press(0);
    cpu.keyboard.key_press(15);
    cpu.keyboard.clear();
    for k in 0..16 {
        assert!(!cpu.keyboard.pressed(k));
    }
}
