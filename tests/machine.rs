use chip8::{decode, Chip8, Chip8Key, Instruction, Screen, WindowConfig};

fn lit_count(screen: &Screen) -> usize {
    let mut n = 0;
    for y in 0..32 {
        for x in 0..64 {
            if screen.is_set(x, y) {
                n += 1;
            }
        }
    }
    n
}

#[test]
fn new_machine_holds_font_and_zeroes() {
    let chip8 = Chip8::new();
    assert_eq!(chip8.get_memory_addr(0), Ok(0xF0));
    assert_eq!(chip8.get_memory_addr(5), Ok(0x20));
    assert_eq!(chip8.get_memory_addr(79), Ok(0x80));
    assert_eq!(chip8.get_memory_addr(80), Ok(0));
    assert_eq!(chip8.program_counter, 0);
    assert_eq!(chip8.stack_pointer, 0);
    assert_eq!(chip8.v, [0u8; 16]);
    assert_eq!(lit_count(&chip8.screen), 0);
    assert!(chip8.keyboard.last_key.is_none());
}

#[test]
fn write_then_read_every_edge() {
    let mut chip8 = Chip8::new();
    for addr in [0usize, 1, 0x200, 4094, 4095] {
        assert_eq!(chip8.set_memory_addr(addr, 0xAB), Ok(()));
        assert_eq!(chip8.get_memory_addr(addr), Ok(0xAB));
    }
    assert_eq!(chip8.set_memory_addr(4096, 1), Err("memory out of bounds!"));
    assert_eq!(chip8.get_memory_addr(4096), Err("memory out of bounds!"));
}

#[test]
fn load_largest_program_fits() {
    let mut chip8 = Chip8::new();
    chip8.program_counter = 0x300;
    let program = vec![7u8; 4096 - 0x200];
    assert_eq!(chip8.load(&program), Ok(()));
    assert_eq!(chip8.program_counter, 0x200);
    assert_eq!(chip8.get_memory_addr(0x200), Ok(7));
    assert_eq!(chip8.get_memory_addr(4095), Ok(7));
    assert_eq!(chip8.get_memory_addr(0x1FF), Ok(0));
}

#[test]
fn load_one_byte_too_many_changes_nothing() {
    let mut chip8 = Chip8::new();
    chip8.program_counter = 0x300;
    let program = vec![7u8; 4096 - 0x200 + 1];
    assert_eq!(chip8.load(&program), Err("program too large for memory"));
    assert_eq!(chip8.program_counter, 0x300);
    assert_eq!(chip8.get_memory_addr(0x200), Ok(0));
}

#[test]
fn memory_get_short_is_big_endian() {
    let mut chip8 = Chip8::new();
    chip8.load(&[0x12, 0x34]).unwrap();
    assert_eq!(chip8.memory_get_short(0x200), 0x1234);
}

#[test]
fn cls_clears_every_cell() {
    let mut chip8 = Chip8::new();
    chip8.screen.set_screen(0, 0);
    chip8.screen.set_screen(63, 31);
    chip8.screen.set_screen(10, 20);
    assert_eq!(lit_count(&chip8.screen), 3);
    assert_eq!(chip8.exec(0x00E0), Ok(()));
    assert_eq!(lit_count(&chip8.screen), 0);
}

#[test]
fn add_sets_carry() {
    let mut chip8 = Chip8::new();
    chip8.exec(0x61FF).unwrap();
    chip8.exec(0x6201).unwrap();
    chip8.exec(0x8124).unwrap();
    assert_eq!(chip8.v[1], 0x00);
    assert_eq!(chip8.v[0xF], 1);
    chip8.exec(0x6101).unwrap();
    chip8.exec(0x8124).unwrap();
    assert_eq!(chip8.v[1], 0x02);
    assert_eq!(chip8.v[0xF], 0);
}

#[test]
fn sub_sets_not_borrow() {
    let mut chip8 = Chip8::new();
    chip8.exec(0x6105).unwrap();
    chip8.exec(0x6202).unwrap();
    chip8.exec(0x8125).unwrap();
    assert_eq!(chip8.v[1], 0x03);
    assert_eq!(chip8.v[0xF], 1);
    chip8.exec(0x6102).unwrap();
    chip8.exec(0x6205).unwrap();
    chip8.exec(0x8125).unwrap();
    assert_eq!(chip8.v[1], 0xFD);
    assert_eq!(chip8.v[0xF], 0);
}

#[test]
fn subn_shifts_and_logic() {
    let mut chip8 = Chip8::new();
    chip8.v[1] = 0x02;
    chip8.v[2] = 0x05;
    chip8.exec(0x8127).unwrap();
    assert_eq!(chip8.v[1], 0x03);
    assert_eq!(chip8.v[0xF], 1);
    chip8.v[3] = 0x81;
    chip8.exec(0x8306).unwrap();
    assert_eq!(chip8.v[3], 0x40);
    assert_eq!(chip8.v[0xF], 1);
    chip8.v[3] = 0x81;
    chip8.exec(0x830E).unwrap();
    assert_eq!(chip8.v[3], 0x02);
    assert_eq!(chip8.v[0xF], 1);
    chip8.v[4] = 0b1100;
    chip8.v[5] = 0b1010;
    chip8.exec(0x8451).unwrap();
    assert_eq!(chip8.v[4], 0b1110);
    chip8.v[4] = 0b1100;
    chip8.exec(0x8452).unwrap();
    assert_eq!(chip8.v[4], 0b1000);
    chip8.v[4] = 0b1100;
    chip8.exec(0x8453).unwrap();
    assert_eq!(chip8.v[4], 0b0110);
    chip8.exec(0x8450).unwrap();
    assert_eq!(chip8.v[4], 0b1010);
}

#[test]
fn add_immediate_wraps_without_flag() {
    let mut chip8 = Chip8::new();
    chip8.v[0xF] = 9;
    chip8.v[3] = 0xF0;
    chip8.exec(0x7320).unwrap();
    assert_eq!(chip8.v[3], 0x10);
    assert_eq!(chip8.v[0xF], 9);
}

#[test]
fn sprite_wraps_and_redraw_restores() {
    let mut screen = Screen::new();
    let sprite = [0xFFu8; 8];
    let first = screen.chip8_screen_draw_sprite(60, 28, &sprite, 8);
    assert!(!first);
    assert_eq!(lit_count(&screen), 64);
    assert!(screen.is_set(60, 28));
    assert!(screen.is_set(63, 31));
    assert!(screen.is_set(0, 0));
    assert!(screen.is_set(3, 3));
    assert!(screen.is_set(0, 28));
    assert!(!screen.is_set(4, 0));
    assert!(!screen.is_set(59, 28));
    assert!(!screen.is_set(0, 4));
    let second = screen.chip8_screen_draw_sprite(60, 28, &sprite, 8);
    assert!(second);
    assert_eq!(lit_count(&screen), 0);
}

#[test]
fn sprite_bits_msb_first_and_row_limit() {
    let mut screen = Screen::new();
    let sprite = [0b1000_0001u8, 0b0100_0000, 0xFF];
    let hit = screen.chip8_screen_draw_sprite(2, 5, &sprite, 2);
    assert!(!hit);
    assert!(screen.is_set(2, 5));
    assert!(screen.is_set(9, 5));
    assert!(screen.is_set(3, 6));
    assert_eq!(lit_count(&screen), 3);
}

#[test]
fn draw_opcode_reads_memory_at_i_and_sets_vf() {
    let mut chip8 = Chip8::new();
    chip8.v[1] = 0;
    chip8.v[2] = 0;
    chip8.exec(0xF129).unwrap();
    assert_eq!(chip8.i, 0);
    chip8.exec(0xD125).unwrap();
    assert_eq!(chip8.v[0xF], 0);
    assert_eq!(lit_count(&chip8.screen), 14);
    chip8.exec(0xD125).unwrap();
    assert_eq!(chip8.v[0xF], 1);
    assert_eq!(lit_count(&chip8.screen), 0);
    chip8.i = 4093;
    assert_eq!(chip8.exec(0xD125), Err("memory out of bounds!"));
}

#[test]
fn sixteen_pushes_then_overflow_then_underflow() {
    let mut chip8 = Chip8::new();
    for k in 0..16u16 {
        assert_eq!(chip8.stack_push(k), Ok(()));
    }
    assert_eq!(chip8.stack_push(99), Err("memory out of bounds!"));
    assert_eq!(chip8.stack_pointer, 16);
    for k in (0..16u16).rev() {
        assert_eq!(chip8.pop_from_stack(), Ok(k));
    }
    assert_eq!(chip8.pop_from_stack(), Err("memory out of bounds!"));
}

#[test]
fn literal_trace() {
    let mut chip8 = Chip8::new();
    chip8.load(&[0x6A, 0x05, 0x12, 0x00]).unwrap();
    assert_eq!(chip8.step(), Ok(()));
    assert_eq!(chip8.v[0xA], 5);
    assert_eq!(chip8.program_counter, 0x202);
    assert_eq!(chip8.step(), Ok(()));
    assert_eq!(chip8.program_counter, 0x200);
    chip8.exec(0xA123).unwrap();
    assert_eq!(chip8.i, 0x123);
    chip8.screen.set_screen(5, 5);
    chip8.exec(0x00E0).unwrap();
    assert_eq!(lit_count(&chip8.screen), 0);
}

#[test]
fn step_outside_memory_fails() {
    let mut chip8 = Chip8::new();
    chip8.program_counter = 4095;
    assert_eq!(chip8.step(), Err("memory out of bounds!"));
    assert_eq!(chip8.program_counter, 4095);
}

#[test]
fn call_and_return() {
    let mut chip8 = Chip8::new();
    chip8.program_counter = 0x204;
    chip8.exec(0x2300).unwrap();
    assert_eq!(chip8.program_counter, 0x300);
    assert_eq!(chip8.stack_pointer, 1);
    assert_eq!(chip8.stack[0], 0x204);
    chip8.exec(0x00EE).unwrap();
    assert_eq!(chip8.program_counter, 0x204);
    assert_eq!(chip8.stack_pointer, 0);
    assert_eq!(chip8.exec(0x00EE), Err("memory out of bounds!"));
    chip8.stack_pointer = 16;
    assert_eq!(chip8.exec(0x2300), Err("memory out of bounds!"));
    assert_eq!(chip8.program_counter, 0x204);
}

#[test]
fn skips_and_jumps() {
    let mut chip8 = Chip8::new();
    chip8.program_counter = 0x200;
    chip8.v[1] = 7;
    chip8.v[2] = 7;
    chip8.exec(0x3107).unwrap();
    assert_eq!(chip8.program_counter, 0x202);
    chip8.exec(0x4107).unwrap();
    assert_eq!(chip8.program_counter, 0x202);
    chip8.exec(0x5120).unwrap();
    assert_eq!(chip8.program_counter, 0x204);
    chip8.exec(0x9120).unwrap();
    assert_eq!(chip8.program_counter, 0x204);
    chip8.exec(0x5121).unwrap();
    assert_eq!(chip8.program_counter, 0x204);
    chip8.v[0] = 0x10;
    chip8.exec(0xB300).unwrap();
    assert_eq!(chip8.program_counter, 0x310);
}

#[test]
fn timers_and_misc_registers() {
    let mut chip8 = Chip8::new();
    chip8.v[3] = 2;
    chip8.exec(0xF315).unwrap();
    chip8.exec(0xF318).unwrap();
    assert_eq!(chip8.delay_timer, 2);
    assert_eq!(chip8.sound_timer, 2);
    chip8.tick_timers();
    assert_eq!(chip8.delay_timer, 1);
    chip8.tick_timers();
    chip8.tick_timers();
    assert_eq!(chip8.delay_timer, 0);
    assert_eq!(chip8.sound_timer, 0);
    chip8.delay_timer = 42;
    chip8.exec(0xF407).unwrap();
    assert_eq!(chip8.v[4], 42);
    chip8.i = 0xFFFF;
    chip8.v[5] = 2;
    chip8.exec(0xF51E).unwrap();
    assert_eq!(chip8.i, 1);
    chip8.v[6] = 0xF;
    chip8.exec(0xF629).unwrap();
    assert_eq!(chip8.i, 75);
}

#[test]
fn bcd_and_register_transfers() {
    let mut chip8 = Chip8::new();
    chip8.i = 0x300;
    chip8.v[7] = 234;
    chip8.exec(0xF733).unwrap();
    assert_eq!(chip8.get_memory_addr(0x300), Ok(2));
    assert_eq!(chip8.get_memory_addr(0x301), Ok(3));
    assert_eq!(chip8.get_memory_addr(0x302), Ok(4));
    for k in 0..16 {
        chip8.v[k] = 10 + k as u8;
    }
    chip8.i = 0x400;
    chip8.exec(0xF255).unwrap();
    assert_eq!(chip8.get_memory_addr(0x400), Ok(10));
    assert_eq!(chip8.get_memory_addr(0x402), Ok(12));
    assert_eq!(chip8.get_memory_addr(0x403), Ok(0));
    chip8.set_memory_addr(0x500, 1).unwrap();
    chip8.set_memory_addr(0x501, 2).unwrap();
    chip8.i = 0x500;
    chip8.exec(0xF165).unwrap();
    assert_eq!(chip8.v[0], 1);
    assert_eq!(chip8.v[1], 2);
    assert_eq!(chip8.v[2], 12);
    chip8.i = 4094;
    assert_eq!(chip8.exec(0xF733), Err("memory out of bounds!"));
    assert_eq!(chip8.exec(0xF255), Err("memory out of bounds!"));
    assert_eq!(chip8.exec(0xF265), Err("memory out of bounds!"));
    assert_eq!(chip8.get_memory_addr(4094), Ok(0));
}

#[test]
fn keys_drive_skips_and_latch() {
    let mut chip8 = Chip8::new();
    chip8.program_counter = 0x200;
    chip8.v[1] = 0xC;
    chip8.exec(0xE19E).unwrap();
    assert_eq!(chip8.program_counter, 0x200);
    chip8.exec(0xE1A1).unwrap();
    assert_eq!(chip8.program_counter, 0x202);
    chip8.keyboard.key_down(Chip8Key::KeyC);
    assert!(chip8.keyboard.is_key_down(Chip8Key::KeyC));
    chip8.exec(0xE19E).unwrap();
    assert_eq!(chip8.program_counter, 0x204);
    chip8.exec(0xF20A).unwrap();
    assert_eq!(chip8.v[2], 0xC);
    chip8.keyboard.key_up(Chip8Key::KeyC);
    assert!(!chip8.keyboard.is_key_down(Chip8Key::KeyC));
    assert!(chip8.keyboard.last_key.is_none());
    chip8.v[3] = 0x77;
    chip8.exec(0xF30A).unwrap();
    assert_eq!(chip8.v[3], 0x77);
}

#[test]
fn random_byte_is_masked() {
    let mut chip8 = Chip8::new();
    chip8.v[4] = 0xAA;
    chip8.exec(0xC400).unwrap();
    assert_eq!(chip8.v[4], 0);
    for _ in 0..20 {
        chip8.exec(0xC50F).unwrap();
        assert!(chip8.v[5] <= 0x0F);
    }
}

#[test]
fn execute_takes_the_random_byte() {
    let mut chip8 = Chip8::new();
    chip8.execute(Instruction::Random(2, 0x3C), 0xF5).unwrap();
    assert_eq!(chip8.v[2], 0x34);
}

#[test]
fn decode_names_each_family() {
    assert_eq!(decode(0x00E0), Instruction::Cls);
    assert_eq!(decode(0x00EE), Instruction::Ret);
    assert_eq!(decode(0x0123), Instruction::Nop);
    assert_eq!(decode(0x6A05), Instruction::LoadImm(10, 5));
    assert_eq!(decode(0x8AB4), Instruction::AddReg(10, 11));
    assert_eq!(decode(0x8AB8), Instruction::Nop);
    assert_eq!(decode(0xD12F), Instruction::Draw(1, 2, 15));
    assert_eq!(decode(0xF365), Instruction::LoadRegs(3));
    assert_eq!(decode(0xFFFF), Instruction::Nop);
}

#[test]
fn unassigned_opcodes_change_nothing() {
    let mut chip8 = Chip8::new();
    chip8.v[1] = 3;
    assert_eq!(chip8.exec(0x8128), Ok(()));
    assert_eq!(chip8.exec(0xE1FF), Ok(()));
    assert_eq!(chip8.exec(0xF1FF), Ok(()));
    assert_eq!(chip8.v[1], 3);
    assert_eq!(chip8.program_counter, 0);
}

#[test]
fn extended_leaves_family_zero_alone() {
    let mut chip8 = Chip8::new();
    chip8.screen.set_screen(1, 1);
    assert_eq!(chip8.chip8_exec_extended(0x00E0), Ok(()));
    assert!(chip8.screen.is_set(1, 1));
    assert_eq!(chip8.chip8_exec_extended(0x6A07), Ok(()));
    assert_eq!(chip8.v[0xA], 7);
}

#[test]
fn screen_set_and_clear() {
    let mut screen = Screen::new();
    screen.check_bounds(63, 31);
    screen.set_screen(63, 31);
    assert!(screen.is_set(63, 31));
    screen.clear();
    assert!(!screen.is_set(63, 31));
}

#[test]
fn key_values() {
    assert_eq!(Chip8Key::Key0.value(), 0);
    assert_eq!(Chip8Key::KeyA.value(), 0xA);
    assert_eq!(Chip8Key::KeyF.value(), 0xF);
}

#[test]
fn window_config_default_and_new() {
    let c = WindowConfig::default();
    assert_eq!(c.title, "CHIP-8 Emulator");
    assert_eq!(c.width, 640);
    assert_eq!(c.height, 320);
    let d = WindowConfig::new("t", 1, 2);
    assert_eq!((d.title, d.width, d.height), ("t", 1, 2));
}

#[test]
fn read16_checks_both_bytes() {
    let mut chip8 = Chip8::new();
    chip8.set_memory_addr(4094, 0xAB).unwrap();
    chip8.set_memory_addr(4095, 0xCD).unwrap();
    assert_eq!(chip8.read16(4094), Ok(0xABCD));
    assert_eq!(chip8.read16(4095), Err("memory out of bounds!"));
    assert_eq!(chip8.read16(0), Ok(0xF090));
}
