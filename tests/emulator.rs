use chip8::{Chip8Error, Emulator};

fn run(e: &mut Emulator, op: u16) {
    e.execute_with(op, 0).unwrap();
}

fn set(e: &mut Emulator, x: u16, kk: u16) {
    run(e, 0x6000 | (x << 8) | kk);
}

fn pixel(e: &Emulator, x: usize, y: usize) -> bool {
    e.get_display()[x + 64 * y]
}

fn with_program(code: &[u8]) -> Emulator {
    let mut e = Emulator::new();
    e.load(code).unwrap();
    e
}

#[test]
fn new_machine_is_initialised() {
    let e = Emulator::new();
    assert_eq!(e.pc(), 0x200);
    assert_eq!(e.sp(), 0);
    assert_eq!(e.index(), 0);
    assert_eq!(e.get_display().len(), 2048);
    assert!(e.get_display().iter().all(|p| !*p));
    assert_eq!(
        [e.memory(0), e.memory(1), e.memory(2), e.memory(3), e.memory(4)],
        [0xF0, 0x90, 0x90, 0x90, 0xF0]
    );
    assert_eq!(e.memory(79), 0x80);
    assert_eq!(e.memory(80), 0);
    for x in 0..16 {
        assert_eq!(e.register(x), 0);
    }
    assert!(!e.sound_should_play());
}

#[test]
fn load_then_add_zero_keeps_immediate() {
    for x in [0u16, 5, 15] {
        for kk in [0u16, 1, 0x7F, 0xFF] {
            let mut e = Emulator::new();
            run(&mut e, 0x6000 | (x << 8) | kk);
            run(&mut e, 0x7000 | (x << 8));
            assert_eq!(e.register(x as usize), kk as u8);
        }
    }
}

#[test]
fn add_immediate_wraps() {
    let mut e = Emulator::new();
    set(&mut e, 2, 0xFE);
    run(&mut e, 0x7203);
    assert_eq!(e.register(2), 1);
    assert_eq!(e.register(15), 0);
}

#[test]
fn add_with_carry() {
    let mut e = Emulator::new();
    set(&mut e, 1, 255);
    set(&mut e, 2, 1);
    run(&mut e, 0x8124);
    assert_eq!(e.register(1), 0);
    assert_eq!(e.register(15), 1);

    let mut e = Emulator::new();
    set(&mut e, 1, 1);
    set(&mut e, 2, 1);
    run(&mut e, 0x8124);
    assert_eq!(e.register(1), 2);
    assert_eq!(e.register(15), 0);
}

#[test]
fn subtract_with_borrow() {
    let mut e = Emulator::new();
    set(&mut e, 1, 1);
    set(&mut e, 2, 2);
    run(&mut e, 0x8125);
    assert_eq!(e.register(1), 255);
    assert_eq!(e.register(15), 0);

    let mut e = Emulator::new();
    set(&mut e, 1, 2);
    set(&mut e, 2, 1);
    run(&mut e, 0x8125);
    assert_eq!(e.register(1), 1);
    assert_eq!(e.register(15), 1);
}

#[test]
fn reverse_subtract_sets_vx() {
    let mut e = Emulator::new();
    set(&mut e, 1, 2);
    set(&mut e, 2, 5);
    run(&mut e, 0x8127);
    assert_eq!(e.register(1), 3);
    assert_eq!(e.register(2), 5);
    assert_eq!(e.register(15), 1);

    let mut e = Emulator::new();
    set(&mut e, 1, 5);
    set(&mut e, 2, 2);
    run(&mut e, 0x8127);
    assert_eq!(e.register(1), 253);
    assert_eq!(e.register(15), 0);
}

#[test]
fn shift_right_captures_dropped_bit() {
    let mut e = Emulator::new();
    set(&mut e, 1, 0b0000_0011);
    run(&mut e, 0x8106);
    assert_eq!(e.register(1), 1);
    assert_eq!(e.register(15), 1);

    let mut e = Emulator::new();
    set(&mut e, 1, 0b0000_0010);
    run(&mut e, 0x8106);
    assert_eq!(e.register(1), 1);
    assert_eq!(e.register(15), 0);
}

#[test]
fn shift_left_captures_high_bit() {
    let mut e = Emulator::new();
    set(&mut e, 1, 0x81);
    run(&mut e, 0x810E);
    assert_eq!(e.register(1), 0x02);
    assert_eq!(e.register(15), 1);

    let mut e = Emulator::new();
    set(&mut e, 1, 0x41);
    run(&mut e, 0x810E);
    assert_eq!(e.register(1), 0x82);
    assert_eq!(e.register(15), 0);
}

#[test]
fn bitwise_operations_are_distinct() {
    let cases = [(0x8121u16, 0b1110u8), (0x8122, 0b1000), (0x8123, 0b0110), (0x8120, 0b1010)];
    for (op, expected) in cases {
        let mut e = Emulator::new();
        set(&mut e, 1, 0b1100);
        set(&mut e, 2, 0b1010);
        run(&mut e, op);
        assert_eq!(e.register(1), expected);
    }
}

#[test]
fn draw_twice_restores_and_collides() {
    let mut e = Emulator::new();
    set(&mut e, 0, 10);
    set(&mut e, 1, 5);
    run(&mut e, 0xA000);
    run(&mut e, 0xD015);
    assert_eq!(e.register(15), 0);
    // glyph 0 starts with 0xF0: four pixels lit on its first row
    assert!(pixel(&e, 10, 5) && pixel(&e, 13, 5) && !pixel(&e, 14, 5));
    assert!(pixel(&e, 10, 6) && !pixel(&e, 11, 6) && pixel(&e, 13, 6));
    assert_eq!(e.get_display().iter().filter(|p| **p).count(), 14);
    run(&mut e, 0xD015);
    assert_eq!(e.register(15), 1);
    assert!(e.get_display().iter().all(|p| !*p));
}

#[test]
fn draw_on_blank_area_reports_no_collision() {
    let mut e = Emulator::new();
    set(&mut e, 0, 0);
    set(&mut e, 1, 0);
    run(&mut e, 0xA000);
    run(&mut e, 0xD011);
    set(&mut e, 0, 20);
    run(&mut e, 0xD011);
    assert_eq!(e.register(15), 0);
    assert!(pixel(&e, 0, 0) && pixel(&e, 20, 0));
}

#[test]
fn draw_wraps_at_edges() {
    let mut e = Emulator::new();
    set(&mut e, 0, 0xC0);
    set(&mut e, 1, 0xC0);
    run(&mut e, 0xA300);
    run(&mut e, 0xF155);
    set(&mut e, 1, 63);
    set(&mut e, 2, 31);
    run(&mut e, 0xD122);
    assert!(pixel(&e, 63, 31));
    assert!(pixel(&e, 0, 31));
    assert!(pixel(&e, 63, 0));
    assert!(pixel(&e, 0, 0));
    assert_eq!(e.get_display().iter().filter(|p| **p).count(), 4);
    assert_eq!(e.register(15), 0);
}

#[test]
fn draw_single_bit_at_corner() {
    let mut e = Emulator::new();
    set(&mut e, 0, 0x80);
    run(&mut e, 0xA300);
    run(&mut e, 0xF055);
    set(&mut e, 1, 63);
    set(&mut e, 2, 31);
    run(&mut e, 0xD121);
    assert!(pixel(&e, 63, 31));
    assert_eq!(e.get_display().iter().filter(|p| **p).count(), 1);
}

#[test]
fn draw_coordinates_wrap_modulo_screen() {
    let mut e = Emulator::new();
    set(&mut e, 0, 0x80);
    run(&mut e, 0xA300);
    run(&mut e, 0xF055);
    set(&mut e, 1, 64 + 3);
    set(&mut e, 2, 32 + 2);
    run(&mut e, 0xD121);
    assert!(pixel(&e, 3, 2));
}

#[test]
fn clear_screen() {
    let mut e = Emulator::new();
    run(&mut e, 0xD015);
    assert!(e.get_display().iter().any(|p| *p));
    run(&mut e, 0x00E0);
    assert!(e.get_display().iter().all(|p| !*p));
}

#[test]
fn call_then_return_restores_pc_and_sp() {
    let mut code = vec![0u8; 0x202];
    code[0] = 0x24;
    code[1] = 0x00;
    code[0x200] = 0x00;
    code[0x201] = 0xEE;
    let mut e = with_program(&code);
    e.tick().unwrap();
    assert_eq!(e.pc(), 0x400);
    assert_eq!(e.sp(), 1);
    e.tick().unwrap();
    assert_eq!(e.pc(), 0x202);
    assert_eq!(e.sp(), 0);
}

#[test]
fn bcd_of_157() {
    let mut e = Emulator::new();
    set(&mut e, 3, 157);
    run(&mut e, 0xA300);
    run(&mut e, 0xF333);
    assert_eq!(e.memory(0x300), 1);
    assert_eq!(e.memory(0x301), 5);
    assert_eq!(e.memory(0x302), 7);
}

#[test]
fn bcd_past_memory_end_fails() {
    let mut e = Emulator::new();
    set(&mut e, 3, 157);
    run(&mut e, 0xAFFE);
    assert_eq!(e.execute_with(0xF333, 0), Err(Chip8Error::MemoryOutOfBounds));
    assert_eq!(e.memory(0xFFE), 0);
}

#[test]
fn sound_timer_stops_once() {
    let mut e = Emulator::new();
    set(&mut e, 0, 1);
    run(&mut e, 0xF018);
    assert_eq!(e.sound_timer(), 1);
    assert!(e.sound_should_play());
    e.tick_timers();
    assert_eq!(e.sound_timer(), 0);
    assert!(!e.sound_should_play());
    e.tick_timers();
    assert_eq!(e.sound_timer(), 0);
    assert!(!e.sound_should_play());
}

#[test]
fn delay_timer_set_read_and_decay() {
    let mut e = Emulator::new();
    set(&mut e, 0, 3);
    run(&mut e, 0xF015);
    run(&mut e, 0xF107);
    assert_eq!(e.register(1), 3);
    e.tick_timers();
    assert_eq!(e.delay_timer(), 2);
    e.tick_timers();
    e.tick_timers();
    e.tick_timers();
    assert_eq!(e.delay_timer(), 0);
}

#[test]
fn key_wait_repeats_until_pressed() {
    let mut e = with_program(&[0xF5, 0x0A]);
    e.tick().unwrap();
    assert_eq!(e.pc(), 0x200);
    e.tick().unwrap();
    e.tick().unwrap();
    assert_eq!(e.pc(), 0x200);
    e.keypress(7, true).unwrap();
    e.keypress(9, true).unwrap();
    e.tick().unwrap();
    assert_eq!(e.pc(), 0x202);
    assert_eq!(e.register(5), 7);
}

#[test]
fn key_wait_sees_last_key() {
    let mut e = with_program(&[0xF5, 0x0A]);
    e.keypress(15, true).unwrap();
    e.tick().unwrap();
    assert_eq!(e.pc(), 0x202);
    assert_eq!(e.register(5), 15);
}

#[test]
fn key_skips() {
    let mut e = Emulator::new();
    set(&mut e, 1, 4);
    let pc = e.pc();
    run(&mut e, 0xE19E);
    assert_eq!(e.pc(), pc);
    run(&mut e, 0xE1A1);
    assert_eq!(e.pc(), pc + 2);
    e.keypress(4, true).unwrap();
    run(&mut e, 0xE19E);
    assert_eq!(e.pc(), pc + 4);
    run(&mut e, 0xE1A1);
    assert_eq!(e.pc(), pc + 4);
}

#[test]
fn key_test_with_register_above_fifteen_fails() {
    let mut e = Emulator::new();
    set(&mut e, 1, 16);
    assert_eq!(e.execute_with(0xE19E, 0), Err(Chip8Error::InvalidKey(16)));
}

#[test]
fn unsupported_opcodes_are_reported() {
    for op in [0x00E1u16, 0x0123, 0x5121, 0x8128, 0x812F, 0x9121, 0xE1FF, 0xF1FF, 0xF000] {
        let mut e = Emulator::new();
        assert_eq!(e.execute_with(op, 0), Err(Chip8Error::UnsupportedOpcode(op)));
        assert_eq!(e.pc(), 0x200);
    }
}

#[test]
fn no_op_changes_nothing() {
    let mut e = Emulator::new();
    run(&mut e, 0x0000);
    assert_eq!(e.pc(), 0x200);
}

#[test]
fn skips_on_comparisons() {
    let mut e = Emulator::new();
    set(&mut e, 1, 7);
    set(&mut e, 2, 7);
    run(&mut e, 0x3107);
    assert_eq!(e.pc(), 0x202);
    run(&mut e, 0x3108);
    assert_eq!(e.pc(), 0x202);
    run(&mut e, 0x4108);
    assert_eq!(e.pc(), 0x204);
    run(&mut e, 0x4107);
    assert_eq!(e.pc(), 0x204);
    run(&mut e, 0x5120);
    assert_eq!(e.pc(), 0x206);
    run(&mut e, 0x9120);
    assert_eq!(e.pc(), 0x206);
    set(&mut e, 2, 8);
    run(&mut e, 0x9120);
    assert_eq!(e.pc(), 0x208);
}

#[test]
fn jumps() {
    let mut e = Emulator::new();
    run(&mut e, 0x1ABC);
    assert_eq!(e.pc(), 0xABC);
    set(&mut e, 0, 4);
    run(&mut e, 0xB300);
    assert_eq!(e.pc(), 0x304);
}

#[test]
fn index_register_operations() {
    let mut e = Emulator::new();
    run(&mut e, 0xA123);
    assert_eq!(e.index(), 0x123);
    set(&mut e, 1, 0x10);
    run(&mut e, 0xF11E);
    assert_eq!(e.index(), 0x133);
    set(&mut e, 2, 0xA);
    run(&mut e, 0xF229);
    assert_eq!(e.index(), 50);
}

#[test]
fn store_and_load_registers() {
    let mut e = Emulator::new();
    set(&mut e, 0, 11);
    set(&mut e, 1, 22);
    set(&mut e, 2, 33);
    set(&mut e, 3, 44);
    run(&mut e, 0xA400);
    run(&mut e, 0xF255);
    assert_eq!([e.memory(0x400), e.memory(0x401), e.memory(0x402), e.memory(0x403)], [11, 22, 33, 0]);
    run(&mut e, 0x6000);
    run(&mut e, 0x6100);
    run(&mut e, 0x6200);
    run(&mut e, 0xF265);
    assert_eq!([e.register(0), e.register(1), e.register(2), e.register(3)], [11, 22, 33, 44]);
}

#[test]
fn register_transfer_past_memory_end_fails() {
    let mut e = Emulator::new();
    run(&mut e, 0xAFFE);
    assert_eq!(e.execute_with(0xF255, 0), Err(Chip8Error::MemoryOutOfBounds));
    assert_eq!(e.execute_with(0xF265, 0), Err(Chip8Error::MemoryOutOfBounds));
    assert_eq!(e.execute_with(0xF155, 0), Ok(()));
}

#[test]
fn random_byte_is_masked() {
    let mut e = Emulator::new();
    set(&mut e, 3, 0xFF);
    e.execute(0xC300).unwrap();
    assert_eq!(e.register(3), 0);
    e.execute_with(0xC3F0, 0xAB).unwrap();
    assert_eq!(e.register(3), 0xA0);
    for _ in 0..20 {
        e.execute(0xC30F).unwrap();
        assert!(e.register(3) <= 0x0F);
    }
}

#[test]
fn stack_overflow_and_underflow() {
    let mut e = Emulator::new();
    for _ in 0..16 {
        run(&mut e, 0x2300);
    }
    assert_eq!(e.sp(), 16);
    assert_eq!(e.execute_with(0x2300, 0), Err(Chip8Error::StackOverflow));
    assert_eq!(e.sp(), 16);
    let mut e = Emulator::new();
    assert_eq!(e.execute_with(0x00EE, 0), Err(Chip8Error::StackUnderflow));
}

#[test]
fn push_and_pop() {
    let mut e = Emulator::new();
    assert_eq!(e.pop(), Err(Chip8Error::StackUnderflow));
    e.push(0x123).unwrap();
    e.push(0x456).unwrap();
    assert_eq!(e.sp(), 2);
    assert_eq!(e.pop(), Ok(0x456));
    assert_eq!(e.pop(), Ok(0x123));
    for k in 0..16 {
        e.push(k).unwrap();
    }
    assert_eq!(e.push(99), Err(Chip8Error::StackOverflow));
}

#[test]
fn fetch_is_big_endian() {
    let mut e = with_program(&[0x12, 0x34]);
    assert_eq!(e.fetch(), Ok(0x1234));
    assert_eq!(e.pc(), 0x202);
}

#[test]
fn fetch_at_memory_end_fails() {
    let mut e = Emulator::new();
    run(&mut e, 0x1FFF);
    assert_eq!(e.fetch(), Err(Chip8Error::MemoryOutOfBounds));
    assert_eq!(e.tick(), Err(Chip8Error::MemoryOutOfBounds));
    assert_eq!(e.pc(), 0xFFF);
}

#[test]
fn draw_past_memory_end_fails() {
    let mut e = Emulator::new();
    run(&mut e, 0xAFFF);
    assert_eq!(e.execute_with(0xD012, 0), Err(Chip8Error::MemoryOutOfBounds));
    assert_eq!(e.execute_with(0xD011, 0), Ok(()));
}

#[test]
fn load_checks_size() {
    let mut e = Emulator::new();
    let big = vec![7u8; 4096 - 512 + 1];
    assert_eq!(e.load(&big), Err(Chip8Error::ImageTooLarge(3585)));
    assert_eq!(e.memory(0x200), 0);
    let fits = vec![9u8; 4096 - 512];
    assert_eq!(e.load(&fits), Ok(()));
    assert_eq!(e.memory(0x200), 9);
    assert_eq!(e.memory(4095), 9);
    assert_eq!(e.memory(0x1FF), 0);
}

#[test]
fn keypress_rejects_bad_index() {
    let mut e = Emulator::new();
    assert_eq!(e.keypress(16, true), Err(Chip8Error::InvalidKey(16)));
    assert_eq!(e.keypress(15, true), Ok(()));
}

#[test]
fn reset_restores_initial_state() {
    let mut e = with_program(&[0x60, 0x05]);
    e.tick().unwrap();
    run(&mut e, 0xD015);
    run(&mut e, 0xA000);
    run(&mut e, 0xF055);
    e.keypress(3, true).unwrap();
    e.reset();
    assert_eq!(e.pc(), 0x200);
    assert_eq!(e.register(0), 0);
    assert_eq!(e.memory(0), 0xF0);
    assert_eq!(e.memory(0x200), 0);
    assert!(e.get_display().iter().all(|p| !*p));
}
