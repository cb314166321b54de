use chip8::device::{Device, Fault, FaultKind, KeyWait, Quirks};

fn machine(program: &[u8]) -> Device {
    let mut d = Device::new();
    let loaded = d.load(program);
    assert_eq!(loaded, program.len());
    d
}

fn run(d: &mut Device, steps: usize) {
    for _ in 0..steps {
        d.step(0).unwrap();
    }
}

#[test]
fn load_immediate_then_tick() {
    let mut d = machine(&[0x61, 0x42]);
    assert_eq!(d.tick(), Ok(false));
    assert_eq!(d.register(1), 0x42);
    assert_eq!(d.pc(), 0x202);
}

#[test]
fn font_glyph_address_for_seven() {
    let mut d = machine(&[0xA0, 0x50, 0x67, 0x07, 0xF7, 0x29]);
    run(&mut d, 2);
    assert_eq!(d.index(), 0x50);
    run(&mut d, 1);
    assert_eq!(d.index(), 35);
    let rows: Vec<u8> = (35..40).map(|a| d.memory_at(a)).collect();
    assert_eq!(rows, vec![0xF0, 0x10, 0x20, 0x40, 0x40]);
}

#[test]
fn wait_for_key_then_release() {
    let mut d = machine(&[0xF3, 0x0A, 0x60, 0x01]);
    run(&mut d, 1);
    assert_eq!(d.key_wait(), KeyWait::Waiting(3));
    assert_eq!(d.pc(), 0x202);
    d.handle_key(9, true);
    assert_eq!(d.key_wait(), KeyWait::Waiting(3));
    assert!(d.is_pressed(9));
    assert_eq!(d.step(0), Ok(false));
    assert_eq!(d.pc(), 0x202);
    assert_eq!(d.register(0), 0);
    d.handle_key(9, false);
    assert_eq!(d.key_wait(), KeyWait::Running);
    assert_eq!(d.register(3), 9);
    assert!(!d.is_pressed(9));
    run(&mut d, 1);
    assert_eq!(d.register(0), 1);
    assert_eq!(d.pc(), 0x204);
}

#[test]
fn add_immediate_wraps_without_flag() {
    let mut d = machine(&[0x6F, 0x07, 0x60, 0xFF, 0x70, 0x02]);
    run(&mut d, 3);
    assert_eq!(d.register(0), 1);
    assert_eq!(d.register(0xF), 7);
}

#[test]
fn add_registers_sets_carry() {
    let mut d = machine(&[0x60, 200, 0x61, 100, 0x80, 0x14, 0x62, 10, 0x80, 0x24]);
    run(&mut d, 3);
    assert_eq!(d.register(0), 44);
    assert_eq!(d.register(0xF), 1);
    run(&mut d, 2);
    assert_eq!(d.register(0), 54);
    assert_eq!(d.register(0xF), 0);
}

#[test]
fn add_exactly_255_has_no_carry() {
    let mut d = machine(&[0x60, 200, 0x61, 55, 0x80, 0x14]);
    run(&mut d, 3);
    assert_eq!(d.register(0), 255);
    assert_eq!(d.register(0xF), 0);
}

#[test]
fn subtract_sets_no_borrow_flag() {
    let mut d = machine(&[0x60, 5, 0x61, 7, 0x80, 0x15]);
    run(&mut d, 3);
    assert_eq!(d.register(0), 254);
    assert_eq!(d.register(0xF), 0);

    let mut d = machine(&[0x60, 7, 0x61, 7, 0x80, 0x15]);
    run(&mut d, 3);
    assert_eq!(d.register(0), 0);
    assert_eq!(d.register(0xF), 1);
}

#[test]
fn reverse_subtract_sets_no_borrow_flag() {
    let mut d = machine(&[0x60, 5, 0x61, 7, 0x80, 0x17]);
    run(&mut d, 3);
    assert_eq!(d.register(0), 2);
    assert_eq!(d.register(0xF), 1);

    let mut d = machine(&[0x60, 9, 0x61, 7, 0x80, 0x17]);
    run(&mut d, 3);
    assert_eq!(d.register(0), 254);
    assert_eq!(d.register(0xF), 0);
}

#[test]
fn flag_register_as_destination_keeps_the_flag() {
    let mut d = machine(&[0x6F, 200, 0x61, 100, 0x8F, 0x14]);
    run(&mut d, 3);
    assert_eq!(d.register(0xF), 1);
}

#[test]
fn shifts_read_vx_by_default() {
    let mut d = machine(&[0x60, 0x81, 0x61, 0x02, 0x80, 0x16, 0x62, 0x81, 0x82, 0x1E]);
    run(&mut d, 3);
    assert_eq!(d.register(0), 0x40);
    assert_eq!(d.register(0xF), 1);
    run(&mut d, 2);
    assert_eq!(d.register(2), 0x02);
    assert_eq!(d.register(0xF), 1);
}

#[test]
fn shift_quirk_reads_vy() {
    let mut d = Device::with_quirks(Quirks { logic_resets_flag: false, shift_reads_vy: true });
    d.load(&[0x60, 0x81, 0x61, 0x03, 0x80, 0x16]);
    run(&mut d, 3);
    assert_eq!(d.register(0), 0x01);
    assert_eq!(d.register(0xF), 1);
}

#[test]
fn logic_operations_leave_flag_by_default() {
    let mut d = machine(&[0x6F, 0x05, 0x60, 0x0C, 0x61, 0x0A, 0x80, 0x11]);
    run(&mut d, 4);
    assert_eq!(d.register(0), 0x0E);
    assert_eq!(d.register(0xF), 5);
}

#[test]
fn logic_quirk_resets_flag() {
    let mut d = Device::with_quirks(Quirks { logic_resets_flag: true, shift_reads_vy: false });
    d.load(&[0x6F, 0x05, 0x60, 0x0C, 0x61, 0x0A, 0x80, 0x12, 0x6F, 0x05, 0x80, 0x13]);
    run(&mut d, 4);
    assert_eq!(d.register(0), 0x08);
    assert_eq!(d.register(0xF), 0);
    run(&mut d, 2);
    assert_eq!(d.register(0), 0x02);
    assert_eq!(d.register(0xF), 0);
    assert!(d.quirks().logic_resets_flag);
}

#[test]
fn call_then_return() {
    // 0x200: call 0x206; 0x202: V0 = 1; 0x204: jump 0x204; 0x206: return
    let mut d = machine(&[0x22, 0x06, 0x60, 0x01, 0x12, 0x04, 0x00, 0xEE]);
    run(&mut d, 1);
    assert_eq!(d.pc(), 0x206);
    assert_eq!(d.stack_depth(), 1);
    run(&mut d, 1);
    assert_eq!(d.pc(), 0x202);
    assert_eq!(d.stack_depth(), 0);
    run(&mut d, 1);
    assert_eq!(d.register(0), 1);
}

#[test]
fn seventeenth_nested_call_overflows() {
    // 0x200: call 0x200, forever
    let mut d = machine(&[0x22, 0x00]);
    run(&mut d, 16);
    assert_eq!(d.stack_depth(), 16);
    assert_eq!(
        d.step(0),
        Err(Fault { kind: FaultKind::StackOverflow, address: 0x200, opcode: 0x2200 })
    );
    assert_eq!(d.stack_depth(), 16);
    assert_eq!(d.pc(), 0x200);
}

#[test]
fn return_on_empty_stack_underflows() {
    let mut d = machine(&[0x00, 0xEE]);
    assert_eq!(
        d.step(0),
        Err(Fault { kind: FaultKind::StackUnderflow, address: 0x200, opcode: 0x00EE })
    );
    assert_eq!(d.pc(), 0x200);
}

#[test]
fn unknown_opcodes_are_faults() {
    for word in [0x0000u16, 0x0123, 0x5121, 0x800F, 0x9AB1, 0xE0FF, 0xF0FF] {
        let mut d = machine(&[(word >> 8) as u8, word as u8]);
        assert_eq!(
            d.step(0),
            Err(Fault { kind: FaultKind::UnknownOpcode, address: 0x200, opcode: word })
        );
    }
}

#[test]
fn fetch_beyond_memory_is_a_fault() {
    let mut d = machine(&[0x1F, 0xFF]);
    run(&mut d, 1);
    assert_eq!(d.pc(), 0xFFF);
    assert_eq!(
        d.step(0),
        Err(Fault { kind: FaultKind::MemoryOutOfRange, address: 0xFFF, opcode: 0 })
    );
}

#[test]
fn bcd_digits() {
    let mut d = machine(&[0x65, 234, 0xA3, 0x00, 0xF5, 0x33]);
    run(&mut d, 3);
    assert_eq!(d.memory_at(0x300), 2);
    assert_eq!(d.memory_at(0x301), 3);
    assert_eq!(d.memory_at(0x302), 4);
    assert_eq!(d.index(), 0x300);
}

#[test]
fn bcd_past_memory_end_is_a_fault() {
    let mut d = machine(&[0xAF, 0xFE, 0xF0, 0x33]);
    run(&mut d, 1);
    assert_eq!(
        d.step(0),
        Err(Fault { kind: FaultKind::MemoryOutOfRange, address: 0x202, opcode: 0xF033 })
    );
    assert_eq!(d.memory_at(0xFFE), 0);
    assert_eq!(d.pc(), 0x202);
}

#[test]
fn store_then_load_registers_round_trip() {
    let mut d = machine(&[
        0x60, 0x11, 0x61, 0x22, 0x62, 0x33, 0x63, 0x44, // V0..V3
        0xA4, 0x00, 0xF2, 0x55, // I = 0x400; store V0..V2
        0x60, 0x00, 0x61, 0x00, 0x62, 0x00, // clobber
        0xA4, 0x00, 0xF2, 0x65, // I = 0x400; load V0..V2
    ]);
    run(&mut d, 6);
    assert_eq!(d.index(), 0x403);
    assert_eq!(d.memory_at(0x400), 0x11);
    assert_eq!(d.memory_at(0x402), 0x33);
    assert_eq!(d.memory_at(0x403), 0);
    run(&mut d, 5);
    assert_eq!(d.index(), 0x403);
    assert_eq!(d.register(0), 0x11);
    assert_eq!(d.register(1), 0x22);
    assert_eq!(d.register(2), 0x33);
    assert_eq!(d.register(3), 0x44);
}

#[test]
fn store_past_memory_end_is_a_fault() {
    let mut d = machine(&[0xAF, 0xFE, 0xF2, 0x55]);
    run(&mut d, 1);
    assert_eq!(d.step(0).unwrap_err().kind, FaultKind::MemoryOutOfRange);
    assert_eq!(d.index(), 0xFFE);
}

#[test]
fn add_to_index_overflowing_sixteen_bits_is_a_fault() {
    // I = 0xFFF, V0 = 0xFF, then I += V0 241 times
    let mut program = vec![0xAF, 0xFF, 0x60, 0xFF];
    for _ in 0..241 {
        program.extend_from_slice(&[0xF0, 0x1E]);
    }
    let mut d = machine(&program);
    run(&mut d, 2 + 240);
    assert_eq!(d.index(), 0xFF0F);
    assert_eq!(d.step(0).unwrap_err().kind, FaultKind::MemoryOutOfRange);
    assert_eq!(d.index(), 0xFF0F);
}

#[test]
fn skips() {
    // V0 = 5; skip if V0 == 5; (skipped) V1 = 1; skip if V0 != 5; V2 = 2
    let mut d = machine(&[0x60, 0x05, 0x30, 0x05, 0x61, 0x01, 0x40, 0x05, 0x62, 0x02]);
    run(&mut d, 2);
    assert_eq!(d.pc(), 0x206);
    run(&mut d, 2);
    assert_eq!(d.register(1), 0);
    assert_eq!(d.register(2), 2);

    // V0 = 3; V1 = 3; skip if V0 == V1; skip if V0 != V1
    let mut d = machine(&[0x60, 0x03, 0x61, 0x03, 0x50, 0x10, 0x00, 0x00, 0x90, 0x10]);
    run(&mut d, 3);
    assert_eq!(d.pc(), 0x208);
    run(&mut d, 1);
    assert_eq!(d.pc(), 0x20A);
}

#[test]
fn key_skips() {
    let mut d = machine(&[0x60, 0x07, 0xE0, 0x9E, 0x00, 0x00, 0xE0, 0xA1]);
    d.handle_key(7, true);
    run(&mut d, 2);
    assert_eq!(d.pc(), 0x206);
    run(&mut d, 1);
    assert_eq!(d.pc(), 0x208);
}

#[test]
fn key_beyond_keypad_is_a_fault() {
    let mut d = machine(&[0x60, 0x20, 0xE0, 0x9E]);
    run(&mut d, 1);
    assert_eq!(d.step(0).unwrap_err().kind, FaultKind::KeyOutOfRange);
}

#[test]
fn jump_with_offset() {
    let mut d = machine(&[0x60, 0x10, 0xB3, 0x00]);
    run(&mut d, 2);
    assert_eq!(d.pc(), 0x310);
}

#[test]
fn random_is_masked() {
    let mut d = machine(&[0xC0, 0xF0, 0xC1, 0x00]);
    assert_eq!(d.step(0xAB), Ok(false));
    assert_eq!(d.register(0), 0xA0);
    assert_eq!(d.tick(), Ok(false));
    assert_eq!(d.register(1), 0);
}

#[test]
fn timers_set_read_and_count_down() {
    let mut d = machine(&[0x60, 0x02, 0xF0, 0x15, 0xF0, 0x18, 0xF1, 0x07]);
    run(&mut d, 4);
    assert_eq!(d.delay_timer(), 2);
    assert_eq!(d.sound_timer(), 2);
    assert_eq!(d.register(1), 2);
    d.handle_delay();
    assert!(d.handle_sound());
    d.handle_delay();
    assert!(d.handle_sound());
    d.handle_delay();
    assert!(!d.handle_sound());
    assert_eq!(d.delay_timer(), 0);
    assert_eq!(d.sound_timer(), 0);
}

#[test]
fn draw_sets_collision_flag() {
    // I = font of 0; draw at (V0, V1) twice
    let mut d = machine(&[0xA0, 0x00, 0xD0, 0x15, 0xD0, 0x15]);
    run(&mut d, 1);
    assert_eq!(d.step(0), Ok(true));
    assert_eq!(d.register(0xF), 0);
    assert!(d.screen().pixel(0, 0));
    assert!(!d.screen().pixel(4, 0));
    assert_eq!(d.step(0), Ok(true));
    assert_eq!(d.register(0xF), 1);
    assert!(d.screen().refresh().iter().all(|p| !p));
}

#[test]
fn clear_then_refresh_is_unlit() {
    let mut d = machine(&[0xA0, 0x00, 0xD0, 0x15, 0x00, 0xE0]);
    run(&mut d, 2);
    assert!(d.screen().refresh().iter().any(|p| *p));
    assert_eq!(d.step(0), Ok(true));
    assert!(d.screen().refresh().iter().all(|p| !p));
}

#[test]
fn sprite_read_past_memory_is_a_fault() {
    let mut d = machine(&[0xAF, 0xFC, 0xD0, 0x05]);
    run(&mut d, 1);
    assert_eq!(d.step(0).unwrap_err().kind, FaultKind::MemoryOutOfRange);
}

#[test]
fn load_truncates_long_programs() {
    let rom = vec![0xAAu8; 4000];
    let mut d = Device::new();
    assert_eq!(d.load(&rom), 0xDFF);
    assert_eq!(d.memory_at(0x200), 0xAA);
    assert_eq!(d.memory_at(0xFFE), 0xAA);
    assert_eq!(d.memory_at(0xFFF), 0);
    assert_eq!(d.memory_at(0), 0xF0);
    assert_eq!(d.memory_at(79), 0x80);
    assert_eq!(d.memory_at(80), 0);
}

#[test]
fn new_machine_state() {
    let d = Device::new();
    assert_eq!(d.pc(), 0x200);
    assert_eq!(d.index(), 0);
    assert_eq!(d.stack_depth(), 0);
    assert_eq!(d.key_wait(), KeyWait::Running);
    assert_eq!(d.memory_at(0), 0);
    assert!(d.screen().refresh().iter().all(|p| !p));
    assert_eq!(d.screen().refresh().len(), 2048);
}
