use c8_core::{Emu, Fault, SCREEN_HEIGHT, SCREEN_WIDTH};

fn machine_with(program: &[u8]) -> Emu {
    let mut emu = Emu::new();
    emu.load(program).unwrap();
    emu
}

fn run(emu: &mut Emu, steps: usize) {
    for _ in 0..steps {
        emu.tick().unwrap();
    }
}

fn pixel(emu: &Emu, x: usize, y: usize) -> bool {
    emu.get_display()[x + SCREEN_WIDTH * y]
}

#[test]
fn new_machine_holds_glyphs_and_starts_at_load_address() {
    let emu = Emu::new();
    assert_eq!(emu.pc(), 0x200);
    let zero: Vec<u8> = (0..5).map(|a| emu.memory(a)).collect();
    assert_eq!(zero, vec![0xF0, 0x90, 0x90, 0x90, 0xF0]);
    let f: Vec<u8> = (75..80).map(|a| emu.memory(a)).collect();
    assert_eq!(f, vec![0xF0, 0x80, 0xF0, 0x80, 0x80]);
    assert_eq!(emu.memory(80), 0);
    assert_eq!(emu.get_display().len(), SCREEN_WIDTH * SCREEN_HEIGHT);
    assert!(emu.get_display().iter().all(|p| !p));
    assert_eq!(emu.stack_depth(), 0);
    assert_eq!(emu.index(), 0);
}

#[test]
fn add_sets_carry() {
    let mut emu = machine_with(&[0x60, 0xFF, 0x61, 0x01, 0x80, 0x14]);
    run(&mut emu, 3);
    assert_eq!(emu.register(0), 0x00);
    assert_eq!(emu.register(0xF), 1);
}

#[test]
fn add_without_carry_clears_flag() {
    let mut emu = machine_with(&[0x60, 0x10, 0x61, 0x01, 0x6F, 0x07, 0x80, 0x14]);
    run(&mut emu, 4);
    assert_eq!(emu.register(0), 0x11);
    assert_eq!(emu.register(0xF), 0);
}

#[test]
fn sub_sets_borrow() {
    let mut emu = machine_with(&[0x60, 0x01, 0x61, 0x02, 0x80, 0x15]);
    run(&mut emu, 3);
    assert_eq!(emu.register(0), 0xFF);
    assert_eq!(emu.register(0xF), 0);
}

#[test]
fn sub_without_borrow_sets_flag() {
    let mut emu = machine_with(&[0x60, 0x05, 0x61, 0x02, 0x80, 0x15]);
    run(&mut emu, 3);
    assert_eq!(emu.register(0), 0x03);
    assert_eq!(emu.register(0xF), 1);
}

#[test]
fn reverse_sub_and_logic_ops() {
    let mut emu = machine_with(&[
        0x60, 0x05, 0x61, 0x03, 0x80, 0x17, // V0 = V1 - V0 = 0xFE, borrow
        0x62, 0xF0, 0x63, 0x3C, 0x82, 0x31, // V2 = 0xF0 | 0x3C
        0x64, 0xF0, 0x84, 0x32, // V4 = 0xF0 & 0x3C
        0x65, 0xF0, 0x85, 0x33, // V5 = 0xF0 ^ 0x3C
        0x86, 0x30, // V6 = V3
    ]);
    run(&mut emu, 3);
    assert_eq!(emu.register(0), 0xFE);
    assert_eq!(emu.register(0xF), 0);
    run(&mut emu, 8);
    assert_eq!(emu.register(2), 0xFC);
    assert_eq!(emu.register(4), 0x30);
    assert_eq!(emu.register(5), 0xCC);
    assert_eq!(emu.register(6), 0x3C);
}

#[test]
fn shifts_put_shifted_out_bit_in_flag() {
    let mut emu = machine_with(&[0x60, 0x81, 0x80, 0x06, 0x61, 0x81, 0x81, 0x0E]);
    run(&mut emu, 2);
    assert_eq!(emu.register(0), 0x40);
    assert_eq!(emu.register(0xF), 1);
    run(&mut emu, 2);
    assert_eq!(emu.register(1), 0x02);
    assert_eq!(emu.register(0xF), 1);
}

#[test]
fn add_immediate_wraps_without_flag() {
    let mut emu = machine_with(&[0x6F, 0x05, 0x60, 0xFE, 0x70, 0x03]);
    run(&mut emu, 3);
    assert_eq!(emu.register(0), 0x01);
    assert_eq!(emu.register(0xF), 5);
}

#[test]
fn bcd_stores_decimal_digits() {
    let mut emu = machine_with(&[0x60, 157, 0xA3, 0x00, 0xF0, 0x33]);
    run(&mut emu, 3);
    assert_eq!(emu.memory(0x300), 1);
    assert_eq!(emu.memory(0x301), 5);
    assert_eq!(emu.memory(0x302), 7);
}

#[test]
fn bcd_past_end_of_memory_faults() {
    let mut emu = machine_with(&[0xAF, 0xFE, 0xF0, 0x33]);
    run(&mut emu, 1);
    assert_eq!(emu.tick(), Err(Fault::Addressing { addr: 0x1000 }));
    assert_eq!(emu.pc(), 0x204);
    assert_eq!(emu.index(), 0xFFE);
}

#[test]
fn delay_timer_saturates_at_zero() {
    let mut emu = machine_with(&[0x60, 0x01, 0xF0, 0x15]);
    run(&mut emu, 2);
    assert_eq!(emu.delay_timer(), 1);
    emu.tick_timers();
    assert_eq!(emu.delay_timer(), 0);
    emu.tick_timers();
    assert_eq!(emu.delay_timer(), 0);
}

#[test]
fn timers_count_down_independently() {
    let mut emu = machine_with(&[0x60, 0x03, 0xF0, 0x18, 0x61, 0x01, 0xF1, 0x15, 0xF2, 0x07]);
    run(&mut emu, 5);
    assert_eq!(emu.sound_timer(), 3);
    assert_eq!(emu.delay_timer(), 1);
    assert_eq!(emu.register(2), 1);
    emu.tick_timers();
    emu.tick_timers();
    assert_eq!(emu.sound_timer(), 1);
    assert_eq!(emu.delay_timer(), 0);
}

#[test]
fn key_wait_stalls_until_a_key_is_pressed() {
    let mut emu = machine_with(&[0xF3, 0x0A]);
    run(&mut emu, 1);
    assert_eq!(emu.pc(), 0x200);
    emu.keypress(5, true);
    run(&mut emu, 1);
    assert_eq!(emu.register(3), 5);
    assert_eq!(emu.pc(), 0x202);
}

#[test]
fn key_wait_takes_lowest_pressed_key() {
    let mut emu = machine_with(&[0xF3, 0x0A]);
    emu.keypress(9, true);
    emu.keypress(2, true);
    run(&mut emu, 1);
    assert_eq!(emu.register(3), 2);
}

#[test]
fn key_skips_follow_key_state() {
    let mut emu = machine_with(&[0x60, 0x04, 0xE0, 0x9E, 0x00, 0x00, 0xE0, 0xA1]);
    emu.keypress(4, true);
    run(&mut emu, 2);
    assert_eq!(emu.pc(), 0x206);
    run(&mut emu, 1);
    assert_eq!(emu.pc(), 0x208);
    emu.keypress(4, false);
    let mut emu2 = machine_with(&[0x60, 0x04, 0xE0, 0xA1]);
    run(&mut emu2, 2);
    assert_eq!(emu2.pc(), 0x206);
}

#[test]
fn key_test_on_missing_key_faults() {
    let mut emu = machine_with(&[0x60, 0x20, 0xE0, 0x9E]);
    run(&mut emu, 1);
    assert_eq!(emu.tick(), Err(Fault::KeyIndex { key: 0x20 }));
    assert_eq!(emu.pc(), 0x204);
}

#[test]
fn load_filling_memory_succeeds_and_one_more_byte_is_refused() {
    let mut emu = Emu::new();
    let full = vec![0xAB; 4096 - 0x200];
    assert_eq!(emu.load(&full), Ok(()));
    assert_eq!(emu.memory(0x200), 0xAB);
    assert_eq!(emu.memory(4095), 0xAB);

    let mut other = Emu::new();
    let too_big = vec![0xCD; 4096 - 0x200 + 1];
    assert_eq!(other.load(&too_big), Err(Fault::Capacity { len: 4096 - 0x200 + 1 }));
    let fresh = Emu::new();
    for a in 0..4096 {
        assert_eq!(other.memory(a), fresh.memory(a));
    }
}

#[test]
fn redrawing_a_sprite_erases_it_and_reports_collision() {
    let mut emu = machine_with(&[
        0x00, 0xE0, 0xA0, 0x00, 0x60, 10, 0x61, 5, 0xD0, 0x15, 0xD0, 0x15,
    ]);
    run(&mut emu, 5);
    assert_eq!(emu.register(0xF), 0);
    assert!(pixel(&emu, 10, 5));
    assert!(pixel(&emu, 13, 9));
    assert!(!pixel(&emu, 11, 6));
    run(&mut emu, 1);
    assert_eq!(emu.register(0xF), 1);
    assert!(emu.get_display().iter().all(|p| !p));
}

#[test]
fn sprite_wraps_round_both_edges() {
    let mut emu = machine_with(&[
        0xA2, 0x0A, 0x60, 60, 0x61, 31, 0xD0, 0x12, 0x12, 0x08, 0xFF, 0xFF,
    ]);
    run(&mut emu, 4);
    for x in [60, 61, 62, 63, 0, 1, 2, 3] {
        assert!(pixel(&emu, x, 31));
        assert!(pixel(&emu, x, 0));
    }
    assert!(!pixel(&emu, 4, 31));
    assert!(!pixel(&emu, 59, 0));
    assert!(!pixel(&emu, 0, 1));
    let lit = emu.get_display().iter().filter(|p| **p).count();
    assert_eq!(lit, 16);
    assert_eq!(emu.register(0xF), 0);
}

#[test]
fn call_then_return_resumes_after_call() {
    let mut emu = machine_with(&[0x22, 0x06, 0x00, 0x00, 0x00, 0x00, 0x00, 0xEE]);
    run(&mut emu, 1);
    assert_eq!(emu.pc(), 0x206);
    assert_eq!(emu.stack_depth(), 1);
    run(&mut emu, 1);
    assert_eq!(emu.pc(), 0x202);
    assert_eq!(emu.stack_depth(), 0);
}

#[test]
fn return_with_empty_stack_faults() {
    let mut emu = machine_with(&[0x00, 0xEE]);
    assert_eq!(emu.tick(), Err(Fault::StackUnderflow));
    assert_eq!(emu.pc(), 0x202);
    assert_eq!(emu.stack_depth(), 0);
}

#[test]
fn seventeenth_nested_call_faults() {
    let mut emu = machine_with(&[0x22, 0x00]);
    run(&mut emu, 16);
    assert_eq!(emu.stack_depth(), 16);
    assert_eq!(emu.tick(), Err(Fault::StackOverflow));
    assert_eq!(emu.stack_depth(), 16);
    assert_eq!(emu.pc(), 0x202);
}

#[test]
fn unknown_opcode_faults_with_word_and_address() {
    let mut emu = machine_with(&[0x00, 0x00, 0xFF, 0xFF]);
    run(&mut emu, 1);
    assert_eq!(emu.tick(), Err(Fault::UnknownOpcode { op: 0xFFFF, pc: 0x204 }));
    assert_eq!(emu.pc(), 0x204);
    let mut emu2 = machine_with(&[0x01, 0x23]);
    assert_eq!(emu2.tick(), Err(Fault::UnknownOpcode { op: 0x0123, pc: 0x202 }));
    assert_eq!(emu2.pc(), 0x202);
    let mut emu3 = machine_with(&[0x80, 0x18]);
    assert_eq!(emu3.tick(), Err(Fault::UnknownOpcode { op: 0x8018, pc: 0x202 }));
}

#[test]
fn fetch_past_end_of_memory_faults() {
    let mut emu = machine_with(&[0x1F, 0xFF]);
    run(&mut emu, 1);
    assert_eq!(emu.pc(), 0xFFF);
    assert_eq!(emu.tick(), Err(Fault::Addressing { addr: 0x1000 }));
    assert_eq!(emu.pc(), 0xFFF);
}

#[test]
fn execute_runs_one_word_without_fetching() {
    let mut emu = Emu::new();
    assert_eq!(emu.execute(0x6A42, 0), Ok(()));
    assert_eq!(emu.register(0xA), 0x42);
    assert_eq!(emu.pc(), 0x200);
    assert_eq!(emu.execute(0xC3F0, 0x5A), Ok(()));
    assert_eq!(emu.register(3), 0x50);
    assert_eq!(emu.execute(0x5121, 0), Err(Fault::UnknownOpcode { op: 0x5121, pc: 0x200 }));
    assert_eq!(emu.pc(), 0x200);
}

#[test]
fn same_program_gives_same_state() {
    let program = [0x60, 0x07, 0xA0, 0x0A, 0xD0, 0x05, 0x71, 0x09, 0x81, 0x04, 0xF1, 0x29];
    let mut a = machine_with(&program);
    let mut b = machine_with(&program);
    run(&mut a, 6);
    run(&mut b, 6);
    assert_eq!(a.get_display(), b.get_display());
    for r in 0..16 {
        assert_eq!(a.register(r), b.register(r));
    }
    assert_eq!(a.pc(), b.pc());
    assert_eq!(a.index(), b.index());
    assert_eq!(a.index(), 80);
}

#[test]
fn random_byte_is_masked() {
    let mut emu = machine_with(&[0xC0, 0x0F, 0xC1, 0x00]);
    assert_eq!(emu.tick_with(0xAB), Ok(()));
    assert_eq!(emu.register(0), 0x0B);
    run(&mut emu, 1);
    assert_eq!(emu.register(1), 0);
    let mut other = machine_with(&[0xC0, 0x0F]);
    run(&mut other, 1);
    assert!(other.register(0) <= 0x0F);
}

#[test]
fn skips_and_jumps() {
    let mut emu = machine_with(&[
        0x60, 0x05, 0x30, 0x05, 0x00, 0x00, 0x40, 0x05, 0x61, 0x05, 0x50, 0x10, 0x00, 0x00,
        0x90, 0x10, 0xB2, 0x00,
    ]);
    run(&mut emu, 2);
    assert_eq!(emu.pc(), 0x206);
    run(&mut emu, 1);
    assert_eq!(emu.pc(), 0x208);
    run(&mut emu, 2);
    assert_eq!(emu.pc(), 0x20E);
    run(&mut emu, 1);
    assert_eq!(emu.pc(), 0x210);
    run(&mut emu, 1);
    assert_eq!(emu.pc(), 0x205);
}

#[test]
fn store_and_load_register_blocks() {
    let mut emu = machine_with(&[
        0x60, 0x11, 0x61, 0x22, 0x62, 0x33, 0xA3, 0x00, 0xF1, 0x55, 0x60, 0x00, 0x61, 0x00,
        0x62, 0x00, 0xF2, 0x65, 0x63, 0x02, 0xF3, 0x1E,
    ]);
    run(&mut emu, 5);
    assert_eq!(emu.memory(0x300), 0x11);
    assert_eq!(emu.memory(0x301), 0x22);
    assert_eq!(emu.memory(0x302), 0x00);
    run(&mut emu, 4);
    assert_eq!(emu.register(0), 0x11);
    assert_eq!(emu.register(1), 0x22);
    assert_eq!(emu.register(2), 0x00);
    run(&mut emu, 2);
    assert_eq!(emu.index(), 0x302);
}

#[test]
fn reset_restores_initial_state() {
    let mut emu = machine_with(&[0x60, 0x07, 0xA0, 0x00, 0xD0, 0x05, 0xF0, 0x15, 0x22, 0x00]);
    emu.keypress(3, true);
    run(&mut emu, 5);
    emu.reset();
    let fresh = Emu::new();
    assert_eq!(emu.pc(), 0x200);
    assert_eq!(emu.get_display(), fresh.get_display());
    assert_eq!(emu.delay_timer(), 0);
    assert_eq!(emu.stack_depth(), 0);
    assert_eq!(emu.index(), 0);
    for a in 0..4096 {
        assert_eq!(emu.memory(a), fresh.memory(a));
    }
    for r in 0..16 {
        assert_eq!(emu.register(r), 0);
    }
}
