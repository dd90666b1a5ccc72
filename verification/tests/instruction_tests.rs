use chip8_core::machine::Chip8;
use chip8_core::step::Fault;

const START: u16 = 0x200;

#[test]
fn new_machine_reset_state() {
    let c = Chip8::new();
    assert_eq!(c.get_pc(), START);
    assert_eq!(c.get_index(), 0);
    assert_eq!(c.get_stack_pointer(), 0);
    assert_eq!(c.get_delay_timer(), 0);
    assert_eq!(c.get_sound_timer(), 0);
    for i in 0..16 {
        assert_eq!(c.get_register(i), 0);
    }
    // Font glyph '0' sits at address 0.
    assert_eq!(c.read_byte(0), 0xF0);
    assert_eq!(c.read_byte(1), 0x90);
    assert_eq!(c.read_byte(4), 0xF0);
    // 80 font bytes, then zeroes.
    assert_eq!(c.read_byte(79), 0x80);
    assert_eq!(c.read_byte(80), 0);
    assert_eq!(c.get_display().len(), 64 * 32);
    assert!(c.get_display().iter().all(|p| !p));
}

#[test]
fn load_places_program_at_start() {
    let mut c = Chip8::new();
    c.load(&[0xAB, 0xCD, 0xEF]);
    assert_eq!(c.read_byte(0x200), 0xAB);
    assert_eq!(c.read_byte(0x201), 0xCD);
    assert_eq!(c.read_byte(0x202), 0xEF);
    assert_eq!(c.read_byte(0x203), 0x00);
    // The font is untouched.
    assert_eq!(c.read_byte(0), 0xF0);
}

#[test]
fn reset_discards_state() {
    let mut c = Chip8::new();
    c.load(&[0x60, 0x05]);
    assert!(c.tick().is_ok());
    c.reset();
    assert_eq!(c.get_pc(), START);
    assert_eq!(c.get_register(0), 0);
    assert_eq!(c.read_byte(0x200), 0);
}

#[test]
fn set_and_add_immediate() {
    let mut c = Chip8::new();
    assert!(c.execute_with(0x6A2B, 0).is_ok()); // VA = 0x2B
    assert_eq!(c.get_register(0xA), 0x2B);
    assert!(c.execute_with(0x7A10, 0).is_ok()); // VA += 0x10
    assert_eq!(c.get_register(0xA), 0x3B);
    // Wraparound, no flag update.
    assert!(c.execute_with(0x6AFF, 0).is_ok());
    assert!(c.execute_with(0x7A02, 0).is_ok());
    assert_eq!(c.get_register(0xA), 0x01);
    assert_eq!(c.get_register(0xF), 0x00);
}

#[test]
fn add_with_carry_sets_flag() {
    let mut c = Chip8::new();
    assert!(c.execute_with(0x60C8, 0).is_ok()); // V0 = 200
    assert!(c.execute_with(0x6164, 0).is_ok()); // V1 = 100
    assert!(c.execute_with(0x8014, 0).is_ok()); // V0 += V1
    assert_eq!(c.get_register(0), 44); // (200 + 100) % 256
    assert_eq!(c.get_register(0xF), 1);
}

#[test]
fn add_without_carry_clears_flag() {
    let mut c = Chip8::new();
    assert!(c.execute_with(0x6F01, 0).is_ok()); // VF starts dirty
    assert!(c.execute_with(0x6005, 0).is_ok());
    assert!(c.execute_with(0x6103, 0).is_ok());
    assert!(c.execute_with(0x8014, 0).is_ok());
    assert_eq!(c.get_register(0), 8);
    assert_eq!(c.get_register(0xF), 0);
}

#[test]
fn subtract_no_borrow_sets_flag() {
    let mut c = Chip8::new();
    assert!(c.execute_with(0x600A, 0).is_ok()); // V0 = 10
    assert!(c.execute_with(0x6103, 0).is_ok()); // V1 = 3
    assert!(c.execute_with(0x8015, 0).is_ok()); // V0 -= V1
    assert_eq!(c.get_register(0), 7);
    assert_eq!(c.get_register(0xF), 1);
}

#[test]
fn subtract_with_borrow_clears_flag() {
    let mut c = Chip8::new();
    assert!(c.execute_with(0x6003, 0).is_ok()); // V0 = 3
    assert!(c.execute_with(0x610A, 0).is_ok()); // V1 = 10
    assert!(c.execute_with(0x8015, 0).is_ok()); // V0 -= V1
    assert_eq!(c.get_register(0), 249); // (3 - 10) mod 256
    assert_eq!(c.get_register(0xF), 0);
}

#[test]
fn subtract_reversed() {
    let mut c = Chip8::new();
    assert!(c.execute_with(0x6003, 0).is_ok()); // V0 = 3
    assert!(c.execute_with(0x610A, 0).is_ok()); // V1 = 10
    assert!(c.execute_with(0x8017, 0).is_ok()); // V0 = V1 - V0
    assert_eq!(c.get_register(0), 7);
    assert_eq!(c.get_register(0xF), 1);
}

#[test]
fn bitwise_ops() {
    let mut c = Chip8::new();
    assert!(c.execute_with(0x60F0, 0).is_ok());
    assert!(c.execute_with(0x613C, 0).is_ok());
    assert!(c.execute_with(0x8011, 0).is_ok()); // OR
    assert_eq!(c.get_register(0), 0xFC);
    assert!(c.execute_with(0x60F0, 0).is_ok());
    assert!(c.execute_with(0x8012, 0).is_ok()); // AND
    assert_eq!(c.get_register(0), 0x30);
    assert!(c.execute_with(0x60F0, 0).is_ok());
    assert!(c.execute_with(0x8013, 0).is_ok()); // XOR
    assert_eq!(c.get_register(0), 0xCC);
    assert!(c.execute_with(0x8010, 0).is_ok()); // copy
    assert_eq!(c.get_register(0), 0x3C);
}

#[test]
fn shifts_report_shifted_bit() {
    let mut c = Chip8::new();
    assert!(c.execute_with(0x6005, 0).is_ok()); // V0 = 0b101
    assert!(c.execute_with(0x8006, 0).is_ok()); // V0 >>= 1
    assert_eq!(c.get_register(0), 2);
    assert_eq!(c.get_register(0xF), 1);
    assert!(c.execute_with(0x60C0, 0).is_ok()); // V0 = 0b1100_0000
    assert!(c.execute_with(0x800E, 0).is_ok()); // V0 <<= 1
    assert_eq!(c.get_register(0), 0x80);
    assert_eq!(c.get_register(0xF), 1);
    assert!(c.execute_with(0x800E, 0).is_ok());
    assert_eq!(c.get_register(0), 0x00);
    assert_eq!(c.get_register(0xF), 1);
    assert!(c.execute_with(0x800E, 0).is_ok());
    assert_eq!(c.get_register(0), 0x00);
    assert_eq!(c.get_register(0xF), 0);
}

#[test]
fn skip_if_equal_immediate() {
    let mut c = Chip8::new();
    assert!(c.execute_with(0x6042, 0).is_ok());
    let pc = c.get_pc();
    assert!(c.execute_with(0x3042, 0).is_ok()); // equal: skip
    assert_eq!(c.get_pc(), pc + 2);
    assert!(c.execute_with(0x3041, 0).is_ok()); // not equal: no skip
    assert_eq!(c.get_pc(), pc + 2);
}

#[test]
fn skip_class_four_mirrors_class_three() {
    // Operation class 4 deliberately skips on equality, like class 3,
    // although the conventional architecture description reads "skip if
    // not equal" there.
    let mut c = Chip8::new();
    assert!(c.execute_with(0x6042, 0).is_ok());
    let pc = c.get_pc();
    assert!(c.execute_with(0x4042, 0).is_ok()); // equal: skips here too
    assert_eq!(c.get_pc(), pc + 2);
    assert!(c.execute_with(0x4041, 0).is_ok());
    assert_eq!(c.get_pc(), pc + 2);
}

#[test]
fn skip_on_register_compare() {
    let mut c = Chip8::new();
    assert!(c.execute_with(0x6007, 0).is_ok());
    assert!(c.execute_with(0x6107, 0).is_ok());
    let pc = c.get_pc();
    assert!(c.execute_with(0x5010, 0).is_ok()); // V0 == V1: skip
    assert_eq!(c.get_pc(), pc + 2);
    assert!(c.execute_with(0x9010, 0).is_ok()); // V0 != V1 fails: no skip
    assert_eq!(c.get_pc(), pc + 2);
    assert!(c.execute_with(0x6208, 0).is_ok());
    assert!(c.execute_with(0x9020, 0).is_ok()); // V0 != V2: skip
    assert_eq!(c.get_pc(), pc + 4);
}

#[test]
fn jump_and_jump_offset() {
    let mut c = Chip8::new();
    assert!(c.execute_with(0x1ABC, 0).is_ok());
    assert_eq!(c.get_pc(), 0xABC);
    assert!(c.execute_with(0x6005, 0).is_ok()); // V0 = 5
    assert!(c.execute_with(0xB300, 0).is_ok()); // jump V0 + 0x300
    assert_eq!(c.get_pc(), 0x305);
}

#[test]
fn call_and_return_restore_pc_and_sp() {
    let mut c = Chip8::new();
    assert_eq!(c.get_pc(), 0x200);
    assert!(c.execute_with(0x2ABC, 0).is_ok());
    assert_eq!(c.get_pc(), 0xABC);
    assert_eq!(c.get_stack_pointer(), 1);
    assert!(c.execute_with(0x00EE, 0).is_ok());
    assert_eq!(c.get_pc(), 0x200);
    assert_eq!(c.get_stack_pointer(), 0);
}

#[test]
fn push_then_pop_round_trip() {
    let mut c = Chip8::new();
    assert!(c.push(0x123).is_ok());
    assert_eq!(c.get_stack_pointer(), 1);
    assert_eq!(c.pop(), Ok(0x123));
    assert_eq!(c.get_stack_pointer(), 0);
}

#[test]
fn return_on_empty_stack_underflows() {
    let mut c = Chip8::new();
    assert_eq!(c.execute_with(0x00EE, 0), Err(Fault::StackUnderflow));
    // The machine is unchanged.
    assert_eq!(c.get_pc(), 0x200);
    assert_eq!(c.get_stack_pointer(), 0);
}

#[test]
fn seventeenth_call_overflows() {
    let mut c = Chip8::new();
    for _ in 0..16 {
        assert!(c.execute_with(0x2ABC, 0).is_ok());
    }
    assert_eq!(c.get_stack_pointer(), 16);
    assert_eq!(c.execute_with(0x2ABC, 0), Err(Fault::StackOverflow));
    assert_eq!(c.get_stack_pointer(), 16);
}

#[test]
fn invalid_instruction_faults() {
    let mut c = Chip8::new();
    assert_eq!(c.execute_with(0x5013, 0), Err(Fault::InvalidInstruction));
    assert_eq!(c.execute_with(0x800A, 0), Err(Fault::InvalidInstruction));
    assert_eq!(c.execute_with(0xE0A2, 0), Err(Fault::InvalidInstruction));
    assert_eq!(c.execute_with(0xF0FF, 0), Err(Fault::InvalidInstruction));
    assert_eq!(c.execute_with(0x0123, 0), Err(Fault::InvalidInstruction));
}

#[test]
fn random_immediate_masks_random_byte() {
    let mut c = Chip8::new();
    assert!(c.execute_with(0xC00F, 0xAB).is_ok());
    assert_eq!(c.get_register(0), 0xAB & 0x0F);
    assert!(c.execute_with(0xC1FF, 0x5C).is_ok());
    assert_eq!(c.get_register(1), 0x5C);
    assert!(c.execute_with(0xC200, 0x77).is_ok());
    assert_eq!(c.get_register(2), 0);
}

#[test]
fn timer_transfers() {
    let mut c = Chip8::new();
    assert!(c.execute_with(0x602A, 0).is_ok());
    assert!(c.execute_with(0xF015, 0).is_ok()); // DT = V0
    assert_eq!(c.get_delay_timer(), 0x2A);
    assert!(c.execute_with(0xF018, 0).is_ok()); // ST = V0
    assert_eq!(c.get_sound_timer(), 0x2A);
    assert!(c.execute_with(0xF107, 0).is_ok()); // V1 = DT
    assert_eq!(c.get_register(1), 0x2A);
}

#[test]
fn timer_tick_saturates_at_zero() {
    let mut c = Chip8::new();
    assert_eq!(c.get_delay_timer(), 0);
    c.tick_timers();
    assert_eq!(c.get_delay_timer(), 0);
    assert_eq!(c.get_sound_timer(), 0);
    assert!(c.execute_with(0x6002, 0).is_ok());
    assert!(c.execute_with(0xF015, 0).is_ok());
    c.tick_timers();
    assert_eq!(c.get_delay_timer(), 1);
    c.tick_timers();
    assert_eq!(c.get_delay_timer(), 0);
    c.tick_timers();
    assert_eq!(c.get_delay_timer(), 0);
}

#[test]
fn index_register_ops() {
    let mut c = Chip8::new();
    assert!(c.execute_with(0xA123, 0).is_ok());
    assert_eq!(c.get_index(), 0x123);
    assert!(c.execute_with(0x6005, 0).is_ok());
    assert!(c.execute_with(0xF01E, 0).is_ok()); // I += V0
    assert_eq!(c.get_index(), 0x128);
    assert!(c.execute_with(0x600B, 0).is_ok()); // V0 = 0xB
    assert!(c.execute_with(0xF029, 0).is_ok()); // I = font address of 0xB
    assert_eq!(c.get_index(), 55);
}

#[test]
fn decimal_decomposition() {
    let mut c = Chip8::new();
    assert!(c.execute_with(0x60EA, 0).is_ok()); // V0 = 234
    assert!(c.execute_with(0xA300, 0).is_ok());
    assert!(c.execute_with(0xF033, 0).is_ok());
    assert_eq!(c.read_byte(0x300), 2);
    assert_eq!(c.read_byte(0x301), 3);
    assert_eq!(c.read_byte(0x302), 4);
    assert!(c.execute_with(0x6007, 0).is_ok()); // V0 = 7
    assert!(c.execute_with(0xF033, 0).is_ok());
    assert_eq!(c.read_byte(0x300), 0);
    assert_eq!(c.read_byte(0x301), 0);
    assert_eq!(c.read_byte(0x302), 7);
}

#[test]
fn decimal_decomposition_out_of_range() {
    let mut c = Chip8::new();
    assert!(c.execute_with(0x6963, 0).is_ok()); // some register work first
    assert!(c.execute_with(0xAFFE, 0).is_ok()); // I = 0xFFE
    assert_eq!(c.execute_with(0xF033, 0), Err(Fault::OutOfRange));
}

#[test]
fn store_and_load_register_block() {
    let mut c = Chip8::new();
    assert!(c.execute_with(0x6011, 0).is_ok());
    assert!(c.execute_with(0x6122, 0).is_ok());
    assert!(c.execute_with(0x6233, 0).is_ok());
    assert!(c.execute_with(0xA400, 0).is_ok());
    assert!(c.execute_with(0xF255, 0).is_ok()); // store V0..=V2
    assert_eq!(c.read_byte(0x400), 0x11);
    assert_eq!(c.read_byte(0x401), 0x22);
    assert_eq!(c.read_byte(0x402), 0x33);
    assert_eq!(c.read_byte(0x403), 0x00);
    let mut d = Chip8::new();
    assert!(d.execute_with(0xA000, 0).is_ok()); // I = 0: font glyph '0'
    assert!(d.execute_with(0xF165, 0).is_ok()); // load V0..=V1
    assert_eq!(d.get_register(0), 0xF0);
    assert_eq!(d.get_register(1), 0x90);
    assert_eq!(d.get_register(2), 0x00);
}

#[test]
fn store_register_block_out_of_range() {
    let mut c = Chip8::new();
    assert!(c.execute_with(0xAFFF, 0).is_ok());
    assert_eq!(c.execute_with(0xF155, 0), Err(Fault::OutOfRange));
    assert_eq!(c.execute_with(0xF165, 0), Err(Fault::OutOfRange));
}

#[test]
fn key_skip_instructions() {
    let mut c = Chip8::new();
    assert!(c.execute_with(0x6007, 0).is_ok()); // V0 = key 7
    let pc = c.get_pc();
    assert!(c.execute_with(0xE09E, 0).is_ok()); // key 7 not pressed: no skip
    assert_eq!(c.get_pc(), pc);
    assert!(c.execute_with(0xE0A1, 0).is_ok()); // released: skip
    assert_eq!(c.get_pc(), pc + 2);
    c.keypress(7, true);
    assert!(c.execute_with(0xE09E, 0).is_ok()); // pressed: skip
    assert_eq!(c.get_pc(), pc + 4);
    assert!(c.execute_with(0xE0A1, 0).is_ok()); // pressed: no skip
    assert_eq!(c.get_pc(), pc + 4);
    // A register value beyond the 16 keys is an out-of-range access.
    assert!(c.execute_with(0x6010, 0).is_ok());
    assert_eq!(c.execute_with(0xE09E, 0), Err(Fault::OutOfRange));
}

#[test]
fn fetch_combines_big_endian_and_advances() {
    let mut c = Chip8::new();
    c.load(&[0x12, 0x34, 0xAB, 0xCD]);
    assert_eq!(c.fetch(), Ok(0x1234));
    assert_eq!(c.get_pc(), 0x202);
    assert_eq!(c.fetch(), Ok(0xABCD));
    assert_eq!(c.get_pc(), 0x204);
}

#[test]
fn execute_runs_deterministic_instructions() {
    let mut c = Chip8::new();
    assert!(c.execute(0x6041).is_ok());
    assert_eq!(c.get_register(0), 0x41);
    // A zero mask blanks the random byte, whatever it was.
    assert!(c.execute(0xC100).is_ok());
    assert_eq!(c.get_register(1), 0);
    assert_eq!(c.execute(0x800A), Err(Fault::InvalidInstruction));
}

#[test]
fn key_wait_rewinds_until_pressed() {
    let mut c = Chip8::new();
    let pc = c.get_pc();
    assert!(c.execute_with(0xF00A, 0).is_ok()); // no key: rewind
    assert_eq!(c.get_pc(), pc.wrapping_sub(2));
    c.keypress(0xC, true);
    c.keypress(0x3, true);
    let pc2 = c.get_pc();
    assert!(c.execute_with(0xF00A, 0).is_ok());
    assert_eq!(c.get_pc(), pc2); // no rewind
    assert_eq!(c.get_register(0), 0x3); // lowest pressed key wins
}
