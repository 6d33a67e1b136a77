use chip8_core::chip::{Chip, ChipError, ChipType, Keypad, ROM_ADDR};

struct FixedKeypad {
    down: bool,
    key: u8,
}

impl Keypad for FixedKeypad {
    fn is_key_down(&mut self, _key: u8) -> bool {
        self.down
    }

    fn poll_or_await_key_press(&mut self) -> u8 {
        self.key
    }
}

fn chip(chip_type: ChipType) -> Chip {
    Chip::new(chip_type, 0)
}

fn idle() -> FixedKeypad {
    FixedKeypad { down: false, key: 0 }
}

#[test]
fn load_rom_points_the_program_counter_at_the_rom() {
    let mut c = chip(ChipType::SuperChip);
    c.load_rom(&vec![0xD, 0xE, 0xA, 0xD]);
    assert_eq!(c.pc, ROM_ADDR);
}

#[test]
fn step_fetches_decodes_executes_and_refreshes_timers() {
    let mut c = chip(ChipType::SuperChip);
    c.load_rom(&vec![0x6A, 0xBB]);
    c.delay_timer.set(5, 0);

    c.step(&mut idle(), 16).unwrap();

    assert_eq!(c.registers[0xA], 0xBB);
    assert_eq!(c.pc, ROM_ADDR + 2);
    assert_eq!(c.delay_timer.get(), 4);
}

#[test]
fn fetch_past_the_end_of_memory_is_a_bounds_error() {
    let mut c = chip(ChipType::SuperChip);
    c.pc = 4095;
    assert_eq!(c.fetch(), Err(ChipError::MemoryOutOfBounds));
    assert_eq!(c.pc, 4095);

    c.pc = 5000;
    assert_eq!(c.step(&mut idle(), 0), Err(ChipError::MemoryOutOfBounds));
}

#[test]
fn calling_on_a_full_stack_is_a_stack_overflow() {
    let mut c = chip(ChipType::SuperChip);
    for k in 0..32 {
        c.call_at(0x200 + 2 * k).unwrap();
    }
    assert_eq!(c.stack_level, 32);

    let d = c.decode(0x2ABC);
    assert_eq!(c.execute(d, &mut idle(), 0), Err(ChipError::StackOverflow));
    assert_eq!(c.stack_level, 32);
}

#[test]
fn returning_from_an_empty_stack_is_a_stack_underflow() {
    let mut c = chip(ChipType::SuperChip);
    let d = c.decode(0x00EE);
    assert_eq!(c.execute(d, &mut idle(), 0), Err(ChipError::StackUnderflow));
    assert_eq!(c.stack_level, 0);
}

#[test]
fn drawing_a_sprite_that_reads_past_memory_is_a_bounds_error() {
    let mut c = chip(ChipType::SuperChip);
    c.i = 4095;
    let d = c.decode(0xD012);
    assert_eq!(c.execute(d, &mut idle(), 0), Err(ChipError::MemoryOutOfBounds));
}

#[test]
fn a_decimal_store_that_writes_past_memory_is_a_bounds_error() {
    let mut c = chip(ChipType::SuperChip);
    c.i = 4094;
    let d = c.decode(0xFA33);
    assert_eq!(c.execute(d, &mut idle(), 0), Err(ChipError::MemoryOutOfBounds));
}

#[test]
fn a_register_block_store_that_writes_past_memory_is_a_bounds_error() {
    let mut c = chip(ChipType::SuperChip);
    c.i = 4090;
    let d = c.decode(0xFA55);
    assert_eq!(c.execute(d, &mut idle(), 0), Err(ChipError::MemoryOutOfBounds));
}

#[test]
fn unknown_opcodes_execute_as_no_ops() {
    let mut c = chip(ChipType::SuperChip);
    c.pc = 0x300;
    c.registers[0xA] = 7;

    for op in [0x0000u16, 0x0123, 0x5AB1, 0x8AB9, 0xFA99] {
        let d = c.decode(op);
        assert_eq!(c.execute(d, &mut idle(), 0), Ok(()));
    }

    assert_eq!(c.pc, 0x300);
    assert_eq!(c.registers[0xA], 7);
    assert_eq!(c.stack_level, 0);
}

#[test]
fn shift_right_on_the_original_variant_copies_vy_first() {
    let mut c = chip(ChipType::Chip8);
    c.registers[0xA] = 0xFF;
    c.registers[0xB] = 0b1100;

    let d = c.decode(0x8AB6);
    c.execute(d, &mut idle(), 0).unwrap();

    assert_eq!(c.registers[0xA], 0b110);
    assert_eq!(c.registers[0xF], 0);
    assert_eq!(c.registers[0xB], 0b1100);
}

#[test]
fn shift_left_on_the_original_variant_copies_vy_first() {
    let mut c = chip(ChipType::Chip8);
    c.registers[0xA] = 0x00;
    c.registers[0xB] = 0b10000001;

    let d = c.decode(0x8ABE);
    c.execute(d, &mut idle(), 0).unwrap();

    assert_eq!(c.registers[0xA], 0b00000010);
    assert_eq!(c.registers[0xF], 1);
}

#[test]
fn bitwise_instructions_clear_vf_on_the_original_variant_only() {
    let mut c = chip(ChipType::Chip8);
    c.registers[0xA] = 0xF0;
    c.registers[0xB] = 0x0F;
    c.registers[0xF] = 9;
    let d = c.decode(0x8AB1);
    c.execute(d, &mut idle(), 0).unwrap();
    assert_eq!(c.registers[0xF], 0);

    let mut s = chip(ChipType::SuperChip);
    s.registers[0xA] = 0xF0;
    s.registers[0xB] = 0x0F;
    s.registers[0xF] = 9;
    let d = s.decode(0x8AB1);
    s.execute(d, &mut idle(), 0).unwrap();
    assert_eq!(s.registers[0xF], 9);
}

#[test]
fn register_block_transfers_advance_i_on_the_original_variant_only() {
    let mut c = chip(ChipType::Chip8);
    c.i = 0x500;
    let d = c.decode(0xFA55);
    c.execute(d, &mut idle(), 0).unwrap();
    assert_eq!(c.i, 0x50A);

    let mut s = chip(ChipType::SuperChip);
    s.i = 0x500;
    let d = s.decode(0xFA55);
    s.execute(d, &mut idle(), 0).unwrap();
    assert_eq!(s.i, 0x500);
}

#[test]
fn the_masked_random_store_masks_the_drawn_byte() {
    let mut c = chip(ChipType::SuperChip);

    c.apply_random_byte(0xA, 0x0F, 0xFF);
    assert_eq!(c.registers[0xA], 0x0F);

    c.apply_random_byte(0xA, 0x00, 0xFF);
    assert_eq!(c.registers[0xA], 0x00);

    // The instruction itself always lands within the mask.
    let d = c.decode(0xCA03);
    c.execute(d, &mut idle(), 0).unwrap();
    assert!(c.registers[0xA] <= 0x03);
}

#[test]
fn skip_if_key_down_advances_when_the_key_is_held() {
    let mut c = chip(ChipType::SuperChip);
    c.pc = 0x200;
    let d = c.decode(0xEA9E);
    c.execute(d, &mut FixedKeypad { down: true, key: 0 }, 0).unwrap();
    assert_eq!(c.pc, 0x202);
}

#[test]
fn skip_if_key_up_advances_when_the_key_is_not_held() {
    let mut c = chip(ChipType::SuperChip);
    c.pc = 0x200;
    let d = c.decode(0xEAA1);
    c.execute(d, &mut idle(), 0).unwrap();
    assert_eq!(c.pc, 0x202);

    c.pc = 0x200;
    let d = c.decode(0xEAA1);
    c.execute(d, &mut FixedKeypad { down: true, key: 0 }, 0).unwrap();
    assert_eq!(c.pc, 0x200);
}

#[test]
fn await_key_stores_the_reported_key() {
    let mut c = chip(ChipType::SuperChip);
    let d = c.decode(0xFA0A);
    c.execute(d, &mut FixedKeypad { down: false, key: 0xE }, 0).unwrap();
    assert_eq!(c.registers[0xA], 0xE);
}

#[test]
fn drawing_through_the_engine_reports_the_collision_in_vf() {
    let mut c = chip(ChipType::SuperChip);
    c.memory[0x700] = 0xFF;
    c.i = 0x700;
    c.registers[0x1] = 4;
    c.registers[0x2] = 6;

    let d = c.decode(0xD121);
    c.execute(d, &mut idle(), 0).unwrap();
    assert_eq!(c.registers[0xF], 0);
    assert!(c.display.get_pixel(6 * 64 + 4));

    let d = c.decode(0xD121);
    c.execute(d, &mut idle(), 0).unwrap();
    assert_eq!(c.registers[0xF], 1);
    assert!(!c.display.get_pixel(6 * 64 + 4));
}
