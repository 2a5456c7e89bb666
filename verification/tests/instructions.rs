use chip8::chip8_cpu::System;
use chip8::debug::get_opcode_description;
use chip8::model::Chip8Error;

/// Write one opcode at 0x200 and leave the program counter there.
fn with_op(hi: u8, lo: u8) -> System {
    let mut chip = System::default();
    chip.memory[0x200] = hi;
    chip.memory[0x201] = lo;
    chip
}

#[test]
fn test_load_immediate_advances_pc() {
    let mut chip = with_op(0x6A, 0x02);

    assert!(chip.step().is_ok());

    assert_eq!(chip.registers[0xA], 2);
    assert_eq!(chip.program_counter, 0x202);
}

#[test]
fn test_load_index_advances_pc() {
    let mut chip = with_op(0xA2, 0xEA);

    assert!(chip.step().is_ok());

    assert_eq!(chip.index_register, 0x2EA);
    assert_eq!(chip.program_counter, 0x202);
}

#[test]
fn test_jump_sets_pc_exactly() {
    let mut chip = with_op(0x13, 0x45);

    assert!(chip.step().is_ok());

    assert_eq!(chip.program_counter, 0x345);
}

#[test]
fn test_jump_with_offset_adds_v0() {
    let mut chip = with_op(0xB3, 0x00);
    chip.registers[0] = 0x21;

    assert!(chip.step().is_ok());

    assert_eq!(chip.program_counter, 0x321);
}

#[test]
fn test_call_then_return() {
    let mut chip = with_op(0x22, 0x10);
    chip.memory[0x210] = 0x00;
    chip.memory[0x211] = 0xEE;

    assert!(chip.step().is_ok());
    assert_eq!(chip.program_counter, 0x210);
    assert_eq!(chip.stack_pointer, 1);

    assert!(chip.step().is_ok());
    assert_eq!(chip.program_counter, 0x202);
    assert_eq!(chip.stack_pointer, 0);
}

#[test]
fn test_sixteen_calls_then_overflow() {
    let mut chip = with_op(0x22, 0x00); // call 0x200: each step calls itself

    for depth in 1..=16u8 {
        assert!(chip.step().is_ok());
        assert_eq!(chip.stack_pointer, depth);
    }
    assert_eq!(chip.step(), Err(Chip8Error::StackOverflow));
    assert_eq!(chip.stack_pointer, 16);

    // now unwind: sixteen returns succeed, one more underflows
    chip.memory[0x200] = 0x00;
    chip.memory[0x201] = 0xEE;
    for depth in (0..16u8).rev() {
        let r = chip.step();
        assert!(r.is_ok());
        assert_eq!(chip.stack_pointer, depth);
        chip.program_counter = 0x200;
    }
    assert_eq!(chip.step(), Err(Chip8Error::StackUnderflow));
    assert_eq!(chip.stack_pointer, 0);
}

#[test]
fn test_skip_if_equal_constant() {
    let mut chip = with_op(0x3A, 0x07);
    chip.registers[0xA] = 0x07;
    assert!(chip.step().is_ok());
    assert_eq!(chip.program_counter, 0x204);

    let mut chip = with_op(0x3A, 0x07);
    chip.registers[0xA] = 0x08;
    assert!(chip.step().is_ok());
    assert_eq!(chip.program_counter, 0x202);
}

#[test]
fn test_skip_if_not_equal_constant() {
    let mut chip = with_op(0x4A, 0x07);
    chip.registers[0xA] = 0x08;
    assert!(chip.step().is_ok());
    assert_eq!(chip.program_counter, 0x204);

    let mut chip = with_op(0x4A, 0x07);
    chip.registers[0xA] = 0x07;
    assert!(chip.step().is_ok());
    assert_eq!(chip.program_counter, 0x202);
}

#[test]
fn test_skip_on_register_comparison() {
    let mut chip = with_op(0x5A, 0xB0);
    chip.registers[0xA] = 3;
    chip.registers[0xB] = 3;
    assert!(chip.step().is_ok());
    assert_eq!(chip.program_counter, 0x204);

    let mut chip = with_op(0x9A, 0xB0);
    chip.registers[0xA] = 3;
    chip.registers[0xB] = 4;
    assert!(chip.step().is_ok());
    assert_eq!(chip.program_counter, 0x204);

    let mut chip = with_op(0x9A, 0xB0);
    chip.registers[0xA] = 3;
    chip.registers[0xB] = 3;
    assert!(chip.step().is_ok());
    assert_eq!(chip.program_counter, 0x202);
}

#[test]
fn test_add_immediate_wraps_and_keeps_flag() {
    let mut chip = with_op(0x7A, 0x05);
    chip.memory[0x202] = 0x7A;
    chip.memory[0x203] = 0xFF;
    chip.registers[0xF] = 9; // must stay untouched

    assert!(chip.step().is_ok());
    assert_eq!(chip.registers[0xA], 5);

    assert!(chip.step().is_ok());
    assert_eq!(chip.registers[0xA], 4); // (5 + 255) mod 256
    assert_eq!(chip.registers[0xF], 9);
}

#[test]
fn test_alu_assign_or_and_xor() {
    let mut chip = with_op(0x8A, 0xB0);
    chip.registers[0xB] = 0x5C;
    assert!(chip.step().is_ok());
    assert_eq!(chip.registers[0xA], 0x5C);

    let mut chip = with_op(0x8A, 0xB1);
    chip.registers[0xA] = 0xF0;
    chip.registers[0xB] = 0x0C;
    assert!(chip.step().is_ok());
    assert_eq!(chip.registers[0xA], 0xFC);

    let mut chip = with_op(0x8A, 0xB2);
    chip.registers[0xA] = 0xF6;
    chip.registers[0xB] = 0x1C;
    assert!(chip.step().is_ok());
    assert_eq!(chip.registers[0xA], 0x14);

    let mut chip = with_op(0x8A, 0xB3);
    chip.registers[0xA] = 0xF0;
    chip.registers[0xB] = 0xFC;
    assert!(chip.step().is_ok());
    assert_eq!(chip.registers[0xA], 0x0C);
}

#[test]
fn test_add_register_sets_carry() {
    let mut chip = with_op(0x8A, 0xB4);
    chip.registers[0xA] = 250;
    chip.registers[0xB] = 10;
    assert!(chip.step().is_ok());
    assert_eq!(chip.registers[0xA], 4);
    assert_eq!(chip.registers[0xF], 1);

    let mut chip = with_op(0x8A, 0xB4);
    chip.registers[0xA] = 250;
    chip.registers[0xB] = 5;
    chip.registers[0xF] = 1; // cleared on a carry-free add
    assert!(chip.step().is_ok());
    assert_eq!(chip.registers[0xA], 255);
    assert_eq!(chip.registers[0xF], 0);
}

#[test]
fn test_subtract_register_sets_borrow_flag() {
    let mut chip = with_op(0x8A, 0xB5);
    chip.registers[0xA] = 10;
    chip.registers[0xB] = 3;
    assert!(chip.step().is_ok());
    assert_eq!(chip.registers[0xA], 7);
    assert_eq!(chip.registers[0xF], 1); // no borrow

    let mut chip = with_op(0x8A, 0xB5);
    chip.registers[0xA] = 3;
    chip.registers[0xB] = 10;
    assert!(chip.step().is_ok());
    assert_eq!(chip.registers[0xA], 249); // wrapped
    assert_eq!(chip.registers[0xF], 0); // borrowed
}

#[test]
fn test_subtract_reversed() {
    let mut chip = with_op(0x8A, 0xB7);
    chip.registers[0xA] = 3;
    chip.registers[0xB] = 10;
    assert!(chip.step().is_ok());
    assert_eq!(chip.registers[0xA], 7);
    assert_eq!(chip.registers[0xF], 1);

    let mut chip = with_op(0x8A, 0xB7);
    chip.registers[0xA] = 10;
    chip.registers[0xB] = 3;
    assert!(chip.step().is_ok());
    assert_eq!(chip.registers[0xA], 249);
    assert_eq!(chip.registers[0xF], 0);
}

#[test]
fn test_shifts_capture_the_shifted_bit() {
    let mut chip = with_op(0x8A, 0x06);
    chip.registers[0xA] = 5;
    assert!(chip.step().is_ok());
    assert_eq!(chip.registers[0xA], 2);
    assert_eq!(chip.registers[0xF], 1);

    let mut chip = with_op(0x8A, 0x0E);
    chip.registers[0xA] = 0x81;
    assert!(chip.step().is_ok());
    assert_eq!(chip.registers[0xA], 0x02);
    assert_eq!(chip.registers[0xF], 1);
}

#[test]
fn test_random_is_masked_and_deterministic() {
    let mut chip = with_op(0xCA, 0x00);
    chip.registers[0xA] = 0x77;
    assert!(chip.step().is_ok());
    assert_eq!(chip.registers[0xA], 0); // any byte masked with 0 is 0

    let mut first = with_op(0xCA, 0xFF);
    let mut second = with_op(0xCA, 0xFF);
    assert!(first.step().is_ok());
    assert!(second.step().is_ok());
    assert_eq!(first.registers[0xA], second.registers[0xA]);

    let mut chip = with_op(0xCA, 0x0F);
    assert!(chip.step().is_ok());
    assert!(chip.registers[0xA] < 16);
}

#[test]
fn test_draw_twice_restores_and_collides() {
    let mut chip = with_op(0xDA, 0xB1);
    chip.memory[0x300] = 0xFF; // all-set one-row sprite
    chip.index_register = 0x300;
    chip.registers[0xA] = 8;
    chip.registers[0xB] = 4;

    assert!(chip.step().is_ok());
    for col in 0..8 {
        assert!(chip.get_pixel(8 + col, 4));
    }
    assert_eq!(chip.registers[0xF], 0);

    chip.program_counter = 0x200;
    assert!(chip.step().is_ok());
    for col in 0..8 {
        assert!(!chip.get_pixel(8 + col, 4));
    }
    assert_eq!(chip.registers[0xF], 1);
}

#[test]
fn test_draw_wraps_at_the_edges() {
    let mut chip = with_op(0xDA, 0xB2);
    chip.memory[0x300] = 0x80; // leftmost pixel of each row
    chip.memory[0x301] = 0x80;
    chip.index_register = 0x300;
    chip.registers[0xA] = 63;
    chip.registers[0xB] = 31;

    assert!(chip.step().is_ok());

    assert!(chip.get_pixel(63, 31));
    assert!(chip.get_pixel(63, 0)); // second row wrapped to the top
}

#[test]
fn test_draw_coordinates_reduce_modulo_screen() {
    let mut chip = with_op(0xDA, 0xB1);
    chip.memory[0x300] = 0x80;
    chip.index_register = 0x300;
    chip.registers[0xA] = 64 + 3;
    chip.registers[0xB] = 32 + 5;

    assert!(chip.step().is_ok());

    assert!(chip.get_pixel(3, 5));
}

#[test]
fn test_draw_past_memory_end_is_rejected() {
    let mut chip = with_op(0xDA, 0xBF);
    chip.index_register = 4090; // 15 sprite bytes would reach past 4095

    assert_eq!(chip.step(), Err(Chip8Error::AddressOutOfRange));
    assert_eq!(chip.program_counter, 0x200);
}

#[test]
fn test_clear_screen() {
    let mut chip = with_op(0xDA, 0xB1);
    chip.memory[0x300] = 0xFF;
    chip.index_register = 0x300;
    assert!(chip.step().is_ok());
    assert!(chip.get_pixel(0, 0));

    chip.memory[0x202] = 0x00;
    chip.memory[0x203] = 0xE0;
    assert!(chip.step().is_ok());
    for x in 0..64 {
        for y in 0..32 {
            assert!(!chip.get_pixel(x, y));
        }
    }
}

#[test]
fn test_skip_on_key_state() {
    let mut chip = with_op(0xEA, 0x9E);
    chip.registers[0xA] = 4;
    chip.set_key(4, true).unwrap();
    assert!(chip.step().is_ok());
    assert_eq!(chip.program_counter, 0x204);

    let mut chip = with_op(0xEA, 0x9E);
    chip.registers[0xA] = 4;
    assert!(chip.step().is_ok());
    assert_eq!(chip.program_counter, 0x202);

    let mut chip = with_op(0xEA, 0xA1);
    chip.registers[0xA] = 4;
    assert!(chip.step().is_ok());
    assert_eq!(chip.program_counter, 0x204);
}

#[test]
fn test_wait_for_key_blocks_until_pressed() {
    let mut chip = with_op(0xFA, 0x0A);

    assert!(chip.step().is_ok());
    assert_eq!(chip.program_counter, 0x200); // still waiting

    assert!(chip.step().is_ok());
    assert_eq!(chip.program_counter, 0x200); // and again

    chip.set_key(0xB, true).unwrap();
    assert!(chip.step().is_ok());
    assert_eq!(chip.registers[0xA], 0xB);
    assert_eq!(chip.program_counter, 0x202);
}

#[test]
fn test_timer_instructions() {
    let mut chip = with_op(0xFA, 0x15);
    chip.registers[0xA] = 42;
    assert!(chip.step().is_ok());
    assert_eq!(chip.delay_timer, 42);

    chip.memory[0x202] = 0xFB;
    chip.memory[0x203] = 0x07;
    chip.tick();
    assert!(chip.step().is_ok());
    assert_eq!(chip.registers[0xB], 41);

    chip.memory[0x204] = 0xFA;
    chip.memory[0x205] = 0x18;
    assert!(chip.step().is_ok());
    assert_eq!(chip.sound_timer, 42);
}

#[test]
fn test_add_to_index_wraps_in_16_bits() {
    let mut chip = with_op(0xFA, 0x1E);
    chip.index_register = 0x2E0;
    chip.registers[0xA] = 0x20;
    chip.registers[0xF] = 7;
    assert!(chip.step().is_ok());
    assert_eq!(chip.index_register, 0x300);
    assert_eq!(chip.registers[0xF], 7); // flag untouched

    let mut chip = with_op(0xFA, 0x1E);
    chip.index_register = 0xFFFF;
    chip.registers[0xA] = 2;
    assert!(chip.step().is_ok());
    assert_eq!(chip.index_register, 1);
}

#[test]
fn test_glyph_index_points_at_sprite() {
    let mut chip = with_op(0xFA, 0x29);
    chip.registers[0xA] = 0xC;

    assert!(chip.step().is_ok());

    assert_eq!(chip.index_register, 60);
}

#[test]
fn test_store_bcd_digits() {
    let mut chip = with_op(0xFA, 0x33);
    chip.registers[0xA] = 255;
    chip.index_register = 0x300;

    assert!(chip.step().is_ok());

    assert_eq!(chip.memory[0x300], 2);
    assert_eq!(chip.memory[0x301], 5);
    assert_eq!(chip.memory[0x302], 5);
}

#[test]
fn test_store_bcd_past_memory_end_is_rejected() {
    let mut chip = with_op(0xFA, 0x33);
    chip.index_register = 4094;

    assert_eq!(chip.step(), Err(Chip8Error::AddressOutOfRange));
    assert_eq!(chip.memory[4094], 0);
}

#[test]
fn test_store_registers_inclusive() {
    let mut chip = with_op(0xF2, 0x55);
    chip.registers[0] = 11;
    chip.registers[1] = 22;
    chip.registers[2] = 33;
    chip.registers[3] = 44; // past the range, must not be stored
    chip.index_register = 0x300;

    assert!(chip.step().is_ok());

    assert_eq!(chip.memory[0x300], 11);
    assert_eq!(chip.memory[0x301], 22);
    assert_eq!(chip.memory[0x302], 33);
    assert_eq!(chip.memory[0x303], 0);
}

#[test]
fn test_load_registers_each_from_own_offset() {
    let mut chip = with_op(0xF2, 0x65);
    chip.memory[0x300] = 11;
    chip.memory[0x301] = 22;
    chip.memory[0x302] = 33;
    chip.memory[0x303] = 44;
    chip.index_register = 0x300;

    assert!(chip.step().is_ok());

    assert_eq!(chip.registers[0], 11);
    assert_eq!(chip.registers[1], 22);
    assert_eq!(chip.registers[2], 33);
    assert_eq!(chip.registers[3], 0); // past the range, must not be loaded
}

#[test]
fn test_register_range_past_memory_end_is_rejected() {
    let mut chip = with_op(0xFF, 0x65);
    chip.index_register = 4081; // 16 registers would reach past 4095

    assert_eq!(chip.step(), Err(Chip8Error::AddressOutOfRange));
    assert_eq!(chip.registers[0], 0);
}

#[test]
fn test_opcode_descriptions() {
    assert_eq!(get_opcode_description(0x00, 0xE0), "Clear screen");
    assert_eq!(get_opcode_description(0x00, 0xEE), "Return from subroutine");
    assert_eq!(get_opcode_description(0x6A, 0x02), "Set register to constant");
    assert_eq!(
        get_opcode_description(0xDA, 0xB1),
        "Draw sprite at register coordinates"
    );
    assert_eq!(get_opcode_description(0x5A, 0xB1), "Invalid opcode");
}
