use chip8::chip8_cpu::{encode_to_bcd, System};
use chip8::model::Chip8Error;

/*0x6XNN where X = Register number and NN is the constant value*/
#[test]
fn test_register_set() {
    let mut chip = System::default();
    chip.memory[0x200] = 0x6A;
    chip.memory[0x201] = 0x02;

    let _ = chip.run_op_at(0x200);

    assert_eq!(chip.registers[0xA], 2);
}

#[test]
fn test_set_index_register() {
    let mut chip = System::default();
    chip.memory[0x200] = 0xA2;
    chip.memory[0x201] = 0xEA;

    let _ = chip.run_op_at(0x200);

    assert_eq!(chip.index_register, 746);
}

#[test]
fn test_load_program_places_bytes() {
    let mut chip = System::default();
    let program: Vec<u8> = vec![0x12, 0x34, 0x56, 0x78];

    assert!(chip.load_program(&program).is_ok());

    for (offset, byte) in program.iter().enumerate() {
        assert_eq!(chip.memory[0x200 + offset], *byte);
    }
    assert_eq!(chip.memory[0x1FF], 0);
    assert_eq!(chip.memory[0x204], 0);
    assert_eq!(chip.program_counter, 0x200);
}

#[test]
fn test_load_program_largest_fit() {
    let mut chip = System::default();
    let program: Vec<u8> = vec![0xAB; 4096 - 0x200];

    assert!(chip.load_program(&program).is_ok());

    assert_eq!(chip.memory[0x200], 0xAB);
    assert_eq!(chip.memory[4095], 0xAB);
}

#[test]
fn test_load_program_too_long_is_rejected() {
    let mut chip = System::default();
    let program: Vec<u8> = vec![0xAB; 4096 - 0x200 + 1];

    assert_eq!(chip.load_program(&program), Err(Chip8Error::AddressOutOfRange));

    assert_eq!(chip.memory[0x200], 0);
}

#[test]
fn test_fontset_glyph_bytes() {
    let mut chip = System::default();
    chip.setup_fontset();

    // glyph 0 starts the table, glyph 1 sits at offset 5, glyph F ends it
    assert_eq!(chip.memory[0], 0xF0);
    assert_eq!(
        &chip.memory[5..10],
        &[0x20, 0x60, 0x20, 0x20, 0x70][..]
    );
    assert_eq!(chip.memory[79], 0x80);
    // memory past the fontset is untouched
    assert_eq!(chip.memory[80], 0);
}

#[test]
fn test_encode_to_bcd_digits() {
    assert_eq!(encode_to_bcd(255), (2, 5, 5));
    assert_eq!(encode_to_bcd(146), (1, 4, 6));
    assert_eq!(encode_to_bcd(7), (0, 0, 7));
    assert_eq!(encode_to_bcd(0), (0, 0, 0));
}

#[test]
fn test_read_and_write_byte() {
    let mut chip = System::default();

    assert!(chip.write_byte(0x300, 0x5C).is_ok());
    assert_eq!(chip.read_byte(0x300), Ok(0x5C));
    assert_eq!(chip.write_byte(4096, 1), Err(Chip8Error::AddressOutOfRange));
    assert_eq!(chip.read_byte(4096), Err(Chip8Error::AddressOutOfRange));
}

#[test]
fn test_read_slice() {
    let mut chip = System::default();
    chip.memory[0x250] = 1;
    chip.memory[0x251] = 2;
    chip.memory[0x252] = 3;

    assert_eq!(chip.read_slice(0x250, 3), Ok(vec![1, 2, 3]));
    assert_eq!(chip.read_slice(4094, 3), Err(Chip8Error::AddressOutOfRange));
    assert_eq!(chip.read_slice(4094, 2), Ok(vec![0, 0]));
}

#[test]
fn test_register_accessors() {
    let mut chip = System::default();

    assert!(chip.set_register(0xF, 0x99).is_ok());
    assert_eq!(chip.get_register(0xF), Ok(0x99));
    assert_eq!(chip.set_register(16, 1), Err(Chip8Error::IndexOutOfRange));
    assert_eq!(chip.get_register(16), Err(Chip8Error::IndexOutOfRange));
}

#[test]
fn test_keypad_accessors() {
    let mut chip = System::default();

    assert_eq!(chip.key_pressed(4), Ok(false));
    assert!(chip.set_key(4, true).is_ok());
    assert_eq!(chip.key_pressed(4), Ok(true));
    assert!(chip.set_key(4, false).is_ok());
    assert_eq!(chip.key_pressed(4), Ok(false));
    assert_eq!(chip.set_key(16, true), Err(Chip8Error::IndexOutOfRange));
    assert_eq!(chip.key_pressed(16), Err(Chip8Error::IndexOutOfRange));
}

#[test]
fn test_timer_tick_clamps_at_zero() {
    let mut chip = System::default();
    chip.delay_timer = 5;
    chip.sound_timer = 2;

    for _ in 0..8 {
        chip.tick();
    }

    assert_eq!(chip.delay_timer, 0);
    assert_eq!(chip.sound_timer, 0);
}

#[test]
fn test_sound_active_follows_sound_timer() {
    let mut chip = System::default();
    assert!(!chip.sound_active());

    chip.sound_timer = 1;
    assert!(chip.sound_active());

    chip.tick();
    assert!(!chip.sound_active());
}

#[test]
fn test_fetch_past_end_of_memory() {
    let mut chip = System::default();

    assert_eq!(chip.run_op_at(4095), Err(Chip8Error::AddressOutOfRange));
    assert_eq!(chip.run_op_at(4096), Err(Chip8Error::AddressOutOfRange));
    assert_eq!(chip.program_counter, 0x200);
}

#[test]
fn test_unknown_opcode_reported_and_state_kept() {
    let mut chip = System::default();
    chip.memory[0x200] = 0x5A;
    chip.memory[0x201] = 0xB1; // 5XY1 is not in the instruction table

    assert_eq!(chip.step(), Err(Chip8Error::UnknownOpcode));
    assert_eq!(chip.program_counter, 0x200);

    chip.memory[0x200] = 0x00;
    chip.memory[0x201] = 0xC0; // 00C0 is not in the instruction table
    assert_eq!(chip.step(), Err(Chip8Error::UnknownOpcode));
    assert_eq!(chip.program_counter, 0x200);
}
