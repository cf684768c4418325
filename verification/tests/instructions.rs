use chip8::machine::{Chip8, FONTS};

fn machine_with(program: &[u8]) -> Chip8 {
    let mut chip = Chip8::new();
    chip.load(program.to_vec());
    chip
}

fn step(chip: &mut Chip8) {
    assert!(chip.can_execute());
    chip.execute_with_random(0);
}

#[test]
fn new_machine_holds_fonts_and_starts_at_0x200() {
    let chip = Chip8::new();
    assert_eq!(chip.pc, 0x200);
    assert_eq!(chip.sp, 0);
    assert_eq!(chip.ir, 0);
    assert!(!chip.draw_flag);
    for i in 0..80 {
        assert_eq!(chip.memory[i], FONTS[i] as i8);
    }
    assert_eq!(chip.memory[0], 0xF0u8 as i8);
    assert_eq!(chip.memory[79], 0x80u8 as i8);
    assert!(chip.memory[80..].iter().all(|&b| b == 0));
    assert!(chip.gfx.iter().all(|&p| p == 0));
    assert!(chip.vr.iter().all(|&v| v == 0));
}

#[test]
fn load_copies_rom_from_program_start() {
    let chip = machine_with(&[0x12, 0x34, 0xFF]);
    assert_eq!(chip.memory[0x1FF], 0);
    assert_eq!(chip.memory[0x200], 0x12);
    assert_eq!(chip.memory[0x201], 0x34);
    assert_eq!(chip.memory[0x202], -1);
    assert_eq!(chip.memory[0x203], 0);
    assert_eq!(chip.memory[5], FONTS[5] as i8);
}

#[test]
fn load_fills_memory_to_the_end() {
    let rom = vec![7u8; 4096 - 0x200];
    let mut chip = Chip8::new();
    chip.load(rom);
    assert_eq!(chip.memory[4095], 7);
    assert_eq!(chip.memory[0x200], 7);
}

#[test]
fn set_register_and_add_wraps() {
    let mut chip = machine_with(&[0x63, 0x2A, 0x73, 0x70, 0x63, 0xFF, 0x73, 0x02]);
    step(&mut chip);
    assert_eq!(chip.vr[3], 42);
    assert_eq!(chip.pc, 0x202);
    step(&mut chip);
    // 42 + 112 = 154 wraps to -102 as a signed byte
    assert_eq!(chip.vr[3], -102);
    step(&mut chip);
    assert_eq!(chip.vr[3], -1);
    step(&mut chip);
    assert_eq!(chip.vr[3], 1);
    assert_eq!(chip.vr[15], 0);
}

#[test]
fn clear_screen_then_jump() {
    let mut chip = machine_with(&[0x00, 0xE0, 0x1A, 0xBC]);
    chip.gfx[0] = 1;
    chip.gfx[2047] = 1;
    chip.vr[3] = 9;
    step(&mut chip);
    assert!(chip.gfx.iter().all(|&p| p == 0));
    assert!(chip.draw_flag);
    assert_eq!(chip.vr[3], 9);
    assert_eq!(chip.pc, 0x202);
    step(&mut chip);
    assert_eq!(chip.pc, 0xABC);
}

#[test]
fn other_system_calls_do_nothing() {
    let mut chip = machine_with(&[0x01, 0x23]);
    chip.gfx[0] = 1;
    step(&mut chip);
    assert_eq!(chip.gfx[0], 1);
    assert_eq!(chip.pc, 0x202);
}

#[test]
fn call_then_return_resumes_after_call() {
    // 0x200: call 0x206; 0x206: return
    let mut chip = machine_with(&[0x22, 0x06, 0x00, 0x00, 0x00, 0x00, 0x00, 0xEE]);
    step(&mut chip);
    assert_eq!(chip.pc, 0x206);
    assert_eq!(chip.sp, 1);
    assert_eq!(chip.stack[1], 0x202);
    step(&mut chip);
    assert_eq!(chip.pc, 0x202);
    assert_eq!(chip.sp, 0);
}

#[test]
fn return_with_empty_stack_is_refused() {
    let chip = machine_with(&[0x00, 0xEE]);
    assert!(!chip.can_execute());
}

#[test]
fn call_with_full_stack_is_refused() {
    let mut chip = machine_with(&[0x22, 0x00]);
    chip.sp = 14;
    assert!(chip.can_execute());
    chip.sp = 15;
    assert!(!chip.can_execute());
}

#[test]
fn skips_on_register_comparisons() {
    let mut chip = machine_with(&[0x31, 0x05]);
    chip.vr[1] = 5;
    step(&mut chip);
    assert_eq!(chip.pc, 0x204);

    let mut chip = machine_with(&[0x31, 0x05]);
    chip.vr[1] = 6;
    step(&mut chip);
    assert_eq!(chip.pc, 0x202);

    let mut chip = machine_with(&[0x41, 0x05]);
    chip.vr[1] = 6;
    step(&mut chip);
    assert_eq!(chip.pc, 0x204);

    let mut chip = machine_with(&[0x51, 0x20]);
    chip.vr[1] = 9;
    chip.vr[2] = 9;
    step(&mut chip);
    assert_eq!(chip.pc, 0x204);

    let mut chip = machine_with(&[0x91, 0x20]);
    chip.vr[1] = 9;
    chip.vr[2] = 9;
    step(&mut chip);
    assert_eq!(chip.pc, 0x202);
}

#[test]
fn skip_compares_immediate_as_signed_byte() {
    let mut chip = machine_with(&[0x31, 0xFF]);
    chip.vr[1] = -1;
    step(&mut chip);
    assert_eq!(chip.pc, 0x204);
}

#[test]
fn logic_operations() {
    let mut chip = machine_with(&[0x80, 0x11, 0x82, 0x12, 0x83, 0x13, 0x84, 0x10]);
    chip.vr[0] = 0b0101;
    chip.vr[1] = 0b0011;
    chip.vr[2] = 0b0110;
    chip.vr[3] = 0b1111;
    chip.vr[4] = 0;
    step(&mut chip);
    assert_eq!(chip.vr[0], 0b0111);
    step(&mut chip);
    assert_eq!(chip.vr[2], 0b0010);
    step(&mut chip);
    assert_eq!(chip.vr[3], 0b1100);
    step(&mut chip);
    assert_eq!(chip.vr[4], 0b0011);
    assert_eq!(chip.pc, 0x208);
}

#[test]
fn add_registers_flags_carry() {
    let mut chip = machine_with(&[0x80, 0x14]);
    chip.vr[0] = 100;
    chip.vr[1] = 100;
    step(&mut chip);
    assert_eq!(chip.vr[0] as u8, 200);
    assert_eq!(chip.vr[15], 0);

    let mut chip = machine_with(&[0x80, 0x14]);
    chip.vr[0] = 0xFFu8 as i8;
    chip.vr[1] = 0x01;
    step(&mut chip);
    assert_eq!(chip.vr[0], 0);
    assert_eq!(chip.vr[15], 1);

    let mut chip = machine_with(&[0x80, 0x14]);
    chip.vr[0] = -1;
    chip.vr[1] = -1;
    step(&mut chip);
    assert_eq!(chip.vr[0] as u8, 0xFE);
    assert_eq!(chip.vr[15], 1);
}

#[test]
fn subtract_sets_flag_when_no_borrow() {
    let mut chip = machine_with(&[0x80, 0x15]);
    chip.vr[0] = 10;
    chip.vr[1] = 3;
    step(&mut chip);
    assert_eq!(chip.vr[0], 7);
    assert_eq!(chip.vr[15], 1);

    let mut chip = machine_with(&[0x80, 0x15]);
    chip.vr[0] = 3;
    chip.vr[1] = 10;
    step(&mut chip);
    assert_eq!(chip.vr[0], (249u8) as i8);
    assert_eq!(chip.vr[15], 0);

    let mut chip = machine_with(&[0x80, 0x17]);
    chip.vr[0] = 3;
    chip.vr[1] = 10;
    step(&mut chip);
    assert_eq!(chip.vr[0], 7);
    assert_eq!(chip.vr[15], 1);
}

#[test]
fn shifts_move_the_dropped_bit_to_vf() {
    let mut chip = machine_with(&[0x80, 0x06]);
    chip.vr[0] = 0b0000_0101;
    step(&mut chip);
    assert_eq!(chip.vr[0], 0b10);
    assert_eq!(chip.vr[15], 1);

    let mut chip = machine_with(&[0x80, 0x0E]);
    chip.vr[0] = 0x81u8 as i8;
    step(&mut chip);
    assert_eq!(chip.vr[0], 0x02);
    assert_eq!(chip.vr[15], 1);

    // shifting VF itself: the flag is written first, then shifted
    let mut chip = machine_with(&[0x8F, 0x06]);
    chip.vr[15] = 0b11;
    step(&mut chip);
    assert_eq!(chip.vr[15], 0);
}

#[test]
fn unknown_alu_operation_is_refused() {
    let chip = machine_with(&[0x80, 0x18]);
    assert!(!chip.can_execute());
}

#[test]
fn index_and_offset_jump() {
    let mut chip = machine_with(&[0xA1, 0x23, 0xB3, 0x00]);
    step(&mut chip);
    assert_eq!(chip.ir, 0x123);
    chip.vr[0] = 4;
    step(&mut chip);
    assert_eq!(chip.pc, 0x304);
}

#[test]
fn offset_jump_reads_v0_unsigned() {
    let mut chip = machine_with(&[0xB0, 0x00]);
    chip.vr[0] = 0xFFu8 as i8;
    step(&mut chip);
    assert_eq!(chip.pc, 0x00FF);

    let mut chip = machine_with(&[0xBF, 0xFF]);
    chip.vr[0] = 0xFFu8 as i8;
    step(&mut chip);
    assert_eq!(chip.pc, 0x10FE);
}

#[test]
fn random_is_masked() {
    let mut chip = machine_with(&[0xC2, 0x0F, 0xC3, 0xF0]);
    chip.execute_with_random(0x5A);
    assert_eq!(chip.vr[2], 0x0A);
    chip.execute_with_random(0x5A);
    assert_eq!(chip.vr[3], 0x50);
    assert_eq!(chip.pc, 0x204);
}

#[test]
fn random_instruction_keeps_within_mask() {
    let mut chip = machine_with(&[0xC2, 0x0F]);
    assert!(chip.can_execute());
    chip.execute();
    assert_eq!(chip.vr[2] & !0x0F, 0);
    assert_eq!(chip.pc, 0x202);
}

#[test]
fn execute_agrees_with_execute_with_random_off_cxnn() {
    let mut a = machine_with(&[0x63, 0x2A, 0x73, 0x01]);
    let mut b = machine_with(&[0x63, 0x2A, 0x73, 0x01]);
    for _ in 0..2 {
        a.execute();
        b.execute_with_random(17);
    }
    assert_eq!(a.vr, b.vr);
    assert_eq!(a.pc, b.pc);
}

#[test]
fn rand_byte_runs() {
    let chip = Chip8::new();
    let _ = chip.rand_byte();
}

#[test]
fn draw_glyph_and_collision() {
    // I = glyph of 0 (F0 90 90 90 F0), draw 5 rows at (V0, V1) = (2, 3)
    let mut chip = machine_with(&[0xA0, 0x00, 0xD0, 0x15, 0xD0, 0x15]);
    chip.vr[0] = 2;
    chip.vr[1] = 3;
    step(&mut chip);
    step(&mut chip);
    assert!(chip.draw_flag);
    assert_eq!(chip.vr[15], 0);
    // row 0: 0xF0 lights columns 2..6
    for col in 0..8 {
        let lit = if col < 4 { 1 } else { 0 };
        assert_eq!(chip.gfx[(2 + col) + 3 * 64], lit);
    }
    // row 1: 0x90 lights columns 2 and 5
    assert_eq!(chip.gfx[2 + 4 * 64], 1);
    assert_eq!(chip.gfx[3 + 4 * 64], 0);
    assert_eq!(chip.gfx[5 + 4 * 64], 1);
    let lit: i32 = chip.gfx.iter().map(|&p| p as i32).sum();
    assert_eq!(lit, 4 + 2 + 2 + 2 + 4);
    // drawing again erases it and reports the collision
    step(&mut chip);
    assert_eq!(chip.vr[15], 1);
    assert!(chip.gfx.iter().all(|&p| p == 0));
    assert_eq!(chip.pc, 0x206);
}

#[test]
fn draw_wraps_around_screen_edges() {
    let mut chip = machine_with(&[0xA0, 0x00, 0xD0, 0x11]);
    chip.vr[0] = 62;
    chip.vr[1] = 31;
    step(&mut chip);
    step(&mut chip);
    // 0xF0 at x = 62: columns 62, 63, 0, 1 of row 31
    assert_eq!(chip.gfx[62 + 31 * 64], 1);
    assert_eq!(chip.gfx[63 + 31 * 64], 1);
    assert_eq!(chip.gfx[31 * 64], 1);
    assert_eq!(chip.gfx[1 + 31 * 64], 1);
    assert_eq!(chip.gfx[2 + 31 * 64], 0);
}

#[test]
fn draw_zero_rows_only_clears_vf() {
    let mut chip = machine_with(&[0xD0, 0x10]);
    chip.vr[15] = 1;
    step(&mut chip);
    assert_eq!(chip.vr[15], 0);
    assert!(!chip.draw_flag);
    assert!(chip.gfx.iter().all(|&p| p == 0));
}

#[test]
fn draw_reads_coordinates_unsigned() {
    // I = glyph of 0, whose first row is 0xF0; VX = 0xFF is column 63
    let mut chip = machine_with(&[0xD0, 0x11]);
    chip.vr[0] = 0xFFu8 as i8;
    chip.vr[1] = 0xFFu8 as i8;
    step(&mut chip);
    assert_eq!(chip.gfx[63 + 31 * 64], 1);
    assert_eq!(chip.gfx[31 * 64], 1);
    assert_eq!(chip.gfx[1 + 31 * 64], 1);
    assert_eq!(chip.gfx[2 + 31 * 64], 1);
    assert_eq!(chip.gfx[3 + 31 * 64], 0);
}

#[test]
fn draw_past_memory_is_refused() {
    let mut chip = machine_with(&[0xD0, 0x12]);
    chip.ir = 4095;
    assert!(!chip.can_execute());
    chip.ir = 4094;
    assert!(chip.can_execute());
}

#[test]
fn key_skips() {
    let mut chip = machine_with(&[0xE1, 0x9E]);
    chip.vr[1] = 7;
    chip.key[7] = 1;
    step(&mut chip);
    assert_eq!(chip.pc, 0x204);

    let mut chip = machine_with(&[0xE1, 0xA1]);
    chip.vr[1] = 7;
    step(&mut chip);
    assert_eq!(chip.pc, 0x204);

    let mut chip = machine_with(&[0xE1, 0xA1]);
    chip.vr[1] = 7;
    chip.key[7] = 1;
    step(&mut chip);
    assert_eq!(chip.pc, 0x202);
}

#[test]
fn key_skip_with_bad_key_is_refused() {
    let mut chip = machine_with(&[0xE1, 0x9E]);
    chip.vr[1] = 16;
    assert!(!chip.can_execute());
    let chip = machine_with(&[0xE1, 0x00]);
    assert!(!chip.can_execute());
}

#[test]
fn wait_for_key() {
    let mut chip = machine_with(&[0xF4, 0x0A]);
    step(&mut chip);
    assert_eq!(chip.pc, 0x200);
    chip.key[9] = 1;
    chip.key[12] = 1;
    step(&mut chip);
    assert_eq!(chip.vr[4], 9);
    assert_eq!(chip.pc, 0x202);
}

#[test]
fn timers_from_and_to_registers() {
    let mut chip = machine_with(&[0xF1, 0x15, 0xF2, 0x18, 0xF3, 0x07]);
    chip.vr[1] = 60;
    chip.vr[2] = -1;
    step(&mut chip);
    assert_eq!(chip.delay_timer, 60);
    step(&mut chip);
    assert_eq!(chip.sound_timer, 255);
    chip.delay_timer = 200;
    step(&mut chip);
    assert_eq!(chip.vr[3], 200u8 as i8);
}

#[test]
fn add_to_index() {
    let mut chip = machine_with(&[0xF1, 0x1E, 0xF1, 0x1E]);
    chip.ir = 10;
    chip.vr[1] = 0xFFu8 as i8;
    step(&mut chip);
    assert_eq!(chip.ir, 265);
    chip.ir = i16::MAX - 0xFF;
    assert!(chip.can_execute());
    chip.ir = i16::MAX - 0xFE;
    assert!(!chip.can_execute());
}

#[test]
fn font_address_uses_low_nibble() {
    let mut chip = machine_with(&[0xF1, 0x29]);
    chip.vr[1] = 0x3A;
    step(&mut chip);
    assert_eq!(chip.ir, 50);
    assert_eq!(chip.memory[50], 0xF0u8 as i8);
    assert_eq!(chip.memory[54], 0x90u8 as i8);
}

#[test]
fn binary_coded_decimal() {
    let mut chip = machine_with(&[0xF1, 0x33]);
    chip.ir = 0x300;
    chip.vr[1] = 254u8 as i8;
    step(&mut chip);
    assert_eq!(chip.memory[0x300], 2);
    assert_eq!(chip.memory[0x301], 5);
    assert_eq!(chip.memory[0x302], 4);
    assert_eq!(chip.ir, 0x300);
}

#[test]
fn binary_coded_decimal_past_memory_is_refused() {
    let mut chip = machine_with(&[0xF1, 0x33]);
    chip.ir = 4094;
    assert!(!chip.can_execute());
    chip.ir = -1;
    assert!(!chip.can_execute());
}

#[test]
fn store_and_load_registers() {
    let mut chip = machine_with(&[0xF3, 0x55, 0xF3, 0x65]);
    chip.ir = 0x400;
    chip.vr[0] = 1;
    chip.vr[1] = 2;
    chip.vr[2] = 3;
    chip.vr[3] = 4;
    chip.vr[4] = 5;
    step(&mut chip);
    assert_eq!(&chip.memory[0x400..0x405], &[1, 2, 3, 4, 0]);
    chip.vr = [0; 16];
    step(&mut chip);
    assert_eq!(&chip.vr[0..5], &[1, 2, 3, 4, 0]);
    assert_eq!(chip.ir, 0x400);
}

#[test]
fn unknown_misc_instruction_is_refused() {
    let chip = machine_with(&[0xF0, 0x99]);
    assert!(!chip.can_execute());
}

#[test]
fn fetch_past_memory_is_refused() {
    let mut chip = Chip8::new();
    chip.pc = 4095;
    assert!(!chip.can_execute());
    chip.pc = 4094;
    assert!(chip.can_execute());
}
