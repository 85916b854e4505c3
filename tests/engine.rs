use chip8::framebuffer::{DISPLAY_HEIGHT, DISPLAY_WIDTH};
use chip8::memory::{FONT_DATA, MEM_SIZE, PG_START};
use chip8::{Chip8, Chip8Builder, EmuErr, Instruction, Quirks};

fn quirks(vf_reset_quirk: bool, jumping_quirk: bool) -> Quirks {
    Quirks { vf_reset_quirk, jumping_quirk }
}

fn machine(program: &[u8]) -> Chip8 {
    Chip8::new(quirks(false, false), program).unwrap()
}

fn run(chip: &mut Chip8, steps: usize) {
    for _ in 0..steps {
        chip.execute_next().unwrap();
    }
}

#[test]
fn add_immediate_twice_wraps_and_keeps_vf() {
    // V3 = 0xF0, VF = 0x42, V3 += 0x20, V3 += 0x05
    let program = [0x63, 0xF0, 0x6F, 0x42, 0x73, 0x20, 0x73, 0x05];
    let mut chip = machine(&program);
    run(&mut chip, 4);
    assert_eq!(chip.v_reg(3), 0x15);
    assert_eq!(chip.v_reg(0xF), 0x42);
}

#[test]
fn add_immediate_pairs_match_single_add() {
    for (a, b) in [(0u8, 0u8), (255, 1), (128, 128), (200, 100), (1, 254)] {
        let mut two = machine(&[0x61, 0x07, 0x71, a, 0x71, b]);
        run(&mut two, 3);
        let mut one = machine(&[0x61, 0x07, 0x71, a.wrapping_add(b)]);
        run(&mut one, 2);
        assert_eq!(two.v_reg(1), one.v_reg(1));
        assert_eq!(two.v_reg(1), 7u8.wrapping_add(a).wrapping_add(b));
        assert_eq!(two.v_reg(0xF), 0);
    }
}

fn arith(op_low: u8, vx: u8, vy: u8) -> (u8, u8) {
    // V1 = vx, V2 = vy, 8 1 2 op_low
    let program = [0x61, vx, 0x62, vy, 0x81, 0x20 | op_low];
    let mut chip = machine(&program);
    run(&mut chip, 3);
    (chip.v_reg(1), chip.v_reg(0xF))
}

#[test]
fn add_registers_carry_table() {
    assert_eq!(arith(0x4, 255, 1), (0, 1));
    assert_eq!(arith(0x4, 0, 1), (1, 0));
    assert_eq!(arith(0x4, 128, 128), (0, 1));
}

#[test]
fn sub_registers_borrow_table() {
    assert_eq!(arith(0x5, 255, 1), (254, 1));
    assert_eq!(arith(0x5, 0, 1), (255, 0));
    assert_eq!(arith(0x5, 128, 128), (0, 1));
}

#[test]
fn reverse_sub_registers_borrow_table() {
    assert_eq!(arith(0x7, 255, 1), (2, 0));
    assert_eq!(arith(0x7, 0, 1), (1, 1));
    assert_eq!(arith(0x7, 128, 128), (0, 1));
}

#[test]
fn shifts_and_moves() {
    assert_eq!(arith(0x6, 0b1000_0011, 0), (0b0100_0001, 1));
    assert_eq!(arith(0x6, 0b1000_0010, 0), (0b0100_0001, 0));
    assert_eq!(arith(0xE, 0b1000_0011, 0), (0b0000_0110, 1));
    assert_eq!(arith(0xE, 0b0100_0011, 0), (0b1000_0110, 0));
    assert_eq!(arith(0x0, 5, 9).0, 9);
}

#[test]
fn logic_ops_and_vf_reset_quirk() {
    // VF = 7, V1 = 0b1100, V2 = 0b1010, then V1 op= V2
    for (low, want) in [(0x1u8, 0b1110u8), (0x2, 0b1000), (0x3, 0b0110)] {
        let program = [0x6F, 0x07, 0x61, 0b1100, 0x62, 0b1010, 0x81, 0x20 | low];
        let mut plain = Chip8::new(quirks(false, false), &program).unwrap();
        run(&mut plain, 4);
        assert_eq!(plain.v_reg(1), want);
        assert_eq!(plain.v_reg(0xF), 7);
        let mut legacy = Chip8::new(quirks(true, false), &program).unwrap();
        run(&mut legacy, 4);
        assert_eq!(legacy.v_reg(1), want);
        assert_eq!(legacy.v_reg(0xF), 0);
    }
}

#[test]
fn draw_twice_restores_display() {
    // I = sprite at 0x20A, V0 = 3, V1 = 4, draw 2 rows twice
    let program = [0xA2, 0x0A, 0x60, 0x03, 0x61, 0x04, 0xD0, 0x12, 0xD0, 0x12, 0b1010_0101, 0b1111_0000];
    let mut chip = machine(&program);
    run(&mut chip, 4);
    assert_eq!(chip.v_reg(0xF), 0);
    assert!(chip.pixel(3, 4));
    assert!(!chip.pixel(4, 4));
    assert!(chip.pixel(5, 4));
    assert!(chip.pixel(10, 4));
    assert!(chip.pixel(6, 5));
    assert!(!chip.pixel(7, 5));
    run(&mut chip, 1);
    // every set bit lands on a pixel the first draw turned on
    assert_eq!(chip.v_reg(0xF), 1);
    for x in 0..DISPLAY_WIDTH {
        for y in 0..DISPLAY_HEIGHT {
            assert!(!chip.pixel(x, y));
        }
    }
}

#[test]
fn draw_blank_sprite_twice_leaves_vf_zero() {
    let program = [0xA2, 0x06, 0xD0, 0x01, 0xD0, 0x01, 0x00, 0x00];
    let mut chip = machine(&program);
    run(&mut chip, 3);
    assert_eq!(chip.v_reg(0xF), 0);
}

#[test]
fn draw_wraps_columns_at_display_edge() {
    // I = 0x208 (0xFF), V0 = 62, V1 = 0, draw one row
    let program = [0xA2, 0x08, 0x60, 62, 0x61, 0x00, 0xD0, 0x11, 0xFF];
    let mut chip = machine(&program);
    run(&mut chip, 4);
    for x in [62usize, 63, 0, 1, 2, 3, 4, 5] {
        assert!(chip.pixel(x, 0), "column {x}");
    }
    assert!(!chip.pixel(6, 0));
    assert!(!chip.pixel(61, 0));
    assert!(!chip.pixel(64, 0));
    assert_eq!(chip.v_reg(0xF), 0);
}

#[test]
fn draw_wraps_rows_and_origin() {
    // origin (70, 33) wraps to (6, 1) in low resolution; rows 31 and 0 come from origin 31
    let program = [0xA2, 0x0C, 0x60, 70, 0x61, 31, 0xD0, 0x12, 0x00, 0x00, 0x00, 0x00, 0x80, 0x80];
    let mut chip = machine(&program);
    run(&mut chip, 4);
    assert!(chip.pixel(6, 31));
    assert!(chip.pixel(6, 0));
    assert!(!chip.pixel(6, 32));
}

#[test]
fn high_res_big_sprite() {
    // 00FF, I = 0x20A, V0 = 120, V1 = 60, D01 0 (big sprite), then 16x16 bytes of 0x80,0x01
    let mut program = vec![0x00, 0xFF, 0xA2, 0x0A, 0x60, 120, 0x61, 60, 0xD0, 0x10];
    for _ in 0..16 {
        program.push(0x80);
        program.push(0x01);
    }
    let mut chip = machine(&program);
    run(&mut chip, 5);
    assert!(chip.is_high_res());
    for r in 0..16usize {
        let y = (60 + r) % 64;
        assert!(chip.pixel(120, y));
        assert!(chip.pixel((120 + 15) % 128, y));
        assert!(!chip.pixel(121, y));
    }
    assert_eq!(chip.v_reg(0xF), 0);
}

#[test]
fn resolution_toggle_keeps_pixels() {
    let program = [0xA2, 0x08, 0xD0, 0x01, 0x00, 0xFF, 0x00, 0xFE, 0x80];
    let mut chip = machine(&program);
    run(&mut chip, 3);
    assert!(chip.is_high_res());
    assert!(chip.pixel(0, 0));
    run(&mut chip, 1);
    assert!(!chip.is_high_res());
    assert!(chip.pixel(0, 0));
}

#[test]
fn clear_screen() {
    let program = [0xA2, 0x06, 0xD0, 0x01, 0x00, 0xE0, 0xC0];
    let mut chip = machine(&program);
    run(&mut chip, 2);
    assert!(chip.pixel(0, 0) && chip.pixel(1, 0));
    run(&mut chip, 1);
    assert!(!chip.pixel(0, 0) && !chip.pixel(1, 0));
}

#[test]
fn display_buffer_shape() {
    let program = [0xA2, 0x04, 0xD0, 0x01, 0x80];
    let mut chip = machine(&program);
    run(&mut chip, 2);
    let columns = chip.get_display_buffer();
    assert_eq!(columns.len(), DISPLAY_WIDTH);
    assert!(columns.iter().all(|c| c.len() == DISPLAY_HEIGHT));
    assert_eq!(columns[0].get(0), Some(true));
    assert_eq!(columns[1].get(0), Some(false));
}

fn store_load(jumping: bool) -> Chip8 {
    // V0..V3 = 1,2,3,4; I = 0x300; F3 55; V0..V3 = 0; I = 0x300; F3 65
    let program = [
        0x60, 1, 0x61, 2, 0x62, 3, 0x63, 4, 0xA3, 0x00, 0xF3, 0x55, 0x60, 0, 0x61, 0, 0x62, 0, 0x63, 0, 0xA3,
        0x00, 0xF3, 0x65,
    ];
    Chip8::new(quirks(false, jumping), &program).unwrap()
}

#[test]
fn store_then_load_round_trips_without_quirk() {
    let mut chip = store_load(false);
    run(&mut chip, 6);
    assert_eq!(chip.i_reg(), 0x300);
    assert_eq!([chip.memory_at(0x300), chip.memory_at(0x301), chip.memory_at(0x302), chip.memory_at(0x303)], [1, 2, 3, 4]);
    assert_eq!(chip.memory_at(0x304), 0);
    run(&mut chip, 6);
    assert_eq!([chip.v_reg(0), chip.v_reg(1), chip.v_reg(2), chip.v_reg(3)], [1, 2, 3, 4]);
    assert_eq!(chip.i_reg(), 0x300);
}

#[test]
fn store_then_load_round_trips_with_jumping_quirk() {
    let mut chip = store_load(true);
    run(&mut chip, 6);
    assert_eq!(chip.i_reg(), 0x300 + 3 + 1);
    run(&mut chip, 6);
    assert_eq!([chip.v_reg(0), chip.v_reg(1), chip.v_reg(2), chip.v_reg(3)], [1, 2, 3, 4]);
    assert_eq!(chip.i_reg(), 0x304);
}

#[test]
fn program_size_limit() {
    let fits = vec![0u8; MEM_SIZE - PG_START];
    assert!(Chip8::new(quirks(false, false), &fits).is_ok());
    let too_big = vec![0u8; MEM_SIZE - PG_START + 1];
    assert_eq!(
        Chip8::new(quirks(false, false), &too_big).err(),
        Some(EmuErr::ProgramLength { pg_len: 0xE01, max_len: 0xE00 })
    );
}

#[test]
fn return_on_empty_stack_underflows() {
    let mut chip = machine(&[0x00, 0xEE]);
    assert_eq!(chip.execute_next(), Err(EmuErr::StackUnderflow { sp: 0 }));
    assert_eq!(chip.pc(), 0x202);
    assert_eq!(chip.stack_depth(), 0);
}

#[test]
fn call_and_return() {
    // 0x200: call 0x206; 0x202: V0 = 9; 0x204: jump 0x204; 0x206: return
    let mut chip = machine(&[0x22, 0x06, 0x60, 0x09, 0x12, 0x04, 0x00, 0xEE]);
    run(&mut chip, 1);
    assert_eq!(chip.pc(), 0x206);
    assert_eq!(chip.stack_depth(), 1);
    run(&mut chip, 1);
    assert_eq!(chip.pc(), 0x202);
    assert_eq!(chip.stack_depth(), 0);
    run(&mut chip, 2);
    assert_eq!(chip.v_reg(0), 9);
    assert_eq!(chip.pc(), 0x204);
}

#[test]
fn call_on_full_stack_overflows() {
    // calls itself forever
    let mut chip = machine(&[0x22, 0x00]);
    run(&mut chip, 16);
    assert_eq!(chip.stack_depth(), 16);
    assert_eq!(chip.execute_next(), Err(EmuErr::StackOverflow { sp: 16 }));
    assert_eq!(chip.pc(), 0x202);
    assert_eq!(chip.stack_depth(), 16);
}

#[test]
fn wait_for_key_spins_until_pressed() {
    let mut chip = machine(&[0xF3, 0x0A]);
    run(&mut chip, 1);
    assert_eq!(chip.pc(), 0x200);
    run(&mut chip, 1);
    assert_eq!(chip.pc(), 0x200);
    chip.set_key(0xB);
    run(&mut chip, 1);
    assert_eq!(chip.pc(), 0x202);
}

#[test]
fn key_skips() {
    // V1 = 5; skip if key 5 down; V2 = 1; skip if key 5 up; V3 = 1
    let program = [0x61, 0x05, 0xE1, 0x9E, 0x62, 0x01, 0xE1, 0xA1, 0x63, 0x01];
    let mut up = machine(&program);
    run(&mut up, 4);
    assert_eq!((up.v_reg(2), up.v_reg(3)), (1, 0));
    let mut down = machine(&program);
    down.set_key(5);
    run(&mut down, 4);
    assert_eq!((down.v_reg(2), down.v_reg(3)), (0, 1));
    down.unset_key(5);
    let mut again = machine(&program);
    again.set_key(5);
    again.unset_key(5);
    run(&mut again, 4);
    assert_eq!((again.v_reg(2), again.v_reg(3)), (1, 0));
}

#[test]
fn key_number_past_keypad_is_never_down() {
    // V1 = 0x20; skip if key 0x20 down; V2 = 1
    let mut chip = machine(&[0x61, 0x20, 0xE1, 0x9E, 0x62, 0x01]);
    chip.set_key(0);
    run(&mut chip, 3);
    assert_eq!(chip.v_reg(2), 1);
}

#[test]
fn conditional_skips() {
    // V1 = 3, V2 = 3; 3103 skips; 4103 not; 5120 skips; 9120 not
    let program = [
        0x61, 0x03, 0x62, 0x03, 0x31, 0x03, 0x6A, 0x01, 0x41, 0x03, 0x6B, 0x01, 0x51, 0x20, 0x6C, 0x01, 0x91,
        0x20, 0x6D, 0x01,
    ];
    let mut chip = machine(&program);
    run(&mut chip, 8);
    assert_eq!([chip.v_reg(0xA), chip.v_reg(0xB), chip.v_reg(0xC), chip.v_reg(0xD)], [0, 1, 0, 1]);
    assert_eq!(chip.pc(), 0x214);
}

#[test]
fn jumps() {
    let mut chip = machine(&[0x13, 0x45]);
    run(&mut chip, 1);
    assert_eq!(chip.pc(), 0x345);
    let mut offset = machine(&[0x62, 0x10, 0xB2, 0x00]);
    run(&mut offset, 2);
    assert_eq!(offset.pc(), 0x210);
}

#[test]
fn bad_instruction_reports_opcode_and_pc() {
    let mut chip = machine(&[0x01, 0x23]);
    assert_eq!(
        chip.execute_next(),
        Err(EmuErr::BadInstruction { pc: 0x202, instruction: Instruction::new(0x0123) })
    );
    let mut f = machine(&[0xF0, 0x99]);
    assert_eq!(f.execute_next(), Err(EmuErr::BadInstruction { pc: 0x202, instruction: Instruction::new(0xF099) }));
    let mut e = machine(&[0xE0, 0x00]);
    assert_eq!(e.execute_next(), Err(EmuErr::BadInstruction { pc: 0x202, instruction: Instruction::new(0xE000) }));
    let mut eight = machine(&[0x80, 0x08]);
    assert_eq!(eight.execute_next(), Err(EmuErr::BadInstruction { pc: 0x202, instruction: Instruction::new(0x8008) }));
}

#[test]
fn pc_out_of_bounds() {
    let mut chip = machine(&[0x1F, 0xFF]);
    run(&mut chip, 1);
    assert_eq!(chip.execute_next(), Err(EmuErr::PcOutOfBounds { pc: 0xFFF }));
    assert_eq!(chip.pc(), 0xFFF);
    let mut last = machine(&[0x1F, 0xFE]);
    run(&mut last, 1);
    // the fetch at the last two bytes works; the zero opcode there is no instruction
    assert_eq!(
        last.execute_next(),
        Err(EmuErr::BadInstruction { pc: 0x1000, instruction: Instruction::new(0x0000) })
    );
    assert_eq!(last.pc(), 0x1000);
}

#[test]
fn index_add_and_overflow() {
    // I = 0xFFE, V1 = 2, I += V1 (ok, I = 0x1000), I += V1 fails
    let mut chip = machine(&[0xAF, 0xFE, 0x61, 0x02, 0xF1, 0x1E, 0xF1, 0x1E]);
    run(&mut chip, 3);
    assert_eq!(chip.i_reg(), 0x1000);
    assert_eq!(chip.execute_next(), Err(EmuErr::IregOverflow { ireg: 0x1000, offset: 2 }));
    assert_eq!(chip.i_reg(), 0x1000);
}

#[test]
fn store_past_memory_end_fails() {
    let mut chip = machine(&[0xAF, 0xFE, 0xF2, 0x55]);
    run(&mut chip, 1);
    assert_eq!(chip.execute_next(), Err(EmuErr::IregOverflow { ireg: 0xFFE, offset: 3 }));
    assert_eq!(chip.memory_at(0xFFE), 0);
}

#[test]
fn bcd_digits() {
    // V5 = 254, I = 0x300, F5 33
    let mut chip = machine(&[0x65, 254, 0xA3, 0x00, 0xF5, 0x33]);
    run(&mut chip, 3);
    assert_eq!([chip.memory_at(0x300), chip.memory_at(0x301), chip.memory_at(0x302)], [2, 5, 4]);
    let mut edge = machine(&[0x65, 7, 0xAF, 0xFE, 0xF5, 0x33]);
    run(&mut edge, 2);
    assert_eq!(edge.execute_next(), Err(EmuErr::IregOverflow { ireg: 0xFFE, offset: 3 }));
}

#[test]
fn font_addresses() {
    let mut chip = machine(&[0x6A, 0x0F, 0xFA, 0x29]);
    run(&mut chip, 2);
    assert_eq!(chip.i_reg(), 75);
    let mut big = machine(&[0x6A, 0x0F, 0xFA, 0x30]);
    run(&mut big, 2);
    assert_eq!(big.i_reg(), 0x50 + 150);
    let mut large = machine(&[0x6A, 0xFF, 0xFA, 0x30]);
    run(&mut large, 2);
    assert_eq!(large.i_reg(), 0x50 + 2550);
}

#[test]
fn fonts_and_program_loaded() {
    let chip = machine(&[0xAB, 0xCD]);
    for (a, b) in FONT_DATA.iter().enumerate() {
        assert_eq!(chip.memory_at(a), *b);
    }
    assert_eq!(chip.memory_at(0x200), 0xAB);
    assert_eq!(chip.memory_at(0x201), 0xCD);
    assert_eq!(chip.memory_at(0x202), 0);
    assert_eq!(chip.memory_at(0xF0), 0);
    assert_eq!(chip.pc(), 0x200);
    assert_eq!(chip.i_reg(), 0);
    assert_eq!(chip.delay_reg(), 0);
    assert_eq!(chip.sound_reg(), 0xFF);
    assert!(!chip.is_high_res());
}

#[test]
fn timers() {
    // V1 = 2, delay = V1, sound = V1, V2 = delay
    let mut chip = machine(&[0x61, 0x02, 0xF1, 0x15, 0xF1, 0x18, 0xF2, 0x07]);
    run(&mut chip, 4);
    assert_eq!(chip.v_reg(2), 2);
    assert_eq!(chip.sound_reg(), 2);
    chip.dec_delay_reg();
    assert_eq!((chip.delay_reg(), chip.sound_reg()), (1, 1));
    chip.dec_delay_reg();
    chip.dec_delay_reg();
    assert_eq!((chip.delay_reg(), chip.sound_reg()), (0, 0));
}

#[test]
fn random_byte_constrained_by_kk() {
    let mut chip = machine(&[]);
    chip.execute_instruction(Instruction::new(0xC30F), 200).unwrap();
    assert_eq!(chip.v_reg(3), 200 % 16);
    chip.execute_instruction(Instruction::new(0xC3FF), 200).unwrap();
    assert_eq!(chip.v_reg(3), 200);
    chip.execute_instruction(Instruction::new(0xC300), 200).unwrap();
    assert_eq!(chip.v_reg(3), 0);
    let mut drawn = machine(&[0xC3, 0x07]);
    run(&mut drawn, 1);
    assert!(drawn.v_reg(3) <= 7);
}

#[test]
fn decode_and_execute_leaves_pc_to_caller() {
    let mut chip = machine(&[]);
    chip.decode_and_execute(Instruction::new(0x6A42)).unwrap();
    assert_eq!(chip.v_reg(0xA), 0x42);
    assert_eq!(chip.pc(), 0x200);
}

#[test]
fn builder_sets_program_and_quirks() {
    let program = [0x81, 0x21];
    let mut chip = Chip8Builder::new().with_program(&program).with_vf_reset_quirk().build().unwrap();
    chip.decode_and_execute(Instruction::new(0x6F05)).unwrap();
    run(&mut chip, 1);
    assert_eq!(chip.v_reg(0xF), 0);
    let too_big = vec![0u8; 0xE01];
    assert!(matches!(
        Chip8Builder::new().with_program(&too_big).with_jumping_quirk().build(),
        Err(EmuErr::ProgramLength { pg_len: 0xE01, max_len: 0xE00 })
    ));
}
