use chip8::chip8::{Chip8, Chip8Error, RunState, PIXEL_COLOR, PROGRAM_START};
use chip8::instructions::Instructions;
use chip8::display::FRAME_WIDTH;

fn machine(program: &[u16]) -> Chip8 {
    let mut bytes = Vec::new();
    for op in program {
        bytes.push((op >> 8) as u8);
        bytes.push((op & 0xFF) as u8);
    }
    let mut chip8 = Chip8::new();
    assert_eq!(chip8.load_rom(&bytes), Ok(()));
    chip8
}

fn run(chip8: &mut Chip8, steps: usize) {
    for _ in 0..steps {
        assert_eq!(chip8.step(0), Ok(()));
    }
}

fn lit_cells(chip8: &Chip8) -> usize {
    (0..2048).filter(|&i| chip8.display().coord_at(i) == 1).count()
}

#[test]
fn clear_then_jump_to_self_loops_forever() {
    let mut chip8 = machine(&[0x00E0, 0x1200]);
    assert_eq!(chip8.step(0), Ok(()));
    assert_eq!(lit_cells(&chip8), 0);
    assert_eq!(chip8.cpu().get_pc(), 0x202);
    for _ in 0..100 {
        assert_eq!(chip8.step(0), Ok(()));
        assert_eq!(chip8.cpu().get_pc(), 0x200);
        assert_eq!(chip8.step(0), Ok(()));
        assert_eq!(chip8.cpu().get_pc(), 0x202);
    }
}

#[test]
fn clear_display_turns_every_cell_off() {
    // Draw the glyph of 0, then clear.
    let mut chip8 = machine(&[0xA000, 0xD005, 0x00E0]);
    run(&mut chip8, 2);
    assert!(lit_cells(&chip8) > 0);
    run(&mut chip8, 1);
    assert_eq!(lit_cells(&chip8), 0);
    assert!(chip8.display().buffer().iter().all(|&p| p == 0));
}

#[test]
fn register_block_store_then_load_round_trips() {
    let mut program = Vec::new();
    for r in 0..16u16 {
        program.push(0x6000 | (r << 8) | (r * 13 + 7));
    }
    program.push(0xA300); // I = 0x300
    program.push(0xFF55); // store V0..VF
    for r in 0..16u16 {
        program.push(0x6000 | (r << 8)); // Vr = 0
    }
    program.push(0xFF65); // load V0..VF
    let mut chip8 = machine(&program);
    run(&mut chip8, 18);
    for r in 0..16u16 {
        assert_eq!(chip8.memory().read_byte(0x300 + r as usize), (r * 13 + 7) as u8);
    }
    run(&mut chip8, 16);
    for r in 0..16u8 {
        assert_eq!(chip8.cpu().get_vx(r), 0);
    }
    run(&mut chip8, 1);
    for r in 0..16u16 {
        assert_eq!(chip8.cpu().get_vx(r as u8), (r * 13 + 7) as u8);
    }
    assert_eq!(chip8.cpu().get_i(), 0x300);
}

#[test]
fn register_block_store_wraps_past_end_of_memory() {
    let mut chip8 = machine(&[0x6011, 0x6122, 0x6233, 0xAFFE, 0xF255]);
    run(&mut chip8, 5);
    assert_eq!(chip8.memory().read_byte(0xFFE), 0x11);
    assert_eq!(chip8.memory().read_byte(0xFFF), 0x22);
    assert_eq!(chip8.memory().read_byte(0x000), 0x33);
    assert_eq!(chip8.memory().read_byte(0x001), 0x90);
}

#[test]
fn register_block_load_stops_at_x() {
    let mut chip8 = machine(&[0x6399, 0xA000, 0xF265]);
    run(&mut chip8, 3);
    assert_eq!(chip8.cpu().get_vx(0), 0xF0);
    assert_eq!(chip8.cpu().get_vx(1), 0x90);
    assert_eq!(chip8.cpu().get_vx(2), 0x90);
    assert_eq!(chip8.cpu().get_vx(3), 0x99);
}

#[test]
fn decimal_digits_of_255() {
    let mut chip8 = machine(&[0x65FF, 0xA400, 0xF533]);
    run(&mut chip8, 3);
    assert_eq!(chip8.memory().read_byte(0x400), 2);
    assert_eq!(chip8.memory().read_byte(0x401), 5);
    assert_eq!(chip8.memory().read_byte(0x402), 5);
    assert_eq!(chip8.cpu().get_i(), 0x400);
}

#[test]
fn decimal_digits_of_small_values() {
    let mut chip8 = machine(&[0x6507, 0xA400, 0xF533, 0x652A, 0xF533]);
    run(&mut chip8, 3);
    assert_eq!(
        (chip8.memory().read_byte(0x400), chip8.memory().read_byte(0x401), chip8.memory().read_byte(0x402)),
        (0, 0, 7)
    );
    run(&mut chip8, 2);
    assert_eq!(
        (chip8.memory().read_byte(0x400), chip8.memory().read_byte(0x401), chip8.memory().read_byte(0x402)),
        (0, 4, 2)
    );
}

#[test]
fn sprite_drawn_twice_collides_and_clears() {
    // The glyph of 8 (8 pixels wide, 5 rows) at (10, 6).
    let mut chip8 = machine(&[0x600A, 0x6106, 0xA028, 0xD015, 0xD015]);
    run(&mut chip8, 4);
    assert_eq!(chip8.cpu().get_vx(0xF), 0);
    let glyph = [0xF0u8, 0x90, 0xF0, 0x90, 0xF0];
    for (row, bits) in glyph.iter().enumerate() {
        for col in 0..8 {
            let cell = 64 * (6 + row) + 10 + col;
            assert_eq!(chip8.display().coord_at(cell), (bits >> (7 - col)) & 1);
        }
    }
    assert_eq!(lit_cells(&chip8), 4 + 2 + 4 + 2 + 4);
    let shown = FRAME_WIDTH * 8 * 6 + 8 * 10;
    assert_eq!(chip8.display().buffer()[shown], PIXEL_COLOR);
    run(&mut chip8, 1);
    assert_eq!(chip8.cpu().get_vx(0xF), 1);
    assert_eq!(lit_cells(&chip8), 0);
    assert_eq!(chip8.display().buffer()[shown], 0);
}

#[test]
fn second_draw_flag_counts_only_its_own_collisions() {
    // VF is 1 beforehand; a draw over a dark screen must clear it.
    let mut chip8 = machine(&[0x6F01, 0xA000, 0xD125, 0xD125, 0xD125]);
    run(&mut chip8, 3);
    assert_eq!(chip8.cpu().get_vx(0xF), 0);
    run(&mut chip8, 1);
    assert_eq!(chip8.cpu().get_vx(0xF), 1);
    run(&mut chip8, 1);
    assert_eq!(chip8.cpu().get_vx(0xF), 0);
}

#[test]
fn collision_is_found_on_any_pixel_not_only_the_last() {
    // One lit cell at the top-left corner of the sprite, then a full-row sprite.
    let mut bytes = vec![0xA3, 0x00, 0xD0, 0x01, 0xA3, 0x02, 0xD0, 0x01];
    bytes.resize(0x100, 0);
    bytes.push(0x80); // 0x300: a single pixel
    bytes.push(0x00);
    bytes.push(0xFF); // 0x302: a full row
    let mut chip8 = Chip8::new();
    assert_eq!(chip8.load_rom(&bytes), Ok(()));
    run(&mut chip8, 4);
    assert_eq!(chip8.cpu().get_vx(0xF), 1);
    assert_eq!(chip8.display().coord_at(0), 0);
    assert_eq!(chip8.display().coord_at(1), 1);
    assert_eq!(chip8.display().coord_at(7), 1);
}

#[test]
fn sprite_wraps_around_the_grid() {
    // The glyph of 0 at (60, 30): columns past 63 run into the next row,
    // rows past 31 run back to the top.
    let mut chip8 = machine(&[0x603C, 0x611E, 0xA000, 0xD015]);
    run(&mut chip8, 4);
    assert_eq!(chip8.cpu().get_vx(0xF), 0);
    // Row 0 of the glyph (0xF0) covers cells 64*30+60 .. 64*30+63.
    for col in 0..4 {
        assert_eq!(chip8.display().coord_at(64 * 30 + 60 + col), 1);
    }
    // Row 2 (0x90) lands at 64*32+60, i.e. cell 60 of the top row.
    assert_eq!(chip8.display().coord_at(60), 1);
    assert_eq!(chip8.display().coord_at(61), 0);
    assert_eq!(chip8.display().coord_at(63), 1);
    // Row 4 (0xF0) lands on the third row from the top.
    for col in 0..4 {
        assert_eq!(chip8.display().coord_at(64 * 2 + 60 + col), 1);
    }
    assert_eq!(lit_cells(&chip8), 4 + 2 + 2 + 2 + 4);
}

#[test]
fn call_and_return_resume_after_the_call() {
    // 0x200: call 0x300; 0x202: V1 = 1. 0x300: V0 = 5; return.
    let mut bytes = vec![0x23, 0x00, 0x61, 0x01];
    bytes.resize(0x100, 0);
    bytes.extend_from_slice(&[0x60, 0x05, 0x00, 0xEE]);
    let mut chip8 = Chip8::new();
    assert_eq!(chip8.load_rom(&bytes), Ok(()));
    run(&mut chip8, 1);
    assert_eq!(chip8.cpu().get_pc(), 0x300);
    run(&mut chip8, 2);
    assert_eq!(chip8.cpu().get_pc(), 0x202);
    run(&mut chip8, 1);
    assert_eq!(chip8.cpu().get_vx(0), 5);
    assert_eq!(chip8.cpu().get_vx(1), 1);
}

#[test]
fn recursion_overflows_the_stack() {
    let mut chip8 = machine(&[0x2200]);
    run(&mut chip8, 16);
    assert_eq!(chip8.step(0), Err(Chip8Error::StackOverflow));
    assert_eq!(chip8.cpu().get_pc(), 0x200);
}

#[test]
fn return_without_call_underflows() {
    let mut chip8 = machine(&[0x00EE]);
    assert_eq!(chip8.step(0), Err(Chip8Error::StackUnderflow));
    assert_eq!(chip8.cpu().get_pc(), PROGRAM_START);
}

#[test]
fn unknown_opcode_is_skipped() {
    let mut chip8 = machine(&[0x0123, 0xFFFF, 0x6042]);
    run(&mut chip8, 3);
    assert_eq!(chip8.cpu().get_pc(), 0x206);
    assert_eq!(chip8.cpu().get_vx(0), 0x42);
}

#[test]
fn skips_pass_over_one_instruction() {
    let mut chip8 = machine(&[0x6005, 0x3005, 0x6101, 0x4005, 0x6202, 0x5010, 0x6303, 0x9010, 0x6404]);
    run(&mut chip8, 7);
    assert_eq!(chip8.cpu().get_vx(1), 0);
    assert_eq!(chip8.cpu().get_vx(2), 2);
    assert_eq!(chip8.cpu().get_vx(3), 3);
    assert_eq!(chip8.cpu().get_vx(4), 0);
    assert_eq!(chip8.cpu().get_pc(), 0x212);
}

#[test]
fn jump_plus_v0() {
    let mut chip8 = machine(&[0x6004, 0xB300]);
    run(&mut chip8, 2);
    assert_eq!(chip8.cpu().get_pc(), 0x304);
}

#[test]
fn wait_for_key_blocks_until_a_key_is_held() {
    let mut chip8 = machine(&[0xF30A, 0x6001]);
    run(&mut chip8, 1);
    assert_eq!(chip8.state(), RunState::AwaitingKey(3));
    assert_eq!(chip8.cpu().get_pc(), 0x200);
    run(&mut chip8, 5);
    assert_eq!(chip8.cpu().get_pc(), 0x200);
    assert_eq!(chip8.cpu().get_vx(0), 0);
    chip8.set_key_pressed(Some(0xB));
    run(&mut chip8, 1);
    assert_eq!(chip8.state(), RunState::Running);
    assert_eq!(chip8.cpu().get_vx(3), 0xB);
    assert_eq!(chip8.cpu().get_pc(), 0x202);
    run(&mut chip8, 1);
    assert_eq!(chip8.cpu().get_vx(0), 1);
}

#[test]
fn timers_tick_while_waiting_for_a_key() {
    let mut chip8 = machine(&[0x6003, 0xF015, 0xF018, 0xF10A]);
    run(&mut chip8, 4);
    assert!(chip8.tick_timers());
    assert!(chip8.tick_timers());
    assert!(chip8.tick_timers());
    assert!(!chip8.tick_timers());
    assert_eq!(chip8.cpu().get_dt(), 0);
    assert_eq!(chip8.state(), RunState::AwaitingKey(1));
}

#[test]
fn key_skips() {
    let mut chip8 = machine(&[0x6007, 0xE09E, 0x6101, 0xE0A1, 0x6202]);
    chip8.set_key_pressed(Some(7));
    run(&mut chip8, 4);
    assert_eq!(chip8.cpu().get_vx(1), 0);
    assert_eq!(chip8.cpu().get_vx(2), 2);
    let mut chip8 = machine(&[0x6007, 0xE09E, 0x6101, 0xE0A1, 0x6202]);
    run(&mut chip8, 4);
    assert_eq!(chip8.cpu().get_vx(1), 1);
    assert_eq!(chip8.cpu().get_vx(2), 0);
}

#[test]
fn random_and_masks_the_drawn_byte() {
    let mut chip8 = machine(&[0xC00F, 0xC1F0, 0xC200]);
    assert_eq!(chip8.step(0xAB), Ok(()));
    assert_eq!(chip8.step(0xAB), Ok(()));
    assert_eq!(chip8.cpu().get_vx(0), 0x0B);
    assert_eq!(chip8.cpu().get_vx(1), 0xA0);
    assert_eq!(chip8.run_next_instruction(), Ok(()));
    assert_eq!(chip8.cpu().get_vx(2), 0);
    assert_eq!(chip8.cpu().get_pc(), 0x206);
}

#[test]
fn random_byte_is_masked_by_immediate() {
    let mut chip8 = machine(&[0xC00F; 64]);
    for _ in 0..64 {
        assert_eq!(chip8.run_next_instruction(), Ok(()));
        assert!(chip8.cpu().get_vx(0) <= 0x0F);
    }
}

#[test]
fn register_arithmetic_instructions() {
    let mut chip8 = machine(&[
        0x60C8, 0x6164, 0x8014, // V0 = 200 + 100 = 44, VF = 1
        0x6205, 0x6309, 0x8237, // V2 = 9 - 5 = 4, VF = 1
        0x6481, 0x8406, // V4 = 0x40, VF = 1
        0x6541, 0x850E, // V5 = 0x82, VF = 0
        0x660C, 0x670A, 0x8671, // V6 = 0x0E
        0x8872, 0x8973, 0x7AFF, 0x7A02, // VA = 1
    ]);
    run(&mut chip8, 3);
    assert_eq!((chip8.cpu().get_vx(0), chip8.cpu().get_vx(0xF)), (44, 1));
    run(&mut chip8, 3);
    assert_eq!((chip8.cpu().get_vx(2), chip8.cpu().get_vx(0xF)), (4, 1));
    run(&mut chip8, 2);
    assert_eq!((chip8.cpu().get_vx(4), chip8.cpu().get_vx(0xF)), (0x40, 1));
    run(&mut chip8, 2);
    assert_eq!((chip8.cpu().get_vx(5), chip8.cpu().get_vx(0xF)), (0x82, 0));
    run(&mut chip8, 3);
    assert_eq!(chip8.cpu().get_vx(6), 0x0E);
    run(&mut chip8, 4);
    assert_eq!(chip8.cpu().get_vx(0xA), 1);
}

#[test]
fn address_register_instructions() {
    let mut chip8 = machine(&[0xAFFF, 0x6002, 0xF01E, 0x600B, 0xF029]);
    run(&mut chip8, 3);
    assert_eq!(chip8.cpu().get_i(), 1);
    run(&mut chip8, 2);
    assert_eq!(chip8.cpu().get_i(), 55);
}

#[test]
fn timer_instructions() {
    let mut chip8 = machine(&[0x6009, 0xF015, 0xF118, 0xF207]);
    run(&mut chip8, 2);
    assert_eq!(chip8.cpu().get_dt(), 9);
    assert!(!chip8.tick_timers());
    run(&mut chip8, 2);
    assert_eq!(chip8.cpu().get_vx(2), 8);
}

#[test]
fn oversized_program_is_refused() {
    let mut chip8 = Chip8::new();
    assert_eq!(chip8.load_rom(&vec![1u8; 0xE01]), Err(Chip8Error::ProgramTooLarge));
    assert_eq!(chip8.memory().read_byte(0x200), 0);
    assert_eq!(chip8.load_rom(&vec![1u8; 0xE00]), Ok(()));
    assert_eq!(chip8.memory().read_byte(0xFFF), 1);
}

#[test]
fn run_instruction_store_then_load_at_end_of_memory() {
    let mut chip8 = machine(&[]);
    for r in 0..16u8 {
        assert_eq!(chip8.run_instruction(Instructions::SetRegisterByte(r, 0xF0 - r), 0), Ok(()));
    }
    assert_eq!(chip8.run_instruction(Instructions::SetI(0xFF8), 0), Ok(()));
    assert_eq!(chip8.run_instruction(Instructions::CopyRegistersMemory(0xF), 0), Ok(()));
    for r in 0..16u8 {
        assert_eq!(chip8.run_instruction(Instructions::SetRegisterByte(r, 0), 0), Ok(()));
    }
    assert_eq!(chip8.run_instruction(Instructions::SetRegistersMemory(0xF), 0), Ok(()));
    for r in 0..16u8 {
        assert_eq!(chip8.cpu().get_vx(r), 0xF0 - r);
    }
    assert_eq!(chip8.cpu().get_i(), 0xFF8);
    assert_eq!(chip8.memory().read_byte(0x007), 0xF0 - 0xF);
}

#[test]
fn run_instruction_draw_twice_on_dark_screen() {
    let mut chip8 = machine(&[]);
    assert_eq!(chip8.run_instruction(Instructions::SetRegisterByte(3, 20), 0), Ok(()));
    assert_eq!(chip8.run_instruction(Instructions::SetRegisterByte(4, 10), 0), Ok(()));
    assert_eq!(chip8.run_instruction(Instructions::SetI(0x05), 0), Ok(()));
    assert_eq!(chip8.run_instruction(Instructions::Draw(3, 4, 5), 0), Ok(()));
    assert_eq!(chip8.cpu().get_vx(0xF), 0);
    assert!(lit_cells(&chip8) > 0);
    assert_eq!(chip8.run_instruction(Instructions::Draw(3, 4, 5), 0), Ok(()));
    assert_eq!(chip8.cpu().get_vx(0xF), 1);
    assert_eq!(lit_cells(&chip8), 0);
}
