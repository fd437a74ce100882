use chip8::machine::{Chip8, Fault};
use chip8::decode::{decode, Instr};

fn boot(rom: &[u8]) -> Chip8 {
    let mut c = Chip8::new();
    c.load(&rom.to_vec()).unwrap();
    c
}

fn run(c: &mut Chip8, steps: usize) {
    for _ in 0..steps {
        c.emulate_cycle().unwrap();
    }
}

#[test]
fn scenario_set_set_add() {
    // 6005 (V0 = 5), 6103 (V1 = 3), 8014 (V0 += V1)
    let mut c = boot(&[0x60, 0x05, 0x61, 0x03, 0x80, 0x14]);
    run(&mut c, 3);
    assert_eq!(c.v[0], 8);
    assert_eq!(c.v[1], 3);
    assert_eq!(c.v[0xF], 0);
    assert_eq!(c.pc, 0x206);
}

#[test]
fn set_then_add_zero_is_identity() {
    // 6A42 (VA = 0x42), 7A00 (VA += 0)
    let mut c = boot(&[0x6A, 0x42, 0x7A, 0x00]);
    run(&mut c, 2);
    assert_eq!(c.v[0xA], 0x42);
}

#[test]
fn add_imm_wraps_without_flag() {
    // 60FF, 7002: V0 = 0xFF + 2 = 1 with no carry flag
    let mut c = boot(&[0x60, 0xFF, 0x70, 0x02]);
    run(&mut c, 2);
    assert_eq!(c.v[0], 1);
    assert_eq!(c.v[0xF], 0);
}

#[test]
fn add_reg_sets_carry() {
    // 60C8 (200), 61C8 (200), 8014: 400 % 256 = 144, VF = 1
    let mut c = boot(&[0x60, 0xC8, 0x61, 0xC8, 0x80, 0x14]);
    run(&mut c, 3);
    assert_eq!(c.v[0], 144);
    assert_eq!(c.v[0xF], 1);
}

#[test]
fn sub_reg_no_borrow() {
    // 600A, 6103, 8015: V0 = 7, VF = 1 (no borrow)
    let mut c = boot(&[0x60, 0x0A, 0x61, 0x03, 0x80, 0x15]);
    run(&mut c, 3);
    assert_eq!(c.v[0], 7);
    assert_eq!(c.v[0xF], 1);
}

#[test]
fn sub_reg_with_borrow() {
    // 6003, 610A, 8015: V0 = (3 - 10) mod 256 = 249, VF = 0 (borrow)
    let mut c = boot(&[0x60, 0x03, 0x61, 0x0A, 0x80, 0x15]);
    run(&mut c, 3);
    assert_eq!(c.v[0], 249);
    assert_eq!(c.v[0xF], 0);
}

#[test]
fn subn_reg_reversed_operands() {
    // 6003, 610A, 8017: V0 = V1 - V0 = 7, VF = 1 (no borrow)
    let mut c = boot(&[0x60, 0x03, 0x61, 0x0A, 0x80, 0x17]);
    run(&mut c, 3);
    assert_eq!(c.v[0], 7);
    assert_eq!(c.v[0xF], 1);
}

#[test]
fn logic_ops() {
    // 60F0, 610F, 8011 (OR): V0 = 0xFF
    let mut c = boot(&[0x60, 0xF0, 0x61, 0x0F, 0x80, 0x11]);
    run(&mut c, 3);
    assert_eq!(c.v[0], 0xFF);

    // 60CC, 61AA, 8012 (AND): V0 = 0x88
    let mut c2 = boot(&[0x60, 0xCC, 0x61, 0xAA, 0x80, 0x12]);
    run(&mut c2, 3);
    assert_eq!(c2.v[0], 0x88);

    // 60CC, 61AA, 8013 (XOR): V0 = 0x66
    let mut c3 = boot(&[0x60, 0xCC, 0x61, 0xAA, 0x80, 0x13]);
    run(&mut c3, 3);
    assert_eq!(c3.v[0], 0x66);

    // 6000, 6137, 8010 (MOV): V0 = V1
    let mut c4 = boot(&[0x60, 0x00, 0x61, 0x37, 0x80, 0x10]);
    run(&mut c4, 3);
    assert_eq!(c4.v[0], 0x37);
}

#[test]
fn shifts_and_their_flags() {
    // 6005, 8006: V0 = 2, VF = old low bit = 1
    let mut c = boot(&[0x60, 0x05, 0x80, 0x06]);
    run(&mut c, 2);
    assert_eq!(c.v[0], 2);
    assert_eq!(c.v[0xF], 1);

    // 6081, 800E: V0 = 2 (wrapped), VF = old high bit = 1
    let mut c2 = boot(&[0x60, 0x81, 0x80, 0x0E]);
    run(&mut c2, 2);
    assert_eq!(c2.v[0], 2);
    assert_eq!(c2.v[0xF], 1);
}

#[test]
fn skip_instructions() {
    // 6007, 3007 (skip taken), 6101 (skipped), 6202
    let mut c = boot(&[0x60, 0x07, 0x30, 0x07, 0x61, 0x01, 0x62, 0x02]);
    run(&mut c, 3);
    assert_eq!(c.v[1], 0);
    assert_eq!(c.v[2], 2);
    assert_eq!(c.pc, 0x208);

    // 6007, 4007 (skip not taken), 6101
    let mut c2 = boot(&[0x60, 0x07, 0x40, 0x07, 0x61, 0x01]);
    run(&mut c2, 3);
    assert_eq!(c2.v[1], 1);

    // 6005, 6105, 5010 (skip taken), 6201 (skipped), 6302
    let mut c3 = boot(&[0x60, 0x05, 0x61, 0x05, 0x50, 0x10, 0x62, 0x01, 0x63, 0x02]);
    run(&mut c3, 4);
    assert_eq!(c3.v[2], 0);
    assert_eq!(c3.v[3], 2);

    // 6005, 6106, 9010 (skip taken), 6201 (skipped), 6302
    let mut c4 = boot(&[0x60, 0x05, 0x61, 0x06, 0x90, 0x10, 0x62, 0x01, 0x63, 0x02]);
    run(&mut c4, 4);
    assert_eq!(c4.v[2], 0);
    assert_eq!(c4.v[3], 2);
}

#[test]
fn jumps_and_calls() {
    // 1206: jump to 0x206
    let mut c = boot(&[0x12, 0x06]);
    run(&mut c, 1);
    assert_eq!(c.pc, 0x206);

    // 6010, B1F6: pc = 0x1F6 + 0x10 = 0x206
    let mut c2 = boot(&[0x60, 0x10, 0xB1, 0xF6]);
    run(&mut c2, 2);
    assert_eq!(c2.pc, 0x206);

    // 2204 (call 0x204), then at 0x204: 00EE (return) -> pc = 0x200 + 2
    let mut c3 = boot(&[0x22, 0x04, 0x00, 0x00, 0x00, 0xEE]);
    run(&mut c3, 1);
    assert_eq!(c3.pc, 0x204);
    assert_eq!(c3.sp, 1);
    assert_eq!(c3.stack[0], 0x200);
    run(&mut c3, 1);
    assert_eq!(c3.pc, 0x202);
    assert_eq!(c3.sp, 0);
}

#[test]
fn index_register_instructions() {
    // A123: I = 0x123
    let mut c = boot(&[0xA1, 0x23]);
    run(&mut c, 1);
    assert_eq!(c.i, 0x123);

    // A0FF, 6002, F01E: I = 0x101, VF = 0
    let mut c2 = boot(&[0xA0, 0xFF, 0x60, 0x02, 0xF0, 0x1E]);
    run(&mut c2, 3);
    assert_eq!(c2.i, 0x101);
    assert_eq!(c2.v[0xF], 0);

    // AFFE, 6005, F01E: I = 0x1003 (not masked), VF = 1
    let mut c3 = boot(&[0xAF, 0xFE, 0x60, 0x05, 0xF0, 0x1E]);
    run(&mut c3, 3);
    assert_eq!(c3.i, 0x1003);
    assert_eq!(c3.v[0xF], 1);

    // 6007, F029: I = 7 * 5 = 35, the glyph address of 7
    let mut c4 = boot(&[0x60, 0x07, 0xF0, 0x29]);
    run(&mut c4, 2);
    assert_eq!(c4.i, 35);
}

#[test]
fn bcd_digits() {
    // 60FE (254), A300, F033: memory[0x300..0x303] = 2, 5, 4
    let mut c = boot(&[0x60, 0xFE, 0xA3, 0x00, 0xF0, 0x33]);
    run(&mut c, 3);
    assert_eq!(c.memory[0x300], 2);
    assert_eq!(c.memory[0x301], 5);
    assert_eq!(c.memory[0x302], 4);
}

#[test]
fn dump_then_load_round_trip() {
    // 6011, 6122, 6233 ; A300 ; F255 (dump V0..V2) ; A300 ; 6000, 6100, 6200 ; F265
    let mut c = boot(&[
        0x60, 0x11, 0x61, 0x22, 0x62, 0x33, 0xA3, 0x00, 0xF2, 0x55, 0xA3, 0x00, 0x60, 0x00,
        0x61, 0x00, 0x62, 0x00, 0xF2, 0x65,
    ]);
    run(&mut c, 5);
    // after the dump: memory holds the registers, I moved past the block
    assert_eq!(c.memory[0x300], 0x11);
    assert_eq!(c.memory[0x301], 0x22);
    assert_eq!(c.memory[0x302], 0x33);
    assert_eq!(c.i, 0x303);
    run(&mut c, 5);
    // after the reload from the same base: registers restored, I moved again
    assert_eq!(c.v[0], 0x11);
    assert_eq!(c.v[1], 0x22);
    assert_eq!(c.v[2], 0x33);
    assert_eq!(c.i, 0x303);
}

#[test]
fn timers_tick_once_per_step() {
    // 6005, F015 (delay = 5, then the same step ticks it to 4), F107
    let mut c = boot(&[0x60, 0x05, 0xF0, 0x15, 0xF1, 0x07]);
    run(&mut c, 2);
    assert_eq!(c.delay_timer, 4);
    run(&mut c, 1);
    // FX07 reads the delay timer before the tick of its own step
    assert_eq!(c.v[1], 4);
    assert_eq!(c.delay_timer, 3);

    // 6303, F318: sound = 3 ticked to 2
    let mut c2 = boot(&[0x63, 0x03, 0xF3, 0x18]);
    run(&mut c2, 2);
    assert_eq!(c2.sound_timer, 2);
}

#[test]
fn random_masked_with_zero_is_zero() {
    // 6077, C000: whatever byte the generator gave, the mask 0x00 clears it
    let mut c = boot(&[0x60, 0x77, 0xC0, 0x00]);
    run(&mut c, 2);
    assert_eq!(c.v[0], 0);
    assert_eq!(c.pc, 0x204);
}

#[test]
fn key_skip_instructions() {
    // 6004, E09E: key 4 up -> no skip
    let mut c = boot(&[0x60, 0x04, 0xE0, 0x9E]);
    run(&mut c, 2);
    assert_eq!(c.pc, 0x204);

    // key 4 down -> skip
    let mut c2 = boot(&[0x60, 0x04, 0xE0, 0x9E]);
    c2.key[4] = 1;
    run(&mut c2, 2);
    assert_eq!(c2.pc, 0x206);

    // 6004, E0A1: key 4 up -> skip
    let mut c3 = boot(&[0x60, 0x04, 0xE0, 0xA1]);
    run(&mut c3, 2);
    assert_eq!(c3.pc, 0x206);
}

#[test]
fn scenario_wait_key_blocks_until_press() {
    // F10A at 0x200
    let mut c = boot(&[0xF1, 0x0A]);
    for _ in 0..3 {
        assert_eq!(c.emulate_cycle(), Ok(()));
        assert_eq!(c.pc, 0x200);
    }
    c.key[4] = 1;
    c.key[9] = 1;
    assert_eq!(c.emulate_cycle(), Ok(()));
    assert_eq!(c.pc, 0x202);
    // the highest-indexed pressed key is what the scan leaves in VX
    assert_eq!(c.v[1], 9);
}

#[test]
fn wait_key_ticks_timers_while_blocked() {
    // 6305, F315 (delay = 5, ticked to 4 by its own step), then F00A
    // blocks: the program counter holds still, but the timers keep
    // decrementing once per step, floored at zero
    let mut c = boot(&[0x63, 0x05, 0xF3, 0x15, 0xF0, 0x0A]);
    run(&mut c, 2);
    assert_eq!(c.delay_timer, 4);
    run(&mut c, 3);
    assert_eq!(c.pc, 0x204);
    assert_eq!(c.delay_timer, 1);
    run(&mut c, 2);
    assert_eq!(c.pc, 0x204);
    assert_eq!(c.delay_timer, 0);
    c.key[0] = 1;
    run(&mut c, 1);
    assert_eq!(c.pc, 0x206);
}

#[test]
fn draw_and_redraw_restores_screen() {
    // 6000, F029 (I = glyph 0), D005, D005
    let mut c = boot(&[0x60, 0x00, 0xF0, 0x29, 0xD0, 0x05, 0xD0, 0x05]);
    run(&mut c, 3);
    // glyph 0 row 0 is 0xF0: four set pixels at the top-left corner
    assert_eq!(&c.gfx[0..8], &[1, 1, 1, 1, 0, 0, 0, 0]);
    // row 1 is 0x90
    assert_eq!(&c.gfx[64..72], &[1, 0, 0, 1, 0, 0, 0, 0]);
    assert_eq!(c.v[0xF], 0);
    assert!(c.draw_flag);
    run(&mut c, 1);
    // the second identical draw restores every pixel and reports collision
    assert!(c.gfx.iter().all(|&p| p == 0));
    assert_eq!(c.v[0xF], 1);
}

#[test]
fn draw_drops_pixels_beyond_surface() {
    // 603C (V0 = 60), 611F (V1 = 31), 6200, F229 (I = glyph 0), D015:
    // a draw at the bottom-right corner; everything past the corner is
    // dropped, nothing wraps
    let mut c = boot(&[0x60, 0x3C, 0x61, 0x1F, 0x62, 0x00, 0xF2, 0x29, 0xD0, 0x15]);
    run(&mut c, 5);
    // row 31, columns 60..63 hold the first four bits of 0xF0
    assert_eq!(&c.gfx[31 * 64 + 60..31 * 64 + 64], &[1, 1, 1, 1]);
    // nothing wrapped onto any other cell: exactly four pixels are set
    assert_eq!(c.gfx.iter().filter(|&&p| p == 1).count(), 4);
}

#[test]
fn clear_screen_resets_pixels() {
    // 6000, F029, D005, 00E0
    let mut c = boot(&[0x60, 0x00, 0xF0, 0x29, 0xD0, 0x05, 0x00, 0xE0]);
    run(&mut c, 3);
    assert!(c.gfx.iter().any(|&p| p == 1));
    run(&mut c, 1);
    assert!(c.gfx.iter().all(|&p| p == 0));
    assert!(c.draw_flag);
}

#[test]
fn scenario_return_with_empty_stack_is_fatal() {
    // 00EE at 0x200 with sp == 0
    let mut c = boot(&[0x00, 0xEE]);
    assert_eq!(c.emulate_cycle(), Err(Fault::StackUnderflow));
    assert_eq!(c.pc, 0x200);
    assert_eq!(c.sp, 0);
}

#[test]
fn deep_calls_overflow_the_stack() {
    // 2200: call 0x200 over and over
    let mut c = boot(&[0x22, 0x00]);
    for k in 1..=16 {
        assert_eq!(c.emulate_cycle(), Ok(()));
        assert_eq!(c.sp, k);
    }
    assert_eq!(c.emulate_cycle(), Err(Fault::StackOverflow));
    assert_eq!(c.sp, 16);
}

#[test]
fn unknown_opcode_is_fatal() {
    let mut c = boot(&[0x01, 0x23]);
    assert_eq!(c.emulate_cycle(), Err(Fault::UnknownOpcode(0x0123)));

    let mut c2 = boot(&[0xF0, 0xFF]);
    assert_eq!(c2.emulate_cycle(), Err(Fault::UnknownOpcode(0xF0FF)));

    let mut c3 = boot(&[0x80, 0x08]);
    assert_eq!(c3.emulate_cycle(), Err(Fault::UnknownOpcode(0x8008)));
}

#[test]
fn runaway_program_counter_is_fatal() {
    // 1FFF: jump to 0xFFF, from where no two bytes can be fetched
    let mut c = boot(&[0x1F, 0xFF]);
    run(&mut c, 1);
    assert_eq!(c.pc, 0xFFF);
    assert_eq!(c.emulate_cycle(), Err(Fault::PcOutOfBounds));
    assert_eq!(c.pc, 0xFFF);
}

#[test]
fn memory_access_beyond_end_is_fatal() {
    // AFFF, F033: BCD needs three bytes at 0xFFF
    let mut c = boot(&[0xAF, 0xFF, 0xF0, 0x33]);
    run(&mut c, 1);
    assert_eq!(c.emulate_cycle(), Err(Fault::MemOutOfBounds));

    // AFFF, F155: dump of V0..V1 needs two bytes at 0xFFF
    let mut c2 = boot(&[0xAF, 0xFF, 0xF1, 0x55]);
    run(&mut c2, 1);
    assert_eq!(c2.emulate_cycle(), Err(Fault::MemOutOfBounds));
}

#[test]
fn key_index_beyond_matrix_is_fatal() {
    // 6010 (V0 = 16), E09E
    let mut c = boot(&[0x60, 0x10, 0xE0, 0x9E]);
    run(&mut c, 1);
    assert_eq!(c.emulate_cycle(), Err(Fault::KeyOutOfBounds));
}

#[test]
fn decode_classifies_opcodes() {
    assert_eq!(decode(0x00E0), Some(Instr::Cls));
    assert_eq!(decode(0x00EE), Some(Instr::Ret));
    assert_eq!(decode(0x1ABC), Some(Instr::Jump { nnn: 0xABC }));
    assert_eq!(decode(0x2ABC), Some(Instr::Call { nnn: 0xABC }));
    assert_eq!(decode(0x3A7F), Some(Instr::SkipEqImm { x: 0xA, nn: 0x7F }));
    assert_eq!(decode(0x6C12), Some(Instr::SetImm { x: 0xC, nn: 0x12 }));
    assert_eq!(decode(0x8AB4), Some(Instr::AddReg { x: 0xA, y: 0xB }));
    assert_eq!(decode(0xD123), Some(Instr::Draw { x: 1, y: 2, n: 3 }));
    assert_eq!(decode(0xE19E), Some(Instr::SkipKey { x: 1 }));
    assert_eq!(decode(0xF10A), Some(Instr::WaitKey { x: 1 }));
    assert_eq!(decode(0xF165), Some(Instr::LoadRegs { x: 1 }));
    assert_eq!(decode(0x0123), None);
    assert_eq!(decode(0x8009), None);
    assert_eq!(decode(0xE1FF), None);
    assert_eq!(decode(0xF1FF), None);
}

#[test]
fn execute_runs_a_single_instruction() {
    let mut c = Chip8::new();
    assert_eq!(c.execute(Instr::SetImm { x: 3, nn: 0x44 }, 0), Ok(true));
    assert_eq!(c.v[3], 0x44);
    // CXNN applies the mask to the byte the caller hands in
    assert_eq!(c.execute(Instr::RandMask { x: 4, nn: 0x0F }, 0xAB), Ok(true));
    assert_eq!(c.v[4], 0x0B);
}

#[test]
fn draw_zero_rows_touches_no_pixel() {
    // D000: a zero-height sprite still clears VF and marks the display
    let mut c = boot(&[0xD0, 0x00]);
    run(&mut c, 1);
    assert!(c.gfx.iter().all(|&p| p == 0));
    assert_eq!(c.v[0xF], 0);
    assert!(c.draw_flag);
}
