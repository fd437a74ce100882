use chip8::machine::{Chip8, LoadError};

#[test]
fn fresh_machine_state() {
    let c = Chip8::new();
    assert_eq!(c.pc, 0x200);
    assert_eq!(c.i, 0);
    assert_eq!(c.sp, 0);
    assert_eq!(c.delay_timer, 0);
    assert_eq!(c.sound_timer, 0);
    assert!(!c.draw_flag);
    assert_eq!(c.memory.len(), 4096);
    assert_eq!(c.v.len(), 16);
    assert_eq!(c.stack.len(), 16);
    assert_eq!(c.gfx.len(), 2048);
    assert_eq!(c.key.len(), 16);
    assert!(c.v.iter().all(|&b| b == 0));
    assert!(c.gfx.iter().all(|&b| b == 0));
    assert!(c.key.iter().all(|&b| b == 0));
    assert!(c.memory[80..].iter().all(|&b| b == 0));
}

#[test]
fn font_preloaded_at_zero() {
    let c = Chip8::new();
    // glyph 0
    assert_eq!(&c.memory[0..5], &[0xF0, 0x90, 0x90, 0x90, 0xF0]);
    // glyph 1
    assert_eq!(&c.memory[5..10], &[0x20, 0x60, 0x20, 0x20, 0x70]);
    // glyph F
    assert_eq!(&c.memory[75..80], &[0xF0, 0x80, 0xF0, 0x80, 0x80]);
}

#[test]
fn load_places_rom_at_512() {
    let mut c = Chip8::new();
    let rom = vec![0xAA, 0xBB, 0xCC];
    assert_eq!(c.load(&rom), Ok(()));
    assert_eq!(c.memory[512], 0xAA);
    assert_eq!(c.memory[513], 0xBB);
    assert_eq!(c.memory[514], 0xCC);
    assert_eq!(c.memory[515], 0);
    // the font region is untouched
    assert_eq!(c.memory[0], 0xF0);
    assert_eq!(c.pc, 0x200);
}

#[test]
fn load_largest_rom_reaches_last_byte() {
    let mut c = Chip8::new();
    let mut rom = vec![0u8; 3584];
    rom[3583] = 0x7E;
    assert_eq!(c.load(&rom), Ok(()));
    assert_eq!(c.memory[4095], 0x7E);
}

#[test]
fn load_oversized_rom_rejected_without_change() {
    let mut c = Chip8::new();
    let fresh = Chip8::new();
    let rom = vec![0x55u8; 3585];
    assert_eq!(c.load(&rom), Err(LoadError::RomTooLarge));
    // the machine is exactly as if load had never been called
    assert_eq!(c.memory, fresh.memory);
    assert_eq!(c.v, fresh.v);
    assert_eq!(c.pc, fresh.pc);
    assert_eq!(c.i, fresh.i);
    assert_eq!(c.sp, fresh.sp);
}

#[test]
fn load_twice_overwrites_program() {
    let mut c = Chip8::new();
    assert_eq!(c.load(&vec![0x11, 0x22, 0x33]), Ok(()));
    assert_eq!(c.load(&vec![0x44]), Ok(()));
    assert_eq!(c.memory[512], 0x44);
    // bytes beyond the new ROM keep their previous contents
    assert_eq!(c.memory[513], 0x22);
}

#[test]
fn load_empty_rom_changes_nothing() {
    let mut c = Chip8::new();
    let fresh = Chip8::new();
    assert_eq!(c.load(&Vec::new()), Ok(()));
    assert_eq!(c.memory, fresh.memory);
}
