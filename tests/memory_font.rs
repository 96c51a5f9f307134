use chip8::memory::Memory;

#[test]
fn font_glyphs_are_preloaded() {
    let mem = Memory::new();
    let zero = [0xF0u8, 0x90, 0x90, 0x90, 0xF0];
    let f = [0xF0u8, 0x80, 0xF0, 0x80, 0x80];
    for r in 0..5 {
        assert_eq!(mem.read_byte(r), zero[r]);
        assert_eq!(mem.read_byte(0xF * 5 + r), f[r]);
    }
    assert_eq!(mem.read_byte(0x50), 0);
    assert_eq!(mem.read_byte(0x200), 0);
}

#[test]
fn addresses_wrap_modulo_4096() {
    let mut mem = Memory::new();
    mem.write_byte(0x1005, 0xAB);
    assert_eq!(mem.read_byte(0x005), 0xAB);
    assert_eq!(mem.read_byte(0x2005), 0xAB);
    mem.write_byte(0xFFF, 0x12);
    assert_eq!(mem.read_byte(0x1FFF), 0x12);
}

#[test]
fn program_is_loaded_at_0x200() {
    let mut mem = Memory::new();
    mem.load_program(&[1, 2, 3]);
    assert_eq!(mem.read_byte(0x1FF), 0);
    assert_eq!(mem.read_byte(0x200), 1);
    assert_eq!(mem.read_byte(0x202), 3);
    assert_eq!(mem.read_byte(0x203), 0);
    assert_eq!(mem.read_byte(0), 0xF0);
}

#[test]
fn largest_program_fills_memory_to_the_end() {
    let mut mem = Memory::new();
    let program = vec![0x77u8; 0xE00];
    mem.load_program(&program);
    assert_eq!(mem.read_byte(0xFFF), 0x77);
    assert_eq!(mem.read_byte(0x4F), 0x80);
}
