use chip8::{Chip8, Fault, FONTSET, MEMORY_SIZE, PROGRAM_START};

fn machine() -> Chip8 {
    let mut m = Chip8::new();
    m.init();
    m
}

#[test]
fn new_machine_is_zero_with_program_counter_at_program_start() {
    let m = Chip8::new();
    assert_eq!(m.pc, 0x200);
    assert_eq!(m.sp, 0);
    assert_eq!(m.index, 0);
    assert_eq!(m.opcode, 0);
    assert_eq!(m.delay_timer, 0);
    assert_eq!(m.sound_timer, 0);
    assert!(!m.draw_flag);
    assert!(m.memory.iter().all(|b| *b == 0));
    assert!(m.gfx.iter().all(|b| *b == 0));
    assert!(m.v.iter().all(|b| *b == 0));
    assert!(m.stack.iter().all(|a| *a == 0));
    assert!(m.key.iter().all(|k| !*k));
}

#[test]
fn init_puts_font_set_at_the_bottom_of_memory() {
    let mut m = Chip8::new();
    m.memory[79] = 0x55;
    m.memory[80] = 0x66;
    m.memory[0x200] = 0x77;
    m.init();
    assert_eq!(&m.memory[0..80], &FONTSET[..]);
    assert_eq!(&m.memory[0..5], &[0xF0, 0x90, 0x90, 0x90, 0xF0]);
    assert_eq!(&m.memory[75..80], &[0xF0, 0x80, 0xF0, 0x80, 0x80]);
    assert_eq!(m.memory[80], 0x66);
    assert_eq!(m.memory[0x200], 0x77);
    assert_eq!(m.pc, 0x200);
}

#[test]
fn init_twice_is_init_once() {
    let mut once = Chip8::new();
    once.init();
    let mut twice = once.clone();
    twice.init();
    assert_eq!(once, twice);
}

#[test]
fn load_rom_copies_to_program_start() {
    let mut m = machine();
    m.memory[0x1FF] = 0x11;
    m.memory[0x203] = 0x22;
    assert_eq!(m.load_rom(&[0xA1, 0xB2, 0xC3]), Ok(()));
    assert_eq!(m.memory[0x1FF], 0x11);
    assert_eq!(&m.memory[0x200..0x204], &[0xA1, 0xB2, 0xC3, 0x22]);
    assert_eq!(&m.memory[0..80], &FONTSET[..]);
    assert_eq!(m.pc, 0x200);
}

#[test]
fn load_rom_of_nothing_changes_nothing() {
    let mut m = machine();
    let before = m.clone();
    assert_eq!(m.load_rom(&[]), Ok(()));
    assert_eq!(m, before);
}

#[test]
fn load_rom_that_fills_memory() {
    let mut m = machine();
    let program = vec![0xAB; MEMORY_SIZE - PROGRAM_START];
    assert_eq!(m.load_rom(&program), Ok(()));
    assert_eq!(m.memory[0x1FF], 0);
    assert!(m.memory[0x200..].iter().all(|b| *b == 0xAB));
    assert_eq!(&m.memory[0..80], &FONTSET[..]);
}

#[test]
fn load_rom_one_byte_too_long_is_refused() {
    let mut m = machine();
    m.memory[0x200] = 0x5A;
    m.memory[4095] = 0xA5;
    let before = m.clone();
    let program = vec![0xFF; 4096 - 0x200 + 1];
    assert_eq!(m.load_rom(&program), Err(Fault::Capacity { len: 3585 }));
    assert_eq!(m, before);
    assert_eq!(m.memory[0x200], 0x5A);
    assert_eq!(m.memory[4095], 0xA5);
    assert!(m.memory[80..0x200].iter().all(|b| *b == 0));
}

#[test]
fn store_decimal_digits() {
    let mut m = machine();
    m.v[2] = 234;
    m.index = 0x300;
    assert_eq!(m.execute(0xF233, 0), Ok(()));
    assert_eq!(&m.memory[0x300..0x303], &[2, 3, 4]);
    assert_eq!(m.memory[0x303], 0);
    assert_eq!(m.index, 0x300);
    assert_eq!(m.pc, 0x202);
    m.v[2] = 7;
    assert_eq!(m.execute(0xF233, 0), Ok(()));
    assert_eq!(&m.memory[0x300..0x303], &[0, 0, 7]);
    m.v[2] = 255;
    assert_eq!(m.execute(0xF233, 0), Ok(()));
    assert_eq!(&m.memory[0x300..0x303], &[2, 5, 5]);
}

#[test]
fn store_decimal_digits_at_the_end_of_memory() {
    let mut m = machine();
    m.v[2] = 190;
    m.index = 4093;
    assert_eq!(m.execute(0xF233, 0), Ok(()));
    assert_eq!(&m.memory[4093..4096], &[1, 9, 0]);
    m.index = 4094;
    let before = m.clone();
    assert_eq!(m.execute(0xF233, 0), Err(Fault::Memory { index: 4094 }));
    assert_eq!(m, before);
}

#[test]
fn store_registers_up_to_x() {
    let mut m = machine();
    for r in 0..16 {
        m.v[r] = 0x10 + r as u8;
    }
    m.index = 0x400;
    m.memory[0x404] = 0xEE;
    assert_eq!(m.execute(0xF355, 0), Ok(()));
    assert_eq!(&m.memory[0x400..0x405], &[0x10, 0x11, 0x12, 0x13, 0xEE]);
    assert_eq!(m.memory[0x3FF], 0);
    assert_eq!(m.index, 0x400);
    assert_eq!(m.pc, 0x202);
}

#[test]
fn store_only_the_first_register() {
    let mut m = machine();
    m.v[0] = 0x99;
    m.v[1] = 0x88;
    m.index = 0x400;
    assert_eq!(m.execute(0xF055, 0), Ok(()));
    assert_eq!(&m.memory[0x400..0x402], &[0x99, 0x00]);
}

#[test]
fn store_all_registers_at_the_end_of_memory() {
    let mut m = machine();
    for r in 0..16 {
        m.v[r] = r as u8 + 1;
    }
    m.index = 4080;
    assert_eq!(m.execute(0xFF55, 0), Ok(()));
    assert_eq!(
        &m.memory[4080..4096],
        &[1, 2, 3, 4, 5, 6, 7, 8, 9, 10, 11, 12, 13, 14, 15, 16]
    );
    m.index = 4081;
    let before = m.clone();
    assert_eq!(m.execute(0xFF55, 0), Err(Fault::Memory { index: 4081 }));
    assert_eq!(m, before);
}

#[test]
fn load_registers_up_to_x() {
    let mut m = machine();
    m.index = 0x500;
    for a in 0..16 {
        m.memory[0x500 + a] = 0xA0 + a as u8;
    }
    m.v[3] = 0x33;
    assert_eq!(m.execute(0xF265, 0), Ok(()));
    assert_eq!(&m.v[0..4], &[0xA0, 0xA1, 0xA2, 0x33]);
    assert_eq!(m.index, 0x500);
    assert_eq!(m.pc, 0x202);
}

#[test]
fn load_all_registers() {
    let mut m = machine();
    m.index = 4080;
    for a in 0..16 {
        m.memory[4080 + a] = 0xF0 - a as u8;
    }
    assert_eq!(m.execute(0xFF65, 0), Ok(()));
    for r in 0..16 {
        assert_eq!(m.v[r], 0xF0 - r as u8);
    }
}

#[test]
fn load_registers_beyond_memory_is_refused() {
    let mut m = machine();
    m.index = 4095;
    m.memory[4095] = 0x42;
    assert_eq!(m.execute(0xF065, 0), Ok(()));
    assert_eq!(m.v[0], 0x42);
    let before = m.clone();
    assert_eq!(m.execute(0xF165, 0), Err(Fault::Memory { index: 4095 }));
    assert_eq!(m, before);
    m.index = usize::MAX;
    assert_eq!(m.execute(0xF065, 0), Err(Fault::Memory { index: usize::MAX }));
}

#[test]
fn store_then_load_round_trip() {
    let mut m = machine();
    for r in 0..8 {
        m.v[r] = 3 * r as u8 + 1;
    }
    m.index = 0x600;
    assert_eq!(m.execute(0xF755, 0), Ok(()));
    let saved = m.v;
    for r in 0..8 {
        m.v[r] = 0;
    }
    assert_eq!(m.execute(0xF765, 0), Ok(()));
    assert_eq!(m.v, saved);
}
