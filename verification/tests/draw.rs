use chip8::{Chip8, Fault, GFX_SIZE};

fn machine() -> Chip8 {
    let mut m = Chip8::new();
    m.init();
    m
}

fn lit(m: &Chip8) -> Vec<usize> {
    (0..GFX_SIZE).filter(|c| m.gfx[*c] != 0).collect()
}

#[test]
fn draw_full_sprite_on_dark_screen_and_again() {
    let mut m = machine();
    m.index = 0x300;
    m.memory[0x300] = 0xFF;
    m.memory[0x301] = 0xFF;
    m.v[1] = 10;
    m.v[2] = 5;
    m.v[15] = 1;
    assert_eq!(m.execute(0xD122, 0), Ok(()));
    assert_eq!(m.v[15], 0);
    assert!(m.draw_flag);
    assert_eq!(m.pc, 0x202);
    let mut expected: Vec<usize> = Vec::new();
    for row in 0..2 {
        for col in 0..8 {
            expected.push(10 + col + (5 + row) * 64);
        }
    }
    assert_eq!(lit(&m), expected);
    assert!(expected.iter().all(|c| m.gfx[*c] == 1));

    m.draw_flag = false;
    assert_eq!(m.execute(0xD122, 0), Ok(()));
    assert_eq!(m.v[15], 1);
    assert!(m.draw_flag);
    assert!(lit(&m).is_empty());
}

#[test]
fn draw_wraps_round_the_framebuffer() {
    let mut m = machine();
    m.index = 0x300;
    m.memory[0x300] = 0xFF;
    m.v[0] = 63;
    m.v[1] = 31;
    assert_eq!(m.execute(0xD011, 0), Ok(()));
    assert_eq!(lit(&m), vec![0, 1, 2, 3, 4, 5, 6, 2047]);
    assert_eq!(m.v[15], 0);
}

#[test]
fn draw_runs_over_the_right_edge_into_the_next_row() {
    let mut m = machine();
    m.index = 0x300;
    m.memory[0x300] = 0xFF;
    m.v[0] = 60;
    m.v[1] = 0;
    assert_eq!(m.execute(0xD011, 0), Ok(()));
    assert_eq!(lit(&m), vec![60, 61, 62, 63, 64, 65, 66, 67]);
}

#[test]
fn draw_with_coordinates_beyond_the_screen_wraps() {
    let mut m = machine();
    m.index = 0x300;
    m.memory[0x300] = 0x80;
    m.memory[0x301] = 0x01;
    m.v[0] = 255;
    m.v[1] = 255;
    assert_eq!(m.execute(0xD012, 0), Ok(()));
    let first = (255 + 255 * 64) % 2048;
    let second = (255 + 7 + 256 * 64) % 2048;
    assert_eq!(first, 191);
    assert_eq!(second, 262);
    assert_eq!(lit(&m), vec![191, 262]);
}

#[test]
fn draw_uses_set_bits_only() {
    let mut m = machine();
    m.index = 0x300;
    m.memory[0x300] = 0b1010_0001;
    m.v[3] = 8;
    m.v[4] = 2;
    assert_eq!(m.execute(0xD341, 0), Ok(()));
    assert_eq!(lit(&m), vec![136, 138, 143]);
    assert_eq!(m.v[15], 0);
}

#[test]
fn draw_collision_toggles_and_sets_flag() {
    let mut m = machine();
    m.index = 0x300;
    m.memory[0x300] = 0b1100_0000;
    m.gfx[1] = 1;
    m.gfx[5] = 1;
    assert_eq!(m.execute(0xD011, 0), Ok(()));
    assert_eq!(m.v[15], 1);
    assert_eq!(lit(&m), vec![0, 5]);
}

#[test]
fn draw_without_collision_clears_flag() {
    let mut m = machine();
    m.index = 0x300;
    m.memory[0x300] = 0b1100_0000;
    m.gfx[2] = 1;
    m.v[15] = 1;
    assert_eq!(m.execute(0xD011, 0), Ok(()));
    assert_eq!(m.v[15], 0);
    assert_eq!(lit(&m), vec![0, 1, 2]);
}

#[test]
fn draw_a_font_glyph() {
    let mut m = machine();
    m.v[0] = 1;
    assert_eq!(m.execute(0xF029, 0), Ok(()));
    m.v[1] = 0;
    m.v[2] = 0;
    assert_eq!(m.execute(0xD125, 0), Ok(()));
    // glyph 1: 0x20, 0x60, 0x20, 0x20, 0x70
    assert_eq!(lit(&m), vec![2, 64 + 1, 64 + 2, 128 + 2, 192 + 2, 256 + 1, 256 + 2, 256 + 3]);
}

#[test]
fn draw_of_no_rows_sets_flags_only() {
    let mut m = machine();
    m.index = 5000;
    m.v[15] = 1;
    m.gfx[7] = 1;
    assert_eq!(m.execute(0xD120, 0), Ok(()));
    assert_eq!(m.v[15], 0);
    assert!(m.draw_flag);
    assert_eq!(lit(&m), vec![7]);
    assert_eq!(m.pc, 0x202);
}

#[test]
fn draw_reads_position_before_the_flag_is_written() {
    let mut m = machine();
    m.index = 0x300;
    m.memory[0x300] = 0xC0;
    m.v[15] = 4;
    m.gfx[4] = 1;
    assert_eq!(m.execute(0xDF01, 0), Ok(()));
    assert_eq!(lit(&m), vec![5]);
    assert_eq!(m.v[15], 1);
}

#[test]
fn draw_of_fifteen_rows_at_the_end_of_memory() {
    let mut m = machine();
    m.index = 4096 - 15;
    for a in 4081..4096 {
        m.memory[a] = 0x80;
    }
    assert_eq!(m.execute(0xD01F, 0), Ok(()));
    let expected: Vec<usize> = (0..15).map(|row| row * 64).collect();
    assert_eq!(lit(&m), expected);
}

#[test]
fn draw_of_a_sprite_beyond_memory_is_refused() {
    let mut m = machine();
    m.index = 4096 - 14;
    m.gfx[3] = 1;
    let before = m.clone();
    assert_eq!(m.execute(0xD01F, 0), Err(Fault::Memory { index: 4082 }));
    assert_eq!(m, before);
    m.index = usize::MAX;
    assert_eq!(m.execute(0xD011, 0), Err(Fault::Memory { index: usize::MAX }));
}

#[test]
fn draw_twice_restores_any_screen() {
    let mut m = machine();
    for c in 0..GFX_SIZE {
        m.gfx[c] = ((c * 7 + c / 5) % 3 == 0) as u8;
    }
    let screen = m.gfx;
    m.index = 0;
    m.v[6] = 61;
    m.v[7] = 30;
    assert_eq!(m.execute(0xD67F, 0), Ok(()));
    assert_ne!(m.gfx, screen);
    assert_eq!(m.execute(0xD67F, 0), Ok(()));
    assert_eq!(m.gfx, screen);
}

#[test]
fn clear_screen_darkens_every_cell() {
    let mut m = machine();
    for c in 0..GFX_SIZE {
        m.gfx[c] = 1;
    }
    assert_eq!(m.execute(0x00E0, 0), Ok(()));
    assert!(lit(&m).is_empty());
    assert!(m.draw_flag);
    assert_eq!(m.pc, 0x202);
}
