use chip8::Chip8;

#[test]
fn delay_timer_reaches_zero_and_stays() {
    let mut m = Chip8::new();
    m.delay_timer = 2;
    assert!(!m.update_timers());
    assert_eq!(m.delay_timer, 1);
    assert!(!m.update_timers());
    assert_eq!(m.delay_timer, 0);
    for _ in 0..3 {
        assert!(!m.update_timers());
        assert_eq!(m.delay_timer, 0);
    }
}

#[test]
fn sound_timer_beeps_when_it_leaves_one() {
    let mut m = Chip8::new();
    m.sound_timer = 3;
    assert!(!m.update_timers());
    assert_eq!(m.sound_timer, 2);
    assert!(!m.update_timers());
    assert_eq!(m.sound_timer, 1);
    assert!(m.update_timers());
    assert_eq!(m.sound_timer, 0);
    assert!(!m.update_timers());
    assert_eq!(m.sound_timer, 0);
}

#[test]
fn timers_run_independently() {
    let mut m = Chip8::new();
    m.delay_timer = 255;
    m.sound_timer = 1;
    assert!(m.update_timers());
    assert_eq!(m.delay_timer, 254);
    assert_eq!(m.sound_timer, 0);
}

#[test]
fn tick_changes_only_the_timers() {
    let mut m = Chip8::new();
    m.init();
    m.v[3] = 9;
    m.delay_timer = 10;
    m.sound_timer = 20;
    let mut expected = m.clone();
    expected.delay_timer = 9;
    expected.sound_timer = 19;
    assert!(!m.update_timers());
    assert_eq!(m, expected);
}

#[test]
fn cycles_do_not_tick_the_timers() {
    let mut m = Chip8::new();
    assert_eq!(m.load_rom(&[0x60, 0x01, 0x61, 0x02]), Ok(()));
    m.delay_timer = 5;
    m.sound_timer = 5;
    assert_eq!(m.emulate_cycle(), Ok(()));
    assert_eq!(m.emulate_cycle(), Ok(()));
    assert_eq!(m.delay_timer, 5);
    assert_eq!(m.sound_timer, 5);
}
