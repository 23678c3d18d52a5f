use oxiboy_core::joypad::{Joypad, JoypadButton};
use oxiboy_core::timer::Timer;

#[test]
fn joypad_starts_released_and_unselected() {
    let j = Joypad::new();
    assert_eq!(j.buttons, 0x0F);
    assert_eq!(j.dpad, 0x0F);
    assert_eq!(j.select, 0x30);
    assert!(!j.interrupt);
    assert_eq!(j.read(), 0xF0);
}

#[test]
fn joypad_select_buttons_shows_action_nibble() {
    let mut j = Joypad::new();
    j.write(0x10); // bit 5 clear: action buttons
    assert_eq!(j.read(), 0xDF);
    j.press(JoypadButton::A);
    assert_eq!(j.read(), 0xDE);
    assert!(j.interrupt);
    j.press(JoypadButton::Start);
    assert_eq!(j.read(), 0xD6);
}

#[test]
fn joypad_select_dpad_shows_direction_nibble() {
    let mut j = Joypad::new();
    j.write(0x20); // bit 4 clear: directions
    j.press(JoypadButton::Down);
    assert_eq!(j.read(), 0xE7);
    j.press(JoypadButton::Left);
    assert_eq!(j.read(), 0xE5);
}

#[test]
fn joypad_both_groups_selected_direction_wins() {
    let mut j = Joypad::new();
    j.write(0x00);
    j.press(JoypadButton::A);
    j.press(JoypadButton::Up);
    // the direction nibble replaces the action nibble
    assert_eq!(j.read(), 0xCB);
}

#[test]
fn joypad_write_keeps_only_select_bits() {
    let mut j = Joypad::new();
    j.write(0xFF);
    assert_eq!(j.select, 0x30);
    j.write(0xCF);
    assert_eq!(j.select, 0x00);
}

#[test]
fn joypad_release_undoes_press() {
    for b in [
        JoypadButton::A,
        JoypadButton::B,
        JoypadButton::Select,
        JoypadButton::Start,
        JoypadButton::Right,
        JoypadButton::Left,
        JoypadButton::Up,
        JoypadButton::Down,
    ] {
        let mut j = Joypad::new();
        j.press(b);
        assert!(j.buttons != 0x0F || j.dpad != 0x0F);
        j.release(b);
        assert_eq!(j.buttons, 0x0F);
        assert_eq!(j.dpad, 0x0F);
        assert!(j.interrupt);
    }
}

#[test]
fn joypad_read_top_bits_always_set() {
    let mut j = Joypad::new();
    for sel in [0x00u8, 0x10, 0x20, 0x30] {
        j.write(sel);
        j.press(JoypadButton::B);
        j.press(JoypadButton::Right);
        assert_eq!(j.read() & 0xC0, 0xC0);
    }
}

#[test]
fn timer_new_and_div() {
    let t = Timer::new();
    assert_eq!(t.div(), 0xAB);
    assert_eq!(t.tima, 0);
    assert!(!t.interrupt);
}

#[test]
fn timer_reset_div_reads_zero() {
    let mut t = Timer::new();
    t.reset_div();
    assert_eq!(t.div(), 0);
    t.step(256);
    assert_eq!(t.div(), 1);
}

#[test]
fn timer_div_wraps() {
    let mut t = Timer::new();
    t.div_counter = 0xFFF0;
    t.step(0x20);
    assert_eq!(t.div_counter, 0x0010);
    assert_eq!(t.div(), 0);
}

#[test]
fn timer_disabled_does_not_tick() {
    let mut t = Timer::new();
    t.tac = 0x01;
    t.step(1000);
    assert_eq!(t.tima, 0);
    assert_eq!(t.timer_counter, 0);
}

#[test]
fn timer_periods() {
    for (tac, period) in [(0x04u8, 1024u32), (0x05, 16), (0x06, 64), (0x07, 256)] {
        let mut t = Timer::new();
        t.tac = tac;
        t.step(period * 3 + 1);
        assert_eq!(t.tima, 3);
        assert_eq!(t.timer_counter, 1);
        assert!(!t.interrupt);
    }
}

#[test]
fn timer_overflow_reloads_tma_and_requests_interrupt() {
    let mut t = Timer::new();
    t.tac = 0x05;
    t.tima = 0xFF;
    t.tma = 0x42;
    t.step(16);
    assert_eq!(t.tima, 0x42);
    assert!(t.interrupt);
    t.step(16);
    assert_eq!(t.tima, 0x43);
    assert!(!t.interrupt);
}

#[test]
fn timer_counter_stays_below_period() {
    let mut t = Timer::new();
    t.tac = 0x04;
    for _ in 0..100 {
        t.step(24);
        assert!(t.timer_counter < 1024);
    }
    t.tac = 0x05;
    t.step(4);
    assert!(t.timer_counter < 16);
}

#[test]
fn timer_split_step_matches_single_step() {
    let mut split = Timer::new();
    let mut whole = Timer::new();
    for t in [&mut split, &mut whole] {
        t.tac = 0x05;
        t.tima = 0xFE;
        t.tma = 0x10;
    }
    split.step(20);
    split.step(30);
    whole.step(50);
    assert_eq!(split.tima, whole.tima);
    assert_eq!(split.tima, 0x11);
    assert_eq!(split.div(), whole.div());
    assert_eq!(split.div_counter, whole.div_counter);
    assert_eq!(split.timer_counter, whole.timer_counter);
    assert_eq!(split.timer_counter, 2);
}
