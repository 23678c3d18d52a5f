use oxiboy_core::gb::GameBoy;
use oxiboy_core::joypad::JoypadButton;
use oxiboy_core::keys::str_to_button;
use oxiboy_core::{CLOCK_SPEED, CYCLES_PER_FRAME, SCREEN_HEIGHT, SCREEN_WIDTH};

fn rom(title: &[u8]) -> Vec<u8> {
    let mut rom = vec![0u8; 0x8000];
    rom[0x134..0x134 + title.len()].copy_from_slice(title);
    rom
}

#[test]
fn constants() {
    assert_eq!(SCREEN_WIDTH, 160);
    assert_eq!(SCREEN_HEIGHT, 144);
    assert_eq!(CLOCK_SPEED, 4_194_304);
    assert_eq!(CYCLES_PER_FRAME, 70224);
}

#[test]
fn gameboy_new_title_and_screen() {
    let gb = GameBoy::new(rom(b"POKEMON RED"));
    assert_eq!(gb.title(), "POKEMON RED");
    assert_eq!(gb.screen_size(), (160, 144));
    assert_eq!(gb.framebuffer().len(), 160 * 144 * 4);
    assert_eq!(gb.cpu.pc, 0x0100);
    assert_eq!(gb.bus.if_reg, 0xE1);
}

#[test]
fn gameboy_run_frame_reports_ready_frame() {
    let mut gb = GameBoy::new(rom(b""));
    assert!(gb.run_frame());
    // the VBlank request landed in IF
    assert_eq!(gb.bus.if_reg & 0x01, 0x01);
    // the screen was drawn: background colour 0 through BGP 0xFC is white
    assert!(gb.framebuffer().iter().all(|b| *b == 255));
    assert!(gb.run_frame());
}

#[test]
fn gameboy_run_frame_without_vblank_is_not_ready() {
    let mut gb = GameBoy::new(rom(b""));
    assert!(gb.run_frame());
    // with the LCD off the PPU never reaches VBlank in the next frame
    gb.bus.ppu.lcdc &= 0x7F;
    assert!(!gb.run_frame());
    assert!(!gb.bus.ppu.frame_ready);
}

#[test]
fn gameboy_frame_advances_timer_divider() {
    let mut gb = GameBoy::new(rom(b"T"));
    let div0 = gb.bus.timer.div_counter;
    gb.run_frame();
    let elapsed = gb.bus.timer.div_counter.wrapping_sub(div0) as u32;
    // a frame runs 70224 cycles plus at most one instruction's overshoot
    assert!(elapsed >= (70224 % 65536) && elapsed < (70224 % 65536) + 24);
}

#[test]
fn gameboy_joypad_interrupt_requested_on_press() {
    let mut gb = GameBoy::new(rom(b"J"));
    gb.bus.if_reg = 0;
    gb.press(JoypadButton::Start);
    assert!(gb.bus.joypad.interrupt);
    assert_eq!(gb.bus.joypad.buttons, 0x07);
    gb.run_frame();
    assert_eq!(gb.bus.if_reg & 0x10, 0x10);
    assert!(!gb.bus.joypad.interrupt);
    gb.release(JoypadButton::Start);
    assert_eq!(gb.bus.joypad.buttons, 0x0F);
}

#[test]
fn gameboy_timer_interrupt_requested() {
    let mut gb = GameBoy::new(rom(b"T"));
    gb.bus.if_reg = 0;
    gb.bus.timer.tac = 0x05;
    gb.bus.timer.tima = 0xFE;
    gb.run_frame();
    assert_eq!(gb.bus.if_reg & 0x04, 0x04);
}

#[test]
fn keys_map_to_buttons() {
    for (key, button) in [
        ("a", JoypadButton::A),
        ("z", JoypadButton::A),
        ("b", JoypadButton::B),
        ("x", JoypadButton::B),
        ("select", JoypadButton::Select),
        ("Shift", JoypadButton::Select),
        ("start", JoypadButton::Start),
        ("Enter", JoypadButton::Start),
        ("right", JoypadButton::Right),
        ("ArrowRight", JoypadButton::Right),
        ("left", JoypadButton::Left),
        ("ArrowLeft", JoypadButton::Left),
        ("up", JoypadButton::Up),
        ("ArrowUp", JoypadButton::Up),
        ("down", JoypadButton::Down),
        ("ArrowDown", JoypadButton::Down),
    ] {
        assert_eq!(str_to_button(key), Some(button));
    }
}

#[test]
fn keys_unknown_names_map_to_nothing() {
    for key in ["", "A", "Z", "enter", "arrowup", "starts", "Escape", "aa", "é"] {
        assert_eq!(str_to_button(key), None);
    }
}
