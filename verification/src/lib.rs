//! A Game Boy (DMG) emulator core: CPU, memory bus, cartridge banking,
//! picture processing unit, timer and joypad, with their behaviour stated
//! as contracts over mathematical models of the hardware state.

pub mod joypad;
pub mod timer;
pub mod cartridge;
pub mod ppu;
pub mod bus;
pub mod cpu_spec;
pub mod cpu;
pub mod cpu_laws;
pub mod gb;
pub mod keys;

pub use joypad::JoypadButton;
pub use cartridge::Cartridge;
pub use gb::GameBoy;

use vstd::prelude::*;

verus! {

/// Screen width in pixels.
pub const SCREEN_WIDTH: usize = 160;

/// Screen height in pixels.
pub const SCREEN_HEIGHT: usize = 144;

/// Clock speed: 4.194304 MHz
pub const CLOCK_SPEED: u32 = 4_194_304;

/// Cycles per frame (at ~59.7 fps)
pub const CYCLES_PER_FRAME: u32 = 70224;

} // verus!
