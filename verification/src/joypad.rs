use vstd::prelude::*;

verus! {

/// Game Boy Joypad input
pub struct Joypad {
    /// Button state (active low): Start, Select, B, A
    pub buttons: u8,
    /// Direction state (active low): Down, Up, Left, Right
    pub dpad: u8,
    /// Select bits (0xFF00 write)
    pub select: u8,
    /// Interrupt flag
    pub interrupt: bool,
}

/// A button of the Game Boy.
#[derive(Clone, Copy, PartialEq, Eq, Structural, Debug)]
pub enum JoypadButton {
    A,
    B,
    Select,
    Start,
    Right,
    Left,
    Up,
    Down,
}

impl JoypadButton {
    /// The bit that stands for this button in its group's nibble.
    pub open spec fn mask(self) -> u8 {
        match self {
            JoypadButton::A | JoypadButton::Right => 0x01,
            JoypadButton::B | JoypadButton::Left => 0x02,
            JoypadButton::Select | JoypadButton::Up => 0x04,
            JoypadButton::Start | JoypadButton::Down => 0x08,
        }
    }

    /// Whether the button belongs to the direction pad (else to the action buttons).
    pub open spec fn is_direction(self) -> bool {
        match self {
            JoypadButton::Right | JoypadButton::Left | JoypadButton::Up | JoypadButton::Down => true,
            _ => false,
        }
    }
}

impl Joypad {
    /// The value that a read of register 0xFF00 gives: the select bits with
    /// bits 6 and 7 set, and the low nibble replaced by the action buttons
    /// when bit 5 is clear, then by the direction pad when bit 4 is clear.
    pub open spec fn read_spec(&self) -> u8 {
        let r0 = self.select | 0xC0;
        let r1 = if self.select & 0x20 == 0 { (r0 & 0xF0) | self.buttons } else { r0 };
        if self.select & 0x10 == 0 { (r1 & 0xF0) | self.dpad } else { r1 }
    }

    /// The state after `button` is pressed: its bit cleared (active low), interrupt raised.
    pub open spec fn pressed(self, button: JoypadButton) -> Joypad {
        if button.is_direction() {
            Joypad { dpad: self.dpad & !button.mask(), interrupt: true, ..self }
        } else {
            Joypad { buttons: self.buttons & !button.mask(), interrupt: true, ..self }
        }
    }

    /// The state after `button` is released: its bit set again.
    pub open spec fn released(self, button: JoypadButton) -> Joypad {
        if button.is_direction() {
            Joypad { dpad: self.dpad | button.mask(), ..self }
        } else {
            Joypad { buttons: self.buttons | button.mask(), ..self }
        }
    }

    /// The power-on state: no button down, neither group selected.
    pub open spec fn initial() -> Joypad {
        Joypad { buttons: 0x0F, dpad: 0x0F, select: 0x30, interrupt: false }
    }

    pub fn new() -> (j: Self)
        ensures
            j == Joypad::initial(),
    {
        Joypad { buttons: 0x0F, dpad: 0x0F, select: 0x30, interrupt: false }
    }

    pub fn read(&self) -> (r: u8)
        ensures
            r == self.read_spec(),
    {
        let mut result = self.select | 0xC0;
        if self.select & 0x20 == 0 {
            result = (result & 0xF0) | self.buttons;
        }
        if self.select & 0x10 == 0 {
            result = (result & 0xF0) | self.dpad;
        }
        result
    }

    pub fn write(&mut self, val: u8)
        ensures
            *final(self) == (Joypad { select: val & 0x30, ..*old(self) }),
    {
        self.select = val & 0x30;
    }

    pub fn press(&mut self, button: JoypadButton)
        ensures
            *final(self) == old(self).pressed(button),
    {
        match button {
            JoypadButton::A => self.buttons &= !0x01,
            JoypadButton::B => self.buttons &= !0x02,
            JoypadButton::Select => self.buttons &= !0x04,
            JoypadButton::Start => self.buttons &= !0x08,
            JoypadButton::Right => self.dpad &= !0x01,
            JoypadButton::Left => self.dpad &= !0x02,
            JoypadButton::Up => self.dpad &= !0x04,
            JoypadButton::Down => self.dpad &= !0x08,
        }
        self.interrupt = true;
    }

    pub fn release(&mut self, button: JoypadButton)
        ensures
            *final(self) == old(self).released(button),
    {
        match button {
            JoypadButton::A => self.buttons |= 0x01,
            JoypadButton::B => self.buttons |= 0x02,
            JoypadButton::Select => self.buttons |= 0x04,
            JoypadButton::Start => self.buttons |= 0x08,
            JoypadButton::Right => self.dpad |= 0x01,
            JoypadButton::Left => self.dpad |= 0x02,
            JoypadButton::Up => self.dpad |= 0x04,
            JoypadButton::Down => self.dpad |= 0x08,
        }
    }
}

/// Clearing and then setting the same bits of a byte gives the byte back
/// when those bits were set to begin with.
proof fn lemma_clear_then_set(x: u8, m: u8)
    requires
        x & m == m,
    ensures
        (x & !m) | m == x,
{
    assert((x & !m) | m == x) by (bit_vector)
        requires
            x & m == m,
    ;
}

/// Releasing a button undoes pressing it, but for the interrupt request
/// that the press raised: a button that was up is up again.
pub proof fn lemma_release_undoes_press(j: Joypad, button: JoypadButton)
    requires
        (if button.is_direction() { j.dpad } else { j.buttons }) & button.mask() == button.mask(),
    ensures
        j.pressed(button).released(button) == (Joypad { interrupt: true, ..j }),
{
    if button.is_direction() {
        lemma_clear_then_set(j.dpad, button.mask());
    } else {
        lemma_clear_then_set(j.buttons, button.mask());
    }
}

/// A read of the joypad register always has its two top bits set.
pub proof fn lemma_read_top_bits_set(j: Joypad)
    ensures
        j.read_spec() & 0xC0 == 0xC0,
{
    let s = j.select;
    let b = j.buttons;
    let d = j.dpad;
    assert(({
        let r0 = s | 0xC0;
        let r1 = if s & 0x20 == 0 { (r0 & 0xF0) | b } else { r0 };
        if s & 0x10 == 0 { (r1 & 0xF0) | d } else { r1 }
    }) & 0xC0 == 0xC0) by (bit_vector);
}

/// The bit of each button in its group's nibble: A and Right bit 0
/// (0x01), B and Left bit 1 (0x02), Select and Up bit 2 (0x04), Start
/// and Down bit 3 (0x08). Pressing clears exactly that bit (active low)
/// in the action nibble for A, B, Select and Start, in the direction
/// nibble for the others, and raises the joypad interrupt; releasing
/// sets it again. Nothing else changes.
pub proof fn lemma_button_bits(j: Joypad)
    ensures
        j.pressed(JoypadButton::A) == (Joypad { buttons: j.buttons & !0x01u8, interrupt: true, ..j }),
        j.pressed(JoypadButton::B) == (Joypad { buttons: j.buttons & !0x02u8, interrupt: true, ..j }),
        j.pressed(JoypadButton::Select) == (Joypad { buttons: j.buttons & !0x04u8, interrupt: true, ..j }),
        j.pressed(JoypadButton::Start) == (Joypad { buttons: j.buttons & !0x08u8, interrupt: true, ..j }),
        j.pressed(JoypadButton::Right) == (Joypad { dpad: j.dpad & !0x01u8, interrupt: true, ..j }),
        j.pressed(JoypadButton::Left) == (Joypad { dpad: j.dpad & !0x02u8, interrupt: true, ..j }),
        j.pressed(JoypadButton::Up) == (Joypad { dpad: j.dpad & !0x04u8, interrupt: true, ..j }),
        j.pressed(JoypadButton::Down) == (Joypad { dpad: j.dpad & !0x08u8, interrupt: true, ..j }),
        j.released(JoypadButton::A) == (Joypad { buttons: j.buttons | 0x01u8, ..j }),
        j.released(JoypadButton::B) == (Joypad { buttons: j.buttons | 0x02u8, ..j }),
        j.released(JoypadButton::Select) == (Joypad { buttons: j.buttons | 0x04u8, ..j }),
        j.released(JoypadButton::Start) == (Joypad { buttons: j.buttons | 0x08u8, ..j }),
        j.released(JoypadButton::Right) == (Joypad { dpad: j.dpad | 0x01u8, ..j }),
        j.released(JoypadButton::Left) == (Joypad { dpad: j.dpad | 0x02u8, ..j }),
        j.released(JoypadButton::Up) == (Joypad { dpad: j.dpad | 0x04u8, ..j }),
        j.released(JoypadButton::Down) == (Joypad { dpad: j.dpad | 0x08u8, ..j }),
{
}

/// With only the action buttons selected (select bit 5 clear, bit 4
/// set) the low nibble of the register is the action nibble; with only
/// the direction pad selected (bit 4 clear, bit 5 set) it is the
/// direction nibble. The top two bits always read set.
pub proof fn lemma_read_selected_group(j: Joypad)
    requires
        j.buttons <= 0x0F,
        j.dpad <= 0x0F,
    ensures
        j.select & 0x30 == 0x10 ==> j.read_spec() & 0x0F == j.buttons,
        j.select & 0x30 == 0x20 ==> j.read_spec() & 0x0F == j.dpad,
        j.read_spec() & 0xC0 == 0xC0,
{
    let s = j.select;
    let b = j.buttons;
    let d = j.dpad;
    assert({
        let r0 = s | 0xC0;
        let r1 = if s & 0x20 == 0 { (r0 & 0xF0) | b } else { r0 };
        let r = if s & 0x10 == 0 { (r1 & 0xF0) | d } else { r1 };
        &&& s & 0x30 == 0x10 ==> r & 0x0F == b
        &&& s & 0x30 == 0x20 ==> r & 0x0F == d
        &&& r & 0xC0 == 0xC0
    }) by (bit_vector)
        requires
            b <= 0x0F,
            d <= 0x0F,
    ;
}

} // verus!
