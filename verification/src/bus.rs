use vstd::prelude::*;
use crate::cartridge::{Cartridge, CartridgeView};
use crate::ppu::{Ppu, PpuView};
use crate::timer::Timer;
use crate::joypad::Joypad;

verus! {

/// Memory Bus — maps addresses to hardware components
pub struct Bus {
    pub cartridge: Cartridge,
    pub ppu: Ppu,
    pub timer: Timer,
    pub joypad: Joypad,
    /// Work RAM (8KB)
    pub wram: [u8; 0x2000],
    /// High RAM (127 bytes)
    pub hram: [u8; 0x7F],
    /// Interrupt Enable register (0xFFFF)
    pub ie: u8,
    /// Interrupt Flag register (0xFF0F)
    pub if_reg: u8,
    /// Serial transfer data (stub)
    pub serial_data: u8,
    pub serial_control: u8,
}

/// The bus and everything on it, as mathematical values.
pub struct BusView {
    pub cart: CartridgeView,
    pub ppu: PpuView,
    pub timer: Timer,
    pub joypad: Joypad,
    pub wram: Seq<u8>,
    pub hram: Seq<u8>,
    pub ie: u8,
    pub if_reg: u8,
    pub serial_data: u8,
    pub serial_control: u8,
}

impl View for Bus {
    type V = BusView;

    open spec fn view(&self) -> BusView {
        BusView {
            cart: self.cartridge@,
            ppu: self.ppu@,
            timer: self.timer,
            joypad: self.joypad,
            wram: self.wram@,
            hram: self.hram@,
            ie: self.ie,
            if_reg: self.if_reg,
            serial_data: self.serial_data,
            serial_control: self.serial_control,
        }
    }
}

impl BusView {
    /// Memories have their hardware sizes and the cartridge's bank
    /// registers are in range.
    pub open spec fn wf(self) -> bool {
        &&& self.cart.wf()
        &&& self.ppu.sizes_ok()
        &&& self.wram.len() == 0x2000
        &&& self.hram.len() == 0x7F
    }

    /// Whether a read of `addr` computes its cartridge bank offset without
    /// overflow.
    pub open spec fn read_ok(self, addr: u16) -> bool {
        (addr <= 0x7FFF || 0xA000 <= addr <= 0xBFFF) ==> self.cart.read_ok(addr)
    }

    /// Whether a write of `val` to `addr` computes its cartridge bank
    /// offset without overflow; for a DMA start, so must the 160 reads of
    /// the source page.
    pub open spec fn write_ok(self, addr: u16, val: u8) -> bool {
        &&& ((addr <= 0x7FFF || 0xA000 <= addr <= 0xBFFF) ==> self.cart.write_ok(addr))
        &&& (addr == 0xFF46 ==> forall|i: int| 0 <= i < 0xA0 ==> #[trigger] self.read_ok((val * 0x100 + i) as u16))
    }

    /// What the frame loop relies on besides well-formedness: the PPU's
    /// invariant and the timer's spare cycles below one maximal period.
    pub open spec fn frame_inv(self) -> bool {
        &&& self.ppu.inv()
        &&& self.timer.timer_counter < 1024
    }

    /// The bus at power-on with the given cartridge inserted.
    pub open spec fn initial(cart: CartridgeView) -> BusView {
        BusView {
            cart,
            ppu: PpuView::initial(),
            timer: Timer::initial(),
            joypad: Joypad::initial(),
            wram: Seq::new(0x2000, |i: int| 0u8),
            hram: Seq::new(0x7F, |i: int| 0u8),
            ie: 0,
            if_reg: 0xE1,
            serial_data: 0,
            serial_control: 0,
        }
    }

    /// What a read of I/O register `addr` (0xFF00..=0xFF7F) gives.
    /// Sound registers read 0; unmapped and write-only registers read 0xFF.
    pub open spec fn read_io(self, addr: u16) -> u8 {
        if addr == 0xFF00 {
            self.joypad.read_spec()
        } else if addr == 0xFF01 {
            self.serial_data
        } else if addr == 0xFF02 {
            self.serial_control
        } else if addr == 0xFF04 {
            self.timer.div_spec()
        } else if addr == 0xFF05 {
            self.timer.tima
        } else if addr == 0xFF06 {
            self.timer.tma
        } else if addr == 0xFF07 {
            self.timer.tac
        } else if addr == 0xFF0F {
            self.if_reg
        } else if 0xFF10 <= addr <= 0xFF3F {
            0
        } else if addr == 0xFF40 {
            self.ppu.lcdc
        } else if addr == 0xFF41 {
            self.ppu.stat | 0x80
        } else if addr == 0xFF42 {
            self.ppu.scy
        } else if addr == 0xFF43 {
            self.ppu.scx
        } else if addr == 0xFF44 {
            self.ppu.ly
        } else if addr == 0xFF45 {
            self.ppu.lyc
        } else if addr == 0xFF47 {
            self.ppu.bgp
        } else if addr == 0xFF48 {
            self.ppu.obp0
        } else if addr == 0xFF49 {
            self.ppu.obp1
        } else if addr == 0xFF4A {
            self.ppu.wy
        } else if addr == 0xFF4B {
            self.ppu.wx
        } else {
            0xFF
        }
    }

    /// What a read of `addr` gives, by the memory map: cartridge ROM,
    /// VRAM, cartridge RAM, WRAM and its echo, OAM, the unusable area
    /// (0xFF), I/O registers, HRAM and IE.
    #[verifier::opaque]
    pub open spec fn read(self, addr: u16) -> u8 {
        if addr <= 0x7FFF {
            self.cart.read(addr)
        } else if addr <= 0x9FFF {
            self.ppu.vram[addr - 0x8000]
        } else if addr <= 0xBFFF {
            self.cart.read(addr)
        } else if addr <= 0xDFFF {
            self.wram[addr - 0xC000]
        } else if addr <= 0xFDFF {
            self.wram[addr - 0xE000]
        } else if addr <= 0xFE9F {
            self.ppu.oam[addr - 0xFE00]
        } else if addr <= 0xFEFF {
            0xFF
        } else if addr <= 0xFF7F {
            self.read_io(addr)
        } else if addr <= 0xFFFE {
            self.hram[addr - 0xFF80]
        } else {
            self.ie
        }
    }

    /// OAM after a DMA transfer from page `source`: entry `i` is what
    /// address `source * 0x100 + i` read before the transfer.
    pub open spec fn dma(self, source: u8) -> BusView {
        BusView {
            ppu: PpuView {
                oam: Seq::new(0xA0, |i: int| self.read((source * 0x100 + i) as u16)),
                ..self.ppu
            },
            ..self
        }
    }

    /// The bus after a write of `val` to I/O register `addr`.
    pub open spec fn write_io(self, addr: u16, val: u8) -> BusView {
        if addr == 0xFF00 {
            BusView { joypad: Joypad { select: val & 0x30, ..self.joypad }, ..self }
        } else if addr == 0xFF01 {
            BusView { serial_data: val, ..self }
        } else if addr == 0xFF02 {
            BusView { serial_control: val, ..self }
        } else if addr == 0xFF04 {
            BusView { timer: self.timer.with_div_reset(), ..self }
        } else if addr == 0xFF05 {
            BusView { timer: Timer { tima: val, ..self.timer }, ..self }
        } else if addr == 0xFF06 {
            BusView { timer: Timer { tma: val, ..self.timer }, ..self }
        } else if addr == 0xFF07 {
            BusView { timer: Timer { tac: val, ..self.timer }, ..self }
        } else if addr == 0xFF0F {
            BusView { if_reg: val, ..self }
        } else if 0xFF10 <= addr <= 0xFF3F {
            self
        } else if addr == 0xFF40 {
            BusView { ppu: PpuView { lcdc: val, ..self.ppu }, ..self }
        } else if addr == 0xFF41 {
            BusView { ppu: PpuView { stat: (self.ppu.stat & 0x07) | (val & 0x78), ..self.ppu }, ..self }
        } else if addr == 0xFF42 {
            BusView { ppu: PpuView { scy: val, ..self.ppu }, ..self }
        } else if addr == 0xFF43 {
            BusView { ppu: PpuView { scx: val, ..self.ppu }, ..self }
        } else if addr == 0xFF44 {
            self
        } else if addr == 0xFF45 {
            BusView { ppu: PpuView { lyc: val, ..self.ppu }, ..self }
        } else if addr == 0xFF46 {
            self.dma(val)
        } else if addr == 0xFF47 {
            BusView { ppu: PpuView { bgp: val, ..self.ppu }, ..self }
        } else if addr == 0xFF48 {
            BusView { ppu: PpuView { obp0: val, ..self.ppu }, ..self }
        } else if addr == 0xFF49 {
            BusView { ppu: PpuView { obp1: val, ..self.ppu }, ..self }
        } else if addr == 0xFF4A {
            BusView { ppu: PpuView { wy: val, ..self.ppu }, ..self }
        } else if addr == 0xFF4B {
            BusView { ppu: PpuView { wx: val, ..self.ppu }, ..self }
        } else {
            self
        }
    }

    /// The bus after a write of `val` to `addr`, by the memory map: the
    /// cartridge's bank controller for ROM and external RAM addresses,
    /// memories, I/O registers and IE; the unusable area ignores writes.
    #[verifier::opaque]
    pub open spec fn write(self, addr: u16, val: u8) -> BusView {
        if addr <= 0x7FFF {
            BusView { cart: self.cart.write(addr, val), ..self }
        } else if addr <= 0x9FFF {
            BusView { ppu: PpuView { vram: self.ppu.vram.update(addr - 0x8000, val), ..self.ppu }, ..self }
        } else if addr <= 0xBFFF {
            BusView { cart: self.cart.write(addr, val), ..self }
        } else if addr <= 0xDFFF {
            BusView { wram: self.wram.update(addr - 0xC000, val), ..self }
        } else if addr <= 0xFDFF {
            BusView { wram: self.wram.update(addr - 0xE000, val), ..self }
        } else if addr <= 0xFE9F {
            BusView { ppu: PpuView { oam: self.ppu.oam.update(addr - 0xFE00, val), ..self.ppu }, ..self }
        } else if addr <= 0xFEFF {
            self
        } else if addr <= 0xFF7F {
            self.write_io(addr, val)
        } else if addr <= 0xFFFE {
            BusView { hram: self.hram.update(addr - 0xFF80, val), ..self }
        } else {
            BusView { ie: val, ..self }
        }
    }
}

/// The page number shifted into the high byte is the page start address.
proof fn lemma_page_base(source: u8)
    ensures
        (source as u16) << 8 == source * 0x100,
{
    assert((source as u16) << 8 == (source as u16) * 0x100) by (bit_vector);
}

/// Every write keeps the bus well-formed.
pub proof fn lemma_write_keeps_wf(b: BusView, addr: u16, val: u8)
    requires
        b.wf(),
    ensures
        b.write(addr, val).wf(),
{
    reveal(BusView::write);
    crate::cartridge::lemma_write_keeps_wf(b.cart, addr, val);
}

/// No write through the bus can break the frame invariant: LY, the PPU
/// mode bits, the PPU's cycle and window-line counters and the timer's
/// internal counter are out of the CPU's reach, and so is the PPU's
/// frame-ready flag.
pub broadcast proof fn lemma_write_keeps_frame_inv(b: BusView, addr: u16, val: u8)
    ensures
        b.frame_inv() ==> #[trigger] b.write(addr, val).frame_inv(),
        b.write(addr, val).ppu.frame_ready == b.ppu.frame_ready,
{
    reveal(BusView::write);
    crate::ppu::lemma_stat_mode_bits(b.ppu.stat, val, 0);
}

/// Addresses backed by plain memory or a plain register, where the bus
/// reads back what was written: VRAM, WRAM and its echo, OAM, HRAM and IE.
pub open spec fn is_plain_memory(addr: u16) -> bool {
    ||| 0x8000 <= addr <= 0x9FFF
    ||| 0xC000 <= addr <= 0xFE9F
    ||| 0xFF80 <= addr
}

/// The storage cell behind a plain-memory address: echo RAM shares the
/// cells of WRAM 0x2000 below it.
pub open spec fn storage_cell(addr: u16) -> int {
    if 0xE000 <= addr <= 0xFDFF {
        addr - 0x2000
    } else {
        addr as int
    }
}

/// A read gives back what a write to the same plain-memory address stored.
pub proof fn lemma_read_after_write(b: BusView, addr: u16, val: u8)
    requires
        b.wf(),
        is_plain_memory(addr),
    ensures
        b.write(addr, val).read(addr) == val,
{
    reveal(BusView::write);
    reveal(BusView::read);
}

/// A write to one plain-memory cell leaves every other plain-memory cell as it was.
pub proof fn lemma_write_other_cell(b: BusView, addr: u16, val: u8, other: u16)
    requires
        b.wf(),
        is_plain_memory(addr),
        is_plain_memory(other),
        storage_cell(addr) != storage_cell(other),
    ensures
        b.write(addr, val).read(other) == b.read(other),
{
    reveal(BusView::write);
    reveal(BusView::read);
}

/// Echo RAM (0xE000..=0xFDFF) reads as WRAM 0x2000 below it.
pub proof fn lemma_echo_mirrors_wram(b: BusView, offset: u16)
    requires
        offset < 0x1E00,
    ensures
        b.read((0xE000 + offset) as u16) == b.read((0xC000 + offset) as u16),
{
    reveal(BusView::read);
}

/// The unusable area 0xFEA0..=0xFEFF reads 0xFF and ignores writes.
pub proof fn lemma_unusable_area(b: BusView, addr: u16, val: u8)
    requires
        0xFEA0 <= addr <= 0xFEFF,
    ensures
        b.read(addr) == 0xFF,
        b.write(addr, val) == b,
{
    reveal(BusView::write);
    reveal(BusView::read);
}

/// LY (0xFF44) is read-only: a write to it changes nothing.
pub proof fn lemma_ly_read_only(b: BusView, val: u8)
    ensures
        b.write(0xFF44, val) == b,
{
    reveal(BusView::write);
}

/// STAT reads with bit 7 set, and a write to it cannot change the mode
/// bits or the coincidence bit.
pub proof fn lemma_stat_register(b: BusView, val: u8)
    ensures
        b.read(0xFF41) & 0x80 == 0x80,
        b.write(0xFF41, val).ppu.stat & 0x07 == b.ppu.stat & 0x07,
{
    reveal(BusView::write);
    reveal(BusView::read);
    let s = b.ppu.stat;
    assert((s | 0x80) & 0x80 == 0x80 && ((s & 0x07) | (val & 0x78)) & 0x07 == s & 0x07) by (bit_vector);
}

/// The I/O registers as the hardware maps them: LCDC at 0xFF40, SCY
/// 0xFF42, SCX 0xFF43, LYC 0xFF45, BGP 0xFF47, OBP0 0xFF48, OBP1 0xFF49, WY
/// 0xFF4A, WX 0xFF4B, TIMA 0xFF05, TMA 0xFF06, TAC 0xFF07, IF 0xFF0F and IE
/// 0xFFFF: a write of v stores v in that register alone, and a read gives
/// the register back. DIV (0xFF04) reads the high byte of the divider, LY
/// (0xFF44) the current line, and 0xFF00 the joypad register.
pub proof fn lemma_io_register_map(b: BusView, v: u8)
    ensures
        b.write(0xFF40, v) == (BusView { ppu: PpuView { lcdc: v, ..b.ppu }, ..b }) && b.read(0xFF40) == b.ppu.lcdc,
        b.write(0xFF42, v) == (BusView { ppu: PpuView { scy: v, ..b.ppu }, ..b }) && b.read(0xFF42) == b.ppu.scy,
        b.write(0xFF43, v) == (BusView { ppu: PpuView { scx: v, ..b.ppu }, ..b }) && b.read(0xFF43) == b.ppu.scx,
        b.write(0xFF45, v) == (BusView { ppu: PpuView { lyc: v, ..b.ppu }, ..b }) && b.read(0xFF45) == b.ppu.lyc,
        b.write(0xFF47, v) == (BusView { ppu: PpuView { bgp: v, ..b.ppu }, ..b }) && b.read(0xFF47) == b.ppu.bgp,
        b.write(0xFF48, v) == (BusView { ppu: PpuView { obp0: v, ..b.ppu }, ..b }) && b.read(0xFF48) == b.ppu.obp0,
        b.write(0xFF49, v) == (BusView { ppu: PpuView { obp1: v, ..b.ppu }, ..b }) && b.read(0xFF49) == b.ppu.obp1,
        b.write(0xFF4A, v) == (BusView { ppu: PpuView { wy: v, ..b.ppu }, ..b }) && b.read(0xFF4A) == b.ppu.wy,
        b.write(0xFF4B, v) == (BusView { ppu: PpuView { wx: v, ..b.ppu }, ..b }) && b.read(0xFF4B) == b.ppu.wx,
        b.write(0xFF05, v) == (BusView { timer: Timer { tima: v, ..b.timer }, ..b }) && b.read(0xFF05) == b.timer.tima,
        b.write(0xFF06, v) == (BusView { timer: Timer { tma: v, ..b.timer }, ..b }) && b.read(0xFF06) == b.timer.tma,
        b.write(0xFF07, v) == (BusView { timer: Timer { tac: v, ..b.timer }, ..b }) && b.read(0xFF07) == b.timer.tac,
        b.write(0xFF0F, v) == (BusView { if_reg: v, ..b }) && b.read(0xFF0F) == b.if_reg,
        b.write(0xFFFF, v) == (BusView { ie: v, ..b }) && b.read(0xFFFF) == b.ie,
        b.read(0xFF04) == b.timer.div_counter / 256,
        b.read(0xFF44) == b.ppu.ly,
        b.read(0xFF00) == b.joypad.read_spec(),
{
    reveal(BusView::write);
    reveal(BusView::read);
    let d = b.timer.div_counter;
    assert((d >> 8) as u8 == d / 256) by (bit_vector);
}

impl Bus {
    pub fn new(cartridge: Cartridge) -> (b: Self)
        ensures
            b@ == BusView::initial(cartridge@),
    {
        let b = Bus {
            cartridge,
            ppu: Ppu::new(),
            timer: Timer::new(),
            joypad: Joypad::new(),
            wram: [0u8; 0x2000],
            hram: [0u8; 0x7F],
            ie: 0,
            if_reg: 0xE1,
            serial_data: 0,
            serial_control: 0,
        };
        assert(b@.wram =~= BusView::initial(cartridge@).wram);
        assert(b@.hram =~= BusView::initial(cartridge@).hram);
        b
    }

    pub fn read(&self, addr: u16) -> (r: u8)
        requires
            self@.read_ok(addr),
        ensures
            r == self@.read(addr),
    {
        proof {
            reveal(BusView::read);
        }
        match addr {
            // ROM
            0x0000..=0x7FFF => self.cartridge.read(addr),
            // VRAM
            0x8000..=0x9FFF => self.ppu.vram[(addr - 0x8000) as usize],
            // External RAM
            0xA000..=0xBFFF => self.cartridge.read(addr),
            // WRAM
            0xC000..=0xDFFF => self.wram[(addr - 0xC000) as usize],
            // Echo RAM
            0xE000..=0xFDFF => self.wram[(addr - 0xE000) as usize],
            // OAM
            0xFE00..=0xFE9F => self.ppu.oam[(addr - 0xFE00) as usize],
            // Unusable
            0xFEA0..=0xFEFF => 0xFF,
            // I/O Registers
            0xFF00..=0xFF7F => self.read_io(addr),
            // HRAM
            0xFF80..=0xFFFE => self.hram[(addr - 0xFF80) as usize],
            // IE
            0xFFFF => self.ie,
        }
    }

    pub fn write(&mut self, addr: u16, val: u8)
        requires
            old(self)@.write_ok(addr, val),
        ensures
            final(self)@ == old(self)@.write(addr, val),
            old(self)@.wf() ==> final(self)@.wf(),
            old(self)@.frame_inv() ==> final(self)@.frame_inv(),
            final(self)@.ppu.frame_ready == old(self)@.ppu.frame_ready,
    {
        proof {
            if self@.wf() {
                lemma_write_keeps_wf(self@, addr, val);
            }
            lemma_write_keeps_frame_inv(self@, addr, val);
            reveal(BusView::write);
        }
        match addr {
            // ROM (MBC register writes)
            0x0000..=0x7FFF => self.cartridge.write(addr, val),
            // VRAM
            0x8000..=0x9FFF => self.ppu.vram[(addr - 0x8000) as usize] = val,
            // External RAM
            0xA000..=0xBFFF => self.cartridge.write(addr, val),
            // WRAM
            0xC000..=0xDFFF => self.wram[(addr - 0xC000) as usize] = val,
            // Echo RAM
            0xE000..=0xFDFF => self.wram[(addr - 0xE000) as usize] = val,
            // OAM
            0xFE00..=0xFE9F => self.ppu.oam[(addr - 0xFE00) as usize] = val,
            // Unusable
            0xFEA0..=0xFEFF => {},
            // I/O
            0xFF00..=0xFF7F => self.write_io(addr, val),
            // HRAM
            0xFF80..=0xFFFE => self.hram[(addr - 0xFF80) as usize] = val,
            // IE
            0xFFFF => self.ie = val,
        }
    }

    fn read_io(&self, addr: u16) -> (r: u8)
        ensures
            r == self@.read_io(addr),
    {
        match addr {
            0xFF00 => self.joypad.read(),
            0xFF01 => self.serial_data,
            0xFF02 => self.serial_control,
            0xFF04 => self.timer.div(),
            0xFF05 => self.timer.tima,
            0xFF06 => self.timer.tma,
            0xFF07 => self.timer.tac,
            0xFF0F => self.if_reg,
            // Sound registers (stub — return 0)
            0xFF10..=0xFF3F => 0,
            0xFF40 => self.ppu.lcdc,
            0xFF41 => self.ppu.stat | 0x80,
            0xFF42 => self.ppu.scy,
            0xFF43 => self.ppu.scx,
            0xFF44 => self.ppu.ly,
            0xFF45 => self.ppu.lyc,
            // DMA (write-only)
            0xFF46 => 0xFF,
            0xFF47 => self.ppu.bgp,
            0xFF48 => self.ppu.obp0,
            0xFF49 => self.ppu.obp1,
            0xFF4A => self.ppu.wy,
            0xFF4B => self.ppu.wx,
            _ => 0xFF,
        }
    }

    fn write_io(&mut self, addr: u16, val: u8)
        requires
            old(self)@.write_ok(addr, val),
            0xFF00 <= addr <= 0xFF7F,
        ensures
            final(self)@ == old(self)@.write_io(addr, val),
    {
        match addr {
            0xFF00 => self.joypad.write(val),
            0xFF01 => self.serial_data = val,
            0xFF02 => self.serial_control = val,
            0xFF04 => self.timer.reset_div(),
            0xFF05 => self.timer.tima = val,
            0xFF06 => self.timer.tma = val,
            0xFF07 => self.timer.tac = val,
            0xFF0F => self.if_reg = val,
            // Sound registers (stub)
            0xFF10..=0xFF3F => {},
            0xFF40 => self.ppu.lcdc = val,
            0xFF41 => self.ppu.stat = (self.ppu.stat & 0x07) | (val & 0x78),
            0xFF42 => self.ppu.scy = val,
            0xFF43 => self.ppu.scx = val,
            0xFF44 => {},  // LY is read-only
            0xFF45 => self.ppu.lyc = val,
            // DMA Transfer
            0xFF46 => self.dma_transfer(val),
            0xFF47 => self.ppu.bgp = val,
            0xFF48 => self.ppu.obp0 = val,
            0xFF49 => self.ppu.obp1 = val,
            0xFF4A => self.ppu.wy = val,
            0xFF4B => self.ppu.wx = val,
            _ => {},
        }
    }

    /// OAM DMA Transfer: copies 160 bytes from XX00-XX9F to OAM
    fn dma_transfer(&mut self, source: u8)
        requires
            forall|i: int| 0 <= i < 0xA0 ==> #[trigger] old(self)@.read_ok((source * 0x100 + i) as u16),
        ensures
            final(self)@ == old(self)@.dma(source),
    {
        let ghost b0 = self@;
        proof {
            reveal(BusView::read);
        }
        let base = (source as u16) << 8;
        proof {
            lemma_page_base(source);
        }
        let mut i: u16 = 0;
        proof {
            assert(b0.ppu.oam =~= Seq::new(
                0xA0,
                |j: int| if j < 0 { b0.read((source * 0x100 + j) as u16) } else { b0.ppu.oam[j] },
            ));
        }
        while i < 0xA0
            invariant
                i <= 0xA0,
                forall|j: int| 0 <= j < 0xA0 ==> #[trigger] b0.read_ok((source * 0x100 + j) as u16),
                base == source * 0x100,
                self@ == (BusView {
                    ppu: PpuView {
                        oam: Seq::new(
                            0xA0,
                            |j: int| if j < i { b0.read((source * 0x100 + j) as u16) } else { b0.ppu.oam[j] },
                        ),
                        ..b0.ppu
                    },
                    ..b0
                }),
            decreases 0xA0 - i,
        {
            assert(b0.read_ok((source * 0x100 + i) as u16));
            let val = self.read(base + i);
            proof {
                reveal(BusView::read);
            }
            assert(val == b0.read((source * 0x100 + i) as u16));
            self.ppu.oam[i as usize] = val;
            i = i + 1;
            proof {
                assert(self@.ppu.oam =~= Seq::new(
                    0xA0,
                    |j: int| if j < i { b0.read((source * 0x100 + j) as u16) } else { b0.ppu.oam[j] },
                ));
            }
        }
        proof {
            assert(self@.ppu.oam =~= b0.dma(source).ppu.oam);
        }
    }
}

} // verus!
