use vstd::prelude::*;
use vstd::utf8::{valid_utf8, decode_utf8};

verus! {

/// Game Boy cartridge — ROM header parsing and MBC emulation
pub struct Cartridge {
    pub rom: Vec<u8>,
    pub ram: Vec<u8>,
    pub mbc: MbcType,
    pub rom_bank: usize,
    pub ram_bank: usize,
    pub ram_enabled: bool,
    pub title: String,
}

/// The memory bank controller that a cartridge carries.
#[derive(Debug, Clone, Copy, PartialEq, Eq, Structural)]
pub enum MbcType {
    /// ROM only, no bank controller.
    NoMbc,
    Mbc1,
    Mbc3,
    Mbc5,
}

/// A cartridge as mathematical values: the ROM and RAM bytes, the banking
/// registers and the title's characters.
pub struct CartridgeView {
    pub rom: Seq<u8>,
    pub ram: Seq<u8>,
    pub mbc: MbcType,
    pub rom_bank: usize,
    pub ram_bank: usize,
    pub ram_enabled: bool,
    pub title: Seq<char>,
}

impl View for Cartridge {
    type V = CartridgeView;

    open spec fn view(&self) -> CartridgeView {
        CartridgeView {
            rom: self.rom@,
            ram: self.ram@,
            mbc: self.mbc,
            rom_bank: self.rom_bank,
            ram_bank: self.ram_bank,
            ram_enabled: self.ram_enabled,
            title: self.title@,
        }
    }
}

/// What `String::from_utf8_lossy` makes of a byte sequence.
pub uninterp spec fn lossy_utf8(bytes: Seq<u8>) -> Seq<char>;

/// The characters with every trailing NUL character removed.
pub open spec fn strip_trailing_nul(s: Seq<char>) -> Seq<char>
    decreases s.len(),
{
    if s.len() > 0 && s.last() == '\0' {
        strip_trailing_nul(s.drop_last())
    } else {
        s
    }
}

/// The header byte at `i`, or 0 where the ROM is shorter.
pub open spec fn header_byte(rom: Seq<u8>, i: int) -> u8 {
    if 0 <= i < rom.len() {
        rom[i]
    } else {
        0
    }
}

/// The controller named by the cartridge-type header byte (0x147).
pub open spec fn mbc_for(kind: u8) -> MbcType {
    if 0x01 <= kind <= 0x03 {
        MbcType::Mbc1
    } else if 0x0F <= kind <= 0x13 {
        MbcType::Mbc3
    } else if 0x19 <= kind <= 0x1E {
        MbcType::Mbc5
    } else {
        MbcType::NoMbc
    }
}

/// External RAM size in bytes named by the RAM-size header byte (0x149).
pub open spec fn ram_size_for(code: u8) -> nat {
    if code == 0x02 {
        8 * 1024
    } else if code == 0x03 {
        32 * 1024
    } else if code == 0x04 {
        128 * 1024
    } else if code == 0x05 {
        64 * 1024
    } else {
        0
    }
}

/// The title as the header holds it: bytes 0x134..0x143, decoded with
/// replacement of invalid UTF-8, trailing NULs removed.
pub open spec fn title_of(rom: Seq<u8>) -> Seq<char> {
    strip_trailing_nul(lossy_utf8(rom.subrange(0x134, 0x143)))
}

/// The cartridge as freshly inserted with the given ROM.
pub open spec fn cartridge_of(rom: Seq<u8>) -> CartridgeView {
    CartridgeView {
        rom,
        ram: Seq::new(ram_size_for(header_byte(rom, 0x149)), |i: int| 0u8),
        mbc: mbc_for(header_byte(rom, 0x147)),
        rom_bank: 1,
        ram_bank: 0,
        ram_enabled: false,
        title: title_of(rom),
    }
}

/// Byte of `s` at `i`, or 0xFF (open bus) past its end.
pub open spec fn byte_or_ff(s: Seq<u8>, i: int) -> u8 {
    if 0 <= i < s.len() {
        s[i]
    } else {
        0xFF
    }
}

impl CartridgeView {
    /// The bank registers are small enough that bank offsets fit in a usize.
    pub open spec fn wf(self) -> bool {
        &&& self.rom_bank * 0x4000 + 0x3FFF <= usize::MAX
        &&& self.ram_bank * 0x2000 + 0x1FFF <= usize::MAX
    }

    /// Whether the bank offset that a read of `addr` computes fits in a
    /// usize: only reads of the switchable ROM bank and of enabled RAM
    /// compute one.
    pub open spec fn read_ok(self, addr: u16) -> bool {
        &&& (0x4000 <= addr <= 0x7FFF ==> self.rom_bank * 0x4000 + (addr - 0x4000) <= usize::MAX)
        &&& ((0xA000 <= addr <= 0xBFFF && self.ram_enabled && self.ram.len() > 0) ==> self.ram_offset(addr)
            <= usize::MAX)
    }

    /// Whether the bank offset that a write to `addr` computes fits in a
    /// usize: only writes to enabled RAM through a bank controller compute one.
    pub open spec fn write_ok(self, addr: u16) -> bool {
        (self.mbc != MbcType::NoMbc && 0xA000 <= addr <= 0xBFFF && self.ram_enabled && self.ram.len() > 0)
            ==> self.ram_offset(addr) <= usize::MAX
    }

    /// Offset into RAM of an address in 0xA000..=0xBFFF under the current RAM bank.
    pub open spec fn ram_offset(self, addr: u16) -> int {
        self.ram_bank * 0x2000 + (addr - 0xA000)
    }

    /// What a read of `addr` gives: bank 0, the selected ROM bank, or the
    /// selected RAM bank when enabled; 0xFF past the data or elsewhere.
    pub open spec fn read(self, addr: u16) -> u8 {
        if addr <= 0x3FFF {
            byte_or_ff(self.rom, addr as int)
        } else if addr <= 0x7FFF {
            byte_or_ff(self.rom, self.rom_bank * 0x4000 + (addr - 0x4000))
        } else if 0xA000 <= addr <= 0xBFFF {
            if self.ram_enabled && self.ram.len() > 0 {
                byte_or_ff(self.ram, self.ram_offset(addr))
            } else {
                0xFF
            }
        } else {
            0xFF
        }
    }

    /// RAM with the byte at `offset` replaced, when there is one there.
    pub open spec fn ram_store(self, offset: int, val: u8) -> CartridgeView {
        if 0 <= offset < self.ram.len() {
            CartridgeView { ram: self.ram.update(offset, val), ..self }
        } else {
            self
        }
    }

    /// A write to external RAM through an MBC: only when RAM is enabled,
    /// into the selected bank.
    pub open spec fn banked_ram_write(self, addr: u16, val: u8) -> CartridgeView {
        if self.ram_enabled && self.ram.len() > 0 {
            self.ram_store(self.ram_offset(addr), val)
        } else {
            self
        }
    }

    /// RAM enable: writing a value whose low nibble is 0xA enables RAM.
    pub open spec fn with_ram_enable(self, val: u8) -> CartridgeView {
        CartridgeView { ram_enabled: (val & 0x0F) == 0x0A, ..self }
    }

    /// ROM bank select where bank 0 stands for bank 1.
    pub open spec fn with_rom_bank_nonzero(self, bank: usize) -> CartridgeView {
        CartridgeView { rom_bank: if bank == 0 { 1 } else { bank }, ..self }
    }

    pub open spec fn write_mbc1(self, addr: u16, val: u8) -> CartridgeView {
        if addr <= 0x1FFF {
            self.with_ram_enable(val)
        } else if addr <= 0x3FFF {
            self.with_rom_bank_nonzero((val & 0x1F) as usize)
        } else if addr <= 0x5FFF {
            CartridgeView { ram_bank: (val & 0x03) as usize, ..self }
        } else if 0xA000 <= addr <= 0xBFFF {
            self.banked_ram_write(addr, val)
        } else {
            self
        }
    }

    pub open spec fn write_mbc3(self, addr: u16, val: u8) -> CartridgeView {
        if addr <= 0x1FFF {
            self.with_ram_enable(val)
        } else if addr <= 0x3FFF {
            self.with_rom_bank_nonzero((val & 0x7F) as usize)
        } else if addr <= 0x5FFF {
            CartridgeView { ram_bank: (val & 0x03) as usize, ..self }
        } else if 0xA000 <= addr <= 0xBFFF {
            self.banked_ram_write(addr, val)
        } else {
            self
        }
    }

    pub open spec fn write_mbc5(self, addr: u16, val: u8) -> CartridgeView {
        if addr <= 0x1FFF {
            self.with_ram_enable(val)
        } else if addr <= 0x2FFF {
            CartridgeView { rom_bank: (self.rom_bank & 0x100) | val as usize, ..self }
        } else if addr <= 0x3FFF {
            CartridgeView { rom_bank: (self.rom_bank & 0xFF) | ((val as usize & 1) << 8), ..self }
        } else if addr <= 0x5FFF {
            CartridgeView { ram_bank: (val & 0x0F) as usize, ..self }
        } else if 0xA000 <= addr <= 0xBFFF {
            self.banked_ram_write(addr, val)
        } else {
            self
        }
    }

    /// The cartridge after a write of `val` to `addr`.
    pub open spec fn write(self, addr: u16, val: u8) -> CartridgeView {
        match self.mbc {
            MbcType::NoMbc => {
                if 0xA000 <= addr <= 0xBFFF && self.ram.len() > 0 {
                    self.ram_store(addr - 0xA000, val)
                } else {
                    self
                }
            },
            MbcType::Mbc1 => self.write_mbc1(addr, val),
            MbcType::Mbc3 => self.write_mbc3(addr, val),
            MbcType::Mbc5 => self.write_mbc5(addr, val),
        }
    }
}

/// Calls `String::from_utf8_lossy`: invalid sequences become U+FFFD; the
/// result is a function of the bytes alone, and for valid UTF-8 it is the
/// plain decoding.
#[verifier::external_body]
fn utf8_lossy_string(bytes: &[u8]) -> (s: String)
    ensures
        s@ == lossy_utf8(bytes@),
        valid_utf8(bytes@) ==> s@ == decode_utf8(bytes@),
{
    String::from_utf8_lossy(bytes).into_owned()
}

/// The string with every trailing NUL character removed.
fn trim_trailing_nul(s: &str) -> (r: &str)
    ensures
        r@ == strip_trailing_nul(s@),
{
    let mut end = s.unicode_len();
    assert(s@.subrange(0, end as int) =~= s@);
    while end > 0 && s.get_char(end - 1) == '\0'
        invariant
            end <= s@.len(),
            strip_trailing_nul(s@.subrange(0, end as int)) == strip_trailing_nul(s@),
        decreases end,
    {
        assert(s@.subrange(0, end as int).drop_last() =~= s@.subrange(0, end - 1));
        end = end - 1;
    }
    let r = s.substring_char(0, end);
    proof {
        if end == 0 {
            assert(r@ =~= Seq::<char>::empty());
        }
    }
    r
}

/// A bank offset never exceeds 0x1FF after an MBC5 bank write.
proof fn lemma_mbc5_bank_bounds(bank: usize, val: u8)
    ensures
        (bank & 0x100) | val as usize <= 0x1FF,
        (bank & 0xFF) | ((val as usize & 1) << 8) <= 0x1FF,
{
    let v = val as usize;
    assert(v <= 0xFF);
    assert((bank & 0x100) | v <= 0x1FF && (bank & 0xFF) | ((v & 1) << 8) <= 0x1FF) by (bit_vector)
        requires
            v <= 0xFF,
    ;
}

/// Every write keeps the bank registers within bounds.
pub proof fn lemma_write_keeps_wf(c: CartridgeView, addr: u16, val: u8)
    requires
        c.wf(),
    ensures
        c.write(addr, val).wf(),
{
    lemma_mbc5_bank_bounds(c.rom_bank, val);
}

/// No write changes the ROM or the title: banking registers and RAM are
/// the only state a write can reach.
pub proof fn lemma_write_keeps_rom(c: CartridgeView, addr: u16, val: u8)
    ensures
        c.write(addr, val).rom == c.rom,
        c.write(addr, val).title == c.title,
        c.write(addr, val).mbc == c.mbc,
        c.write(addr, val).ram.len() == c.ram.len(),
{
}

/// ROM bank 0 is fixed: no write changes what 0x0000..=0x3FFF reads.
pub proof fn lemma_bank0_fixed(c: CartridgeView, addr: u16, val: u8, x: u16)
    requires
        x <= 0x3FFF,
    ensures
        c.write(addr, val).read(x) == c.read(x),
{
}

/// With MBC1 and MBC3, bank 0 can never be mapped at 0x4000: a bank
/// number of 0 selects bank 1, so a nonzero bank stays nonzero.
pub proof fn lemma_switchable_bank_nonzero(c: CartridgeView, addr: u16, val: u8)
    requires
        c.mbc == MbcType::Mbc1 || c.mbc == MbcType::Mbc3,
        c.rom_bank != 0,
    ensures
        c.write(addr, val).rom_bank != 0,
{
}

/// External RAM reads back what was written, when a bank controller has
/// RAM enabled and the address falls inside the RAM.
pub proof fn lemma_ram_read_after_write(c: CartridgeView, addr: u16, val: u8)
    requires
        c.mbc != MbcType::NoMbc,
        c.ram_enabled,
        0xA000 <= addr <= 0xBFFF,
        c.ram_offset(addr) < c.ram.len(),
    ensures
        c.write(addr, val).read(addr) == val,
{
}

/// Writing a value with low nibble 0xA to 0x0000..=0x1FFF enables
/// external RAM on a bank controller; any other value disables it.
pub proof fn lemma_ram_enable(c: CartridgeView, addr: u16, val: u8)
    requires
        c.mbc != MbcType::NoMbc,
        addr <= 0x1FFF,
    ensures
        c.write(addr, val).ram_enabled == ((val & 0x0F) == 0x0A),
{
}

/// RAM bank select: on MBC1 and MBC3, writing n (0..=3) to
/// 0x4000..=0x5FFF selects RAM bank n; on MBC5 any n of 0..=15. Nothing
/// else changes.
pub proof fn lemma_ram_bank_select(c: CartridgeView, addr: u16, n: u8)
    requires
        0x4000 <= addr <= 0x5FFF,
        (c.mbc == MbcType::Mbc1 || c.mbc == MbcType::Mbc3) && n <= 3 || c.mbc == MbcType::Mbc5 && n <= 15,
    ensures
        c.write(addr, n) == (CartridgeView { ram_bank: n as usize, ..c }),
{
    assert(n & 0x03 == n || n > 3) by (bit_vector);
    assert(n & 0x0F == n || n > 15) by (bit_vector);
}

/// A write of v to 0xA000 + k with RAM enabled stores v at offset
/// bank × 0x2000 + k of the RAM, for the selected RAM bank, and changes
/// nothing else; a read of the same address then gives v.
pub proof fn lemma_banked_ram_write(c: CartridgeView, k: u16, v: u8)
    requires
        c.mbc != MbcType::NoMbc,
        c.ram_enabled,
        k < 0x2000,
        c.ram_bank * 0x2000 + k < c.ram.len(),
    ensures
        c.write((0xA000 + k) as u16, v) == (CartridgeView {
            ram: c.ram.update(c.ram_bank * 0x2000 + k, v),
            ..c
        }),
        c.write((0xA000 + k) as u16, v).read((0xA000 + k) as u16) == v,
{
}

/// Selecting RAM bank n on MBC3 and then writing v to 0xA000 + k (RAM
/// enabled) stores v at RAM offset n × 0x2000 + k.
pub proof fn lemma_mbc3_bank_then_store(c: CartridgeView, addr: u16, n: u8, k: u16, v: u8)
    requires
        c.mbc == MbcType::Mbc3,
        c.ram_enabled,
        0x4000 <= addr <= 0x5FFF,
        n <= 3,
        k < 0x2000,
        n * 0x2000 + k < c.ram.len(),
    ensures
        c.write(addr, n).write((0xA000 + k) as u16, v).ram == c.ram.update(n * 0x2000 + k, v),
        c.write(addr, n).write((0xA000 + k) as u16, v).ram_bank == n,
{
    lemma_ram_bank_select(c, addr, n);
    lemma_banked_ram_write(c.write(addr, n), k, v);
}

/// ROM bank select on MBC1 (5 bits, n in 0..=31) and MBC3 (7 bits, n in
/// 0..=127) at 0x2000..=0x3FFF: bank n is selected, bank 0 standing for
/// bank 1. Nothing else changes.
pub proof fn lemma_rom_bank_select(c: CartridgeView, addr: u16, n: u8)
    requires
        0x2000 <= addr <= 0x3FFF,
        c.mbc == MbcType::Mbc1 && n <= 31 || c.mbc == MbcType::Mbc3 && n <= 127,
    ensures
        c.write(addr, n) == (CartridgeView { rom_bank: if n == 0 { 1 } else { n as usize }, ..c }),
{
    assert(n & 0x1F == n || n > 31) by (bit_vector);
    assert(n & 0x7F == n || n > 127) by (bit_vector);
}

/// MBC5 ROM bank select: a write to 0x2000..=0x2FFF sets the low eight
/// bits of the 9-bit bank number, a write to 0x3000..=0x3FFF its bit 8
/// from bit 0 of the value; the other part is kept.
pub proof fn lemma_mbc5_rom_bank_select(c: CartridgeView, addr: u16, n: u8)
    requires
        c.mbc == MbcType::Mbc5,
        0x2000 <= addr <= 0x3FFF,
        c.rom_bank <= 0x1FF,
    ensures
        addr <= 0x2FFF ==> c.write(addr, n) == (CartridgeView {
            rom_bank: ((c.rom_bank / 256) * 256 + n) as usize,
            ..c
        }),
        addr >= 0x3000 ==> c.write(addr, n) == (CartridgeView {
            rom_bank: (c.rom_bank % 256 + (n % 2) * 256) as usize,
            ..c
        }),
{
    let r = c.rom_bank;
    let v = n as usize;
    assert((r & 0x100) | v == (r / 256) * 256 + v && (r & 0xFF) | ((v & 1) << 8) == r % 256 + (v % 2) * 256)
        by (bit_vector)
        requires
            r <= 0x1FF,
            v <= 0xFF,
    ;
}

/// The switchable ROM area 0x4000..=0x7FFF reads the selected bank:
/// 0x4000 + k gives ROM byte bank × 0x4000 + k, or 0xFF past the ROM.
pub proof fn lemma_switchable_bank_read(c: CartridgeView, k: u16)
    requires
        k < 0x4000,
    ensures
        c.read((0x4000 + k) as u16) == (if c.rom_bank * 0x4000 + k < c.rom.len() {
            c.rom[c.rom_bank * 0x4000 + k]
        } else {
            0xFF
        }),
{
}

impl Cartridge {
    pub fn new(rom: Vec<u8>) -> (c: Self)
        requires
            rom@.len() >= 0x143,
        ensures
            c@ == cartridge_of(rom@),
            c@.wf(),
            valid_utf8(rom@.subrange(0x134, 0x143)) ==> c@.title == strip_trailing_nul(
                decode_utf8(rom@.subrange(0x134, 0x143)),
            ),
    {
        let mut header: Vec<u8> = Vec::new();
        let mut i: usize = 0x134;
        while i < 0x143
            invariant
                0x134 <= i <= 0x143,
                rom@.len() >= 0x143,
                header@ == rom@.subrange(0x134, i as int),
            decreases 0x143 - i,
        {
            header.push(rom[i]);
            i = i + 1;
        }
        let decoded = utf8_lossy_string(header.as_slice());
        let title = trim_trailing_nul(decoded.as_str()).to_owned();

        let kind: u8 = if 0x147 < rom.len() { rom[0x147] } else { 0 };
        let mbc = match kind {
            0x00 => MbcType::NoMbc,
            0x01..=0x03 => MbcType::Mbc1,
            0x0F..=0x13 => MbcType::Mbc3,
            0x19..=0x1E => MbcType::Mbc5,
            _ => MbcType::NoMbc,
        };

        let size_code: u8 = if 0x149 < rom.len() { rom[0x149] } else { 0 };
        let ram_size: usize = match size_code {
            0x02 => 8 * 1024,
            0x03 => 32 * 1024,
            0x04 => 128 * 1024,
            0x05 => 64 * 1024,
            _ => 0,
        };

        let ram = vec![0u8; ram_size];
        let c = Cartridge {
            rom,
            ram,
            mbc,
            rom_bank: 1,
            ram_bank: 0,
            ram_enabled: false,
            title,
        };
        assert(c.ram@ =~= Seq::new(ram_size_for(size_code), |i: int| 0u8));
        c
    }

    pub fn read(&self, addr: u16) -> (r: u8)
        requires
            self@.read_ok(addr),
        ensures
            r == self@.read(addr),
    {
        match addr {
            // ROM Bank 0 (fixed)
            0x0000..=0x3FFF => {
                let i = addr as usize;
                if i < self.rom.len() {
                    self.rom[i]
                } else {
                    0xFF
                }
            },
            // ROM Bank N (switchable)
            0x4000..=0x7FFF => {
                let offset = self.rom_bank * 0x4000 + (addr as usize - 0x4000);
                if offset < self.rom.len() {
                    self.rom[offset]
                } else {
                    0xFF
                }
            },
            // External RAM
            0xA000..=0xBFFF => {
                if self.ram_enabled && self.ram.len() > 0 {
                    let offset = self.ram_bank * 0x2000 + (addr as usize - 0xA000);
                    if offset < self.ram.len() {
                        self.ram[offset]
                    } else {
                        0xFF
                    }
                } else {
                    0xFF
                }
            },
            _ => 0xFF,
        }
    }

    pub fn write(&mut self, addr: u16, val: u8)
        requires
            old(self)@.write_ok(addr),
        ensures
            final(self)@ == old(self)@.write(addr, val),
            old(self)@.wf() ==> final(self)@.wf(),
    {
        proof {
            if self@.wf() {
                lemma_write_keeps_wf(self@, addr, val);
            }
        }
        match self.mbc {
            MbcType::NoMbc => {
                // RAM write only
                if 0xA000 <= addr && addr <= 0xBFFF && self.ram.len() > 0 {
                    let offset = addr as usize - 0xA000;
                    if offset < self.ram.len() {
                        self.ram.set(offset, val);
                    }
                }
            },
            MbcType::Mbc1 => self.write_mbc1(addr, val),
            MbcType::Mbc3 => self.write_mbc3(addr, val),
            MbcType::Mbc5 => self.write_mbc5(addr, val),
        }
    }

    /// Write to RAM through the selected bank, if enabled and in range.
    fn write_banked_ram(&mut self, addr: u16, val: u8)
        requires
            old(self)@.write_ok(addr),
            old(self).mbc != MbcType::NoMbc,
            0xA000 <= addr <= 0xBFFF,
        ensures
            final(self)@ == old(self)@.banked_ram_write(addr, val),
    {
        if self.ram_enabled && self.ram.len() > 0 {
            let offset = self.ram_bank * 0x2000 + (addr as usize - 0xA000);
            if offset < self.ram.len() {
                self.ram.set(offset, val);
            }
        }
    }

    fn write_mbc1(&mut self, addr: u16, val: u8)
        requires
            old(self)@.write_ok(addr),
            old(self).mbc != MbcType::NoMbc,
        ensures
            final(self)@ == old(self)@.write_mbc1(addr, val),
    {
        match addr {
            0x0000..=0x1FFF => self.ram_enabled = (val & 0x0F) == 0x0A,
            0x2000..=0x3FFF => {
                let bank = (val & 0x1F) as usize;
                self.rom_bank = if bank == 0 { 1 } else { bank };
            },
            0x4000..=0x5FFF => {
                self.ram_bank = (val & 0x03) as usize;
            },
            0x6000..=0x7FFF => {  /* Banking mode select — simplified */
            },
            0xA000..=0xBFFF => self.write_banked_ram(addr, val),
            _ => {},
        }
    }

    fn write_mbc3(&mut self, addr: u16, val: u8)
        requires
            old(self)@.write_ok(addr),
            old(self).mbc != MbcType::NoMbc,
        ensures
            final(self)@ == old(self)@.write_mbc3(addr, val),
    {
        match addr {
            0x0000..=0x1FFF => self.ram_enabled = (val & 0x0F) == 0x0A,
            0x2000..=0x3FFF => {
                let bank = (val & 0x7F) as usize;
                self.rom_bank = if bank == 0 { 1 } else { bank };
            },
            0x4000..=0x5FFF => {
                self.ram_bank = (val & 0x03) as usize;
            },
            0xA000..=0xBFFF => self.write_banked_ram(addr, val),
            _ => {},
        }
    }

    fn write_mbc5(&mut self, addr: u16, val: u8)
        requires
            old(self)@.write_ok(addr),
            old(self).mbc != MbcType::NoMbc,
        ensures
            final(self)@ == old(self)@.write_mbc5(addr, val),
    {
        match addr {
            0x0000..=0x1FFF => self.ram_enabled = (val & 0x0F) == 0x0A,
            0x2000..=0x2FFF => {
                self.rom_bank = (self.rom_bank & 0x100) | val as usize;
            },
            0x3000..=0x3FFF => {
                self.rom_bank = (self.rom_bank & 0xFF) | ((val as usize & 1) << 8);
            },
            0x4000..=0x5FFF => {
                self.ram_bank = (val & 0x0F) as usize;
            },
            0xA000..=0xBFFF => self.write_banked_ram(addr, val),
            _ => {},
        }
    }
}

} // verus!
