use oxiboy_core::bus::Bus;
use oxiboy_core::cartridge::{Cartridge, MbcType};

/// A 64 KiB ROM whose every byte tells its bank, with a header.
fn rom_with_header(kind: u8, ram_code: u8, title: &[u8]) -> Vec<u8> {
    let mut rom = vec![0u8; 0x10000];
    for (i, b) in rom.iter_mut().enumerate() {
        *b = (i / 0x4000) as u8 + 0x10;
    }
    for i in 0x134..0x143 {
        rom[i] = 0;
    }
    for (i, b) in title.iter().enumerate() {
        rom[0x134 + i] = *b;
    }
    rom[0x147] = kind;
    rom[0x149] = ram_code;
    rom
}

#[test]
fn cartridge_header_parsing() {
    let c = Cartridge::new(rom_with_header(0x01, 0x03, b"TETRIS"));
    assert_eq!(c.title, "TETRIS");
    assert_eq!(c.mbc, MbcType::Mbc1);
    assert_eq!(c.ram.len(), 32 * 1024);
    assert!(c.ram.iter().all(|b| *b == 0));
    assert_eq!(c.rom_bank, 1);
    assert_eq!(c.ram_bank, 0);
    assert!(!c.ram_enabled);
}

#[test]
fn cartridge_mbc_kinds_and_ram_sizes() {
    for (kind, mbc) in [
        (0x00u8, MbcType::NoMbc),
        (0x03, MbcType::Mbc1),
        (0x0F, MbcType::Mbc3),
        (0x13, MbcType::Mbc3),
        (0x19, MbcType::Mbc5),
        (0x1E, MbcType::Mbc5),
        (0x20, MbcType::NoMbc),
    ] {
        assert_eq!(Cartridge::new(rom_with_header(kind, 0, b"X")).mbc, mbc);
    }
    for (code, size) in [(0x00u8, 0usize), (0x01, 0), (0x02, 8192), (0x03, 32768), (0x04, 131072), (0x05, 65536)] {
        assert_eq!(Cartridge::new(rom_with_header(0, code, b"X")).ram.len(), size);
    }
}

#[test]
fn cartridge_short_rom_defaults_header_bytes() {
    let rom = vec![0x41u8; 0x143];
    let c = Cartridge::new(rom);
    assert_eq!(c.mbc, MbcType::NoMbc);
    assert_eq!(c.ram.len(), 0);
    assert_eq!(c.title, "AAAAAAAAAAAAAAA");
    assert_eq!(c.read(0x0100), 0x41);
    assert_eq!(c.read(0x0142), 0x41);
    assert_eq!(c.read(0x0143), 0xFF);
    assert_eq!(c.read(0x4000), 0xFF);
}

#[test]
fn cartridge_title_trims_only_trailing_nuls() {
    let c = Cartridge::new(rom_with_header(0, 0, b"A\0B"));
    assert_eq!(c.title, "A\0B");
    let c = Cartridge::new(rom_with_header(0, 0, b""));
    assert_eq!(c.title, "");
}

#[test]
fn cartridge_title_replaces_invalid_utf8() {
    let c = Cartridge::new(rom_with_header(0, 0, &[0x50, 0xFF, 0x51]));
    assert_eq!(c.title, "P\u{FFFD}Q");
}

#[test]
fn cartridge_bank_switching_mbc1() {
    let mut c = Cartridge::new(rom_with_header(0x01, 0x00, b"X"));
    assert_eq!(c.read(0x0000), 0x10);
    assert_eq!(c.read(0x4000), 0x11);
    c.write(0x2000, 0x02);
    assert_eq!(c.rom_bank, 2);
    assert_eq!(c.read(0x4000), 0x12);
    assert_eq!(c.read(0x7FFF), 0x12);
    // bank 0 selects bank 1
    c.write(0x2000, 0x00);
    assert_eq!(c.rom_bank, 1);
    // only five bits count
    c.write(0x3FFF, 0xE3);
    assert_eq!(c.rom_bank, 3);
    // bank past the ROM reads open bus
    c.write(0x2000, 0x1F);
    assert_eq!(c.read(0x4000), 0xFF);
    // bank 0 area never moves
    assert_eq!(c.read(0x0100), 0x10);
}

#[test]
fn cartridge_bank_switching_mbc3_and_mbc5() {
    let mut c = Cartridge::new(rom_with_header(0x13, 0x00, b"X"));
    c.write(0x2000, 0x83);
    assert_eq!(c.rom_bank, 3);
    c.write(0x2000, 0x80);
    assert_eq!(c.rom_bank, 1);
    let mut c = Cartridge::new(rom_with_header(0x19, 0x00, b"X"));
    c.write(0x2000, 0x00);
    assert_eq!(c.rom_bank, 0);
    assert_eq!(c.read(0x4000), 0x10);
    c.write(0x3000, 0x01);
    assert_eq!(c.rom_bank, 0x100);
    c.write(0x2000, 0x05);
    assert_eq!(c.rom_bank, 0x105);
    c.write(0x3000, 0x00);
    assert_eq!(c.rom_bank, 0x05);
    c.write(0x4000, 0xFF);
    assert_eq!(c.ram_bank, 0x0F);
}

#[test]
fn cartridge_ram_enable_and_read_after_write() {
    let mut c = Cartridge::new(rom_with_header(0x03, 0x03, b"X"));
    // disabled RAM reads 0xFF and ignores writes
    c.write(0xA000, 0x55);
    assert_eq!(c.read(0xA000), 0xFF);
    assert_eq!(c.ram[0], 0);
    c.write(0x0000, 0x0A);
    assert!(c.ram_enabled);
    c.write(0xA000, 0x55);
    assert_eq!(c.read(0xA000), 0x55);
    c.write(0x4000, 0x01);
    assert_eq!(c.ram_bank, 1);
    c.write(0xA001, 0x66);
    assert_eq!(c.ram[0x2001], 0x66);
    assert_eq!(c.read(0xA001), 0x66);
    assert_eq!(c.read(0xA000), 0x00);
    c.write(0x1000, 0x1B);
    assert!(!c.ram_enabled);
    assert_eq!(c.read(0xA001), 0xFF);
}

#[test]
fn cartridge_ram_bank_past_ram_reads_ff() {
    let mut c = Cartridge::new(rom_with_header(0x03, 0x02, b"X"));
    c.write(0x0000, 0x0A);
    c.write(0x4000, 0x01);
    c.write(0xA000, 0x12);
    assert_eq!(c.read(0xA000), 0xFF);
    assert!(c.ram.iter().all(|b| *b == 0));
}

#[test]
fn cartridge_no_mbc_ram_write_without_enable() {
    let mut c = Cartridge::new(rom_with_header(0x00, 0x02, b"X"));
    c.write(0xA010, 0x77);
    assert_eq!(c.ram[0x10], 0x77);
    // without a controller RAM can never be enabled for reading
    assert_eq!(c.read(0xA010), 0xFF);
    // ROM writes do nothing
    c.write(0x2000, 0x05);
    assert_eq!(c.rom_bank, 1);
}

#[test]
fn cartridge_writes_never_touch_rom() {
    let mut c = Cartridge::new(rom_with_header(0x1B, 0x03, b"X"));
    let rom = c.rom.clone();
    for addr in [0x0000u16, 0x1000, 0x2000, 0x3000, 0x4000, 0x6000, 0x7FFF, 0xA000, 0xBFFF] {
        c.write(addr, 0x0A);
    }
    assert_eq!(c.rom, rom);
    assert_eq!(c.title, "X");
}

fn bus() -> Bus {
    Bus::new(Cartridge::new(rom_with_header(0x03, 0x03, b"BUS")))
}

#[test]
fn bus_initial_registers() {
    let b = bus();
    assert_eq!(b.read(0xFF0F), 0xE1);
    assert_eq!(b.read(0xFFFF), 0x00);
    assert_eq!(b.read(0xFF40), 0x91);
    assert_eq!(b.read(0xFF41), 0x80);
    assert_eq!(b.read(0xFF47), 0xFC);
    assert_eq!(b.read(0xFF04), 0xAB);
    assert_eq!(b.read(0xFF00), 0xF0);
}

#[test]
fn bus_read_after_write_memories() {
    let mut b = bus();
    for (addr, val) in [(0x8000u16, 1u8), (0x9FFF, 2), (0xC000, 3), (0xDFFF, 4), (0xFE00, 5), (0xFE9F, 6), (0xFF80, 7), (0xFFFE, 8), (0xFFFF, 9)] {
        b.write(addr, val);
        assert_eq!(b.read(addr), val);
    }
    assert_eq!(b.ppu.vram[0], 1);
    assert_eq!(b.wram[0x1FFF], 4);
    assert_eq!(b.ppu.oam[0x9F], 6);
    assert_eq!(b.hram[0x7E], 8);
    assert_eq!(b.ie, 9);
}

#[test]
fn bus_echo_ram_mirrors_wram() {
    let mut b = bus();
    b.write(0xC123, 0xAB);
    assert_eq!(b.read(0xE123), 0xAB);
    b.write(0xFDFF, 0xCD);
    assert_eq!(b.read(0xDDFF), 0xCD);
}

#[test]
fn bus_unusable_area() {
    let mut b = bus();
    b.write(0xFEA0, 0x12);
    assert_eq!(b.read(0xFEA0), 0xFF);
    assert_eq!(b.read(0xFEFF), 0xFF);
}

#[test]
fn bus_io_registers() {
    let mut b = bus();
    b.write(0xFF01, 0x11);
    b.write(0xFF02, 0x81);
    assert_eq!(b.read(0xFF01), 0x11);
    assert_eq!(b.read(0xFF02), 0x81);
    b.write(0xFF04, 0x99);
    assert_eq!(b.read(0xFF04), 0x00);
    b.write(0xFF05, 0x10);
    b.write(0xFF06, 0x20);
    b.write(0xFF07, 0x05);
    assert_eq!(b.timer.tima, 0x10);
    assert_eq!(b.read(0xFF06), 0x20);
    assert_eq!(b.read(0xFF07), 0x05);
    b.write(0xFF0F, 0x1F);
    assert_eq!(b.if_reg, 0x1F);
    b.write(0xFF12, 0x55);
    assert_eq!(b.read(0xFF12), 0x00);
    assert_eq!(b.read(0xFF46), 0xFF);
    assert_eq!(b.read(0xFF4C), 0xFF);
    assert_eq!(b.read(0xFF03), 0xFF);
    b.write(0xFF42, 3);
    b.write(0xFF43, 4);
    b.write(0xFF45, 5);
    b.write(0xFF48, 6);
    b.write(0xFF49, 7);
    b.write(0xFF4A, 8);
    b.write(0xFF4B, 9);
    assert_eq!(
        [b.read(0xFF42), b.read(0xFF43), b.read(0xFF45), b.read(0xFF48), b.read(0xFF49), b.read(0xFF4A), b.read(0xFF4B)],
        [3, 4, 5, 6, 7, 8, 9]
    );
    b.write(0xFF00, 0x10);
    assert_eq!(b.read(0xFF00), 0xDF);
}

#[test]
fn bus_ly_is_read_only() {
    let mut b = bus();
    b.ppu.ly = 42;
    b.write(0xFF44, 7);
    assert_eq!(b.read(0xFF44), 42);
}

#[test]
fn bus_stat_write_keeps_low_bits_and_reads_bit7() {
    let mut b = bus();
    b.ppu.stat = 0x06;
    b.write(0xFF41, 0xFF);
    assert_eq!(b.ppu.stat, 0x7E);
    assert_eq!(b.read(0xFF41), 0xFE);
    b.write(0xFF41, 0x00);
    assert_eq!(b.ppu.stat, 0x06);
    assert_eq!(b.read(0xFF41), 0x86);
}

#[test]
fn bus_dma_copies_160_bytes_to_oam() {
    let mut b = bus();
    for i in 0..0xA0u16 {
        b.write(0xC000 + i, (i as u8) ^ 0x5A);
    }
    b.write(0xFF46, 0xC0);
    for i in 0..0xA0usize {
        assert_eq!(b.ppu.oam[i], (i as u8) ^ 0x5A);
    }
    // from the switchable ROM bank
    b.write(0xFF46, 0x40);
    assert!(b.ppu.oam.iter().all(|x| *x == 0x11));
}

#[test]
fn bus_cartridge_ram_through_bus() {
    let mut b = bus();
    b.write(0x0000, 0x0A);
    b.write(0xA100, 0x42);
    assert_eq!(b.read(0xA100), 0x42);
    assert_eq!(b.read(0x4000), 0x11);
    b.write(0x2000, 3);
    assert_eq!(b.read(0x4000), 0x13);
}

#[test]
fn cartridge_title_keeps_inner_nul() {
    let c = Cartridge::new(rom_with_header(0x00, 0x00, b"AB\0C"));
    assert_eq!(c.title, "AB\0C");
    let c = Cartridge::new(rom_with_header(0x00, 0x00, b""));
    assert_eq!(c.title, "");
}
