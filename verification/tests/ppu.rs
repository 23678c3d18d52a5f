use oxiboy_core::ppu::{Ppu, FRAMEBUFFER_LEN};

fn pixel(p: &Ppu, x: usize, y: usize) -> [u8; 4] {
    let i = (y * 160 + x) * 4;
    [p.framebuffer[i], p.framebuffer[i + 1], p.framebuffer[i + 2], p.framebuffer[i + 3]]
}

const BLACK: [u8; 4] = [0, 0, 0, 255];
const WHITE: [u8; 4] = [255, 255, 255, 255];

/// A PPU about to finish pixel transfer of line `ly`.
fn transferring(lcdc: u8, ly: u8) -> Ppu {
    let mut p = Ppu::new();
    p.lcdc = lcdc;
    p.stat = 0x03;
    p.ly = ly;
    p
}

#[test]
fn ppu_power_on_state() {
    let p = Ppu::new();
    assert_eq!(p.lcdc, 0x91);
    assert_eq!(p.stat, 0);
    assert_eq!(p.bgp, 0xFC);
    assert_eq!((p.obp0, p.obp1), (0xFF, 0xFF));
    assert_eq!(p.framebuffer.len(), FRAMEBUFFER_LEN);
    assert!(p.framebuffer.iter().all(|b| *b == 0));
    assert!(!p.frame_ready);
}

#[test]
fn ppu_lcd_off_does_nothing() {
    let mut p = Ppu::new();
    p.lcdc = 0x11;
    p.interrupt_flags = 0x03;
    p.step(1000);
    assert_eq!(p.interrupt_flags, 0);
    assert_eq!(p.cycles, 0);
    assert_eq!(p.ly, 0);
    assert_eq!(p.stat, 0);
}

#[test]
fn ppu_mode_sequence_of_a_line() {
    let mut p = Ppu::new();
    p.step(200);
    assert_eq!(p.stat & 3, 0);
    p.step(4);
    assert_eq!(p.ly, 1);
    assert_eq!(p.stat & 3, 2);
    p.step(80);
    assert_eq!(p.stat & 3, 3);
    p.step(172);
    assert_eq!(p.stat & 3, 0);
    assert_eq!(p.cycles, 0);
    p.step(204);
    assert_eq!(p.ly, 2);
    assert_eq!(p.stat & 3, 2);
}

#[test]
fn ppu_full_frame_timing() {
    let mut p = Ppu::new();
    let mut vblanks = 0;
    let mut max_ly = 0;
    for _ in 0..(70224 / 4) {
        p.step(4);
        if p.interrupt_flags & 0x01 != 0 {
            vblanks += 1;
        }
        max_ly = max_ly.max(p.ly);
    }
    assert_eq!(vblanks, 1);
    assert_eq!(max_ly, 153);
    assert!(p.frame_ready);
    assert_eq!(p.ly, 0);
    assert_eq!(p.stat & 3, 0);
    assert_eq!(p.cycles, 0);
}

#[test]
fn ppu_vblank_lasts_ten_lines() {
    let mut p = Ppu::new();
    p.stat = 0x01;
    p.ly = 144;
    for line in 145..=153u8 {
        p.step(456);
        assert_eq!(p.ly, line);
        assert_eq!(p.stat & 3, 1);
    }
    p.window_line = 9;
    p.step(456);
    assert_eq!(p.ly, 0);
    assert_eq!(p.window_line, 0);
    assert_eq!(p.stat & 3, 2);
}

#[test]
fn ppu_lyc_coincidence() {
    let mut p = Ppu::new();
    p.lyc = 1;
    p.stat = 0x40;
    p.step(204);
    assert_eq!(p.ly, 1);
    assert_eq!(p.stat & 0x04, 0x04);
    assert_eq!(p.interrupt_flags & 0x02, 0x02);
    p.step(80);
    p.step(172);
    assert_eq!(p.stat & 0x04, 0x04);
    p.step(204);
    assert_eq!(p.ly, 2);
    assert_eq!(p.stat & 0x04, 0x00);
}

#[test]
fn ppu_stat_mode_interrupts() {
    let mut p = transferring(0x91, 5);
    p.stat |= 0x08;
    p.step(172);
    assert_eq!(p.interrupt_flags, 0x02);
    p.step(100);
    assert_eq!(p.interrupt_flags, 0x00);
    let mut p = Ppu::new();
    p.stat = 0x20;
    p.ly = 10;
    p.step(204);
    assert_eq!(p.interrupt_flags, 0x02);
    let mut p = Ppu::new();
    p.stat = 0x10;
    p.ly = 143;
    p.step(204);
    assert_eq!(p.interrupt_flags, 0x03);
    assert_eq!(p.stat & 3, 1);
}

#[test]
fn ppu_renders_background_line() {
    let mut p = transferring(0x91, 0);
    p.vram[0] = 0xFF; // tile 0, row 0: colour 1 everywhere
    p.step(172);
    for x in 0..160 {
        assert_eq!(pixel(&p, x, 0), BLACK);
    }
    assert_eq!(pixel(&p, 0, 1), [0, 0, 0, 0]);
    p.stat = 0x03;
    p.ly = 1;
    p.step(172);
    assert_eq!(pixel(&p, 17, 1), WHITE);
}

#[test]
fn ppu_background_scrolls() {
    let mut p = transferring(0x91, 0);
    p.vram[0x1800 + 1] = 1; // map column 1 uses tile 1
    p.vram[0x10] = 0xFF; // tile 1 row 0 colour 1
    p.scx = 4;
    p.step(172);
    assert_eq!(pixel(&p, 3, 0), WHITE);
    assert_eq!(pixel(&p, 4, 0), BLACK);
    assert_eq!(pixel(&p, 11, 0), BLACK);
    assert_eq!(pixel(&p, 12, 0), WHITE);
}

#[test]
fn ppu_signed_tile_addressing() {
    let mut p = transferring(0x81, 0);
    p.vram[0x1000] = 0xFF; // tile 0 in signed mode lives at 0x1000
    p.vram[0x1800 + 2] = 0x80; // tile -128 at 0x0800
    p.vram[0x0800] = 0xFF;
    p.step(172);
    assert_eq!(pixel(&p, 0, 0), BLACK);
    assert_eq!(pixel(&p, 16, 0), BLACK);
}

#[test]
fn ppu_palette_shades() {
    let mut p = transferring(0x91, 0);
    p.bgp = 0b11_10_01_00;
    // tile 0 row 0: pixels 0..8 get colours 0,1,2,3,0,1,2,3
    p.vram[0] = 0b0101_0101;
    p.vram[1] = 0b0011_0011;
    p.step(172);
    assert_eq!(pixel(&p, 0, 0)[0], 255);
    assert_eq!(pixel(&p, 1, 0)[0], 170);
    assert_eq!(pixel(&p, 2, 0)[0], 85);
    assert_eq!(pixel(&p, 3, 0)[0], 0);
}

#[test]
fn ppu_background_off_clears_line_white() {
    let mut p = transferring(0x90, 3);
    p.vram[0] = 0xFF;
    p.step(172);
    for x in 0..160 {
        assert_eq!(pixel(&p, x, 3), WHITE);
    }
}

#[test]
fn ppu_window_covers_background() {
    let mut p = transferring(0xF1, 0);
    p.wx = 7 + 80;
    p.wy = 0;
    for i in 0..0x400 {
        p.vram[0x1C00 + i] = 1;
    }
    p.vram[0x11] = 0xFF; // tile 1 row 0 high byte: colour 2
    p.step(172);
    assert_eq!(pixel(&p, 79, 0), WHITE);
    assert_eq!(pixel(&p, 80, 0), BLACK);
    assert_eq!(pixel(&p, 159, 0), BLACK);
    assert_eq!(p.window_line, 1);
}

#[test]
fn ppu_window_hidden_above_wy_or_right_of_screen() {
    let mut p = transferring(0xF1, 0);
    p.wy = 10;
    p.step(172);
    assert_eq!(p.window_line, 0);
    let mut p = transferring(0xF1, 20);
    p.wx = 200;
    p.step(172);
    assert_eq!(p.window_line, 0);
}

fn sprite(p: &mut Ppu, i: usize, x: u8, y: u8, tile: u8, flags: u8) {
    p.oam[i * 4] = y;
    p.oam[i * 4 + 1] = x;
    p.oam[i * 4 + 2] = tile;
    p.oam[i * 4 + 3] = flags;
}

#[test]
fn ppu_draws_sprite_pixels() {
    let mut p = transferring(0x93, 0);
    sprite(&mut p, 0, 8 + 10, 16, 2, 0x00);
    p.vram[0x20] = 0x81; // tile 2 row 0: leftmost and rightmost colour 1
    p.step(172);
    assert_eq!(pixel(&p, 10, 0), BLACK);
    assert_eq!(pixel(&p, 11, 0), WHITE); // colour 0 is transparent
    assert_eq!(pixel(&p, 17, 0), BLACK);
}

#[test]
fn ppu_sprite_flip_and_palette() {
    let mut p = transferring(0x93, 0);
    p.obp1 = 0b01_01_01_00;
    sprite(&mut p, 0, 8, 16, 2, 0x30); // flip x, palette 1
    p.vram[0x20] = 0x80;
    p.step(172);
    assert_eq!(pixel(&p, 7, 0), [170, 170, 170, 255]);
    assert_eq!(pixel(&p, 0, 0), WHITE);
}

#[test]
fn ppu_sprite_vertical_flip_and_tall() {
    let mut p = transferring(0x97, 15);
    sprite(&mut p, 0, 8, 16, 3, 0x40); // tall: tile 2/3, flipped: line 15 shows row 0 of tile 2
    p.vram[0x20] = 0x80;
    p.step(172);
    assert_eq!(pixel(&p, 0, 15), BLACK);
}

#[test]
fn ppu_sprite_behind_background() {
    let mut p = transferring(0x93, 0);
    p.vram[0] = 0xF0; // background columns 0..4 black, 4..8 white
    sprite(&mut p, 0, 8, 16, 2, 0x80);
    p.vram[0x20] = 0xFF;
    p.obp0 = 0b0101_0100;
    p.step(172);
    assert_eq!(pixel(&p, 0, 0), BLACK);
    assert_eq!(pixel(&p, 4, 0), [170, 170, 170, 255]);
}

#[test]
fn ppu_lower_oam_index_wins() {
    let mut p = transferring(0x93, 0);
    p.obp1 = 0b0101_0100;
    sprite(&mut p, 0, 8, 16, 2, 0x00);
    sprite(&mut p, 1, 8, 16, 2, 0x10);
    p.vram[0x20] = 0x80;
    p.step(172);
    assert_eq!(pixel(&p, 0, 0), BLACK);
}

#[test]
fn ppu_ten_sprites_per_line() {
    let mut p = transferring(0x93, 0);
    p.vram[0x20] = 0x80;
    for i in 0..12 {
        sprite(&mut p, i, 8 + 10 * i as u8, 16, 2, 0);
    }
    p.step(172);
    for i in 0..10 {
        assert_eq!(pixel(&p, 10 * i, 0), BLACK);
    }
    assert_eq!(pixel(&p, 100, 0), WHITE);
    assert_eq!(pixel(&p, 110, 0), WHITE);
}

#[test]
fn ppu_last_visible_line_enters_vblank() {
    let mut p = Ppu::new();
    p.stat = 0x00;
    p.ly = 143;
    p.step(204);
    assert_eq!(p.ly, 144);
    assert_eq!(p.stat & 3, 1);
    assert!(p.frame_ready);
    assert_eq!(p.interrupt_flags & !0x03, 0);
    assert_eq!(p.interrupt_flags & 0x01, 0x01);
}
