use vstd::prelude::*;

verus! {

/// Bytes in the RGBA framebuffer: 160 × 144 pixels of 4 bytes.
pub const FRAMEBUFFER_LEN: usize = 92160;

/// Pixel Processing Unit — renders tiles, sprites, and background
pub struct Ppu {
    /// 8KB Video RAM
    pub vram: [u8; 0x2000],
    /// Object Attribute Memory (40 sprites × 4 bytes)
    pub oam: [u8; 0xA0],
    /// RGBA
    pub framebuffer: [u8; FRAMEBUFFER_LEN],
    /// 0xFF40 — LCD Control
    pub lcdc: u8,
    /// 0xFF41 — LCD Status
    pub stat: u8,
    /// 0xFF42 — Scroll Y
    pub scy: u8,
    /// 0xFF43 — Scroll X
    pub scx: u8,
    /// 0xFF44 — Current scanline
    pub ly: u8,
    /// 0xFF45 — LY Compare
    pub lyc: u8,
    /// 0xFF47 — BG Palette
    pub bgp: u8,
    /// 0xFF48 — Object Palette 0
    pub obp0: u8,
    /// 0xFF49 — Object Palette 1
    pub obp1: u8,
    /// 0xFF4A — Window Y
    pub wy: u8,
    /// 0xFF4B — Window X
    pub wx: u8,
    /// 0xFF46 — DMA Transfer
    pub dma: u8,
    /// T-cycles spent in the current mode
    pub cycles: u32,
    pub frame_ready: bool,
    pub interrupt_flags: u8,
    /// Line of the window layer to draw next
    pub window_line: u8,
}

// PPU modes
pub const MODE_HBLANK: u8 = 0;
pub const MODE_VBLANK: u8 = 1;
pub const MODE_OAM: u8 = 2;
pub const MODE_TRANSFER: u8 = 3;

// LCDC bits, as masks
pub const LCDC_ENABLE: u8 = 0x80;
pub const LCDC_WIN_MAP: u8 = 0x40;
pub const LCDC_WIN_ENABLE: u8 = 0x20;
pub const LCDC_TILE_DATA: u8 = 0x10;
pub const LCDC_BG_MAP: u8 = 0x08;
pub const LCDC_OBJ_SIZE: u8 = 0x04;
pub const LCDC_OBJ_ENABLE: u8 = 0x02;
pub const LCDC_BG_ENABLE: u8 = 0x01;

/// An entry of the per-line sprite list: x, y, tile, attributes, OAM index.
pub type SpriteEntry = (u8, u8, u8, u8, usize);

/// The PPU as mathematical values.
pub struct PpuView {
    pub vram: Seq<u8>,
    pub oam: Seq<u8>,
    pub framebuffer: Seq<u8>,
    pub lcdc: u8,
    pub stat: u8,
    pub scy: u8,
    pub scx: u8,
    pub ly: u8,
    pub lyc: u8,
    pub bgp: u8,
    pub obp0: u8,
    pub obp1: u8,
    pub wy: u8,
    pub wx: u8,
    pub dma: u8,
    pub cycles: u32,
    pub frame_ready: bool,
    pub interrupt_flags: u8,
    pub window_line: u8,
}

impl View for Ppu {
    type V = PpuView;

    open spec fn view(&self) -> PpuView {
        PpuView {
            vram: self.vram@,
            oam: self.oam@,
            framebuffer: self.framebuffer@,
            lcdc: self.lcdc,
            stat: self.stat,
            scy: self.scy,
            scx: self.scx,
            ly: self.ly,
            lyc: self.lyc,
            bgp: self.bgp,
            obp0: self.obp0,
            obp1: self.obp1,
            wy: self.wy,
            wx: self.wx,
            dma: self.dma,
            cycles: self.cycles,
            frame_ready: self.frame_ready,
            interrupt_flags: self.interrupt_flags,
            window_line: self.window_line,
        }
    }
}

/// The 2-bit colour number of a tile pixel: bit `bit` of the high byte and
/// of the low byte of its tile row.
pub open spec fn color_id(byte1: u8, byte2: u8, bit: u8) -> u8 {
    ((byte2 >> bit) & 1) << 1 | ((byte1 >> bit) & 1)
}

/// The grey level that `palette` gives colour number `id`: shades 0..3
/// are white (255), light grey (170), dark grey (85) and black (0).
pub open spec fn palette_shade(palette: u8, id: u8) -> u8 {
    let shade = (palette >> ((id * 2) as u8)) & 0x03;
    if shade == 0 {
        255
    } else if shade == 1 {
        170
    } else if shade == 2 {
        85
    } else if shade == 3 {
        0
    } else {
        255
    }
}

/// Offset in the framebuffer of pixel `x` of line `line`.
pub open spec fn pixel_offset(line: int, x: int) -> int {
    (line * 160 + x) * 4
}

/// The framebuffer with pixel `x` of line `line` set to grey level `c`, opaque.
pub open spec fn put_pixel(fb: Seq<u8>, line: int, x: int, c: u8) -> Seq<u8> {
    let i = pixel_offset(line, x);
    fb.update(i, c).update(i + 1, c).update(i + 2, c).update(i + 3, 255)
}

impl PpuView {
    /// The power-on state: memories cleared, LCD on with BG enabled,
    /// mode 0 on line 0.
    pub open spec fn initial() -> PpuView {
        PpuView {
            vram: Seq::new(0x2000, |i: int| 0u8),
            oam: Seq::new(0xA0, |i: int| 0u8),
            framebuffer: Seq::new(FRAMEBUFFER_LEN as nat, |i: int| 0u8),
            lcdc: 0x91,
            stat: 0,
            scy: 0,
            scx: 0,
            ly: 0,
            lyc: 0,
            bgp: 0xFC,
            obp0: 0xFF,
            obp1: 0xFF,
            wy: 0,
            wx: 0,
            dma: 0,
            cycles: 0,
            frame_ready: false,
            interrupt_flags: 0,
            window_line: 0,
        }
    }

    /// The arrays have their hardware sizes.
    pub open spec fn sizes_ok(self) -> bool {
        &&& self.vram.len() == 0x2000
        &&& self.oam.len() == 0xA0
        &&& self.framebuffer.len() == FRAMEBUFFER_LEN
    }

    pub open spec fn lcd_enabled(self) -> bool {
        self.lcdc & LCDC_ENABLE != 0
    }

    /// The mode: the low two bits of STAT.
    pub open spec fn mode(self) -> u8 {
        self.stat & 0x03
    }

    pub open spec fn set_mode(self, mode: u8) -> PpuView {
        PpuView { stat: (self.stat & 0xFC) | (mode & 0x03), ..self }
    }

    /// Raise the interrupt requests in `mask`.
    pub open spec fn request(self, mask: u8) -> PpuView {
        PpuView { interrupt_flags: self.interrupt_flags | mask, ..self }
    }

    /// LY=LYC comparison: set or clear the coincidence bit (STAT bit 2), and
    /// request the STAT interrupt on coincidence when STAT bit 6 enables it.
    pub open spec fn check_lyc(self) -> PpuView {
        if self.ly == self.lyc {
            let s = PpuView { stat: self.stat | 0x04, ..self };
            if s.stat & 0x40 != 0 {
                s.request(0x02)
            } else {
                s
            }
        } else {
            PpuView { stat: self.stat & !0x04u8, ..self }
        }
    }

    /// Address in VRAM of the tile with number `idx`: unsigned from 0x0000
    /// when LCDC bit 4 is set, else signed around 0x1000.
    pub open spec fn tile_addr(self, idx: u8) -> int {
        if self.lcdc & LCDC_TILE_DATA != 0 {
            idx * 16
        } else {
            let signed_idx: int = if idx < 128 { idx as int } else { idx - 256 };
            0x0800 + (signed_idx + 128) * 16
        }
    }

    /// Colour number of the tile pixel at the given tile-map row and column
    /// and pixel row and column inside the tile.
    pub open spec fn tile_color_id(
        self,
        map_base: int,
        tile_row: int,
        tile_col: int,
        pixel_row: int,
        pixel_col: int,
    ) -> u8 {
        let tile_idx = self.vram[map_base + tile_row * 32 + tile_col];
        let addr = self.tile_addr(tile_idx);
        color_id(self.vram[addr + pixel_row * 2], self.vram[addr + pixel_row * 2 + 1], (7 - pixel_col) as u8)
    }

    /// Grey level of the background at screen column `x` of line LY.
    pub open spec fn bg_shade(self, x: int) -> u8 {
        let y = self.ly.wrapping_add(self.scy);
        let sx = (x as u8).wrapping_add(self.scx);
        let map_base: int = if self.lcdc & LCDC_BG_MAP != 0 { 0x1C00 } else { 0x1800 };
        palette_shade(self.bgp, self.tile_color_id(map_base, (y / 8) as int, (sx / 8) as int, (y % 8) as int, (sx % 8) as int))
    }

    /// The framebuffer with the first `n` background pixels of line LY drawn.
    pub open spec fn fb_bg(self, n: nat) -> Seq<u8>
        decreases n,
    {
        if n == 0 {
            self.framebuffer
        } else {
            put_pixel(self.fb_bg((n - 1) as nat), self.ly as int, n - 1, self.bg_shade(n - 1))
        }
    }

    /// The framebuffer with the first `n` pixels of line LY white.
    pub open spec fn fb_white(self, n: nat) -> Seq<u8>
        decreases n,
    {
        if n == 0 {
            self.framebuffer
        } else {
            put_pixel(self.fb_white((n - 1) as nat), self.ly as int, n - 1, 255)
        }
    }

    /// Screen column where the window starts (WX - 7, wrapping).
    pub open spec fn window_x0(self) -> u8 {
        self.wx.wrapping_sub(7)
    }

    /// Grey level of the window at screen column `x`.
    pub open spec fn window_shade(self, x: int) -> u8 {
        let win_x = x - self.window_x0();
        let map_base: int = if self.lcdc & LCDC_WIN_MAP != 0 { 0x1C00 } else { 0x1800 };
        palette_shade(
            self.bgp,
            self.tile_color_id(
                map_base,
                (self.window_line / 8) as int,
                win_x / 8,
                (self.window_line % 8) as int,
                win_x % 8,
            ),
        )
    }

    /// The framebuffer with the window drawn on line LY from its first
    /// column up to column `n`.
    pub open spec fn fb_window(self, n: nat) -> Seq<u8>
        decreases n,
    {
        if n <= self.window_x0() {
            self.framebuffer
        } else {
            put_pixel(self.fb_window((n - 1) as nat), self.ly as int, n - 1, self.window_shade(n - 1))
        }
    }

    /// Whether the window shows on line LY.
    pub open spec fn window_visible(self) -> bool {
        self.ly >= self.wy && self.window_x0() < 160
    }

    pub open spec fn render_bg(self) -> PpuView {
        PpuView { framebuffer: self.fb_bg(160), ..self }
    }

    pub open spec fn clear_line(self) -> PpuView {
        PpuView { framebuffer: self.fb_white(160), ..self }
    }

    /// Draw the window on line LY, if visible, and move to its next line.
    pub open spec fn render_window(self) -> PpuView {
        if !self.window_visible() {
            self
        } else {
            PpuView {
                framebuffer: self.fb_window(160),
                window_line: (self.window_line + 1) as u8,
                ..self
            }
        }
    }

    /// Sprite height: 16 when LCDC bit 2 is set, else 8.
    pub open spec fn sprite_height(self) -> u8 {
        if self.lcdc & LCDC_OBJ_SIZE != 0 {
            16
        } else {
            8
        }
    }

    /// The list entry of OAM sprite `i`.
    pub open spec fn oam_entry(self, i: int) -> SpriteEntry {
        (
            self.oam[i * 4 + 1].wrapping_sub(8),
            self.oam[i * 4].wrapping_sub(16),
            self.oam[i * 4 + 2],
            self.oam[i * 4 + 3],
            i as usize,
        )
    }

    /// Whether a sprite with top row `sy` covers line LY.
    pub open spec fn on_line(self, sy: u8) -> bool {
        self.ly >= sy && self.ly < sy.wrapping_add(self.sprite_height())
    }

    /// The sprites on line LY, in OAM order, at most 10: `acc` followed by
    /// those among OAM entries `i..40`.
    pub open spec fn visible_from(self, i: nat, acc: Seq<SpriteEntry>) -> Seq<SpriteEntry>
        decreases 40 - i,
    {
        if i >= 40 || acc.len() >= 10 {
            acc
        } else if self.on_line(self.oam_entry(i as int).1) {
            self.visible_from(i + 1, acc.push(self.oam_entry(i as int)))
        } else {
            self.visible_from(i + 1, acc)
        }
    }

    /// The sprites that line LY shows.
    pub open spec fn line_sprites(self) -> Seq<SpriteEntry> {
        self.visible_from(0, seq![])
    }

    /// Row of the sprite's tile that line LY shows (flipped when attribute bit 6 is set).
    pub open spec fn sprite_row(self, s: SpriteEntry) -> int {
        let row = self.ly.wrapping_sub(s.1) as int;
        if s.3 & 0x40 != 0 {
            self.sprite_height() - 1 - row
        } else {
            row
        }
    }

    /// Address in VRAM of the sprite's tile row (bit 0 of the tile number
    /// ignored for tall sprites).
    pub open spec fn sprite_row_addr(self, s: SpriteEntry) -> int {
        let tile_idx = if self.lcdc & LCDC_OBJ_SIZE != 0 { s.2 & 0xFE } else { s.2 };
        tile_idx * 16 + self.sprite_row(s) * 2
    }

    /// The framebuffer after pixel `px` of sprite `s` is drawn on line LY:
    /// transparent colour 0 and columns off screen are skipped, and a sprite
    /// behind the background (attribute bit 7) only covers white pixels.
    pub open spec fn sprite_px(self, fb: Seq<u8>, s: SpriteEntry, px: u8) -> Seq<u8> {
        let addr = self.sprite_row_addr(s);
        let palette = if s.3 & 0x10 != 0 { self.obp1 } else { self.obp0 };
        let screen_x = s.0.wrapping_add(px);
        let bit: u8 = if s.3 & 0x20 != 0 { px } else { (7 - px) as u8 };
        let cid = color_id(self.vram[addr], self.vram[addr + 1], bit);
        let i = pixel_offset(self.ly as int, screen_x as int);
        if screen_x >= 160 || cid == 0 || (s.3 & 0x80 != 0 && fb[i] != 255) {
            fb
        } else {
            put_pixel(fb, self.ly as int, screen_x as int, palette_shade(palette, cid))
        }
    }

    /// The framebuffer after the first `n` pixels of sprite `s` are drawn.
    pub open spec fn sprite_upto(self, fb: Seq<u8>, s: SpriteEntry, n: nat) -> Seq<u8>
        decreases n,
    {
        if n == 0 {
            fb
        } else {
            self.sprite_px(self.sprite_upto(fb, s, (n - 1) as nat), s, (n - 1) as u8)
        }
    }

    /// The framebuffer after sprite `s` is drawn (nothing when its tile row
    /// would lie past the end of VRAM).
    pub open spec fn draw_sprite(self, fb: Seq<u8>, s: SpriteEntry) -> Seq<u8> {
        if self.sprite_row_addr(s) + 1 >= 0x2000 {
            fb
        } else {
            self.sprite_upto(fb, s, 8)
        }
    }

    /// The framebuffer after the sprites `list[i..]` are drawn from last to
    /// first, so that a sprite earlier in OAM ends on top.
    pub open spec fn draw_list(self, list: Seq<SpriteEntry>, i: nat) -> Seq<u8>
        decreases list.len() - i,
    {
        if i >= list.len() {
            self.framebuffer
        } else {
            self.draw_sprite(self.draw_list(list, i + 1), list[i as int])
        }
    }

    pub open spec fn render_sprites(self) -> PpuView {
        PpuView { framebuffer: self.draw_list(self.line_sprites(), 0), ..self }
    }

    /// Line LY drawn: background (or white), then the window and the
    /// sprites where LCDC enables them. Lines past 143 draw nothing.
    pub open spec fn render_scanline(self) -> PpuView {
        if self.ly >= 144 {
            self
        } else {
            let s1 = if self.lcdc & LCDC_BG_ENABLE != 0 {
                self.render_bg()
            } else {
                self.clear_line()
            };
            let s2 = if s1.lcdc & LCDC_WIN_ENABLE != 0 {
                s1.render_window()
            } else {
                s1
            };
            if s2.lcdc & LCDC_OBJ_ENABLE != 0 {
                s2.render_sprites()
            } else {
                s2
            }
        }
    }

    /// Whether a step of `cycles` T-cycles runs without arithmetic overflow:
    /// the cycle counter, LY and the window line counter stay in range.
    pub open spec fn step_safe(self, cycles: u32) -> bool {
        let total = self.cycles + cycles;
        self.lcd_enabled() ==> {
            &&& total <= u32::MAX
            &&& (self.mode() == MODE_HBLANK && total >= 204) ==> self.ly < 255
            &&& (self.mode() == MODE_VBLANK && total >= 456) ==> self.ly < 255
            &&& (self.mode() == MODE_TRANSFER && total >= 172 && self.ly < 144 && self.lcdc
                & LCDC_WIN_ENABLE != 0 && self.window_visible()) ==> self.window_line < 255
        }
    }

    /// The PPU after `cycles` T-cycles: the mode state machine
    /// OAM scan (80) → pixel transfer (172, then the line is drawn) →
    /// HBlank (204, then LY advances) → next line or VBlank (10 lines of
    /// 456), with the interrupt requests of this step in `interrupt_flags`.
    pub open spec fn step(self, cycles: u32) -> PpuView {
        let s = PpuView { interrupt_flags: 0, ..self };
        if !s.lcd_enabled() {
            s
        } else {
            let s = PpuView { cycles: (s.cycles + cycles) as u32, ..s };
            if s.mode() == MODE_OAM {
                if s.cycles >= 80 {
                    PpuView { cycles: (s.cycles - 80) as u32, ..s }.set_mode(MODE_TRANSFER)
                } else {
                    s
                }
            } else if s.mode() == MODE_TRANSFER {
                if s.cycles >= 172 {
                    let t = PpuView { cycles: (s.cycles - 172) as u32, ..s }.render_scanline().set_mode(
                        MODE_HBLANK,
                    );
                    if t.stat & 0x08 != 0 {
                        t.request(0x02)
                    } else {
                        t
                    }
                } else {
                    s
                }
            } else if s.mode() == MODE_HBLANK {
                if s.cycles >= 204 {
                    let t = PpuView {
                        cycles: (s.cycles - 204) as u32,
                        ly: (s.ly + 1) as u8,
                        ..s
                    }.check_lyc();
                    if t.ly >= 144 {
                        let u = PpuView { frame_ready: true, ..t.set_mode(MODE_VBLANK).request(0x01) };
                        if u.stat & 0x10 != 0 {
                            u.request(0x02)
                        } else {
                            u
                        }
                    } else {
                        let u = t.set_mode(MODE_OAM);
                        if u.stat & 0x20 != 0 {
                            u.request(0x02)
                        } else {
                            u
                        }
                    }
                } else {
                    s
                }
            } else if s.mode() == MODE_VBLANK {
                if s.cycles >= 456 {
                    let t = PpuView {
                        cycles: (s.cycles - 456) as u32,
                        ly: (s.ly + 1) as u8,
                        ..s
                    }.check_lyc();
                    if t.ly > 153 {
                        let u = PpuView { ly: 0, window_line: 0, ..t }.set_mode(MODE_OAM);
                        if u.stat & 0x20 != 0 {
                            u.request(0x02)
                        } else {
                            u
                        }
                    } else {
                        t
                    }
                } else {
                    s
                }
            } else {
                s
            }
        }
    }
}

impl PpuView {
    /// What the mode state machine keeps true when stepped by at most 24
    /// cycles at a time: the cycle counter stays below 480, LY is below 144
    /// outside VBlank and at most 153 in it, and the window line counter
    /// never runs ahead of LY by more than the line being finished.
    pub open spec fn inv(self) -> bool {
        &&& self.cycles < 480
        &&& (self.mode() != MODE_VBLANK ==> self.ly < 144)
        &&& (self.mode() == MODE_VBLANK ==> self.ly <= 153)
        &&& ((self.mode() == MODE_OAM || self.mode() == MODE_TRANSFER) ==> self.window_line <= self.ly)
        &&& (self.mode() == MODE_HBLANK ==> self.window_line <= self.ly + 1)
        &&& (self.mode() == MODE_VBLANK ==> self.window_line <= 144)
    }
}

/// How the STAT updates of the PPU and of the bus treat the mode bits.
pub proof fn lemma_stat_mode_bits(s: u8, v: u8, m: u8)
    ensures
        s & 0x03 <= 3,
        m <= 3 ==> ((s & 0xFC) | (m & 0x03)) & 0x03 == m,
        (s | 0x04) & 0x03 == s & 0x03,
        (s & !0x04u8) & 0x03 == s & 0x03,
        ((s & 0x07) | (v & 0x78)) & 0x03 == s & 0x03,
{
    assert(s & 0x03 <= 3 && (m <= 3 ==> ((s & 0xFC) | (m & 0x03)) & 0x03 == m) && (s | 0x04) & 0x03
        == s & 0x03 && (s & !0x04u8) & 0x03 == s & 0x03 && ((s & 0x07) | (v & 0x78)) & 0x03 == s
        & 0x03) by (bit_vector);
}

/// The mode state machine keeps its invariant, and a step of at most 24
/// cycles (the longest instruction) from a state that satisfies it never
/// overflows: LY stays within 0..=153, consistent with the mode.
pub proof fn lemma_step_keeps_inv(p: PpuView, cycles: u32)
    requires
        p.inv(),
        cycles <= 24,
    ensures
        p.step_safe(cycles),
        p.step(cycles).inv(),
{
    lemma_stat_mode_bits(p.stat, 0, 0);
    lemma_stat_mode_bits(p.stat, 0, 1);
    lemma_stat_mode_bits(p.stat, 0, 2);
    lemma_stat_mode_bits(p.stat, 0, 3);
    let s = PpuView { cycles: (p.cycles + cycles) as u32, interrupt_flags: 0, ..p };
    if p.lcd_enabled() {
        if p.mode() == MODE_TRANSFER && s.cycles >= 172 {
            let t = PpuView { cycles: (s.cycles - 172) as u32, ..s }.render_scanline();
            lemma_stat_mode_bits(t.stat, 0, MODE_HBLANK);
        } else if p.mode() == MODE_HBLANK && s.cycles >= 204 {
            let t = PpuView { cycles: (s.cycles - 204) as u32, ly: (s.ly + 1) as u8, ..s };
            lemma_stat_mode_bits(t.stat, 0, 0);
            let u = t.check_lyc();
            lemma_stat_mode_bits(u.stat, 0, MODE_VBLANK);
            lemma_stat_mode_bits(u.stat, 0, MODE_OAM);
        } else if p.mode() == MODE_VBLANK && s.cycles >= 456 {
            let t = PpuView { cycles: (s.cycles - 456) as u32, ly: (s.ly + 1) as u8, ..s };
            lemma_stat_mode_bits(t.stat, 0, 0);
            let u = t.check_lyc();
            lemma_stat_mode_bits(u.stat, 0, MODE_OAM);
        }
    }
}

impl PpuView {
    /// Mode and LY agree: LY is a visible line (below 144) in OAM scan,
    /// pixel transfer and HBlank, and one of the lines 144..=153 in VBlank.
    pub open spec fn mode_ly_consistent(self) -> bool {
        &&& self.mode() != MODE_VBLANK ==> self.ly < 144
        &&& self.mode() == MODE_VBLANK ==> 144 <= self.ly <= 153
    }

    /// The mode that follows this one when its period ends: OAM scan →
    /// pixel transfer → HBlank → OAM scan of the next line, or VBlank after
    /// the last visible line; VBlank → OAM scan after line 153.
    pub open spec fn next_mode(self) -> u8 {
        if self.mode() == MODE_OAM {
            MODE_TRANSFER
        } else if self.mode() == MODE_TRANSFER {
            MODE_HBLANK
        } else if self.mode() == MODE_HBLANK {
            if self.ly + 1 >= 144 {
                MODE_VBLANK
            } else {
                MODE_OAM
            }
        } else {
            MODE_OAM
        }
    }
}

/// Raising the VBlank or STAT request keeps the requests within those two bits.
proof fn lemma_request_bits(x: u8)
    ensures
        0u8 & !0x03u8 == 0,
        x & !0x03u8 == 0 ==> (x | 0x01) & !0x03u8 == 0 && (x | 0x02) & !0x03u8 == 0,
{
    assert(0u8 & !0x03u8 == 0 && (x & !0x03u8 == 0 ==> (x | 0x01) & !0x03u8 == 0 && (x | 0x02)
        & !0x03u8 == 0)) by (bit_vector);
}

/// One step keeps mode and LY consistent, requests only the VBlank and
/// STAT interrupts, moves the mode at most one place along its cycle, and
/// changes LY only when a line ends in HBlank or VBlank: to the next line,
/// or from line 153 back to line 0.
pub proof fn lemma_step_mode_ly(p: PpuView, cycles: u32)
    requires
        p.mode_ly_consistent(),
    ensures
        ({
            let q = p.step(cycles);
            &&& q.mode_ly_consistent()
            &&& q.interrupt_flags & !0x03u8 == 0
            &&& q.mode() == p.mode() || q.mode() == p.next_mode()
            &&& (p.mode() == MODE_VBLANK && q.mode() == MODE_OAM) ==> p.ly == 153
            &&& q.ly == p.ly || ((p.mode() == MODE_HBLANK || p.mode() == MODE_VBLANK) && (q.ly == p.ly + 1
                || (p.ly == 153 && q.ly == 0)))
        }),
{
    lemma_stat_mode_bits(p.stat, 0, 0);
    lemma_stat_mode_bits(p.stat, 0, 1);
    lemma_stat_mode_bits(p.stat, 0, 2);
    lemma_stat_mode_bits(p.stat, 0, 3);
    lemma_request_bits(0);
    lemma_request_bits(1);
    lemma_request_bits(2);
    lemma_request_bits(3);
    let s = PpuView { cycles: (p.cycles + cycles) as u32, interrupt_flags: 0, ..p };
    if p.lcd_enabled() {
        if p.mode() == MODE_TRANSFER && s.cycles >= 172 {
            let t = PpuView { cycles: (s.cycles - 172) as u32, ..s }.render_scanline();
            lemma_stat_mode_bits(t.stat, 0, MODE_HBLANK);
        } else if p.mode() == MODE_HBLANK && s.cycles >= 204 {
            let t = PpuView { cycles: (s.cycles - 204) as u32, ly: (s.ly + 1) as u8, ..s };
            lemma_stat_mode_bits(t.stat, 0, 0);
            let u = t.check_lyc();
            lemma_request_bits(u.interrupt_flags);
            lemma_request_bits(u.interrupt_flags | 0x01);
            lemma_stat_mode_bits(u.stat, 0, MODE_VBLANK);
            lemma_stat_mode_bits(u.stat, 0, MODE_OAM);
        } else if p.mode() == MODE_VBLANK && s.cycles >= 456 {
            let t = PpuView { cycles: (s.cycles - 456) as u32, ly: (s.ly + 1) as u8, ..s };
            lemma_stat_mode_bits(t.stat, 0, 0);
            let u = t.check_lyc();
            lemma_request_bits(u.interrupt_flags);
            lemma_stat_mode_bits(u.stat, 0, MODE_OAM);
        } else if p.mode() == MODE_OAM && s.cycles >= 80 {
            lemma_stat_mode_bits(p.stat, 0, MODE_TRANSFER);
        }
    }
}

impl PpuView {
    /// Colour number (0..=3) of the pixel at row `row` and column `col`
    /// (each 0..=255) of the 256×256 picture described by the tile map at
    /// `map_base`: the map entry of 8×8 cell (row / 8, col / 8) names a tile,
    /// found from VRAM 0x0000 by unsigned number when LCDC bit 4 is set,
    /// else around 0x1000 by signed number; each tile row is two bytes,
    /// low bits then high bits, leftmost pixel in bit 7.
    pub open spec fn map_pixel(self, map_base: int, row: int, col: int) -> u8 {
        let idx = self.vram[map_base + (row / 8) * 32 + col / 8];
        let data: int = if self.lcdc & 0x10 != 0 {
            idx * 16
        } else if idx < 128 {
            0x1000 + idx * 16
        } else {
            0x1000 + (idx - 256) * 16
        };
        let lo = self.vram[data + (row % 8) * 2];
        let hi = self.vram[data + (row % 8) * 2 + 1];
        let bit = (7 - col % 8) as u8;
        (((hi >> bit) & 1) * 2 + ((lo >> bit) & 1)) as u8
    }

    /// The background tile map: VRAM 0x1C00 when LCDC bit 3 is set, else 0x1800.
    pub open spec fn bg_map(self) -> int {
        if self.lcdc & 0x08 != 0 {
            0x1C00
        } else {
            0x1800
        }
    }
}

/// The colour number of a tile pixel: bit `bit` of the high byte doubled
/// plus bit `bit` of the low byte.
proof fn lemma_color_id_value(lo: u8, hi: u8, bit: u8)
    requires
        bit < 8,
    ensures
        color_id(lo, hi, bit) == (((hi >> bit) & 1) * 2 + ((lo >> bit) & 1)) as u8,
{
    assert(((hi >> bit) & 1) << 1 | ((lo >> bit) & 1) == (((hi >> bit) & 1) * 2 + ((lo >> bit) & 1)) as u8)
        by (bit_vector)
        requires
            bit < 8,
    ;
}

/// The background scrolls: column `x` of line LY shows, through BGP, the
/// pixel at row (LY + SCY) mod 256 and column (x + SCX) mod 256 of the
/// background map's picture.
pub proof fn lemma_bg_shade_scrolled(p: PpuView, x: int)
    requires
        0 <= x < 160,
    ensures
        p.bg_shade(x) == palette_shade(p.bgp, p.map_pixel(p.bg_map(), (p.ly + p.scy) % 256, (x + p.scx) % 256)),
{
    let y = p.ly.wrapping_add(p.scy);
    let sx = (x as u8).wrapping_add(p.scx);
    assert(y == (p.ly + p.scy) % 256);
    assert(sx == (x + p.scx) % 256);
    let idx = p.vram[p.bg_map() + (y / 8) * 32 + sx / 8];
    let addr = p.tile_addr(idx);
    lemma_color_id_value(p.vram[addr + (y % 8) * 2], p.vram[addr + (y % 8) * 2 + 1], (7 - sx % 8) as u8);
}

/// Drawing the background puts each column's background grey level into
/// its pixel of line LY (opaque), and leaves every other pixel as it was.
pub proof fn lemma_fb_bg_pixels(p: PpuView, n: nat, x: int, k: int)
    requires
        p.ly < 144,
        p.framebuffer.len() == FRAMEBUFFER_LEN,
        n <= 160,
        0 <= k < 4,
        0 <= x < 160,
    ensures
        p.fb_bg(n).len() == FRAMEBUFFER_LEN,
        p.fb_bg(n)[pixel_offset(p.ly as int, x) + k] == (if x >= n {
            p.framebuffer[pixel_offset(p.ly as int, x) + k]
        } else if k == 3 {
            255
        } else {
            p.bg_shade(x)
        }),
    decreases n,
{
    if n > 0 {
        lemma_fb_bg_pixels(p, (n - 1) as nat, x, k);
    }
}

/// After the background is drawn, pixel `x` of line LY has the grey
/// level of the scrolled background map (red, green and blue alike) and
/// is opaque.
pub proof fn lemma_render_bg_pixel(p: PpuView, x: int, k: int)
    requires
        p.ly < 144,
        p.framebuffer.len() == FRAMEBUFFER_LEN,
        0 <= x < 160,
        0 <= k < 4,
    ensures
        p.render_bg().framebuffer[pixel_offset(p.ly as int, x) + k] == (if k == 3 {
            255
        } else {
            palette_shade(p.bgp, p.map_pixel(p.bg_map(), (p.ly + p.scy) % 256, (x + p.scx) % 256))
        }),
{
    lemma_fb_bg_pixels(p, 160, x, k);
    lemma_bg_shade_scrolled(p, x);
}

/// The window's first screen column: WX − 7, modulo 256.
pub open spec fn window_start(p: PpuView) -> int {
    (p.wx + 249) % 256
}

/// Column `x` (from the window's first column on) of line LY shows,
/// through BGP, the pixel at row `window_line` and column x − (WX − 7) of
/// the window map's picture (VRAM 0x1C00 when LCDC bit 6 is set, else
/// 0x1800).
pub proof fn lemma_window_shade(p: PpuView, x: int)
    requires
        window_start(p) <= x < 160,
    ensures
        p.window_shade(x) == palette_shade(
            p.bgp,
            p.map_pixel(if p.lcdc & 0x40 != 0 { 0x1C00 } else { 0x1800 }, p.window_line as int, x - window_start(p)),
        ),
{
    let win_x = x - p.window_x0();
    assert(p.window_x0() == window_start(p));
    let map_base: int = if p.lcdc & LCDC_WIN_MAP != 0 { 0x1C00 } else { 0x1800 };
    let idx = p.vram[map_base + (p.window_line / 8) * 32 + win_x / 8];
    let addr = p.tile_addr(idx);
    lemma_color_id_value(
        p.vram[addr + (p.window_line % 8) * 2],
        p.vram[addr + (p.window_line % 8) * 2 + 1],
        (7 - win_x % 8) as u8,
    );
}

/// Drawing the window up to column `n` sets the pixels of line LY from
/// the window's first column on to the window's grey level (opaque), and
/// leaves every other pixel as it was.
pub proof fn lemma_fb_window_pixels(p: PpuView, n: nat, x: int, k: int)
    requires
        p.ly < 144,
        p.framebuffer.len() == FRAMEBUFFER_LEN,
        n <= 160,
        0 <= k < 4,
        0 <= x < 160,
    ensures
        p.fb_window(n).len() == FRAMEBUFFER_LEN,
        p.fb_window(n)[pixel_offset(p.ly as int, x) + k] == (if x >= n || x < p.window_x0() {
            p.framebuffer[pixel_offset(p.ly as int, x) + k]
        } else if k == 3 {
            255
        } else {
            p.window_shade(x)
        }),
    decreases n,
{
    if n > p.window_x0() {
        lemma_fb_window_pixels(p, (n - 1) as nat, x, k);
    }
}

/// The window shows on line LY exactly when LY ≥ WY and its first column
/// is on screen; then it covers the line from that column on with the
/// window map (pixels left of it keep the background), and the window's
/// line counter advances by one. Otherwise nothing changes.
pub proof fn lemma_render_window_pixel(p: PpuView, x: int, k: int)
    requires
        p.ly < 144,
        p.framebuffer.len() == FRAMEBUFFER_LEN,
        0 <= x < 160,
        0 <= k < 4,
    ensures
        !(p.ly >= p.wy && window_start(p) < 160) ==> p.render_window() == p,
        p.ly >= p.wy && window_start(p) < 160 ==> {
            &&& p.render_window().window_line == (p.window_line + 1) % 256
            &&& p.render_window().framebuffer[pixel_offset(p.ly as int, x) + k] == (if x < window_start(p) {
                p.framebuffer[pixel_offset(p.ly as int, x) + k]
            } else if k == 3 {
                255
            } else {
                palette_shade(
                    p.bgp,
                    p.map_pixel(if p.lcdc & 0x40 != 0 { 0x1C00 } else { 0x1800 }, p.window_line as int, x - window_start(p)),
                )
            })
        },
{
    assert(p.window_x0() == window_start(p));
    let w = p.window_line;
    assert(((w + 1) as u8) as int == (w + 1) % 256) by (bit_vector);
    lemma_fb_window_pixels(p, 160, x, k);
    if x >= window_start(p) {
        lemma_window_shade(p, x);
    }
}

/// How long each mode lasts. With the LCD on (LCDC bit 7) a step adds
/// its cycles to the mode's counter; OAM scan ends at 80 cycles, pixel
/// transfer at 172, HBlank at 204 and a VBlank line at 456, the cycles
/// past the end carrying over; before that the mode, LY and the counter
/// sum are all that change. With the LCD off a step changes nothing but
/// clearing the requests.
pub proof fn lemma_mode_durations(p: PpuView, cycles: u32)
    requires
        p.mode_ly_consistent(),
        p.cycles + cycles <= u32::MAX,
    ensures
        ({
            let q = p.step(cycles);
            let total = p.cycles + cycles;
            let limit: int = if p.mode() == MODE_OAM {
                80
            } else if p.mode() == MODE_TRANSFER {
                172
            } else if p.mode() == MODE_HBLANK {
                204
            } else {
                456
            };
            &&& p.lcdc & 0x80 == 0 ==> q == (PpuView { interrupt_flags: 0, ..p })
            &&& (p.lcdc & 0x80 != 0 && total < limit) ==> q == (PpuView { cycles: total as u32, interrupt_flags: 0, ..p })
            &&& (p.lcdc & 0x80 != 0 && total >= limit) ==> q.cycles == total - limit && (q.mode() != p.mode() || q.ly
                != p.ly)
        }),
{
    lemma_step_mode_ly(p, cycles);
    lemma_stat_mode_bits(p.stat, 0, 0);
    lemma_stat_mode_bits(p.stat, 0, 1);
    lemma_stat_mode_bits(p.stat, 0, 2);
    lemma_stat_mode_bits(p.stat, 0, 3);
}

/// Colour number (0..=3) of pixel `px` (0..=7, left to right on screen)
/// of OAM sprite `i` on line LY. The sprite's bytes are Y + 16, X + 8,
/// tile number and attributes; it is 16 lines tall when LCDC bit 2 is set
/// (tile number bit 0 then ignored), else 8. Attribute bit 6 flips it
/// vertically, bit 5 horizontally.
pub open spec fn sprite_color(p: PpuView, i: int, px: int) -> u8 {
    let top = (p.oam[4 * i] + 240) % 256;
    let tall = p.lcdc & 0x04 != 0;
    let height: int = if tall { 16 } else { 8 };
    let attr = p.oam[4 * i + 3];
    let line = (p.ly - top + 256) % 256;
    let row = if attr & 0x40 != 0 { height - 1 - line } else { line };
    let tile: int = if tall { p.oam[4 * i + 2] / 2 * 2 } else { p.oam[4 * i + 2] as int };
    let lo = p.vram[tile * 16 + row * 2];
    let hi = p.vram[tile * 16 + row * 2 + 1];
    let bit = (if attr & 0x20 != 0 { px } else { 7 - px }) as u8;
    (((hi >> bit) & 1) * 2 + ((lo >> bit) & 1)) as u8
}

/// Drawing pixel `px` of OAM sprite `i` on line LY: it lands on screen
/// column (X + px) mod 256 where X is the sprite's x byte minus 8; colour 0
/// is transparent, columns past 159 are not drawn, and with attribute bit
/// 7 the sprite only covers pixels where the frame is white (255);
/// otherwise the pixel gets the grey level of its colour through OBP1
/// (attribute bit 4) or OBP0. Nothing else changes.
pub proof fn lemma_sprite_pixel(p: PpuView, fb: Seq<u8>, i: int, px: int)
    requires
        0 <= i < 40,
        0 <= px < 8,
        p.oam.len() == 0xA0,
        p.on_line(p.oam_entry(i).1),
        p.sprite_row_addr(p.oam_entry(i)) + 1 < 0x2000,
    ensures
        ({
            let attr = p.oam[4 * i + 3];
            let x = (p.oam[4 * i + 1] + 248 + px) % 256;
            let cid = sprite_color(p, i, px);
            let at = pixel_offset(p.ly as int, x);
            let drawn = x < 160 && cid != 0 && (attr & 0x80 == 0 || fb[at] == 255);
            let palette = if attr & 0x10 != 0 { p.obp1 } else { p.obp0 };
            p.sprite_px(fb, p.oam_entry(i), px as u8) == if drawn {
                put_pixel(fb, p.ly as int, x, palette_shade(palette, cid))
            } else {
                fb
            }
        }),
{
    let s = p.oam_entry(i);
    let pxu = px as u8;
    let attr = p.oam[4 * i + 3];
    let ty = p.oam[4 * i + 2];
    assert(s.0.wrapping_add(pxu) == (p.oam[4 * i + 1] + 248 + px) % 256);
    assert((ty & 0xFE) == ty / 2 * 2) by (bit_vector);
    let bit: u8 = if attr & 0x20 != 0 { pxu } else { (7 - pxu) as u8 };
    let addr = p.sprite_row_addr(s);
    lemma_color_id_value(p.vram[addr], p.vram[addr + 1], bit);
}

/// A scanline is drawn in layers that LCDC switches: the background when
/// bit 0 is set (else the line is cleared to white), then the window when
/// bit 5 is set, then the sprites when bit 1 is set. Lines 144 and below
/// the screen draw nothing. Clearing sets every pixel of line LY to
/// opaque white.
pub proof fn lemma_scanline_layers(p: PpuView, x: int, k: int)
    requires
        p.framebuffer.len() == FRAMEBUFFER_LEN,
        0 <= x < 160,
        0 <= k < 4,
    ensures
        p.ly >= 144 ==> p.render_scanline() == p,
        p.ly < 144 ==> p.render_scanline() == ({
            let s1 = if p.lcdc & 0x01 != 0 { p.render_bg() } else { p.clear_line() };
            let s2 = if p.lcdc & 0x20 != 0 { s1.render_window() } else { s1 };
            if p.lcdc & 0x02 != 0 { s2.render_sprites() } else { s2 }
        }),
        p.ly < 144 ==> p.clear_line().framebuffer[pixel_offset(p.ly as int, x) + k] == 255,
{
    if p.ly < 144 {
        lemma_fb_white_pixels(p, 160, x, k);
    }
}

/// Clearing up to column `n` whitens the pixels of line LY before it.
proof fn lemma_fb_white_pixels(p: PpuView, n: nat, x: int, k: int)
    requires
        p.ly < 144,
        p.framebuffer.len() == FRAMEBUFFER_LEN,
        n <= 160,
        0 <= k < 4,
        0 <= x < 160,
    ensures
        p.fb_white(n).len() == FRAMEBUFFER_LEN,
        x < n ==> p.fb_white(n)[pixel_offset(p.ly as int, x) + k] == 255,
    decreases n,
{
    if n > 0 {
        lemma_fb_white_pixels(p, (n - 1) as nat, x, k);
    }
}

/// A palette register holds four 2-bit shades, colour number id in bits
/// 2·id+1..2·id; shade s (0 = white … 3 = black) is the grey level
/// 255 − 85·s.
pub proof fn lemma_palette_shade(palette: u8, id: u8)
    requires
        id < 4,
    ensures
        palette_shade(palette, id) == 255 - 85 * ((palette / (if id == 0 { 1u8 } else if id == 1 { 4u8 } else if id == 2 {
            16u8
        } else { 64u8 })) % 4),
{
    let sh = ((id * 2) as u8);
    assert((palette >> sh) & 0x03 == (palette / (if id == 0 { 1u8 } else if id == 1 { 4 } else if id == 2 { 16 } else { 64 })) % 4)
        by (bit_vector)
        requires
            id < 4,
            sh == id * 2,
    ;
}

/// The interrupt requests of one step: VBlank (bit 0) is requested
/// exactly when the step enters VBlank; LCD STAT (bit 1) is requested on
/// entering HBlank, VBlank or OAM scan when STAT bit 3, 4 or 5 enables
/// that source, and when LY moves onto LYC with STAT bit 6 set. Without
/// any STAT source enabled, bit 1 is never requested.
pub proof fn lemma_step_requests(p: PpuView, cycles: u32)
    requires
        p.mode_ly_consistent(),
    ensures
        (p.step(cycles).interrupt_flags & 0x01 != 0) == (p.mode() != MODE_VBLANK && p.step(cycles).mode()
            == MODE_VBLANK),
        (p.mode() == MODE_TRANSFER && p.step(cycles).mode() == MODE_HBLANK && p.stat & 0x08 != 0) ==> p.step(
            cycles,
        ).interrupt_flags & 0x02 != 0,
        (p.mode() != MODE_VBLANK && p.step(cycles).mode() == MODE_VBLANK && p.stat & 0x10 != 0) ==> p.step(
            cycles,
        ).interrupt_flags & 0x02 != 0,
        (p.mode() != MODE_OAM && p.step(cycles).mode() == MODE_OAM && p.stat & 0x20 != 0) ==> p.step(
            cycles,
        ).interrupt_flags & 0x02 != 0,
        (p.step(cycles).ly != p.ly && p.step(cycles).ly == p.lyc && p.step(cycles).ly != 0 && p.stat & 0x40
            != 0) ==> p.step(cycles).interrupt_flags & 0x02 != 0,
        p.stat & 0x78 == 0 ==> p.step(cycles).interrupt_flags & 0x02 == 0,
{
    lemma_stat_mode_bits(p.stat, 0, 0);
    lemma_stat_mode_bits(p.stat, 0, 1);
    lemma_stat_mode_bits(p.stat, 0, 2);
    lemma_stat_mode_bits(p.stat, 0, 3);
    lemma_request_flags(0, p.stat);
    let s = PpuView { cycles: (p.cycles + cycles) as u32, interrupt_flags: 0, ..p };
    if p.lcd_enabled() {
        if p.mode() == MODE_TRANSFER && s.cycles >= 172 {
            let t = PpuView { cycles: (s.cycles - 172) as u32, ..s }.render_scanline();
            assert(t.stat == p.stat);
            lemma_stat_mode_bits(t.stat, 0, MODE_HBLANK);
        } else if p.mode() == MODE_HBLANK && s.cycles >= 204 {
            let t = PpuView { cycles: (s.cycles - 204) as u32, ly: (s.ly + 1) as u8, ..s };
            lemma_stat_mode_bits(t.stat, 0, 0);
            let u = t.check_lyc();
            lemma_request_flags(u.interrupt_flags, u.stat);
            lemma_request_flags(u.interrupt_flags | 0x01, u.stat);
            lemma_stat_mode_bits(u.stat, 0, MODE_VBLANK);
            lemma_stat_mode_bits(u.stat, 0, MODE_OAM);
        } else if p.mode() == MODE_VBLANK && s.cycles >= 456 {
            let t = PpuView { cycles: (s.cycles - 456) as u32, ly: (s.ly + 1) as u8, ..s };
            lemma_stat_mode_bits(t.stat, 0, 0);
            let u = t.check_lyc();
            lemma_request_flags(u.interrupt_flags, u.stat);
            lemma_stat_mode_bits(u.stat, 0, MODE_OAM);
        } else if p.mode() == MODE_OAM && s.cycles >= 80 {
            lemma_stat_mode_bits(p.stat, 0, MODE_TRANSFER);
        }
    }
}

/// Bit facts behind the requests: or-ing in a request sets it and keeps
/// the other; STAT's enable bits 3-6 survive the mode and coincidence
/// updates.
proof fn lemma_request_flags(x: u8, st: u8)
    ensures
        (x | 0x01) & 0x01 != 0,
        (x | 0x02) & 0x02 != 0,
        (x | 0x02) & 0x01 == x & 0x01,
        (x | 0x01) & 0x02 == x & 0x02,
        0u8 & 0x01 == 0 && 0u8 & 0x02 == 0,
        forall|m: u8, mode: u8|
            (m == 0x08 || m == 0x10 || m == 0x20 || m == 0x40) ==> (#[trigger] (((st & 0xFC) | (mode & 0x03))
                & m) == st & m),
        forall|m: u8| (m == 0x08 || m == 0x10 || m == 0x20 || m == 0x40) ==> #[trigger] ((st | 0x04) & m) == st & m,
        forall|m: u8| (m == 0x08 || m == 0x10 || m == 0x20 || m == 0x40) ==> #[trigger] ((st & !0x04u8) & m) == st & m,
        st & 0x78 == 0 ==> st & 0x08 == 0 && st & 0x10 == 0 && st & 0x20 == 0 && st & 0x40 == 0,
{
    assert((x | 0x01) & 0x01 != 0 && (x | 0x02) & 0x02 != 0 && (x | 0x02) & 0x01 == x & 0x01 && (x | 0x01)
        & 0x02 == x & 0x02 && 0u8 & 0x01 == 0 && 0u8 & 0x02 == 0) by (bit_vector);
    assert forall|m: u8, mode: u8|
        (m == 0x08 || m == 0x10 || m == 0x20 || m == 0x40) implies (#[trigger] (((st & 0xFC) | (mode & 0x03))
        & m) == st & m) by {
        assert((m == 0x08 || m == 0x10 || m == 0x20 || m == 0x40) ==> ((st & 0xFC) | (mode & 0x03)) & m == st
            & m) by (bit_vector);
    }
    assert forall|m: u8| (m == 0x08 || m == 0x10 || m == 0x20 || m == 0x40) implies #[trigger] ((st | 0x04) & m)
        == st & m by {
        assert((m == 0x08 || m == 0x10 || m == 0x20 || m == 0x40) ==> (st | 0x04) & m == st & m) by (bit_vector);
    }
    assert forall|m: u8| (m == 0x08 || m == 0x10 || m == 0x20 || m == 0x40) implies #[trigger] ((st & !0x04u8)
        & m) == st & m by {
        assert((m == 0x08 || m == 0x10 || m == 0x20 || m == 0x40) ==> (st & !0x04u8) & m == st & m)
            by (bit_vector);
    }
    assert(st & 0x78 == 0 ==> st & 0x08 == 0 && st & 0x10 == 0 && st & 0x20 == 0 && st & 0x40 == 0)
        by (bit_vector);
}

/// Whether the PPU went into VBlank between the two states.
pub open spec fn entered_vblank(before: PpuView, after: PpuView) -> bool {
    before.mode() != MODE_VBLANK && after.mode() == MODE_VBLANK
}

/// A step raises `frame_ready` exactly when it enters VBlank (and never
/// lowers it).
pub proof fn lemma_frame_ready_tracks_vblank(p: PpuView, cycles: u32)
    ensures
        p.step(cycles).frame_ready == (p.frame_ready || entered_vblank(p, p.step(cycles))),
{
    lemma_stat_mode_bits(p.stat, 0, 0);
    let s = PpuView { cycles: (p.cycles + cycles) as u32, interrupt_flags: 0, ..p };
    if p.lcd_enabled() {
        if p.mode() == MODE_OAM && s.cycles >= 80 {
            lemma_stat_mode_bits(p.stat, 0, MODE_TRANSFER);
        } else if p.mode() == MODE_TRANSFER && s.cycles >= 172 {
            let t = PpuView { cycles: (s.cycles - 172) as u32, ..s }.render_scanline();
            lemma_stat_mode_bits(t.stat, 0, MODE_HBLANK);
        } else if p.mode() == MODE_HBLANK && s.cycles >= 204 {
            let t = PpuView { cycles: (s.cycles - 204) as u32, ly: (s.ly + 1) as u8, ..s };
            lemma_stat_mode_bits(t.stat, 0, 0);
            let u = t.check_lyc();
            lemma_stat_mode_bits(u.stat, 0, MODE_VBLANK);
            lemma_stat_mode_bits(u.stat, 0, MODE_OAM);
        } else if p.mode() == MODE_VBLANK && s.cycles >= 456 {
            let t = PpuView { cycles: (s.cycles - 456) as u32, ly: (s.ly + 1) as u8, ..s };
            lemma_stat_mode_bits(t.stat, 0, 0);
            let u = t.check_lyc();
            lemma_stat_mode_bits(u.stat, 0, MODE_OAM);
        }
    }
}

/// A visible line takes 456 cycles: 80 of OAM scan, 172 of pixel
/// transfer and 204 of HBlank bring the PPU to the OAM scan of the next
/// line with no cycles left over.
pub proof fn lemma_visible_line_cycles(p: PpuView)
    requires
        p.lcd_enabled(),
        p.mode() == MODE_OAM,
        p.cycles == 0,
        p.ly < 143,
    ensures
        ({
            let q = p.step(80).step(172).step(204);
            &&& q.ly == p.ly + 1
            &&& q.mode() == MODE_OAM
            &&& q.cycles == 0
        }),
{
    let p1 = p.step(80);
    lemma_stat_mode_bits(p.stat, 0, MODE_TRANSFER);
    let t = PpuView { cycles: 0, interrupt_flags: 0, ..p1 }.render_scanline();
    lemma_stat_mode_bits(t.stat, 0, MODE_HBLANK);
    let p2 = p1.step(172);
    let u = PpuView { cycles: 0, interrupt_flags: 0, ly: (p2.ly + 1) as u8, ..p2 };
    lemma_stat_mode_bits(u.stat, 0, MODE_OAM);
    let v = u.check_lyc();
    lemma_stat_mode_bits(v.stat, 0, MODE_OAM);
}

/// A VBlank line takes 456 cycles, and after the last one (LY 153) the
/// PPU starts the next frame at line 0 in OAM scan.
pub proof fn lemma_vblank_line_cycles(p: PpuView)
    requires
        p.lcd_enabled(),
        p.mode() == MODE_VBLANK,
        p.cycles == 0,
        144 <= p.ly <= 153,
    ensures
        ({
            let q = p.step(456);
            &&& q.cycles == 0
            &&& p.ly < 153 ==> q.ly == p.ly + 1 && q.mode() == MODE_VBLANK
            &&& p.ly == 153 ==> q.ly == 0 && q.mode() == MODE_OAM && q.window_line == 0
        }),
{
    let t = PpuView { cycles: 0, interrupt_flags: 0, ly: (p.ly + 1) as u8, ..p };
    lemma_stat_mode_bits(t.stat, 0, MODE_OAM);
    let u = t.check_lyc();
    lemma_stat_mode_bits(u.stat, 0, MODE_OAM);
}

/// A colour number has two bits.
pub proof fn lemma_color_id_bound(byte1: u8, byte2: u8, bit: u8)
    ensures
        color_id(byte1, byte2, bit) <= 3,
{
    assert((((byte2 >> bit) & 1) << 1 | ((byte1 >> bit) & 1)) <= 3) by (bit_vector);
}

impl Ppu {
    pub fn new() -> (p: Self)
        ensures
            p@ == PpuView::initial(),
    {
        let p = Ppu {
            vram: [0u8; 0x2000],
            oam: [0u8; 0xA0],
            framebuffer: [0u8; 92160],
            lcdc: 0x91,
            stat: 0,
            scy: 0,
            scx: 0,
            ly: 0,
            lyc: 0,
            bgp: 0xFC,
            obp0: 0xFF,
            obp1: 0xFF,
            wy: 0,
            wx: 0,
            dma: 0,
            cycles: 0,
            frame_ready: false,
            interrupt_flags: 0,
            window_line: 0,
        };
        assert(p@.vram =~= PpuView::initial().vram);
        assert(p@.oam =~= PpuView::initial().oam);
        assert(p@.framebuffer =~= PpuView::initial().framebuffer);
        p
    }

    fn lcd_enabled(&self) -> (r: bool)
        ensures
            r == self@.lcd_enabled(),
    {
        self.lcdc & LCDC_ENABLE != 0
    }

    fn mode(&self) -> (r: u8)
        ensures
            r == self@.mode(),
    {
        self.stat & 0x03
    }

    fn set_mode(&mut self, mode: u8)
        ensures
            final(self)@ == old(self)@.set_mode(mode),
    {
        self.stat = (self.stat & 0xFC) | (mode & 0x03);
    }

    /// Step PPU by given T-cycles.
    pub fn step(&mut self, cycles: u32)
        requires
            old(self)@.step_safe(cycles),
        ensures
            final(self)@ == old(self)@.step(cycles),
    {
        self.interrupt_flags = 0;
        if !self.lcd_enabled() {
            return;
        }
        self.cycles += cycles;

        match self.mode() {
            // OAM scan (80 cycles)
            MODE_OAM => {
                if self.cycles >= 80 {
                    self.cycles -= 80;
                    self.set_mode(MODE_TRANSFER);
                }
            },
            // Pixel transfer (172 cycles)
            MODE_TRANSFER => {
                if self.cycles >= 172 {
                    self.cycles -= 172;
                    self.render_scanline();
                    self.set_mode(MODE_HBLANK);
                    if self.stat & 0x08 != 0 {
                        self.interrupt_flags |= 0x02;  // STAT interrupt
                    }
                }
            },
            // HBlank (204 cycles)
            MODE_HBLANK => {
                if self.cycles >= 204 {
                    self.cycles -= 204;
                    self.ly += 1;
                    self.check_lyc();

                    if self.ly >= 144 {
                        self.set_mode(MODE_VBLANK);
                        self.interrupt_flags |= 0x01;  // VBlank interrupt
                        self.frame_ready = true;
                        if self.stat & 0x10 != 0 {
                            self.interrupt_flags |= 0x02;
                        }
                    } else {
                        self.set_mode(MODE_OAM);
                        if self.stat & 0x20 != 0 {
                            self.interrupt_flags |= 0x02;
                        }
                    }
                }
            },
            // VBlank (10 lines, 456 cycles each)
            MODE_VBLANK => {
                if self.cycles >= 456 {
                    self.cycles -= 456;
                    self.ly += 1;
                    self.check_lyc();

                    if self.ly > 153 {
                        self.ly = 0;
                        self.window_line = 0;
                        self.set_mode(MODE_OAM);
                        if self.stat & 0x20 != 0 {
                            self.interrupt_flags |= 0x02;
                        }
                    }
                }
            },
            _ => {},
        }
    }

    fn check_lyc(&mut self)
        ensures
            final(self)@ == old(self)@.check_lyc(),
    {
        if self.ly == self.lyc {
            self.stat |= 0x04;  // LYC=LY flag
            if self.stat & 0x40 != 0 {
                self.interrupt_flags |= 0x02;
            }
        } else {
            self.stat &= !0x04u8;
        }
    }

    fn render_scanline(&mut self)
        requires
            (old(self).ly < 144 && old(self).lcdc & LCDC_WIN_ENABLE != 0 && old(self)@.window_visible())
                ==> old(self).window_line < 255,
        ensures
            final(self)@ == old(self)@.render_scanline(),
    {
        if self.ly >= 144 {
            return;
        }
        let ghost v0 = self@;

        // Background
        if self.lcdc & LCDC_BG_ENABLE != 0 {
            self.render_bg();
        } else {
            // Clear line to white
            let offset = self.ly as usize * 160 * 4;
            let mut x: usize = 0;
            while x < 160
                invariant
                    x <= 160,
                    v0.ly < 144,
                    offset == v0.ly * 640,
                    self@ == (PpuView { framebuffer: v0.fb_white(x as nat), ..v0 }),
                decreases 160 - x,
            {
                let i = offset + x * 4;
                self.framebuffer[i] = 255;
                self.framebuffer[i + 1] = 255;
                self.framebuffer[i + 2] = 255;
                self.framebuffer[i + 3] = 255;
                x = x + 1;
                proof {
                    assert(self@.framebuffer =~= v0.fb_white(x as nat));
                }
            }
        }

        // Window
        if self.lcdc & LCDC_WIN_ENABLE != 0 {
            self.render_window();
        }
        // Sprites
        if self.lcdc & LCDC_OBJ_ENABLE != 0 {
            self.render_sprites();
        }
    }

    /// Colour number of a background or window pixel, from the tile map at
    /// `map_base`.
    fn tile_color_id(
        &self,
        map_base: u16,
        tile_row: u16,
        tile_col: u16,
        pixel_row: u16,
        pixel_col: u16,
    ) -> (r: u8)
        requires
            map_base == 0x1800 || map_base == 0x1C00,
            tile_row < 32,
            tile_col < 32,
            pixel_row < 8,
            pixel_col < 8,
        ensures
            r == self@.tile_color_id(
                map_base as int,
                tile_row as int,
                tile_col as int,
                pixel_row as int,
                pixel_col as int,
            ),
            r <= 3,
    {
        let map_offset = map_base + tile_row * 32 + tile_col;
        let tile_idx = self.vram[map_offset as usize];
        let tile_addr: u16 = if self.lcdc & LCDC_TILE_DATA != 0 {
            tile_idx as u16 * 16
        } else {
            let signed_idx: i16 = if tile_idx < 128 {
                tile_idx as i16
            } else {
                tile_idx as i16 - 256
            };
            (0x0800i16 + (signed_idx + 128) * 16) as u16
        };
        let byte1 = self.vram[(tile_addr + pixel_row * 2) as usize];
        let byte2 = self.vram[(tile_addr + pixel_row * 2 + 1) as usize];
        let bit = 7 - pixel_col as u8;
        proof {
            lemma_color_id_bound(byte1, byte2, bit);
        }
        ((byte2 >> bit) & 1) << 1 | ((byte1 >> bit) & 1)
    }

    fn render_bg(&mut self)
        requires
            old(self).ly < 144,
        ensures
            final(self)@ == old(self)@.render_bg(),
    {
        let tile_map_base: u16 = if self.lcdc & LCDC_BG_MAP != 0 {
            0x1C00
        } else {
            0x1800
        };
        let y = self.ly.wrapping_add(self.scy);
        let tile_row = (y / 8) as u16;
        let pixel_row = (y % 8) as u16;
        let ghost v0 = self@;

        let mut x: u8 = 0;
        while x < 160
            invariant
                x <= 160,
                v0.ly < 144,
                y == v0.ly.wrapping_add(v0.scy),
                tile_row == y / 8,
                pixel_row == y % 8,
                tile_map_base == (if v0.lcdc & LCDC_BG_MAP != 0 { 0x1C00u16 } else { 0x1800u16 }),
                self@ == (PpuView { framebuffer: v0.fb_bg(x as nat), ..v0 }),
            decreases 160 - x,
        {
            let sx = x.wrapping_add(self.scx);
            let tile_col = (sx / 8) as u16;
            let pixel_col = (sx % 8) as u16;
            let cid = self.tile_color_id(tile_map_base, tile_row, tile_col, pixel_row, pixel_col);
            let color = self.palette_color(self.bgp, cid);

            let fb_idx = (self.ly as usize * 160 + x as usize) * 4;
            self.framebuffer[fb_idx] = color;
            self.framebuffer[fb_idx + 1] = color;
            self.framebuffer[fb_idx + 2] = color;
            self.framebuffer[fb_idx + 3] = 255;
            x = x + 1;
            proof {
                assert(self@.framebuffer =~= v0.fb_bg(x as nat));
            }
        }
    }

    fn render_window(&mut self)
        requires
            old(self).ly < 144,
            old(self)@.window_visible() ==> old(self).window_line < 255,
        ensures
            final(self)@ == old(self)@.render_window(),
    {
        if self.ly < self.wy {
            return;
        }
        let tile_map_base: u16 = if self.lcdc & LCDC_WIN_MAP != 0 {
            0x1C00
        } else {
            0x1800
        };
        let wx = self.wx.wrapping_sub(7);
        if wx >= 160 {
            return;
        }
        let y = self.window_line;
        let tile_row = (y / 8) as u16;
        let pixel_row = (y % 8) as u16;
        let ghost v0 = self@;

        let mut x: u8 = wx;
        while x < 160
            invariant
                wx <= x <= 160,
                wx == v0.window_x0(),
                v0.ly < 144,
                y == v0.window_line,
                y < 255,
                tile_row == y / 8,
                pixel_row == y % 8,
                tile_map_base == (if v0.lcdc & LCDC_WIN_MAP != 0 { 0x1C00u16 } else { 0x1800u16 }),
                self@ == (PpuView { framebuffer: v0.fb_window(x as nat), ..v0 }),
            decreases 160 - x,
        {
            let win_x = (x - wx) as u16;
            let tile_col = win_x / 8;
            let pixel_col = win_x % 8;
            let cid = self.tile_color_id(tile_map_base, tile_row, tile_col, pixel_row, pixel_col);
            let color = self.palette_color(self.bgp, cid);

            let fb_idx = (self.ly as usize * 160 + x as usize) * 4;
            self.framebuffer[fb_idx] = color;
            self.framebuffer[fb_idx + 1] = color;
            self.framebuffer[fb_idx + 2] = color;
            self.framebuffer[fb_idx + 3] = 255;
            x = x + 1;
            proof {
                assert(self@.framebuffer =~= v0.fb_window(x as nat));
            }
        }

        self.window_line += 1;
    }

    /// Draws one sprite of the line's list onto line LY.
    fn draw_sprite(&mut self, s: SpriteEntry, height: u8, tall: bool, Ghost(v0): Ghost<PpuView>)
        requires
            old(self)@ == (PpuView { framebuffer: old(self)@.framebuffer, ..v0 }),
            v0.ly < 144,
            v0.on_line(s.1),
            height == v0.sprite_height(),
            tall == (v0.lcdc & LCDC_OBJ_SIZE != 0),
        ensures
            final(self)@ == (PpuView {
                framebuffer: v0.draw_sprite(old(self)@.framebuffer, s),
                ..v0
            }),
    {
        let ghost fb0 = self@.framebuffer;
        let (sx, sy, tile, flags, _) = s;
        let palette = if flags & 0x10 != 0 {
            self.obp1
        } else {
            self.obp0
        };
        let flip_x = flags & 0x20 != 0;
        let flip_y = flags & 0x40 != 0;
        let behind_bg = flags & 0x80 != 0;

        let mut row = self.ly.wrapping_sub(sy) as u16;
        if flip_y {
            row = (height as u16 - 1) - row;
        }
        let tile_idx = if tall {
            tile & 0xFE
        } else {
            tile
        };
        let tile_addr = tile_idx as u16 * 16 + row * 2;
        assert(tile_addr == v0.sprite_row_addr(s));
        if tile_addr as usize + 1 >= 0x2000 {
            return;
        }
        let byte1 = self.vram[tile_addr as usize];
        let byte2 = self.vram[(tile_addr + 1) as usize];

        let mut px: u8 = 0;
        while px < 8
            invariant
                px <= 8,
                v0.ly < 144,
                tile_addr == v0.sprite_row_addr(s),
                tile_addr + 1 < 0x2000,
                byte1 == v0.vram[tile_addr as int],
                byte2 == v0.vram[tile_addr + 1],
                palette == (if s.3 & 0x10 != 0 { v0.obp1 } else { v0.obp0 }),
                flip_x == (s.3 & 0x20 != 0),
                behind_bg == (s.3 & 0x80 != 0),
                sx == s.0,
                flags == s.3,
                self@ == (PpuView { framebuffer: v0.sprite_upto(fb0, s, px as nat), ..v0 }),
            decreases 8 - px,
        {
            let screen_x = sx.wrapping_add(px);
            if screen_x < 160 {
                let bit = if flip_x {
                    px
                } else {
                    7 - px
                };
                proof {
                    lemma_color_id_bound(byte1, byte2, bit);
                }
                let color_id = ((byte2 >> bit) & 1) << 1 | ((byte1 >> bit) & 1);
                if color_id != 0 {
                    let fb_idx = (self.ly as usize * 160 + screen_x as usize) * 4;
                    // Behind BG: only draw if BG pixel is color 0 (white)
                    if !(behind_bg && self.framebuffer[fb_idx] != 255) {
                        let color = self.palette_color(palette, color_id);
                        self.framebuffer[fb_idx] = color;
                        self.framebuffer[fb_idx + 1] = color;
                        self.framebuffer[fb_idx + 2] = color;
                        self.framebuffer[fb_idx + 3] = 255;
                    }
                }
            }
            proof {
                assert(self@.framebuffer =~= v0.sprite_px(v0.sprite_upto(fb0, s, px as nat), s, px));
            }
            px = px + 1;
        }
    }

    fn render_sprites(&mut self)
        requires
            old(self).ly < 144,
        ensures
            final(self)@ == old(self)@.render_sprites(),
    {
        let ghost v0 = self@;
        let tall = self.lcdc & LCDC_OBJ_SIZE != 0;
        let height: u8 = if tall {
            16
        } else {
            8
        };

        // Collect visible sprites (max 10 per line)
        let mut sprites: Vec<SpriteEntry> = Vec::new();
        let mut i: usize = 0;
        while i < 40 && sprites.len() < 10
            invariant
                i <= 40,
                self@ == v0,
                height == v0.sprite_height(),
                v0.visible_from(i as nat, sprites@) == v0.line_sprites(),
                forall|j: int| 0 <= j < sprites@.len() ==> v0.on_line(#[trigger] sprites@[j].1),
            decreases 40 - i,
        {
            let offset = i * 4;
            let sy = self.oam[offset].wrapping_sub(16);
            let sx = self.oam[offset + 1].wrapping_sub(8);
            let tile = self.oam[offset + 2];
            let flags = self.oam[offset + 3];

            if self.ly >= sy && self.ly < sy.wrapping_add(height) {
                sprites.push((sx, sy, tile, flags, i));
            }
            i = i + 1;
        }
        let ghost list = sprites@;
        assert(list == v0.line_sprites());

        // Draw in reverse order (lower index = higher priority)
        let mut k = sprites.len();
        while k > 0
            invariant
                k <= list.len(),
                sprites@ == list,
                v0.ly < 144,
                height == v0.sprite_height(),
                tall == (v0.lcdc & LCDC_OBJ_SIZE != 0),
                forall|j: int| 0 <= j < list.len() ==> v0.on_line(#[trigger] list[j].1),
                self@ == (PpuView { framebuffer: v0.draw_list(list, k as nat), ..v0 }),
            decreases k,
        {
            k = k - 1;
            let s = sprites[k];
            self.draw_sprite(s, height, tall, Ghost(v0));
        }
    }

    fn palette_color(&self, palette: u8, color_id: u8) -> (r: u8)
        requires
            color_id <= 3,
        ensures
            r == palette_shade(palette, color_id),
    {
        let shade = (palette >> (color_id * 2)) & 0x03;
        match shade {
            0 => 255,  // White
            1 => 170,  // Light gray
            2 => 85,  // Dark gray
            3 => 0,  // Black
            _ => 255,
        }
    }
}

} // verus!
