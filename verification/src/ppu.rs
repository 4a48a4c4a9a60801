use vstd::prelude::*;

verus! {

/// Number of pixels in a frame (160 columns by 144 rows).
pub const FRAME_PIXELS: usize = 23040;

/// Number of bytes in the RGB screen buffer (three per pixel).
pub const SCREEN_BYTES: usize = 69120;

/// The picture processing unit: video memory, object attribute memory, the
/// LCD registers and the RGB picture of the last frame.
pub struct PPU {
    pub vram: [u8; 0x2000],
    pub oam: [u8; 0xA0],
    pub lcdc: u8,
    pub stat: u8,
    pub scy: u8,
    pub scx: u8,
    pub ly: u8,
    pub lyc: u8,
    pub wy: u8,
    pub wx: u8,
    pub bgp: u8,
    pub obp0: u8,
    pub obp1: u8,
    pub screen_buffer: [u8; 69120],
    pub updated: bool,
    pub interrupt: u8,
}

/// The mathematical state of a `PPU`: its memories as sequences.
#[verifier::ext_equal]
pub struct PpuState {
    pub vram: Seq<u8>,
    pub oam: Seq<u8>,
    pub lcdc: u8,
    pub stat: u8,
    pub scy: u8,
    pub scx: u8,
    pub ly: u8,
    pub lyc: u8,
    pub wy: u8,
    pub wx: u8,
    pub bgp: u8,
    pub obp0: u8,
    pub obp1: u8,
    pub screen: Seq<u8>,
    pub updated: bool,
    pub interrupt: u8,
}

impl View for PPU {
    type V = PpuState;

    open spec fn view(&self) -> PpuState {
        PpuState {
            vram: self.vram@,
            oam: self.oam@,
            lcdc: self.lcdc,
            stat: self.stat,
            scy: self.scy,
            scx: self.scx,
            ly: self.ly,
            lyc: self.lyc,
            wy: self.wy,
            wx: self.wx,
            bgp: self.bgp,
            obp0: self.obp0,
            obp1: self.obp1,
            screen: self.screen_buffer@,
            updated: self.updated,
            interrupt: self.interrupt,
        }
    }
}

/// The addresses that the unit answers: video memory, object attribute
/// memory and its registers (0xFF46 and 0xFF4C to 0xFF4F are not among them).
pub open spec fn ppu_addr_ok(a: u16) -> bool {
    ||| 0x8000 <= a <= 0x9fff
    ||| 0xfe00 <= a <= 0xfe9f
    ||| 0xff40 <= a <= 0xff45
    ||| 0xff47 <= a <= 0xff4b
}

/// The shade (0 to 3) that the palette `pal` gives to colour number `number`.
pub open spec fn palette_shade(pal: u8, number: u8) -> u8 {
    (pal >> (2 * number) as u8) & 3
}

/// The colour number (0 to 3) of bit `bit` of a tile line whose low plane is
/// `lo` and high plane is `hi`.
pub open spec fn colour_number(lo: u8, hi: u8, bit: u8) -> u8 {
    ((hi >> bit) & 1) << 1u8 | ((lo >> bit) & 1)
}

/// The grey level that a shade is drawn with on screen.
pub open spec fn grey(shade: u8) -> u8 {
    if shade == 0 {
        255
    } else if shade == 1 {
        200
    } else if shade == 2 {
        100
    } else {
        0
    }
}

/// The RGB screen for a frame of shades: each pixel becomes three equal
/// grey bytes.
pub open spec fn rgb_screen(frame: Seq<u8>) -> Seq<u8> {
    Seq::new(SCREEN_BYTES as nat, |i: int| grey(frame[i / 3]))
}

/// A frame of shades in which a sprite pixel that is not transparent covers
/// the background when sprites are enabled in `lcdc`.
pub open spec fn merged_frame(bg: Seq<u8>, spr: Seq<u8>, lcdc: u8) -> Seq<u8> {
    Seq::new(
        FRAME_PIXELS as nat,
        |i: int|
            if spr[i] != 0 && (lcdc >> 1u8) & 1 == 1 {
                spr[i]
            } else {
                bg[i]
            },
    )
}

/// Whether every value of a frame is a shade (0 to 3).
pub open spec fn all_shades(frame: Seq<u8>) -> bool {
    forall|i: int| 0 <= i < frame.len() ==> #[trigger] frame[i] <= 3
}

impl PpuState {
    /// What a read of address `a` gives.
    #[verifier::opaque]
    pub open spec fn read(self, a: u16) -> u8 {
        if a <= 0x9fff {
            self.vram[a - 0x8000]
        } else if a <= 0xfe9f {
            self.oam[a - 0xfe00]
        } else if a == 0xff40 {
            self.lcdc
        } else if a == 0xff41 {
            self.stat
        } else if a == 0xff42 {
            self.scy
        } else if a == 0xff43 {
            self.scx
        } else if a == 0xff44 {
            self.ly
        } else if a == 0xff45 {
            self.lyc
        } else if a == 0xff47 {
            self.bgp
        } else if a == 0xff48 {
            self.obp0
        } else if a == 0xff49 {
            self.obp1
        } else if a == 0xff4a {
            self.wy
        } else {
            self.wx
        }
    }

    /// The state after a write of `v` to address `a`; a write to the line
    /// counter resets it to 0.
    #[verifier::opaque]
    pub open spec fn write(self, a: u16, v: u8) -> PpuState {
        if a <= 0x9fff {
            PpuState { vram: self.vram.update(a - 0x8000, v), ..self }
        } else if a <= 0xfe9f {
            PpuState { oam: self.oam.update(a - 0xfe00, v), ..self }
        } else if a == 0xff40 {
            PpuState { lcdc: v, ..self }
        } else if a == 0xff41 {
            PpuState { stat: v, ..self }
        } else if a == 0xff42 {
            PpuState { scy: v, ..self }
        } else if a == 0xff43 {
            PpuState { scx: v, ..self }
        } else if a == 0xff44 {
            PpuState { ly: 0, ..self }
        } else if a == 0xff45 {
            PpuState { lyc: v, ..self }
        } else if a == 0xff47 {
            PpuState { bgp: v, ..self }
        } else if a == 0xff48 {
            PpuState { obp0: v, ..self }
        } else if a == 0xff49 {
            PpuState { obp1: v, ..self }
        } else if a == 0xff4a {
            PpuState { wy: v, ..self }
        } else {
            PpuState { wx: v, ..self }
        }
    }

    /// The shade of the background at screen row `row` and column `col`.
    pub open spec fn bg_shade(self, row: int, col: int) -> u8 {
        let x = ((col + self.scx) % 256) as u8;
        let line = self.bg_line(row, col);
        palette_shade(self.bgp, colour_number(self.vram[line], self.vram[line + 1], (7 - x % 8) as u8))
    }

    /// Where in video memory the tile line that screen row `row`, column
    /// `col` of the background falls on starts: its low byte, then its high
    /// byte.
    pub open spec fn bg_line(self, row: int, col: int) -> int {
        let y = ((row + self.scy) % 256) as u8;
        let x = ((col + self.scx) % 256) as u8;
        let map_base: int = if (self.lcdc >> 3u8) & 1 == 0 {
            0x1800
        } else {
            0x1c00
        };
        let set_base: int = if (self.lcdc >> 4u8) & 1 == 0 {
            0x0800
        } else {
            0
        };
        let tile_id = self.vram[map_base + (y / 8) as int * 32 + (x / 8) as int];
        set_base + tile_id as int * 16 + (y % 8) as int * 2
    }

    /// The frame of background shades.
    pub open spec fn bg_frame(self) -> Seq<u8> {
        Seq::new(FRAME_PIXELS as nat, |p: int| self.bg_shade(p / 160, p % 160))
    }

    /// Height in lines of every sprite.
    pub open spec fn sprite_height(self) -> int {
        if self.lcdc & 4 != 0 {
            16
        } else {
            8
        }
    }

    /// Screen line of the top of sprite `s`.
    pub open spec fn sprite_top(self, s: int) -> int {
        self.oam[4 * s] as int - 16
    }

    /// Screen column of the left edge of sprite `s`.
    pub open spec fn sprite_left(self, s: int) -> int {
        self.oam[4 * s + 1] as int - 8
    }

    /// Attribute byte of sprite `s`.
    pub open spec fn sprite_attr(self, s: int) -> u8 {
        self.oam[4 * s + 3]
    }

    /// Whether sprite `s` covers screen line `row`.
    pub open spec fn sprite_on_line(self, s: int, row: int) -> bool {
        self.sprite_top(s) <= row < self.sprite_top(s) + self.sprite_height()
    }

    /// The line of the tile of sprite `s` that is shown on screen line `row`.
    pub open spec fn sprite_tile_line(self, s: int, row: int) -> int {
        if self.sprite_attr(s) & 0x40 != 0 {
            self.sprite_height() - 1 - (row - self.sprite_top(s))
        } else {
            row - self.sprite_top(s)
        }
    }

    /// Offset in video memory of the tile line of sprite `s` shown on `row`.
    pub open spec fn sprite_line_addr(self, s: int, row: int) -> int {
        let tile = self.oam[4 * s + 2];
        let base: int = if self.sprite_height() == 16 {
            (tile & 0xfe) as int * 16
        } else {
            tile as int * 16
        };
        base + self.sprite_tile_line(s, row) * 2
    }

    /// Index (0 to 7 when the pixel is drawn) of the sprite pixel that lands
    /// on screen column `px`.
    pub open spec fn sprite_column(self, s: int, px: int) -> int {
        if self.sprite_attr(s) & 0x20 != 0 {
            159 - px - self.sprite_left(s)
        } else {
            px - self.sprite_left(s)
        }
    }

    /// Colour number of sprite pixel `i` of sprite `s` on line `row`.
    pub open spec fn sprite_number(self, s: int, row: int, i: int) -> u8 {
        let addr = self.sprite_line_addr(s, row);
        colour_number(self.vram[addr], self.vram[addr + 1], (7 - i) as u8)
    }

    /// Whether sprite `s` draws a pixel at screen line `row`, column `px`.
    pub open spec fn sprite_paints(self, s: int, row: int, px: int) -> bool {
        &&& self.sprite_on_line(s, row)
        &&& 0 <= self.sprite_column(s, px) < 8
        &&& self.sprite_number(s, row, self.sprite_column(s, px)) != 0
    }

    /// The shade that sprite `s` draws at screen line `row`, column `px`.
    pub open spec fn sprite_shade(self, s: int, row: int, px: int) -> u8 {
        let pal = if self.sprite_attr(s) & 0x10 != 0 {
            self.obp1
        } else {
            self.obp0
        };
        palette_shade(pal, self.sprite_number(s, row, self.sprite_column(s, px)))
    }

    /// The sprite shade at line `row`, column `px` when sprites `0 .. n` are
    /// drawn in order (a later sprite covers an earlier one); 0 where none draws.
    pub open spec fn sprite_pixel(self, row: int, px: int, n: int) -> u8
        decreases n,
    {
        if n <= 0 {
            0
        } else if self.sprite_paints(n - 1, row, px) {
            self.sprite_shade(n - 1, row, px)
        } else {
            self.sprite_pixel(row, px, n - 1)
        }
    }

    /// The frame of sprite shades of all forty sprites.
    pub open spec fn sprite_frame(self) -> Seq<u8> {
        Seq::new(FRAME_PIXELS as nat, |p: int| self.sprite_pixel(p / 160, p % 160, 40))
    }

    /// The frame of shades that a full render shows.
    pub open spec fn frame(self) -> Seq<u8> {
        if self.lcdc & 2 != 0 {
            merged_frame(self.bg_frame(), self.sprite_frame(), self.lcdc)
        } else {
            self.bg_frame()
        }
    }

    /// The state after a scanline render: when the background is enabled
    /// the whole screen is drawn from the frame.
    #[verifier::opaque]
    pub open spec fn scanline(self) -> PpuState {
        if self.lcdc & 1 != 0 {
            PpuState { screen: rgb_screen(self.frame()), updated: true, ..self }
        } else {
            self
        }
    }

    /// Whether the line counter agrees with the mode: the vertical blank
    /// covers lines 144 to 153, the other modes the visible lines.
    pub open spec fn timing_ok(self) -> bool {
        if self.stat & 3 == 1 {
            144 <= self.ly < 154
        } else {
            self.ly < 144
        }
    }

    /// Whether a step can be taken: the line counter is not incremented past 255.
    pub open spec fn step_ok(self) -> bool {
        !((self.stat & 3) < 2 && self.ly == 255)
    }

    /// The state after one step of the mode machine (0: horizontal blank,
    /// 1: vertical blank, 2: object search, 3: transfer).
    #[verifier::opaque]
    pub open spec fn step(self) -> PpuState {
        let mode = self.stat & 3;
        if mode == 0 {
            let ly = (self.ly + 1) as u8;
            let stat1: u8 = if ly == self.lyc {
                self.stat | 0x40
            } else {
                self.stat & !0x40u8
            };
            let int1: u8 = if ly == self.lyc && stat1 & 0x40 != 0 && stat1 & 0x20 != 0 {
                self.interrupt | 2
            } else {
                self.interrupt
            };
            if ly == 144 {
                let p = PpuState { ly, stat: (stat1 & !3u8) | 1, interrupt: int1, ..self }.scanline();
                PpuState { interrupt: p.interrupt | 1, updated: true, ..p }
            } else {
                PpuState { ly, stat: (stat1 & !3u8) | 2, interrupt: int1, ..self }
            }
        } else if mode == 1 {
            let ly = (self.ly + 1) as u8;
            if ly == 154 {
                PpuState { ly: 0, stat: (self.stat & !3u8) | 2, ..self }
            } else {
                PpuState { ly, ..self }
            }
        } else if mode == 2 {
            PpuState { stat: (self.stat & !3u8) | 3, ..self }
        } else {
            let stat = self.stat & !3u8;
            PpuState {
                stat,
                interrupt: if stat & 8 != 0 {
                    self.interrupt | 2
                } else {
                    self.interrupt
                },
                ..self
            }
        }
    }

    /// The state of a unit just created.
    pub open spec fn initial() -> PpuState {
        PpuState {
            vram: Seq::new(0x2000, |i: int| 0u8),
            oam: Seq::new(0xA0, |i: int| 0u8),
            lcdc: 0,
            stat: 0,
            scy: 0,
            scx: 0,
            ly: 0,
            lyc: 0,
            wy: 0,
            wx: 0,
            bgp: 0,
            obp0: 0,
            obp1: 0,
            screen: Seq::new(SCREEN_BYTES as nat, |i: int| 0u8),
            updated: false,
            interrupt: 0,
        }
    }
}

proof fn lemma_palette(pal: u8, n: u8)
    ensures
        n == 0 ==> pal & 0b0000_0011 == palette_shade(pal, n),
        n == 1 ==> (pal & 0b0000_1100) >> 2 == palette_shade(pal, n),
        n == 2 ==> (pal & 0b0011_0000) >> 4 == palette_shade(pal, n),
        n == 3 ==> (pal & 0b1100_0000) >> 6 == palette_shade(pal, n),
        n <= 3 ==> palette_shade(pal, n) <= 3,
        n <= 3 ==> (pal >> (n * 2)) & 0b11 == palette_shade(pal, n),
        forall|lo: u8, hi: u8, bit: u8| #[trigger] colour_number(lo, hi, bit) <= 3,
{
    assert(
        (n == 0 ==> pal & 0b0000_0011 == (pal >> (2 * n) as u8) & 3)
        && (n == 1 ==> (pal & 0b0000_1100) >> 2 == (pal >> (2 * n) as u8) & 3)
        && (n == 2 ==> (pal & 0b0011_0000) >> 4 == (pal >> (2 * n) as u8) & 3)
        && (n == 3 ==> (pal & 0b1100_0000) >> 6 == (pal >> (2 * n) as u8) & 3)
        && (n <= 3 ==> (pal >> (2 * n) as u8) & 3 <= 3)
        && (n <= 3 ==> (pal >> (n * 2)) & 0b11 == (pal >> (2 * n) as u8) & 3)
        && (forall|lo: u8, hi: u8, bit: u8| #[trigger] (((hi >> bit) & 1) << 1u8 | ((lo >> bit) & 1)) <= 3)
    ) by (bit_vector);
}

impl PPU {
    pub fn new() -> (p: PPU)
        ensures
            p@ == PpuState::initial(),
    {
        let p = PPU {
            vram: [0; 0x2000],
            oam: [0; 0xA0],
            lcdc: 0,
            stat: 0,
            scy: 0,
            scx: 0,
            ly: 0,
            lyc: 0,
            wy: 0,
            wx: 0,
            bgp: 0,
            obp0: 0,
            obp1: 0,
            screen_buffer: [0; 69120],
            updated: false,
            interrupt: 0,
        };
        assert(p@ =~= PpuState::initial());
        p
    }

    pub fn read_byte(&self, address: u16) -> (r: u8)
        requires
            ppu_addr_ok(address),
        ensures
            r == self@.read(address),
    {
        reveal(PpuState::read);
        match address {
            0x8000..=0x9FFF => self.vram[(address - 0x8000) as usize],
            0xFE00..=0xFE9F => self.oam[(address - 0xFE00) as usize],
            0xFF40 => self.lcdc,
            0xFF41 => self.stat,
            0xFF42 => self.scy,
            0xFF43 => self.scx,
            0xFF44 => self.ly,
            0xFF45 => self.lyc,
            0xFF47 => self.bgp,
            0xFF48 => self.obp0,
            0xFF49 => self.obp1,
            0xFF4A => self.wy,
            0xFF4B => self.wx,
            _ => {
                proof {
                    assert(false);
                }
                0
            },
        }
    }

    pub fn write_byte(&mut self, address: u16, value: u8)
        requires
            ppu_addr_ok(address),
        ensures
            final(self)@ == old(self)@.write(address, value),
    {
        reveal(PpuState::write);
        match address {
            0x8000..=0x9FFF => self.vram[(address - 0x8000) as usize] = value,
            0xFE00..=0xFE9F => self.oam[(address - 0xFE00) as usize] = value,
            0xFF40 => self.lcdc = value,
            0xFF41 => self.stat = value,
            0xFF42 => self.scy = value,
            0xFF43 => self.scx = value,
            0xFF44 => self.ly = 0,
            0xFF45 => self.lyc = value,
            0xFF47 => self.bgp = value,
            0xFF48 => self.obp0 = value,
            0xFF49 => self.obp1 = value,
            0xFF4A => self.wy = value,
            0xFF4B => self.wx = value,
            _ => {
                proof {
                    assert(false);
                }
            },
        }
        assert(self@ =~= old(self)@.write(address, value));
    }
}

impl PPU {
    /// One step of the mode machine; `cycles` is not read.
    pub fn execute(&mut self, cycles: u8)
        requires
            old(self)@.step_ok(),
        ensures
            final(self)@ == old(self)@.step(),
    {
        reveal(PpuState::step);
        let current_mode = self.stat & 0b11;
        let ghost s0 = self@;
        proof {
            lemma_mode_bits(self.stat);
            lemma_bit_constants();
        }
        match current_mode {
            // Hblank
            0 => {
                self.ly += 1;

                // Check for LYC coincidence
                if self.ly == self.lyc {
                    self.stat |= (1 << 6); // Set LYC=LY flag
                    if self.stat & (1 << 6) != 0 && self.stat & (1 << 5) != 0 {
                        // If LYC=LY interrupt enabled
                        // and mode 2 (OAM search) interrupt enabled
                        self.interrupt |= 0x02; // Request interrupt
                    }
                } else {
                    self.stat &= !(1 << 6); // Clear LYC=LY coincidence flag
                }

                if self.ly == 144 {
                    // Vblank
                    self.stat = (self.stat & !0b11) | 0b01; // Set mode to 1 (Vblank)
                    self.render_scanline();
                    self.interrupt |= 0x01;
                    self.updated = true;
                } else {
                    // Switch to OAM search
                    self.stat = (self.stat & !0b11) | 0b10; // Set mode to 2 (OAM search)
                }
            }
            // Vblank
            1 => {
                self.ly += 1;

                if self.ly == 154 {
                    self.ly = 0;
                    // Switch to OAM search
                    self.stat = (self.stat & !0b11) | 0b10; // Set mode to 2 (OAM search)
                }
            }
            // OAM search
            2 => {
                self.stat = (self.stat & !0b11) | 0b11; // Set mode to 3 (LCD transfer)
            }
            // LCD transfer
            3 => {
                self.stat = (self.stat & !0b11) | 0b00; // Set mode to 0 (Hblank)

                if self.stat & (1 << 3) != 0 {
                    // If mode 0 (Hblank) interrupt enabled
                    self.interrupt |= 0x02; // Request interrupt
                }
            }
            _ => {
                proof {
                    assert(false);
                }
            },
        }
        assert(self@ =~= s0.step());
    }

    /// Draws the frame of the current state to the screen when the
    /// background is enabled.
    fn render_scanline(&mut self)
        ensures
            final(self)@ == old(self)@.scanline(),
    {
        reveal(PpuState::scanline);
        let background_enabled = self.lcdc & 0b1 != 0;
        let sprites_enabled = self.lcdc & 0b10 != 0;
        let ghost s0 = self@;

        if background_enabled {
            let background_buffer = self.render_background();
            let output: [u8; 23040];
            if sprites_enabled {
                let sprite_buffer = self.render_sprites();
                output = self.merge(background_buffer, sprite_buffer);
            } else {
                output = background_buffer
            }
            proof {
                lemma_frame_shades(s0);
                lemma_sprite_frame_eq(s0, PpuState { updated: true, ..s0 });
            }
            self.render(output);
            assert(self@ =~= s0.scanline());
        }
    }

    /// Overlays the sprite frame on the background frame.
    fn merge(&self, bg: [u8; 23040], spr: [u8; 23040]) -> (m: [u8; 23040])
        ensures
            m@ == merged_frame(bg@, spr@, self.lcdc),
    {
        let mut merged = [0; 23040];
        for index in 0usize..23040
            invariant
                forall|i: int| 0 <= i < index ==> merged@[i] == #[trigger] merged_frame(bg@, spr@, self.lcdc)[i],
        {
            let bg_pixel = bg[index];
            let spr_pixel = spr[index];

            // Sprite is visible
            if (spr_pixel != 0) && (((self.lcdc >> 1) & 0b1) == 1) {
                merged[index] = spr_pixel;
            } else {
                merged[index] = bg_pixel;
            }
        }
        assert(merged@ =~= merged_frame(bg@, spr@, self.lcdc));
        merged
    }

    /// Writes the RGB picture of a frame of shades to the screen buffer.
    fn render(&mut self, buffer: [u8; 23040])
        requires
            all_shades(buffer@),
        ensures
            final(self)@ == (PpuState { screen: rgb_screen(buffer@), ..old(self)@ }),
    {
        let ghost s0 = self@;
        for row in 0usize..144
            invariant
                self@ == (PpuState { screen: self@.screen, ..s0 }),
                all_shades(buffer@),
                forall|p: int, k: int| 0 <= p < row * 160 && 0 <= k < 3 ==>
                    #[trigger] self.screen_buffer@[p * 3 + k] == grey(buffer@[p]),
        {
            for col in 0usize..160
                invariant
                    0 <= row < 144,
                    self@ == (PpuState { screen: self@.screen, ..s0 }),
                    all_shades(buffer@),
                    forall|p: int, k: int| 0 <= p < row * 160 + col && 0 <= k < 3 ==>
                        #[trigger] self.screen_buffer@[p * 3 + k] == grey(buffer@[p]),
            {
                let pixel_offset = (row * 160 + col) * 3;
                let pixel = buffer[row * 160 + col];
                let colours = self.to_rgb(pixel);
                self.screen_buffer[pixel_offset] = colours.0;
                self.screen_buffer[pixel_offset + 1] = colours.1;
                self.screen_buffer[pixel_offset + 2] = colours.2;
            }
        }
        assert forall|i: int| 0 <= i < SCREEN_BYTES implies self.screen_buffer@[i] == grey(buffer@[i / 3]) by {
            let p = i / 3;
            let k = i % 3;
            assert(self.screen_buffer@[p * 3 + k] == grey(buffer@[p]));
        }
        assert(self.screen_buffer@ =~= rgb_screen(buffer@));
        assert(self@ =~= (PpuState { screen: rgb_screen(buffer@), ..s0 }));
    }

    /// The frame of background shades; marks the picture as updated.
    #[verifier::rlimit(60)]
    fn render_background(&mut self) -> (buf: [u8; 23040])
        ensures
            final(self)@ == (PpuState { updated: true, ..old(self)@ }),
            buf@ == old(self)@.bg_frame(),
    {
        let mut background_buffer = [0; 23040];
        let bg_tile_map_select = (self.lcdc >> 3) & 0b1;
        let bg_tile_set_select = (self.lcdc >> 4) & 0b1;
        let scroll_y = self.scy;
        let scroll_x = self.scx;

        let tile_map_base: u16 = if bg_tile_map_select == 0 {
            0x9800 - 0x8000
        } else {
            0x9C00 - 0x8000
        };

        let tile_set_base: u16 = if bg_tile_set_select == 0 {
            0x8800 - 0x8000
        } else {
            0x8000 - 0x8000
        };

        let tile_size: u8 = 8;
        let ghost s0 = self@;
        for row in 0usize..144
            invariant
                self@ == s0,
                tile_map_base == (if (s0.lcdc >> 3u8) & 1 == 0 { 0x1800int } else { 0x1c00int }),
                tile_set_base == (if (s0.lcdc >> 4u8) & 1 == 0 { 0x0800int } else { 0int }),
                scroll_y == s0.scy,
                scroll_x == s0.scx,
                tile_size == 8,
                forall|r: int, c: int| 0 <= r < row && 0 <= c < 160 ==>
                    #[trigger] background_buffer@[r * 160 + c] == s0.bg_shade(r, c),
        {
            for col in 0usize..160
                invariant
                    0 <= row < 144,
                    self@ == s0,
                    tile_map_base == (if (s0.lcdc >> 3u8) & 1 == 0 { 0x1800int } else { 0x1c00int }),
                    tile_set_base == (if (s0.lcdc >> 4u8) & 1 == 0 { 0x0800int } else { 0int }),
                    scroll_y == s0.scy,
                    scroll_x == s0.scx,
                    tile_size == 8,
                    forall|r: int, c: int| 0 <= r < row && 0 <= c < 160 ==>
                        #[trigger] background_buffer@[r * 160 + c] == s0.bg_shade(r, c),
                    forall|c: int| 0 <= c < col ==>
                        #[trigger] background_buffer@[row * 160 + c] == s0.bg_shade(row as int, c),
            {
                let x = col as u8;
                let y = row as u8;
                assert(y.wrapping_add(scroll_y) == ((row + s0.scy) % 256) as u8);
                assert(x.wrapping_add(scroll_x) == ((col + s0.scx) % 256) as u8);
                let tile_y = (y.wrapping_add(scroll_y)) / tile_size;
                let tile_x = (x.wrapping_add(scroll_x)) / tile_size;
                let tile_map_offset = tile_y as u16 * 32 + tile_x as u16;
                let tile_id = self.vram[(tile_map_base + tile_map_offset) as usize];
                let tile_offset = if tile_set_base == 0x8800 {
                    ((tile_id as i8) as i16 + 128) as u16
                } else {
                    tile_id as u16
                };
                let tile_address = tile_set_base + tile_offset * 16;
                let tile_row = ((y.wrapping_add(scroll_y)) % tile_size) * 2;
                let lsb = self.vram[(tile_address + tile_row as u16) as usize];
                let msb = self.vram[(tile_address + tile_row as u16 + 1) as usize];

                let pixel_x = (x.wrapping_add(scroll_x)) % tile_size;
                let colour_bit = 7 - pixel_x;
                let colour_num = ((msb >> colour_bit) & 1) << 1 | ((lsb >> colour_bit) & 1);
                assert(colour_num == colour_number(lsb, msb, colour_bit));
                proof {
                    lemma_palette(self.bgp, colour_num);
                }
                let colour = match colour_num {
                    0 => self.bgp & 0b0000_0011,
                    1 => (self.bgp & 0b0000_1100) >> 2,
                    2 => (self.bgp & 0b0011_0000) >> 4,
                    3 => (self.bgp & 0b1100_0000) >> 6,
                    _ => {
                        proof {
                            assert(false);
                        }
                        0
                    },
                };

                let pixel_offset = (row * 160 + col);
                background_buffer[pixel_offset] = colour;
                assert(background_buffer@[row * 160 + col] == s0.bg_shade(row as int, col as int));
            }
        }

        self.updated = true;
        assert forall|p: int| 0 <= p < FRAME_PIXELS implies background_buffer@[p] == s0.bg_shade(p / 160, p % 160) by {
            assert(background_buffer@[(p / 160) * 160 + p % 160] == s0.bg_shade(p / 160, p % 160));
        }
        assert(background_buffer@ =~= s0.bg_frame());
        assert(self@ =~= (PpuState { updated: true, ..s0 }));
        background_buffer
    }

    /// The frame of sprite shades; each sprite is drawn over the ones before it.
    fn render_sprites(&mut self) -> (buf: [u8; 23040])
        ensures
            final(self)@ == old(self)@,
            buf@ == old(self)@.sprite_frame(),
    {
        let mut sprite_buffer = [0; 23040];
        let sprite_height: i16 = if self.lcdc & (1 << 2) != 0 { 16 } else { 8 };
        let ghost s0 = self@;
        proof {
            lemma_bit_constants();
        }

        for row in 0i32..144
            invariant
                self@ == s0,
                sprite_height == s0.sprite_height(),
                forall|r: int, c: int| 0 <= r < 144 && 0 <= c < 160 ==>
                    #[trigger] sprite_buffer@[r * 160 + c] == if r < row {
                        s0.sprite_pixel(r, c, 40)
                    } else {
                        0
                    },
        {
            for col in 0u16..40
                invariant
                    0 <= row < 144,
                    self@ == s0,
                    sprite_height == s0.sprite_height(),
                    forall|r: int, c: int| 0 <= r < 144 && 0 <= c < 160 ==>
                        #[trigger] sprite_buffer@[r * 160 + c] == if r < row {
                            s0.sprite_pixel(r, c, 40)
                        } else if r == row {
                            s0.sprite_pixel(r, c, col as int)
                        } else {
                            0
                        },
            {
                proof {
                    lemma_bit_constants();
                    reveal(PpuState::read);
                }
                let sprite_addr: u16 = 0xFE00 + col * 4;
                let y_pos = self.read_byte(sprite_addr) as i16 - 16;
                let x_pos = self.read_byte(sprite_addr + 1) as i16 - 8;
                let tile_num = self.read_byte(sprite_addr + 2);
                let attributes = self.read_byte(sprite_addr + 3);

                // Check if sprite intersects with scanline
                if y_pos <= row as i16 && y_pos + sprite_height > row as i16 {

                    let tile_row = if attributes & (1 << 6) != 0 {
                        (sprite_height - 1) - (row as i16 - y_pos)
                    } else {
                        row as i16 - y_pos
                    };

                    // Read sprite tile data from VRAM
                    let tile_addr: u16 = if sprite_height == 16 {
                        0x8000 + (tile_num & 0xFE) as u16 * 16
                    } else {
                        0x8000 + tile_num as u16 * 16
                    };
                    proof {
                        lemma_tile_bytes(tile_num);
                    }
                    let tile_lo = self.read_byte(tile_addr + tile_row as u16 * 2);
                    let tile_hi = self.read_byte(tile_addr + tile_row as u16 * 2 + 1);
                    assert(y_pos == s0.sprite_top(col as int));
                    assert(attributes == s0.sprite_attr(col as int));
                    assert(tile_num == s0.oam[4 * col + 2]);
                    assert((attributes & (1u8 << 6i32) != 0) == (attributes & 0x40 != 0));
                    assert(sprite_height == s0.sprite_height());
                    assert(tile_row == s0.sprite_tile_line(col as int, row as int));
                    assert(tile_addr - 0x8000 + tile_row * 2 == s0.sprite_line_addr(col as int, row as int));

                    for i in 0i16..8
                        invariant
                            0 <= row < 144,
                            0 <= col < 40,
                            self@ == s0,
                            sprite_height == s0.sprite_height(),
                            s0.sprite_on_line(col as int, row as int),
                            x_pos == s0.sprite_left(col as int),
                            attributes == s0.sprite_attr(col as int),
                            tile_lo == s0.vram[s0.sprite_line_addr(col as int, row as int)],
                            tile_hi == s0.vram[s0.sprite_line_addr(col as int, row as int) + 1],
                            forall|r: int, c: int| 0 <= r < 144 && 0 <= c < 160 ==>
                                #[trigger] sprite_buffer@[r * 160 + c] == if r < row {
                                    s0.sprite_pixel(r, c, 40)
                                } else if r == row {
                                    if s0.sprite_paints(col as int, r, c) && s0.sprite_column(col as int, c) < i {
                                        s0.sprite_shade(col as int, r, c)
                                    } else {
                                        s0.sprite_pixel(r, c, col as int)
                                    }
                                } else {
                                    0
                                },
                    {
                        proof {
                            lemma_bit_constants();
                            reveal(PpuState::read);
                        }
                        let color_bit = (7 - i) as u8;
                        let color_num = ((tile_hi >> color_bit) & 1) << 1 | ((tile_lo >> color_bit) & 1);
                        assert(color_num == colour_number(tile_lo, tile_hi, color_bit));
                        let color_addr: u16 = if attributes & (1 << 4) != 0 { 0xFF49 } else { 0xFF48 };
                        proof {
                            lemma_palette(self@.read(color_addr), color_num);
                        }
                        let color = self.read_byte(color_addr) >> (color_num * 2) & 0b11;

                        let pixel_x = (x_pos + i) as usize;
                        let pixel_y = row as usize;
                        proof {
                            lemma_negative_index((x_pos + i) as i16);
                        }

                        // Draw pixel if it's not transparent
                        if color_num != 0 && pixel_x < 160 && pixel_y < 144 {
                            if attributes & (1 << 5) != 0 {
                                // Flip horizontally
                                sprite_buffer[(pixel_y * 160) + (159 - pixel_x)] = color;
                            } else {
                                sprite_buffer[(pixel_y * 160) + pixel_x] = color;
                            }
                        }
                    }
                }
            }
        }
        assert forall|p: int| 0 <= p < FRAME_PIXELS implies sprite_buffer@[p] == s0.sprite_pixel(p / 160, p % 160, 40) by {
            assert(sprite_buffer@[(p / 160) * 160 + p % 160] == s0.sprite_pixel(p / 160, p % 160, 40));
        }
        assert(sprite_buffer@ =~= s0.sprite_frame());
        sprite_buffer
    }

    /// The grey levels of a shade.
    fn to_rgb(&self, colour: u8) -> (rgb: (u8, u8, u8))
        requires
            colour <= 3,
        ensures
            rgb == (grey(colour), grey(colour), grey(colour)),
    {
        match colour {
            0 => (255, 255, 255),
            1 => (200, 200, 200),
            2 => (100, 100, 100),
            3 => (0, 0, 0),
            _ => {
                proof {
                    assert(false);
                }
                (0, 0, 0)
            },
        }
    }
}

proof fn lemma_tile_bytes(tile: u8)
    ensures
        (tile & 0xfe) <= 0xfe,
        (tile & 0xfe) as int == tile as int - tile as int % 2,
{
    assert((tile & 0xfe) <= 0xfe && (tile & 0xfe) == tile - tile % 2) by (bit_vector);
}

proof fn lemma_negative_index(v: i16)
    ensures
        v < 0 ==> v as usize >= 160,
        v >= 0 ==> v as usize == v,
{
    assert(v < 0 ==> v as usize >= 160) by (bit_vector);
}

proof fn lemma_bit_constants()
    ensures
        1u8 << 2i32 == 4u8,
        1u8 << 3i32 == 8u8,
        1u8 << 4i32 == 0x10u8,
        1u8 << 5i32 == 0x20u8,
        1u8 << 6i32 == 0x40u8,
        !(1u8 << 6i32) == 0xbfu8,
        !0x40u8 == 0xbfu8,
        !0b11u8 == 0xfcu8,
        !3u8 == 0xfcu8,
{
    assert(1u8 << 2i32 == 4u8 && 1u8 << 3i32 == 8u8 && 1u8 << 4i32 == 0x10u8 && 1u8 << 5i32 == 0x20u8
        && 1u8 << 6i32 == 0x40u8 && !(1u8 << 6i32) == 0xbfu8 && !0x40u8 == 0xbfu8 && !0b11u8 == 0xfcu8)
        by (bit_vector);
}

/// The sprite frame depends only on the memories, the control register and
/// the sprite palettes.
proof fn lemma_sprite_frame_eq(s: PpuState, t: PpuState)
    requires
        s.vram == t.vram,
        s.oam == t.oam,
        s.lcdc == t.lcdc,
        s.obp0 == t.obp0,
        s.obp1 == t.obp1,
    ensures
        s.sprite_frame() == t.sprite_frame(),
{
    assert forall|p: int| 0 <= p < FRAME_PIXELS implies s.sprite_frame()[p] == t.sprite_frame()[p] by {
        lemma_sprite_pixel_eq(s, t, p / 160, p % 160, 40);
    }
    assert(s.sprite_frame() =~= t.sprite_frame());
}

proof fn lemma_sprite_pixel_eq(s: PpuState, t: PpuState, row: int, px: int, n: int)
    requires
        s.vram == t.vram,
        s.oam == t.oam,
        s.lcdc == t.lcdc,
        s.obp0 == t.obp0,
        s.obp1 == t.obp1,
    ensures
        s.sprite_pixel(row, px, n) == t.sprite_pixel(row, px, n),
    decreases n,
{
    if n > 0 {
        lemma_sprite_pixel_eq(s, t, row, px, n - 1);
    }
}

/// A byte written to the video unit reads back as written, except at the
/// line counter, which any write sets to 0.
pub proof fn law_ppu_read_after_write(s: PpuState, a: u16, v: u8)
    requires
        ppu_addr_ok(a),
        s.vram.len() == 0x2000,
        s.oam.len() == 0xa0,
    ensures
        s.write(a, v).read(a) == (if a == 0xff44 { 0u8 } else { v }),
{
    reveal(PpuState::write);
    reveal(PpuState::read);
}

/// The background pixel at screen row `row`, column `col` is pixel
/// `(col + SCX) % 8` of its tile line counted from the left, and the
/// leftmost pixel of a tile line is bit 7: its colour number is bit
/// `7 - (col + SCX) % 8` of the line's low byte plus twice that bit of its
/// high byte, and the shade is the two bits of the palette at twice that
/// number.
pub proof fn law_bg_pixel_order(s: PpuState, row: int, col: int)
    ensures
        ({
            let k = (7 - ((col + s.scx) % 256) % 8) as u8;
            let lo = s.vram[s.bg_line(row, col)];
            let hi = s.vram[s.bg_line(row, col) + 1];
            let number = ((lo >> k) & 1) + 2 * ((hi >> k) & 1);
            s.bg_shade(row, col) == (s.bgp >> (2 * number) as u8) & 3
        }),
{
    let k = (7 - ((col + s.scx) % 256) % 8) as u8;
    let lo = s.vram[s.bg_line(row, col)];
    let hi = s.vram[s.bg_line(row, col) + 1];
    lemma_colour_number_sum(lo, hi, k);
    assert(((((col + s.scx) % 256) as u8) % 8) == ((col + s.scx) % 256) % 8);
}

/// The colour number of bit `k` of a tile line is that bit of the low
/// byte plus twice that bit of the high byte.
proof fn lemma_colour_number_sum(lo: u8, hi: u8, k: u8)
    ensures
        colour_number(lo, hi, k) == ((lo >> k) & 1) + 2 * ((hi >> k) & 1),
{
    assert(((hi >> k) & 1) << 1u8 | ((lo >> k) & 1) == ((lo >> k) & 1) + 2 * ((hi >> k) & 1)) by (bit_vector);
}

/// An unflipped sprite shows pixel `i` of its tile line at `i` columns
/// right of its left edge, and pixel `i` is bit `7 - i`: its colour number
/// is that bit of the line's low byte plus twice that bit of its high
/// byte.
pub proof fn law_sprite_pixel_order(s: PpuState, sp: int, row: int, i: int)
    requires
        s.sprite_attr(sp) & 0x20 == 0,
        0 <= i < 8,
    ensures
        s.sprite_column(sp, s.sprite_left(sp) + i) == i,
        ({
            let lo = s.vram[s.sprite_line_addr(sp, row)];
            let hi = s.vram[s.sprite_line_addr(sp, row) + 1];
            let k = (7 - i) as u8;
            s.sprite_number(sp, row, i) == ((lo >> k) & 1) + 2 * ((hi >> k) & 1)
        }),
{
    let addr = s.sprite_line_addr(sp, row);
    lemma_colour_number_sum(s.vram[addr], s.vram[addr + 1], (7 - i) as u8);
}

/// A drawn frame shows, at each pixel, three equal bytes, darker for a
/// higher shade: white for shade 0 and black for shade 3.
#[verifier::rlimit(50)]
pub proof fn law_screen_greys(frame: Seq<u8>, p: int)
    requires
        0 <= p < FRAME_PIXELS,
    ensures
        rgb_screen(frame)[3 * p] == rgb_screen(frame)[3 * p + 1],
        rgb_screen(frame)[3 * p] == rgb_screen(frame)[3 * p + 2],
        rgb_screen(frame)[3 * p] == grey(frame[p]),
        grey(0) == 255 && grey(3) == 0,
        forall|a: u8, b: u8| a < b <= 3 ==> #[trigger] grey(a) > #[trigger] grey(b),
{
    assert((3 * p) / 3 == p && (3 * p + 1) / 3 == p && (3 * p + 2) / 3 == p);
}

/// With sprites on, a pixel where a sprite draws a colour other than 0
/// shows the sprite's shade, and every other pixel the background's;
/// with sprites off every pixel shows the background.
#[verifier::rlimit(50)]
pub proof fn law_frame_layers(s: PpuState, p: int)
    requires
        0 <= p < FRAME_PIXELS,
    ensures
        s.lcdc & 2 != 0 && s.sprite_frame()[p] != 0 ==> s.frame()[p] == s.sprite_frame()[p],
        !(s.lcdc & 2 != 0 && s.sprite_frame()[p] != 0) ==> s.frame()[p] == s.bg_shade(p / 160, p % 160),
{
    let l = s.lcdc;
    assert(l & 2 != 0 <==> (l >> 1u8) & 1 == 1) by (bit_vector);
}

/// Scrolling the background one pixel to the right shows at each column
/// what the next column showed.
pub proof fn law_bg_scroll(s: PpuState, row: int, col: int)
    requires
        s.scx < 255,
    ensures
        (PpuState { scx: (s.scx + 1) as u8, ..s }).bg_shade(row, col) == s.bg_shade(row, col + 1),
{
}

/// Writing a mode into the status register gives that mode back, and the
/// line-match bit is apart from the mode bits.
proof fn lemma_mode_set(x: u8)
    ensures
        ((x & !3u8) | 0u8) & 3 == 0,
        ((x & !3u8) | 1u8) & 3 == 1,
        ((x & !3u8) | 2u8) & 3 == 2,
        ((x & !3u8) | 3u8) & 3 == 3,
        (x | 0x40u8) & 3 == x & 3,
        (x & !0x40u8) & 3 == x & 3,
{
    assert(((x & !3u8) | 0u8) & 3 == 0 && ((x & !3u8) | 1u8) & 3 == 1 && ((x & !3u8) | 2u8) & 3 == 2
        && ((x & !3u8) | 3u8) & 3 == 3 && (x | 0x40u8) & 3 == x & 3 && (x & !0x40u8) & 3 == x & 3)
        by (bit_vector);
}

/// From a state whose line counter agrees with its mode, a step can always
/// be taken, keeps the two in agreement, and walks the modes in their
/// order: object search, transfer, horizontal blank, then object search
/// again or, after the last visible line, the vertical blank, which gives
/// way to object search on line 0 after line 153.
pub proof fn law_step_timing(s: PpuState)
    requires
        s.timing_ok(),
    ensures
        s.step_ok(),
        s.step().timing_ok(),
        s.stat & 3 == 2 ==> s.step().stat & 3 == 3 && s.step().ly == s.ly,
        s.stat & 3 == 3 ==> s.step().stat & 3 == 0 && s.step().ly == s.ly,
        s.stat & 3 == 0 ==> s.step().stat & 3 == (if s.ly == 143 { 1u8 } else { 2u8 }) && s.step().ly == s.ly + 1,
        s.stat & 3 == 1 ==> s.step().stat & 3 == (if s.ly == 153 { 2u8 } else { 1u8 }) && s.step().ly == (
        s.ly + 1) % 154,
{
    reveal(PpuState::step);
    reveal(PpuState::scanline);
    lemma_mode_set(s.stat);
    lemma_mode_set(s.stat | 0x40u8);
    lemma_mode_set(s.stat & !0x40u8);
    lemma_mode_bits(s.stat);
}

proof fn lemma_mode_bits(stat: u8)
    ensures
        stat & 3 <= 3,
        ((stat & !3u8) | 0u8) == stat & !3u8,
{
    assert(stat & 3 <= 3 && ((stat & !3u8) | 0u8) == stat & !3u8) by (bit_vector);
}

/// The shades of the frame that a render shows are all between 0 and 3.
proof fn lemma_frame_shades(s: PpuState)
    ensures
        all_shades(s.bg_frame()),
        all_shades(s.sprite_frame()),
        all_shades(merged_frame(s.bg_frame(), s.sprite_frame(), s.lcdc)),
{
    assert forall|p: int| 0 <= p < FRAME_PIXELS implies #[trigger] s.bg_frame()[p] <= 3 by {
        let y = ((p / 160 + s.scy) % 256) as u8;
        let x = ((p % 160 + s.scx) % 256) as u8;
        let map_base: int = if (s.lcdc >> 3u8) & 1 == 0 { 0x1800 } else { 0x1c00 };
        let set_base: int = if (s.lcdc >> 4u8) & 1 == 0 { 0x0800 } else { 0 };
        let tile_id = s.vram[map_base + (y / 8) as int * 32 + (x / 8) as int];
        let line = set_base + tile_id as int * 16 + (y % 8) as int * 2;
        lemma_palette(s.bgp, colour_number(s.vram[line], s.vram[line + 1], (7 - x % 8) as u8));
    }
    assert forall|p: int| 0 <= p < FRAME_PIXELS implies #[trigger] s.sprite_frame()[p] <= 3 by {
        lemma_sprite_pixel_shade(s, p / 160, p % 160, 40);
    }
}

proof fn lemma_sprite_pixel_shade(s: PpuState, row: int, px: int, n: int)
    ensures
        s.sprite_pixel(row, px, n) <= 3,
    decreases n,
{
    if n > 0 {
        if s.sprite_paints(n - 1, row, px) {
            let pal = if s.sprite_attr(n - 1) & 0x10 != 0 { s.obp1 } else { s.obp0 };
            lemma_palette(pal, s.sprite_number(n - 1, row, s.sprite_column(n - 1, px)));
        } else {
            lemma_sprite_pixel_shade(s, row, px, n - 1);
        }
    }
}

} // verus!
