use vstd::prelude::*;
use crate::cpu::registers::{flag_of, with_flag};

verus! {

/// Size of video memory (two banks).
pub const VRAM_SIZE: usize = 0x4000;

/// Size of object attribute memory.
pub const VOAM_SIZE: usize = 0xA0;

pub const SCREEN_WIDTH: usize = 160;

pub const SCREEN_HEIGHT: usize = 144;

/// Bytes in the RGB picture.
pub const DATA_SIZE: usize = 69120;

/// The LCD control register, bit by bit.
pub struct LCDC {
    pub original: u8,
    pub lcd_enable: bool,
    pub w_tile_map_area: bool,
    pub window_enable: bool,
    pub bg_and_win_tile_data_area: bool,
    pub bg_tile_map_area: bool,
    pub obj_size: bool,
    pub obj_enable: bool,
    pub bg_and_window_display: bool,
}

/// Read bit `pos` of `data`.
pub fn rbit(data: u8, pos: u8) -> (r: bool)
    requires
        pos < 8,
    ensures
        r == flag_of(data, pos),
{
    if ((data >> pos) & 0b1) == 1 {
        true
    } else {
        false
    }
}

/// `data` with bit `pos` written to `bit`.
pub fn wbit(data: u8, pos: u8, bit: bool) -> (r: u8)
    requires
        pos < 8,
    ensures
        r == with_flag(data, pos, bit),
{
    let b: u8 = if bit { 1 } else { 0 };
    proof {
        lemma_write_bit(data, pos, bit);
    }
    data & !(1 << pos) | (b << pos)
}

/// A boolean as a number: 1 for true, 0 for false.
pub fn bn(bool: bool) -> (r: u8)
    ensures
        r == (if bool { 1u8 } else { 0u8 }),
{
    if bool {
        1
    } else {
        0
    }
}

proof fn lemma_write_bit(data: u8, pos: u8, bit: bool)
    requires
        pos < 8,
    ensures
        (data & !(1u8 << pos) | ((if bit { 1u8 } else { 0u8 }) << pos)) == with_flag(data, pos, bit),
{
    assert((data & !(1u8 << pos) | ((if bit { 1u8 } else { 0u8 }) << pos)) == with_flag(data, pos, bit))
        by (bit_vector)
        requires pos < 8;
}

/// One-bit values shifted to distinct positions have no bit in common, so
/// joining them with `&` gives 0 whatever else is joined.
proof fn lemma_disjoint_bits(a: u8, b: u8, c: u8, d: u8, e: u8, f: u8, g: u8, h: u8)
    requires
        a <= 1,
        b <= 1,
    ensures
        (a << 7u8) & (b << 6u8) & (c << 5u8) & (d << 4u8) & (e << 3u8) & (f << 2u8) & (g << 1u8) & h == 0,
        (a << 6u8) & (b << 5u8) & (c << 4u8) & (d << 3u8) & (e << 2u8) & h == 0,
{
    assert((a << 7u8) & (b << 6u8) & (c << 5u8) & (d << 4u8) & (e << 3u8) & (f << 2u8) & (g << 1u8) & h == 0
        && (a << 6u8) & (b << 5u8) & (c << 4u8) & (d << 3u8) & (e << 2u8) & h == 0) by (bit_vector)
        requires a <= 1, b <= 1;
}

/// The tile rows of the window and of the background line.
proof fn lemma_tile_rows(winy: u8, bgy: u8)
    ensures
        (winy as u16 >> 3) & 31 == winy / 8,
        (bgy as u16 >> 3) & 31 == bgy / 8,
        winy as u16 & 7 == winy % 8,
        bgy as u16 & 7 == bgy % 8,
{
    assert((winy as u16 >> 3) & 31 == winy / 8 && (bgy as u16 >> 3) & 31 == bgy / 8
        && winy as u16 & 7 == winy % 8 && bgy as u16 & 7 == bgy % 8) by (bit_vector);
}

/// The tile columns and pixels of a window column and a background column.
proof fn lemma_tile_columns(winx: i32, bgx: u32)
    requires
        -248 <= winx <= 166,
        bgx < 512,
    ensures
        0 <= winx ==> (winx as u16 >> 3) == winx / 8 && winx as u8 & 7 == winx % 8,
        (bgx as u16 >> 3) & 31 == (bgx / 8) % 32,
        bgx as u8 & 7 == bgx % 8,
{
    assert(0 <= winx <= 166 ==> (winx as u16 >> 3) == winx / 8 && winx as u8 & 7 == winx % 8) by (bit_vector);
    assert(bgx < 512 ==> (bgx as u16 >> 3) & 31 == (bgx / 8) % 32 && bgx as u8 & 7 == bgx % 8) by (bit_vector);
}

/// A tile number read as signed and moved up by 128.
proof fn lemma_signed_tile(tilenr: u8)
    ensures
        (tilenr as i8 as i16 + 128) as u16 == (tilenr + 128) % 256,
{
    assert((tilenr as i8 as i16 + 128) as u16 == (tilenr as u16 + 128) % 256) by (bit_vector);
}

/// The colour number that bit `xbit` of the two planes of a tile line makes.
proof fn lemma_colour_bits(lo: u8, hi: u8, xbit: u32)
    requires
        xbit < 8,
    ensures
        (lo & (1u8 << xbit) != 0) == flag_of(lo, xbit as u8),
        (hi & (1u8 << xbit) != 0) == flag_of(hi, xbit as u8),
        forall|a: usize, b: usize| a <= 1 && (b == 0 || b == 2) ==> #[trigger] (a | b) == a + b,
{
    assert(xbit < 8 ==> (lo & (1u8 << xbit) != 0) == ((lo >> (xbit as u8)) & 1 == 1)
        && (hi & (1u8 << xbit) != 0) == ((hi >> (xbit as u8)) & 1 == 1)) by (bit_vector);
    assert forall|a: usize, b: usize| a <= 1 && (b == 0 || b == 2) implies #[trigger] (a | b) == a + b by {
        assert(a <= 1 && (b == 0 || b == 2) ==> (a | b) == a + b) by (bit_vector);
    }
}

impl LCDC {
    /// The register as its bits.
    pub open spec fn of(lcdc: u8) -> LCDC {
        LCDC {
            original: lcdc,
            lcd_enable: flag_of(lcdc, 7),
            w_tile_map_area: flag_of(lcdc, 6),
            window_enable: flag_of(lcdc, 5),
            bg_and_win_tile_data_area: flag_of(lcdc, 4),
            bg_tile_map_area: flag_of(lcdc, 3),
            obj_size: flag_of(lcdc, 2),
            obj_enable: flag_of(lcdc, 1),
            bg_and_window_display: flag_of(lcdc, 0),
        }
    }

    pub fn new(lcdc: u8) -> (r: Self)
        ensures
            r == LCDC::of(lcdc),
    {
        Self {
            original: lcdc,
            lcd_enable: rbit(lcdc, 7),
            w_tile_map_area: rbit(lcdc, 6),
            window_enable: rbit(lcdc, 5),
            bg_and_win_tile_data_area: rbit(lcdc, 4),
            bg_tile_map_area: rbit(lcdc, 3),
            obj_size: rbit(lcdc, 2),
            obj_enable: rbit(lcdc, 1),
            bg_and_window_display: rbit(lcdc, 0),
        }
    }

    /// The flags joined with `&`: as each flag sits at a bit of its own,
    /// the value is 0 whatever the flags are.
    pub fn raw(&self) -> (r: u8)
        ensures
            r == 0,
    {
        let a = bn(self.lcd_enable);
        let b = bn(self.w_tile_map_area);
        let c = bn(self.window_enable);
        let d = bn(self.bg_and_win_tile_data_area);
        let e = bn(self.bg_tile_map_area);
        let f = bn(self.obj_size);
        let g = bn(self.obj_enable);
        let h = bn(self.bg_and_window_display);
        proof {
            lemma_disjoint_bits(a, b, c, d, e, f, g, h);
        }
        (a << 7u8) & (b << 6u8) & (c << 5u8) & (d << 4u8) & (e << 3u8) & (f << 2u8) & (g << 1u8) & (h)
    }
}

/// The LCD status: line counter, line compare and the status register.
pub struct LCDS {
    pub ly: u8,
    pub lyc: u8,
    pub stat: STAT,
}

impl LCDS {
    pub fn new() -> (r: Self)
        ensures
            r == (LCDS { ly: 0, lyc: 0, stat: STAT::of(0) }),
    {
        Self { ly: 0, lyc: 0, stat: STAT::new(0) }
    }
}

/// The LCD status register, bit by bit.
pub struct STAT {
    pub original: u8,
    pub lcy_eq_ly_interrupt: bool,
    pub mode2: bool,
    pub mode1: bool,
    pub mode0: bool,
    pub lcy_eq_ly_flag: bool,
    pub mode_flag: u8,
}

impl STAT {
    /// The register as its bits.
    pub open spec fn of(stat: u8) -> STAT {
        STAT {
            original: stat,
            lcy_eq_ly_interrupt: flag_of(stat, 6),
            mode2: flag_of(stat, 5),
            mode1: flag_of(stat, 4),
            mode0: flag_of(stat, 3),
            lcy_eq_ly_flag: flag_of(stat, 2),
            mode_flag: stat & 3,
        }
    }

    pub fn new(stat: u8) -> (r: Self)
        ensures
            r == STAT::of(stat),
    {
        Self {
            original: stat,
            lcy_eq_ly_interrupt: rbit(stat, 6),
            mode2: rbit(stat, 5),
            mode1: rbit(stat, 4),
            mode0: rbit(stat, 3),
            lcy_eq_ly_flag: rbit(stat, 2),
            mode_flag: (stat & 0b11),
        }
    }

    /// The flags and the mode joined with `&`: as they sit at bits of
    /// their own, the value is 0 whatever they are.
    pub fn raw(&self) -> (r: u8)
        ensures
            r == 0,
    {
        let a = bn(self.lcy_eq_ly_interrupt);
        let b = bn(self.mode2);
        let c = bn(self.mode1);
        let d = bn(self.mode0);
        let e = bn(self.lcy_eq_ly_flag);
        proof {
            lemma_disjoint_bits(a, b, c, d, e, 0, 0, self.mode_flag);
        }
        (a << 6u8) & (b << 5u8) & (c << 4u8) & (d << 3u8) & (e << 2u8) & (self.mode_flag)
    }
}

/// The phases of a screen line.
#[derive(PartialEq, Eq, Structural, Clone, Copy)]
pub enum Mode {
    HBlank,  //0
    VBlank,  //1
    OAMSearch,  //2
    PixelTransfer,  //3
}

/// The picture unit driven by a clock of ticks: 456 ticks per line, 154
/// lines per frame, the first 144 of them visible.
pub struct PPU {
    pub vram: [u8; 0x4000],
    pub voam: [u8; 0xA0],
    pub lcdc: LCDC,
    pub lcds: LCDS,
    pub scy: u8,
    pub scx: u8,
    pub wy: u8,
    pub wx: u8,
    /// BG palette data
    pub bgp: u8,
    /// Number of pixels along the scanline.
    pub x: u8,
    pub updated: bool,
    pub interrupt: u8,
    pub data: Vec<u8>,
    pub modeclock: u32,
    pub hblank: bool,
    pub mode: Mode,
    pub framebuffer: [u8; 23040],
    pub framebuffer_w: [u8; 23040],
    pub framebuffer_o: [u8; 23040],
    pub palbr: u8,
    pub pal0r: u8,
    pub pal1r: u8,
    pub palb: [u8; 4],
    pub pal0: [u8; 4],
    pub pal1: [u8; 4],
    pub tilebase: u16,
}

/// The mathematical state of a `PPU` of this module.
pub struct PpuOldState {
    pub vram: Seq<u8>,
    pub voam: Seq<u8>,
    pub lcdc: LCDC,
    pub lcds: LCDS,
    pub scy: u8,
    pub scx: u8,
    pub wy: u8,
    pub wx: u8,
    pub bgp: u8,
    pub x: u8,
    pub updated: bool,
    pub interrupt: u8,
    pub data: Seq<u8>,
    pub modeclock: u32,
    pub hblank: bool,
    pub mode: Mode,
    pub framebuffer: Seq<u8>,
    pub framebuffer_w: Seq<u8>,
    pub framebuffer_o: Seq<u8>,
    pub palbr: u8,
    pub pal0r: u8,
    pub pal1r: u8,
    pub palb: Seq<u8>,
    pub pal0: Seq<u8>,
    pub pal1: Seq<u8>,
    pub tilebase: u16,
}

impl View for PPU {
    type V = PpuOldState;

    open spec fn view(&self) -> PpuOldState {
        PpuOldState {
            vram: self.vram@,
            voam: self.voam@,
            lcdc: self.lcdc,
            lcds: self.lcds,
            scy: self.scy,
            scx: self.scx,
            wy: self.wy,
            wx: self.wx,
            bgp: self.bgp,
            x: self.x,
            updated: self.updated,
            interrupt: self.interrupt,
            data: self.data@,
            modeclock: self.modeclock,
            hblank: self.hblank,
            mode: self.mode,
            framebuffer: self.framebuffer@,
            framebuffer_w: self.framebuffer_w@,
            framebuffer_o: self.framebuffer_o@,
            palbr: self.palbr,
            pal0r: self.pal0r,
            pal1r: self.pal1r,
            palb: self.palb@,
            pal0: self.pal0@,
            pal1: self.pal1@,
            tilebase: self.tilebase,
        }
    }
}

/// The grey level of palette entry `index` of palette `value`.
pub open spec fn monochrome(value: u8, index: int) -> u8 {
    let shade = (value >> (2 * index) as u8) & 3;
    if shade == 0 {
        255
    } else if shade == 1 {
        192
    } else if shade == 2 {
        96
    } else {
        0
    }
}

impl PpuOldState {
    /// The picture has its size.
    pub open spec fn wf(self) -> bool {
        self.data.len() == DATA_SIZE
    }

    /// What a read of `loc` gives; the two registers read back as their
    /// flags joined with `&`, that is 0, and unknown addresses as 0xFF.
    pub open spec fn read(self, loc: u16) -> u8 {
        if 0x8000 <= loc <= 0x97ff {
            self.vram[loc - 0x8000]
        } else if 0xfe00 <= loc <= 0xfe9f {
            self.voam[loc - 0xfe00]
        } else if loc == 0xff40 || loc == 0xff41 {
            0
        } else if loc == 0xff42 {
            self.scy
        } else if loc == 0xff43 {
            self.scx
        } else if loc == 0xff44 {
            self.lcds.ly
        } else if loc == 0xff45 {
            self.lcds.lyc
        } else if loc == 0xff47 {
            self.bgp
        } else if loc == 0xff4a {
            self.wy
        } else if loc == 0xff4b {
            self.wx
        } else {
            0xff
        }
    }

    /// Whether a write is defined: the line counter is read only, and the
    /// low three bits of the status register must be written as they read
    /// (0).
    pub open spec fn write_ok(self, loc: u16, data: u8) -> bool {
        &&& loc != 0xff44
        &&& loc == 0xff41 ==> data & 7 == 0
    }

    /// The picture with every byte 255.
    pub open spec fn cleared(self) -> PpuOldState {
        PpuOldState { data: Seq::new(self.data.len(), |i: int| 255u8), updated: true, ..self }
    }

    /// The state after a write of `data` to `loc`; switching the display
    /// off restarts the line and clears the picture.
    pub open spec fn write(self, loc: u16, data: u8) -> PpuOldState {
        if 0x8000 <= loc <= 0x97ff {
            PpuOldState { vram: self.vram.update(loc - 0x8000, data), ..self }
        } else if 0xfe00 <= loc <= 0xfe9f {
            PpuOldState { voam: self.voam.update(loc - 0xfe00, data), ..self }
        } else if loc == 0xff40 {
            let s = PpuOldState { lcdc: LCDC::of(data), ..self };
            if self.lcdc.lcd_enable && !flag_of(data, 7) {
                PpuOldState { modeclock: 0, lcds: LCDS { ly: 0, ..s.lcds }, mode: Mode::HBlank, ..s }.cleared()
            } else {
                s
            }
        } else if loc == 0xff41 {
            PpuOldState { lcds: LCDS { stat: STAT::of(data), ..self.lcds }, ..self }
        } else if loc == 0xff42 {
            PpuOldState { scy: data, ..self }
        } else if loc == 0xff43 {
            PpuOldState { scx: data, ..self }
        } else if loc == 0xff45 {
            PpuOldState { lcds: LCDS { lyc: data, ..self.lcds }, ..self }
        } else if loc == 0xff47 {
            PpuOldState { bgp: data, ..self }
        } else if loc == 0xff4a {
            PpuOldState { wy: data, ..self }
        } else if loc == 0xff4b {
            PpuOldState { wx: data, ..self }
        } else {
            self
        }
    }

    /// The picture after the bytes of pixel `x` of the current line are set
    /// to `color`; nothing changes when they lie past the end of the picture.
    pub open spec fn set_color(self, x: int, color: u8) -> PpuOldState {
        let base = self.lcds.ly * 480 + x * 3;
        if base + 2 >= DATA_SIZE {
            self
        } else {
            PpuOldState {
                data: self.data.update(base, color).update(base + 1, color).update(base + 2, color),
                ..self
            }
        }
    }

    /// Where the background drawing takes column `x` of the current line
    /// from: the address of the tile-map entry, the line within the tile and
    /// the pixel within that line; the window wins where it covers the
    /// column, and nothing is drawn where neither is shown.
    pub open spec fn bg_source(self, x: int) -> Option<(int, int, int)> {
        let winx = 7 - self.wx + x;
        let bgy = (self.scy + self.lcds.ly) % 256;
        if winx >= 0 {
            let base: int = if self.lcdc.w_tile_map_area { 0x9c00 } else { 0x9800 };
            Some((base + (self.wy / 8) * 32 + winx / 8, (self.wy % 8) as int, winx % 8))
        } else if self.lcdc.bg_and_window_display {
            let bgx = self.scx + x;
            let base: int = if self.lcdc.bg_tile_map_area { 0x9c00 } else { 0x9800 };
            Some((base + (bgy / 8) * 32 + (bgx / 8) % 32, bgy % 8, bgx % 8))
        } else {
            None
        }
    }

    /// The colour that the background drawing gives to column `x` of the
    /// current line, if it draws one.
    pub open spec fn bg_colour(self, x: int) -> Option<u8> {
        match self.bg_source(x) {
            Some((entry, py, px)) => {
                let tilenr = self.vram[entry - 0x8000];
                let index: int = if self.tilebase == 0x8000 {
                    tilenr as int
                } else {
                    (tilenr + 128) % 256
                };
                let addr = self.tilebase + index * 16 + py * 2;
                let bit = (7 - px) as u8;
                let number: int = (if flag_of(self.vram[addr - 0x8000], bit) { 1int } else { 0 })
                    + (if flag_of(self.vram[addr + 1 - 0x8000], bit) { 2int } else { 0 });
                Some(self.palb[number])
            },
            None => None,
        }
    }

    /// The picture after the background is drawn on the current line.
    pub open spec fn bg_drawn(self) -> PpuOldState {
        let row = self.lcds.ly * 480;
        PpuOldState {
            data: Seq::new(
                self.data.len(),
                |i: int|
                    if self.lcds.ly < 144 && row <= i < row + 480 && self.bg_colour((i - row) / 3) is Some {
                        self.bg_colour((i - row) / 3)->0
                    } else {
                        self.data[i]
                    },
            ),
            ..self
        }
    }

    /// The picture after the current line is painted white.
    pub open spec fn line_white(self) -> PpuOldState {
        PpuOldState {
            data: Seq::new(
                self.data.len(),
                |i: int|
                    if self.lcds.ly < 144 && self.lcds.ly * 480 <= i < self.lcds.ly * 480 + 480 {
                        255u8
                    } else {
                        self.data[i]
                    },
            ),
            ..self
        }
    }

    /// The state after a change to mode `mode`: the horizontal blank paints
    /// the line, the vertical blank requests its interrupt and marks the
    /// picture updated; entering a mode whose status bit is set requests
    /// the status interrupt.
    pub open spec fn change_mode(self, mode: Mode) -> PpuOldState {
        let s = PpuOldState { mode, ..self };
        match mode {
            Mode::HBlank => {
                let t = PpuOldState { hblank: true, ..s.line_white() };
                if t.lcds.stat.mode0 {
                    PpuOldState { interrupt: t.interrupt | 2, ..t }
                } else {
                    t
                }
            },
            Mode::VBlank => {
                let t = PpuOldState { interrupt: s.interrupt | 1, updated: true, ..s };
                if t.lcds.stat.mode1 {
                    PpuOldState { interrupt: t.interrupt | 2, ..t }
                } else {
                    t
                }
            },
            Mode::OAMSearch => if s.lcds.stat.mode2 {
                PpuOldState { interrupt: s.interrupt | 2, ..s }
            } else {
                s
            },
            Mode::PixelTransfer => s,
        }
    }

    /// The state after the line-compare check: the status interrupt is
    /// requested when it is enabled and the line matches.
    pub open spec fn check_lyc(self) -> PpuOldState {
        if self.lcds.stat.lcy_eq_ly_interrupt && self.lcds.ly == self.lcds.lyc {
            PpuOldState { interrupt: self.interrupt | 2, ..self }
        } else {
            self
        }
    }

    /// Whether `cur` ticks can be added without overflow of the counters.
    pub open spec fn tick_ok(self, cur: u32) -> bool {
        &&& self.modeclock + cur <= u32::MAX
        &&& self.modeclock + cur >= 456 ==> self.lcds.ly < 255
    }

    /// The state after `cur` more ticks are counted: the line advances every
    /// 456 ticks, and the vertical blank begins on line 144.
    pub open spec fn advance(self, cur: u32) -> PpuOldState {
        let clock = (self.modeclock + cur) as u32;
        let s1 = PpuOldState { modeclock: clock, ..self };
        if clock >= 456 {
            let s = PpuOldState {
                modeclock: (clock - 456) as u32,
                lcds: LCDS { ly: ((self.lcds.ly + 1) % 154) as u8, ..self.lcds },
                ..s1
            }.check_lyc();
            if s.lcds.ly >= 144 && s.mode != Mode::VBlank {
                s.change_mode(Mode::VBlank)
            } else {
                s
            }
        } else {
            s1
        }
    }

    /// The state after the mode is made to follow the position in the line.
    pub open spec fn settle(self) -> PpuOldState {
        if self.lcds.ly < 144 {
            if self.modeclock <= 80 {
                if self.mode != Mode::OAMSearch {
                    self.change_mode(Mode::OAMSearch)
                } else {
                    self
                }
            } else if self.modeclock <= 80 + 172 {
                if self.mode != Mode::PixelTransfer {
                    self.change_mode(Mode::PixelTransfer)
                } else {
                    self
                }
            } else {
                if self.mode != Mode::HBlank {
                    self.change_mode(Mode::HBlank)
                } else {
                    self
                }
            }
        } else {
            self
        }
    }

    /// Whether the mode is made to follow the line into the horizontal
    /// blank.
    pub open spec fn settle_enters_hblank(self) -> bool {
        self.lcds.ly < 144 && self.modeclock > 80 + 172 && self.mode != Mode::HBlank
    }

    /// Whether counting `ticks` ticks, 80 at a time, enters the horizontal
    /// blank at some step.
    pub open spec fn run_enters_hblank(self, ticks: u32) -> bool
        decreases ticks,
    {
        if ticks == 0 {
            false
        } else {
            let cur: u32 = if ticks >= 80 { 80 } else { ticks };
            self.advance(cur).settle_enters_hblank() || self.tick(cur).run_enters_hblank((ticks - cur) as u32)
        }
    }

    /// The state after `cur` ticks (at most 80).
    pub open spec fn tick(self, cur: u32) -> PpuOldState {
        self.advance(cur).settle()
    }

    /// The state after `ticks` ticks, taken 80 at a time.
    pub open spec fn run(self, ticks: u32) -> PpuOldState
        decreases ticks,
    {
        if ticks == 0 {
            self
        } else {
            let cur: u32 = if ticks >= 80 { 80 } else { ticks };
            self.tick(cur).run((ticks - cur) as u32)
        }
    }

    /// Whether `ticks` ticks can be run without overflow.
    pub open spec fn run_ok(self, ticks: u32) -> bool
        decreases ticks,
    {
        if ticks == 0 {
            true
        } else {
            let cur: u32 = if ticks >= 80 { 80 } else { ticks };
            self.tick_ok(cur) && self.tick(cur).run_ok((ticks - cur) as u32)
        }
    }

    /// Whether a cycle of `ticks` ticks is defined.
    pub open spec fn cycle_ok(self, ticks: u32) -> bool {
        self.lcdc.lcd_enable ==> PpuOldState { hblank: false, ..self }.run_ok(ticks)
    }

    /// The state after a cycle of `ticks` ticks; nothing happens while the
    /// display is off.
    pub open spec fn cycle(self, ticks: u32) -> PpuOldState {
        if !self.lcdc.lcd_enable {
            self
        } else {
            PpuOldState { hblank: false, ..self }.run(ticks)
        }
    }
}

impl PPU {
    /// The picture has its size.
    pub open spec fn wf(&self) -> bool {
        self@.wf()
    }

    /// The state of a unit just created.
    pub open spec fn initial() -> PpuOldState {
        PpuOldState {
            vram: Seq::new(VRAM_SIZE as nat, |i: int| 0u8),
            voam: Seq::new(VOAM_SIZE as nat, |i: int| 0u8),
            lcdc: LCDC::of(0),
            lcds: LCDS { ly: 0, lyc: 0, stat: STAT::of(0) },
            scy: 0,
            scx: 0,
            wy: 0,
            wx: 0,
            bgp: 0,
            x: 0,
            updated: false,
            interrupt: 0,
            data: Seq::new(DATA_SIZE as nat, |i: int| 0u8),
            modeclock: 0,
            hblank: false,
            mode: Mode::HBlank,
            framebuffer: Seq::new(23040, |i: int| 0u8),
            framebuffer_w: Seq::new(23040, |i: int| 0u8),
            framebuffer_o: Seq::new(23040, |i: int| 0u8),
            palbr: 0,
            pal0r: 0,
            pal1r: 1,
            palb: Seq::new(4, |i: int| 0u8),
            pal0: Seq::new(4, |i: int| 0u8),
            pal1: Seq::new(4, |i: int| 0u8),
            tilebase: 0x8000,
        }
    }

    pub fn new() -> (p: Self)
        ensures
            p.wf(),
            p@ == PPU::initial(),
    {
        let p = Self {
            vram: [0; 0x4000],
            voam: [0; 0xA0],
            lcdc: LCDC::new(0),
            lcds: LCDS::new(),
            scy: 0,
            scx: 0,
            wy: 0,
            wx: 0,
            bgp: 0,
            x: 0,
            updated: false,
            interrupt: 0,
            data: vec![0; DATA_SIZE],
            modeclock: 0,
            hblank: false,
            mode: Mode::HBlank,
            framebuffer: [0; 23040],
            framebuffer_w: [0; 23040],
            framebuffer_o: [0; 23040],
            palbr: 0,
            pal0r: 0,
            pal1r: 1,
            palb: [0; 4],
            pal0: [0; 4],
            pal1: [0; 4],
            tilebase: 0x8000,
        };
        assert(p@.vram =~= PPU::initial().vram);
        assert(p@.voam =~= PPU::initial().voam);
        assert(p@.data =~= PPU::initial().data);
        assert(p@.framebuffer =~= PPU::initial().framebuffer);
        assert(p@.framebuffer_w =~= PPU::initial().framebuffer_w);
        assert(p@.framebuffer_o =~= PPU::initial().framebuffer_o);
        assert(p@.palb =~= PPU::initial().palb);
        assert(p@.pal0 =~= PPU::initial().pal0);
        assert(p@.pal1 =~= PPU::initial().pal1);
        p
    }

    pub fn read_byte(&self, loc: u16) -> (r: u8)
        ensures
            r == self@.read(loc),
    {
        match loc {
            0x8000..=0x97ff => { self.vram[(loc - 0x8000) as usize] },
            0xfe00..=0xfe9f => self.voam[loc as usize - 0xfe00],
            0xff40 => {
                let r = self.lcdc.raw();
                r
            },
            0xff41 => { self.lcds.stat.raw() },
            0xff42 => { self.scy },
            0xff43 => { self.scx },
            0xff44 => { self.lcds.ly },
            0xff45 => { self.lcds.lyc },
            0xff47 => { self.bgp },
            0xff4a => { self.wy },
            0xff4b => { self.wx },
            _ => 0xFF,
        }
    }

    pub fn write_byte(&mut self, loc: u16, data: u8)
        requires
            old(self).wf(),
            old(self)@.write_ok(loc, data),
        ensures
            final(self).wf(),
            final(self)@ == old(self)@.write(loc, data),
    {
        match loc {
            0x8000..=0x97ff => { self.vram[(loc - 0x8000) as usize] = data },
            0xfe00..=0xfe9f => { self.voam[loc as usize - 0xfe00] = data },
            0xff40 => {
                let orig = self.lcdc.lcd_enable;
                self.lcdc = LCDC::new(data);
                if orig && !self.lcdc.lcd_enable {
                    self.modeclock = 0;
                    self.lcds.ly = 0;
                    self.mode = Mode::HBlank;
                    self.clear_screen();
                }
            },
            // Bits 0, 1 and 2 are read only: they must be written as they read.
            0xff41 => {
                proof {
                    assert((0u8 & 0b111u8) == 0) by (bit_vector);
                }
                if (self.lcds.stat.raw() & 0b111) == (data & 0b111) {
                    self.lcds.stat = STAT::new(data)
                }
            },
            0xff42 => { self.scy = data },
            0xff43 => { self.scx = data },
            0xff45 => { self.lcds.lyc = data },
            0xff47 => { self.bgp = data },
            0xff4a => { self.wy = data },
            0xff4b => { self.wx = data },
            _ => {},
        }
        assert(self@ =~= old(self)@.write(loc, data));
    }

    /// Requests the status interrupt when it is enabled and the line matches.
    fn check_interrupt_lyc(&mut self)
        ensures
            final(self)@ == old(self)@.check_lyc(),
    {
        if self.lcds.stat.lcy_eq_ly_interrupt && self.lcds.ly == self.lcds.lyc {
            self.interrupt |= 0x02;
        }
    }

    /// Advances the unit by `ticks` ticks.
    pub fn do_cycle(&mut self, ticks: u32)
        requires
            old(self).wf(),
            old(self)@.cycle_ok(ticks),
        ensures
            final(self).wf(),
            final(self)@ == old(self)@.cycle(ticks),
    {
        if !self.lcdc.lcd_enable {
            return
        }
        self.hblank = false;

        let mut ticksleft = ticks;

        while ticksleft > 0
            invariant
                self.wf(),
                self@.run_ok(ticksleft),
                self@.run(ticksleft) == old(self)@.cycle(ticks),
            decreases ticksleft,
        {
            let curticks = if ticksleft >= 80 { 80 } else { ticksleft };
            ticksleft -= curticks;
            self.advance(curticks);
            self.settle();
        }
    }

    /// Counts `cur` more ticks, moving to the next line when one is done.
    fn advance(&mut self, cur: u32)
        requires
            old(self).wf(),
            old(self)@.tick_ok(cur),
        ensures
            final(self).wf(),
            final(self)@ == old(self)@.advance(cur),
    {
        self.modeclock += cur;
        // Full line takes 114 ticks
        if self.modeclock >= 456 {
            self.modeclock -= 456;
            self.lcds.ly = (self.lcds.ly + 1) % 154;
            self.check_interrupt_lyc();

            // This is a VBlank line
            if self.lcds.ly >= 144 && self.mode != Mode::VBlank {
                self.change_mode(Mode::VBlank);
            }
        }
    }

    /// Makes the mode follow the position in the line.
    fn settle(&mut self)
        requires
            old(self).wf(),
        ensures
            final(self).wf(),
            final(self)@ == old(self)@.settle(),
    {
        // This is a normal line
        if self.lcds.ly < 144 {
            if self.modeclock <= 80 {
                if self.mode != Mode::OAMSearch {
                    self.change_mode(Mode::OAMSearch);
                }
            } else if self.modeclock <= (80 + 172) {
                // 252 cycles
                if self.mode != Mode::PixelTransfer {
                    self.change_mode(Mode::PixelTransfer);
                }
            } else {
                // the remaining 204
                if self.mode != Mode::HBlank {
                    self.change_mode(Mode::HBlank);
                }
            }
        }
    }

    /// Paints the whole picture white and marks it updated.
    fn clear_screen(&mut self)
        ensures
            final(self)@ == old(self)@.cleared(),
    {
        let n = self.data.len();
        for i in 0..n
            invariant
                n == self.data@.len() == old(self).data@.len(),
                self@ == (PpuOldState { data: self@.data, ..old(self)@ }),
                forall|k: int| 0 <= k < i ==> self.data@[k] == 255,
        {
            self.data.set(i, 255);
        }
        self.updated = true;
        assert(self@ =~= old(self)@.cleared()) by {
            assert(self.data@ =~= old(self)@.cleared().data);
        }
    }

    fn change_mode(&mut self, mode: Mode)
        requires
            old(self).wf(),
        ensures
            final(self).wf(),
            final(self)@ == old(self)@.change_mode(mode),
    {
        self.mode = mode;

        let request = match self.mode {
            Mode::HBlank => {
                self.renderscan();
                self.hblank = true;
                self.lcds.stat.mode0
            },
            Mode::VBlank => {
                // Vertical blank
                self.interrupt |= 0x01;
                self.updated = true;
                self.lcds.stat.mode1
            },
            Mode::OAMSearch => self.lcds.stat.mode2,
            Mode::PixelTransfer => { false },
        };
        if request {
            self.interrupt |= 0x02;
        }
    }

    /// Paints the current line white.
    fn renderscan(&mut self)
        requires
            old(self).wf(),
        ensures
            final(self).wf(),
            final(self)@ == old(self)@.line_white(),
    {
        let ghost s0 = self@;
        for x in 0..SCREEN_WIDTH
            invariant
                self.wf(),
                self@ == (PpuOldState { data: self@.data, ..s0 }),
                s0.wf(),
                forall|i: int| 0 <= i < DATA_SIZE ==> #[trigger] self.data@[i] == if s0.lcds.ly < 144 && s0.lcds.ly * 480 <= i < s0.lcds.ly * 480 + 3 * x {
                    255u8
                } else {
                    s0.data[i]
                },
        {
            self.setcolor(x, 255);
        }
        assert(self@ =~= s0.line_white()) by {
            assert(self.data@ =~= s0.line_white().data);
        }
    }

    /// Sets the bytes of pixel `x` of the current line to `color`.
    fn setcolor(&mut self, x: usize, color: u8)
        requires
            old(self).wf(),
            x < 0x1000,
        ensures
            final(self).wf(),
            final(self)@ == old(self)@.set_color(x as int, color),
    {
        if self.lcds.ly as usize * SCREEN_WIDTH * 3 + x * 3 + 2 >= 69120 {
            return
        }
        self.data.set(self.lcds.ly as usize * SCREEN_WIDTH * 3 + x * 3 + 0, color);
        self.data.set(self.lcds.ly as usize * SCREEN_WIDTH * 3 + x * 3 + 1, color);
        self.data.set(self.lcds.ly as usize * SCREEN_WIDTH * 3 + x * 3 + 2, color);
    }

    /// Draws the background and window on the current line with the
    /// background palette.
    fn draw_bg(&mut self)
        requires
            old(self).wf(),
            0x8000 <= old(self).tilebase <= 0x9000,
        ensures
            final(self).wf(),
            final(self)@ == old(self)@.bg_drawn(),
    {
        let ghost s0 = self@;
        let drawbg = self.lcdc.bg_and_window_display;
        let winy = self.wy;
        let wintiley = (winy as u16 >> 3) & 31;
        let bgy = self.scy.wrapping_add(self.lcds.ly);
        let bgtiley = (bgy as u16 >> 3) & 31;
        proof {
            lemma_tile_rows(winy, bgy);
        }
        for x in 0..SCREEN_WIDTH
            invariant
                self.wf(),
                s0.wf(),
                self@ == (PpuOldState { data: self@.data, ..s0 }),
                0x8000 <= s0.tilebase <= 0x9000,
                drawbg == s0.lcdc.bg_and_window_display,
                winy == s0.wy,
                wintiley == s0.wy / 8,
                bgy == (s0.scy + s0.lcds.ly) % 256,
                bgtiley == bgy / 8,
                forall|i: int| 0 <= i < DATA_SIZE ==> #[trigger] self.data@[i] == if s0.lcds.ly < 144
                    && s0.lcds.ly * 480 <= i < s0.lcds.ly * 480 + 3 * x
                    && s0.bg_colour((i - s0.lcds.ly * 480) / 3) is Some {
                    s0.bg_colour((i - s0.lcds.ly * 480) / 3)->0
                } else {
                    s0.data[i]
                },
        {
            let pixel = self.bg_pixel(x, drawbg, winy, wintiley, bgy, bgtiley);
            if let Some(color) = pixel {
                self.setcolor(x, color);
            }
            assert forall|i: int| 0 <= i < DATA_SIZE implies #[trigger] self.data@[i] == if s0.lcds.ly < 144
                && s0.lcds.ly * 480 <= i < s0.lcds.ly * 480 + 3 * (x + 1)
                && s0.bg_colour((i - s0.lcds.ly * 480) / 3) is Some {
                s0.bg_colour((i - s0.lcds.ly * 480) / 3)->0
            } else {
                s0.data[i]
            } by {
                if s0.lcds.ly * 480 + 3 * x <= i < s0.lcds.ly * 480 + 3 * (x + 1) {
                    assert((i - s0.lcds.ly * 480) / 3 == x);
                }
            }
        }
        assert(self@ =~= s0.bg_drawn()) by {
            assert(self.data@ =~= s0.bg_drawn().data);
        }
    }

    /// The colour that the background drawing gives to column `x` of the
    /// current line, from the window and background rows worked out once
    /// for the line.
    fn bg_pixel(&self, x: usize, drawbg: bool, winy: u8, wintiley: u16, bgy: u8, bgtiley: u16) -> (r: Option<u8>)
        requires
            x < SCREEN_WIDTH,
            0x8000 <= self.tilebase <= 0x9000,
            drawbg == self.lcdc.bg_and_window_display,
            winy == self.wy,
            wintiley == self.wy / 8,
            bgy == (self.scy + self.lcds.ly) % 256,
            bgtiley == bgy / 8,
        ensures
            r == self@.bg_colour(x as int),
    {
        let winx = -((self.wx as i32) - 7) + (x as i32);
        let bgx = self.scx as u32 + x as u32;
        proof {
            lemma_tile_rows(winy, bgy);
            lemma_tile_columns(winx, bgx);
        }
        let source: Option<(u16, u16, u16, u16, u8)> = if winx >= 0 {
            Some((
                if self.lcdc.w_tile_map_area { 0x9c00 } else { 0x9800 },
                wintiley,
                (winx as u16 >> 3),
                winy as u16 & 0x07,
                winx as u8 & 0x07,
            ))
        } else if drawbg {
            Some((
                if self.lcdc.bg_tile_map_area { 0x9c00 } else { 0x9800 },
                bgtiley,
                (bgx as u16 >> 3) & 31,
                bgy as u16 & 0x07,
                bgx as u8 & 0x07,
            ))
        } else {
            None
        };
        assert(source is Some <==> self@.bg_source(x as int) is Some);
        if let Some((tilemapbase, tiley, tilex, pixely, pixelx)) = source {
            let tilenr: u8 = self.rbvram0(tilemapbase + tiley * 32 + tilex);
            proof {
                lemma_signed_tile(tilenr);
            }
            // This drawing takes its tiles from the first bank, unflipped.
            let tileaddress = self.tilebase + (if self.tilebase == 0x8000 {
                tilenr as u16
            } else {
                (tilenr as i8 as i16 + 128) as u16
            }) * 16;
            let a0 = tileaddress + (pixely * 2);
            let b1 = self.rbvram0(a0);
            let b2 = self.rbvram0(a0 + 1);
            let xbit = (7 - pixelx) as u32;
            proof {
                lemma_colour_bits(b1, b2, xbit);
            }
            let colnr: usize = (if b1 & (1 << xbit) != 0 { 1 } else { 0 }) | (if b2 & (1 << xbit) != 0 {
                2
            } else {
                0
            });
            let color = self.palb[colnr];
            Some(color)
        } else {
            None
        }
    }

    /// Loads the three palettes from their registers.
    fn update_pal(&mut self)
        ensures
            final(self)@ == (PpuOldState {
                palb: Seq::new(4, |i: int| monochrome(old(self).palbr, i)),
                pal0: Seq::new(4, |i: int| monochrome(old(self).pal0r, i)),
                pal1: Seq::new(4, |i: int| monochrome(old(self).pal1r, i)),
                ..old(self)@
            }),
    {
        for i in 0..4
            invariant
                self@ == (PpuOldState { palb: self@.palb, pal0: self@.pal0, pal1: self@.pal1, ..old(self)@ }),
                forall|k: int| 0 <= k < i ==> self.palb@[k] == monochrome(old(self).palbr, k),
                forall|k: int| 0 <= k < i ==> self.pal0@[k] == monochrome(old(self).pal0r, k),
                forall|k: int| 0 <= k < i ==> self.pal1@[k] == monochrome(old(self).pal1r, k),
        {
            self.palb[i] = PPU::get_monochrome_pal_val(self.palbr, i);
            self.pal0[i] = PPU::get_monochrome_pal_val(self.pal0r, i);
            self.pal1[i] = PPU::get_monochrome_pal_val(self.pal1r, i);
        }
        assert(self.palb@ =~= Seq::new(4, |i: int| monochrome(old(self).palbr, i)));
        assert(self.pal0@ =~= Seq::new(4, |i: int| monochrome(old(self).pal0r, i)));
        assert(self.pal1@ =~= Seq::new(4, |i: int| monochrome(old(self).pal1r, i)));
    }

    /// The grey level of palette entry `index`.
    fn get_monochrome_pal_val(value: u8, index: usize) -> (r: u8)
        requires
            index < 4,
        ensures
            r == monochrome(value, index as int),
    {
        proof {
            assert((value >> (2 * index)) & 0x03 == (value >> (2 * index) as u8) & 3) by (bit_vector)
                requires index < 4;
        }
        match (value >> 2 * index) & 0x03 {
            0 => 255,
            1 => 192,
            2 => 96,
            _ => 0,
        }
    }

    /// A byte of the first video memory bank, by its address.
    fn rbvram0(&self, a: u16) -> (r: u8)
        requires
            0x8000 <= a < 0xA000,
        ensures
            r == self.vram@[a - 0x8000],
    {
        proof {
            assert(0x8000 <= a < 0xA000 ==> a as usize & 0x1FFF == a - 0x8000) by (bit_vector);
        }
        self.vram[a as usize & 0x1FFF]
    }

    /// A byte of the second video memory bank, by its address.
    fn rbvram1(&self, a: u16) -> (r: u8)
        requires
            0x8000 <= a < 0xA000,
        ensures
            r == self.vram@[a - 0x6000],
    {
        proof {
            assert(0x8000 <= a < 0xA000 ==> a as usize & 0x1FFF == a - 0x8000) by (bit_vector);
        }
        self.vram[0x2000 + (a as usize & 0x1FFF)]
    }

    pub fn in_hblank(&self) -> (r: bool)
        ensures
            r == self.hblank,
    {
        return self.hblank;
    }

    pub fn may_hdma(&self) -> (r: bool)
        ensures
            !r,
    {
        false
    }
}

/// A byte written to video memory, object memory or one of the plain
/// registers (scroll, line compare, palette, window) reads back as written.
pub proof fn law_old_read_after_write(s: PpuOldState, loc: u16, v: u8)
    requires
        s.vram.len() == VRAM_SIZE,
        s.voam.len() == VOAM_SIZE,
        0x8000 <= loc <= 0x97ff || 0xfe00 <= loc <= 0xfe9f || loc == 0xff42 || loc == 0xff43 || loc == 0xff45
            || loc == 0xff47 || loc == 0xff4a || loc == 0xff4b,
    ensures
        s.write_ok(loc, v),
        s.write(loc, v).read(loc) == v,
{
}

/// Counting ticks keeps the line counter on the screen's 154 lines.
proof fn lemma_run_lines(s: PpuOldState, ticks: u32)
    requires
        s.lcds.ly < 154,
    ensures
        s.run(ticks).lcds.ly < 154,
    decreases ticks,
{
    if ticks > 0 {
        let cur: u32 = if ticks >= 80 { 80 } else { ticks };
        lemma_run_lines(s.tick(cur), (ticks - cur) as u32);
    }
}

/// The line counter stays below 154 whatever number of ticks a cycle runs.
pub proof fn law_line_bound(s: PpuOldState, ticks: u32)
    requires
        s.lcds.ly < 154,
    ensures
        s.cycle(ticks).lcds.ly < 154,
{
    lemma_run_lines(PpuOldState { hblank: false, ..s }, ticks);
}

/// Counting ticks keeps the horizontal-blank mark once set and sets it
/// exactly when the horizontal blank is entered.
proof fn lemma_run_hblank(s: PpuOldState, ticks: u32)
    ensures
        s.run(ticks).hblank == (s.hblank || s.run_enters_hblank(ticks)),
    decreases ticks,
{
    if ticks > 0 {
        let cur: u32 = if ticks >= 80 { 80 } else { ticks };
        assert(s.advance(cur).hblank == s.hblank);
        assert(s.tick(cur).hblank == (s.hblank || s.advance(cur).settle_enters_hblank()));
        lemma_run_hblank(s.tick(cur), (ticks - cur) as u32);
    }
}

/// After a cycle with the display on, `in_hblank` reports whether the
/// horizontal blank was entered during that cycle.
pub proof fn law_hblank_mark(s: PpuOldState, ticks: u32)
    requires
        s.lcdc.lcd_enable,
    ensures
        s.cycle(ticks).hblank == (PpuOldState { hblank: false, ..s }).run_enters_hblank(ticks),
{
    lemma_run_hblank(PpuOldState { hblank: false, ..s }, ticks);
}

} // verus!
