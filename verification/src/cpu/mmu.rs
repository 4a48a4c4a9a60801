use vstd::prelude::*;
use crate::ppu::{PPU, PpuState, ppu_addr_ok};
use crate::joypad::Joypad;

verus! {

/// Size of the cartridge memory.
pub const ROM_SIZE: usize = 0x16000;

/// Size of the cartridge RAM.
pub const RAM_SIZE: usize = 0x5000;

/// The kind of transfer to video memory that is under way.
#[derive(PartialEq, Eq, Structural, Clone, Copy)]
pub enum DMAType {
    NoDMA,
    GDMA,
    HDMA,
}

/// The memory map: cartridge memory, work memory, the I/O registers and
/// the units behind them. This map has no timer: the timer registers
/// 0xFF04 to 0xFF07 are plain I/O bytes that read back what was written,
/// and no timer interrupt is ever requested.
pub struct MMU {
    pub rom: Vec<u8>,
    pub ram: Vec<u8>,
    pub io: [u8; 0x80],
    pub hram: [u8; 0x7f],
    pub hdma: [u8; 4],
    pub wram: Vec<u8>,
    pub wram1: Vec<u8>,
    pub ppu: PPU,
    pub joypad: Joypad,
    pub hdma_status: DMAType,
    pub hdma_src: u16,
    pub hdma_dst: u16,
    pub hdma_len: u8,
    pub inte: u8,
    pub intf: u8,
    pub current_bank: u8,
}

/// The mathematical state of an `MMU`.
#[verifier::ext_equal]
pub struct MmuState {
    pub rom: Seq<u8>,
    pub ram: Seq<u8>,
    pub io: Seq<u8>,
    pub hram: Seq<u8>,
    pub hdma: Seq<u8>,
    pub wram: Seq<u8>,
    pub wram1: Seq<u8>,
    pub ppu: PpuState,
    pub joypad: Joypad,
    pub hdma_status: DMAType,
    pub hdma_src: u16,
    pub hdma_dst: u16,
    pub hdma_len: u8,
    pub inte: u8,
    pub intf: u8,
    pub current_bank: u8,
}

impl View for MMU {
    type V = MmuState;

    open spec fn view(&self) -> MmuState {
        MmuState {
            rom: self.rom@,
            ram: self.ram@,
            io: self.io@,
            hram: self.hram@,
            hdma: self.hdma@,
            wram: self.wram@,
            wram1: self.wram1@,
            ppu: self.ppu@,
            joypad: self.joypad,
            hdma_status: self.hdma_status,
            hdma_src: self.hdma_src,
            hdma_dst: self.hdma_dst,
            hdma_len: self.hdma_len,
            inte: self.inte,
            intf: self.intf,
            current_bank: self.current_bank,
        }
    }
}

/// Whether `src` may start a transfer to video memory.
pub open spec fn hdma_source_ok(src: int) -> bool {
    src <= 0x7ff0 || (0xa000 <= src <= 0xdff0)
}

/// Whether the value written to 0xFF46 starts a copy to object memory whose
/// every read is defined in a state whose ROM bank is `bank`.
pub open spec fn oam_source_ok(v: u8, bank: u8) -> bool {
    forall|i: int| 0 <= i < 0xa0 ==> #[trigger] read_ok_at((v as int * 256 + i) as u16, bank)
}

/// Whether a read of `loc` is defined when the ROM bank is `bank`.
pub open spec fn read_ok_at(loc: u16, bank: u8) -> bool {
    if 0x4000 <= loc <= 0x7fff {
        bank <= 3
    } else if 0xe000 <= loc <= 0xfdff {
        false
    } else if 0xff40 <= loc <= 0xff4f {
        ppu_addr_ok(loc)
    } else if loc == 0xff50 || (0xff56 <= loc <= 0xff6b) {
        false
    } else {
        true
    }
}

/// The value that the power-on sequence leaves in I/O byte `i` (address
/// 0xFF00 + i), where it writes one.
pub open spec fn boot_io(i: int) -> Option<u8> {
    if i == 0x05 || i == 0x06 || i == 0x07 || i == 0x17 || i == 0x21 || i == 0x22 {
        Some(0u8)
    } else if i == 0x10 {
        Some(0x80u8)
    } else if i == 0x11 || i == 0x14 || i == 0x19 || i == 0x23 {
        Some(0xbfu8)
    } else if i == 0x12 || i == 0x25 {
        Some(0xf3u8)
    } else if i == 0x16 {
        Some(0x3fu8)
    } else if i == 0x1a {
        Some(0x7fu8)
    } else if i == 0x1b || i == 0x1e || i == 0x20 {
        Some(0xffu8)
    } else if i == 0x1c {
        Some(0x9fu8)
    } else if i == 0x24 {
        Some(0x77u8)
    } else if i == 0x26 {
        Some(0xf1u8)
    } else {
        None
    }
}

/// Addresses that read back what was last written to them.
pub open spec fn plain_addr(loc: u16) -> bool {
    ||| 0x8000 <= loc <= 0xdfff
    ||| 0xfe00 <= loc <= 0xfe9f
    ||| 0xff01 <= loc <= 0xff3f
    ||| 0xff40 <= loc <= 0xff43
    ||| loc == 0xff45
    ||| 0xff47 <= loc <= 0xff4b
    ||| 0xff6c <= loc <= 0xffff
}

impl MmuState {
    /// The lengths of the memories.
    pub open spec fn wf(self) -> bool {
        &&& self.rom.len() == ROM_SIZE
        &&& self.ram.len() == RAM_SIZE
        &&& self.io.len() == 0x80
        &&& self.hram.len() == 0x7f
        &&& self.hdma.len() == 4
        &&& self.wram.len() == ROM_SIZE
        &&& self.wram1.len() == ROM_SIZE
        &&& self.ppu.vram.len() == 0x2000
        &&& self.ppu.oam.len() == 0xa0
        &&& self.ppu.screen.len() == crate::ppu::SCREEN_BYTES
    }

    /// Whether a read of `loc` is defined.
    pub open spec fn read_ok(self, loc: u16) -> bool {
        read_ok_at(loc, self.current_bank)
    }

    /// What a read of `loc` gives.
    #[verifier::opaque]
    pub open spec fn read(self, loc: u16) -> u8 {
        if loc <= 0x3fff {
            self.rom[loc as int]
        } else if loc <= 0x7fff {
            self.rom[self.current_bank as int * 0x4000 + loc - 0x4000]
        } else if loc <= 0x9fff {
            self.ppu.read(loc)
        } else if loc <= 0xbfff {
            self.ram[loc - 0xa000]
        } else if loc <= 0xcfff {
            self.wram[loc - 0xc000]
        } else if loc <= 0xdfff {
            self.wram1[loc - 0xd000]
        } else if 0xfe00 <= loc <= 0xfe9f {
            self.ppu.read(loc)
        } else if 0xfea0 <= loc <= 0xfeff {
            0xff
        } else if loc == 0xff00 {
            self.joypad.value()
        } else if loc == 0xff0f {
            self.intf
        } else if 0xff00 <= loc <= 0xff3f {
            self.io[loc - 0xff00]
        } else if 0xff40 <= loc <= 0xff4f {
            self.ppu.read(loc)
        } else if 0xff51 <= loc <= 0xff54 {
            self.hdma[loc - 0xff51]
        } else if loc == 0xff55 {
            self.hdma_len | (if self.hdma_status == DMAType::NoDMA { 0x80u8 } else { 0u8 })
        } else if 0xff6c <= loc <= 0xff7f {
            self.io[loc - 0xff00]
        } else if 0xff80 <= loc <= 0xfffe {
            self.hram[loc - 0xff80]
        } else {
            self.inte
        }
    }

    /// What a read of the little-endian word at `loc` gives.
    pub open spec fn read_word(self, loc: u16) -> u16 {
        (self.read(loc) as int + self.read((loc + 1) as u16) as int * 256) as u16
    }

    /// Whether the word at `loc` can be read.
    pub open spec fn read_word_ok(self, loc: u16) -> bool {
        &&& loc < 0xffff
        &&& self.read_ok(loc)
        &&& self.read_ok((loc + 1) as u16)
    }

    /// The state after the object memory copy from page `v`: bytes
    /// `0 .. n` of the page are copied in order.
    #[verifier::opaque]
    pub open spec fn oam_copy(self, v: u8, n: int) -> MmuState
        decreases n,
    {
        if n <= 0 {
            self
        } else {
            let m = self.oam_copy(v, n - 1);
            MmuState {
                ppu: m.ppu.write((0xfe00 + n - 1) as u16, m.read((v as int * 256 + n - 1) as u16)),
                ..m
            }
        }
    }

    /// Whether a write to the transfer registers is defined.
    pub open spec fn hdma_write_ok(self, a: u16) -> bool {
        a == 0xff55 && self.hdma_status != DMAType::HDMA ==> hdma_source_ok(
            self.hdma[0] as int * 256 + self.hdma[1] as int,
        )
    }

    /// The state after a write to one of the transfer registers.
    #[verifier::opaque]
    pub open spec fn hdma_write(self, a: u16, v: u8) -> MmuState {
        if a == 0xff51 {
            MmuState { hdma: self.hdma.update(0, v), ..self }
        } else if a == 0xff52 {
            MmuState { hdma: self.hdma.update(1, v & 0xf0), ..self }
        } else if a == 0xff53 {
            MmuState { hdma: self.hdma.update(2, v & 0x1f), ..self }
        } else if a == 0xff54 {
            MmuState { hdma: self.hdma.update(3, v & 0xf0), ..self }
        } else if self.hdma_status == DMAType::HDMA {
            if v & 0x80 == 0 {
                MmuState { hdma_status: DMAType::NoDMA, ..self }
            } else {
                self
            }
        } else {
            MmuState {
                hdma_src: (self.hdma[0] as int * 256 + self.hdma[1] as int) as u16,
                hdma_dst: ((self.hdma[2] as int * 256 + self.hdma[3] as int) as u16) | 0x8000,
                hdma_len: v & 0x7f,
                hdma_status: if v & 0x80 == 0x80 {
                    DMAType::HDMA
                } else {
                    DMAType::GDMA
                },
                ..self
            }
        }
    }

    /// Whether a write of `v` to `loc` is defined.
    pub open spec fn write_ok(self, loc: u16, v: u8) -> bool {
        if 0x4000 <= loc <= 0x5fff {
            false
        } else if loc == 0xff46 {
            oam_source_ok(v, self.current_bank)
        } else if 0xff40 <= loc <= 0xff4f {
            loc == 0xff4d || ppu_addr_ok(loc)
        } else if 0xff51 <= loc <= 0xff55 {
            self.hdma_write_ok(loc)
        } else if 0xff68 <= loc <= 0xff6b {
            false
        } else {
            true
        }
    }

    /// The state after a write of `v` to `loc`.
    #[verifier::opaque]
    pub open spec fn write(self, loc: u16, v: u8) -> MmuState {
        if loc <= 0x1fff {
            self
        } else if loc <= 0x3fff {
            MmuState { current_bank: v & 0x0f, ..self }
        } else if loc <= 0x7fff {
            self
        } else if loc <= 0x9fff {
            MmuState { ppu: self.ppu.write(loc, v), ..self }
        } else if loc <= 0xbfff {
            MmuState { ram: self.ram.update(loc - 0xa000, v), ..self }
        } else if loc <= 0xcfff {
            MmuState { wram: self.wram.update(loc - 0xc000, v), ..self }
        } else if loc <= 0xdfff {
            MmuState { wram1: self.wram1.update(loc - 0xd000, v), ..self }
        } else if 0xfe00 <= loc <= 0xfe9f {
            MmuState { ppu: self.ppu.write(loc, v), ..self }
        } else if loc == 0xff00 {
            MmuState { joypad: self.joypad.after_write(v), ..self }
        } else if loc == 0xff0f {
            MmuState { intf: v, ..self }
        } else if 0xff00 <= loc <= 0xff3f {
            MmuState { io: self.io.update(loc - 0xff00, v), ..self }
        } else if loc == 0xff46 {
            self.oam_copy(v, 0xa0)
        } else if loc == 0xff4d {
            self
        } else if 0xff40 <= loc <= 0xff4f {
            MmuState { ppu: self.ppu.write(loc, v), ..self }
        } else if 0xff51 <= loc <= 0xff55 {
            self.hdma_write(loc, v)
        } else if 0xff6c <= loc <= 0xff7f {
            MmuState { io: self.io.update(loc - 0xff00, v), ..self }
        } else if 0xff80 <= loc <= 0xfffe {
            MmuState { hram: self.hram.update(loc - 0xff80, v), ..self }
        } else if loc == 0xffff {
            MmuState { inte: v, ..self }
        } else {
            self
        }
    }

    /// The state after the first `n` bytes of a transfer row are copied
    /// from `hdma_src` to `hdma_dst` in order.
    #[verifier::opaque]
    pub open spec fn row_copy(self, n: int) -> MmuState
        decreases n,
    {
        if n <= 0 {
            self
        } else {
            let m = self.row_copy(n - 1);
            MmuState {
                ppu: m.ppu.write(
                    (self.hdma_dst + n - 1) as u16,
                    m.read((self.hdma_src + n - 1) as u16),
                ),
                ..m
            }
        }
    }

    /// Whether a transfer row is defined: both addresses advance by 16
    /// without overflow, every source byte can be read and every target is
    /// an address of the picture unit.
    pub open spec fn row_ok(self) -> bool {
        &&& self.hdma_src + 0x10 <= 0xffff
        &&& self.hdma_dst + 0x10 <= 0xffff
        &&& forall|j: int| 0 <= j < 0x10 ==> #[trigger] read_ok_at((self.hdma_src + j) as u16, self.current_bank)
        &&& forall|j: int| 0 <= j < 0x10 ==> #[trigger] ppu_addr_ok((self.hdma_dst + j) as u16)
    }

    /// The state after one transfer row: 16 bytes copied, both addresses
    /// advanced and the remaining length counted down (0 wraps to 0x7F).
    pub open spec fn row(self) -> MmuState {
        let m = self.row_copy(0x10);
        MmuState {
            hdma_src: (self.hdma_src + 0x10) as u16,
            hdma_dst: (self.hdma_dst + 0x10) as u16,
            hdma_len: if self.hdma_len == 0 {
                0x7f
            } else {
                (self.hdma_len - 1) as u8
            },
            ..m
        }
    }

    /// The state after `n` transfer rows.
    pub open spec fn rows(self, n: int) -> MmuState
        decreases n,
    {
        if n <= 0 {
            self
        } else {
            self.rows(n - 1).row()
        }
    }

    /// Whether `n` transfer rows in a row are defined.
    pub open spec fn rows_ok(self, n: int) -> bool
        decreases n,
    {
        n <= 0 || (self.rows_ok(n - 1) && self.rows(n - 1).row_ok())
    }

    /// Whether the pending transfer step is defined.
    pub open spec fn vramdma_ok(self) -> bool {
        match self.hdma_status {
            DMAType::NoDMA => true,
            DMAType::GDMA => self.rows_ok(self.hdma_len + 1),
            DMAType::HDMA => self.row_ok(),
        }
    }

    /// The state and the number of ticks after the pending transfer step: a
    /// general transfer copies all its rows at once, a blank-time transfer
    /// copies one row.
    #[verifier::opaque]
    pub open spec fn vramdma(self) -> (MmuState, u32) {
        match self.hdma_status {
            DMAType::NoDMA => (self, 0),
            DMAType::GDMA => (
                MmuState { hdma_status: DMAType::NoDMA, ..self.rows(self.hdma_len + 1) },
                ((self.hdma_len + 1) * 8) as u32,
            ),
            DMAType::HDMA => {
                let m = self.row();
                (
                    if m.hdma_len == 0x7f {
                        MmuState { hdma_status: DMAType::NoDMA, ..m }
                    } else {
                        m
                    },
                    8,
                )
            },
        }
    }

    /// Whether a step of `ticks` ticks is defined.
    pub open spec fn cycle_ok(self, ticks: u32) -> bool {
        &&& self.vramdma_ok()
        &&& ticks + self.vramdma().1 <= u32::MAX
        &&& self.vramdma().0.ppu.step_ok()
    }

    /// The state and the ticks taken by the video unit after a step: the
    /// pending transfer step, one step of the picture unit, whose requested
    /// interrupts move to the interrupt flags.
    #[verifier::opaque]
    pub open spec fn cycle(self, ticks: u32) -> (MmuState, u32) {
        let (m, vt) = self.vramdma();
        let p = m.ppu.step();
        (MmuState { ppu: PpuState { interrupt: 0, ..p }, intf: m.intf | p.interrupt, ..m }, (ticks + vt) as u32)
    }

    /// The memory map as created, before the power-on values are written.
    pub open spec fn blank() -> MmuState {
        MmuState {
            rom: Seq::new(ROM_SIZE as nat, |i: int| 0u8),
            ram: Seq::new(RAM_SIZE as nat, |i: int| 0u8),
            io: Seq::new(0x80, |i: int| 0u8),
            hram: Seq::new(0x7f, |i: int| 0u8),
            hdma: Seq::new(4, |i: int| 0u8),
            wram: Seq::new(ROM_SIZE as nat, |i: int| 0xffu8),
            wram1: Seq::new(ROM_SIZE as nat, |i: int| 0xffu8),
            ppu: PpuState::initial(),
            joypad: Joypad::initial(),
            hdma_status: DMAType::NoDMA,
            hdma_src: 0,
            hdma_dst: 0,
            hdma_len: 0xff,
            inte: 0,
            intf: 0,
            current_bank: 1,
        }
    }

    /// The state after the power-on register values are written: the
    /// sound registers in I/O memory, and the display registers (control
    /// 0x91, scroll 0, line compare 0, palettes 0xFC, 0xFF and 0xFF,
    /// window 0).
    #[verifier::opaque]
    pub open spec fn boot(self) -> MmuState {
        MmuState {
            io: Seq::new(
                self.io.len(),
                |i: int|
                    match boot_io(i) {
                        Some(v) => v,
                        None => self.io[i],
                    },
            ),
            ppu: PpuState {
                lcdc: 0x91,
                scy: 0,
                scx: 0,
                lyc: 0,
                bgp: 0xfc,
                obp0: 0xff,
                obp1: 0xff,
                wy: 0,
                wx: 0,
                ..self.ppu
            },
            ..self
        }
    }

    /// The state after a cartridge image is loaded: its bytes replace the
    /// start of cartridge memory.
    pub open spec fn loaded(self, data: Seq<u8>) -> MmuState {
        MmuState { rom: data + self.rom.subrange(data.len() as int, ROM_SIZE as int), ..self }
    }

    /// Whether the little-endian word `v` can be written at `loc`.
    pub open spec fn write_word_ok(self, loc: u16, v: u16) -> bool {
        &&& loc < 0xffff
        &&& self.write_ok(loc, (v as int % 256) as u8)
        &&& self.write(loc, (v as int % 256) as u8).write_ok(
            (loc + 1) as u16,
            (v as int / 256) as u8,
        )
    }

    /// The state after the little-endian word `v` is written at `loc`:
    /// low byte first.
    pub open spec fn write_word(self, loc: u16, v: u16) -> MmuState {
        self.write(loc, (v as int % 256) as u8).write((loc + 1) as u16, (v as int / 256) as u8)
    }
}

impl MMU {
    /// The lengths of the memories.
    pub open spec fn wf(&self) -> bool {
        self@.wf()
    }

    /// A copy of the page `value` into object memory.
    fn oamdma(&mut self, value: u8)
        requires
            old(self).wf(),
            oam_source_ok(value, old(self).current_bank),
        ensures
            final(self).wf(),
            final(self)@ == old(self)@.oam_copy(value, 0xa0),
        decreases 1int,
    {
        reveal(MmuState::oam_copy);
        reveal(MmuState::write);
        let base = (value as u16) << 8;
        proof {
            lemma_page_base(value);
        }
        for i in 0..0xA0
            invariant
                base == value as int * 256,
                self.wf(),
                self.current_bank == old(self).current_bank,
                oam_source_ok(value, old(self).current_bank),
                self@ == old(self)@.oam_copy(value, i as int),
        {
            proof {
                reveal(MmuState::oam_copy);
                reveal(MmuState::write);
            }
            assert(read_ok_at((value as int * 256 + i) as u16, self.current_bank));
            let b = self.read_byte(base + i);
            self.write_byte(0xFE00 + i, b);
        }
    }

    pub fn read_byte(&self, loc: u16) -> (r: u8)
        requires
            self.wf(),
            self@.read_ok(loc),
        ensures
            r == self@.read(loc),
    {
        reveal(MmuState::read);
        match loc {
            0x0000..=0x3fff => { self.rom[loc as usize] },
            // Offsets read location using rom bank number
            0x4000..=0x7fff => {
                let offset = loc - 0x4000;
                self.rom[(((self.current_bank as u16) * 0x4000) + offset) as usize]
            },
            0x8000..=0x9FFF => self.ppu.read_byte(loc),
            0xA000..=0xbfff => { self.ram[(loc - 0xA000) as usize] },
            0xc000..=0xcfff => { self.wram[(loc - 0xc000) as usize] },
            0xd000..=0xdfff => { self.wram1[(loc - 0xd000) as usize] },
            0xfe00..=0xfe9f => { self.ppu.read_byte(loc) },
            0xfea0..=0xfeff => { 0xFF },
            0xFF00 => { self.joypad.read() },
            0xFF0F => self.intf,
            0xff00..=0xff3f => { self.io[(loc - 0xff00) as usize] },
            0xFF40..=0xFF4F => self.ppu.read_byte(loc),
            0xFF51..=0xFF55 => self.hdma_read(loc),
            0xff6c..=0xff7f => { self.io[(loc - 0xff00) as usize] },
            0xff80..=0xfffe => { self.hram[(loc as usize - 0xff80) as usize] },
            0xffff => { self.inte },
            _ => {
                proof {
                    assert(false);
                }
                0
            },
        }
    }

    pub fn read_word(&self, loc: u16) -> (r: u16)
        requires
            self.wf(),
            self@.read_word_ok(loc),
        ensures
            r == self@.read_word(loc),
    {
        let lo = self.read_byte(loc);
        let hi = self.read_byte(loc + 1);
        proof {
            lemma_join_bytes(lo, hi);
        }
        (lo as u16) | ((hi as u16) << 8)
    }

    fn hdma_read(&self, a: u16) -> (r: u8)
        requires
            0xff51 <= a <= 0xff55,
        ensures
            r == self@.read(a),
    {
        reveal(MmuState::read);
        match a {
            0xFF51..=0xFF54 => { self.hdma[(a - 0xFF51) as usize] },
            0xFF55 => self.hdma_len | if self.hdma_status == DMAType::NoDMA { 0x80 } else { 0 },
            _ => {
                proof {
                    assert(false);
                }
                0
            },
        }
    }

    fn hdma_write(&mut self, a: u16, v: u8)
        requires
            old(self).wf(),
            0xff51 <= a <= 0xff55,
            old(self)@.hdma_write_ok(a),
        ensures
            final(self).wf(),
            final(self)@ == old(self)@.hdma_write(a, v),
    {
        reveal(MmuState::hdma_write);
        match a {
            0xFF51 => self.hdma[0] = v,
            0xFF52 => self.hdma[1] = v & 0xF0,
            0xFF53 => self.hdma[2] = v & 0x1F,
            0xFF54 => self.hdma[3] = v & 0xF0,
            0xFF55 => {
                if self.hdma_status == DMAType::HDMA {
                    if v & 0x80 == 0 {
                        self.hdma_status = DMAType::NoDMA;
                    };
                    assert(self@ =~= old(self)@.hdma_write(a, v));
                    return ;
                }
                let src = ((self.hdma[0] as u16) << 8) | (self.hdma[1] as u16);
                let dst = ((self.hdma[2] as u16) << 8) | (self.hdma[3] as u16) | 0x8000;
                proof {
                    lemma_join_bytes(self.hdma[1], self.hdma[0]);
                    lemma_join_bytes(self.hdma[3], self.hdma[2]);
                }

                self.hdma_src = src;
                self.hdma_dst = dst;
                self.hdma_len = v & 0x7F;

                self.hdma_status = if v & 0x80 == 0x80 {
                    DMAType::HDMA
                } else {
                    DMAType::GDMA
                };
            },
            _ => {
                proof {
                    assert(false);
                }
            },
        };
        assert(self@ =~= old(self)@.hdma_write(a, v));
    }

    pub fn write_byte(&mut self, loc: u16, data: u8)
        requires
            old(self).wf(),
            old(self)@.write_ok(loc, data),
        ensures
            final(self).wf(),
            final(self)@ == old(self)@.write(loc, data),
        decreases (if loc == 0xff46 { 2int } else { 0int }),
    {
        reveal(MmuState::write);
        match loc {
            0x0000..=0x1fff => {},
            0x2000..=0x3fff => { self.current_bank = (data & 0x0F); },
            0x8000..=0x9FFF => self.ppu.write_byte(loc, data),
            0xA000..=0xbfff => { self.ram.set((loc - 0xA000) as usize, data); },
            0xc000..=0xcfff => { self.wram.set((loc - 0xc000) as usize, data); },
            0xd000..=0xdfff => { self.wram1.set((loc - 0xd000) as usize, data); },
            0xfe00..=0xfe9f => { self.ppu.write_byte(loc, data) },
            0xFF00 => { self.joypad.write(data) },
            0xFF0F => self.intf = data,
            0xff00..=0xff3f => { self.io[(loc - 0xff00) as usize] = data },
            0xff46 => self.oamdma(data),
            0xFF4D => {},
            0xFF40..=0xFF4F => { self.ppu.write_byte(loc, data) },
            0xFF51..=0xFF55 => self.hdma_write(loc, data),
            0xff6c..=0xff7f => { self.io[(loc - 0xff00) as usize] = data },
            0xff80..=0xfffe => { self.hram[(loc as usize - 0xff80) as usize] = data },
            0xffff => { self.inte = data },
            _ => {},
        };
        assert(self@ =~= old(self)@.write(loc, data));
    }

    pub fn write_word(&mut self, loc: u16, data: u16)
        requires
            old(self).wf(),
            old(self)@.write_word_ok(loc, data),
        ensures
            final(self).wf(),
            final(self)@ == old(self)@.write_word(loc, data),
    {
        let data_h = (data >> 8) as u8;
        let data_l = data as u8;
        proof {
            lemma_word_bytes(data);
        }
        self.write_byte(loc, data_l);
        self.write_byte(loc + 1, data_h);
    }
}

/// Whether a read of `loc` is defined when the ROM bank is `bank`.
pub fn read_ok_in(loc: u16, bank: u8) -> (r: bool)
    ensures
        r == read_ok_at(loc, bank),
{
    if 0x4000 <= loc && loc <= 0x7fff {
        bank <= 3
    } else if 0xe000 <= loc && loc <= 0xfdff {
        false
    } else if 0xff40 <= loc && loc <= 0xff4f {
        loc <= 0xff45 || (0xff47 <= loc && loc <= 0xff4b)
    } else if loc == 0xff50 || (0xff56 <= loc && loc <= 0xff6b) {
        false
    } else {
        true
    }
}

impl MMU {
    /// Whether a read of `loc` is defined.
    pub fn read_ok(&self, loc: u16) -> (r: bool)
        ensures
            r == self@.read_ok(loc),
    {
        read_ok_in(loc, self.current_bank)
    }

    /// Whether every read of the copy to object memory from page `v` is
    /// defined.
    fn oam_source_ok(&self, v: u8) -> (r: bool)
        ensures
            r == oam_source_ok(v, self.current_bank),
    {
        let base = (v as u16) * 256;
        for i in 0..0xA0u16
            invariant
                base == v as int * 256,
                forall|k: int| 0 <= k < i ==> #[trigger] read_ok_at((v as int * 256 + k) as u16, self.current_bank),
        {
            if !read_ok_in(base + i, self.current_bank) {
                assert(!read_ok_at((v as int * 256 + i) as u16, self.current_bank));
                return false;
            }
        }
        true
    }

    /// Whether a write of `v` to `loc` is defined.
    pub fn write_ok(&self, loc: u16, v: u8) -> (r: bool)
        requires
            self.wf(),
        ensures
            r == self@.write_ok(loc, v),
    {
        if 0x4000 <= loc && loc <= 0x5fff {
            false
        } else if loc == 0xff46 {
            self.oam_source_ok(v)
        } else if 0xff40 <= loc && loc <= 0xff4f {
            loc == 0xff4d || loc <= 0xff45 || (0xff47 <= loc && loc <= 0xff4b)
        } else if 0xff51 <= loc && loc <= 0xff55 {
            if loc == 0xff55 && self.hdma_status != DMAType::HDMA {
                let src = (self.hdma[0] as u16) * 256 + self.hdma[1] as u16;
                src <= 0x7ff0 || (0xa000 <= src && src <= 0xdff0)
            } else {
                true
            }
        } else if 0xff68 <= loc && loc <= 0xff6b {
            false
        } else {
            true
        }
    }

    /// Whether the little-endian word `v` can be written at `loc`.
    pub fn write_word_ok(&self, loc: u16, v: u16) -> (r: bool)
        requires
            self.wf(),
        ensures
            r == self@.write_word_ok(loc, v),
    {
        if loc == 0xffff {
            return false;
        }
        let hi = (v >> 8) as u8;
        let lo = v as u8;
        proof {
            lemma_word_bytes(v);
            lemma_word_write_ok(self@, loc, lo, hi);
        }
        self.write_ok(loc, lo) && self.write_ok(loc + 1, hi)
    }
}

impl MMU {
    pub fn new() -> (m: MMU)
        ensures
            m.wf(),
            m@ == MmuState::blank().boot(),
    {
        let mut mmu = MMU {
            rom: vec![0; ROM_SIZE],
            ram: vec![0; RAM_SIZE],
            io: [0; 0x80],
            hram: [0; 0x7f],
            hdma: [0; 4],
            wram: vec![0xff; ROM_SIZE],
            wram1: vec![0xff; ROM_SIZE],
            ppu: PPU::new(),
            joypad: Joypad::new(),
            hdma_src: 0,
            hdma_dst: 0,
            hdma_status: DMAType::NoDMA,
            hdma_len: 0xFF,
            inte: 0,
            intf: 0,
            current_bank: 1,
        };
        assert(mmu@ =~= MmuState::blank());
        mmu.set_initial();
        mmu
    }

    /// Writes the register values that the boot program leaves.
    fn set_initial(&mut self)
        requires
            old(self).wf(),
        ensures
            final(self).wf(),
            final(self)@ == old(self)@.boot(),
    {
        let ghost s0 = self@;
        self.write_byte(0xFF05, 0);
        self.write_byte(0xFF06, 0);
        self.write_byte(0xFF07, 0);
        self.write_byte(0xFF10, 0x80);
        self.write_byte(0xFF11, 0xBF);
        self.write_byte(0xFF12, 0xF3);
        self.write_byte(0xFF14, 0xBF);
        self.write_byte(0xFF16, 0x3F);
        self.write_byte(0xFF16, 0x3F);
        self.write_byte(0xFF17, 0);
        self.write_byte(0xFF19, 0xBF);
        self.write_byte(0xFF1A, 0x7F);
        self.write_byte(0xFF1B, 0xFF);
        self.write_byte(0xFF1C, 0x9F);
        self.write_byte(0xFF1E, 0xFF);
        self.write_byte(0xFF20, 0xFF);
        self.write_byte(0xFF21, 0);
        self.write_byte(0xFF22, 0);
        self.write_byte(0xFF23, 0xBF);
        self.write_byte(0xFF24, 0x77);
        self.write_byte(0xFF25, 0xF3);
        self.write_byte(0xFF26, 0xF1);
        self.write_byte(0xFF40, 0x91);
        self.write_byte(0xFF42, 0);
        self.write_byte(0xFF43, 0);
        self.write_byte(0xFF45, 0);
        self.write_byte(0xFF47, 0xFC);
        self.write_byte(0xFF48, 0xFF);
        self.write_byte(0xFF49, 0xFF);
        self.write_byte(0xFF4A, 0);
        self.write_byte(0xFF4B, 0);
        proof {
            lemma_boot(s0);
        }
    }

    /// One step of the transfer, the picture unit and the interrupt flags;
    /// returns the ticks taken by the video unit. Whatever the number of
    /// ticks, the picture unit advances by one step of its mode machine;
    /// no timer is advanced.
    pub fn do_cycle(&mut self, ticks: u32) -> (r: u32)
        requires
            old(self).wf(),
            old(self)@.cycle_ok(ticks),
        ensures
            final(self).wf(),
            (final(self)@, r) == old(self)@.cycle(ticks),
    {
        let vramticks = self.perform_vramdma();
        self.finish_cycle(ticks, vramticks, Ghost(old(self)@))
    }

    /// The step of `do_cycle` where it is defined; `None` where it is not,
    /// with the state as the checks found it: unchanged when the pending
    /// transfer cannot be made, else after the transfer.
    pub fn try_do_cycle(&mut self, ticks: u32) -> (r: Option<u32>)
        requires
            old(self).wf(),
        ensures
            final(self).wf(),
            r is Some <==> old(self)@.cycle_ok(ticks),
            r is Some ==> (final(self)@, r.unwrap()) == old(self)@.cycle(ticks),
            !old(self)@.vramdma_ok() ==> final(self)@ == old(self)@,
            old(self)@.vramdma_ok() && r is None ==> final(self)@ == old(self)@.vramdma().0,
    {
        if !self.vramdma_ok() {
            return None;
        }
        let vramticks = self.perform_vramdma();
        if vramticks > u32::MAX - ticks {
            return None;
        }
        if (self.ppu.stat & 3) < 2 && self.ppu.ly == 255 {
            return None;
        }
        Some(self.finish_cycle(ticks, vramticks, Ghost(old(self)@)))
    }

    /// The picture unit's step after the transfer step of a cycle, with its
    /// interrupts moved to the interrupt flags.
    fn finish_cycle(&mut self, ticks: u32, vramticks: u32, Ghost(m0): Ghost<MmuState>) -> (r: u32)
        requires
            old(self).wf(),
            m0.cycle_ok(ticks),
            (old(self)@, vramticks) == m0.vramdma(),
        ensures
            final(self).wf(),
            (final(self)@, r) == m0.cycle(ticks),
    {
        reveal(MmuState::cycle);
        let cpudivider: u32 = 1;
        let gputicks = ticks / cpudivider + vramticks;

        self.ppu.execute(gputicks as u8);
        self.intf |= self.ppu.interrupt;
        self.ppu.interrupt = 0;

        assert(self@ =~= m0.cycle(ticks).0);
        return gputicks;
    }

    /// Whether a transfer row from `src` to `dst` is defined.
    fn row_ok_at(&self, src: u16, dst: u16) -> (r: bool)
        ensures
            r == (src + 0x10 <= 0xffff && dst + 0x10 <= 0xffff
                && (forall|j: int| 0 <= j < 0x10 ==> #[trigger] read_ok_at((src + j) as u16, self.current_bank))
                && (forall|j: int| 0 <= j < 0x10 ==> #[trigger] ppu_addr_ok((dst + j) as u16))),
    {
        if src > 0xffef || dst > 0xffef {
            return false;
        }
        for j in 0..0x10u16
            invariant
                src + 0x10 <= 0xffff,
                dst + 0x10 <= 0xffff,
                forall|k: int| 0 <= k < j ==> #[trigger] read_ok_at((src + k) as u16, self.current_bank),
                forall|k: int| 0 <= k < j ==> #[trigger] ppu_addr_ok((dst + k) as u16),
        {
            if !read_ok_in(src + j, self.current_bank) {
                assert(!read_ok_at((src + j) as u16, self.current_bank));
                return false;
            }
            let d = dst + j;
            if !((0x8000 <= d && d <= 0x9fff) || (0xfe00 <= d && d <= 0xfe9f) || (0xff40 <= d && d <= 0xff45)
                || (0xff47 <= d && d <= 0xff4b)) {
                assert(!ppu_addr_ok((dst + j) as u16));
                return false;
            }
        }
        true
    }

    /// Whether the pending transfer step is defined.
    pub fn vramdma_ok(&self) -> (r: bool)
        requires
            self.wf(),
        ensures
            r == self@.vramdma_ok(),
    {
        match self.hdma_status {
            DMAType::NoDMA => true,
            DMAType::HDMA => {
                let r = self.row_ok_at(self.hdma_src, self.hdma_dst);
                assert(self@.hdma_src == self.hdma_src);
                assert(self@.current_bank == self.current_bank);
                assert(r ==> self@.row_ok());
                assert(self@.row_ok() ==> r);
                r
            },
            DMAType::GDMA => {
                let n: u32 = self.hdma_len as u32 + 1;
                let mut src: u32 = self.hdma_src as u32;
                let mut dst: u32 = self.hdma_dst as u32;
                let mut k: u32 = 0;
                while k < n
                    invariant
                        k <= n,
                        self.hdma_status == DMAType::GDMA,
                        n == self.hdma_len + 1,
                        self@.rows_ok(k as int),
                        src == self.hdma_src + 16 * k,
                        dst == self.hdma_dst + 16 * k,
                    decreases n - k,
                {
                    proof {
                        lemma_rows_fields(self@, k as int);
                    }
                    if src > 0xffef || dst > 0xffef || !self.row_ok_at(src as u16, dst as u16) {
                        assert(!self@.rows(k as int).row_ok());
                        proof {
                            if self@.rows_ok(n as int) {
                                lemma_rows_ok_prefix(self@, k as int, n as int);
                            }
                        }
                        return false;
                    }
                    assert(self@.rows_ok(k + 1));
                    src = src + 16;
                    dst = dst + 16;
                    k = k + 1;
                }
                assert(self@.rows_ok(n as int));
                true
            },
        }
    }

    /// Copies a cartridge image to the start of cartridge memory.
    pub fn load(&mut self, data: &[u8])
        requires
            old(self).wf(),
            0x149 < data@.len() <= ROM_SIZE,
        ensures
            final(self).wf(),
            final(self)@ == old(self)@.loaded(data@),
    {
        let n = data.len();
        for i in 0..n
            invariant
                n == data@.len() <= ROM_SIZE,
                self.wf(),
                self@ == (MmuState { rom: self@.rom, ..old(self)@ }),
                forall|k: int| 0 <= k < i ==> self.rom@[k] == data@[k],
                forall|k: int| i <= k < ROM_SIZE ==> self.rom@[k] == old(self).rom@[k],
        {
            self.rom.set(i, data[i]);
        }
        assert(self.rom@ =~= data@ + old(self).rom@.subrange(n as int, ROM_SIZE as int));
        assert(self@ =~= old(self)@.loaded(data@));
    }

    /// One step of the pending transfer to video memory; returns its ticks.
    pub fn perform_vramdma(&mut self) -> (r: u32)
        requires
            old(self).wf(),
            old(self)@.vramdma_ok(),
        ensures
            final(self).wf(),
            (final(self)@, r) == old(self)@.vramdma(),
    {
        reveal(MmuState::vramdma);
        match self.hdma_status {
            DMAType::NoDMA => 0,
            DMAType::GDMA => self.perform_gdma(),
            DMAType::HDMA => self.perform_hdma(),
        }
    }

    fn perform_hdma(&mut self) -> (r: u32)
        requires
            old(self).wf(),
            old(self).hdma_status == DMAType::HDMA,
            old(self)@.row_ok(),
        ensures
            final(self).wf(),
            (final(self)@, r) == old(self)@.vramdma(),
    {
        reveal(MmuState::vramdma);
        self.perform_vramdma_row();
        if self.hdma_len == 0x7F {
            self.hdma_status = DMAType::NoDMA;
        }
        assert(self@ =~= old(self)@.vramdma().0);
        return 8;
    }

    fn perform_gdma(&mut self) -> (r: u32)
        requires
            old(self).wf(),
            old(self).hdma_status == DMAType::GDMA,
            old(self)@.rows_ok(old(self).hdma_len + 1),
        ensures
            final(self).wf(),
            (final(self)@, r) == old(self)@.vramdma(),
    {
        reveal(MmuState::vramdma);
        let len = self.hdma_len as u32 + 1;
        for _i in 0..len
            invariant
                len == old(self).hdma_len + 1,
                self.wf(),
                old(self)@.rows_ok(len as int),
                self@ == old(self)@.rows(_i as int),
        {
            proof {
                lemma_rows_ok_prefix(old(self)@, _i as int, len as int);
            }
            self.perform_vramdma_row();
        }

        self.hdma_status = DMAType::NoDMA;
        assert(self@ =~= old(self)@.vramdma().0);
        return len * 8;
    }

    fn perform_vramdma_row(&mut self)
        requires
            old(self).wf(),
            old(self)@.row_ok(),
        ensures
            final(self).wf(),
            final(self)@ == old(self)@.row(),
    {
        reveal(MmuState::row_copy);
        let mmu_src = self.hdma_src;
        for j in 0..0x10
            invariant
                mmu_src == old(self).hdma_src,
                self.wf(),
                old(self)@.row_ok(),
                self@ == old(self)@.row_copy(j as int),
        {
            let ghost m = self@;
            proof {
                reveal(MmuState::row_copy);
            }
            assert(read_ok_at((old(self)@.hdma_src + j) as u16, old(self)@.current_bank));
            assert(ppu_addr_ok((old(self)@.hdma_dst + j) as u16));
            proof {
                lemma_row_copy_keeps(old(self)@, j as int);
            }
            let b: u8 = self.read_byte(mmu_src + j);
            self.ppu.write_byte(self.hdma_dst + j, b);
            proof {
                lemma_row_copy_keeps(old(self)@, j as int);
            }
        }
        proof {
            lemma_row_copy_keeps(old(self)@, 0x10);
        }
        self.hdma_src += 0x10;
        self.hdma_dst += 0x10;

        if self.hdma_len == 0 {
            self.hdma_len = 0x7F;
        } else {
            self.hdma_len -= 1;
        }
        assert(self@ =~= old(self)@.row());
    }
}

/// Two memory maps that differ at most in object memory read alike at
/// every address outside object memory, and inside it wherever their
/// object memories agree.
proof fn lemma_read_outside_oam(m: MmuState, n: MmuState, loc: u16)
    requires
        n == (MmuState { ppu: PpuState { oam: n.ppu.oam, ..m.ppu }, ..m }),
        !(0xfe00 <= loc <= 0xfe9f) || n.ppu.oam[loc - 0xfe00] == m.ppu.oam[loc - 0xfe00],
    ensures
        n.read(loc) == m.read(loc),
{
    reveal(MmuState::read);
    reveal(PpuState::read);
}

/// The first `k` bytes of the copy from page `v` hold the bytes of the page
/// as they were before the copy, the rest of object memory is untouched,
/// and nothing else changes.
proof fn lemma_oam_copy_content(m: MmuState, v: u8, k: int)
    requires
        m.wf(),
        0 <= k <= 0xa0,
    ensures
        m.oam_copy(v, k) == (MmuState { ppu: PpuState { oam: m.oam_copy(v, k).ppu.oam, ..m.ppu }, ..m }),
        m.oam_copy(v, k).ppu.oam.len() == 0xa0,
        forall|j: int| 0 <= j < k ==> #[trigger] m.oam_copy(v, k).ppu.oam[j] == m.read((v as int * 256 + j) as u16),
        forall|j: int| k <= j < 0xa0 ==> #[trigger] m.oam_copy(v, k).ppu.oam[j] == m.ppu.oam[j],
    decreases k,
{
    reveal(MmuState::oam_copy);
    if k > 0 {
        lemma_oam_copy_content(m, v, k - 1);
        let prev = m.oam_copy(v, k - 1);
        let src = (v as int * 256 + k - 1) as u16;
        lemma_read_outside_oam(m, prev, src);
        reveal(PpuState::write);
        let next = m.oam_copy(v, k);
        assert(next.ppu == prev.ppu.write((0xfe00 + k - 1) as u16, prev.read(src)));
        assert(next.ppu.oam == prev.ppu.oam.update(k - 1, m.read(src)));
        assert(next == (MmuState { ppu: PpuState { oam: next.ppu.oam, ..m.ppu }, ..m }));
    }
}

/// A write of `v` to 0xFF46 copies the 0xA0 bytes of page `v`, as they
/// were before the write, to object memory 0xFE00 to 0xFE9F in order,
/// and every address outside object memory reads as before.
pub proof fn law_oam_dma(m: MmuState, v: u8, loc: u16)
    requires
        m.wf(),
    ensures
        0xfe00 <= loc <= 0xfe9f ==> m.write(0xff46, v).read(loc) == m.read((v as int * 256 + loc - 0xfe00) as u16),
        !(0xfe00 <= loc <= 0xfe9f) ==> m.write(0xff46, v).read(loc) == m.read(loc),
{
    reveal(MmuState::write);
    lemma_oam_copy_content(m, v, 0xa0);
    let w = m.oam_copy(v, 0xa0);
    assert(m.write(0xff46, v) == w);
    if 0xfe00 <= loc <= 0xfe9f {
        reveal(MmuState::read);
        reveal(PpuState::read);
        assert(w.ppu.oam[loc - 0xfe00] == m.read((v as int * 256 + loc - 0xfe00) as u16));
    } else {
        lemma_read_outside_oam(m, w, loc);
    }
}

/// Whether `n` bytes from `src` lie in cartridge memory or in the memories
/// from 0xA000 to 0xDFFF, where the transfers to video memory may read.
pub open spec fn transfer_source(src: int, n: int) -> bool {
    src + n <= 0x8000 || (0xa000 <= src && src + n <= 0xe000)
}

/// Two memory maps that differ at most in video memory and the transfer
/// registers read alike at a transfer source.
proof fn lemma_read_outside_vram(m: MmuState, n: MmuState, loc: u16)
    requires
        n.rom == m.rom && n.ram == m.ram && n.wram == m.wram && n.wram1 == m.wram1,
        n.current_bank == m.current_bank,
        transfer_source(loc as int, 1),
    ensures
        n.read(loc) == m.read(loc),
{
    reveal(MmuState::read);
}

/// The first `k` bytes of a transfer row land in video memory in order,
/// from the source as it was before the row; nothing else changes.
proof fn lemma_row_copy_content(m: MmuState, k: int)
    requires
        m.wf(),
        0 <= k <= 0x10,
        0x8000 <= m.hdma_dst,
        m.hdma_dst + 0x10 <= 0xa000,
        transfer_source(m.hdma_src as int, 0x10),
    ensures
        m.row_copy(k) == (MmuState { ppu: PpuState { vram: m.row_copy(k).ppu.vram, ..m.ppu }, ..m }),
        m.row_copy(k).ppu.vram.len() == 0x2000,
        forall|j: int| 0 <= j < k ==> #[trigger] m.row_copy(k).ppu.vram[m.hdma_dst - 0x8000 + j] == m.read(
            (m.hdma_src + j) as u16,
        ),
        forall|i: int| 0 <= i < 0x2000 && !(m.hdma_dst - 0x8000 <= i < m.hdma_dst - 0x8000 + k)
            ==> #[trigger] m.row_copy(k).ppu.vram[i] == m.ppu.vram[i],
    decreases k,
{
    reveal(MmuState::row_copy);
    if k > 0 {
        lemma_row_copy_content(m, k - 1);
        let prev = m.row_copy(k - 1);
        let src = (m.hdma_src + k - 1) as u16;
        lemma_read_outside_vram(m, prev, src);
        reveal(PpuState::write);
        let next = m.row_copy(k);
        assert(next.ppu == prev.ppu.write((m.hdma_dst + k - 1) as u16, prev.read(src)));
        assert(next.ppu.vram == prev.ppu.vram.update(m.hdma_dst - 0x8000 + k - 1, m.read(src)));
        assert(next == (MmuState { ppu: PpuState { vram: next.ppu.vram, ..m.ppu }, ..m }));
    }
}

/// After `n` transfer rows the first `16 n` bytes from the source, as it
/// was before the transfer, are in video memory in order from the
/// destination; the cartridge and work memories and the bank are kept.
proof fn lemma_rows_content(m: MmuState, n: int)
    requires
        m.wf(),
        0 <= n,
        0x8000 <= m.hdma_dst,
        m.hdma_dst + 0x10 * n <= 0xa000,
        transfer_source(m.hdma_src as int, 0x10 * n),
    ensures
        m.rows(n).wf(),
        m.rows(n).rom == m.rom && m.rows(n).ram == m.ram && m.rows(n).wram == m.wram,
        m.rows(n).wram1 == m.wram1 && m.rows(n).current_bank == m.current_bank,
        m.rows(n).hdma_src == m.hdma_src + 0x10 * n,
        m.rows(n).hdma_dst == m.hdma_dst + 0x10 * n,
        forall|j: int| 0 <= j < 0x10 * n ==> #[trigger] m.rows(n).ppu.vram[m.hdma_dst - 0x8000 + j] == m.read(
            (m.hdma_src + j) as u16,
        ),
    decreases n,
{
    if n > 0 {
        lemma_rows_content(m, n - 1);
        let p = m.rows(n - 1);
        lemma_row_copy_content(p, 0x10);
        let q = p.row_copy(0x10);
        assert forall|j: int| 0 <= j < 0x10 * n implies #[trigger] m.rows(n).ppu.vram[m.hdma_dst - 0x8000 + j]
            == m.read((m.hdma_src + j) as u16) by {
            if j < 0x10 * (n - 1) {
                assert(q.ppu.vram[m.hdma_dst - 0x8000 + j] == p.ppu.vram[m.hdma_dst - 0x8000 + j]);
            } else {
                let jj = j - 0x10 * (n - 1);
                assert(q.ppu.vram[p.hdma_dst - 0x8000 + jj] == p.read((p.hdma_src + jj) as u16));
                lemma_read_outside_vram(m, p, (m.hdma_src + j) as u16);
            }
        }
    }
}

/// A transfer step to video memory copies its bytes in order: a general
/// transfer of length byte `L` copies `16 (L + 1)` bytes, a blank-time
/// transfer 16, each from the source as it was before, to video memory
/// from the destination on.
pub proof fn law_vram_transfer(m: MmuState, j: int)
    requires
        m.wf(),
        m.hdma_status != DMAType::NoDMA,
        0x8000 <= m.hdma_dst,
        m.hdma_dst + 0x10 * (if m.hdma_status == DMAType::GDMA { m.hdma_len + 1 } else { 1 }) <= 0xa000,
        transfer_source(
            m.hdma_src as int,
            0x10 * (if m.hdma_status == DMAType::GDMA { m.hdma_len + 1 } else { 1 }),
        ),
        0 <= j < 0x10 * (if m.hdma_status == DMAType::GDMA { m.hdma_len + 1 } else { 1 }),
    ensures
        m.vramdma().0.read((m.hdma_dst + j) as u16) == m.read((m.hdma_src + j) as u16),
{
    reveal(MmuState::vramdma);
    reveal(MmuState::read);
    reveal(PpuState::read);
    let n: int = if m.hdma_status == DMAType::GDMA { m.hdma_len + 1 } else { 1 };
    lemma_rows_content(m, n);
    let loc = (m.hdma_dst + j) as u16;
    assert(loc - 0x8000 == m.hdma_dst - 0x8000 + j);
    if m.hdma_status == DMAType::GDMA {
        assert(m.vramdma().0.ppu == m.rows(n).ppu);
    } else {
        assert(m.rows(1) == m.rows(0).row());
        assert(m.rows(0) == m);
        assert(m.vramdma().0.ppu == m.rows(1).ppu);
    }
    assert(m.vramdma().0.read(loc) == m.vramdma().0.ppu.vram[loc - 0x8000]);
}

/// The object-memory copy changes the picture unit alone.
proof fn lemma_oam_copy_keeps(m: MmuState, v: u8, n: int)
    ensures
        m.oam_copy(v, n) == (MmuState { ppu: m.oam_copy(v, n).ppu, ..m }),
    decreases n,
{
    reveal(MmuState::oam_copy);
    if n > 0 {
        lemma_oam_copy_keeps(m, v, n - 1);
    }
}

/// What a write leaves of the bank register, the first two transfer
/// registers and the transfer state, on which the definedness of a later
/// write depends.
pub proof fn lemma_write_keeps_control(m: MmuState, loc: u16, v: u8)
    requires
        m.hdma.len() == 4,
    ensures
        m.write(loc, v).current_bank == (if 0x2000 <= loc <= 0x3fff { v & 0x0f } else { m.current_bank }),
        loc != 0xff51 ==> m.write(loc, v).hdma[0] == m.hdma[0],
        loc != 0xff52 ==> m.write(loc, v).hdma[1] == m.hdma[1],
        loc != 0xff55 ==> m.write(loc, v).hdma_status == m.hdma_status,
        m.write(loc, v).hdma.len() == m.hdma.len(),
{
    reveal(MmuState::write);
    reveal(MmuState::hdma_write);
    lemma_oam_copy_keeps(m, v, 0xa0);
}

/// The second byte of a word can be written exactly when it could be
/// written before the first.
pub proof fn lemma_word_write_ok(m: MmuState, loc: u16, lo: u8, hi: u8)
    requires
        m.hdma.len() == 4,
        loc < 0xffff,
    ensures
        m.write(loc, lo).write_ok((loc + 1) as u16, hi) == m.write_ok((loc + 1) as u16, hi),
{
    lemma_write_keeps_control(m, loc, lo);
}

/// Every read and every write of an address that holds what it is given is
/// defined, and such a write keeps the memories at their lengths.
pub proof fn lemma_plain_access(m: MmuState, loc: u16, v: u8)
    requires
        m.wf(),
        plain_addr(loc),
    ensures
        m.read_ok(loc),
        m.write_ok(loc, v),
        m.write(loc, v).wf(),
        m.write(loc, v).current_bank == m.current_bank,
{
    reveal(MmuState::write);
    reveal(PpuState::write);
}

/// A byte written to an address that holds what it is given reads back as
/// the byte written.
pub proof fn law_read_after_write(m: MmuState, loc: u16, v: u8)
    requires
        m.wf(),
        plain_addr(loc),
    ensures
        m.write(loc, v).read(loc) == v,
{
    reveal(MmuState::write);
    reveal(MmuState::read);
    reveal(PpuState::write);
    reveal(PpuState::read);
    let w = m.write(loc, v);
    if 0x8000 <= loc <= 0x9fff || 0xfe00 <= loc <= 0xfe9f || 0xff40 <= loc <= 0xff4f {
        assert(w.ppu == m.ppu.write(loc, v));
    } else if 0xa000 <= loc <= 0xdfff {
    } else if loc == 0xff0f {
    } else if loc <= 0xff3f {
        assert(w.io == m.io.update(loc - 0xff00, v));
    } else if loc <= 0xff7f {
        assert(w.io == m.io.update(loc - 0xff00, v));
    } else if loc <= 0xfffe {
        assert(w.hram == m.hram.update(loc - 0xff80, v));
    }
}

/// A write to one such address leaves what every other one reads as it was.
pub proof fn law_write_keeps_others(m: MmuState, loc: u16, other: u16, v: u8)
    requires
        m.wf(),
        plain_addr(loc),
        plain_addr(other),
        loc != other,
    ensures
        m.write(loc, v).read(other) == m.read(other),
{
    reveal(MmuState::write);
    reveal(PpuState::write);
    let w = m.write(loc, v);
    assert(w.current_bank == m.current_bank && w.rom == m.rom && w.joypad == m.joypad);
    if 0x8000 <= loc <= 0x9fff || 0xfe00 <= loc <= 0xfe9f || 0xff40 <= loc <= 0xff4f {
        assert(w == MmuState { ppu: m.ppu.write(loc, v), ..m });
        reveal(PpuState::read);
    } else if 0xa000 <= loc <= 0xbfff {
        assert(w == MmuState { ram: m.ram.update(loc - 0xa000, v), ..m });
    } else if 0xc000 <= loc <= 0xcfff {
        assert(w == MmuState { wram: m.wram.update(loc - 0xc000, v), ..m });
    } else if 0xd000 <= loc <= 0xdfff {
        assert(w == MmuState { wram1: m.wram1.update(loc - 0xd000, v), ..m });
    } else if loc == 0xff0f {
        assert(w == MmuState { intf: v, ..m });
    } else if loc <= 0xff7f {
        assert(w == MmuState { io: m.io.update(loc - 0xff00, v), ..m });
    } else if loc <= 0xfffe {
        assert(w == MmuState { hram: m.hram.update(loc - 0xff80, v), ..m });
    } else {
        assert(w == MmuState { inte: v, ..m });
    }
    reveal(MmuState::read);
}

/// A write to 0x2000..0x3FFF chooses, by its low four bits, the part of
/// the cartridge that 0x4000..0x7FFF shows; the cartridge itself is not
/// written.
pub proof fn law_bank_switch(m: MmuState, loc: u16, v: u8, addr: u16)
    requires
        0x2000 <= loc <= 0x3fff,
        0x4000 <= addr <= 0x7fff,
    ensures
        m.write(loc, v).rom == m.rom,
        m.write(loc, v).read(addr) == m.rom[(v & 0x0f) as int * 0x4000 + addr - 0x4000],
{
    reveal(MmuState::write);
    reveal(MmuState::read);
}

/// A write to an address that holds what it is given leaves what every
/// other readable address reads as it was, and keeps it readable.
pub proof fn law_write_keeps_readable(m: MmuState, loc: u16, other: u16, v: u8)
    requires
        m.wf(),
        plain_addr(loc),
        m.read_ok(other),
        loc != other,
    ensures
        m.write(loc, v).read_ok(other),
        m.write(loc, v).read(other) == m.read(other),
{
    reveal(MmuState::write);
    reveal(PpuState::write);
    let w = m.write(loc, v);
    assert(w.current_bank == m.current_bank && w.rom == m.rom && w.joypad == m.joypad);
    if 0x8000 <= loc <= 0x9fff || 0xfe00 <= loc <= 0xfe9f || 0xff40 <= loc <= 0xff4f {
        assert(w == MmuState { ppu: m.ppu.write(loc, v), ..m });
        reveal(PpuState::read);
    } else if 0xa000 <= loc <= 0xbfff {
        assert(w == MmuState { ram: m.ram.update(loc - 0xa000, v), ..m });
    } else if 0xc000 <= loc <= 0xcfff {
        assert(w == MmuState { wram: m.wram.update(loc - 0xc000, v), ..m });
    } else if 0xd000 <= loc <= 0xdfff {
        assert(w == MmuState { wram1: m.wram1.update(loc - 0xd000, v), ..m });
    } else if loc == 0xff0f {
        assert(w == MmuState { intf: v, ..m });
    } else if loc <= 0xff7f {
        assert(w == MmuState { io: m.io.update(loc - 0xff00, v), ..m });
    } else if loc <= 0xfffe {
        assert(w == MmuState { hram: m.hram.update(loc - 0xff80, v), ..m });
    } else {
        assert(w == MmuState { inte: v, ..m });
    }
    reveal(MmuState::read);
}

/// A word written where both of its bytes are held reads back as the word
/// written.
pub proof fn law_word_roundtrip(m: MmuState, loc: u16, v: u16)
    requires
        m.wf(),
        loc < 0xffff,
        plain_addr(loc),
        plain_addr((loc + 1) as u16),
    ensures
        m.write_word_ok(loc, v),
        m.write_word(loc, v).read_word_ok(loc),
        m.write_word(loc, v).read_word(loc) == v,
{
    let lo = (v as int % 256) as u8;
    let hi = (v as int / 256) as u8;
    let m1 = m.write(loc, lo);
    let next = (loc + 1) as u16;
    lemma_plain_access(m, loc, lo);
    lemma_plain_access(m1, next, hi);
    let m2 = m1.write(next, hi);
    lemma_plain_access(m2, loc, 0);
    lemma_plain_access(m2, next, 0);
    law_read_after_write(m, loc, lo);
    law_write_keeps_others(m1, next, loc, hi);
    law_read_after_write(m1, next, hi);
}

/// The power-on writes, one after the other, leave the values that `boot`
/// states.
proof fn lemma_boot(m: MmuState)
    requires
        m.wf(),
    ensures
        m
            .write(0xFF05, 0)
            .write(0xFF06, 0)
            .write(0xFF07, 0)
            .write(0xFF10, 0x80)
            .write(0xFF11, 0xBF)
            .write(0xFF12, 0xF3)
            .write(0xFF14, 0xBF)
            .write(0xFF16, 0x3F)
            .write(0xFF16, 0x3F)
            .write(0xFF17, 0)
            .write(0xFF19, 0xBF)
            .write(0xFF1A, 0x7F)
            .write(0xFF1B, 0xFF)
            .write(0xFF1C, 0x9F)
            .write(0xFF1E, 0xFF)
            .write(0xFF20, 0xFF)
            .write(0xFF21, 0)
            .write(0xFF22, 0)
            .write(0xFF23, 0xBF)
            .write(0xFF24, 0x77)
            .write(0xFF25, 0xF3)
            .write(0xFF26, 0xF1)
            .write(0xFF40, 0x91)
            .write(0xFF42, 0)
            .write(0xFF43, 0)
            .write(0xFF45, 0)
            .write(0xFF47, 0xFC)
            .write(0xFF48, 0xFF)
            .write(0xFF49, 0xFF)
            .write(0xFF4A, 0)
            .write(0xFF4B, 0) == m.boot(),
{
    reveal(MmuState::write);
    reveal(PpuState::write);
    reveal(MmuState::boot);
    let w = m
        .write(0xFF05, 0)
        .write(0xFF06, 0)
        .write(0xFF07, 0)
        .write(0xFF10, 0x80)
        .write(0xFF11, 0xBF)
        .write(0xFF12, 0xF3)
        .write(0xFF14, 0xBF)
        .write(0xFF16, 0x3F)
        .write(0xFF16, 0x3F)
        .write(0xFF17, 0)
        .write(0xFF19, 0xBF)
        .write(0xFF1A, 0x7F)
        .write(0xFF1B, 0xFF)
        .write(0xFF1C, 0x9F)
        .write(0xFF1E, 0xFF)
        .write(0xFF20, 0xFF)
        .write(0xFF21, 0)
        .write(0xFF22, 0)
        .write(0xFF23, 0xBF)
        .write(0xFF24, 0x77)
        .write(0xFF25, 0xF3)
        .write(0xFF26, 0xF1)
        .write(0xFF40, 0x91)
        .write(0xFF42, 0)
        .write(0xFF43, 0)
        .write(0xFF45, 0)
        .write(0xFF47, 0xFC)
        .write(0xFF48, 0xFF)
        .write(0xFF49, 0xFF)
        .write(0xFF4A, 0)
        .write(0xFF4B, 0);
    assert(w.io =~= m.boot().io);
    assert(w =~= m.boot());
}

proof fn lemma_row_copy_keeps(m: MmuState, n: int)
    ensures
        m.row_copy(n).current_bank == m.current_bank,
        m.row_copy(n).hdma_src == m.hdma_src,
        m.row_copy(n).hdma_dst == m.hdma_dst,
        m.row_copy(n).hdma_len == m.hdma_len,
        m.row_copy(n).hdma_status == m.hdma_status,
    decreases n,
{
    reveal(MmuState::row_copy);
    if n > 0 {
        lemma_row_copy_keeps(m, n - 1);
    }
}

/// The addresses and bank after `k` transfer rows that are all defined.
proof fn lemma_rows_fields(m: MmuState, k: int)
    requires
        0 <= k,
        m.rows_ok(k),
    ensures
        m.rows(k).hdma_src == m.hdma_src + 16 * k,
        m.rows(k).hdma_dst == m.hdma_dst + 16 * k,
        m.rows(k).current_bank == m.current_bank,
    decreases k,
{
    if k > 0 {
        lemma_rows_fields(m, k - 1);
        lemma_row_copy_keeps(m.rows(k - 1), 0x10);
    }
}

proof fn lemma_rows_ok_prefix(m: MmuState, k: int, n: int)
    requires
        0 <= k < n,
        m.rows_ok(n),
    ensures
        m.rows(k).row_ok(),
    decreases n,
{
    if k < n - 1 {
        lemma_rows_ok_prefix(m, k, n - 1);
    }
}

proof fn lemma_page_base(v: u8)
    ensures
        (v as u16) << 8 == v as int * 256,
{
    assert((v as u16) << 8 == (v as u16) * 256) by (bit_vector);
}

proof fn lemma_join_bytes(lo: u8, hi: u8)
    ensures
        ((lo as u16) | ((hi as u16) << 8)) == lo as int + hi as int * 256,
        (((hi as u16) << 8) | (lo as u16)) == lo as int + hi as int * 256,
{
    assert(((lo as u16) | ((hi as u16) << 8)) == (lo as u16) + (hi as u16) * 256
        && (((hi as u16) << 8) | (lo as u16)) == (lo as u16) + (hi as u16) * 256) by (bit_vector);
}

pub proof fn lemma_word_bytes(v: u16)
    ensures
        ((v >> 8) as u8) == (v as int / 256) as u8,
        (v as u8) == (v as int % 256) as u8,
{
    assert((v >> 8) as u8 == v / 256 && v as u8 == v % 256) by (bit_vector);
}

} // verus!
