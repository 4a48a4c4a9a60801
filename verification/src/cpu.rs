use vstd::prelude::*;

pub mod registers;
pub mod mmu;
pub mod alu;
pub mod isa;
pub mod execute;
pub mod defined;
pub mod laws;

use registers::{Registers, flags, flag_of, with_flag, znhc, lemma_flag_orders};
use mmu::{MMU, MmuState};
use alu::{
    add8,
    sub8,
    carry_in,
    logic_flags,
    shift_flags,
    rotate_left,
    rotate_right,
    shift_left,
    shift_right_arith,
    shift_right,
    swap_nibbles,
    inc8,
    dec8,
    add16,
    add16_signed,
    daa8,
    bit_flags,
    relative,
    lemma_u8_ops,
};
use isa::CpuState;

verus! {

/// The processor: registers, program counter, stack pointer, interrupt
/// state, and the memory map it reads and writes.
pub struct Cpu {
    pub reg: Registers,
    pub pc: u16,
    pub sp: u16,
    pub ime: bool,
    pub temp_ime: bool,
    pub mmu: MMU,
    pub cycle: usize,
    pub halted: bool,
    pub setdi: u32,
    pub setei: u32,
}

impl View for Cpu {
    type V = CpuState;

    open spec fn view(&self) -> CpuState {
        CpuState {
            reg: self.reg,
            pc: self.pc,
            sp: self.sp,
            ime: self.ime,
            temp_ime: self.temp_ime,
            mmu: self.mmu@,
            cycle: self.cycle,
            halted: self.halted,
            setdi: self.setdi,
            setei: self.setei,
        }
    }
}

impl CpuState {
    /// The state of a processor just created.
    pub open spec fn initial() -> CpuState {
        CpuState {
            reg: Registers { a: 0x11, b: 0x00, c: 0x13, d: 0x00, e: 0xd8, f: 0xb0, h: 0x01, l: 0x4d },
            pc: 0x100,
            sp: 0xfffe,
            ime: false,
            temp_ime: false,
            mmu: MmuState::blank().boot(),
            cycle: 0,
            halted: false,
            setdi: 0,
            setei: 0,
        }
    }

    /// The state after a reset: registers, program counter, stack pointer,
    /// interrupt enable and cycle counter go back to their starting values.
    pub open spec fn reset(self) -> CpuState {
        CpuState {
            reg: Registers { a: 0x11, b: 0x00, c: 0x13, d: 0x00, e: 0xd8, f: 0xb0, h: 0x01, l: 0x4d },
            pc: 0x100,
            sp: 0xfffe,
            ime: false,
            cycle: 0,
            ..self
        }
    }
}

impl Cpu {
    /// The lengths of the memories.
    pub open spec fn wf(&self) -> bool {
        self.mmu.wf()
    }

    pub fn new() -> (c: Self)
        ensures
            c.wf(),
            c@ == CpuState::initial(),
    {
        let temp = Self {
            reg: Registers::new_default(),
            pc: 0x100,
            sp: 0xfffe,
            ime: false,
            temp_ime: false,
            mmu: MMU::new(),
            cycle: 0,
            halted: false,
            setdi: 0,
            setei: 0,
        };
        temp
    }

    pub fn reset(&mut self)
        ensures
            final(self).wf() == old(self).wf(),
            final(self)@ == old(self)@.reset(),
    {
        self.reg = Registers::new_default();
        self.pc = 0x100;
        self.sp = 0xfffe;
        self.ime = false;
        self.cycle = 0;
    }

    /// Loads a cartridge image.
    pub fn load(&mut self, data: &[u8])
        requires
            old(self).wf(),
            0x149 < data@.len() <= mmu::ROM_SIZE,
        ensures
            final(self).wf(),
            final(self)@ == old(self)@.with_mmu(old(self)@.mmu.loaded(data@)),
    {
        self.mmu.load(data);
    }

    /// The RGB picture of the last frame, three bytes per pixel.
    pub fn get_display(&self) -> (r: &[u8])
        ensures
            r@ == self@.mmu.ppu.screen,
    {
        self.mmu.ppu.screen_buffer.as_slice()
    }

    /// One machine cycle: a processor step, then the memory map advances by
    /// four ticks per processor cycle; returns the ticks of the video unit.
    pub fn do_cycle(&mut self) -> (r: u32)
        requires
            old(self).wf(),
            old(self)@.cycle() is Some,
        ensures
            final(self).wf(),
            (final(self)@, r) == old(self)@.cycle().unwrap(),
    {
        let n = self.docycle();
        let ticks = n * 4;
        return self.mmu.do_cycle(ticks);
    }

    /// The machine cycle of `do_cycle` where it is defined, and `None` where
    /// it is not. When the processor step is undefined nothing changes;
    /// when only what follows it is, the state is the one the checks found:
    /// after the processor step, and after the pending transfer step when
    /// that one was defined.
    pub fn try_do_cycle(&mut self) -> (r: Option<u32>)
        requires
            old(self).wf(),
        ensures
            final(self).wf(),
            r is Some <==> old(self)@.cycle() is Some,
            r is Some ==> (final(self)@, r.unwrap()) == old(self)@.cycle().unwrap(),
            old(self)@.step() is None ==> final(self)@ == old(self)@,
            old(self)@.step() is Some && r is None ==> final(self)@ == old(self)@.step().unwrap().0.with_mmu(
                if old(self)@.step().unwrap().1 * 4 <= u32::MAX && old(self)@.step().unwrap().0.mmu.vramdma_ok() {
                    old(self)@.step().unwrap().0.mmu.vramdma().0
                } else {
                    old(self)@.step().unwrap().0.mmu
                },
            ),
    {
        if !self.step_defined() {
            return None;
        }
        let n = self.docycle();
        if n > u32::MAX / 4 {
            return None;
        }
        self.mmu.try_do_cycle(n * 4)
    }

    /// One processor step: interrupt handling, else one instruction unless
    /// halted; returns the cycles taken.
    fn docycle(&mut self) -> (r: u32)
        requires
            old(self).wf(),
            old(self)@.step() is Some,
        ensures
            final(self).wf(),
            (final(self)@, r) == old(self)@.step().unwrap(),
    {
        self.updateime();
        let n = self.handleinterrupt();
        if n != 0 {
            return n;
        }
        if self.halted {
            1
        } else {
            let op = self.fetch_byte();
            self.execute(op)
        }
    }

    fn updateime(&mut self)
        ensures
            final(self).wf() == old(self).wf(),
            final(self)@ == old(self)@.update_ime(),
    {
        self.setdi = match self.setdi {
            2 => 1,
            1 => {
                self.ime = false;
                0
            },
            _ => 0,
        };
        self.setei = match self.setei {
            2 => 1,
            1 => {
                self.ime = true;
                0
            },
            _ => 0,
        };
    }

    fn handleinterrupt(&mut self) -> (r: u32)
        requires
            old(self).wf(),
            old(self)@.handle_interrupt() is Some,
        ensures
            final(self).wf(),
            (final(self)@, r) == old(self)@.handle_interrupt().unwrap(),
    {
        if self.ime == false && self.halted == false {
            return 0
        }
        let triggered = self.mmu.inte & self.mmu.intf;
        if triggered == 0 {
            return 0
        }
        self.halted = false;
        if self.ime == false {
            return 0
        }
        self.ime = false;

        let n = triggered.trailing_zeros();
        proof {
            lemma_interrupt_bits(self.mmu.intf, n);
        }
        self.mmu.intf &= !(1 << n);
        let pc = self.pc;
        self.push(pc);
        self.pc = 0x0040 | ((n as u16) << 3);

        return 4
    }

    fn fetch_byte(&mut self) -> (r: u8)
        requires
            old(self).wf(),
            old(self)@.fetch8() is Some,
        ensures
            final(self).wf(),
            (final(self)@, r) == old(self)@.fetch8().unwrap(),
    {
        let byte = self.mmu.read_byte(self.pc);
        self.pc += 1;
        byte
    }

    fn fetch_word(&mut self) -> (r: u16)
        requires
            old(self).wf(),
            old(self)@.fetch16() is Some,
        ensures
            final(self).wf(),
            (final(self)@, r) == old(self)@.fetch16().unwrap(),
    {
        let word = self.mmu.read_word(self.pc);
        self.pc += 2;
        word
    }

    /// Whether a new frame was drawn since the last call; clears the mark.
    pub fn ppu_updated(&mut self) -> (r: bool)
        ensures
            final(self).wf() == old(self).wf(),
            r == old(self)@.mmu.ppu.updated,
            final(self)@ == old(self)@.with_mmu(
                MmuState { ppu: crate::ppu::PpuState { updated: false, ..old(self)@.mmu.ppu }, ..old(self)@.mmu },
            ),
    {
        let result = self.mmu.ppu.updated;
        self.mmu.ppu.updated = false;
        result
    }

    /// Register `idx` of the instruction encoding; 6 reads 0.
    fn get_r8(&self, idx: u8) -> (r: u8)
        requires
            idx < 8,
        ensures
            r == self.reg.r8(idx),
    {
        match idx {
            0 => self.reg.b,
            1 => self.reg.c,
            2 => self.reg.d,
            3 => self.reg.e,
            4 => self.reg.h,
            5 => self.reg.l,
            6 => 0,
            _ => self.reg.a,
        }
    }

    /// Sets register `idx` of the instruction encoding; 6 sets nothing.
    fn set_r8(&mut self, idx: u8, v: u8)
        requires
            idx < 8,
        ensures
            final(self).wf() == old(self).wf(),
            final(self)@ == old(self)@.with_reg(old(self).reg.with_r8(idx, v)),
    {
        match idx {
            0 => self.reg.b = v,
            1 => self.reg.c = v,
            2 => self.reg.d = v,
            3 => self.reg.e = v,
            4 => self.reg.h = v,
            5 => self.reg.l = v,
            6 => {},
            _ => self.reg.a = v,
        }
    }

    fn adc(&mut self, val: u8)
        ensures
            final(self).wf() == old(self).wf(),
            final(self)@ == old(self)@.alu_add(val, true),
    {
        self.alu_add(val, true);
    }

    fn alu_add(&mut self, b: u8, usec: bool)
        ensures
            final(self).wf() == old(self).wf(),
            final(self)@ == old(self)@.alu_add(b, usec),
    {
        let carry: u8 = if usec && self.reg.get_flag(flags::C) { 1 } else { 0 };
        let a = self.reg.a;
        let ghost f0 = self.reg.f;
        proof {
            lemma_u8_ops();
            lemma_flag_orders();
        }
        let res = a.wrapping_add(b).wrapping_add(carry);
        self.reg.set_flag(flags::Z, res == 0);
        self.reg.set_flag(flags::H, (a & 0xF) + (b & 0xF) + carry > 0xF);
        self.reg.set_flag(flags::N, false);
        self.reg.set_flag(flags::C, (a as u16) + (b as u16) + (carry as u16) > 0xFF);
        self.reg.a = res;
    }

    fn daa(&mut self)
        ensures
            final(self).wf() == old(self).wf(),
            final(self)@ == old(self)@.with_reg(
                old(self).reg.with_a_f(daa8(old(self).reg.a, old(self).reg.f).0, daa8(old(self).reg.a, old(self).reg.f).1),
            ),
    {
        let carry = self.reg.get_flag(flags::C);
        let halfcarry = self.reg.get_flag(flags::H);
        let ghost a0 = self.reg.a;
        let ghost f0 = self.reg.f;
        proof {
            lemma_u8_ops();
            lemma_daa_constants();
        }

        if !self.reg.get_flag(flags::N) {
            let mut correction: u8 = 0;
            if halfcarry || (self.reg.a & 0xf > 0x9) {
                correction |= 0x6;
            }

            if carry || (self.reg.a > 0x99) {
                correction |= 0x60;
                self.reg.set_flag(flags::C, true);
            }
            assert(correction == (if halfcarry || a0 % 16 > 9 { 6int } else { 0 }) + (if carry || a0 > 0x99 { 0x60int } else { 0 }));
            proof {
                alu::lemma_wrap8(self.reg.a, correction);
            }

            self.reg.a = self.reg.a.wrapping_add(correction);
        } else if carry {
            self.reg.set_flag(flags::C, true);
            proof {
                alu::lemma_wrap8(self.reg.a, 0x9a);
                alu::lemma_wrap8(self.reg.a, 0xa0);
            }
            self.reg.a = self.reg.a.wrapping_add(if halfcarry { 0x9a } else { 0xa0 });
        } else if halfcarry {
            proof {
                alu::lemma_wrap8(self.reg.a, 0xfa);
            }
            self.reg.a = self.reg.a.wrapping_add(0xfa);
        }

        let ghost f1 = self.reg.f;
        assert(self.reg.a == daa8(a0, f0).0);
        assert(f1 == f0 || f1 == with_flag(f0, 4, true));
        proof {
            lemma_flag_orders();
        }
        self.reg.set_flag(flags::Z, self.reg.a == 0);
        self.reg.set_flag(flags::H, false);
    }

    fn cp(&mut self, val: u8)
        ensures
            final(self).wf() == old(self).wf(),
            final(self)@ == old(self)@.alu_cp(val),
    {
        let temp = self.reg.a;
        self.alu_sub(val, false);
        self.reg.a = temp;
    }

    fn alu_sub(&mut self, b: u8, usec: bool)
        ensures
            final(self).wf() == old(self).wf(),
            final(self)@ == old(self)@.alu_sub(b, usec),
    {
        let carry: u8 = if usec && self.reg.get_flag(flags::C) { 1 } else { 0 };
        let a = self.reg.a;
        let ghost f0 = self.reg.f;
        proof {
            lemma_u8_ops();
            lemma_flag_orders();
        }
        let res = a.wrapping_sub(b).wrapping_sub(carry);
        assert(res == (a + 256 - b - carry) % 256);
        self.reg.set_flag(flags::Z, res == 0);
        self.reg.set_flag(flags::H, (a & 0x0F) < (b & 0x0F) + carry);
        self.reg.set_flag(flags::N, true);
        self.reg.set_flag(flags::C, (a as u16) < (b as u16) + (carry as u16));
        self.reg.a = res;
    }

    /// `a` plus the signed byte that follows; sets the flags from the low byte.
    fn add16imm(&mut self, a: u16) -> (r: u16)
        requires
            old(self).wf(),
            old(self)@.fetch8() is Some,
        ensures
            final(self).wf(),
            ({
                let (t, b) = old(self)@.fetch8().unwrap();
                &&& r == add16_signed(a, b, t.reg.f).0
                &&& final(self)@ == t.with_f(add16_signed(a, b, t.reg.f).1)
            }),
    {
        let byte = self.fetch_byte();
        proof {
            lemma_u16_ops(a, byte);
        }
        let b = byte as i8 as i16 as u16;
        let ghost f0 = self.reg.f;
        proof {
            lemma_u16_ops(b, byte);
            let e = alu::sign_extend(byte);
            lemma_flag_orders();
        }
        self.reg.set_flag(flags::N, false);
        self.reg.set_flag(flags::Z, false);
        self.reg.set_flag(flags::H, (a & 0x000F) + (b & 0x000F) > 0x000F);
        self.reg.set_flag(flags::C, (a & 0x00FF) + (b & 0x00FF) > 0x00FF);
        return a.wrapping_add(b)
    }

    fn add_byte(&mut self, b: u8, usec: bool)
        ensures
            final(self).wf() == old(self).wf(),
            final(self)@ == old(self)@.alu_add(b, usec),
    {
        let carry: u8 = if usec && self.reg.get_flag(flags::C) { 1 } else { 0 };
        let a = self.reg.a;
        let ghost f0 = self.reg.f;
        proof {
            lemma_u8_ops();
            lemma_flag_orders();
        }
        let res = a.wrapping_add(b).wrapping_add(carry);
        self.reg.set_flag(flags::Z, res == 0);
        self.reg.set_flag(flags::H, (a & 0xF) + (b & 0xF) + carry > 0xF);
        self.reg.set_flag(flags::N, false);
        self.reg.set_flag(flags::C, (a as u16) + (b as u16) + (carry as u16) > 0xFF);
        self.reg.a = res;
    }

    fn add_word(&mut self, a: u16, b: u16) -> (r: u16)
        ensures
            final(self).wf() == old(self).wf(),
            r == add16(a, b, old(self).reg.f).0,
            final(self)@ == old(self)@.with_f(add16(a, b, old(self).reg.f).1),
    {
        let result = a.wrapping_add(b);
        let carry = (a as u32) + (b as u32) > 0xFFFF;
        let ghost f0 = self.reg.f;
        proof {
            lemma_u16_ops(a, 0);
            lemma_u16_ops(b, 0);
            lemma_flag_orders();
        }
        self.reg.set_flag(flags::C, carry);
        self.reg.set_flag(flags::H, (a & 0x07FF) + (b & 0x07FF) > 0x07FF);
        self.reg.set_flag(flags::N, false);
        result
    }

    fn and(&mut self, val: u8)
        ensures
            final(self).wf() == old(self).wf(),
            final(self)@ == old(self)@.alu_and(val),
    {
        let res = self.reg.a & val;
        self.reg.set_flag(flags::Z, res == 0);
        self.reg.set_flag(flags::N, false);
        self.reg.set_flag(flags::H, true);
        self.reg.set_flag(flags::C, false);
        self.reg.a = res;
    }

    fn or(&mut self, val: u8)
        ensures
            final(self).wf() == old(self).wf(),
            final(self)@ == old(self)@.alu_or(val),
    {
        let res = self.reg.a | val;
        self.reg.set_flag(flags::Z, res == 0);
        self.reg.set_flag(flags::N, false);
        self.reg.set_flag(flags::H, false);
        self.reg.set_flag(flags::C, false);
        self.reg.a = res;
    }

    fn xor(&mut self, val: u8)
        ensures
            final(self).wf() == old(self).wf(),
            final(self)@ == old(self)@.alu_xor(val),
    {
        let res = self.reg.a ^ val;
        self.reg.set_flag(flags::Z, res == 0);
        self.reg.set_flag(flags::N, false);
        self.reg.set_flag(flags::H, false);
        self.reg.set_flag(flags::C, false);
        self.reg.a = res;
    }

    fn alu_srflagupdate(&mut self, r: u8, c: bool)
        ensures
            final(self).wf() == old(self).wf(),
            final(self)@ == old(self)@.with_f(shift_flags(old(self).reg.f, r, c)),
    {
        proof {
            lemma_flag_orders();
        }
        self.reg.set_flag(flags::H, false);
        self.reg.set_flag(flags::N, false);
        self.reg.set_flag(flags::Z, r == 0);
        self.reg.set_flag(flags::C, c);
    }

    fn rlc(&mut self, a: u8) -> (r: u8)
        ensures
            final(self).wf() == old(self).wf(),
            r == rotate_left(a),
            final(self)@ == old(self)@.with_f(shift_flags(old(self).reg.f, r, a >= 128)),
    {
        proof {
            lemma_u8_ops();
        }
        let carry = a & 0x80 == 0x80;
        let res = (a << 1) | (if carry { 1 } else { 0 });
        self.alu_srflagupdate(res, carry);
        return res
    }

    /// Rotates `a` left by one bit: bit 7 goes to bit 0 and to the carry flag.
    pub fn rl(&mut self, a: u8) -> (r: u8)
        ensures
            final(self).wf() == old(self).wf(),
            r == rotate_left(a),
            final(self)@ == old(self)@.with_f(shift_flags(old(self).reg.f, r, a >= 128)),
    {
        proof {
            lemma_u8_ops();
        }
        let carry = a & 0x80 == 0x80;
        let res = (a << 1) | (if carry { 1 } else { 0 });
        self.alu_srflagupdate(res, carry);
        return res
    }

    /// Rotates `a` right by one bit: bit 0 goes to bit 7 and to the carry flag.
    pub fn rr(&mut self, a: u8) -> (r: u8)
        ensures
            final(self).wf() == old(self).wf(),
            r == rotate_right(a),
            final(self)@ == old(self)@.with_f(shift_flags(old(self).reg.f, r, a % 2 == 1)),
    {
        proof {
            lemma_u8_ops();
        }
        let carry = a & 0x01 == 0x01;
        let res = (a >> 1) | (if carry { 0x80 } else { 0 });
        self.alu_srflagupdate(res, carry);
        return res
    }

    fn rrc(&mut self, a: u8) -> (r: u8)
        ensures
            final(self).wf() == old(self).wf(),
            r == rotate_right(a),
            final(self)@ == old(self)@.with_f(shift_flags(old(self).reg.f, r, a % 2 == 1)),
    {
        proof {
            lemma_u8_ops();
        }
        let carry = a & 0x01 == 0x01;
        let res = (a >> 1) | (if carry { 0x80 } else { 0 });
        self.alu_srflagupdate(res, carry);
        return res
    }

    fn inc(&mut self, val: u8) -> (r: u8)
        ensures
            final(self).wf() == old(self).wf(),
            r == inc8(old(self).reg.f, val).0,
            final(self)@ == old(self)@.with_f(inc8(old(self).reg.f, val).1),
    {
        let res = val.wrapping_add(1);
        proof {
            lemma_u8_ops();
            lemma_flag_orders();
        }
        if res == 0 {
            self.reg.set_flag(flags::Z, true)
        } else {
            self.reg.set_flag(flags::Z, false)
        }
        self.reg.set_flag(flags::Z, res == 0);
        self.reg.set_flag(flags::N, false);
        self.reg.set_flag(flags::H, (val & 0x0F) + 1 > 0x0F);
        res
    }

    fn dec(&mut self, val: u8) -> (r: u8)
        ensures
            final(self).wf() == old(self).wf(),
            r == dec8(old(self).reg.f, val).0,
            final(self)@ == old(self)@.with_f(dec8(old(self).reg.f, val).1),
    {
        let res = val.wrapping_sub(1);
        proof {
            lemma_u8_ops();
            lemma_flag_orders();
        }
        self.reg.set_flag(flags::Z, res == 0);
        self.reg.set_flag(flags::N, true);
        self.reg.set_flag(flags::H, (val & 0x0F) == 0);
        res
    }

    fn sub(&mut self, b: u8, usec: bool)
        ensures
            final(self).wf() == old(self).wf(),
            final(self)@ == old(self)@.alu_sub(b, usec),
    {
        let carry: u8 = if usec && self.reg.get_flag(flags::C) { 1 } else { 0 };
        let a = self.reg.a;
        let ghost f0 = self.reg.f;
        proof {
            lemma_u8_ops();
            lemma_flag_orders();
        }
        let res = a.wrapping_sub(b).wrapping_sub(carry);
        assert(res == (a + 256 - b - carry) % 256);
        self.reg.set_flag(flags::Z, res == 0);
        self.reg.set_flag(flags::H, (a & 0x0F) < (b & 0x0F) + carry);
        self.reg.set_flag(flags::N, true);
        self.reg.set_flag(flags::C, (a as u16) < (b as u16) + (carry as u16));
        self.reg.a = res;
    }

    /// A relative jump by the signed byte that follows.
    fn jr(&mut self)
        requires
            old(self).wf(),
            old(self)@.jr() is Some,
        ensures
            final(self).wf(),
            final(self)@ == old(self)@.jr().unwrap(),
    {
        let byte = self.fetch_byte();
        let offset = byte as i8;
        proof {
            lemma_relative(self.pc, byte);
        }
        self.pc = ((self.pc as u32 as i32) + (offset as i32)) as u16;
    }

    fn ret(&mut self)
        requires
            old(self).wf(),
            old(self)@.ret() is Some,
        ensures
            final(self).wf(),
            final(self)@ == old(self)@.ret().unwrap(),
    {
        self.pc = self.pop();
    }

    fn ei(&mut self)
        ensures
            final(self).wf() == old(self).wf(),
            final(self)@ == (CpuState { ime: true, ..old(self)@ }),
    {
        self.ime = true;
    }

    fn di(&mut self)
        ensures
            final(self).wf() == old(self).wf(),
            final(self)@ == (CpuState { ime: false, temp_ime: false, ..old(self)@ }),
    {
        self.ime = false;
        self.temp_ime = false;
    }

    fn reti(&mut self)
        requires
            old(self).wf(),
            (CpuState { ime: true, ..old(self)@ }).ret() is Some,
        ensures
            final(self).wf(),
            final(self)@ == (CpuState { ime: true, ..old(self)@ }).ret().unwrap(),
    {
        self.ei();
        self.ret();
    }

    fn call(&mut self, pointer: u16)
        requires
            old(self).wf(),
            old(self)@.call(pointer) is Some,
        ensures
            final(self).wf(),
            final(self)@ == old(self)@.call(pointer).unwrap(),
    {
        self.push(self.pc);
        self.pc = pointer;
    }

    fn push(&mut self, val: u16)
        requires
            old(self).wf(),
            old(self)@.push(val) is Some,
        ensures
            final(self).wf(),
            final(self)@ == old(self)@.push(val).unwrap(),
    {
        self.sp = self.sp - 2;
        self.mmu.write_word(self.sp, val);
    }

    fn pop(&mut self) -> (r: u16)
        requires
            old(self).wf(),
            old(self)@.pop() is Some,
        ensures
            final(self).wf(),
            (final(self)@, r) == old(self)@.pop().unwrap(),
    {
        self.sp = self.sp + 2;
        self.mmu.read_word(self.sp - 2)
    }

    fn sla(&mut self, a: u8) -> (r: u8)
        ensures
            final(self).wf() == old(self).wf(),
            r == shift_left(a),
            final(self)@ == old(self)@.with_f(shift_flags(old(self).reg.f, r, a >= 128)),
    {
        proof {
            lemma_u8_ops();
        }
        let carry = a & 0x80 == 0x80;
        let res = a << 1;
        self.alu_srflagupdate(res, carry);
        return res
    }

    fn sra(&mut self, a: u8) -> (r: u8)
        ensures
            final(self).wf() == old(self).wf(),
            r == shift_right_arith(a),
            final(self)@ == old(self)@.with_f(shift_flags(old(self).reg.f, r, a % 2 == 1)),
    {
        proof {
            lemma_u8_ops();
        }
        let carry = a & 0x01 == 0x01;
        let res = (a >> 1) | (a & 0x80);
        self.alu_srflagupdate(res, carry);
        return res
    }

    /// Shift right logically.
    fn srl(&mut self, val: u8) -> (r: u8)
        ensures
            final(self).wf() == old(self).wf(),
            r == shift_right(val),
            final(self)@ == old(self)@.with_f(znhc(0, r == 0, false, false, val % 2 == 1)),
    {
        proof {
            lemma_u8_ops();
            lemma_flag_orders();
        }
        let res = val >> 1;
        let carry = (val & 0b1) == 1;
        self.reg.unset_flags();
        self.reg.set_flag(flags::Z, res == 0);
        self.reg.set_flag(flags::C, carry);
        res
    }

    fn swap(&mut self, val: u8) -> (r: u8)
        ensures
            final(self).wf() == old(self).wf(),
            r == swap_nibbles(val),
            final(self)@ == old(self)@.with_f(znhc(0, r == 0, false, false, false)),
    {
        proof {
            lemma_u8_ops();
            lemma_flag_orders();
        }
        // Lower bit to higher bit
        let lth = (val & 0x0F) << 4;
        let htl = val >> 4;
        self.reg.unset_flags();
        self.reg.set_flag(flags::Z, (lth | htl) == 0);
        lth | htl
    }

    /// Tests bit `b` of `a`: the zero flag is set when the bit is clear.
    fn bit(&mut self, a: u8, b: u8)
        requires
            b < 8,
        ensures
            final(self).wf() == old(self).wf(),
            final(self)@ == old(self)@.with_f(bit_flags(old(self).reg.f, a, b)),
    {
        proof {
            lemma_bit_test(a, b);
            lemma_flag_orders();
        }
        let res = a & (1 << (b as u32)) == 0;
        self.reg.set_flag(flags::N, false);
        self.reg.set_flag(flags::H, true);
        self.reg.set_flag(flags::Z, res);
    }

    /// `val` with bit `position` cleared.
    fn res(&self, position: u8, val: u8) -> (r: u8)
        requires
            position < 8,
        ensures
            r == with_flag(val, position, false),
    {
        proof {
            lemma_res_set(val, position);
        }
        val & !(1 << position) | (0u8 << position)
    }

    /// `val` with bit `position` set.
    fn set(&self, position: u8, val: u8) -> (r: u8)
        requires
            position < 8,
        ensures
            r == with_flag(val, position, true),
    {
        proof {
            lemma_res_set(val, position);
        }
        val & !(1 << position) | (1u8 << position)
    }
}

proof fn lemma_res_set(val: u8, position: u8)
    requires
        position < 8,
    ensures
        (val & !(1u8 << position) | (0u8 << position)) == with_flag(val, position, false),
        (val & !(1u8 << position) | (1u8 << position)) == with_flag(val, position, true),
{
    assert((val & !(1u8 << position) | (0u8 << position)) == val & !(1u8 << position)
        && (val & !(1u8 << position) | (1u8 << position)) == val | (1u8 << position)) by (bit_vector);
}

proof fn lemma_bit_test(a: u8, b: u8)
    requires
        b < 8,
    ensures
        (a & (1u8 << (b as u32)) == 0) == !flag_of(a, b),
{
    assert((a & (1u8 << (b as u32)) == 0) == !((a >> b) & 1 == 1)) by (bit_vector)
        requires b < 8;
}

proof fn lemma_daa_constants()
    ensures
        0u8 | 0x6u8 == 6u8,
        0u8 | 0x60u8 == 0x60u8,
        6u8 | 0x60u8 == 0x66u8,
{
    assert(0u8 | 0x6u8 == 6u8 && 0u8 | 0x60u8 == 0x60u8 && 6u8 | 0x60u8 == 0x66u8) by (bit_vector);
}

proof fn lemma_u16_ops(a: u16, byte: u8)
    ensures
        a & 0x000F == a % 16,
        a & 0x00FF == a % 256,
        a & 0x07FF == a % 2048,
        (byte as i8 as i16 as u16) == alu::sign_extend(byte),
{
    assert(a & 0x000F == a % 16 && a & 0x00FF == a % 256 && a & 0x07FF == a % 2048) by (bit_vector);
    assert(byte < 128 ==> (byte as i8 as i16 as u16) == byte as u16) by (bit_vector);
    assert(byte >= 128 ==> (byte as i8 as i16 as u16) == byte as u16 + 0xff00u16) by (bit_vector);
}

proof fn lemma_relative(pc: u16, b: u8)
    ensures
        ((pc as u32 as i32) + ((b as i8) as i32)) as u16 == relative(pc, b),
{
    assert(b < 128 ==> ((pc as u32 as i32) + ((b as i8) as i32)) as u16 == (pc + b) % 65536)
        by (bit_vector);
    assert(b >= 128 ==> ((pc as u32 as i32) + ((b as i8) as i32)) as u16 == (pc + b + 65280) % 65536)
        by (bit_vector);
}

proof fn lemma_interrupt_bits(intf: u8, n: u32)
    requires
        n < 5,
    ensures
        intf & !(1u8 << n) == with_flag(intf, n as u8, false),
        (0x0040u16 | ((n as u16) << 3u16)) == 0x40 + 8 * n,
{
    assert(intf & !(1u8 << n) == intf & !(1u8 << (n as u8)) && (0x0040u16 | ((n as u16) << 3u16))
        == 0x40 + 8 * n) by (bit_vector)
        requires n < 5;
}

} // verus!
