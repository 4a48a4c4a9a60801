use vstd::prelude::*;
use vstd::std_specs::bits::u8_trailing_zeros;
use crate::cpu::registers::{Registers, flag_of, with_flag, znhc};
use crate::cpu::alu::{
    carry_in,
    add8,
    sub8,
    logic_flags,
    shift_flags,
    rotate_left,
    rotate_right,
    shift_left,
    shift_right_arith,
    shift_right,
    swap_nibbles,
    inc8,
    dec8,
    add16,
    add16_signed,
    relative,
    daa8,
    bit_flags,
};
use crate::cpu::mmu::{
    MmuState,
    plain_addr,
    law_word_roundtrip,
    law_write_keeps_others,
    law_write_keeps_readable,
    lemma_plain_access,
};

verus! {

/// The mathematical state of the processor and everything it drives.
pub struct CpuState {
    pub reg: Registers,
    pub pc: u16,
    pub sp: u16,
    pub ime: bool,
    pub temp_ime: bool,
    pub mmu: MmuState,
    pub cycle: usize,
    pub halted: bool,
    pub setdi: u32,
    pub setei: u32,
}

/// Attaches a cycle count to a state that may be undefined.
pub open spec fn timed(o: Option<CpuState>, t: u32) -> Option<(CpuState, u32)> {
    match o {
        Some(s) => Some((s, t)),
        None => None,
    }
}

/// The result of a rotation or shift of the prefixed group `kind` (0 to 7:
/// rotate left, rotate right, rotate left, rotate right, shift left,
/// arithmetic shift right, swap, shift right) on `a`, and its flags.
pub open spec fn shift_op(kind: u8, a: u8, f: u8) -> (u8, u8) {
    if kind == 0 || kind == 2 {
        (rotate_left(a), shift_flags(f, rotate_left(a), a >= 128))
    } else if kind == 1 || kind == 3 {
        (rotate_right(a), shift_flags(f, rotate_right(a), a % 2 == 1))
    } else if kind == 4 {
        (shift_left(a), shift_flags(f, shift_left(a), a >= 128))
    } else if kind == 5 {
        (shift_right_arith(a), shift_flags(f, shift_right_arith(a), a % 2 == 1))
    } else if kind == 6 {
        (swap_nibbles(a), znhc(0, swap_nibbles(a) == 0, false, false, false))
    } else {
        (shift_right(a), znhc(0, shift_right(a) == 0, false, false, a % 2 == 1))
    }
}

/// Whether an opcode without prefix is one the processor carries out.
pub open spec fn implemented(op: u8) -> bool {
    !(op == 0xd3 || op == 0xdb || op == 0xdd || op == 0xe3 || op == 0xe4 || op == 0xeb || op == 0xec
        || op == 0xed || op == 0xf4 || op == 0xfc || op == 0xfd)
}

impl CpuState {
    /// The lengths of the memories.
    pub open spec fn wf(self) -> bool {
        self.mmu.wf()
    }

    pub open spec fn with_reg(self, reg: Registers) -> CpuState {
        CpuState { reg, ..self }
    }

    pub open spec fn with_pc(self, pc: u16) -> CpuState {
        CpuState { pc, ..self }
    }

    pub open spec fn with_sp(self, sp: u16) -> CpuState {
        CpuState { sp, ..self }
    }

    pub open spec fn with_mmu(self, mmu: MmuState) -> CpuState {
        CpuState { mmu, ..self }
    }

    /// These registers with the flags replaced.
    pub open spec fn with_f(self, f: u8) -> CpuState {
        self.with_reg(self.reg.with_f(f))
    }

    /// The byte at the program counter, and the state with the counter advanced.
    pub open spec fn fetch8(self) -> Option<(CpuState, u8)> {
        if self.pc < 0xffff && self.mmu.read_ok(self.pc) {
            Some((self.with_pc((self.pc + 1) as u16), self.mmu.read(self.pc)))
        } else {
            None
        }
    }

    /// The word at the program counter, and the state with the counter advanced by 2.
    pub open spec fn fetch16(self) -> Option<(CpuState, u16)> {
        if self.pc <= 0xfffd && self.mmu.read_word_ok(self.pc) {
            Some((self.with_pc((self.pc + 2) as u16), self.mmu.read_word(self.pc)))
        } else {
            None
        }
    }

    /// The state after `v` is pushed on the stack.
    pub open spec fn push(self, v: u16) -> Option<CpuState> {
        if self.sp >= 2 && self.mmu.write_word_ok((self.sp - 2) as u16, v) {
            Some(
                CpuState {
                    sp: (self.sp - 2) as u16,
                    mmu: self.mmu.write_word((self.sp - 2) as u16, v),
                    ..self
                },
            )
        } else {
            None
        }
    }

    /// The word on top of the stack, and the state with it removed.
    pub open spec fn pop(self) -> Option<(CpuState, u16)> {
        if self.sp <= 0xfffd && self.mmu.read_word_ok(self.sp) {
            Some((self.with_sp((self.sp + 2) as u16), self.mmu.read_word(self.sp)))
        } else {
            None
        }
    }

    /// The state after a write of `v` to memory at `loc`.
    pub open spec fn store(self, loc: u16, v: u8) -> Option<CpuState> {
        if self.mmu.write_ok(loc, v) {
            Some(self.with_mmu(self.mmu.write(loc, v)))
        } else {
            None
        }
    }

    /// The byte in memory at `loc`.
    pub open spec fn load(self, loc: u16) -> Option<u8> {
        if self.mmu.read_ok(loc) {
            Some(self.mmu.read(loc))
        } else {
            None
        }
    }

    /// The state after a relative jump by the signed byte that follows.
    pub open spec fn jr(self) -> Option<CpuState> {
        match self.fetch8() {
            Some((t, b)) => Some(t.with_pc(relative(t.pc, b))),
            None => None,
        }
    }

    /// The state after a return: the program counter is popped.
    pub open spec fn ret(self) -> Option<CpuState> {
        match self.pop() {
            Some((t, v)) => Some(t.with_pc(v)),
            None => None,
        }
    }

    /// The state after a call of `pointer`: the program counter is pushed.
    pub open spec fn call(self, pointer: u16) -> Option<CpuState> {
        match self.push(self.pc) {
            Some(t) => Some(t.with_pc(pointer)),
            None => None,
        }
    }

    /// The state after the program counter skips `n` bytes.
    pub open spec fn skip(self, n: int) -> Option<CpuState> {
        if self.pc + n <= 0xffff {
            Some(self.with_pc((self.pc + n) as u16))
        } else {
            None
        }
    }

    /// `a + b` (with the carry when `usec`) into `a`.
    pub open spec fn alu_add(self, b: u8, usec: bool) -> CpuState {
        let (r, f) = add8(self.reg.a, b, carry_in(self.reg.f, usec), self.reg.f);
        self.with_reg(self.reg.with_a_f(r, f))
    }

    /// `a - b` (with the borrow when `usec`) into `a`.
    pub open spec fn alu_sub(self, b: u8, usec: bool) -> CpuState {
        let (r, f) = sub8(self.reg.a, b, carry_in(self.reg.f, usec), self.reg.f);
        self.with_reg(self.reg.with_a_f(r, f))
    }

    /// The flags of `a - b`; `a` is kept.
    pub open spec fn alu_cp(self, b: u8) -> CpuState {
        let (r, f) = sub8(self.reg.a, b, 0, self.reg.f);
        self.with_f(f)
    }

    pub open spec fn alu_and(self, v: u8) -> CpuState {
        let r = self.reg.a & v;
        self.with_reg(self.reg.with_a_f(r, logic_flags(self.reg.f, r, true)))
    }

    pub open spec fn alu_or(self, v: u8) -> CpuState {
        let r = self.reg.a | v;
        self.with_reg(self.reg.with_a_f(r, logic_flags(self.reg.f, r, false)))
    }

    pub open spec fn alu_xor(self, v: u8) -> CpuState {
        let r = self.reg.a ^ v;
        self.with_reg(self.reg.with_a_f(r, logic_flags(self.reg.f, r, false)))
    }

    /// The operation `kind` (0 add, 1 add with carry, 2 subtract, 3 subtract
    /// with borrow, 4 and, 5 xor, 6 or, 7 compare) of `a` with `v`.
    pub open spec fn alu_op(self, kind: u8, v: u8) -> CpuState {
        if kind == 0 {
            self.alu_add(v, false)
        } else if kind == 1 {
            self.alu_add(v, true)
        } else if kind == 2 {
            self.alu_sub(v, false)
        } else if kind == 3 {
            self.alu_sub(v, true)
        } else if kind == 4 {
            self.alu_and(v)
        } else if kind == 5 {
            self.alu_xor(v)
        } else if kind == 6 {
            self.alu_or(v)
        } else {
            self.alu_cp(v)
        }
    }

    /// Register `idx` incremented.
    pub open spec fn inc_r(self, idx: u8) -> CpuState {
        let (r, f) = inc8(self.reg.f, self.reg.r8(idx));
        self.with_reg(self.reg.with_r8(idx, r).with_f(f))
    }

    /// Register `idx` decremented.
    pub open spec fn dec_r(self, idx: u8) -> CpuState {
        let (r, f) = dec8(self.reg.f, self.reg.r8(idx));
        self.with_reg(self.reg.with_r8(idx, r).with_f(f))
    }

    /// The byte in memory at `hl` incremented (when `inc`) or decremented.
    pub open spec fn step_mem(self, inc: bool) -> Option<(CpuState, u32)> {
        match self.load(self.reg.hl()) {
            Some(v) => {
                let (r, f) = if inc {
                    inc8(self.reg.f, v)
                } else {
                    dec8(self.reg.f, v)
                };
                timed(self.with_f(f).store(self.reg.hl(), r), 3)
            },
            None => None,
        }
    }

    /// Register `idx` loaded with the byte that follows.
    pub open spec fn ld_r_n(self, idx: u8) -> Option<(CpuState, u32)> {
        match self.fetch8() {
            Some((t, v)) => Some((t.with_reg(t.reg.with_r8(idx, v)), 2)),
            None => None,
        }
    }

    /// `hl` plus `v` into `hl`.
    pub open spec fn add_hl(self, v: u16) -> CpuState {
        let (r, f) = add16(self.reg.hl(), v, self.reg.f);
        self.with_reg(self.reg.with_hl(r).with_f(f))
    }

    /// A relative jump when `cond`, else the offset is skipped.
    pub open spec fn jr_if(self, cond: bool) -> Option<(CpuState, u32)> {
        if cond {
            timed(self.jr(), 3)
        } else {
            timed(self.skip(1), 2)
        }
    }

    /// A return when `cond`.
    pub open spec fn ret_if(self, cond: bool) -> Option<(CpuState, u32)> {
        if cond {
            timed(self.ret(), 5)
        } else {
            Some((self, 2))
        }
    }

    /// An absolute jump to the word that follows when `cond`, else the word is skipped.
    pub open spec fn jp_if(self, cond: bool) -> Option<(CpuState, u32)> {
        if cond {
            match self.fetch16() {
                Some((t, w)) => Some((t.with_pc(w), 4)),
                None => None,
            }
        } else {
            timed(self.skip(2), 3)
        }
    }

    /// A call of the word that follows when `cond`: the address after the
    /// word is pushed first, then the word is read.
    pub open spec fn call_if(self, cond: bool) -> Option<(CpuState, u32)> {
        if cond {
            if self.pc <= 0xfffd {
                match self.push((self.pc + 2) as u16) {
                    Some(t) => match t.fetch16() {
                        Some((u, w)) => Some((u.with_pc(w), 6)),
                        None => None,
                    },
                    None => None,
                }
            } else {
                None
            }
        } else {
            timed(self.skip(2), 3)
        }
    }

    /// The operation `kind` of `a` with the byte that follows.
    pub open spec fn alu_imm(self, kind: u8) -> Option<(CpuState, u32)> {
        match self.fetch8() {
            Some((t, v)) => Some((t.alu_op(kind, v), 2)),
            None => None,
        }
    }

    /// `sp` plus the signed byte that follows, and the state with its flags.
    pub open spec fn add_sp_imm(self) -> Option<(CpuState, u16)> {
        match self.fetch8() {
            Some((t, b)) => {
                let (r, f) = add16_signed(self.sp, b, t.reg.f);
                Some((t.with_f(f), r))
            },
            None => None,
        }
    }

    /// Opcodes 0x00 to 0x3F.
    pub open spec fn exec_low(self, op: u8) -> Option<(CpuState, u32)> {
        if op <= 0x0f {
            self.exec_row0(op)
        } else if op <= 0x1f {
            self.exec_row1(op)
        } else if op <= 0x2f {
            self.exec_row2(op)
        } else {
            self.exec_row3(op)
        }
    }

    /// Opcodes 0x00 to 0x0F.
    pub open spec fn exec_row0(self, op: u8) -> Option<(CpuState, u32)> {
        let reg = self.reg;
        match op {
            0x00 => Some((self, 1)),
            0x01 => match self.fetch16() {
                Some((t, w)) => Some((t.with_reg(t.reg.with_bc(w)), 3)),
                None => None,
            },
            0x02 => timed(self.store(reg.bc(), reg.a), 2),
            0x03 => Some((self.with_reg(reg.with_bc(((reg.bc() + 1) % 65536) as u16)), 2)),
            0x07 => Some((self.with_reg(reg.with_a_f(rotate_left(reg.a), with_flag(shift_flags(reg.f, rotate_left(reg.a), reg.a >= 128), 7, false))), 1)),
            0x08 => match self.fetch16() {
                Some((t, w)) => if t.mmu.write_word_ok(w, t.sp) {
                    Some((t.with_mmu(t.mmu.write_word(w, t.sp)), 5))
                } else {
                    None
                },
                None => None,
            },
            0x09 => Some((self.add_hl(reg.bc()), 2)),
            0x0a => match self.load(reg.bc()) {
                Some(v) => Some((self.with_reg(Registers { a: v, ..reg }), 2)),
                None => None,
            },
            0x0b => Some((self.with_reg(reg.with_bc(((reg.bc() + 65535) % 65536) as u16)), 2)),
            0x0f => Some((self.with_reg(reg.with_a_f(rotate_right(reg.a), with_flag(shift_flags(reg.f, rotate_right(reg.a), reg.a % 2 == 1), 7, false))), 1)),
            _ => {
                let idx = op / 8;
                if op % 8 == 4 {
                    Some((self.inc_r(idx), 1))
                } else if op % 8 == 5 {
                    Some((self.dec_r(idx), 1))
                } else {
                    self.ld_r_n(idx)
                }
            },
        }
    }

    /// Opcodes 0x10 to 0x1F.
    pub open spec fn exec_row1(self, op: u8) -> Option<(CpuState, u32)> {
        let reg = self.reg;
        match op {
            0x10 => Some((self, 1)),
            0x11 => match self.fetch16() {
                Some((t, w)) => Some((t.with_reg(t.reg.with_de(w)), 3)),
                None => None,
            },
            0x12 => timed(self.store(reg.de(), reg.a), 2),
            0x13 => Some((self.with_reg(reg.with_de(((reg.de() + 1) % 65536) as u16)), 2)),
            0x17 => Some((self.with_reg(reg.with_a_f(rotate_left(reg.a), with_flag(shift_flags(reg.f, rotate_left(reg.a), reg.a >= 128), 7, false))), 1)),
            0x18 => timed(self.jr(), 3),
            0x19 => Some((self.add_hl(reg.de()), 2)),
            0x1a => match self.load(reg.de()) {
                Some(v) => Some((self.with_reg(Registers { a: v, ..reg }), 2)),
                None => None,
            },
            0x1b => Some((self.with_reg(reg.with_de(((reg.de() + 65535) % 65536) as u16)), 2)),
            0x1f => Some((self.with_reg(reg.with_a_f(rotate_right(reg.a), with_flag(shift_flags(reg.f, rotate_right(reg.a), reg.a % 2 == 1), 7, false))), 1)),
            _ => {
                let idx = op / 8;
                if op % 8 == 4 {
                    Some((self.inc_r(idx), 1))
                } else if op % 8 == 5 {
                    Some((self.dec_r(idx), 1))
                } else {
                    self.ld_r_n(idx)
                }
            },
        }
    }

    /// Opcodes 0x20 to 0x2F.
    pub open spec fn exec_row2(self, op: u8) -> Option<(CpuState, u32)> {
        let reg = self.reg;
        match op {
            0x20 => self.jr_if(!flag_of(reg.f, 7)),
            0x21 => match self.fetch16() {
                Some((t, w)) => Some((t.with_reg(t.reg.with_hl(w)), 3)),
                None => None,
            },
            0x22 => if reg.hl() < 0xffff {
                timed(self.with_reg(reg.with_hl((reg.hl() + 1) as u16)).store(reg.hl(), reg.a), 2)
            } else {
                None
            },
            0x23 => Some((self.with_reg(reg.with_hl(((reg.hl() + 1) % 65536) as u16)), 2)),
            0x27 => {
                let (r, f) = daa8(reg.a, reg.f);
                Some((self.with_reg(reg.with_a_f(r, f)), 1))
            },
            0x28 => self.jr_if(flag_of(reg.f, 7)),
            0x29 => Some((self.add_hl(reg.hl()), 2)),
            0x2a => if reg.hl() < 0xffff {
                match self.load(reg.hl()) {
                    Some(v) => Some((self.with_reg(Registers { a: v, ..reg.with_hl((reg.hl() + 1) as u16) }), 2)),
                    None => None,
                }
            } else {
                None
            },
            0x2b => Some((self.with_reg(reg.with_hl(((reg.hl() + 65535) % 65536) as u16)), 2)),
            0x2f => Some((self.with_reg(reg.with_a_f((255 - reg.a) as u8, with_flag(with_flag(reg.f, 6, true), 5, true))), 1)),
            _ => {
                let idx = op / 8;
                if op % 8 == 4 {
                    Some((self.inc_r(idx), 1))
                } else if op % 8 == 5 {
                    Some((self.dec_r(idx), 1))
                } else {
                    self.ld_r_n(idx)
                }
            },
        }
    }

    /// Opcodes 0x30 to 0x3F.
    pub open spec fn exec_row3(self, op: u8) -> Option<(CpuState, u32)> {
        let reg = self.reg;
        match op {
            0x30 => self.jr_if(!flag_of(reg.f, 4)),
            0x31 => match self.fetch16() {
                Some((t, w)) => Some((t.with_sp(w), 3)),
                None => None,
            },
            0x32 => if reg.hl() > 0 {
                timed(self.with_reg(reg.with_hl((reg.hl() - 1) as u16)).store(reg.hl(), reg.a), 2)
            } else {
                None
            },
            0x33 => Some((self.with_sp(((self.sp + 1) % 65536) as u16), 2)),
            0x34 => self.step_mem(true),
            0x35 => self.step_mem(false),
            0x36 => match self.fetch8() {
                Some((t, v)) => timed(t.store(t.reg.hl(), v), 3),
                None => None,
            },
            0x37 => Some((self.with_f(with_flag(with_flag(with_flag(reg.f, 4, true), 6, false), 5, false)), 1)),
            0x38 => self.jr_if(flag_of(reg.f, 4)),
            0x39 => Some((self.add_hl(self.sp), 2)),
            0x3a => if reg.hl() > 0 {
                match self.load(reg.hl()) {
                    Some(v) => Some((self.with_reg(Registers { a: v, ..reg.with_hl((reg.hl() - 1) as u16) }), 2)),
                    None => None,
                }
            } else {
                None
            },
            0x3b => Some((self.with_sp(((self.sp + 65535) % 65536) as u16), 2)),
            0x3f => Some((self.with_f(with_flag(with_flag(with_flag(reg.f, 4, !flag_of(reg.f, 4)), 6, false), 5, false)), 1)),
            _ => {
                let idx = op / 8;
                if op % 8 == 4 {
                    Some((self.inc_r(idx), 1))
                } else if op % 8 == 5 {
                    Some((self.dec_r(idx), 1))
                } else {
                    self.ld_r_n(idx)
                }
            },
        }
    }

    /// Opcodes 0x40 to 0x7F: loads between registers and memory at `hl`,
    /// and halt (0x76), which reads memory at `hl` first.
    pub open spec fn exec_ld(self, op: u8) -> Option<(CpuState, u32)> {
        let dst = (op - 0x40) / 8;
        let src = (op - 0x40) % 8;
        if src == 6 {
            match self.load(self.reg.hl()) {
                Some(v) => if dst == 6 {
                    Some((CpuState { halted: true, ..self }, 2))
                } else {
                    Some((self.with_reg(self.reg.with_r8(dst as u8, v)), 2))
                },
                None => None,
            }
        } else if dst == 6 {
            timed(self.store(self.reg.hl(), self.reg.r8(src as u8)), 2)
        } else {
            Some((self.with_reg(self.reg.with_r8(dst as u8, self.reg.r8(src as u8))), 1))
        }
    }

    /// Opcodes 0x80 to 0xBF: the operation `(op - 0x80) / 8` of `a` with a
    /// register or memory at `hl`.
    pub open spec fn exec_alu(self, op: u8) -> Option<(CpuState, u32)> {
        let kind = ((op - 0x80) / 8) as u8;
        let src = ((op - 0x80) % 8) as u8;
        if src == 6 {
            match self.load(self.reg.hl()) {
                Some(v) => Some((self.alu_op(kind, v), 2)),
                None => None,
            }
        } else {
            Some((self.alu_op(kind, self.reg.r8(src)), 1))
        }
    }

    /// Prefixed opcode `op` (the byte after 0xCB has been fetched).
    pub open spec fn exec_cb(self, op: u8) -> Option<(CpuState, u32)> {
        let idx = op % 8;
        let b = ((op % 64) / 8) as u8;
        if op < 0x40 {
            let kind = op / 8;
            if idx == 6 {
                match self.load(self.reg.hl()) {
                    Some(v) => {
                        let (r, f) = shift_op(kind, v, self.reg.f);
                        timed(self.with_f(f).store(self.reg.hl(), r), 4)
                    },
                    None => None,
                }
            } else {
                let (r, f) = shift_op(kind, self.reg.r8(idx), self.reg.f);
                Some((self.with_reg(self.reg.with_r8(idx, r).with_f(f)), 2))
            }
        } else if op < 0x80 {
            if idx == 6 {
                match self.load(self.reg.hl()) {
                    Some(v) => Some((self.with_f(bit_flags(self.reg.f, v, b)), 3)),
                    None => None,
                }
            } else {
                Some((self.with_f(bit_flags(self.reg.f, self.reg.r8(idx), b)), 2))
            }
        } else {
            let set = op >= 0xc0;
            if idx == 6 {
                match self.load(self.reg.hl()) {
                    Some(v) => timed(self.store(self.reg.hl(), with_flag(v, b, set)), 4),
                    None => None,
                }
            } else {
                Some((self.with_reg(self.reg.with_r8(idx, with_flag(self.reg.r8(idx), b, set))), 2))
            }
        }
    }

    /// Opcodes 0xC0 to 0xFF.
    pub open spec fn exec_high(self, op: u8) -> Option<(CpuState, u32)> {
        if op <= 0xcf {
            self.exec_row_c(op)
        } else if op <= 0xdf {
            self.exec_row_d(op)
        } else if op <= 0xef {
            self.exec_row_e(op)
        } else {
            self.exec_row_f(op)
        }
    }

    /// Opcodes 0xC0 to 0xCF.
    pub open spec fn exec_row_c(self, op: u8) -> Option<(CpuState, u32)> {
        let reg = self.reg;
        let z = flag_of(reg.f, 7);
        let c = flag_of(reg.f, 4);
        match op {
            0xc0 => self.ret_if(!z),
            0xc1 => match self.pop() {
                Some((t, v)) => Some((t.with_reg(t.reg.with_bc(v)), 3)),
                None => None,
            },
            0xc2 => self.jp_if(!z),
            0xc3 => self.jp_if(true),
            0xc4 => self.call_if(!z),
            0xc5 => timed(self.push(reg.bc()), 4),
            0xc6 => self.alu_imm(0),
            0xc8 => self.ret_if(z),
            0xc9 => timed(self.ret(), 4),
            0xca => self.jp_if(z),
            0xcb => match self.fetch8() {
                Some((t, op2)) => t.exec_cb(op2),
                None => None,
            },
            0xcc => self.call_if(z),
            0xcd => self.call_if(true),
            0xce => self.alu_imm(1),
            _ => if op % 8 == 7 {
                timed(self.call((op - 0xc7) as u16), 4)
            } else {
                None
            },
        }
    }

    /// Opcodes 0xD0 to 0xDF.
    pub open spec fn exec_row_d(self, op: u8) -> Option<(CpuState, u32)> {
        let reg = self.reg;
        let z = flag_of(reg.f, 7);
        let c = flag_of(reg.f, 4);
        match op {
            0xd0 => self.ret_if(!c),
            0xd1 => match self.pop() {
                Some((t, v)) => Some((t.with_reg(t.reg.with_de(v)), 3)),
                None => None,
            },
            0xd2 => self.jp_if(!c),
            0xd4 => self.call_if(!c),
            0xd5 => timed(self.push(reg.de()), 4),
            0xd6 => self.alu_imm(2),
            0xd8 => self.ret_if(c),
            0xd9 => timed(CpuState { ime: true, ..self }.ret(), 4),
            0xda => self.jp_if(c),
            0xdc => self.call_if(c),
            0xde => self.alu_imm(3),
            _ => if op % 8 == 7 {
                timed(self.call((op - 0xc7) as u16), 4)
            } else {
                None
            },
        }
    }

    /// Opcodes 0xE0 to 0xEF.
    pub open spec fn exec_row_e(self, op: u8) -> Option<(CpuState, u32)> {
        let reg = self.reg;
        let z = flag_of(reg.f, 7);
        let c = flag_of(reg.f, 4);
        match op {
            0xe0 => match self.fetch8() {
                Some((t, v)) => timed(t.store((0xff00 + v) as u16, t.reg.a), 3),
                None => None,
            },
            0xe1 => match self.pop() {
                Some((t, v)) => Some((t.with_reg(t.reg.with_hl(v)), 3)),
                None => None,
            },
            0xe2 => timed(self.store((0xff00 + reg.c) as u16, reg.a), 2),
            0xe5 => timed(self.push(reg.hl()), 4),
            0xe6 => self.alu_imm(4),
            0xe8 => match self.add_sp_imm() {
                Some((t, r)) => Some((t.with_sp(r), 4)),
                None => None,
            },
            0xe9 => Some((self.with_pc(reg.hl()), 1)),
            0xea => match self.fetch16() {
                Some((t, w)) => timed(t.store(w, t.reg.a), 4),
                None => None,
            },
            0xee => self.alu_imm(5),
            _ => if op % 8 == 7 {
                timed(self.call((op - 0xc7) as u16), 4)
            } else {
                None
            },
        }
    }

    /// Opcodes 0xF0 to 0xFF.
    pub open spec fn exec_row_f(self, op: u8) -> Option<(CpuState, u32)> {
        let reg = self.reg;
        let z = flag_of(reg.f, 7);
        let c = flag_of(reg.f, 4);
        match op {
            0xf0 => match self.fetch8() {
                Some((t, v)) => match t.load((0xff00 + v) as u16) {
                    Some(x) => Some((t.with_reg(Registers { a: x, ..t.reg }), 3)),
                    None => None,
                },
                None => None,
            },
            0xf1 => match self.pop() {
                Some((t, v)) => Some((t.with_reg(t.reg.with_af(((v as int / 16) * 16) as u16)), 3)),
                None => None,
            },
            0xf2 => match self.load((0xff00 + reg.c) as u16) {
                Some(x) => Some((self.with_reg(Registers { a: x, ..reg }), 2)),
                None => None,
            },
            0xf3 => Some((CpuState { ime: false, temp_ime: false, ..self }, 1)),
            0xf5 => timed(self.push(reg.af()), 4),
            0xf6 => self.alu_imm(6),
            0xf7 => timed(self.call(0x30), 4),
            0xf8 => match self.add_sp_imm() {
                Some((t, r)) => Some((t.with_reg(t.reg.with_hl(r)), 3)),
                None => None,
            },
            0xf9 => Some((self.with_sp(reg.hl()), 2)),
            0xfa => match self.fetch16() {
                Some((t, w)) => match t.load(w) {
                    Some(x) => Some((t.with_reg(Registers { a: x, ..t.reg }), 4)),
                    None => None,
                },
                None => None,
            },
            0xfb => Some((CpuState { ime: true, ..self }, 1)),
            0xfe => self.alu_imm(7),
            _ => if op % 8 == 7 {
                timed(self.call((op - 0xc7) as u16), 4)
            } else {
                None
            },
        }
    }

    /// The state and cycle count after the instruction `op` (already
    /// fetched); `None` where the instruction is not defined.
    pub open spec fn execute(self, op: u8) -> Option<(CpuState, u32)> {
        if op < 0x40 {
            self.exec_low(op)
        } else if op < 0x80 {
            self.exec_ld(op)
        } else if op < 0xc0 {
            self.exec_alu(op)
        } else {
            self.exec_high(op)
        }
    }

    /// The delayed interrupt-enable counters after one step.
    pub open spec fn update_ime(self) -> CpuState {
        let (setdi, ime1) = if self.setdi == 2 {
            (1u32, self.ime)
        } else if self.setdi == 1 {
            (0u32, false)
        } else {
            (0u32, self.ime)
        };
        let (setei, ime2) = if self.setei == 2 {
            (1u32, ime1)
        } else if self.setei == 1 {
            (0u32, true)
        } else {
            (0u32, ime1)
        };
        CpuState { setdi, setei, ime: ime2, ..self }
    }

    /// The pending interrupts: enabled and requested.
    pub open spec fn triggered(self) -> u8 {
        self.mmu.inte & self.mmu.intf
    }

    /// The state and cycle count after interrupt handling: a requested and
    /// enabled interrupt ends a halt and, when interrupts are enabled,
    /// clears its request, pushes the program counter and jumps to its
    /// vector 0x40 + 8 n, n being the lowest pending interrupt.
    pub open spec fn handle_interrupt(self) -> Option<(CpuState, u32)> {
        if !self.ime && !self.halted {
            Some((self, 0))
        } else if self.triggered() == 0 {
            Some((self, 0))
        } else if !self.ime {
            Some((CpuState { halted: false, ..self }, 0))
        } else {
            let n = u8_trailing_zeros(self.triggered());
            if n >= 5 {
                None
            } else {
                let s1 = CpuState {
                    halted: false,
                    ime: false,
                    mmu: MmuState { intf: with_flag(self.mmu.intf, n as u8, false), ..self.mmu },
                    ..self
                };
                match s1.push(s1.pc) {
                    Some(s2) => Some((s2.with_pc((0x40 + 8 * n) as u16), 4)),
                    None => None,
                }
            }
        }
    }

    /// The state and cycle count after one processor step: interrupt
    /// handling, else one instruction unless halted.
    pub open spec fn step(self) -> Option<(CpuState, u32)> {
        match self.update_ime().handle_interrupt() {
            Some((s, n)) => if n != 0 {
                Some((s, n))
            } else if s.halted {
                Some((s, 1))
            } else {
                match s.fetch8() {
                    Some((t, op)) => t.execute(op),
                    None => None,
                }
            },
            None => None,
        }
    }

    /// The state and the ticks of the video unit after one cycle of the
    /// machine: a processor step, then a memory-map step of four ticks per
    /// processor cycle.
    pub open spec fn cycle(self) -> Option<(CpuState, u32)> {
        match self.step() {
            Some((s, n)) => if n * 4 <= u32::MAX && s.mmu.cycle_ok((n * 4) as u32) {
                let (m, t) = s.mmu.cycle((n * 4) as u32);
                Some((s.with_mmu(m), t))
            } else {
                None
            },
            None => None,
        }
    }
}

/// A word pushed where both stack bytes are held is what the next pop
/// gives back, and the pop puts the stack pointer back where it was.
pub proof fn law_push_pop(s: CpuState, v: u16)
    requires
        s.wf(),
        s.sp >= 2,
        plain_addr((s.sp - 2) as u16),
        plain_addr((s.sp - 1) as u16),
    ensures
        s.push(v) is Some,
        s.push(v).unwrap().pop() is Some,
        s.push(v).unwrap().pop().unwrap().1 == v,
        s.push(v).unwrap().pop().unwrap().0.sp == s.sp,
{
    law_word_roundtrip(s.mmu, (s.sp - 2) as u16, v);
}

/// A return after a call, with both stack bytes held, comes back to where
/// the call was made with the stack pointer restored.
pub proof fn law_call_ret(s: CpuState, pointer: u16)
    requires
        s.wf(),
        s.sp >= 2,
        plain_addr((s.sp - 2) as u16),
        plain_addr((s.sp - 1) as u16),
    ensures
        s.call(pointer) is Some,
        s.call(pointer).unwrap().ret() is Some,
        s.call(pointer).unwrap().ret().unwrap().pc == s.pc,
        s.call(pointer).unwrap().ret().unwrap().sp == s.sp,
{
    law_push_pop(s, s.pc);
}

/// With interrupts enabled, the lowest pending interrupt of the five is
/// served: its request is cleared, further interrupts are disabled, the
/// program goes to its vector 0x40 + 8 n, and a return from there, with
/// both stack bytes held, comes back to where the program was.
pub proof fn law_interrupt_return(s: CpuState)
    requires
        s.wf(),
        s.ime,
        s.triggered() != 0,
        u8_trailing_zeros(s.triggered()) < 5,
        s.sp >= 2,
        plain_addr((s.sp - 2) as u16),
        plain_addr((s.sp - 1) as u16),
        s.sp - 2 != 0xff0f,
        s.sp - 1 != 0xff0f,
    ensures
        s.handle_interrupt() is Some,
        s.handle_interrupt().unwrap().1 == 4,
        s.handle_interrupt().unwrap().0.pc == 0x40 + 8 * u8_trailing_zeros(s.triggered()),
        !s.handle_interrupt().unwrap().0.ime,
        !flag_of(s.handle_interrupt().unwrap().0.mmu.intf, u8_trailing_zeros(s.triggered()) as u8),
        s.handle_interrupt().unwrap().0.ret() is Some,
        s.handle_interrupt().unwrap().0.ret().unwrap().pc == s.pc,
        s.handle_interrupt().unwrap().0.ret().unwrap().sp == s.sp,
{
    let n = u8_trailing_zeros(s.triggered());
    let s1 = CpuState {
        halted: false,
        ime: false,
        mmu: MmuState { intf: with_flag(s.mmu.intf, n as u8, false), ..s.mmu },
        ..s
    };
    crate::cpu::registers::law_flag_roundtrip(s.mmu.intf, n as u8, false);
    law_push_pop(s1, s1.pc);
    let lo = (s1.pc as int % 256) as u8;
    let hi = (s1.pc as int / 256) as u8;
    let m1 = s1.mmu;
    let m2 = m1.write((s.sp - 2) as u16, lo);
    lemma_plain_access(m1, (s.sp - 2) as u16, lo);
    law_write_keeps_others(m1, (s.sp - 2) as u16, 0xff0f, lo);
    law_write_keeps_others(m2, (s.sp - 1) as u16, 0xff0f, hi);
    reveal(MmuState::read);
}

/// A call through opcode 0xCD to the word that follows it, and a return
/// through opcode 0xC9, come back to the address after that word with the
/// stack pointer restored, when both stack bytes are held and lie apart
/// from the two bytes of the word.
pub proof fn law_call_ret_opcodes(s: CpuState)
    requires
        s.wf(),
        s.pc <= 0xfffd,
        s.mmu.read_ok(s.pc),
        s.mmu.read_ok((s.pc + 1) as u16),
        s.sp >= 2,
        plain_addr((s.sp - 2) as u16),
        plain_addr((s.sp - 1) as u16),
        s.sp - 2 != s.pc,
        s.sp - 2 != s.pc + 1,
        s.sp - 1 != s.pc,
        s.sp - 1 != s.pc + 1,
    ensures
        s.execute(0xcd) is Some,
        s.execute(0xcd).unwrap().1 == 6,
        s.execute(0xcd).unwrap().0.pc == s.mmu.read_word(s.pc),
        s.execute(0xcd).unwrap().0.sp == s.sp - 2,
        s.execute(0xcd).unwrap().0.execute(0xc9) is Some,
        s.execute(0xcd).unwrap().0.execute(0xc9).unwrap().1 == 4,
        s.execute(0xcd).unwrap().0.execute(0xc9).unwrap().0.pc == s.pc + 2,
        s.execute(0xcd).unwrap().0.execute(0xc9).unwrap().0.sp == s.sp,
{
    let ret = (s.pc + 2) as u16;
    law_push_pop(s, ret);
    let lo = (ret as int % 256) as u8;
    let hi = (ret as int / 256) as u8;
    let a = (s.sp - 2) as u16;
    let b = (s.sp - 1) as u16;
    let m1 = s.mmu.write(a, lo);
    lemma_plain_access(s.mmu, a, lo);
    law_write_keeps_readable(s.mmu, a, s.pc, lo);
    law_write_keeps_readable(s.mmu, a, (s.pc + 1) as u16, lo);
    law_write_keeps_readable(m1, b, s.pc, hi);
    law_write_keeps_readable(m1, b, (s.pc + 1) as u16, hi);
    let t = s.push(ret).unwrap();
    assert(t.mmu == s.mmu.write_word(a, ret));
    assert(t.fetch16() is Some);
    assert(t.fetch16().unwrap().1 == s.mmu.read_word(s.pc));
}

} // verus!
