use vstd::prelude::*;
use crate::cpu::Cpu;
use crate::cpu::isa::{CpuState, shift_op};
use crate::cpu::alu::{inc8, dec8, lemma_u8_ops};
use crate::cpu::mmu::{read_ok_in, lemma_write_keeps_control, lemma_word_bytes, lemma_word_write_ok};
use crate::cpu::registers::with_flag;

verus! {

/// The byte that the rotation or shift `kind` of the prefixed group makes of `v`.
fn shift_value(kind: u8, v: u8, Ghost(f): Ghost<u8>) -> (r: u8)
    requires
        kind < 8,
    ensures
        r == shift_op(kind, v, f).0,
{
    proof {
        lemma_u8_ops();
    }
    if kind == 0 || kind == 2 {
        if v & 0x80 == 0x80 {
            (v << 1i32) | 1u8
        } else {
            (v << 1i32) | 0u8
        }
    } else if kind == 1 || kind == 3 {
        if v & 0x01 == 0x01 {
            (v >> 1i32) | 0x80u8
        } else {
            (v >> 1i32) | 0u8
        }
    } else if kind == 4 {
        v << 1i32
    } else if kind == 5 {
        (v >> 1i32) | (v & 0x80)
    } else if kind == 6 {
        ((v & 0x0F) << 4i32) | (v >> 4i32)
    } else {
        v >> 1i32
    }
}

impl Cpu {
    /// Whether the byte at `pc` can be fetched.
    fn fetch8_ok(&self, pc: u16) -> (r: bool)
        ensures
            r == (pc < 0xffff && self.mmu@.read_ok(pc)),
    {
        pc < 0xffff && self.mmu.read_ok(pc)
    }

    /// Whether the word at `pc` can be fetched.
    fn fetch16_ok(&self, pc: u16) -> (r: bool)
        ensures
            r == (pc <= 0xfffd && self.mmu@.read_word_ok(pc)),
    {
        pc <= 0xfffd && self.mmu.read_ok(pc) && self.mmu.read_ok(pc + 1)
    }

    /// Whether `v` can be pushed on the stack.
    fn push_ok(&self, v: u16) -> (r: bool)
        requires
            self.wf(),
        ensures
            r == (self.sp >= 2 && self.mmu@.write_word_ok((self.sp - 2) as u16, v)),
    {
        self.sp >= 2 && self.mmu.write_word_ok(self.sp - 2, v)
    }

    /// Whether a word can be popped from the stack.
    fn pop_ok(&self) -> (r: bool)
        ensures
            r == (self.sp <= 0xfffd && self.mmu@.read_word_ok(self.sp)),
    {
        self.sp <= 0xfffd && self.mmu.read_ok(self.sp) && self.mmu.read_ok(self.sp + 1)
    }

    /// Whether a call from `pc` is defined: the address after the word is
    /// pushed, then the word is read with the bank that the push leaves.
    fn call_ok(&self, pc: u16, Ghost(t): Ghost<CpuState>) -> (r: bool)
        requires
            self.wf(),
            t.reg == self.reg,
            t.pc == pc,
            t.sp == self.sp,
            t.mmu == self.mmu@,
        ensures
            r == (t.call_if(true) is Some),
    {
        if pc > 0xfffd {
            return false;
        }
        let ret = pc + 2;
        if !self.push_ok(ret) {
            return false;
        }
        let a = self.sp - 2;
        let b = self.sp - 1;
        let hi = (ret >> 8) as u8;
        let lo = ret as u8;
        proof {
            lemma_word_bytes(ret);
            lemma_write_keeps_control(t.mmu, a, lo);
            lemma_write_keeps_control(t.mmu.write(a, lo), b, hi);
        }
        let bank1 = if 0x2000 <= a && a <= 0x3fff {
            lo & 0x0f
        } else {
            self.mmu.current_bank
        };
        let bank2 = if 0x2000 <= b && b <= 0x3fff {
            hi & 0x0f
        } else {
            bank1
        };
        read_ok_in(pc, bank2) && read_ok_in(pc + 1, bank2)
    }

    /// Whether a store of `v` at `loc` is defined.
    fn store_ok(&self, loc: u16, v: u8) -> (r: bool)
        requires
            self.wf(),
        ensures
            r == self.mmu@.write_ok(loc, v),
    {
        self.mmu.write_ok(loc, v)
    }

    /// Whether the instruction at `op` of the group 0x00 to 0x3F that
    /// increments, decrements or loads a register is defined.
    fn reg_op_ok(&self, pc: u16, op: u8) -> (r: bool)
        ensures
            r == (op % 8 == 4 || op % 8 == 5 || (pc < 0xffff && self.mmu@.read_ok(pc))),
    {
        op % 8 == 4 || op % 8 == 5 || self.fetch8_ok(pc)
    }

    /// Whether a relative jump on `cond` is defined.
    fn jr_ok(&self, pc: u16, cond: bool, Ghost(t): Ghost<CpuState>) -> (r: bool)
        requires
            self.wf(),
            t.reg == self.reg,
            t.pc == pc,
            t.sp == self.sp,
            t.mmu == self.mmu@,
        ensures
            r == (t.jr_if(cond) is Some),
    {
        if cond {
            self.fetch8_ok(pc)
        } else {
            pc <= 0xfffe
        }
    }

    /// Whether the byte at `hl` can be read and `f` of it written back.
    fn step_mem_ok(&self, inc: bool, Ghost(t): Ghost<CpuState>) -> (r: bool)
        requires
            self.wf(),
            t.reg == self.reg,
            t.sp == self.sp,
            t.mmu == self.mmu@,
        ensures
            r == (t.step_mem(inc) is Some),
    {
        let hl = self.reg.get_hl();
        if !self.mmu.read_ok(hl) {
            return false;
        }
        let v = self.mmu.read_byte(hl);
        let res = if inc {
            v.wrapping_add(1)
        } else {
            v.wrapping_sub(1)
        };
        assert(res == (if inc { inc8(t.reg.f, v).0 } else { dec8(t.reg.f, v).0 }));
        self.store_ok(hl, res)
    }

    /// Whether opcode `op` (0x00 to 0x3F) is defined.
    #[verifier::rlimit(40)]
    fn low_ok(&self, pc: u16, op: u8, Ghost(t): Ghost<CpuState>) -> (r: bool)
        requires
            self.wf(),
            t.reg == self.reg,
            t.pc == pc,
            t.sp == self.sp,
            t.mmu == self.mmu@,
            op < 0x40,
        ensures
            r == (t.exec_low(op) is Some),
    {
        let z = self.reg.get_flag(7);
        let c = self.reg.get_flag(4);
        let hl = self.reg.get_hl();
        let a = self.reg.a;
        match op {
            0x00 | 0x03 | 0x07 | 0x09 | 0x0b | 0x0f | 0x10 | 0x13 | 0x17 | 0x19 | 0x1b | 0x1f | 0x23
            | 0x27 | 0x29 | 0x2b | 0x2f | 0x33 | 0x37 | 0x39 | 0x3b | 0x3f => true,
            0x01 | 0x11 | 0x21 | 0x31 => self.fetch16_ok(pc),
            0x02 => self.store_ok(self.reg.get_bc(), a),
            0x12 => self.store_ok(self.reg.get_de(), a),
            0x22 => hl < 0xffff && self.store_ok(hl, a),
            0x32 => hl > 0 && self.store_ok(hl, a),
            0x0a => self.mmu.read_ok(self.reg.get_bc()),
            0x1a => self.mmu.read_ok(self.reg.get_de()),
            0x2a => hl < 0xffff && self.mmu.read_ok(hl),
            0x3a => hl > 0 && self.mmu.read_ok(hl),
            0x08 => {
                if !self.fetch16_ok(pc) {
                    return false;
                }
                let w = self.mmu.read_word(pc);
                self.mmu.write_word_ok(w, self.sp)
            },
            0x18 => self.fetch8_ok(pc),
            0x20 => self.jr_ok(pc, !z, Ghost(t)),
            0x28 => self.jr_ok(pc, z, Ghost(t)),
            0x30 => self.jr_ok(pc, !c, Ghost(t)),
            0x38 => self.jr_ok(pc, c, Ghost(t)),
            0x34 => self.step_mem_ok(true, Ghost(t)),
            0x35 => self.step_mem_ok(false, Ghost(t)),
            0x36 => {
                if !self.fetch8_ok(pc) {
                    return false;
                }
                let v = self.mmu.read_byte(pc);
                self.store_ok(hl, v)
            },
            _ => self.reg_op_ok(pc, op),
        }
    }

    /// Whether opcode `op` (0x40 to 0x7F) is defined.
    fn ld_ok(&self, op: u8, Ghost(t): Ghost<CpuState>) -> (r: bool)
        requires
            self.wf(),
            t.reg == self.reg,
            t.sp == self.sp,
            t.mmu == self.mmu@,
            0x40 <= op < 0x80,
        ensures
            r == (t.exec_ld(op) is Some),
    {
        let dst = (op - 0x40) / 8;
        let src = (op - 0x40) % 8;
        if src == 6 {
            self.mmu.read_ok(self.reg.get_hl())
        } else if dst == 6 {
            self.store_ok(self.reg.get_hl(), self.get_r8(src))
        } else {
            true
        }
    }

    /// Whether prefixed opcode `op` is defined.
    fn cb_ok(&self, op: u8, Ghost(t): Ghost<CpuState>) -> (r: bool)
        requires
            self.wf(),
            t.reg == self.reg,
            t.sp == self.sp,
            t.mmu == self.mmu@,
        ensures
            r == (t.exec_cb(op) is Some),
    {
        let idx = op % 8;
        if idx != 6 {
            return true;
        }
        let hl = self.reg.get_hl();
        if !self.mmu.read_ok(hl) {
            return false;
        }
        let v = self.mmu.read_byte(hl);
        let b = (op % 64) / 8;
        if op < 0x40 {
            let res = shift_value(op / 8, v, Ghost(t.reg.f));
            self.store_ok(hl, res)
        } else if op < 0x80 {
            true
        } else if op < 0xc0 {
            let res = self.res(b, v);
            self.store_ok(hl, res)
        } else {
            let res = self.set(b, v);
            self.store_ok(hl, res)
        }
    }

    /// Whether opcode `op` (0xC0 to 0xFF) is defined.
    #[verifier::rlimit(40)]
    fn high_ok(&self, pc: u16, op: u8, Ghost(t): Ghost<CpuState>) -> (r: bool)
        requires
            self.wf(),
            t.reg == self.reg,
            t.pc == pc,
            t.sp == self.sp,
            t.mmu == self.mmu@,
            op >= 0xc0,
        ensures
            r == (t.exec_high(op) is Some),
    {
        let z = self.reg.get_flag(7);
        let c = self.reg.get_flag(4);
        let a = self.reg.a;
        match op {
            0xc0 => z || self.pop_ok(),
            0xc8 => !z || self.pop_ok(),
            0xd0 => c || self.pop_ok(),
            0xd8 => !c || self.pop_ok(),
            0xc1 | 0xd1 | 0xe1 | 0xf1 | 0xc9 | 0xd9 => self.pop_ok(),
            0xc2 => if !z { self.fetch16_ok(pc) } else { pc <= 0xfffd },
            0xca => if z { self.fetch16_ok(pc) } else { pc <= 0xfffd },
            0xd2 => if !c { self.fetch16_ok(pc) } else { pc <= 0xfffd },
            0xda => if c { self.fetch16_ok(pc) } else { pc <= 0xfffd },
            0xc3 => self.fetch16_ok(pc),
            0xc4 => if !z { self.call_ok(pc, Ghost(t)) } else { pc <= 0xfffd },
            0xcc => if z { self.call_ok(pc, Ghost(t)) } else { pc <= 0xfffd },
            0xd4 => if !c { self.call_ok(pc, Ghost(t)) } else { pc <= 0xfffd },
            0xdc => if c { self.call_ok(pc, Ghost(t)) } else { pc <= 0xfffd },
            0xcd => self.call_ok(pc, Ghost(t)),
            0xc5 => self.push_ok(self.reg.get_bc()),
            0xd5 => self.push_ok(self.reg.get_de()),
            0xe5 => self.push_ok(self.reg.get_hl()),
            0xf5 => self.push_ok(self.reg.get_af()),
            0xc6 | 0xce | 0xd6 | 0xde | 0xe6 | 0xee | 0xf6 | 0xfe | 0xe8 | 0xf8 => self.fetch8_ok(pc),
            0xcb => {
                if !self.fetch8_ok(pc) {
                    return false;
                }
                let op2 = self.mmu.read_byte(pc);
                self.cb_ok(op2, Ghost(CpuState { pc: (pc + 1) as u16, ..t }))
            },
            0xe0 => {
                if !self.fetch8_ok(pc) {
                    return false;
                }
                let v = self.mmu.read_byte(pc);
                self.store_ok(0xff00 + v as u16, a)
            },
            0xf0 => {
                if !self.fetch8_ok(pc) {
                    return false;
                }
                let v = self.mmu.read_byte(pc);
                self.mmu.read_ok(0xff00 + v as u16)
            },
            0xe2 => self.store_ok(0xff00 + self.reg.c as u16, a),
            0xf2 => self.mmu.read_ok(0xff00 + self.reg.c as u16),
            0xea => {
                if !self.fetch16_ok(pc) {
                    return false;
                }
                let w = self.mmu.read_word(pc);
                self.store_ok(w, a)
            },
            0xfa => {
                if !self.fetch16_ok(pc) {
                    return false;
                }
                let w = self.mmu.read_word(pc);
                self.mmu.read_ok(w)
            },
            0xe9 | 0xf3 | 0xf9 | 0xfb => true,
            0xd3 | 0xdb | 0xdd | 0xe3 | 0xe4 | 0xeb | 0xec | 0xed | 0xf4 | 0xfc | 0xfd => false,
            _ => self.push_ok(pc),
        }
    }

    /// Whether the instruction `op`, fetched from just before `pc`, is
    /// defined in a state with these registers, stack pointer and memory.
    fn execute_ok(&self, pc: u16, op: u8, Ghost(t): Ghost<CpuState>) -> (r: bool)
        requires
            self.wf(),
            t.reg == self.reg,
            t.pc == pc,
            t.sp == self.sp,
            t.mmu == self.mmu@,
        ensures
            r == (t.execute(op) is Some),
    {
        if op < 0x40 {
            self.low_ok(pc, op, Ghost(t))
        } else if op < 0x80 {
            self.ld_ok(op, Ghost(t))
        } else if op < 0xc0 {
            let src = (op - 0x80) % 8;
            src != 6 || self.mmu.read_ok(self.reg.get_hl())
        } else {
            self.high_ok(pc, op, Ghost(t))
        }
    }

    /// Whether the next processor step is defined: the interrupt that it
    /// serves can be pushed, or the instruction at the program counter can
    /// be fetched and carried out.
    pub fn step_defined(&self) -> (r: bool)
        requires
            self.wf(),
        ensures
            r == (self@.step() is Some),
    {
        let ghost u = self@.update_ime();
        let ime1 = if self.setdi == 2 {
            self.ime
        } else if self.setdi == 1 {
            false
        } else {
            self.ime
        };
        let ime2 = if self.setei == 2 {
            ime1
        } else if self.setei == 1 {
            true
        } else {
            ime1
        };
        assert(ime2 == u.ime);
        let triggered = self.mmu.inte & self.mmu.intf;
        let mut halted = self.halted;
        if (ime2 || self.halted) && triggered != 0 {
            halted = false;
            if ime2 {
                let n = triggered.trailing_zeros();
                if n >= 5 {
                    return false;
                }
                proof {
                    let s1 = CpuState {
                        halted: false,
                        ime: false,
                        mmu: crate::cpu::mmu::MmuState {
                            intf: with_flag(u.mmu.intf, n as u8, false),
                            ..u.mmu
                        },
                        ..u
                    };
                    if self.sp >= 2 {
                        let loc = (self.sp - 2) as u16;
                        let lo = (self.pc as int % 256) as u8;
                        let hi = (self.pc as int / 256) as u8;
                        lemma_word_write_ok(s1.mmu, loc, lo, hi);
                        lemma_word_write_ok(self.mmu@, loc, lo, hi);
                    }
                }
                return self.push_ok(self.pc);
            }
        }
        if halted {
            return true;
        }
        if !self.fetch8_ok(self.pc) {
            return false;
        }
        let op = self.mmu.read_byte(self.pc);
        self.execute_ok(self.pc + 1, op, Ghost(CpuState { pc: (self.pc + 1) as u16, halted: false, ..u }))
    }
}

} // verus!
