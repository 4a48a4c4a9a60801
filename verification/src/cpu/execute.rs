use vstd::prelude::*;
use crate::cpu::Cpu;
use crate::cpu::registers::flags;
use crate::cpu::alu::lemma_wrap16;

verus! {

impl Cpu {
    /// Carries out the instruction `op` (already fetched) and returns the
    /// number of cycles it takes.
    pub fn execute(&mut self, op: u8) -> (r: u32)
        requires
            old(self).wf(),
            old(self)@.execute(op) is Some,
        ensures
            final(self).wf(),
            (final(self)@, r) == old(self)@.execute(op).unwrap(),
    {
        if op < 0x40 {
            self.execute_low(op)
        } else if op < 0x80 {
            self.execute_ld(op)
        } else if op < 0xc0 {
            self.execute_alu(op)
        } else {
            self.execute_high(op)
        }
    }

    /// Loads between registers and memory (`ld r, r'`), and halt.
    fn execute_ld(&mut self, op: u8) -> (r: u32)
        requires
            old(self).wf(),
            0x40 <= op < 0x80,
            old(self)@.exec_ld(op) is Some,
        ensures
            final(self).wf(),
            (final(self)@, r) == old(self)@.exec_ld(op).unwrap(),
    {
        let params = op - 0x40;
        let first_param = params / 8;
        let position = params % 8;
        if position == 6 || position == 0xe {
            let value = self.mmu.read_byte(self.reg.get_hl());
            if first_param == 6 {
                self.halted = true
            } else {
                self.set_r8(first_param, value);
            }
            2
        } else {
            let second_param_final = self.get_r8(position);
            if first_param == 6 {
                let hl = self.reg.get_hl();
                self.mmu.write_byte(hl, second_param_final);
                2
            } else {
                self.set_r8(first_param, second_param_final);
                1
            }
        }
    }

    /// The operation of `a` with a register or memory at `hl`, chosen by
    /// `(op - 0x80) / 8`.
    fn execute_alu(&mut self, op: u8) -> (r: u32)
        requires
            old(self).wf(),
            0x80 <= op < 0xc0,
            old(self)@.exec_alu(op) is Some,
        ensures
            final(self).wf(),
            (final(self)@, r) == old(self)@.exec_alu(op).unwrap(),
    {
        let kind = (op - 0x80) / 8;
        let position = (op - 0x80) % 8;
        let (value, timing) = if position == 6 {
            (self.mmu.read_byte(self.reg.get_hl()), 2)
        } else {
            (self.get_r8(position), 1)
        };
        match kind {
            0 => self.add_byte(value, false),
            1 => self.adc(value),
            2 => self.sub(value, false),
            3 => self.sub(value, true),
            4 => self.and(value),
            5 => self.xor(value),
            6 => self.or(value),
            _ => self.cp(value),
        }
        timing
    }

    /// Opcodes 0x00 to 0x3F.
    fn execute_low(&mut self, op: u8) -> (r: u32)
        requires
            old(self).wf(),
            op < 0x40,
            old(self)@.exec_low(op) is Some,
        ensures
            final(self).wf(),
            (final(self)@, r) == old(self)@.exec_low(op).unwrap(),
    {
        if op <= 0x0f {
            self.execute_row0(op)
        } else if op <= 0x1f {
            self.execute_row1(op)
        } else if op <= 0x2f {
            self.execute_row2(op)
        } else {
            self.execute_row3(op)
        }
    }

    /// Opcodes 0x00 to 0x0f.
    fn execute_row0(&mut self, op: u8) -> (r: u32)
        requires
            old(self).wf(),
            0x00 <= op <= 0x0f,
            old(self)@.exec_row0(op) is Some,
        ensures
            final(self).wf(),
            (final(self)@, r) == old(self)@.exec_row0(op).unwrap(),
    {
        if op <= 0x07 {
            self.execute_row0a(op)
        } else {
            self.execute_row0b(op)
        }
    }

    /// Opcodes 0x00 to 0x07.
    #[verifier::spinoff_prover]
    fn execute_row0a(&mut self, op: u8) -> (r: u32)
        requires
            old(self).wf(),
            0x00 <= op <= 0x07,
            old(self)@.exec_row0(op) is Some,
        ensures
            final(self).wf(),
            (final(self)@, r) == old(self)@.exec_row0(op).unwrap(),
    {
        proof {
            lemma_wrap16(self.reg.bc());
            lemma_wrap16(self.reg.de());
            lemma_wrap16(self.reg.hl());
            lemma_wrap16(self.sp);
        }
        match op {
            0x00 => { 1 },
            0x01 => {
                let word = self.fetch_word();
                self.reg.set_bc(word);
                3
            },
            0x02 => {
                let p = self.reg.get_bc();
                self.mmu.write_byte(p, self.reg.a);
                2
            },
            0x03 => {
                self.reg.set_bc(self.reg.get_bc().wrapping_add(1));
                2
            },
            0x04 => {
                self.reg.b = self.inc(self.reg.b);
                1
            },
            0x05 => {
                self.reg.b = self.dec(self.reg.b);
                1
            },
            0x06 => {
                self.reg.b = self.fetch_byte();
                2
            },
            0x07 => {
                self.reg.a = self.rlc(self.reg.a);
                self.reg.set_flag(flags::Z, false);
                1
            },
            _ => {
                proof {
                    assert(false);
                }
                0
            },
        }
    }

    /// Opcodes 0x08 to 0x0f.
    #[verifier::spinoff_prover]
    fn execute_row0b(&mut self, op: u8) -> (r: u32)
        requires
            old(self).wf(),
            0x08 <= op <= 0x0f,
            old(self)@.exec_row0(op) is Some,
        ensures
            final(self).wf(),
            (final(self)@, r) == old(self)@.exec_row0(op).unwrap(),
    {
        proof {
            lemma_wrap16(self.reg.bc());
            lemma_wrap16(self.reg.de());
            lemma_wrap16(self.reg.hl());
            lemma_wrap16(self.sp);
        }
        match op {
            0x08 => {
                let word = self.fetch_word();
                self.mmu.write_word(word, self.sp);
                5
            },
            0x09 => {
                let res = self.add_word(self.reg.get_hl(), self.reg.get_bc());
                self.reg.set_hl(res);
                2
            },
            0x0a => {
                self.reg.a = self.mmu.read_byte(self.reg.get_bc());
                2
            },
            0x0b => {
                self.reg.set_bc(self.reg.get_bc().wrapping_sub(1));
                2
            },
            0x0c => {
                self.reg.c = self.inc(self.reg.c);
                1
            },
            0x0d => {
                self.reg.c = self.dec(self.reg.c);
                1
            },
            0x0e => {
                self.reg.c = self.fetch_byte();
                2
            },
            0x0f => {
                self.reg.a = self.rrc(self.reg.a);
                self.reg.set_flag(flags::Z, false);
                1
            },
            _ => {
                proof {
                    assert(false);
                }
                0
            },
        }
    }

    /// Opcodes 0x10 to 0x1f.
    fn execute_row1(&mut self, op: u8) -> (r: u32)
        requires
            old(self).wf(),
            0x10 <= op <= 0x1f,
            old(self)@.exec_row1(op) is Some,
        ensures
            final(self).wf(),
            (final(self)@, r) == old(self)@.exec_row1(op).unwrap(),
    {
        if op <= 0x17 {
            self.execute_row1a(op)
        } else {
            self.execute_row1b(op)
        }
    }

    /// Opcodes 0x10 to 0x17.
    #[verifier::spinoff_prover]
    fn execute_row1a(&mut self, op: u8) -> (r: u32)
        requires
            old(self).wf(),
            0x10 <= op <= 0x17,
            old(self)@.exec_row1(op) is Some,
        ensures
            final(self).wf(),
            (final(self)@, r) == old(self)@.exec_row1(op).unwrap(),
    {
        proof {
            lemma_wrap16(self.reg.bc());
            lemma_wrap16(self.reg.de());
            lemma_wrap16(self.reg.hl());
            lemma_wrap16(self.sp);
        }
        match op {
            0x10 => { 1 },
            0x11 => {
                let word = self.fetch_word();
                self.reg.set_de(word);
                3
            },
            0x12 => {
                let p = self.reg.get_de();
                self.mmu.write_byte(p, self.reg.a);
                2
            },
            0x13 => {
                self.reg.set_de(self.reg.get_de().wrapping_add(1));
                2
            },
            0x14 => {
                self.reg.d = self.inc(self.reg.d);
                1
            },
            0x15 => {
                self.reg.d = self.dec(self.reg.d);
                1
            },
            0x16 => {
                self.reg.d = self.fetch_byte();
                2
            },
            0x17 => {
                self.reg.a = self.rl(self.reg.a);
                self.reg.set_flag(flags::Z, false);
                1
            },
            _ => {
                proof {
                    assert(false);
                }
                0
            },
        }
    }

    /// Opcodes 0x18 to 0x1f.
    #[verifier::spinoff_prover]
    fn execute_row1b(&mut self, op: u8) -> (r: u32)
        requires
            old(self).wf(),
            0x18 <= op <= 0x1f,
            old(self)@.exec_row1(op) is Some,
        ensures
            final(self).wf(),
            (final(self)@, r) == old(self)@.exec_row1(op).unwrap(),
    {
        proof {
            lemma_wrap16(self.reg.bc());
            lemma_wrap16(self.reg.de());
            lemma_wrap16(self.reg.hl());
            lemma_wrap16(self.sp);
        }
        match op {
            0x18 => {
                self.jr();
                3
            },
            0x19 => {
                let res = self.add_word(self.reg.get_hl(), self.reg.get_de());
                self.reg.set_hl(res);
                2
            },
            0x1a => {
                self.reg.a = self.mmu.read_byte(self.reg.get_de());
                2
            },
            0x1b => {
                self.reg.set_de(self.reg.get_de().wrapping_sub(1));
                2
            },
            0x1c => {
                self.reg.e = self.inc(self.reg.e);
                1
            },
            0x1d => {
                self.reg.e = self.dec(self.reg.e);
                1
            },
            0x1e => {
                self.reg.e = self.fetch_byte();
                2
            },
            0x1F => {
                self.reg.a = self.rr(self.reg.a);
                self.reg.set_flag(flags::Z, false);
                1
            },
            _ => {
                proof {
                    assert(false);
                }
                0
            },
        }
    }

    /// Opcodes 0x20 to 0x2f.
    fn execute_row2(&mut self, op: u8) -> (r: u32)
        requires
            old(self).wf(),
            0x20 <= op <= 0x2f,
            old(self)@.exec_row2(op) is Some,
        ensures
            final(self).wf(),
            (final(self)@, r) == old(self)@.exec_row2(op).unwrap(),
    {
        if op <= 0x27 {
            self.execute_row2a(op)
        } else {
            self.execute_row2b(op)
        }
    }

    /// Opcodes 0x20 to 0x27.
    #[verifier::spinoff_prover]
    fn execute_row2a(&mut self, op: u8) -> (r: u32)
        requires
            old(self).wf(),
            0x20 <= op <= 0x27,
            old(self)@.exec_row2(op) is Some,
        ensures
            final(self).wf(),
            (final(self)@, r) == old(self)@.exec_row2(op).unwrap(),
    {
        proof {
            lemma_wrap16(self.reg.bc());
            lemma_wrap16(self.reg.de());
            lemma_wrap16(self.reg.hl());
            lemma_wrap16(self.sp);
        }
        match op {
            0x20 => {
                if !self.reg.get_flag(flags::Z) {
                    self.jr();
                    3
                } else {
                    self.pc += 1;
                    2
                }
            },
            0x21 => {
                let word = self.fetch_word();
                self.reg.set_hl(word);
                3
            },
            0x22 => {
                let p = self.reg.get_hl();
                self.reg.set_hl(p + 1);
                self.mmu.write_byte(p, self.reg.a);
                2
            },
            0x23 => {
                self.reg.set_hl(self.reg.get_hl().wrapping_add(1));
                2
            },
            0x24 => {
                self.reg.h = self.inc(self.reg.h);
                1
            },
            0x25 => {
                self.reg.h = self.dec(self.reg.h);
                1
            },
            0x26 => {
                self.reg.h = self.fetch_byte();
                2
            },
            0x27 => {
                // DAA - Decimal adjust accumulator to get a correct BCD representation after an arithmetic instruction.
                self.daa();
                1
            },
            _ => {
                proof {
                    assert(false);
                }
                0
            },
        }
    }

    /// Opcodes 0x28 to 0x2f.
    #[verifier::spinoff_prover]
    fn execute_row2b(&mut self, op: u8) -> (r: u32)
        requires
            old(self).wf(),
            0x28 <= op <= 0x2f,
            old(self)@.exec_row2(op) is Some,
        ensures
            final(self).wf(),
            (final(self)@, r) == old(self)@.exec_row2(op).unwrap(),
    {
        proof {
            lemma_wrap16(self.reg.bc());
            lemma_wrap16(self.reg.de());
            lemma_wrap16(self.reg.hl());
            lemma_wrap16(self.sp);
        }
        match op {
            0x28 => {
                if self.reg.get_flag(flags::Z) {
                    self.jr();
                    3
                } else {
                    self.pc += 1;
                    2
                }
            },
            0x29 => {
                let res = self.add_word(self.reg.get_hl(), self.reg.get_hl());
                self.reg.set_hl(res);
                2
            },
            0x2a => {
                let p = self.reg.get_hl();
                self.reg.set_hl(p + 1);
                self.reg.a = self.mmu.read_byte(p);
                2
            },
            0x2b => {
                self.reg.set_hl(self.reg.get_hl().wrapping_sub(1));
                2
            },
            0x2c => {
                self.reg.l = self.inc(self.reg.l);
                1
            },
            0x2d => {
                self.reg.l = self.dec(self.reg.l);
                1
            },
            0x2e => {
                self.reg.l = self.fetch_byte();
                2
            },
            0x2f => {
                proof {
                    crate::cpu::alu::lemma_u8_ops();
                }
                self.reg.a = !self.reg.a;
                self.reg.set_flag(flags::N, true);
                self.reg.set_flag(flags::H, true);
                1
            },
            _ => {
                proof {
                    assert(false);
                }
                0
            },
        }
    }

    /// Opcodes 0x30 to 0x3f.
    fn execute_row3(&mut self, op: u8) -> (r: u32)
        requires
            old(self).wf(),
            0x30 <= op <= 0x3f,
            old(self)@.exec_row3(op) is Some,
        ensures
            final(self).wf(),
            (final(self)@, r) == old(self)@.exec_row3(op).unwrap(),
    {
        if op <= 0x37 {
            self.execute_row3a(op)
        } else {
            self.execute_row3b(op)
        }
    }

    /// Opcodes 0x30 to 0x37.
    #[verifier::spinoff_prover]
    fn execute_row3a(&mut self, op: u8) -> (r: u32)
        requires
            old(self).wf(),
            0x30 <= op <= 0x37,
            old(self)@.exec_row3(op) is Some,
        ensures
            final(self).wf(),
            (final(self)@, r) == old(self)@.exec_row3(op).unwrap(),
    {
        proof {
            lemma_wrap16(self.reg.bc());
            lemma_wrap16(self.reg.de());
            lemma_wrap16(self.reg.hl());
            lemma_wrap16(self.sp);
        }
        match op {
            0x30 => {
                if !self.reg.get_flag(flags::C) {
                    self.jr();
                    3
                } else {
                    self.pc += 1;
                    2
                }
            },
            0x31 => {
                self.sp = self.fetch_word();
                3
            },
            0x32 => {
                let p = self.reg.hld();
                self.mmu.write_byte(p, self.reg.a);
                2
            },
            0x33 => {
                self.sp = self.sp.wrapping_add(1);
                2
            },
            0x34 => {
                let v = self.inc(self.mmu.read_byte(self.reg.get_hl()));
                self.mmu.write_byte(self.reg.get_hl(), v);
                3
            },
            0x35 => {
                let v = self.dec(self.mmu.read_byte(self.reg.get_hl()));
                self.mmu.write_byte(self.reg.get_hl(), v);
                3
            },
            0x36 => {
                let v = self.fetch_byte();
                self.mmu.write_byte(self.reg.get_hl(), v);
                3
            },
            0x37 => {
                self.reg.set_flag(flags::C, true);
                self.reg.set_flag(flags::N, false);
                self.reg.set_flag(flags::H, false);
                1
            },
            _ => {
                proof {
                    assert(false);
                }
                0
            },
        }
    }

    /// Opcodes 0x38 to 0x3f.
    #[verifier::spinoff_prover]
    fn execute_row3b(&mut self, op: u8) -> (r: u32)
        requires
            old(self).wf(),
            0x38 <= op <= 0x3f,
            old(self)@.exec_row3(op) is Some,
        ensures
            final(self).wf(),
            (final(self)@, r) == old(self)@.exec_row3(op).unwrap(),
    {
        proof {
            lemma_wrap16(self.reg.bc());
            lemma_wrap16(self.reg.de());
            lemma_wrap16(self.reg.hl());
            lemma_wrap16(self.sp);
        }
        match op {
            0x38 => {
                if self.reg.get_flag(flags::C) {
                    self.jr();
                    3
                } else {
                    self.pc += 1;
                    2
                }
            },
            0x39 => {
                let res = self.add_word(self.reg.get_hl(), self.sp);
                self.reg.set_hl(res);
                2
            },
            0x3a => {
                let p = self.reg.hld();
                self.reg.a = self.mmu.read_byte(p);
                2
            },
            0x3b => {
                self.sp = self.sp.wrapping_sub(1);
                2
            },
            0x3c => {
                self.reg.a = self.inc(self.reg.a);
                1
            },
            0x3d => {
                self.reg.a = self.dec(self.reg.a);
                1
            },
            0x3e => {
                self.reg.a = self.fetch_byte();
                2
            },
            0x3f => {
                self.reg.set_flag(flags::C, !self.reg.get_flag(flags::C));
                self.reg.set_flag(flags::N, false);
                self.reg.set_flag(flags::H, false);
                1
            },
            _ => {
                proof {
                    assert(false);
                }
                0
            },
        }
    }

    /// Opcodes 0xC0 to 0xFF.
    fn execute_high(&mut self, op: u8) -> (r: u32)
        requires
            old(self).wf(),
            op >= 0xc0,
            old(self)@.exec_high(op) is Some,
        ensures
            final(self).wf(),
            (final(self)@, r) == old(self)@.exec_high(op).unwrap(),
    {
        if op <= 0xcf {
            self.execute_row_c(op)
        } else if op <= 0xdf {
            self.execute_row_d(op)
        } else if op <= 0xef {
            self.execute_row_e(op)
        } else {
            self.execute_row_f(op)
        }
    }

    /// Opcodes 0xc0 to 0xcf.
    #[verifier::spinoff_prover]
    fn execute_row_c(&mut self, op: u8) -> (r: u32)
        requires
            old(self).wf(),
            0xc0 <= op <= 0xcf,
            old(self)@.exec_row_c(op) is Some,
        ensures
            final(self).wf(),
            (final(self)@, r) == old(self)@.exec_row_c(op).unwrap(),
    {
        match op {
            0xc0 => {
                if !self.reg.get_flag(flags::Z) {
                    self.ret();
                    5
                } else {
                    2
                }
            },
            0xc1 => {
                let v = self.pop();
                self.reg.set_bc(v);
                3
            },
            0xc2 => {
                if !self.reg.get_flag(flags::Z) {
                    self.pc = self.fetch_word();
                    4
                } else {
                    self.pc += 2;
                    3
                }
            },
            0xc3 => {
                self.pc = self.fetch_word();
                4
            },
            0xc4 => {
                if !self.reg.get_flag(flags::Z) {
                    self.push(self.pc + 2);
                    self.pc = self.fetch_word();
                    6
                } else {
                    self.pc += 2;
                    3
                }
            },
            0xc5 => {
                self.push(self.reg.get_bc());
                4
            },
            0xc6 => {
                let v = self.fetch_byte();
                self.add_byte(v, false);
                2
            },
            0xc7 => {
                self.call(0x00);
                4
            },
            0xc8 => {
                if self.reg.get_flag(flags::Z) {
                    self.ret();
                    5
                } else {
                    2
                }
            },
            0xc9 => {
                self.ret();
                4
            },
            0xca => {
                if self.reg.get_flag(flags::Z) {
                    self.pc = self.fetch_word();
                    4
                } else {
                    self.pc += 2;
                    3
                }
            },
            0xcb => {
                let op = self.fetch_byte();
                self.execute_cb(op)
            },
            0xcc => {
                if self.reg.get_flag(flags::Z) {
                    self.push(self.pc + 2);
                    self.pc = self.fetch_word();
                    6
                } else {
                    self.pc += 2;
                    3
                }
            },
            0xcd => {
                self.push(self.pc + 2);
                self.pc = self.fetch_word();
                6
            },
            0xce => {
                let v = self.fetch_byte();
                self.adc(v);
                2
            },
            0xcf => {
                self.call(0x08);
                4
            },
            _ => {
                proof {
                    assert(false);
                }
                0
            },
        }
    }

    /// Opcodes 0xd0 to 0xdf.
    #[verifier::spinoff_prover]
    fn execute_row_d(&mut self, op: u8) -> (r: u32)
        requires
            old(self).wf(),
            0xd0 <= op <= 0xdf,
            old(self)@.exec_row_d(op) is Some,
        ensures
            final(self).wf(),
            (final(self)@, r) == old(self)@.exec_row_d(op).unwrap(),
    {
        match op {
            0xd0 => {
                if !self.reg.get_flag(flags::C) {
                    self.ret();
                    5
                } else {
                    2
                }
            },
            0xd1 => {
                let v = self.pop();
                self.reg.set_de(v);
                3
            },
            0xd2 => {
                if !self.reg.get_flag(flags::C) {
                    self.pc = self.fetch_word();
                    4
                } else {
                    self.pc += 2;
                    3
                }
            },
            0xd4 => {
                if !self.reg.get_flag(flags::C) {
                    self.push(self.pc + 2);
                    self.pc = self.fetch_word();
                    6
                } else {
                    self.pc += 2;
                    3
                }
            },
            0xd5 => {
                self.push(self.reg.get_de());
                4
            },
            0xd6 => {
                let v = self.fetch_byte();
                self.sub(v, false);
                2
            },
            0xd7 => {
                self.call(0x10);
                4
            },
            0xd8 => {
                if self.reg.get_flag(flags::C) {
                    self.ret();
                    5
                } else {
                    2
                }
            },
            0xd9 => {
                self.reti();
                4
            },
            0xda => {
                if self.reg.get_flag(flags::C) {
                    self.pc = self.fetch_word();
                    4
                } else {
                    self.pc += 2;
                    3
                }
            },
            0xdc => {
                if self.reg.get_flag(flags::C) {
                    self.push(self.pc + 2);
                    self.pc = self.fetch_word();
                    6
                } else {
                    self.pc += 2;
                    3
                }
            },
            0xde => {
                let v = self.fetch_byte();
                self.sub(v, true);
                2
            },
            0xdf => {
                self.call(0x18);
                4
            },
            _ => {
                proof {
                    assert(false);
                }
                0
            },
        }
    }

    /// Opcodes 0xe0 to 0xef.
    #[verifier::spinoff_prover]
    fn execute_row_e(&mut self, op: u8) -> (r: u32)
        requires
            old(self).wf(),
            0xe0 <= op <= 0xef,
            old(self)@.exec_row_e(op) is Some,
        ensures
            final(self).wf(),
            (final(self)@, r) == old(self)@.exec_row_e(op).unwrap(),
    {
        match op {
            0xe0 => {
                let b = self.fetch_byte();
                proof {
                    lemma_high_page(b);
                }
                let v = 0xff00 | b as u16;
                self.mmu.write_byte(v, self.reg.a);
                3
            },
            0xe1 => {
                let v = self.pop();
                self.reg.set_hl(v);
                3
            },
            0xe2 => {
                self.mmu.write_byte((0xff00 + (self.reg.c as u16)) as u16, self.reg.a);
                2
            },
            0xe5 => {
                self.push(self.reg.get_hl());
                4
            },
            0xe6 => {
                let v = self.fetch_byte();
                self.and(v);
                2
            },
            0xe7 => {
                self.call(0x20);
                4
            },
            0xe8 => {
                self.sp = self.add16imm(self.sp);
                4
            },
            0xe9 => {
                self.pc = self.reg.get_hl();
                1
            },
            0xea => {
                let pointer = self.fetch_word();
                self.mmu.write_byte(pointer, self.reg.a);
                4
            },
            0xee => {
                let v = self.fetch_byte();
                self.xor(v);
                2
            },
            0xef => {
                self.call(0x28);
                4
            },
            _ => {
                proof {
                    assert(false);
                }
                0
            },
        }
    }

    /// Opcodes 0xf0 to 0xff.
    #[verifier::spinoff_prover]
    fn execute_row_f(&mut self, op: u8) -> (r: u32)
        requires
            old(self).wf(),
            0xf0 <= op <= 0xff,
            old(self)@.exec_row_f(op) is Some,
        ensures
            final(self).wf(),
            (final(self)@, r) == old(self)@.exec_row_f(op).unwrap(),
    {
        match op {
            0xf0 => {
                let b = self.fetch_byte();
                proof {
                    lemma_high_page(b);
                }
                let v = 0xFF00 | b as u16;
                self.reg.a = self.mmu.read_byte(v);
                3
            },
            0xf1 => {
                let w = self.pop();
                proof {
                    lemma_low_nibble_cleared(w);
                }
                let v = w & 0xFFF0;
                self.reg.set_af(v);
                3
            },
            0xf2 => {
                let v = self.reg.c as u16;
                self.reg.a = self.mmu.read_byte(0xff00 + v);
                2
            },
            0xf3 => {
                self.di();
                1
            },
            0xf5 => {
                self.push(self.reg.get_af());
                4
            },
            0xf6 => {
                let v = self.fetch_byte();
                self.or(v);
                2
            },
            0xf7 => {
                self.push(self.pc);
                self.pc = 0x30;
                4
            },
            0xf8 => {
                let r = self.add16imm(self.sp);
                self.reg.set_hl(r);
                3
            },
            0xf9 => {
                self.sp = self.reg.get_hl();
                2
            },
            0xfa => {
                let pointer = self.fetch_word();
                self.reg.a = self.mmu.read_byte(pointer);
                4
            },
            0xfb => {
                self.ei();
                1
            },
            0xfe => {
                let v = self.fetch_byte();
                self.cp(v);
                2
            },
            0xff => {
                self.call(0x38);
                4
            },
            _ => {
                proof {
                    assert(false);
                }
                0
            },
        }
    }

    /// The prefixed opcode `op`: rotations and shifts, bit tests, bit
    /// clears and bit sets of a register or of memory at `hl`.
    fn execute_cb(&mut self, op: u8) -> (r: u32)
        requires
            old(self).wf(),
            old(self)@.exec_cb(op) is Some,
        ensures
            final(self).wf(),
            (final(self)@, r) == old(self)@.exec_cb(op).unwrap(),
    {
        if op < 0x20 {
            self.execute_cb_rotate(op)
        } else if op < 0x40 {
            self.execute_cb_shift(op)
        } else if op < 0x80 {
            self.execute_cb_bit(op)
        } else {
            self.execute_cb_res_set(op)
        }
    }

    /// Prefixed opcodes 0x00 to 0x1f: rotations.
    #[verifier::spinoff_prover]
    fn execute_cb_rotate(&mut self, op: u8) -> (r: u32)
        requires
            old(self).wf(),
            0x00 <= op <= 0x1f,
            old(self)@.exec_cb(op) is Some,
        ensures
            final(self).wf(),
            (final(self)@, r) == old(self)@.exec_cb(op).unwrap(),
    {
        match op {
            0x00..=0x0f => {
                let params = op;
                if (params % 8) == 6 || (params % 8) == 0xe {
                    let hl = self.reg.get_hl();
                    let x = self.mmu.read_byte(hl);
                    let value = if params == 6 {
                        self.rlc(x)
                    } else {
                        self.rrc(x)
                    };
                    self.mmu.write_byte(self.reg.get_hl(), value);
                    4
                } else {
                    let position = params % 8;
                    let second_param_final = self.get_r8(position);
                    let value = if params < 8 {
                        self.rlc(second_param_final)
                    } else {
                        self.rrc(second_param_final)
                    };
                    self.set_r8(position, value);
                    2
                }
            },
            0x10..=0x1f => {
                let params = op - 0x10;
                if (params % 8) == 6 || (params % 8) == 0xe {
                    let hl = self.reg.get_hl();
                    let x = self.mmu.read_byte(hl);
                    let value = if params == 6 {
                        self.rl(x)
                    } else {
                        self.rr(x)
                    };
                    self.mmu.write_byte(self.reg.get_hl(), value);
                    4
                } else {
                    let position = params % 8;
                    let second_param_final = self.get_r8(position);
                    let value = if params < 8 {
                        self.rl(second_param_final)
                    } else {
                        self.rr(second_param_final)
                    };
                    self.set_r8(position, value);
                    2
                }
            },
            _ => {
                proof {
                    assert(false);
                }
                0
            },
        }
    }

    /// Prefixed opcodes 0x20 to 0x3f: shifts and swaps.
    #[verifier::spinoff_prover]
    fn execute_cb_shift(&mut self, op: u8) -> (r: u32)
        requires
            old(self).wf(),
            0x20 <= op <= 0x3f,
            old(self)@.exec_cb(op) is Some,
        ensures
            final(self).wf(),
            (final(self)@, r) == old(self)@.exec_cb(op).unwrap(),
    {
        match op {
            0x20..=0x2f => {
                let params = op - 0x20;
                if (params % 8) == 6 || (params % 8) == 0xe {
                    let hl = self.reg.get_hl();
                    let x = self.mmu.read_byte(hl);
                    let value = if params == 6 {
                        self.sla(x)
                    } else {
                        self.sra(x)
                    };
                    self.mmu.write_byte(self.reg.get_hl(), value);
                    4
                } else {
                    let position = params % 8;
                    let second_param_final = self.get_r8(position);
                    let value = if params < 8 {
                        self.sla(second_param_final)
                    } else {
                        self.sra(second_param_final)
                    };
                    self.set_r8(position, value);
                    2
                }
            },
            0x30..=0x3f => {
                let params = op - 0x30;
                if (params % 8) == 6 || (params % 8) == 0xe {
                    let hl = self.reg.get_hl();
                    let x = self.mmu.read_byte(hl);
                    let value = if params == 6 {
                        self.swap(x)
                    } else {
                        self.srl(x)
                    };
                    self.mmu.write_byte(self.reg.get_hl(), value);
                    4
                } else {
                    let position = params % 8;
                    let second_param_final = self.get_r8(position);
                    let value = if params < 8 {
                        self.swap(second_param_final)
                    } else {
                        self.srl(second_param_final)
                    };
                    self.set_r8(position, value);
                    2
                }
            },
            _ => {
                proof {
                    assert(false);
                }
                0
            },
        }
    }

    /// Prefixed opcodes 0x40 to 0x7f: bit tests.
    #[verifier::spinoff_prover]
    fn execute_cb_bit(&mut self, op: u8) -> (r: u32)
        requires
            old(self).wf(),
            0x40 <= op <= 0x7f,
            old(self)@.exec_cb(op) is Some,
        ensures
            final(self).wf(),
            (final(self)@, r) == old(self)@.exec_cb(op).unwrap(),
    {
        match op {
            0x40..=0x7f => {
                let params = op - 0x40;
                let first_param = params / 8;

                if (params % 8) == 6 {
                    let x = self.mmu.read_byte(self.reg.get_hl());
                    self.bit(x, first_param);
                    3
                } else {
                    let position = params % 8;
                    let second_param_final = self.get_r8(position);
                    self.bit(second_param_final, first_param);
                    2
                }
            },
            _ => {
                proof {
                    assert(false);
                }
                0
            },
        }
    }

    /// Prefixed opcodes 0x80 to 0xff: bit clears and sets.
    #[verifier::spinoff_prover]
    fn execute_cb_res_set(&mut self, op: u8) -> (r: u32)
        requires
            old(self).wf(),
            0x80 <= op <= 0xff,
            old(self)@.exec_cb(op) is Some,
        ensures
            final(self).wf(),
            (final(self)@, r) == old(self)@.exec_cb(op).unwrap(),
    {
        match op {
            0x80..=0xbf => {
                let params = op - 0x80;
                let first_param = params / 8;
                assert(first_param == (op % 64) / 8 && params % 8 == op % 8);

                if (params % 8) == 6 {
                    let x = self.mmu.read_byte(self.reg.get_hl());
                    let value = self.res(first_param, x);
                    self.mmu.write_byte(self.reg.get_hl(), value);
                    4
                } else {
                    let position = params % 8;
                    let second_param_final = self.get_r8(position);
                    let value = self.res(first_param, second_param_final);
                    self.set_r8(position, value);
                    2
                }
            },
            0xc0..=0xff => {
                // Implement range of opcodes from c0 to ff (they're all set instructions)
                let params = op - 0xc0;
                let first_param = params / 8;
                assert(first_param == (op % 64) / 8 && params % 8 == op % 8);
                if (params % 8) == 6 || (params % 8) == 0xe {
                    let x = self.mmu.read_byte(self.reg.get_hl());
                    let value = self.set(first_param, x);
                    self.mmu.write_byte(self.reg.get_hl(), value);
                    4
                } else {
                    let position = params % 8;
                    let second_param_final = self.get_r8(position);
                    let value = self.set(first_param, second_param_final);
                    self.set_r8(position, value);
                    2
                }
            },
            _ => {
                proof {
                    assert(false);
                }
                0
            },
        }
    }
}

proof fn lemma_high_page(b: u8)
    ensures
        (0xff00u16 | b as u16) == 0xff00 + b,
{
    assert((0xff00u16 | b as u16) == 0xff00 + b) by (bit_vector);
}

proof fn lemma_low_nibble_cleared(w: u16)
    ensures
        (w & 0xFFF0) == (w as int / 16) * 16,
{
    assert((w & 0xFFF0) == (w / 16) * 16) by (bit_vector);
}

} // verus!
