use vstd::prelude::*;
use crate::cpu::isa::{CpuState, shift_op, law_call_ret_opcodes, law_push_pop};
use crate::cpu::alu::{rotate_left, rotate_right, shift_left, shift_right_arith, swap_nibbles, shift_right};
use crate::cpu::mmu::{MmuState, plain_addr, law_word_roundtrip};
use crate::cpu::registers::{Registers, flag_of, hi_byte, lo_byte};
use crate::cpu::alu::{lemma_znhc_flags, is_bcd, bcd_value, bcd_of, law_daa_add, law_daa_sub};

verus! {

/// The register that a three-bit operand code names in the encodings of the
/// loads and of the arithmetic group: b, c, d, e, h, l, then a for 7 (6
/// names memory at `hl`).
pub open spec fn named_register(r: Registers, code: int) -> u8 {
    if code == 0 {
        r.b
    } else if code == 1 {
        r.c
    } else if code == 2 {
        r.d
    } else if code == 3 {
        r.e
    } else if code == 4 {
        r.h
    } else if code == 5 {
        r.l
    } else {
        r.a
    }
}

/// What the arithmetic and logic operation `kind` (add, add with carry,
/// subtract, subtract with borrow, and, xor, or, compare) owes, for `a` and
/// the operand `v` with flags `f` before, and `r` in `a` with flags `g`
/// after: the result and the carry out together make the true sum or
/// difference, and the zero, subtract and half-carry flags tell of it.
pub open spec fn alu_law(kind: int, a: u8, v: u8, f: u8, r: u8, g: u8) -> bool {
    let z = flag_of(g, 7);
    let n = flag_of(g, 6);
    let h = flag_of(g, 5);
    let c = flag_of(g, 4);
    let cin: int = if flag_of(f, 4) { 1 } else { 0 };
    let out: int = if c { 256 } else { 0 };
    if kind == 0 {
        &&& r + out == a + v
        &&& z == (r == 0) && !n
        &&& h == (a % 16 + v % 16 > 15)
    } else if kind == 1 {
        &&& r + out == a + v + cin
        &&& z == (r == 0) && !n
        &&& h == (a % 16 + v % 16 + cin > 15)
    } else if kind == 2 {
        &&& r - out == a - v
        &&& z == (r == 0) && n
        &&& h == (a % 16 < v % 16)
    } else if kind == 3 {
        &&& r - out == a - v - cin
        &&& z == (r == 0) && n
        &&& h == (a % 16 < v % 16 + cin)
    } else if kind == 4 {
        &&& r == a & v
        &&& z == (r == 0) && !n && h && !c
    } else if kind == 5 {
        &&& r == a ^ v
        &&& z == (r == 0) && !n && !h && !c
    } else if kind == 6 {
        &&& r == a | v
        &&& z == (r == 0) && !n && !h && !c
    } else {
        &&& r == a
        &&& z == (a == v) && n
        &&& h == (a % 16 < v % 16)
        &&& c == (a < v)
    }
}

/// Whether `t` differs from `s` at most in `a` and the flags.
pub open spec fn only_a_and_flags(s: CpuState, t: CpuState) -> bool {
    &&& t.reg.b == s.reg.b && t.reg.c == s.reg.c && t.reg.d == s.reg.d && t.reg.e == s.reg.e
    &&& t.reg.h == s.reg.h && t.reg.l == s.reg.l
    &&& t.sp == s.sp && t.mmu == s.mmu && t.ime == s.ime && t.halted == s.halted
}

/// An addition owes what `alu_law` says of kinds 0 and 1.
#[verifier::rlimit(50)]
proof fn lemma_alu_add(s: CpuState, v: u8, usec: bool)
    ensures
        alu_law(if usec { 1 } else { 0 }, s.reg.a, v, s.reg.f, s.alu_add(v, usec).reg.a, s.alu_add(v, usec).reg.f),
        only_a_and_flags(s, s.alu_add(v, usec)),
        s.alu_add(v, usec).pc == s.pc,
{
    let a = s.reg.a;
    let c: int = if usec && flag_of(s.reg.f, 4) { 1 } else { 0 };
    let sum = a + v + c;
    lemma_znhc_flags(s.reg.f, sum % 256 == 0, false, a % 16 + v % 16 + c > 15, sum > 255);
}

/// A subtraction owes what `alu_law` says of kinds 2 and 3.
#[verifier::rlimit(50)]
proof fn lemma_alu_sub(s: CpuState, v: u8, usec: bool)
    ensures
        alu_law(if usec { 3 } else { 2 }, s.reg.a, v, s.reg.f, s.alu_sub(v, usec).reg.a, s.alu_sub(v, usec).reg.f),
        only_a_and_flags(s, s.alu_sub(v, usec)),
        s.alu_sub(v, usec).pc == s.pc,
{
    let a = s.reg.a;
    let c: int = if usec && flag_of(s.reg.f, 4) { 1 } else { 0 };
    let r = ((a + 256 - v - c) % 256) as u8;
    lemma_znhc_flags(s.reg.f, r == 0, true, a % 16 < v % 16 + c, a < v + c);
}

/// A comparison owes what `alu_law` says of kind 7.
#[verifier::rlimit(50)]
proof fn lemma_alu_cp(s: CpuState, v: u8)
    ensures
        alu_law(7, s.reg.a, v, s.reg.f, s.alu_cp(v).reg.a, s.alu_cp(v).reg.f),
        only_a_and_flags(s, s.alu_cp(v)),
        s.alu_cp(v).pc == s.pc,
{
    let a = s.reg.a;
    let r = ((a + 256 - v) % 256) as u8;
    lemma_znhc_flags(s.reg.f, r == 0, true, a % 16 < v % 16, a < v);
}

/// The operation `kind` on `a` and `v` owes what `alu_law` says.
#[verifier::rlimit(50)]
proof fn lemma_alu_op(s: CpuState, kind: u8, v: u8)
    requires
        kind < 8,
    ensures
        alu_law(kind as int, s.reg.a, v, s.reg.f, s.alu_op(kind, v).reg.a, s.alu_op(kind, v).reg.f),
        only_a_and_flags(s, s.alu_op(kind, v)),
        s.alu_op(kind, v).pc == s.pc,
{
    let a = s.reg.a;
    let f = s.reg.f;
    if kind == 0 {
        lemma_alu_add(s, v, false);
    } else if kind == 1 {
        lemma_alu_add(s, v, true);
    } else if kind == 2 {
        lemma_alu_sub(s, v, false);
    } else if kind == 3 {
        lemma_alu_sub(s, v, true);
    } else if kind == 4 {
        lemma_znhc_flags(f, (a & v) == 0, false, true, false);
    } else if kind == 5 {
        lemma_znhc_flags(f, (a ^ v) == 0, false, false, false);
    } else if kind == 6 {
        lemma_znhc_flags(f, (a | v) == 0, false, false, false);
    } else {
        lemma_alu_cp(s, v);
    }
}

/// An arithmetic or logic instruction 0x80 to 0xBF with a register operand
/// combines `a` with the register its low three bits name, as `alu_law`
/// says for the operation its middle three bits name, and changes nothing
/// else but the flags.
#[verifier::rlimit(50)]
pub proof fn law_alu_register(s: CpuState, op: u8)
    requires
        0x80 <= op <= 0xbf,
        op % 8 != 6,
    ensures
        s.execute(op) is Some,
        s.execute(op).unwrap().1 == 1,
        alu_law(
            (op as int - 0x80) / 8,
            s.reg.a,
            named_register(s.reg, op as int % 8),
            s.reg.f,
            s.execute(op).unwrap().0.reg.a,
            s.execute(op).unwrap().0.reg.f,
        ),
        only_a_and_flags(s, s.execute(op).unwrap().0),
        s.execute(op).unwrap().0.pc == s.pc,
{
    let kind = ((op - 0x80) / 8) as u8;
    lemma_alu_op(s, kind, s.reg.r8(((op - 0x80) % 8) as u8));
}

/// An arithmetic or logic instruction 0x80 to 0xBF whose low three bits
/// are 6 takes its operand from memory at `hl`.
#[verifier::rlimit(50)]
pub proof fn law_alu_memory(s: CpuState, op: u8)
    requires
        0x80 <= op <= 0xbf,
        op % 8 == 6,
        s.mmu.read_ok(s.reg.hl()),
    ensures
        s.execute(op) is Some,
        s.execute(op).unwrap().1 == 2,
        alu_law(
            (op as int - 0x80) / 8,
            s.reg.a,
            s.mmu.read(s.reg.hl()),
            s.reg.f,
            s.execute(op).unwrap().0.reg.a,
            s.execute(op).unwrap().0.reg.f,
        ),
        only_a_and_flags(s, s.execute(op).unwrap().0),
        s.execute(op).unwrap().0.pc == s.pc,
{
    let kind = ((op - 0x80) / 8) as u8;
    lemma_alu_op(s, kind, s.mmu.read(s.reg.hl()));
}

/// An arithmetic or logic instruction with an immediate operand (0xC6,
/// 0xCE, ..., 0xFE) takes its operand from the byte that follows and
/// moves past it.
#[verifier::rlimit(50)]
pub proof fn law_alu_immediate(s: CpuState, op: u8)
    requires
        op >= 0xc6,
        op % 8 == 6,
        s.pc < 0xffff,
        s.mmu.read_ok(s.pc),
    ensures
        s.execute(op) is Some,
        s.execute(op).unwrap().1 == 2,
        alu_law(
            (op as int - 0xc6) / 8,
            s.reg.a,
            s.mmu.read(s.pc),
            s.reg.f,
            s.execute(op).unwrap().0.reg.a,
            s.execute(op).unwrap().0.reg.f,
        ),
        only_a_and_flags(s, s.execute(op).unwrap().0),
        s.execute(op).unwrap().0.pc == s.pc + 1,
{
    let kind = ((op - 0xc6) / 8) as u8;
    let t = s.with_pc((s.pc + 1) as u16);
    lemma_alu_op(t, kind, s.mmu.read(s.pc));
    lemma_immediate_dispatch(s, op);
}

/// The instructions with an immediate operand are the operation their
/// middle three bits name.
#[verifier::rlimit(50)]
proof fn lemma_immediate_dispatch(s: CpuState, op: u8)
    requires
        op >= 0xc6,
        op % 8 == 6,
    ensures
        s.execute(op) == s.alu_imm(((op - 0xc6) / 8) as u8),
{
    if op <= 0xcf {
        assert(s.execute(op) == s.exec_row_c(op));
    } else if op <= 0xdf {
        assert(s.execute(op) == s.exec_row_d(op));
    } else if op <= 0xef {
        assert(s.execute(op) == s.exec_row_e(op));
    } else {
        assert(s.execute(op) == s.exec_row_f(op));
    }
}

/// Whether the condition that bits 3 and 4 of a conditional jump, call or
/// return name holds of the flags `f`: zero clear, zero set, carry clear,
/// carry set.
pub open spec fn condition_met(op: u8, f: u8) -> bool {
    let code = (op as int / 8) % 4;
    if code == 0 {
        !flag_of(f, 7)
    } else if code == 1 {
        flag_of(f, 7)
    } else if code == 2 {
        !flag_of(f, 4)
    } else {
        flag_of(f, 4)
    }
}

/// The signed value of the byte `e`.
pub open spec fn signed(e: u8) -> int {
    if e < 128 {
        e as int
    } else {
        e - 256
    }
}

/// The little-endian word in memory at `loc` and `loc + 1`.
pub open spec fn word_at(s: CpuState, loc: int) -> int {
    s.mmu.read(loc as u16) + 256 * s.mmu.read((loc + 1) as u16)
}

/// Whether `t` keeps the registers, stack pointer, memory and interrupt
/// state of `s`.
pub open spec fn keeps_all_but_pc(s: CpuState, t: CpuState) -> bool {
    t.reg == s.reg && t.sp == s.sp && t.mmu == s.mmu && t.ime == s.ime && t.halted == s.halted
}

/// A relative jump (0x18, or 0x20, 0x28, 0x30, 0x38 on not zero, zero, no
/// carry, carry) moves the program counter from the address after its
/// offset byte `e` by `e` read as signed, modulo 65536, when it is taken,
/// and only past the offset byte when not.
#[verifier::rlimit(50)]
pub proof fn law_relative_jump(s: CpuState, op: u8)
    requires
        op == 0x18 || op == 0x20 || op == 0x28 || op == 0x30 || op == 0x38,
        s.pc < 0xffff,
        s.mmu.read_ok(s.pc),
    ensures
        s.execute(op) is Some,
        keeps_all_but_pc(s, s.execute(op).unwrap().0),
        (op == 0x18 || condition_met(op, s.reg.f)) ==> s.execute(op).unwrap().0.pc == (s.pc + 1 + signed(
            s.mmu.read(s.pc),
        )) % 65536 && s.execute(op).unwrap().1 == 3,
        !(op == 0x18 || condition_met(op, s.reg.f)) ==> s.execute(op).unwrap().0.pc == s.pc + 1
            && s.execute(op).unwrap().1 == 2,
{
    if op == 0x18 {
        assert(s.execute(op) == s.exec_row1(op));
    } else if op <= 0x28 {
        assert(s.execute(op) == s.exec_row2(op));
    } else {
        assert(s.execute(op) == s.exec_row3(op));
    }
}

/// An absolute jump (0xC3, or 0xC2, 0xCA, 0xD2, 0xDA on a condition) goes
/// to the word that follows when it is taken, and past it when not.
#[verifier::rlimit(50)]
pub proof fn law_absolute_jump(s: CpuState, op: u8)
    requires
        op == 0xc3 || op == 0xc2 || op == 0xca || op == 0xd2 || op == 0xda,
        s.pc <= 0xfffd,
        s.mmu.read_ok(s.pc),
        s.mmu.read_ok((s.pc + 1) as u16),
    ensures
        s.execute(op) is Some,
        keeps_all_but_pc(s, s.execute(op).unwrap().0),
        (op == 0xc3 || condition_met(op, s.reg.f)) ==> s.execute(op).unwrap().0.pc == word_at(s, s.pc as int)
            && s.execute(op).unwrap().1 == 4,
        !(op == 0xc3 || condition_met(op, s.reg.f)) ==> s.execute(op).unwrap().0.pc == s.pc + 2
            && s.execute(op).unwrap().1 == 3,
{
    let taken = op == 0xc3 || condition_met(op, s.reg.f);
    if op <= 0xca {
        assert(s.execute(op) == s.exec_row_c(op));
    } else {
        assert(s.execute(op) == s.exec_row_d(op));
    }
    assert(s.execute(op) == s.jp_if(taken));
    lemma_jump_if(s, taken);
}

/// An absolute jump on `cond`.
#[verifier::rlimit(50)]
proof fn lemma_jump_if(s: CpuState, cond: bool)
    requires
        s.pc <= 0xfffd,
        s.mmu.read_ok(s.pc),
        s.mmu.read_ok((s.pc + 1) as u16),
    ensures
        s.jp_if(cond) is Some,
        keeps_all_but_pc(s, s.jp_if(cond).unwrap().0),
        cond ==> s.jp_if(cond).unwrap().0.pc == word_at(s, s.pc as int) && s.jp_if(cond).unwrap().1 == 4,
        !cond ==> s.jp_if(cond).unwrap().0.pc == s.pc + 2 && s.jp_if(cond).unwrap().1 == 3,
{
    let w = s.mmu.read(s.pc) + 256 * s.mmu.read((s.pc + 1) as u16);
    assert(0 <= w < 65536);
}

/// A return (0xC9, 0xD9, or 0xC0, 0xC8, 0xD0, 0xD8 on a condition) that
/// is taken goes to the word on top of the stack and removes it; 0xD9
/// also enables interrupts. One that is not taken changes nothing but
/// the time.
#[verifier::rlimit(50)]
pub proof fn law_return(s: CpuState, op: u8)
    requires
        op == 0xc9 || op == 0xd9 || op == 0xc0 || op == 0xc8 || op == 0xd0 || op == 0xd8,
        s.sp <= 0xfffd,
        s.mmu.read_ok(s.sp),
        s.mmu.read_ok((s.sp + 1) as u16),
    ensures
        s.execute(op) is Some,
        s.execute(op).unwrap().0.reg == s.reg,
        s.execute(op).unwrap().0.mmu == s.mmu,
        s.execute(op).unwrap().0.ime == (op == 0xd9 || s.ime),
        (op == 0xc9 || op == 0xd9 || condition_met(op, s.reg.f)) ==> s.execute(op).unwrap().0.pc == word_at(
            s,
            s.sp as int,
        ) && s.execute(op).unwrap().0.sp == s.sp + 2,
        !(op == 0xc9 || op == 0xd9 || condition_met(op, s.reg.f)) ==> s.execute(op).unwrap().0.pc == s.pc
            && s.execute(op).unwrap().0.sp == s.sp && s.execute(op).unwrap().1 == 2,
{
    if op <= 0xc9 {
        assert(s.execute(op) == s.exec_row_c(op));
    } else {
        assert(s.execute(op) == s.exec_row_d(op));
    }
}

/// 0xFB enables interrupts and 0xF3 disables them; neither changes
/// anything else of the machine.
#[verifier::rlimit(50)]
pub proof fn law_interrupt_switches(s: CpuState)
    ensures
        s.execute(0xfb) is Some,
        s.execute(0xfb).unwrap().0.ime,
        s.execute(0xf3) is Some,
        !s.execute(0xf3).unwrap().0.ime,
        s.execute(0xfb).unwrap().0.pc == s.pc && s.execute(0xf3).unwrap().0.pc == s.pc,
        s.execute(0xfb).unwrap().0.reg == s.reg && s.execute(0xf3).unwrap().0.reg == s.reg,
        s.execute(0xfb).unwrap().0.mmu == s.mmu && s.execute(0xf3).unwrap().0.mmu == s.mmu,
{
    assert(s.execute(0xfb) == s.exec_row_f(0xfb));
    assert(s.execute(0xf3) == s.exec_row_f(0xf3));
}

/// A call (0xCD, or 0xC4, 0xCC, 0xD4, 0xDC on a condition) that is taken
/// goes to the word that follows it and leaves the address after that
/// word on top of the stack; one that is not taken only moves past the
/// word. Both stack bytes are held and lie apart from the word.
#[verifier::rlimit(50)]
pub proof fn law_call(s: CpuState, op: u8)
    requires
        op == 0xcd || op == 0xc4 || op == 0xcc || op == 0xd4 || op == 0xdc,
        s.wf(),
        s.pc <= 0xfffd,
        s.mmu.read_ok(s.pc),
        s.mmu.read_ok((s.pc + 1) as u16),
        s.sp >= 2,
        plain_addr((s.sp - 2) as u16),
        plain_addr((s.sp - 1) as u16),
        s.sp - 2 != s.pc,
        s.sp - 2 != s.pc + 1,
        s.sp - 1 != s.pc,
        s.sp - 1 != s.pc + 1,
    ensures
        s.execute(op) is Some,
        s.execute(op).unwrap().0.reg == s.reg,
        (op == 0xcd || condition_met(op, s.reg.f)) ==> {
            let t = s.execute(op).unwrap().0;
            &&& t.pc == word_at(s, s.pc as int)
            &&& t.sp == s.sp - 2
            &&& word_at(t, t.sp as int) == s.pc + 2
            &&& s.execute(op).unwrap().1 == 6
        },
        !(op == 0xcd || condition_met(op, s.reg.f)) ==> s.execute(op).unwrap().0 == s.with_pc((s.pc + 2) as u16)
            && s.execute(op).unwrap().1 == 3,
{
    if op <= 0xcd {
        assert(s.execute(op) == s.exec_row_c(op));
    } else {
        assert(s.execute(op) == s.exec_row_d(op));
    }
    assert(s.execute(0xcd) == s.exec_row_c(0xcd));
    if op == 0xcd || condition_met(op, s.reg.f) {
        assert(s.execute(op) == s.execute(0xcd));
        law_call_ret_opcodes(s);
        let t = s.execute(op).unwrap().0;
        lemma_stack_readable(s, (s.pc + 2) as u16);
        law_return(t, 0xc9);
    }
}

/// A restart (0xC7, 0xCF, ..., 0xFF) goes to the address its middle
/// three bits name, times 8, and leaves the address after it on top of
/// the stack, whose two bytes are held.
#[verifier::rlimit(50)]
pub proof fn law_restart(s: CpuState, op: u8)
    requires
        op >= 0xc7,
        op % 8 == 7,
        s.wf(),
        s.sp >= 2,
        plain_addr((s.sp - 2) as u16),
        plain_addr((s.sp - 1) as u16),
    ensures
        s.execute(op) is Some,
        s.execute(op).unwrap().0.pc == (op as int - 0xc7),
        s.execute(op).unwrap().0.sp == s.sp - 2,
        word_at(s.execute(op).unwrap().0, s.sp - 2) == s.pc,
        s.execute(op).unwrap().0.reg == s.reg,
{
    if op <= 0xcf {
        assert(s.execute(op) == s.exec_row_c(op));
    } else if op <= 0xdf {
        assert(s.execute(op) == s.exec_row_d(op));
    } else if op <= 0xef {
        assert(s.execute(op) == s.exec_row_e(op));
    } else {
        assert(s.execute(op) == s.exec_row_f(op));
    }
    lemma_stack_readable(s, s.pc);
    law_push_pop(s, s.pc);
    reveal(MmuState::read);
}

/// After `v` is pushed on a stack whose two bytes are held, both can be
/// read and they hold `v`.
#[verifier::rlimit(50)]
proof fn lemma_stack_readable(s: CpuState, v: u16)
    requires
        s.wf(),
        s.sp >= 2,
        plain_addr((s.sp - 2) as u16),
        plain_addr((s.sp - 1) as u16),
    ensures
        s.push(v) is Some,
        s.push(v).unwrap().mmu.read_ok((s.sp - 2) as u16),
        s.push(v).unwrap().mmu.read_ok((s.sp - 1) as u16),
        word_at(s.push(v).unwrap(), s.sp - 2) == v,
{
    law_push_pop(s, v);
    law_word_roundtrip(s.mmu, (s.sp - 2) as u16, v);
}

/// The register pair that bits 4 and 5 of a push or pop name: bc, de,
/// hl, af, high byte first.
pub open spec fn named_pair(r: Registers, op: u8) -> int {
    let code = (op as int / 16) % 4;
    if code == 0 {
        r.b * 256 + r.c
    } else if code == 1 {
        r.d * 256 + r.e
    } else if code == 2 {
        r.h * 256 + r.l
    } else {
        r.a * 256 + r.f
    }
}

/// A push (0xC5, 0xD5, 0xE5, 0xF5) leaves the pair it names on top of a
/// stack whose two bytes are held, two bytes lower, and keeps the
/// registers.
#[verifier::rlimit(50)]
pub proof fn law_push_pair(s: CpuState, op: u8)
    requires
        op == 0xc5 || op == 0xd5 || op == 0xe5 || op == 0xf5,
        s.wf(),
        s.sp >= 2,
        plain_addr((s.sp - 2) as u16),
        plain_addr((s.sp - 1) as u16),
    ensures
        s.execute(op) is Some,
        s.execute(op).unwrap().0.sp == s.sp - 2,
        word_at(s.execute(op).unwrap().0, s.sp - 2) == named_pair(s.reg, op),
        s.execute(op).unwrap().0.reg == s.reg,
        s.execute(op).unwrap().0.pc == s.pc,
{
    if op <= 0xcf {
        assert(s.execute(op) == s.exec_row_c(op));
    } else if op <= 0xdf {
        assert(s.execute(op) == s.exec_row_d(op));
    } else if op <= 0xef {
        assert(s.execute(op) == s.exec_row_e(op));
    } else {
        assert(s.execute(op) == s.exec_row_f(op));
    }
    let v: u16 = if op == 0xc5 {
        s.reg.bc()
    } else if op == 0xd5 {
        s.reg.de()
    } else if op == 0xe5 {
        s.reg.hl()
    } else {
        s.reg.af()
    };
    lemma_stack_readable(s, v);
}

/// A pop (0xC1, 0xD1, 0xE1, 0xF1) loads the pair it names with the word
/// on top of the stack, the flags keeping only their high four bits, and
/// removes the word.
#[verifier::rlimit(50)]
pub proof fn law_pop_pair(s: CpuState, op: u8)
    requires
        op == 0xc1 || op == 0xd1 || op == 0xe1 || op == 0xf1,
        s.sp <= 0xfffd,
        s.mmu.read_ok(s.sp),
        s.mmu.read_ok((s.sp + 1) as u16),
    ensures
        s.execute(op) is Some,
        s.execute(op).unwrap().0.sp == s.sp + 2,
        s.execute(op).unwrap().0.pc == s.pc,
        s.execute(op).unwrap().0.mmu == s.mmu,
        op == 0xf1 ==> named_pair(s.execute(op).unwrap().0.reg, op) == word_at(s, s.sp as int) - word_at(s, s.sp as int) % 16,
        op != 0xf1 ==> named_pair(s.execute(op).unwrap().0.reg, op) == word_at(s, s.sp as int),
{
    if op <= 0xcf {
        assert(s.execute(op) == s.exec_row_c(op));
    } else if op <= 0xdf {
        assert(s.execute(op) == s.exec_row_d(op));
    } else if op <= 0xef {
        assert(s.execute(op) == s.exec_row_e(op));
    } else {
        assert(s.execute(op) == s.exec_row_f(op));
    }
}

/// An increment (0x04, 0x0C, ..., 0x3C but 0x34) adds 1 to the register
/// it names, 255 wrapping to 0, with the zero flag for 0, the subtract flag
/// clear, the half carry when the low half was 15, and the carry kept.
#[verifier::rlimit(50)]
pub proof fn law_increment(s: CpuState, op: u8)
    requires
        op < 0x40,
        op % 8 == 4,
        op != 0x34,
    ensures
        s.execute(op) is Some,
        ({
            let t = s.execute(op).unwrap().0;
            let v = named_register(s.reg, op as int / 8);
            let r = named_register(t.reg, op as int / 8);
            &&& r == (if v == 255 { 0 } else { v + 1 })
            &&& flag_of(t.reg.f, 7) == (r == 0)
            &&& !flag_of(t.reg.f, 6)
            &&& flag_of(t.reg.f, 5) == (v % 16 == 15)
            &&& flag_of(t.reg.f, 4) == flag_of(s.reg.f, 4)
            &&& t.pc == s.pc && t.sp == s.sp && t.mmu == s.mmu
        }),
{
    lemma_low_dispatch(s, op);
    assert(s.execute(op) == Some((s.inc_r(op / 8), 1u32)));
    lemma_inc_r(s, op / 8);
}

/// A decrement (0x05, 0x0D, ..., 0x3D but 0x35) takes 1 from the register
/// it names, 0 wrapping to 255, with the zero flag for 0, the subtract flag
/// set, the half carry when the low half was 0, and the carry kept.
#[verifier::rlimit(50)]
pub proof fn law_decrement(s: CpuState, op: u8)
    requires
        op < 0x40,
        op % 8 == 5,
        op != 0x35,
    ensures
        s.execute(op) is Some,
        ({
            let t = s.execute(op).unwrap().0;
            let v = named_register(s.reg, op as int / 8);
            let r = named_register(t.reg, op as int / 8);
            &&& r == (if v == 0 { 255 } else { v - 1 })
            &&& flag_of(t.reg.f, 7) == (r == 0)
            &&& flag_of(t.reg.f, 6)
            &&& flag_of(t.reg.f, 5) == (v % 16 == 0)
            &&& flag_of(t.reg.f, 4) == flag_of(s.reg.f, 4)
            &&& t.pc == s.pc && t.sp == s.sp && t.mmu == s.mmu
        }),
{
    lemma_low_dispatch(s, op);
    assert(s.execute(op) == Some((s.dec_r(op / 8), 1u32)));
    lemma_dec_r(s, op / 8);
}

/// The opcodes 0x00 to 0x3F are carried out by the row their high half
/// names.
#[verifier::rlimit(50)]
proof fn lemma_low_dispatch(s: CpuState, op: u8)
    requires
        op < 0x40,
    ensures
        op <= 0x0f ==> s.execute(op) == s.exec_row0(op),
        0x10 <= op <= 0x1f ==> s.execute(op) == s.exec_row1(op),
        0x20 <= op <= 0x2f ==> s.execute(op) == s.exec_row2(op),
        0x30 <= op ==> s.execute(op) == s.exec_row3(op),
{
}

/// A load between registers (0x40 to 0x7F, neither operand 6) copies the
/// register its low three bits name into the one its middle three bits
/// name and keeps every other register and the flags.
#[verifier::rlimit(50)]
pub proof fn law_load_register(s: CpuState, op: u8)
    requires
        0x40 <= op < 0x80,
        op % 8 != 6,
        (op - 0x40) / 8 != 6,
    ensures
        s.execute(op) is Some,
        ({
            let t = s.execute(op).unwrap().0;
            let dst = (op as int - 0x40) / 8;
            &&& named_register(t.reg, dst) == named_register(s.reg, op as int % 8)
            &&& forall|k: int| 0 <= k < 8 && k != 6 && k != dst ==> #[trigger] named_register(t.reg, k)
                == named_register(s.reg, k)
            &&& t.reg.f == s.reg.f
            &&& t.pc == s.pc && t.sp == s.sp && t.mmu == s.mmu
        }),
{
    let dst = ((op - 0x40) / 8) as u8;
    let src = ((op - 0x40) % 8) as u8;
    assert(s.execute(op) == s.exec_ld(op));
    assert(s.execute(op) == Some((s.with_reg(s.reg.with_r8(dst, s.reg.r8(src))), 1u32)));
    lemma_with_r8(s.reg, dst, s.reg.r8(src));
    assert(s.reg.r8(src) == named_register(s.reg, op as int % 8));
}

/// Writing register `idx` changes that register alone.
#[verifier::rlimit(50)]
proof fn lemma_with_r8(r: Registers, idx: u8, v: u8)
    requires
        idx < 8,
        idx != 6,
    ensures
        named_register(r.with_r8(idx, v), idx as int) == v,
        forall|k: int| 0 <= k < 8 && k != 6 && k != idx ==> #[trigger] named_register(r.with_r8(idx, v), k)
            == named_register(r, k),
        r.with_r8(idx, v).f == r.f,
{
}

/// Incrementing register `idx`.
#[verifier::rlimit(50)]
proof fn lemma_inc_r(s: CpuState, idx: u8)
    requires
        idx < 8,
        idx != 6,
    ensures
        ({
            let t = s.inc_r(idx);
            let v = named_register(s.reg, idx as int);
            let r = named_register(t.reg, idx as int);
            &&& r == (if v == 255 { 0 } else { v + 1 })
            &&& flag_of(t.reg.f, 7) == (r == 0)
            &&& !flag_of(t.reg.f, 6)
            &&& flag_of(t.reg.f, 5) == (v % 16 == 15)
            &&& flag_of(t.reg.f, 4) == flag_of(s.reg.f, 4)
            &&& t.pc == s.pc && t.sp == s.sp && t.mmu == s.mmu
        }),
{
    let v = s.reg.r8(idx);
    assert(v == named_register(s.reg, idx as int));
    let r = ((v + 1) % 256) as u8;
    lemma_znhc_flags(s.reg.f, r == 0, false, v % 16 + 1 > 15, flag_of(s.reg.f, 4));
}

/// Decrementing register `idx`.
#[verifier::rlimit(50)]
proof fn lemma_dec_r(s: CpuState, idx: u8)
    requires
        idx < 8,
        idx != 6,
    ensures
        ({
            let t = s.dec_r(idx);
            let v = named_register(s.reg, idx as int);
            let r = named_register(t.reg, idx as int);
            &&& r == (if v == 0 { 255 } else { v - 1 })
            &&& flag_of(t.reg.f, 7) == (r == 0)
            &&& flag_of(t.reg.f, 6)
            &&& flag_of(t.reg.f, 5) == (v % 16 == 0)
            &&& flag_of(t.reg.f, 4) == flag_of(s.reg.f, 4)
            &&& t.pc == s.pc && t.sp == s.sp && t.mmu == s.mmu
        }),
{
    let v = s.reg.r8(idx);
    assert(v == named_register(s.reg, idx as int));
    let r = ((v + 255) % 256) as u8;
    lemma_znhc_flags(s.reg.f, r == 0, true, v % 16 == 0, flag_of(s.reg.f, 4));
}

/// What the rotation or shift `kind` of the prefixed group owes, for the
/// byte `v` before and `r` after with flags `g`: the bits of `r` are those
/// of `v` moved as the operation says, the carry takes the bit moved out,
/// and the zero flag tells whether `r` is 0.
pub open spec fn shift_law(kind: int, v: u8, r: u8, g: u8) -> bool {
    let c = flag_of(g, 4);
    &&& flag_of(g, 7) == (r == 0) && !flag_of(g, 6) && !flag_of(g, 5)
    &&& if kind == 0 || kind == 2 {
        r == ((v << 1u8) | (v >> 7u8)) && c == (v >= 128)
    } else if kind == 1 || kind == 3 {
        r == ((v >> 1u8) | (v << 7u8)) && c == (v % 2 == 1)
    } else if kind == 4 {
        r == (v << 1u8) && c == (v >= 128)
    } else if kind == 5 {
        r == ((v >> 1u8) | (v & 0x80u8)) && c == (v % 2 == 1)
    } else if kind == 6 {
        r == ((v << 4u8) | (v >> 4u8)) && !c
    } else {
        r == (v >> 1u8) && c == (v % 2 == 1)
    }
}

/// The arithmetic forms of the rotations and shifts are their bit forms.
#[verifier::rlimit(50)]
proof fn lemma_shift_bits(v: u8)
    ensures
        rotate_left(v) == ((v << 1u8) | (v >> 7u8)),
        rotate_right(v) == ((v >> 1u8) | (v << 7u8)),
        shift_left(v) == (v << 1u8),
        shift_right_arith(v) == ((v >> 1u8) | (v & 0x80u8)),
        swap_nibbles(v) == ((v << 4u8) | (v >> 4u8)),
        shift_right(v) == (v >> 1u8),
{
    assert(((v * 2) % 256 + v / 128) as u8 == ((v << 1u8) | (v >> 7u8))
        && (v / 2 + (v % 2) * 128) as u8 == ((v >> 1u8) | (v << 7u8))
        && ((v * 2) % 256) as u8 == (v << 1u8)
        && (v / 2 + (if v >= 128 { 128int } else { 0 })) as u8 == ((v >> 1u8) | (v & 0x80u8))
        && ((v % 16) * 16 + v / 16) as u8 == ((v << 4u8) | (v >> 4u8))
        && (v / 2) as u8 == (v >> 1u8)) by (bit_vector);
}

/// A prefixed rotation or shift (0x00 to 0x3F) of a register moves its
/// bits as `shift_law` says and keeps every other register.
#[verifier::rlimit(50)]
pub proof fn law_prefixed_shift(s: CpuState, op: u8)
    requires
        op < 0x40,
        op % 8 != 6,
    ensures
        s.exec_cb(op) is Some,
        shift_law(
            op as int / 8,
            named_register(s.reg, op as int % 8),
            named_register(s.exec_cb(op).unwrap().0.reg, op as int % 8),
            s.exec_cb(op).unwrap().0.reg.f,
        ),
        s.exec_cb(op).unwrap().0.pc == s.pc,
        s.exec_cb(op).unwrap().0.mmu == s.mmu,
{
    let idx = op % 8;
    let v = s.reg.r8(idx);
    assert(v == named_register(s.reg, idx as int));
    lemma_shift_bits(v);
    let (r, g) = shift_op(op / 8, v, s.reg.f);
    assert(named_register(s.exec_cb(op).unwrap().0.reg, op as int % 8) == r);
    lemma_znhc_flags(s.reg.f, r == 0, false, false, true);
    lemma_znhc_flags(s.reg.f, r == 0, false, false, false);
    lemma_znhc_flags(0, r == 0, false, false, false);
    lemma_znhc_flags(0, r == 0, false, false, true);
}

/// A bit test (0x40 to 0x7F) of a register sets the zero flag exactly when
/// the bit its middle three bits name is 0, sets the half carry, clears
/// the subtract flag, and keeps the carry and every register.
#[verifier::rlimit(50)]
pub proof fn law_prefixed_bit(s: CpuState, op: u8)
    requires
        0x40 <= op < 0x80,
        op % 8 != 6,
    ensures
        s.exec_cb(op) is Some,
        ({
            let t = s.exec_cb(op).unwrap().0;
            let v = named_register(s.reg, op as int % 8);
            &&& flag_of(t.reg.f, 7) == !flag_of(v, ((op % 64) / 8) as u8)
            &&& !flag_of(t.reg.f, 6) && flag_of(t.reg.f, 5)
            &&& flag_of(t.reg.f, 4) == flag_of(s.reg.f, 4)
            &&& t.reg.a == s.reg.a && t.reg.b == s.reg.b && t.reg.c == s.reg.c && t.reg.d == s.reg.d
            &&& t.reg.e == s.reg.e && t.reg.h == s.reg.h && t.reg.l == s.reg.l
        }),
{
    let v = s.reg.r8(op % 8);
    assert(v == named_register(s.reg, op as int % 8));
    let b = ((op % 64) / 8) as u8;
    lemma_znhc_flags(s.reg.f, !flag_of(v, b), false, true, flag_of(s.reg.f, 4));
}

/// A bit reset (0x80 to 0xBF) or set (0xC0 to 0xFF) of a register clears
/// or sets the bit its middle three bits name and keeps the others and
/// the flags.
#[verifier::rlimit(50)]
pub proof fn law_prefixed_res_set(s: CpuState, op: u8)
    requires
        op >= 0x80,
        op % 8 != 6,
    ensures
        s.exec_cb(op) is Some,
        ({
            let t = s.exec_cb(op).unwrap().0;
            let v = named_register(s.reg, op as int % 8);
            let r = named_register(t.reg, op as int % 8);
            let b = ((op % 64) / 8) as u8;
            &&& op < 0xc0 ==> r == (v & !(1u8 << b))
            &&& op >= 0xc0 ==> r == (v | (1u8 << b))
            &&& t.reg.f == s.reg.f
        }),
{
    let v = s.reg.r8(op % 8);
    assert(v == named_register(s.reg, op as int % 8));
}

/// The 16-bit register that bits 4 and 5 of opcodes 0x00 to 0x3F name:
/// bc, de, hl, sp.
pub open spec fn named_wide(s: CpuState, op: u8) -> int {
    let code = (op as int / 16) % 4;
    if code == 0 {
        s.reg.b * 256 + s.reg.c
    } else if code == 1 {
        s.reg.d * 256 + s.reg.e
    } else if code == 2 {
        s.reg.h * 256 + s.reg.l
    } else {
        s.sp as int
    }
}

/// A 16-bit increment (0x03, 0x13, 0x23, 0x33) or decrement (0x0B, 0x1B,
/// 0x2B, 0x3B) changes the register it names by one, wrapping modulo
/// 65536, and leaves the flags.
#[verifier::rlimit(50)]
pub proof fn law_wide_step(s: CpuState, op: u8)
    requires
        op < 0x40,
        op % 16 == 3 || op % 16 == 0x0b,
    ensures
        s.execute(op) is Some,
        op % 16 == 3 ==> named_wide(s.execute(op).unwrap().0, op) == (named_wide(s, op) + 1) % 65536,
        op % 16 == 0x0b ==> named_wide(s.execute(op).unwrap().0, op) == (named_wide(s, op) + 65535) % 65536,
        s.execute(op).unwrap().0.reg.f == s.reg.f,
        s.execute(op).unwrap().0.pc == s.pc,
        s.execute(op).unwrap().0.mmu == s.mmu,
{
    lemma_low_dispatch(s, op);
    let v = named_wide(s, op);
    let up = op % 16 == 3;
    let nv: int = if up { (v + 1) % 65536 } else { (v + 65535) % 65536 };
    if op == 0x03 || op == 0x0b {
        assert(s.execute(op) == Some((s.with_reg(s.reg.with_bc(nv as u16)), 2u32)));
    } else if op == 0x13 || op == 0x1b {
        assert(s.execute(op) == Some((s.with_reg(s.reg.with_de(nv as u16)), 2u32)));
    } else if op == 0x23 || op == 0x2b {
        assert(s.execute(op) == Some((s.with_reg(s.reg.with_hl(nv as u16)), 2u32)));
    } else {
        assert(s.execute(op) == Some((s.with_sp(nv as u16), 2u32)));
    }
}

/// Adding a 16-bit register to `hl` (0x09, 0x19, 0x29, 0x39): the new
/// `hl` and the carry together make the true sum, the half carry tells of
/// a carry out of the low eleven bits, the subtract flag is cleared and the zero flag
/// kept.
#[verifier::rlimit(50)]
pub proof fn law_add_hl(s: CpuState, op: u8)
    requires
        op < 0x40,
        op % 16 == 9,
    ensures
        s.execute(op) is Some,
        ({
            let t = s.execute(op).unwrap().0;
            let hl = s.reg.h * 256 + s.reg.l;
            let v = named_wide(s, op);
            &&& t.reg.h * 256 + t.reg.l + (if flag_of(t.reg.f, 4) { 65536int } else { 0 }) == hl + v
            &&& flag_of(t.reg.f, 5) == (hl % 2048 + v % 2048 > 2047)
            &&& !flag_of(t.reg.f, 6)
            &&& flag_of(t.reg.f, 7) == flag_of(s.reg.f, 7)
            &&& t.pc == s.pc && t.sp == s.sp && t.mmu == s.mmu
        }),
{
    if op == 0x09 {
        assert(s.execute(op) == s.exec_row0(op));
        assert(named_wide(s, op) == s.reg.bc());
        lemma_add_hl(s, s.reg.bc());
    } else if op == 0x19 {
        assert(s.execute(op) == s.exec_row1(op));
        assert(named_wide(s, op) == s.reg.de());
        lemma_add_hl(s, s.reg.de());
    } else if op == 0x29 {
        assert(s.execute(op) == s.exec_row2(op));
        assert(named_wide(s, op) == s.reg.hl());
        lemma_add_hl(s, s.reg.hl());
    } else {
        assert(s.execute(op) == s.exec_row3(op));
        lemma_add_hl(s, s.sp);
    }
}

/// Adding `v` to `hl`.
#[verifier::rlimit(50)]
proof fn lemma_add_hl(s: CpuState, v: u16)
    ensures
        ({
            let t = s.add_hl(v);
            let hl = s.reg.h * 256 + s.reg.l;
            &&& t.reg.h * 256 + t.reg.l + (if flag_of(t.reg.f, 4) { 65536int } else { 0 }) == hl + v
            &&& flag_of(t.reg.f, 5) == (hl % 2048 + v % 2048 > 2047)
            &&& !flag_of(t.reg.f, 6)
            &&& flag_of(t.reg.f, 7) == flag_of(s.reg.f, 7)
            &&& t.pc == s.pc && t.sp == s.sp && t.mmu == s.mmu
        }),
{
    let hl = s.reg.hl();
    assert(hl == s.reg.h * 256 + s.reg.l);
    let r = ((hl + v) % 65536) as u16;
    assert(hi_byte(r) * 256 + lo_byte(r) == r);
    lemma_znhc_flags(s.reg.f, flag_of(s.reg.f, 7), false, hl % 2048 + v % 2048 > 2047, hl + v > 65535);
}

/// Complementing `a` (0x2F) flips all its bits and sets the subtract and
/// half-carry flags; setting the carry (0x37) and complementing it (0x3F)
/// do what they say, clear the subtract and half-carry flags and keep the
/// zero flag.
#[verifier::rlimit(50)]
pub proof fn law_flag_instructions(s: CpuState)
    ensures
        s.execute(0x2f) is Some && s.execute(0x37) is Some && s.execute(0x3f) is Some,
        s.execute(0x2f).unwrap().0.reg.a == 255 - s.reg.a,
        flag_of(s.execute(0x2f).unwrap().0.reg.f, 6) && flag_of(s.execute(0x2f).unwrap().0.reg.f, 5),
        flag_of(s.execute(0x37).unwrap().0.reg.f, 4),
        flag_of(s.execute(0x3f).unwrap().0.reg.f, 4) == !flag_of(s.reg.f, 4),
        !flag_of(s.execute(0x37).unwrap().0.reg.f, 6) && !flag_of(s.execute(0x37).unwrap().0.reg.f, 5),
        !flag_of(s.execute(0x3f).unwrap().0.reg.f, 6) && !flag_of(s.execute(0x3f).unwrap().0.reg.f, 5),
        flag_of(s.execute(0x37).unwrap().0.reg.f, 7) == flag_of(s.reg.f, 7),
        flag_of(s.execute(0x3f).unwrap().0.reg.f, 7) == flag_of(s.reg.f, 7),
{
    let f = s.reg.f;
    let f1 = crate::cpu::registers::with_flag(f, 6, true);
    crate::cpu::registers::law_flag_roundtrip(f, 6, true);
    crate::cpu::registers::law_flag_roundtrip(f1, 5, true);
    for_flags(f, true);
    for_flags(f, !flag_of(f, 4));
    assert(s.execute(0x2f) == s.exec_row2(0x2f));
    assert(s.execute(0x37) == s.exec_row3(0x37));
    assert(s.execute(0x3f) == s.exec_row3(0x3f));
}

/// Writing the carry `c`, then clearing the subtract and half-carry
/// flags, keeps the zero flag.
#[verifier::rlimit(50)]
proof fn for_flags(f: u8, c: bool)
    ensures
        ({
            let g = crate::cpu::registers::with_flag(
                crate::cpu::registers::with_flag(crate::cpu::registers::with_flag(f, 4, c), 6, false),
                5,
                false,
            );
            &&& flag_of(g, 4) == c && !flag_of(g, 6) && !flag_of(g, 5) && flag_of(g, 7) == flag_of(f, 7)
        }),
{
    let g1 = crate::cpu::registers::with_flag(f, 4, c);
    let g2 = crate::cpu::registers::with_flag(g1, 6, false);
    crate::cpu::registers::law_flag_roundtrip(f, 4, c);
    crate::cpu::registers::law_flag_roundtrip(g1, 6, false);
    crate::cpu::registers::law_flag_roundtrip(g2, 5, false);
}

/// A load of a register from the byte that follows (0x06, 0x0E, ..., 0x3E
/// but 0x36) puts that byte in the register it names and moves past it.
#[verifier::rlimit(50)]
pub proof fn law_load_immediate(s: CpuState, op: u8)
    requires
        op < 0x40,
        op % 8 == 6,
        op != 0x36,
        s.pc < 0xffff,
        s.mmu.read_ok(s.pc),
    ensures
        s.execute(op) is Some,
        named_register(s.execute(op).unwrap().0.reg, op as int / 8) == s.mmu.read(s.pc),
        s.execute(op).unwrap().0.pc == s.pc + 1,
        s.execute(op).unwrap().0.reg.f == s.reg.f,
        s.execute(op).unwrap().0.mmu == s.mmu,
{
    lemma_low_dispatch(s, op);
}

/// A load of a register from memory at `hl` (0x46, 0x4E, ..., 0x7E but
/// 0x76) puts the byte there in the register it names.
#[verifier::rlimit(50)]
pub proof fn law_load_from_hl(s: CpuState, op: u8)
    requires
        0x40 <= op < 0x80,
        op % 8 == 6,
        op != 0x76,
        s.mmu.read_ok(s.reg.hl()),
    ensures
        s.execute(op) is Some,
        named_register(s.execute(op).unwrap().0.reg, (op as int - 0x40) / 8) == s.mmu.read(s.reg.hl()),
        s.execute(op).unwrap().0.pc == s.pc,
        s.execute(op).unwrap().0.mmu == s.mmu,
{
}

/// A store of a register to memory at `hl` (0x70 to 0x77 but 0x76), where
/// memory holds what it is given, makes that address read as the
/// register and leaves the registers.
#[verifier::rlimit(50)]
pub proof fn law_store_to_hl(s: CpuState, op: u8)
    requires
        0x70 <= op <= 0x77,
        op != 0x76,
        s.wf(),
        plain_addr(s.reg.hl()),
    ensures
        s.execute(op) is Some,
        s.execute(op).unwrap().0.mmu.read(s.reg.hl()) == named_register(s.reg, op as int % 8),
        s.execute(op).unwrap().0.reg == s.reg,
        s.execute(op).unwrap().0.pc == s.pc,
{
    let v = s.reg.r8(op % 8);
    crate::cpu::mmu::lemma_plain_access(s.mmu, s.reg.hl(), v);
    crate::cpu::mmu::law_read_after_write(s.mmu, s.reg.hl(), v);
}

/// A decimal adjustment after an addition of packed decimal bytes, each
/// instruction carried out in turn (0xC6 with `y` after it, then 0x27),
/// leaves the packed decimal sum modulo 100 and the carry for a sum of
/// 100 or more; after a subtraction (0xD6) the packed decimal difference
/// modulo 100 and the carry for a negative one.
#[verifier::rlimit(50)]
pub proof fn law_decimal_sequence(s: CpuState, op: u8)
    requires
        op == 0xc6 || op == 0xd6,
        s.pc < 0xffff,
        s.mmu.read_ok(s.pc),
        is_bcd(s.reg.a),
        is_bcd(s.mmu.read(s.pc)),
    ensures
        s.execute(op) is Some,
        s.execute(op).unwrap().0.execute(0x27) is Some,
        ({
            let x = s.reg.a;
            let y = s.mmu.read(s.pc);
            let u = s.execute(op).unwrap().0.execute(0x27).unwrap().0;
            &&& op == 0xc6 ==> u.reg.a == bcd_of((bcd_value(x) + bcd_value(y)) % 100) && flag_of(u.reg.f, 4) == (
            bcd_value(x) + bcd_value(y) >= 100)
            &&& op == 0xd6 ==> u.reg.a == bcd_of((bcd_value(x) + 100 - bcd_value(y)) % 100) && flag_of(u.reg.f, 4)
                == (bcd_value(x) < bcd_value(y))
        }),
{
    lemma_immediate_dispatch(s, op);
    let t = s.execute(op).unwrap().0;
    assert(t.execute(0x27) == t.exec_row2(0x27));
    if op == 0xc6 {
        law_daa_add(s.reg.a, s.mmu.read(s.pc), s.reg.f);
    } else {
        law_daa_sub(s.reg.a, s.mmu.read(s.pc), s.reg.f);
    }
}

/// A load of `a` from the high page (0xF0 with an offset byte after it,
/// 0xF2 with the offset in `c`) or from the address in the word that
/// follows (0xFA) puts the byte there in `a`, and moves past the operand.
#[verifier::rlimit(50)]
pub proof fn law_load_a(s: CpuState, op: u8)
    requires
        op == 0xf0 || op == 0xf2 || op == 0xfa,
        s.pc <= 0xfffd,
        s.mmu.read_ok(s.pc),
        s.mmu.read_ok((s.pc + 1) as u16),
        op == 0xf0 ==> s.mmu.read_ok((0xff00 + s.mmu.read(s.pc)) as u16),
        op == 0xf2 ==> s.mmu.read_ok((0xff00 + s.reg.c) as u16),
        op == 0xfa ==> s.mmu.read_ok(word_at(s, s.pc as int) as u16),
    ensures
        s.execute(op) is Some,
        op == 0xf0 ==> s.execute(op).unwrap().0.reg.a == s.mmu.read((0xff00 + s.mmu.read(s.pc)) as u16)
            && s.execute(op).unwrap().0.pc == s.pc + 1,
        op == 0xf2 ==> s.execute(op).unwrap().0.reg.a == s.mmu.read((0xff00 + s.reg.c) as u16)
            && s.execute(op).unwrap().0.pc == s.pc,
        op == 0xfa ==> s.execute(op).unwrap().0.reg.a == s.mmu.read(word_at(s, s.pc as int) as u16)
            && s.execute(op).unwrap().0.pc == s.pc + 2,
        s.execute(op).unwrap().0.mmu == s.mmu,
        s.execute(op).unwrap().0.reg.f == s.reg.f,
{
    assert(s.execute(op) == s.exec_row_f(op));
    let w = s.mmu.read(s.pc) + 256 * s.mmu.read((s.pc + 1) as u16);
    assert(0 <= w < 65536);
}

/// A store of `a` to the high page (0xE0 with an offset byte after it,
/// 0xE2 with the offset in `c`) or to the address in the word that follows
/// (0xEA), where memory holds what it is given, makes that address read
/// as `a` and moves past the operand.
#[verifier::rlimit(50)]
pub proof fn law_store_a(s: CpuState, op: u8)
    requires
        op == 0xe0 || op == 0xe2 || op == 0xea,
        s.wf(),
        s.pc <= 0xfffd,
        s.mmu.read_ok(s.pc),
        s.mmu.read_ok((s.pc + 1) as u16),
        op == 0xe0 ==> plain_addr((0xff00 + s.mmu.read(s.pc)) as u16),
        op == 0xe2 ==> plain_addr((0xff00 + s.reg.c) as u16),
        op == 0xea ==> plain_addr(word_at(s, s.pc as int) as u16),
    ensures
        s.execute(op) is Some,
        op == 0xe0 ==> s.execute(op).unwrap().0.mmu.read((0xff00 + s.mmu.read(s.pc)) as u16) == s.reg.a
            && s.execute(op).unwrap().0.pc == s.pc + 1,
        op == 0xe2 ==> s.execute(op).unwrap().0.mmu.read((0xff00 + s.reg.c) as u16) == s.reg.a
            && s.execute(op).unwrap().0.pc == s.pc,
        op == 0xea ==> s.execute(op).unwrap().0.mmu.read(word_at(s, s.pc as int) as u16) == s.reg.a
            && s.execute(op).unwrap().0.pc == s.pc + 2,
        s.execute(op).unwrap().0.reg == s.reg,
{
    assert(s.execute(op) == s.exec_row_e(op));
    let w = s.mmu.read(s.pc) + 256 * s.mmu.read((s.pc + 1) as u16);
    assert(0 <= w < 65536);
    let loc: u16 = if op == 0xe0 {
        (0xff00 + s.mmu.read(s.pc)) as u16
    } else if op == 0xe2 {
        (0xff00 + s.reg.c) as u16
    } else {
        w as u16
    };
    crate::cpu::mmu::lemma_plain_access(s.mmu, loc, s.reg.a);
    crate::cpu::mmu::law_read_after_write(s.mmu, loc, s.reg.a);
}

} // verus!
