use vstd::prelude::*;

pub mod flags;

verus! {

/// The eight 8-bit registers of the processor; `f` holds the flags.
pub struct Registers {
    pub a: u8,
    pub b: u8,
    pub c: u8,
    pub d: u8,
    pub e: u8,
    pub f: u8,
    pub h: u8,
    pub l: u8,
}

/// The 16-bit value whose high byte is `hi` and low byte is `lo`.
pub open spec fn pair(hi: u8, lo: u8) -> u16 {
    (hi as int * 256 + lo as int) as u16
}

/// The high byte of a 16-bit value.
pub open spec fn hi_byte(v: u16) -> u8 {
    (v as int / 256) as u8
}

/// The low byte of a 16-bit value.
pub open spec fn lo_byte(v: u16) -> u8 {
    (v as int % 256) as u8
}

/// Whether bit `n` of `f` is set.
pub open spec fn flag_of(f: u8, n: u8) -> bool {
    (f >> n) & 1 == 1
}

/// `f` with bit `n` set to `v` and every other bit kept.
pub open spec fn with_flag(f: u8, n: u8, v: bool) -> u8 {
    if v {
        f | (1u8 << n)
    } else {
        f & !(1u8 << n)
    }
}

/// The flag byte `f` with zero, subtract, half-carry and carry flags set to
/// `z`, `n`, `h` and `c`; the low four bits are kept.
pub open spec fn znhc(f: u8, z: bool, n: bool, h: bool, c: bool) -> u8 {
    with_flag(with_flag(with_flag(with_flag(f, 7, z), 6, n), 5, h), 4, c)
}

impl Registers {
    /// The register pair `hl` as a 16-bit value.
    pub open spec fn hl(&self) -> u16 {
        pair(self.h, self.l)
    }

    /// The register pair `bc` as a 16-bit value.
    pub open spec fn bc(&self) -> u16 {
        pair(self.b, self.c)
    }

    /// The register pair `de` as a 16-bit value.
    pub open spec fn de(&self) -> u16 {
        pair(self.d, self.e)
    }

    /// The register pair `af` as a 16-bit value.
    pub open spec fn af(&self) -> u16 {
        pair(self.a, self.f)
    }

    /// Whether flag bit `n` is set.
    pub open spec fn flag(&self, n: u8) -> bool {
        flag_of(self.f, n)
    }

    /// The 8-bit register numbered `idx` in instruction encodings (0 `b`,
    /// 1 `c`, 2 `d`, 3 `e`, 4 `h`, 5 `l`, 7 `a`); 6 stands for memory and
    /// reads as 0 here.
    pub open spec fn r8(&self, idx: u8) -> u8 {
        if idx == 0 {
            self.b
        } else if idx == 1 {
            self.c
        } else if idx == 2 {
            self.d
        } else if idx == 3 {
            self.e
        } else if idx == 4 {
            self.h
        } else if idx == 5 {
            self.l
        } else if idx == 7 {
            self.a
        } else {
            0
        }
    }

    /// These registers with register `idx` replaced (6 changes nothing).
    pub open spec fn with_r8(self, idx: u8, v: u8) -> Registers {
        if idx == 0 {
            Registers { b: v, ..self }
        } else if idx == 1 {
            Registers { c: v, ..self }
        } else if idx == 2 {
            Registers { d: v, ..self }
        } else if idx == 3 {
            Registers { e: v, ..self }
        } else if idx == 4 {
            Registers { h: v, ..self }
        } else if idx == 5 {
            Registers { l: v, ..self }
        } else if idx == 7 {
            Registers { a: v, ..self }
        } else {
            self
        }
    }

    /// These registers with `a` and `f` replaced.
    pub open spec fn with_a_f(self, a: u8, f: u8) -> Registers {
        Registers { a, f, ..self }
    }

    /// These registers with `f` replaced.
    pub open spec fn with_f(self, f: u8) -> Registers {
        Registers { f, ..self }
    }

    /// These registers with `hl` replaced.
    pub open spec fn with_hl(self, v: u16) -> Registers {
        Registers { h: hi_byte(v), l: lo_byte(v), ..self }
    }

    /// These registers with `bc` replaced.
    pub open spec fn with_bc(self, v: u16) -> Registers {
        Registers { b: hi_byte(v), c: lo_byte(v), ..self }
    }

    /// These registers with `de` replaced.
    pub open spec fn with_de(self, v: u16) -> Registers {
        Registers { d: hi_byte(v), e: lo_byte(v), ..self }
    }

    /// These registers with `af` replaced.
    pub open spec fn with_af(self, v: u16) -> Registers {
        Registers { a: hi_byte(v), f: lo_byte(v), ..self }
    }

    pub fn new_empty() -> (r: Registers)
        ensures
            r == (Registers { a: 0, b: 0, c: 0, d: 0, e: 0, f: 0, h: 0, l: 0 }),
    {
        Registers { a: 0, b: 0, c: 0, d: 0, e: 0, f: 0, h: 0, l: 0 }
    }

    /// The register values after the boot program has run.
    pub fn new_default() -> (r: Registers)
        ensures
            r == (Registers { a: 0x11, b: 0x00, c: 0x13, d: 0x00, e: 0xd8, f: 0xb0, h: 0x01, l: 0x4d }),
    {
        Registers { a: 0x11, b: 0x00, c: 0x13, d: 0x00, e: 0xd8, f: 0xb0, h: 0x01, l: 0x4d }
    }

    pub fn get_af(&self) -> (r: u16)
        ensures
            r == self.af(),
    {
        proof {
            lemma_pair(self.a, self.f);
        }
        (self.a as u16) << 8 | self.f as u16
    }

    pub fn get_bc(&self) -> (r: u16)
        ensures
            r == self.bc(),
    {
        proof {
            lemma_pair(self.b, self.c);
        }
        (self.b as u16) << 8 | self.c as u16
    }

    pub fn get_de(&self) -> (r: u16)
        ensures
            r == self.de(),
    {
        proof {
            lemma_pair(self.d, self.e);
        }
        (self.d as u16) << 8 | self.e as u16
    }

    pub fn get_hl(&self) -> (r: u16)
        ensures
            r == self.hl(),
    {
        proof {
            lemma_pair(self.h, self.l);
        }
        (self.h as u16) << 8 | self.l as u16
    }

    pub fn set_af(&mut self, v: u16)
        ensures
            *final(self) == old(self).with_af(v),
    {
        proof {
            lemma_split(v);
        }
        self.a = (v >> 8) as u8;
        self.f = v as u8;
    }

    pub fn set_bc(&mut self, v: u16)
        ensures
            *final(self) == old(self).with_bc(v),
    {
        proof {
            lemma_split(v);
        }
        self.b = (v >> 8) as u8;
        self.c = v as u8;
    }

    pub fn set_de(&mut self, v: u16)
        ensures
            *final(self) == old(self).with_de(v),
    {
        proof {
            lemma_split(v);
        }
        self.d = (v >> 8) as u8;
        self.e = v as u8;
    }

    pub fn set_hl(&mut self, v: u16)
        ensures
            *final(self) == old(self).with_hl(v),
    {
        proof {
            lemma_split(v);
        }
        self.h = (v >> 8) as u8;
        self.l = v as u8;
    }

    /// Whether flag bit `flag` is set; `flag` is one of the constants of `flags`.
    pub fn get_flag(&self, flag: u8) -> (r: bool)
        requires
            flag < 8,
        ensures
            r == self.flag(flag),
    {
        let flag = (self.f >> flag) & 0b1;
        if flag == 1 {
            return true
        } else {
            return false
        };
    }

    /// Sets flag bit `flag` to `value`; every other bit of `f` is kept.
    pub fn set_flag(&mut self, flag: u8, value: bool)
        requires
            flag < 8,
        ensures
            *final(self) == old(self).with_f(with_flag(old(self).f, flag, value)),
    {
        let bit: u8 = if value { 1 } else { 0 };
        proof {
            lemma_set_flag_bits(self.f, flag, value);
        }
        self.f = self.f & !(1 << flag) | (bit << flag);
    }

    /// Clears every flag.
    pub fn unset_flags(&mut self)
        ensures
            *final(self) == old(self).with_f(0),
    {
        self.f = 0;
    }

    /// Returns `hl` and decrements it.
    pub fn hld(&mut self) -> (r: u16)
        requires
            old(self).hl() > 0,
        ensures
            r == old(self).hl(),
            *final(self) == old(self).with_hl((old(self).hl() - 1) as u16),
    {
        let res = self.get_hl();
        self.set_hl(res - 1);
        res
    }

    /// Returns `hl` and increments it.
    pub fn hli(&mut self) -> (r: u16)
        requires
            old(self).hl() < 0xffff,
        ensures
            r == old(self).hl(),
            *final(self) == old(self).with_hl((old(self).hl() + 1) as u16),
    {
        let res = self.get_hl();
        self.set_hl(res + 1);
        res
    }
}

proof fn lemma_pair(hi: u8, lo: u8)
    ensures
        ((hi as u16) << 8 | lo as u16) == pair(hi, lo),
{
    assert(((hi as u16) << 8 | lo as u16) == (hi as u16) * 256 + lo as u16) by (bit_vector);
}

proof fn lemma_split(v: u16)
    ensures
        ((v >> 8) as u8) == hi_byte(v),
        (v as u8) == lo_byte(v),
{
    assert((v >> 8) as u8 == v / 256 && v as u8 == v % 256) by (bit_vector);
}

proof fn lemma_set_flag_bits(f: u8, n: u8, v: bool)
    requires
        n < 8,
    ensures
        (f & !(1u8 << n) | ((if v { 1u8 } else { 0u8 }) << n)) == with_flag(f, n, v),
{
    assert(v ==> (f & !(1u8 << n) | (1u8 << n)) == f | (1u8 << n)) by (bit_vector);
    assert((f & !(1u8 << n) | (0u8 << n)) == f & !(1u8 << n)) by (bit_vector);
}

/// The flag byte is the same whatever order its flags are written in, and a
/// flag that is written again with the value it has leaves the byte as it was.
pub proof fn lemma_flag_orders()
    ensures
        forall|f: u8, z: bool, n: bool, h: bool, c: bool| #[trigger] with_flag(with_flag(with_flag(with_flag(f, 7, z), 5, h), 6, n), 4, c) == znhc(f, z, n, h, c),
        forall|f: u8, z: bool, n: bool, h: bool, c: bool| #[trigger] with_flag(with_flag(with_flag(with_flag(f, 6, n), 7, z), 5, h), 4, c) == znhc(f, z, n, h, c),
        forall|f: u8, z: bool, n: bool, h: bool, c: bool| #[trigger] with_flag(with_flag(with_flag(with_flag(f, 5, h), 6, n), 7, z), 4, c) == znhc(f, z, n, h, c),
        forall|f: u8, z: bool, n: bool, h: bool| #[trigger] with_flag(with_flag(with_flag(with_flag(f, 7, z), 7, z), 6, n), 5, h) == znhc(f, z, n, h, flag_of(f, 4)),
        forall|f: u8, z: bool, n: bool, h: bool| #[trigger] with_flag(with_flag(with_flag(f, 7, z), 6, n), 5, h) == znhc(f, z, n, h, flag_of(f, 4)),
        forall|f: u8, n: bool, h: bool, c: bool| #[trigger] with_flag(with_flag(with_flag(f, 4, c), 5, h), 6, n) == znhc(f, flag_of(f, 7), n, h, c),
        forall|z: bool, c: bool| #[trigger] with_flag(with_flag(0, 7, z), 4, c) == znhc(0, z, false, false, c),
        forall|z: bool| #[trigger] with_flag(0, 7, z) == znhc(0, z, false, false, false),
        forall|f: u8, z: bool, n: bool, h: bool| #[trigger] with_flag(with_flag(with_flag(f, 6, n), 5, h), 7, z) == znhc(f, z, n, h, flag_of(f, 4)),
        forall|f: u8, z: bool, h: bool| #[trigger] with_flag(with_flag(f, 7, z), 5, h) == znhc(f, z, flag_of(f, 6), h, flag_of(f, 4)),
        forall|f: u8, z: bool, h: bool, c: bool| #[trigger] with_flag(with_flag(with_flag(f, 4, c), 7, z), 5, h) == znhc(f, z, flag_of(f, 6), h, c),
        forall|f: u8| #[trigger] with_flag(f, 4, flag_of(f, 4)) == f,
        forall|f: u8| #[trigger] flag_of(with_flag(f, 4, true), 6) == flag_of(f, 6),
        forall|f: u8| flag_of(#[trigger] with_flag(f, 4, true), 4),
{
    assert(
        (forall|f: u8, z: bool, n: bool, h: bool, c: bool| #[trigger] with_flag(with_flag(with_flag(with_flag(f, 7, z), 5, h), 6, n), 4, c) == znhc(f, z, n, h, c))
        && (forall|f: u8, z: bool, n: bool, h: bool, c: bool| #[trigger] with_flag(with_flag(with_flag(with_flag(f, 6, n), 7, z), 5, h), 4, c) == znhc(f, z, n, h, c))
        && (forall|f: u8, z: bool, n: bool, h: bool, c: bool| #[trigger] with_flag(with_flag(with_flag(with_flag(f, 5, h), 6, n), 7, z), 4, c) == znhc(f, z, n, h, c))
        && (forall|f: u8, z: bool, n: bool, h: bool| #[trigger] with_flag(with_flag(with_flag(with_flag(f, 7, z), 7, z), 6, n), 5, h) == znhc(f, z, n, h, flag_of(f, 4)))
        && (forall|f: u8, z: bool, n: bool, h: bool| #[trigger] with_flag(with_flag(with_flag(f, 7, z), 6, n), 5, h) == znhc(f, z, n, h, flag_of(f, 4)))
        && (forall|f: u8, n: bool, h: bool, c: bool| #[trigger] with_flag(with_flag(with_flag(f, 4, c), 5, h), 6, n) == znhc(f, flag_of(f, 7), n, h, c))
        && (forall|z: bool, c: bool| #[trigger] with_flag(with_flag(0, 7, z), 4, c) == znhc(0, z, false, false, c))
        && (forall|z: bool| #[trigger] with_flag(0, 7, z) == znhc(0, z, false, false, false))
        && (forall|f: u8, z: bool, n: bool, h: bool| #[trigger] with_flag(with_flag(with_flag(f, 6, n), 5, h), 7, z) == znhc(f, z, n, h, flag_of(f, 4)))
        && (forall|f: u8, z: bool, h: bool| #[trigger] with_flag(with_flag(f, 7, z), 5, h) == znhc(f, z, flag_of(f, 6), h, flag_of(f, 4)))
        && (forall|f: u8, z: bool, h: bool, c: bool| #[trigger] with_flag(with_flag(with_flag(f, 4, c), 7, z), 5, h) == znhc(f, z, flag_of(f, 6), h, c))
        && (forall|f: u8| #[trigger] with_flag(f, 4, flag_of(f, 4)) == f)
        && (forall|f: u8| #[trigger] flag_of(with_flag(f, 4, true), 6) == flag_of(f, 6))
        && (forall|f: u8| flag_of(#[trigger] with_flag(f, 4, true), 4))
    ) by (bit_vector);
}

/// Splitting a 16-bit value into its two bytes and joining them again gives
/// the value back: a register pair reads back what was stored in it.
pub proof fn law_pair_roundtrip(v: u16)
    ensures
        pair(hi_byte(v), lo_byte(v)) == v,
{
}

/// Setting a flag and reading it back gives the value written, and leaves
/// every other flag bit as it was.
pub proof fn law_flag_roundtrip(f: u8, n: u8, v: bool)
    requires
        n < 8,
    ensures
        flag_of(with_flag(f, n, v), n) == v,
        forall|m: u8| m < 8 && m != n ==> #[trigger] flag_of(with_flag(f, n, v), m) == flag_of(f, m),
{
    assert(flag_of(with_flag(f, n, v), n) == v) by (bit_vector)
        requires n < 8;
    assert forall|m: u8| m < 8 && m != n implies #[trigger] flag_of(with_flag(f, n, v), m) == flag_of(f, m) by {
        assert(flag_of(with_flag(f, n, v), m) == flag_of(f, m)) by (bit_vector)
            requires m < 8, n < 8, m != n;
    }
}

} // verus!
