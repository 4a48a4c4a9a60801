use vstd::prelude::*;

verus! {

/// The button matrix; a bit of 1 means the button is not pressed.
pub struct Joypad {
    pub keys_a: u8,
    pub keys_d: u8,
    /// When false, `read` reports `keys_d`; when true, `keys_a`. `down` and
    /// `up` change the row that `read` reports.
    pub select: bool,
}

/// `val` with bit `position` set to 1.
pub open spec fn bit_set(val: u8, position: u8) -> u8 {
    val | (1u8 << position)
}

/// `val` with bit `position` set to 0.
pub open spec fn bit_cleared(val: u8, position: u8) -> u8 {
    val & !(1u8 << position)
}

impl Joypad {
    /// The row of action buttons.
    pub open spec fn keys_a(&self) -> u8 {
        self.keys_a
    }

    /// The row of direction buttons.
    pub open spec fn keys_d(&self) -> u8 {
        self.keys_d
    }

    /// Which row `read` reports.
    pub open spec fn selected(&self) -> bool {
        self.select
    }

    /// What `read` reports.
    pub open spec fn value(&self) -> u8 {
        if self.select {
            self.keys_a()
        } else {
            self.keys_d()
        }
    }

    /// The joypad after the byte `byte` was written to its register.
    pub open spec fn after_write(self, byte: u8) -> Joypad {
        if (byte >> 5u8) & 1 == 0 {
            self.with_select(false)
        } else if (byte >> 4u8) & 1 == 1 {
            self.with_select(true)
        } else {
            self
        }
    }

    /// This joypad with `select` replaced.
    pub open spec fn with_select(self, select: bool) -> Joypad {
        Joypad { select, ..self }
    }

    /// A joypad with no button pressed and the direction row chosen.
    pub open spec fn initial() -> Joypad {
        Joypad { keys_a: 0xff, keys_d: 0xff, select: false }
    }

    pub fn new() -> (j: Self)
        ensures
            j == Joypad::initial(),
            j.keys_a() == 0xff,
            j.keys_d() == 0xff,
            !j.selected(),
    {
        Self {
            keys_a: 0xFF,
            keys_d: 0xFF,
            select: false,
        }
    }

    /// This joypad with the row that `read` reports replaced by `row`.
    pub open spec fn with_reported(self, row: u8) -> Joypad {
        if self.select {
            Joypad { keys_a: row, ..self }
        } else {
            Joypad { keys_d: row, ..self }
        }
    }

    /// Presses button `key` of the reported row: its bit becomes 0.
    pub fn down(&mut self, key: u8)
        requires
            key < 8,
        ensures
            *final(self) == old(self).with_reported(bit_cleared(old(self).value(), key)),
    {
        if self.select {
            self.keys_a = self.set(key, self.keys_a);
        } else {
            self.keys_d = self.set(key, self.keys_d);
        }
    }

    /// Releases button `key` of the reported row: its bit becomes 1.
    pub fn up(&mut self, key: u8)
        requires
            key < 8,
        ensures
            *final(self) == old(self).with_reported(bit_set(old(self).value(), key)),
    {
        if self.select {
            self.keys_a = self.res(key, self.keys_a);
        } else {
            self.keys_d = self.res(key, self.keys_d);
        }
    }

    /// A write to the joypad register: bit 5 clear selects the direction
    /// row, else bit 4 set selects the action row.
    pub fn write(&mut self, byte: u8)
        ensures
            *final(self) == old(self).after_write(byte),
    {
        if (byte >> 5) & 0b1 == 0 {
            self.select = false;
        } else if (byte >> 4) & 0b1 == 1 {
            self.select = true;
        }
    }

    pub fn read(&self) -> (r: u8)
        ensures
            r == self.value(),
    {
        if self.select {
            self.keys_a
        } else {
            self.keys_d
        }
    }

    /// Sets bit `position` of `val` to 1: the button is released.
    fn res(&self, position: u8, val: u8) -> (r: u8)
        requires
            position < 8,
        ensures
            r == bit_set(val, position),
    {
        val | (1u8 << position)
    }

    /// Sets bit `position` of `val` to 0: the button is pressed.
    fn set(&self, position: u8, val: u8) -> (r: u8)
        requires
            position < 8,
        ensures
            r == bit_cleared(val, position),
    {
        val & !(1u8 << position)
    }
}

/// A press of button `key` clears its bit in the row that `read` reports
/// and a release sets it; the other seven bits of the row and the row
/// chosen stay as they were.
pub proof fn law_button_bits(row: u8, key: u8)
    requires
        key < 8,
    ensures
        (bit_set(row, key) >> key) & 1 == 1,
        (bit_cleared(row, key) >> key) & 1 == 0,
        forall|k: u8| k < 8 && k != key ==> #[trigger] ((bit_set(row, key) >> k) & 1) == (row >> k) & 1,
        forall|k: u8| k < 8 && k != key ==> #[trigger] ((bit_cleared(row, key) >> k) & 1) == (row >> k) & 1,
{
    assert((bit_set(row, key) >> key) & 1 == 1 && (bit_cleared(row, key) >> key) & 1 == 0
        && (forall|k: u8| k < 8 && k != key ==> #[trigger] ((bit_set(row, key) >> k) & 1) == (row >> k) & 1)
        && (forall|k: u8| k < 8 && k != key ==> #[trigger] ((bit_cleared(row, key) >> k) & 1) == (row >> k) & 1))
        by (bit_vector)
        requires key < 8;
}

/// What `read` reports after a press of `key` has that bit cleared, and
/// after a release has it set; the other row is untouched.
pub proof fn law_press_release(j: Joypad, key: u8)
    requires
        key < 8,
    ensures
        j.with_reported(bit_cleared(j.value(), key)).value() == bit_cleared(j.value(), key),
        j.with_reported(bit_set(j.value(), key)).value() == bit_set(j.value(), key),
        j.with_reported(bit_cleared(j.value(), key)).selected() == j.selected(),
        j.select ==> j.with_reported(bit_set(j.value(), key)).keys_d == j.keys_d,
        !j.select ==> j.with_reported(bit_set(j.value(), key)).keys_a == j.keys_a,
{
}

} // verus!
