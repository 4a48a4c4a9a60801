use vstd::prelude::*;
use crate::joypad::{Joypad, bit_set, bit_cleared};

verus! {

/// How many host pixels each side of a screen pixel takes.
pub const SCALE: u32 = 2;

/// Screen pixels in a line.
pub const SCREEN_WIDTH: usize = 160;

/// The keys of the host keyboard that the emulator tells apart.
#[derive(PartialEq, Eq, Structural, Clone, Copy, Debug)]
pub enum HostKey {
    Right,
    Left,
    Up,
    Down,
    C,
    X,
    Q,
    W,
    Escape,
    Other,
}

/// The joypad button that a host key stands for: its bit and whether it is
/// in the action row. The arrows are the direction pad; C, X, Q and W are
/// A, B, Start and Select.
pub open spec fn button_of(key: HostKey) -> Option<(u8, bool)> {
    match key {
        HostKey::Right => Some((0, false)),
        HostKey::Left => Some((1, false)),
        HostKey::Up => Some((2, false)),
        HostKey::Down => Some((3, false)),
        HostKey::C => Some((0, true)),
        HostKey::X => Some((1, true)),
        HostKey::Q => Some((2, true)),
        HostKey::W => Some((3, true)),
        _ => None,
    }
}

pub fn key_code(key: HostKey) -> (r: Option<(u8, bool)>)
    ensures
        r == button_of(key),
{
    match key {
        HostKey::Right => Some((0, false)),
        HostKey::Left => Some((1, false)),
        HostKey::Up => Some((2, false)),
        HostKey::Down => Some((3, false)),
        // This is actually A (on the gameboy), but the C key is a nicer keybind for a keyboard.
        HostKey::C => Some((0, true)),
        // Actually B
        HostKey::X => Some((1, true)),
        // Actually Start
        HostKey::Q => Some((2, true)),
        // Actually Select
        HostKey::W => Some((3, true)),
        _ => None,
    }
}

/// What a key event does to the joypad: a key that stands for a button
/// chooses that button's row, then a press clears the button's bit and a
/// release sets it; other keys change nothing.
pub fn key_event(joypad: &mut Joypad, key: HostKey, pressed: bool)
    ensures
        button_of(key) is None ==> *final(joypad) == *old(joypad),
        button_of(key) matches Some((bit, row)) ==> {
            let chosen = Joypad { select: row, ..*old(joypad) };
            *final(joypad) == chosen.with_reported(
                if pressed {
                    bit_cleared(chosen.value(), bit)
                } else {
                    bit_set(chosen.value(), bit)
                },
            )
        },
{
    if let Some((key, select)) = key_code(key) {
        joypad.select = select;
        if pressed {
            joypad.down(key);
        } else {
            joypad.up(key);
        }
    }
}

/// A square of the host window filled with one colour.
#[derive(PartialEq, Eq, Structural, Clone, Copy, Debug)]
pub struct Cell {
    pub x: i32,
    pub y: i32,
    pub r: u8,
    pub g: u8,
    pub b: u8,
}

/// The square that screen pixel `i` of an RGB picture `buf` is drawn as:
/// pixels run along lines of 160, each drawn `SCALE` host pixels wide.
pub open spec fn cell_at(buf: Seq<u8>, i: int) -> Cell {
    Cell {
        x: ((i % 160) * 2) as i32,
        y: ((i / 160) * 2) as i32,
        r: buf[i * 3],
        g: buf[i * 3 + 1],
        b: buf[i * 3 + 2],
    }
}

/// The squares to draw for an RGB picture, one per whole pixel, in order;
/// a picture long enough that a line number times `SCALE` would not fit 32
/// bits is left out.
pub fn screen_cells(buf: &[u8]) -> (cells: Vec<Cell>)
    requires
        buf@.len() / 3 <= 160 * 0x8000_0000,
    ensures
        cells@.len() == buf@.len() / 3,
        forall|i: int| 0 <= i < cells@.len() ==> #[trigger] cells@[i] == cell_at(buf@, i),
{
    let mut cells: Vec<Cell> = Vec::new();
    let len = buf.len();
    let n = len / 3;
    for i in 0..n
        invariant
            len == buf@.len(),
            n == buf@.len() / 3,
            n <= 160 * 0x8000_0000,
            cells@.len() == i,
            forall|k: int| 0 <= k < i ==> #[trigger] cells@[k] == cell_at(buf@, k),
    {
        assert(3 * n <= buf@.len() && i * 3 + 2 < buf@.len());
        let (r, g, b) = (buf[i * 3], buf[(i * 3) + 1], buf[(i * 3) + 2]);
        let x = (i % SCREEN_WIDTH) as u32;
        let y = (i / SCREEN_WIDTH) as u32;
        cells.push(Cell { x: (x * SCALE) as i32, y: (y * SCALE) as i32, r, g, b });
    }
    cells
}

} // verus!
