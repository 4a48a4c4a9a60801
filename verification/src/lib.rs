use vstd::prelude::*;

pub mod cpu;
pub mod frontend;
pub mod joypad;
pub mod mbc;
pub mod ppu;
pub mod ppu_old;

verus! {

} // verus!
