use vstd::prelude::*;

verus! {

/// Size of the cartridge's own memory.
pub const RAM_SIZE: usize = 8191;

/// A memory bank controller: the cartridge image, its own memory and the
/// kind of controller the cartridge header names.
pub struct Mbc<'a> {
    pub rom: &'a [u8],
    pub ram: [u8; RAM_SIZE],
    pub mbc_type: u8,
}

} // verus!
