use gb_core::cpu::mmu::MMU;
use gb_core::cpu::registers::{flags, Registers};
use gb_core::joypad::Joypad;

#[test]
fn work_memory_reads_back_what_was_written() {
    let mut mmu = MMU::new();
    mmu.write_byte(0xc000, 0x5a);
    mmu.write_byte(0xd123, 0xa5);
    mmu.write_byte(0xa010, 0x33);
    assert_eq!(mmu.read_byte(0xc000), 0x5a);
    assert_eq!(mmu.read_byte(0xd123), 0xa5);
    assert_eq!(mmu.read_byte(0xa010), 0x33);
    assert_eq!(mmu.read_byte(0xc001), 0xff);
}

#[test]
fn high_memory_and_interrupt_registers() {
    let mut mmu = MMU::new();
    mmu.write_byte(0xff80, 1);
    mmu.write_byte(0xfffe, 2);
    mmu.write_byte(0xffff, 0x1f);
    mmu.write_byte(0xff0f, 0x04);
    assert_eq!(mmu.read_byte(0xff80), 1);
    assert_eq!(mmu.read_byte(0xfffe), 2);
    assert_eq!(mmu.read_byte(0xffff), 0x1f);
    assert_eq!(mmu.read_byte(0xff0f), 0x04);
}

#[test]
fn word_roundtrip_is_little_endian() {
    let mut mmu = MMU::new();
    mmu.write_word(0xff90, 0xbeef);
    assert_eq!(mmu.read_byte(0xff90), 0xef);
    assert_eq!(mmu.read_byte(0xff91), 0xbe);
    assert_eq!(mmu.read_word(0xff90), 0xbeef);
}

#[test]
fn cartridge_memory_ignores_writes_and_banks_switch() {
    let mut mmu = MMU::new();
    let mut rom = vec![0u8; 0xc000];
    rom[0x0100] = 0x11;
    rom[0x4000] = 0x22;
    rom[0x8000] = 0x33;
    mmu.load(&rom);
    assert_eq!(mmu.read_byte(0x0100), 0x11);
    assert_eq!(mmu.read_byte(0x4000), 0x22);
    mmu.write_byte(0x0100, 0x99);
    assert_eq!(mmu.read_byte(0x0100), 0x11);
    mmu.write_byte(0x2000, 0x02);
    assert_eq!(mmu.read_byte(0x4000), 0x33);
}

#[test]
fn unused_area_reads_as_ff() {
    let mmu = MMU::new();
    assert_eq!(mmu.read_byte(0xfea0), 0xff);
    assert_eq!(mmu.read_byte(0xfeff), 0xff);
}

#[test]
fn object_memory_copy() {
    let mut mmu = MMU::new();
    for i in 0..0xa0u16 {
        mmu.write_byte(0xc000 + i, i as u8);
    }
    mmu.write_byte(0xff46, 0xc0);
    assert_eq!(mmu.read_byte(0xfe00), 0);
    assert_eq!(mmu.read_byte(0xfe10), 0x10);
    assert_eq!(mmu.read_byte(0xfe9f), 0x9f);
}

#[test]
fn general_transfer_copies_a_row_to_video_memory() {
    let mut mmu = MMU::new();
    for i in 0..0x10u16 {
        mmu.write_byte(0xc000 + i, 0x80 + i as u8);
    }
    mmu.write_byte(0xff51, 0xc0);
    mmu.write_byte(0xff52, 0x00);
    mmu.write_byte(0xff53, 0x01);
    mmu.write_byte(0xff54, 0x00);
    mmu.write_byte(0xff55, 0x00);
    assert_eq!(mmu.read_byte(0xff55), 0x00);
    assert_eq!(mmu.perform_vramdma(), 8);
    assert_eq!(mmu.read_byte(0x8100), 0x80);
    assert_eq!(mmu.read_byte(0x810f), 0x8f);
    assert_eq!(mmu.read_byte(0xff55), 0xff);
    assert_eq!(mmu.perform_vramdma(), 0);
}

#[test]
fn transfer_registers_mask_their_low_bits() {
    let mut mmu = MMU::new();
    mmu.write_byte(0xff52, 0xff);
    mmu.write_byte(0xff53, 0xff);
    mmu.write_byte(0xff54, 0xff);
    assert_eq!(mmu.read_byte(0xff52), 0xf0);
    assert_eq!(mmu.read_byte(0xff53), 0x1f);
    assert_eq!(mmu.read_byte(0xff54), 0xf0);
}

#[test]
fn joypad_register_chooses_the_row() {
    let mut mmu = MMU::new();
    mmu.joypad.keys_a = 0x0e;
    mmu.joypad.keys_d = 0x0d;
    mmu.write_byte(0xff00, 0x30);
    assert_eq!(mmu.read_byte(0xff00), 0x0e);
    mmu.write_byte(0xff00, 0x10);
    assert_eq!(mmu.read_byte(0xff00), 0x0d);
    mmu.write_byte(0xff00, 0x20);
    assert_eq!(mmu.read_byte(0xff00), 0x0d);
}

#[test]
fn cycle_moves_video_interrupts_to_the_flags() {
    let mut mmu = MMU::new();
    mmu.ppu.ly = 143;
    mmu.ppu.stat = 0;
    assert_eq!(mmu.do_cycle(4), 4);
    assert_eq!(mmu.ppu.ly, 144);
    assert_eq!(mmu.read_byte(0xff0f) & 1, 1);
    assert_eq!(mmu.ppu.interrupt, 0);
}

#[test]
fn register_pairs_roundtrip() {
    let mut r = Registers::new_empty();
    r.set_bc(0x1234);
    r.set_de(0xabcd);
    r.set_hl(0x8001);
    r.set_af(0x12f0);
    assert_eq!(r.get_bc(), 0x1234);
    assert_eq!(r.get_de(), 0xabcd);
    assert_eq!(r.get_hl(), 0x8001);
    assert_eq!(r.get_af(), 0x12f0);
    assert_eq!(r.b, 0x12);
    assert_eq!(r.c, 0x34);
}

#[test]
fn flags_roundtrip() {
    let mut r = Registers::new_empty();
    assert!(!r.get_flag(flags::C));
    r.set_flag(flags::C, true);
    assert!(r.get_flag(flags::C));
    assert_eq!(r.f, 0x10);
    r.set_flag(flags::Z, true);
    r.set_flag(flags::C, false);
    assert_eq!(r.f, 0x80);
    r.unset_flags();
    assert_eq!(r.f, 0);
}

#[test]
fn hl_post_increment_and_decrement() {
    let mut r = Registers::new_empty();
    r.set_hl(0x00ff);
    assert_eq!(r.hli(), 0x00ff);
    assert_eq!(r.get_hl(), 0x0100);
    assert_eq!(r.hld(), 0x0100);
    assert_eq!(r.get_hl(), 0x00ff);
}

#[test]
fn default_registers() {
    let r = Registers::new_default();
    assert_eq!(r.get_af(), 0x11b0);
    assert_eq!(r.get_hl(), 0x014d);
}

#[test]
fn joypad_buttons() {
    let mut j = Joypad::new();
    assert_eq!(j.read(), 0xff);
    j.down(0);
    assert_eq!(j.read(), 0xfe);
    j.down(2);
    assert_eq!(j.read(), 0xfa);
    assert_eq!(j.keys_d, 0xfa);
    assert_eq!(j.keys_a, 0xff);
    j.up(2);
    assert_eq!(j.read(), 0xfe);
    j.select = true;
    j.down(1);
    assert_eq!(j.read(), 0xfd);
    assert_eq!(j.keys_d, 0xfe);
    j.write(0x10);
    assert_eq!(j.read(), 0xfe);
    j.up(0);
    assert_eq!(j.read(), 0xff);
}

#[test]
fn definedness_of_reads_and_writes() {
    let mmu = MMU::new();
    assert!(mmu.read_ok(0xc000));
    assert!(!mmu.read_ok(0xe000));
    assert!(!mmu.read_ok(0xff56));
    assert!(mmu.write_ok(0xc000, 1));
    assert!(!mmu.write_ok(0x4000, 1));
    assert!(mmu.write_ok(0xff46, 0xc0));
    assert!(!mmu.write_ok(0xff46, 0xe0));
    assert!(mmu.write_word_ok(0xc000, 0x1234));
    assert!(!mmu.write_word_ok(0xffff, 0x1234));
    assert!(!mmu.write_word_ok(0x3fff, 0x1234));
}

#[test]
fn transfer_definedness() {
    let mut mmu = MMU::new();
    assert!(mmu.vramdma_ok());
    mmu.write_byte(0xff51, 0xc0);
    mmu.write_byte(0xff52, 0x00);
    mmu.write_byte(0xff53, 0x1f);
    mmu.write_byte(0xff54, 0xf0);
    // Two rows from 0x9ff0: the second runs past video memory.
    mmu.write_byte(0xff55, 0x01);
    assert!(!mmu.vramdma_ok());
    assert_eq!(mmu.try_do_cycle(4), None);
    assert_eq!(mmu.read_byte(0xff55), 0x01);
    let mut mmu = MMU::new();
    assert_eq!(mmu.try_do_cycle(4), Some(4));
}
