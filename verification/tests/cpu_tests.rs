use gb_core::cpu::Cpu;
use gb_core::cpu::registers::flags;

/// A cartridge image with `program` at the entry point 0x100.
fn cartridge(program: &[u8]) -> Vec<u8> {
    let mut rom = vec![0u8; 0x200];
    for (i, b) in program.iter().enumerate() {
        rom[0x100 + i] = *b;
    }
    rom
}

fn running(program: &[u8]) -> Cpu {
    let mut cpu = Cpu::new();
    cpu.load(&cartridge(program));
    cpu
}

#[test]
fn rl() {
    let mut cpu = Cpu::new();
    assert_eq!(cpu.rl(0b10101010), 0b01010101);
    assert_eq!(cpu.reg.get_flag(flags::C), true);

    assert_eq!(cpu.rl(0b01010101), 0b10101010);
    assert_eq!(cpu.reg.get_flag(flags::C), false);
}

#[test]
fn rr() {
    let mut cpu = Cpu::new();
    assert_eq!(cpu.rr(0b10000001), 0b11000000);
    assert_eq!(cpu.reg.get_flag(flags::C), true);

    assert_eq!(cpu.rr(0b11000000), 0b01100000);
    assert_eq!(cpu.reg.get_flag(flags::C), false);
}

#[test]
fn xor_a() {
    let mut cpu = Cpu::new();
    cpu.reg.a = 0x01;
    cpu.execute(0xaf);
    assert_eq!(cpu.reg.a, 0b0);
}

#[test]
fn xor_a_sets_zero_flag() {
    let mut cpu = Cpu::new();
    cpu.reg.a = 0x5a;
    cpu.execute(0xaf);
    assert_eq!(cpu.reg.a, 0);
    assert!(cpu.reg.get_flag(flags::Z));
    assert!(!cpu.reg.get_flag(flags::C));
}

#[test]
fn power_on_state() {
    let cpu = Cpu::new();
    assert_eq!(cpu.pc, 0x100);
    assert_eq!(cpu.sp, 0xfffe);
    assert_eq!(cpu.reg.get_af(), 0x11b0);
    assert_eq!(cpu.reg.get_bc(), 0x0013);
    assert_eq!(cpu.reg.get_de(), 0x00d8);
    assert_eq!(cpu.reg.get_hl(), 0x014d);
    assert_eq!(cpu.mmu.read_byte(0xff40), 0x91);
    assert_eq!(cpu.mmu.read_byte(0xff47), 0xfc);
    assert_eq!(cpu.mmu.read_byte(0xff26), 0xf1);
}

#[test]
fn reset_restores_registers() {
    let mut cpu = Cpu::new();
    cpu.reg.a = 0;
    cpu.pc = 0x1234;
    cpu.sp = 0x4000;
    cpu.ime = true;
    cpu.reset();
    assert_eq!(cpu.reg.a, 0x11);
    assert_eq!(cpu.pc, 0x100);
    assert_eq!(cpu.sp, 0xfffe);
    assert!(!cpu.ime);
}

#[test]
fn load_and_increment() {
    // LD A,5; INC A
    let mut cpu = running(&[0x3e, 0x05, 0x3c]);
    cpu.do_cycle();
    assert_eq!(cpu.reg.a, 5);
    assert_eq!(cpu.pc, 0x102);
    cpu.do_cycle();
    assert_eq!(cpu.reg.a, 6);
    assert_eq!(cpu.pc, 0x103);
}

#[test]
fn push_then_pop_gives_the_word_back() {
    // LD BC,0x1234; PUSH BC; POP DE
    let mut cpu = running(&[0x01, 0x34, 0x12, 0xc5, 0xd1]);
    cpu.do_cycle();
    assert_eq!(cpu.reg.get_bc(), 0x1234);
    cpu.do_cycle();
    assert_eq!(cpu.sp, 0xfffc);
    assert_eq!(cpu.mmu.read_word(0xfffc), 0x1234);
    cpu.do_cycle();
    assert_eq!(cpu.reg.get_de(), 0x1234);
    assert_eq!(cpu.sp, 0xfffe);
}

#[test]
fn call_then_return_comes_back() {
    // CALL 0x0110; ... at 0x110: RET
    let mut program = vec![0u8; 0x11];
    program[0] = 0xcd;
    program[1] = 0x10;
    program[2] = 0x01;
    program[0x10] = 0xc9;
    let mut cpu = running(&program);
    cpu.do_cycle();
    assert_eq!(cpu.pc, 0x110);
    assert_eq!(cpu.sp, 0xfffc);
    cpu.do_cycle();
    assert_eq!(cpu.pc, 0x103);
    assert_eq!(cpu.sp, 0xfffe);
}

#[test]
fn decimal_adjust_after_addition() {
    // LD A,0x15; ADD A,0x27; DAA
    let mut cpu = running(&[0x3e, 0x15, 0xc6, 0x27, 0x27]);
    cpu.do_cycle();
    cpu.do_cycle();
    assert_eq!(cpu.reg.a, 0x3c);
    cpu.do_cycle();
    assert_eq!(cpu.reg.a, 0x42);
    assert!(!cpu.reg.get_flag(flags::C));
}

#[test]
fn subtract_with_borrow_sets_carry() {
    // LD A,0x10; SUB 0x20
    let mut cpu = running(&[0x3e, 0x10, 0xd6, 0x20]);
    cpu.do_cycle();
    cpu.do_cycle();
    assert_eq!(cpu.reg.a, 0xf0);
    assert!(cpu.reg.get_flag(flags::C));
    assert!(cpu.reg.get_flag(flags::N));
    assert!(!cpu.reg.get_flag(flags::Z));
}

#[test]
fn compare_keeps_a() {
    // LD A,0x42; CP 0x42
    let mut cpu = running(&[0x3e, 0x42, 0xfe, 0x42]);
    cpu.do_cycle();
    cpu.do_cycle();
    assert_eq!(cpu.reg.a, 0x42);
    assert!(cpu.reg.get_flag(flags::Z));
    assert!(cpu.reg.get_flag(flags::N));
}

#[test]
fn relative_jump_backwards() {
    // NOP; JR -3 (back to 0x100)
    let mut cpu = running(&[0x00, 0x18, 0xfd]);
    cpu.do_cycle();
    assert_eq!(cpu.pc, 0x101);
    cpu.do_cycle();
    assert_eq!(cpu.pc, 0x100);
}

#[test]
fn prefixed_swap_and_bit() {
    // LD B,0xf1; SWAP B; BIT 0,B
    let mut cpu = running(&[0x06, 0xf1, 0xcb, 0x30, 0xcb, 0x40]);
    cpu.do_cycle();
    cpu.do_cycle();
    assert_eq!(cpu.reg.b, 0x1f);
    cpu.do_cycle();
    assert!(!cpu.reg.get_flag(flags::Z));
    assert!(cpu.reg.get_flag(flags::H));
}

#[test]
fn store_through_hl_and_load_back() {
    // LD HL,0xc000; LD (HL),0x77; LD A,(HL+)
    let mut cpu = running(&[0x21, 0x00, 0xc0, 0x36, 0x77, 0x2a]);
    cpu.do_cycle();
    cpu.do_cycle();
    assert_eq!(cpu.mmu.read_byte(0xc000), 0x77);
    cpu.do_cycle();
    assert_eq!(cpu.reg.a, 0x77);
    assert_eq!(cpu.reg.get_hl(), 0xc001);
}

#[test]
fn video_updates_are_reported_once() {
    let mut cpu = Cpu::new();
    cpu.mmu.ppu.updated = true;
    assert!(cpu.ppu_updated());
    assert!(!cpu.ppu_updated());
}

#[test]
fn display_is_the_screen_buffer() {
    let cpu = Cpu::new();
    assert_eq!(cpu.get_display().len(), 160 * 144 * 3);
}

#[test]
fn interrupt_is_served_and_returns() {
    // At 0x40: RETI. At 0x100: NOP.
    let mut rom = cartridge(&[0x00]);
    rom[0x40] = 0xd9;
    let mut cpu = Cpu::new();
    cpu.load(&rom);
    cpu.ime = true;
    cpu.mmu.write_byte(0xffff, 0x01);
    cpu.mmu.write_byte(0xff0f, 0x01);
    cpu.do_cycle();
    assert_eq!(cpu.pc, 0x40);
    assert_eq!(cpu.sp, 0xfffc);
    assert!(!cpu.ime);
    assert_eq!(cpu.mmu.read_byte(0xff0f) & 1, 0);
    cpu.do_cycle();
    assert_eq!(cpu.pc, 0x100);
    assert_eq!(cpu.sp, 0xfffe);
}

#[test]
fn increment_then_decrement_keeps_the_value_and_carry() {
    // LD B,0xff; INC B; DEC B
    let mut cpu = running(&[0x06, 0xff, 0x04, 0x05]);
    cpu.do_cycle();
    assert!(cpu.reg.get_flag(flags::C));
    cpu.do_cycle();
    assert_eq!(cpu.reg.b, 0);
    assert!(cpu.reg.get_flag(flags::Z));
    assert!(cpu.reg.get_flag(flags::H));
    assert!(cpu.reg.get_flag(flags::C));
    cpu.do_cycle();
    assert_eq!(cpu.reg.b, 0xff);
    assert!(cpu.reg.get_flag(flags::N));
    assert!(cpu.reg.get_flag(flags::C));
}

#[test]
fn add_then_subtract_gives_a_back() {
    // LD A,0xf0; ADD A,0x20; SUB 0x20
    let mut cpu = running(&[0x3e, 0xf0, 0xc6, 0x20, 0xd6, 0x20]);
    cpu.do_cycle();
    cpu.do_cycle();
    assert_eq!(cpu.reg.a, 0x10);
    assert!(cpu.reg.get_flag(flags::C));
    cpu.do_cycle();
    assert_eq!(cpu.reg.a, 0xf0);
}

#[test]
fn rotations_undo_each_other() {
    // LD A,0x81; RLCA; RRCA
    let mut cpu = running(&[0x3e, 0x81, 0x07, 0x0f]);
    cpu.do_cycle();
    cpu.do_cycle();
    assert_eq!(cpu.reg.a, 0x03);
    assert!(cpu.reg.get_flag(flags::C));
    cpu.do_cycle();
    assert_eq!(cpu.reg.a, 0x81);
}

#[test]
fn swapping_twice_gives_a_back() {
    // LD A,0x3c; SWAP A; SWAP A
    let mut cpu = running(&[0x3e, 0x3c, 0xcb, 0x37, 0xcb, 0x37]);
    cpu.do_cycle();
    cpu.do_cycle();
    assert_eq!(cpu.reg.a, 0xc3);
    cpu.do_cycle();
    assert_eq!(cpu.reg.a, 0x3c);
}

#[test]
fn undefined_opcode_is_refused_without_change() {
    let mut cpu = running(&[0xd3]);
    assert!(!cpu.step_defined());
    assert_eq!(cpu.try_do_cycle(), None);
    assert_eq!(cpu.pc, 0x100);
}

#[test]
fn defined_step_runs() {
    let mut cpu = running(&[0x3e, 0x05]);
    assert!(cpu.step_defined());
    assert!(cpu.try_do_cycle().is_some());
    assert_eq!(cpu.reg.a, 5);
    assert_eq!(cpu.pc, 0x102);
}

#[test]
fn store_to_the_bank_area_above_0x4000_is_undefined() {
    // LD HL,0x4000; LD (HL),1
    let mut cpu = running(&[0x21, 0x00, 0x40, 0x36, 0x01]);
    assert!(cpu.try_do_cycle().is_some());
    assert!(!cpu.step_defined());
    assert_eq!(cpu.try_do_cycle(), None);
    assert_eq!(cpu.pc, 0x103);
}

#[test]
fn read_of_echo_memory_is_undefined() {
    // LD A,(0xe000)
    let cpu = running(&[0xfa, 0x00, 0xe0]);
    assert!(!cpu.step_defined());
    // LD A,(0xc000)
    let cpu = running(&[0xfa, 0x00, 0xc0]);
    assert!(cpu.step_defined());
}

#[test]
fn interrupt_with_the_stack_in_cartridge_memory_is_undefined() {
    let mut cpu = running(&[0x00]);
    cpu.ime = true;
    cpu.sp = 0x4002;
    cpu.mmu.write_byte(0xffff, 0x01);
    cpu.mmu.write_byte(0xff0f, 0x01);
    assert!(!cpu.step_defined());
    cpu.sp = 0xfffe;
    assert!(cpu.step_defined());
}

#[test]
fn decimal_adjust_after_bcd_addition_and_subtraction() {
    // LD A,0x45; ADD A,0x38; DAA
    let mut cpu = running(&[0x3e, 0x45, 0xc6, 0x38, 0x27]);
    cpu.do_cycle();
    cpu.do_cycle();
    cpu.do_cycle();
    assert_eq!(cpu.reg.a, 0x83);
    assert!(!cpu.reg.get_flag(flags::C));
    // LD A,0x99; ADD A,0x01; DAA
    let mut cpu = running(&[0x3e, 0x99, 0xc6, 0x01, 0x27]);
    cpu.do_cycle();
    cpu.do_cycle();
    cpu.do_cycle();
    assert_eq!(cpu.reg.a, 0x00);
    assert!(cpu.reg.get_flag(flags::C));
    assert!(cpu.reg.get_flag(flags::Z));
    // LD A,0x10; SUB 0x01; DAA
    let mut cpu = running(&[0x3e, 0x10, 0xd6, 0x01, 0x27]);
    cpu.do_cycle();
    cpu.do_cycle();
    cpu.do_cycle();
    assert_eq!(cpu.reg.a, 0x09);
    assert!(!cpu.reg.get_flag(flags::C));
    // LD A,0x01; SUB 0x02; DAA
    let mut cpu = running(&[0x3e, 0x01, 0xd6, 0x02, 0x27]);
    cpu.do_cycle();
    cpu.do_cycle();
    cpu.do_cycle();
    assert_eq!(cpu.reg.a, 0x99);
    assert!(cpu.reg.get_flag(flags::C));
}
