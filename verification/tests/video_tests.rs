use gb_core::ppu::PPU;
use gb_core::ppu_old;
use gb_core::ppu_old::{bn, rbit, wbit, LCDC, LCDS, STAT};

#[test]
fn set_bit() {
    assert_eq!(wbit(0b01010101, 3, true), 0b01011101);
    assert_eq!(wbit(0b01000101, 2, false), 0b01000001);
    assert_eq!(wbit(0b01000101, 7, false), 0b01000101);
}

#[test]
fn read_bit_of_written_bit() {
    for pos in 0..8u8 {
        assert!(rbit(wbit(0x00, pos, true), pos));
        assert!(!rbit(wbit(0xff, pos, false), pos));
    }
    assert!(rbit(0x80, 7));
    assert!(!rbit(0x7f, 7));
    assert_eq!(bn(true), 1);
    assert_eq!(bn(false), 0);
}

#[test]
fn control_registers_split_into_bits() {
    let lcdc = LCDC::new(0x91);
    assert!(lcdc.lcd_enable);
    assert!(lcdc.bg_and_win_tile_data_area);
    assert!(lcdc.bg_and_window_display);
    assert!(!lcdc.obj_enable);
    assert_eq!(lcdc.original, 0x91);
    // The bits are joined with `&`, so the register always reads back 0.
    assert_eq!(lcdc.raw(), 0);
    let stat = STAT::new(0x45);
    assert!(stat.lcy_eq_ly_interrupt);
    assert!(stat.lcy_eq_ly_flag);
    assert_eq!(stat.mode_flag, 1);
    assert_eq!(stat.raw(), 0);
    let lcds = LCDS::new();
    assert_eq!(lcds.ly, 0);
}

#[test]
fn video_unit_registers_read_back() {
    let mut p = PPU::new();
    p.write_byte(0x8000, 0x12);
    p.write_byte(0x9fff, 0x34);
    p.write_byte(0xfe00, 0x56);
    p.write_byte(0xff42, 7);
    p.write_byte(0xff47, 0xe4);
    p.write_byte(0xff4b, 9);
    assert_eq!(p.read_byte(0x8000), 0x12);
    assert_eq!(p.read_byte(0x9fff), 0x34);
    assert_eq!(p.read_byte(0xfe00), 0x56);
    assert_eq!(p.read_byte(0xff42), 7);
    assert_eq!(p.read_byte(0xff47), 0xe4);
    assert_eq!(p.read_byte(0xff4b), 9);
}

#[test]
fn writing_the_line_counter_resets_it() {
    let mut p = PPU::new();
    p.ly = 77;
    p.write_byte(0xff44, 50);
    assert_eq!(p.read_byte(0xff44), 0);
}

#[test]
fn modes_follow_in_order() {
    let mut p = PPU::new();
    p.write_byte(0xff41, 2);
    p.execute(0);
    assert_eq!(p.read_byte(0xff41) & 3, 3);
    p.execute(0);
    assert_eq!(p.read_byte(0xff41) & 3, 0);
    p.execute(0);
    assert_eq!(p.read_byte(0xff41) & 3, 2);
    assert_eq!(p.read_byte(0xff44), 1);
}

#[test]
fn vertical_blank_wraps_to_line_zero() {
    let mut p = PPU::new();
    p.ly = 153;
    p.write_byte(0xff41, 1);
    p.execute(0);
    assert_eq!(p.read_byte(0xff44), 0);
    assert_eq!(p.read_byte(0xff41) & 3, 2);
}

#[test]
fn line_compare_raises_the_status_interrupt() {
    let mut p = PPU::new();
    p.write_byte(0xff45, 1);
    p.write_byte(0xff41, 0x60);
    p.execute(0);
    assert_eq!(p.read_byte(0xff44), 1);
    assert_eq!(p.read_byte(0xff41) & 0x40, 0x40);
    assert_eq!(p.interrupt & 2, 2);
}

#[test]
fn last_visible_line_renders_the_frame() {
    let mut p = PPU::new();
    p.write_byte(0xff40, 0x01);
    p.write_byte(0xff47, 0xe4);
    // Tile 0, which the whole map shows, has colour 3 in every pixel of its
    // first line and colour 0 elsewhere.
    p.write_byte(0x8800, 0xff);
    p.write_byte(0x8801, 0xff);
    p.ly = 143;
    p.execute(0);
    assert_eq!(p.read_byte(0xff44), 144);
    assert_eq!(p.read_byte(0xff41) & 3, 1);
    assert!(p.updated);
    assert_eq!(p.interrupt & 1, 1);
    assert_eq!(&p.screen_buffer[0..3], &[0, 0, 0]);
    assert_eq!(&p.screen_buffer[21..24], &[0, 0, 0]);
    assert_eq!(&p.screen_buffer[24..27], &[0, 0, 0]);
    assert_eq!(&p.screen_buffer[160 * 3..160 * 3 + 3], &[255, 255, 255]);
}

#[test]
fn old_unit_registers_read_back() {
    let mut p = ppu_old::PPU::new();
    p.write_byte(0x8001, 0xaa);
    p.write_byte(0xfe9f, 0xbb);
    p.write_byte(0xff43, 3);
    p.write_byte(0xff45, 4);
    p.write_byte(0xff4a, 5);
    assert_eq!(p.read_byte(0x8001), 0xaa);
    assert_eq!(p.read_byte(0xfe9f), 0xbb);
    assert_eq!(p.read_byte(0xff43), 3);
    assert_eq!(p.read_byte(0xff45), 4);
    assert_eq!(p.read_byte(0xff4a), 5);
    assert_eq!(p.read_byte(0xff40), 0);
    assert_eq!(p.read_byte(0xff00), 0xff);
    assert!(!p.may_hdma());
}

#[test]
fn old_unit_sleeps_while_the_display_is_off() {
    let mut p = ppu_old::PPU::new();
    p.do_cycle(1000);
    assert_eq!(p.read_byte(0xff44), 0);
    assert!(!p.in_hblank());
}

#[test]
fn old_unit_counts_a_line_in_456_ticks() {
    let mut p = ppu_old::PPU::new();
    p.write_byte(0xff40, 0x80);
    p.do_cycle(456);
    assert_eq!(p.read_byte(0xff44), 1);
    assert!(p.in_hblank());
    assert!(p.data[0..480].iter().all(|b| *b == 255));
    assert_eq!(p.data[480], 0);
}

#[test]
fn old_unit_enters_the_vertical_blank() {
    let mut p = ppu_old::PPU::new();
    p.write_byte(0xff40, 0x80);
    p.do_cycle(456 * 144);
    assert_eq!(p.read_byte(0xff44), 144);
    assert!(p.updated);
    assert_eq!(p.interrupt & 1, 1);
}

#[test]
fn old_unit_switching_off_clears_the_picture() {
    let mut p = ppu_old::PPU::new();
    p.write_byte(0xff40, 0x80);
    p.do_cycle(456 * 3);
    p.write_byte(0xff40, 0x00);
    assert_eq!(p.read_byte(0xff44), 0);
    assert!(p.data.iter().all(|b| *b == 255));
}

#[test]
fn old_unit_marks_only_cycles_that_enter_the_horizontal_blank() {
    let mut p = ppu_old::PPU::new();
    p.write_byte(0xff40, 0x80);
    p.do_cycle(456);
    assert!(p.in_hblank());
    p.do_cycle(80);
    assert!(!p.in_hblank());
    p.do_cycle(240);
    assert!(p.in_hblank());
}
