use gb_core::frontend::{key_code, key_event, screen_cells, Cell, HostKey};
use gb_core::joypad::Joypad;

#[test]
fn keys_map_to_buttons() {
    assert_eq!(key_code(HostKey::Right), Some((0, false)));
    assert_eq!(key_code(HostKey::Left), Some((1, false)));
    assert_eq!(key_code(HostKey::Up), Some((2, false)));
    assert_eq!(key_code(HostKey::Down), Some((3, false)));
    assert_eq!(key_code(HostKey::C), Some((0, true)));
    assert_eq!(key_code(HostKey::X), Some((1, true)));
    assert_eq!(key_code(HostKey::Q), Some((2, true)));
    assert_eq!(key_code(HostKey::W), Some((3, true)));
    assert_eq!(key_code(HostKey::Escape), None);
    assert_eq!(key_code(HostKey::Other), None);
}

#[test]
fn pressing_and_releasing_a_button() {
    let mut j = Joypad::new();
    key_event(&mut j, HostKey::Q, true);
    assert!(j.select);
    assert_eq!(j.keys_a, 0xfb);
    assert_eq!(j.keys_d, 0xff);
    assert_eq!(j.read(), 0xfb);
    key_event(&mut j, HostKey::Q, false);
    assert_eq!(j.keys_a, 0xff);
    key_event(&mut j, HostKey::Left, true);
    assert!(!j.select);
    assert_eq!(j.keys_d, 0xfd);
    assert_eq!(j.read(), 0xfd);
    key_event(&mut j, HostKey::Other, true);
    assert_eq!(j.keys_d, 0xfd);
    assert!(!j.select);
}

#[test]
fn picture_becomes_scaled_squares() {
    let mut buf = vec![0u8; 160 * 3 * 2 + 2];
    buf[0] = 1;
    buf[1] = 2;
    buf[2] = 3;
    buf[161 * 3] = 9;
    let cells = screen_cells(&buf);
    assert_eq!(cells.len(), 320);
    assert_eq!(cells[0], Cell { x: 0, y: 0, r: 1, g: 2, b: 3 });
    assert_eq!(cells[5], Cell { x: 10, y: 0, r: 0, g: 0, b: 0 });
    assert_eq!(cells[161], Cell { x: 2, y: 2, r: 9, g: 0, b: 0 });
}
