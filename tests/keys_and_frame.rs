use chip8::chip8::{PIXEL_COLOR, WINDOW_SCALE};
use chip8::display::{Display, FRAME_HEIGHT, FRAME_WIDTH};
use chip8::keyboard::{map_key, Keyboard};

#[test]
fn key_layout() {
    let expected = [
        ('q', 0x1u8), ('w', 0x2), ('e', 0x3), ('r', 0xC),
        ('a', 0x4), ('s', 0x5), ('d', 0x6), ('f', 0xD),
        ('u', 0x7), ('i', 0x8), ('o', 0x9), ('p', 0xE),
        ('j', 0xA), ('k', 0x0), ('l', 0xB), (';', 0xF),
    ];
    for (c, k) in expected {
        assert_eq!(map_key(c), Some(k), "key {}", c);
    }
    let mut seen = [false; 16];
    for (c, _) in expected {
        seen[map_key(c).unwrap() as usize] = true;
    }
    assert!(seen.iter().all(|&s| s));
    assert_eq!(map_key('z'), None);
    assert_eq!(map_key('1'), None);
}

#[test]
fn keyboard_holds_last_key() {
    let mut kb = Keyboard::new();
    assert_eq!(kb.get_key_pressed(), None);
    kb.set_key_pressed(Some(0xA));
    assert_eq!(kb.get_key_pressed(), Some(0xA));
    kb.set_key_pressed(None);
    assert_eq!(kb.get_key_pressed(), None);
}

#[test]
fn frame_shows_cells_after_mapping() {
    let mut d = Display::new(FRAME_WIDTH, FRAME_HEIGHT);
    d.set_coord(65, 1);
    assert_eq!(d.coord_at(65), 1);
    assert_eq!(d.buffer()[FRAME_WIDTH * WINDOW_SCALE + WINDOW_SCALE], 0);
    d.map_pixels();
    for j in 0..WINDOW_SCALE {
        for k in 0..WINDOW_SCALE {
            let p = FRAME_WIDTH * (WINDOW_SCALE + j) + WINDOW_SCALE + k;
            assert_eq!(d.buffer()[p], PIXEL_COLOR);
        }
    }
    assert_eq!(d.buffer()[FRAME_WIDTH * WINDOW_SCALE + 2 * WINDOW_SCALE], 0);
    assert_eq!(d.buffer()[0], 0);
    d.clear();
    assert_eq!(d.coord_at(65), 0);
    assert!(d.buffer().iter().all(|&p| p == 0));
}

#[test]
fn last_cell_maps_to_bottom_right_block() {
    let mut d = Display::new(FRAME_WIDTH, FRAME_HEIGHT);
    d.set_coord(2047, 1);
    d.map_pixels();
    assert_eq!(d.buffer()[FRAME_WIDTH * FRAME_HEIGHT - 1], PIXEL_COLOR);
    assert_eq!(d.buffer()[FRAME_WIDTH * (FRAME_HEIGHT - 8) + FRAME_WIDTH - 8], PIXEL_COLOR);
    assert_eq!(d.buffer()[FRAME_WIDTH * (FRAME_HEIGHT - 9) + FRAME_WIDTH - 1], 0);
}
