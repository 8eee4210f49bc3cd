use chip::{key_from_char, select, FrameBuffer, KeyState, Ram, Read, Slice, Write, RAM_SIZE};

#[test]
fn ram_starts_zeroed() {
    let mut r = Ram::default();
    let first: u8 = r.read(0);
    let last: u8 = r.read(RAM_SIZE - 1);
    assert_eq!((first, last), (0, 0));
}

#[test]
fn words_are_big_endian() {
    let mut r = Ram::new();
    Write::<u16>::write(&mut r, 0x10, 0xABCD);
    let hi: u8 = r.read(0x10);
    let lo: u8 = r.read(0x11);
    assert_eq!((hi, lo), (0xAB, 0xCD));
    Write::<u8>::write(&mut r, 0x20, 0x12);
    Write::<u8>::write(&mut r, 0x21, 0x34);
    let w: u16 = r.read(0x20);
    assert_eq!(w, 0x1234);
    assert_eq!(r.get(0x21), 0x34);
}

#[test]
fn slice_is_a_mutable_view() {
    let mut r = Ram::new();
    Write::<u8>::write(&mut r, 5, 9);
    {
        let s: &mut [u8] = r.slice(4, 3);
        assert_eq!(s.len(), 3);
        assert_eq!(s[1], 9);
        s[0] = 1;
        s[2] = 3;
    }
    assert_eq!((r.get(3), r.get(4), r.get(5), r.get(6), r.get(7)), (0, 1, 9, 3, 0));
    assert_eq!(r.slice(RAM_SIZE, 0).len(), 0);
}

#[test]
fn key_map_layout() {
    assert_eq!(key_from_char('x'), Some(0));
    assert_eq!(key_from_char('1'), Some(1));
    assert_eq!(key_from_char('q'), Some(4));
    assert_eq!(key_from_char('z'), Some(0xA));
    assert_eq!(key_from_char('c'), Some(0xB));
    assert_eq!(key_from_char('v'), Some(0xC));
    assert_eq!(key_from_char('f'), Some(0xD));
    assert_eq!(key_from_char('r'), Some(0xE));
    assert_eq!(key_from_char('4'), Some(0xF));
    assert_eq!(key_from_char('b'), None);
    assert_eq!(key_from_char('X'), None);
}

#[test]
fn select_by_predicate() {
    assert_eq!(select(true, 7), Some(7));
    assert_eq!(select(false, 7), None);
}

#[test]
fn key_state_records_presses() {
    let mut k = KeyState::new();
    assert!(!k.keydown(5));
    assert_eq!(k.press_char('w'), Some(5));
    assert!(k.keydown(5));
    assert_eq!(k.press_char('?'), None);
    assert!(!k.keydown(16));
    assert!(!k.keydown(200));
    k.release_all();
    assert!(!k.keydown(5));
}

fn lit(fb: &FrameBuffer) -> Vec<(usize, usize)> {
    let mut v = Vec::new();
    for y in 0..fb.height() {
        for x in 0..fb.width() {
            if fb.pixel(x, y) {
                v.push((x, y));
            }
        }
    }
    v
}

#[test]
fn sprite_rows_flip_msb_first() {
    let mut fb = FrameBuffer::new(64, 32);
    assert!(!fb.flip_sprites(10, 20, &[0b1000_0001, 0b0100_0000]));
    assert_eq!(lit(&fb), vec![(10, 20), (17, 20), (11, 21)]);
}

#[test]
fn drawing_twice_erases_and_collides() {
    let mut fb = FrameBuffer::new(64, 32);
    let sprite = [0b1010_0101, 0b1100_0011, 0b0011_1100];
    assert!(!fb.flip_sprites(3, 4, &sprite));
    assert!(fb.flip_sprites(3, 4, &sprite));
    assert!(lit(&fb).is_empty());
}

#[test]
fn sprites_wrap_around_edges() {
    let mut fb = FrameBuffer::new(64, 32);
    assert!(!fb.flip_sprites(62, 31, &[0b1111_0000, 0b1000_0000]));
    assert_eq!(lit(&fb), vec![(62, 0), (0, 31), (1, 31), (62, 31), (63, 31)]);
    let mut fb = FrameBuffer::new(64, 32);
    assert!(!fb.flip_sprites(-1, -1, &[0b1000_0000]));
    assert_eq!(lit(&fb), vec![(63, 31)]);
}

#[test]
fn narrow_screen_flips_a_pixel_twice() {
    let mut fb = FrameBuffer::new(4, 1);
    // Columns 0 and 4 land on the same pixel: set, then cleared.
    assert!(fb.flip_sprites(0, 0, &[0b1000_1000]));
    assert!(lit(&fb).is_empty());
}

#[test]
fn flip_returns_new_value_and_clear_resets() {
    let mut fb = FrameBuffer::new(8, 8);
    assert!(fb.flip(9, -1));
    assert!(fb.pixel(1, 7));
    assert!(!fb.flip(1, 7));
    fb.flip(0, 0);
    fb.clear();
    assert!(lit(&fb).is_empty());
}

#[test]
fn frame_buffers_of_any_size() {
    let fb = FrameBuffer::new(5000, 2);
    assert_eq!((fb.width(), fb.height()), (5000, 2));
    assert!(!fb.pixel(4999, 1));
    let empty = FrameBuffer::new(0, 0);
    assert!(lit(&empty).is_empty());
    let mut wide = FrameBuffer::new(5000, 1);
    assert!(wide.flip(-1, 0));
    assert!(wide.pixel(4999, 0));
}
