use captcha::character::{byte_to_vec, get_char_bytes, Character};
use captcha::error::RenderError;

#[test]
fn character_test_get_char_image() {
    let c = Character::new('9').unwrap();
    let i = c.get_image_buffer();
    let d = c.get_image();
    assert_eq!(d.pixels, i.pixels);
}

#[test]
fn character_test_get_char_bytes() {
    assert_eq!(get_char_bytes('C'), Some([60, 102, 3, 3, 3, 102, 60, 0]));
}

#[test]
fn character_test_byte_to_vec() {
    assert_eq!(byte_to_vec(60),  [255, 255, 0,   0,   0,   0,   255, 255]);
    assert_eq!(byte_to_vec(102), [255, 0,   0,   255, 255, 0,   0,   255]);
    assert_eq!(byte_to_vec(3),   [0,   0,   255, 255, 255, 255, 255, 255]);
    assert_eq!(byte_to_vec(3),   [0,   0,   255, 255, 255, 255, 255, 255]);
    assert_eq!(byte_to_vec(3),   [0,   0,   255, 255, 255, 255, 255, 255]);
    assert_eq!(byte_to_vec(102), [255, 0,   0,   255, 255, 0,   0,   255]);
    assert_eq!(byte_to_vec(60),  [255, 255, 0,   0,   0,   0,   255, 255]);
    assert_eq!(byte_to_vec(0),   [255, 255, 255, 255, 255, 255, 255, 255]);
}

#[test]
fn text_test_get_char_bytes() {
    assert_eq!(get_char_bytes('C'), Some([60, 102, 3, 3, 3, 102, 60, 0]));
}

#[test]
fn text_test_byte_to_vec() {
    assert_eq!(byte_to_vec(60),  [255, 255, 0,   0,   0,   0,   255, 255]);
    assert_eq!(byte_to_vec(102), [255, 0,   0,   255, 255, 0,   0,   255]);
    assert_eq!(byte_to_vec(3),   [0,   0,   255, 255, 255, 255, 255, 255]);
    assert_eq!(byte_to_vec(3),   [0,   0,   255, 255, 255, 255, 255, 255]);
    assert_eq!(byte_to_vec(3),   [0,   0,   255, 255, 255, 255, 255, 255]);
    assert_eq!(byte_to_vec(102), [255, 0,   0,   255, 255, 0,   0,   255]);
    assert_eq!(byte_to_vec(60),  [255, 255, 0,   0,   0,   0,   255, 255]);
    assert_eq!(byte_to_vec(0),   [255, 255, 255, 255, 255, 255, 255, 255]);
}

#[test]
fn every_ascii_glyph_has_64_binary_pixels() {
    for code in 0u32..128 {
        let c = char::from_u32(code).unwrap();
        let g = Character::new(c).unwrap();
        assert_eq!(g.image.width, 8);
        assert_eq!(g.image.height, 8);
        assert_eq!(g.image.pixels.len(), 64);
        assert!(g.image.pixels.iter().all(|&p| p == 0 || p == 255));
    }
}

#[test]
fn glyph_rows_follow_the_font_bytes() {
    let g = Character::new('C').unwrap();
    let rows = [60u8, 102, 3, 3, 3, 102, 60, 0];
    for (y, b) in rows.iter().enumerate() {
        assert_eq!(g.image.pixels[y * 8..y * 8 + 8].to_vec(), byte_to_vec(*b));
    }
}

#[test]
fn characters_outside_ascii_are_rejected() {
    assert_eq!(get_char_bytes('\u{80}'), None);
    assert_eq!(get_char_bytes('é'), None);
    assert!(matches!(Character::new('é'), Err(RenderError::UnsupportedCharacter('é'))));
    assert!(matches!(Character::new('\u{263A}'), Err(RenderError::UnsupportedCharacter('\u{263A}'))));
}

#[test]
fn glyph_rescaled_to_cell_size() {
    let g = Character::new('A').unwrap();
    let big = g.generate_image(24);
    assert_eq!(big.width, 24);
    assert_eq!(big.height, 24);
    assert_eq!(big.pixels.len(), 576);
    let same = g.generate_image(8);
    assert_eq!(same.pixels, g.image.pixels);
}

#[test]
fn text_test_get_char_image() {
    let c = Character::new('9').unwrap();
    let i = c.get_image();
    assert_eq!(i.pixels.len(), 64);
    let big = c.generate_image(40);
    assert_eq!(big.width, 40);
    assert_eq!(big.height, 40);
    assert!(big.pixels.iter().all(|&p| p == 0 || p == 255));
}
