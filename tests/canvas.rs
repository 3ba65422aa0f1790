use captcha::canvas::Canvas;
use captcha::error::RenderError;

#[test]
fn two_letters_at_height_100() {
    let c = Canvas::new(100, "hi").pad(2).build().unwrap();
    assert_eq!(c.native_size, Some((196, 100)));
    assert_eq!(c.get_width(), 196);
    let img = c.generate_image();
    assert_eq!(img.width, 196);
    assert_eq!(img.height, 100);
    assert_eq!(img.pixels.len(), 196 * 100);
    // the padding stays white
    assert!(img.pixels[..196 * 2].iter().all(|&p| p == 255));
    assert!(img.pixels[196 * 98..].iter().all(|&p| p == 255));
    // 'h' has ink in its cell
    assert!(img.pixels.iter().any(|&p| p == 0));
}

#[test]
fn empty_text_is_a_blank_canvas() {
    let c = Canvas::new(50, "").pad(5).build().unwrap();
    let img = c.generate_image();
    assert_eq!(img.width, 10);
    assert_eq!(img.height, 50);
    assert!(img.pixels.iter().all(|&p| p == 255));
    assert_eq!(img.pixels.len(), 500);
}

#[test]
fn native_width_follows_the_sizing_rule() {
    let c = Canvas::new(30, "abcd").pad(3).build().unwrap();
    assert_eq!(c.native_size, Some((2 * 3 + 24 * 4, 30)));
    let c = Canvas::new(9, "x").pad(0).build().unwrap();
    assert_eq!(c.native_size, Some((9, 9)));
}

#[test]
fn default_padding_is_three() {
    let c = Canvas::new(20, "ab").build().unwrap();
    assert_eq!(c.pad, 3);
    assert_eq!(c.native_size, Some((6 + 14 * 2, 20)));
}

#[test]
fn explicit_width_rescales_the_canvas() {
    let c = Canvas::new(20, "ab").pad(1).width(72).build().unwrap();
    assert_eq!(c.native_size, Some((38, 20)));
    assert_eq!(c.get_width(), 72);
    let img = c.generate_image();
    assert_eq!(img.width, 72);
    assert_eq!(img.height, 20);
    assert_eq!(img.pixels.len(), 72 * 20);
}

#[test]
fn glyph_is_stamped_in_its_cell() {
    // height 12, padding 2: cells of 8, so the glyph is drawn unscaled
    let c = Canvas::new(12, "C").pad(2).build().unwrap();
    let img = c.generate_image();
    assert_eq!(img.width, 12);
    let glyph = captcha::character::Character::new('C').unwrap();
    for y in 0..8 {
        for x in 0..8 {
            assert_eq!(img.get_pixel(x + 2, y + 2), glyph.image.get_pixel(x, y));
        }
    }
    assert_eq!(img.get_pixel(0, 0), 255);
    assert_eq!(img.get_pixel(11, 11), 255);
}

#[test]
fn invalid_configurations_are_rejected() {
    assert_eq!(Canvas::new(0, "a").build().err(), Some(RenderError::InvalidConfiguration));
    assert_eq!(Canvas::new(10, "a").pad(5).build().err(), Some(RenderError::InvalidConfiguration));
    assert_eq!(Canvas::new(10, "a").pad(1).width(0).build().err(), Some(RenderError::InvalidConfiguration));
    assert_eq!(Canvas::new(10, "").pad(0).width(5).build().err(), Some(RenderError::InvalidConfiguration));
}

#[test]
fn unsupported_character_fails_the_build() {
    assert_eq!(Canvas::new(20, "aéb→").pad(1).build().err(), Some(RenderError::UnsupportedCharacter('é')));
}

#[test]
fn changing_settings_drops_the_native_size() {
    let mut c = Canvas::new(20, "ab");
    let built = c.build().unwrap();
    assert_eq!(built.native_size, Some((34, 20)));
    assert_eq!(c.native_size, Some((34, 20)));
    c.pad(1);
    assert_eq!(c.native_size, None);
    c.text("abc");
    let rebuilt = c.build().unwrap();
    assert_eq!(rebuilt.native_size, Some((2 + 18 * 3, 20)));
}

#[test]
fn zero_blur_is_no_blur() {
    let mut c = Canvas::new(20, "ab");
    assert_eq!(c.blur_sigma(), None);
    c.blur(0);
    assert_eq!(c.blur_sigma(), None);
    c.blur(1500);
    assert_eq!(c.blur_sigma(), Some(1500));
}

#[test]
fn test_dimensions() {
    let c = Canvas::new(100, "ads123dahj31kjdhagq")
        .pad(2)
        .blur(100)
        .build()
        .unwrap();
    let img = c.generate_image();
    assert_eq!(img.height, 100);
    assert_eq!(img.width, 1828);
    assert!(img.pixels.iter().all(|&p| p == 0 || p == 255));
}

#[test]
fn blend() {
    let canvas = Canvas::new(100, "ads123dahj31kjdhagq").pad(3).build().unwrap();
    let img = canvas.generate_image();
    let mut n = captcha::noise::Noise::new(canvas.get_width(), canvas.height);
    let field: Vec<i64> = (0..img.width * img.height).map(|i| (i % 300) as i64 - 20).collect();
    n.generate(&field);
    let blended = captcha::noise::blend(&img, &n).unwrap();
    assert_eq!(blended.width, img.width);
    assert_eq!(blended.height, 100);
    assert_eq!(blended.pixels.len(), img.pixels.len());
}

#[test]
fn blur_keeps_the_native_size() {
    let mut c = Canvas::new(20, "ab");
    assert_eq!(c.blur, Some(0));
    c.build().unwrap();
    c.blur(2000);
    assert_eq!(c.native_size, Some((34, 20)));
    assert_eq!(Canvas::default().blur, Some(0));
}
