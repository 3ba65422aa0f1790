use captcha::raster::Raster;

fn ramp(width: usize, height: usize) -> Raster {
    let pixels = (0..width * height).map(|i| (i % 256) as u8).collect();
    Raster { width, height, pixels }
}

#[test]
fn filled_raster_is_uniform() {
    let r = Raster::filled(3, 2, 255);
    assert_eq!(r.pixels, vec![255; 6]);
    assert_eq!(r.get_pixel(2, 1), 255);
}

#[test]
fn get_pixel_reads_row_major() {
    let r = ramp(4, 3);
    assert_eq!(r.get_pixel(0, 0), 0);
    assert_eq!(r.get_pixel(3, 0), 3);
    assert_eq!(r.get_pixel(1, 2), 9);
}

#[test]
fn resize_to_same_size_is_identity() {
    let r = ramp(7, 5);
    let s = r.resize_exact(7, 5);
    assert_eq!(s.width, 7);
    assert_eq!(s.height, 5);
    assert_eq!(s.pixels, r.pixels);
}

#[test]
fn resize_changes_the_size() {
    let r = Raster { width: 2, height: 1, pixels: vec![0, 255] };
    let s = r.resize_exact(4, 2);
    assert_eq!(s.width, 4);
    assert_eq!(s.height, 2);
    assert_eq!(s.pixels, vec![0, 0, 255, 255, 0, 0, 255, 255]);
}

#[test]
fn overlay_copies_and_clips() {
    let mut base = Raster::filled(4, 3, 255);
    let top = Raster { width: 2, height: 2, pixels: vec![1, 2, 3, 4] };
    base.overlay(&top, 3, 2);
    assert_eq!(
        base.pixels,
        vec![255, 255, 255, 255, 255, 255, 255, 255, 255, 255, 255, 1]
    );
    let mut base = Raster::filled(4, 3, 9);
    base.overlay(&top, 1, 0);
    assert_eq!(base.pixels, vec![9, 1, 2, 9, 9, 3, 4, 9, 9, 9, 9, 9]);
}
