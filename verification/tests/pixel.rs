use blinkt::pixel::{DEFAULT_BRIGHTNESS, MAX_BRIGHTNESS};
use blinkt::Pixel;

#[test]
fn default_pixel_is_black_at_brightness_seven() {
    let pixel = Pixel::default();
    assert_eq!(pixel.bytes(), &[0b1110_0111, 0, 0, 0]);
    assert_eq!(pixel.brightness(), DEFAULT_BRIGHTNESS);
    assert_eq!(pixel.brightness(), 7);
    assert_eq!((pixel.red(), pixel.green(), pixel.blue()), (0, 0, 0));
}

#[test]
fn set_rgb_orders_bytes_blue_green_red() {
    let mut pixel = Pixel::default();
    pixel.set_rgb(1, 2, 3);
    assert_eq!(pixel.bytes(), &[0xE7, 3, 2, 1]);
}

#[test]
fn set_rgb_keeps_brightness() {
    let mut pixel = Pixel::default();
    pixel.set_brightness(20);
    pixel.set_rgb(255, 128, 64);
    assert_eq!(pixel.brightness(), 20);
    assert_eq!(pixel.bytes(), &[0xE0 | 20, 64, 128, 255]);
}

#[test]
fn set_brightness_keeps_colour() {
    let mut pixel = Pixel::default();
    pixel.set_rgb(9, 8, 7);
    pixel.set_brightness(1);
    assert_eq!(pixel.bytes(), &[0xE1, 7, 8, 9]);
}

#[test]
fn brightness_byte_has_marker_bits_for_every_level() {
    for level in 0..=255u8 {
        let mut pixel = Pixel::default();
        pixel.set_brightness(level);
        let first = pixel.bytes()[0];
        assert_eq!(first & 0b1110_0000, 0b1110_0000);
        assert_eq!(first & 0b0001_1111, level.min(31));
    }
}

#[test]
fn brightness_at_the_boundaries() {
    let mut pixel = Pixel::default();
    pixel.set_brightness(0);
    assert_eq!(pixel.bytes()[0], 0xE0);
    pixel.set_brightness(MAX_BRIGHTNESS);
    assert_eq!(pixel.bytes()[0], 0xFF);
}

#[test]
fn brightness_above_the_maximum_is_clamped() {
    let mut full = Pixel::default();
    full.set_brightness(31);
    for level in [32u8, 33, 100, 254, 255] {
        let mut pixel = Pixel::default();
        pixel.set_brightness(level);
        assert_eq!(pixel.bytes()[0], full.bytes()[0]);
        assert_eq!(pixel.brightness(), 31);
    }
}

#[test]
fn set_rgbb_overwrites_all_four_bytes() {
    let mut pixel = Pixel::default();
    pixel.set_rgbb(10, 20, 30, 15);
    assert_eq!(pixel.bytes(), &[0xEF, 30, 20, 10]);
    pixel.set_rgbb(0, 0, 0, 0);
    assert_eq!(pixel.bytes(), &[0xE0, 0, 0, 0]);
}

#[test]
fn encode_then_decode_round_trip() {
    let cases: [(u8, u8, u8, u8); 6] = [
        (0, 0, 0, 0),
        (255, 255, 255, 31),
        (255, 0, 0, 31),
        (0, 255, 0, 15),
        (1, 2, 3, 7),
        (200, 100, 50, 200),
    ];
    for (red, green, blue, brightness) in cases {
        let mut pixel = Pixel::default();
        pixel.set_rgbb(red, green, blue, brightness);
        let sent: Vec<u8> = pixel.bytes().to_vec();
        let back = Pixel::from_bytes(&sent).unwrap();
        assert_eq!(back.red(), red);
        assert_eq!(back.green(), green);
        assert_eq!(back.blue(), blue);
        assert_eq!(back.brightness(), brightness.min(31));
        assert_eq!(back, pixel);
    }
}

#[test]
fn round_trip_over_every_brightness() {
    for brightness in 0..=255u8 {
        let mut pixel = Pixel::default();
        pixel.set_rgbb(brightness, 255 - brightness, 77, brightness);
        let back = Pixel::from_bytes(pixel.bytes()).unwrap();
        assert_eq!(back.red(), brightness);
        assert_eq!(back.green(), 255 - brightness);
        assert_eq!(back.blue(), 77);
        assert_eq!(back.brightness(), brightness.min(31));
    }
}

#[test]
fn from_bytes_wants_four_bytes() {
    assert_eq!(Pixel::from_bytes(&[]), None);
    assert_eq!(Pixel::from_bytes(&[0xE0, 0, 0]), None);
    assert_eq!(Pixel::from_bytes(&[0xE0, 0, 0, 0, 0]), None);
    assert!(Pixel::from_bytes(&[0xE0, 0, 0, 0]).is_some());
}

#[test]
fn from_bytes_wants_the_marker_bits() {
    assert_eq!(Pixel::from_bytes(&[0x00, 1, 2, 3]), None);
    assert_eq!(Pixel::from_bytes(&[0x1F, 1, 2, 3]), None);
    assert_eq!(Pixel::from_bytes(&[0xDF, 1, 2, 3]), None);
    assert_eq!(Pixel::from_bytes(&[0xC0, 1, 2, 3]), None);
    let pixel = Pixel::from_bytes(&[0xF0, 1, 2, 3]).unwrap();
    assert_eq!(pixel.brightness(), 16);
    assert_eq!((pixel.red(), pixel.green(), pixel.blue()), (3, 2, 1));
}
