use blinkt::{release_result, Blinkt, Command, Level, Release};

fn transfer(data: &[u8]) -> Command {
    Command::Transfer { data: data.to_vec() }
}

/// Reads the data line at every rising edge of the clock line and packs the
/// bits into bytes, most significant bit first.
fn sample(commands: &[Command], data_pin: u8, clock_pin: u8) -> Vec<u8> {
    let mut data = Level::Low;
    let mut clock = Level::Low;
    let mut bits: Vec<bool> = Vec::new();
    for command in commands {
        if let Command::WritePin { pin, level } = command {
            if *pin == clock_pin {
                if clock == Level::Low && *level == Level::High {
                    bits.push(data == Level::High);
                }
                clock = *level;
            } else if *pin == data_pin {
                data = *level;
            }
        }
    }
    assert_eq!(bits.len() % 8, 0);
    bits.chunks(8).map(|byte| byte.iter().fold(0u8, |acc, bit| (acc << 1) | (*bit as u8))).collect()
}

/// The five-bit level of a brightness between 0.0 and 1.0.
fn level(brightness: f32) -> u8 {
    (31.0 * brightness.max(0.0).min(1.0)) as u8
}

#[test]
fn test_new() {
    let mut blinkt = Blinkt::new();

    blinkt.set_clear_on_drop(false);
}

#[test]
fn new_is_the_eight_pixel_board_on_pins_23_and_24() {
    let blinkt = Blinkt::new();
    assert_eq!(blinkt.num_pixels(), 8);
    assert!(blinkt.clear_on_drop());
    assert!(!blinkt.is_released());
    assert_eq!(
        blinkt.setup(),
        vec![
            Command::Acquire,
            Command::SetOutput { pin: 23 },
            Command::WritePin { pin: 23, level: Level::Low },
            Command::SetOutput { pin: 24 },
            Command::WritePin { pin: 24, level: Level::Low },
        ]
    );
    for pixel in 0..8 {
        assert_eq!(blinkt.pixel(pixel).unwrap().bytes(), &[0xE7, 0, 0, 0]);
    }
    assert_eq!(blinkt.pixel(8), None);
}

#[test]
fn with_settings_takes_pins_and_pixel_count() {
    let blinkt = Blinkt::with_settings(17, 27, 3);
    assert_eq!(blinkt.num_pixels(), 3);
    assert!(blinkt.clear_on_drop());
    assert_eq!(blinkt.setup()[1], Command::SetOutput { pin: 17 });
    assert_eq!(blinkt.setup()[3], Command::SetOutput { pin: 27 });
}

#[test]
fn with_spi_takes_clock_speed_and_pixel_count() {
    let blinkt = Blinkt::with_spi(16_000_000, 144);
    assert_eq!(blinkt.num_pixels(), 144);
    assert!(blinkt.clear_on_drop());
    assert_eq!(
        blinkt.setup(),
        vec![Command::OpenBus { bus: 0, slave_select: 0, clock_speed_hz: 16_000_000, mode: 0 }]
    );
}

#[test]
fn a_strip_without_pixels_is_allowed() {
    let mut blinkt = Blinkt::with_spi(1, 0);
    assert_eq!(blinkt.num_pixels(), 0);
    blinkt.set_all_pixels(1, 2, 3);
    assert_eq!(blinkt.show(), vec![transfer(&[0u8; 8])]);
}

#[test]
fn set_clear_on_drop_is_kept() {
    let mut blinkt = Blinkt::new();
    blinkt.set_clear_on_drop(false);
    assert!(!blinkt.clear_on_drop());
    blinkt.set_clear_on_drop(true);
    assert!(blinkt.clear_on_drop());
}

#[test]
fn set_pixel_changes_one_pixel_and_keeps_its_brightness() {
    let mut blinkt = Blinkt::new();
    blinkt.set_pixel_brightness(2, 3);
    blinkt.set_pixel(2, 10, 20, 30);
    assert_eq!(blinkt.pixel(2).unwrap().bytes(), &[0xE3, 30, 20, 10]);
    for pixel in [0, 1, 3, 4, 5, 6, 7] {
        assert_eq!(blinkt.pixel(pixel).unwrap().bytes(), &[0xE7, 0, 0, 0]);
    }
}

#[test]
fn setters_ignore_a_pixel_that_is_not_there() {
    let mut blinkt = Blinkt::new();
    blinkt.set_pixel(8, 1, 2, 3);
    blinkt.set_pixel_rgbb(9, 1, 2, 3, 4);
    blinkt.set_pixel_brightness(usize::MAX, 31);
    for pixel in 0..8 {
        assert_eq!(blinkt.pixel(pixel).unwrap().bytes(), &[0xE7, 0, 0, 0]);
    }
}

#[test]
fn set_pixel_rgbb_sets_colour_and_brightness() {
    let mut blinkt = Blinkt::new();
    blinkt.set_pixel_rgbb(7, 255, 254, 253, 31);
    assert_eq!(blinkt.pixel(7).unwrap().bytes(), &[0xFF, 253, 254, 255]);
    blinkt.set_pixel_rgbb(7, 1, 2, 3, 200);
    assert_eq!(blinkt.pixel(7).unwrap().bytes(), &[0xFF, 3, 2, 1]);
}

#[test]
fn set_pixel_brightness_keeps_the_colour() {
    let mut blinkt = Blinkt::new();
    blinkt.set_pixel(0, 5, 6, 7);
    blinkt.set_pixel_brightness(0, 0);
    assert_eq!(blinkt.pixel(0).unwrap().bytes(), &[0xE0, 7, 6, 5]);
}

#[test]
fn set_all_pixels_changes_every_colour_and_no_brightness() {
    let mut blinkt = Blinkt::with_settings(23, 24, 4);
    blinkt.set_pixel_brightness(1, 1);
    blinkt.set_pixel_brightness(3, 31);
    blinkt.set_all_pixels(100, 150, 200);
    assert_eq!(blinkt.pixel(0).unwrap().bytes(), &[0xE7, 200, 150, 100]);
    assert_eq!(blinkt.pixel(1).unwrap().bytes(), &[0xE1, 200, 150, 100]);
    assert_eq!(blinkt.pixel(2).unwrap().bytes(), &[0xE7, 200, 150, 100]);
    assert_eq!(blinkt.pixel(3).unwrap().bytes(), &[0xFF, 200, 150, 100]);
}

#[test]
fn set_all_pixels_rgbb_changes_everything() {
    let mut blinkt = Blinkt::with_settings(23, 24, 4);
    blinkt.set_all_pixels_rgbb(1, 2, 3, 16);
    for pixel in 0..4 {
        assert_eq!(blinkt.pixel(pixel).unwrap().bytes(), &[0xF0, 3, 2, 1]);
    }
}

#[test]
fn set_all_pixels_brightness_keeps_the_colours() {
    let mut blinkt = Blinkt::with_settings(23, 24, 3);
    blinkt.set_pixel(0, 1, 1, 1);
    blinkt.set_pixel(1, 2, 2, 2);
    blinkt.set_all_pixels_brightness(level(0.1));
    assert_eq!(blinkt.pixel(0).unwrap().bytes(), &[0xE3, 1, 1, 1]);
    assert_eq!(blinkt.pixel(1).unwrap().bytes(), &[0xE3, 2, 2, 2]);
    assert_eq!(blinkt.pixel(2).unwrap().bytes(), &[0xE3, 0, 0, 0]);
}

#[test]
fn clear_turns_colours_off_and_keeps_brightness() {
    let mut blinkt = Blinkt::with_settings(23, 24, 2);
    blinkt.set_pixel_rgbb(0, 9, 9, 9, 1);
    blinkt.set_pixel_rgbb(1, 8, 8, 8, 30);
    blinkt.clear();
    assert_eq!(blinkt.pixel(0).unwrap().bytes(), &[0xE1, 0, 0, 0]);
    assert_eq!(blinkt.pixel(1).unwrap().bytes(), &[0xFE, 0, 0, 0]);
}

#[test]
fn show_sends_start_frame_pixels_and_end_frame() {
    let mut blinkt = Blinkt::with_spi(8_000_000, 3);
    blinkt.set_pixel_rgbb(0, 255, 0, 0, level(1.0));
    blinkt.set_pixel_rgbb(1, 0, 255, 0, level(0.5));
    let expected: [u8; 21] = [
        0x00, 0x00, 0x00, 0x00, // start frame
        0xFF, 0x00, 0x00, 0xFF, // pixel 0
        0xEF, 0x00, 0xFF, 0x00, // pixel 1
        0xE7, 0x00, 0x00, 0x00, // pixel 2
        0x00, 0x00, 0x00, 0x00, 0x00, // end frame
    ];
    assert_eq!(blinkt.show(), vec![transfer(&expected)]);
}

#[test]
fn show_sends_the_same_frame_over_lines() {
    let mut blinkt = Blinkt::with_settings(23, 24, 3);
    blinkt.set_pixel_rgbb(0, 255, 0, 0, level(1.0));
    blinkt.set_pixel_rgbb(1, 0, 255, 0, level(0.5));
    let out = blinkt.show();
    assert_eq!(out.len(), 24 * 21);
    assert_eq!(
        sample(&out, 23, 24),
        vec![
            0x00, 0x00, 0x00, 0x00, 0xFF, 0x00, 0x00, 0xFF, 0xEF, 0x00, 0xFF, 0x00, 0xE7, 0x00,
            0x00, 0x00, 0x00, 0x00, 0x00, 0x00, 0x00,
        ]
    );
    for command in &out {
        assert!(matches!(command, Command::WritePin { pin: 23, .. } | Command::WritePin { pin: 24, .. }));
    }
}

#[test]
fn show_twice_sends_the_frame_twice() {
    let mut blinkt = Blinkt::with_spi(1, 8);
    blinkt.set_all_pixels(1, 2, 3);
    let first = blinkt.show();
    let second = blinkt.show();
    assert_eq!(first, second);
    assert_eq!(first.len(), 1);
}

#[test]
fn show_of_the_default_board_has_41_bytes() {
    let mut blinkt = Blinkt::new();
    let out = blinkt.show();
    let bytes = sample(&out, 23, 24);
    assert_eq!(bytes.len(), 4 + 8 * 4 + 5);
    assert_eq!(&bytes[..4], &[0, 0, 0, 0]);
    assert_eq!(&bytes[4..8], &[0xE7, 0, 0, 0]);
    assert_eq!(&bytes[36..], &[0, 0, 0, 0, 0]);
}

#[test]
fn show_splits_a_long_frame_at_the_buffer_size() {
    let mut blinkt = Blinkt::with_spi(1, 2000);
    blinkt.set_all_pixels_rgbb(1, 2, 3, 31);
    let mut frame = vec![0u8; 4];
    for _ in 0..2000 {
        frame.extend([0xFF, 3, 2, 1]);
    }
    frame.extend(vec![0u8; 4 + 125]);
    assert_eq!(frame.len(), 8133);
    assert_eq!(blinkt.show(), vec![transfer(&frame[..4096]), transfer(&frame[4096..])]);
}

#[test]
fn show_of_a_frame_that_fills_the_buffer_sends_once() {
    // 4 + 4 * 1019 + (4 + 64) = 4148 is over; 4 + 4 * 1006 + (4 + 63) = 4095 is under.
    let mut blinkt = Blinkt::with_spi(1, 1006);
    let out = blinkt.show();
    assert_eq!(out.len(), 1);
    match &out[0] {
        Command::Transfer { data } => assert_eq!(data.len(), 4095),
        other => panic!("{:?}", other),
    }
}

#[test]
fn cleanup_turns_the_pixels_off_and_keeps_their_brightness() {
    let mut blinkt = Blinkt::with_spi(1, 3);
    blinkt.set_pixel_rgbb(0, 255, 0, 0, 31);
    blinkt.set_pixel_rgbb(1, 0, 255, 0, 15);
    blinkt.set_pixel(2, 1, 2, 3);
    let teardown = blinkt.cleanup();
    let expected: [u8; 21] = [
        0x00, 0x00, 0x00, 0x00, 0xFF, 0x00, 0x00, 0x00, 0xEF, 0x00, 0x00, 0x00, 0xE7, 0x00, 0x00,
        0x00, 0x00, 0x00, 0x00, 0x00, 0x00,
    ];
    assert_eq!(teardown.render, vec![transfer(&expected)]);
    assert_eq!(teardown.release, vec![]);
    assert!(blinkt.is_released());
    assert_eq!(blinkt.pixel(0).unwrap().bytes(), &[0xFF, 0, 0, 0]);
    assert_eq!(blinkt.pixel(1).unwrap().bytes(), &[0xEF, 0, 0, 0]);
    assert_eq!(blinkt.pixel(2).unwrap().bytes(), &[0xE7, 0, 0, 0]);
}

#[test]
fn cleanup_over_lines_gives_the_pins_back() {
    let mut blinkt = Blinkt::with_settings(23, 24, 2);
    blinkt.set_all_pixels_rgbb(255, 255, 255, 9);
    let teardown = blinkt.cleanup();
    assert_eq!(
        sample(&teardown.render, 23, 24),
        vec![0, 0, 0, 0, 0xE9, 0, 0, 0, 0xE9, 0, 0, 0, 0, 0, 0, 0, 0]
    );
    assert_eq!(teardown.release, vec![Command::ReleasePins]);
}

#[test]
fn cleanup_without_clear_sends_no_frame() {
    let mut blinkt = Blinkt::with_settings(23, 24, 2);
    blinkt.set_all_pixels(255, 255, 255);
    blinkt.set_clear_on_drop(false);
    let teardown = blinkt.cleanup();
    assert_eq!(teardown.render, vec![]);
    assert_eq!(teardown.release, vec![Command::ReleasePins]);
    assert!(blinkt.is_released());
    assert_eq!(blinkt.pixel(0).unwrap().bytes(), &[0xE7, 255, 255, 255]);
}

#[test]
fn cleanup_a_second_time_does_nothing() {
    let mut blinkt = Blinkt::with_settings(23, 24, 2);
    blinkt.cleanup();
    blinkt.set_all_pixels(4, 5, 6);
    let again = blinkt.cleanup();
    assert_eq!(again.render, vec![]);
    assert_eq!(again.release, vec![]);
    assert!(blinkt.is_released());
    assert_eq!(blinkt.pixel(0).unwrap().bytes(), &[0xE7, 6, 5, 4]);
}

#[test]
fn explicit_release_reports_a_failed_refresh() {
    assert_eq!(release_result(Release::Explicit, Err("bus"), Ok(())), Err("bus"));
    assert_eq!(release_result(Release::Explicit, Err("bus"), Err("pins")), Err("bus"));
    assert_eq!(release_result::<&str>(Release::Explicit, Ok(()), Ok(())), Ok(()));
}

#[test]
fn release_never_reports_how_the_peripheral_was_returned() {
    assert_eq!(release_result(Release::Explicit, Ok(()), Err("pins")), Ok(()));
    assert_eq!(release_result(Release::Automatic, Ok(()), Err("pins")), Ok(()));
}

#[test]
fn automatic_release_never_reports_a_failure() {
    assert_eq!(release_result(Release::Automatic, Err("bus"), Ok(())), Ok(()));
    assert_eq!(release_result(Release::Automatic, Err("bus"), Err("pins")), Ok(()));
    assert_eq!(release_result::<&str>(Release::Automatic, Ok(()), Ok(())), Ok(()));
}

#[test]
fn brightness_levels_of_the_fractions() {
    assert_eq!(level(0.0), 0);
    assert_eq!(level(0.5), 15);
    assert_eq!(level(1.0), 31);
    assert_eq!(level(-3.0), level(0.0));
    assert_eq!(level(7.5), level(1.0));
    let mut blinkt = Blinkt::new();
    blinkt.set_pixel_brightness(0, level(7.5));
    assert_eq!(blinkt.pixel(0).unwrap().bytes()[0], 0xFF);
    blinkt.set_pixel_brightness(0, level(-3.0));
    assert_eq!(blinkt.pixel(0).unwrap().bytes()[0], 0xE0);
}
