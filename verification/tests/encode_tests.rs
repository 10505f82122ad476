use rust_raspi_led_strip::{APA102, LEDStrip, Level, PinWrite};

/// A zero-pixel strip still transmits the full framing: chip-select low,
/// start-of-frame (data low + 32 clock pulses), no payload, end-of-frame
/// (data low + 36 clock pulses), chip-select high.
#[test]
fn empty_strip_frame_is_pure_framing() {
    let apa102 = APA102::new(0);
    let frame = apa102.encode_frame();

    // 1 + (1 + 64) + 0 + (1 + 72) + 1 writes
    assert_eq!(frame.len(), 140);
    assert_eq!(frame[0], PinWrite::ChipSelect(Level::Low));
    assert_eq!(frame[1], PinWrite::Dat(Level::Low));
    for k in 0..32 {
        assert_eq!(frame[2 + 2 * k], PinWrite::Clk(Level::High));
        assert_eq!(frame[3 + 2 * k], PinWrite::Clk(Level::Low));
    }
    assert_eq!(frame[66], PinWrite::Dat(Level::Low));
    for k in 0..36 {
        assert_eq!(frame[67 + 2 * k], PinWrite::Clk(Level::High));
        assert_eq!(frame[68 + 2 * k], PinWrite::Clk(Level::Low));
    }
    assert_eq!(frame[139], PinWrite::ChipSelect(Level::High));
}

/// The payload of one pixel goes out as the control/brightness byte
/// followed by blue, green and red, each most-significant-bit first. With
/// red and blue at 0xFF, green at 0x00 and brightness 0, the 32 data levels
/// of the payload spell out exactly 11100000, 11111111, 00000000, 11111111.
#[test]
fn payload_is_control_then_bgr_msb_first() {
    let mut apa102 = APA102::new(1);
    apa102.set_pixel(0, 0xFF, 0x00, 0xFF, 0);
    let frame = apa102.encode_frame();

    // 1 + 65 + 4 * 24 + 73 + 1 writes
    assert_eq!(frame.len(), 236);

    let expected_bits: [u8; 32] = [
        1, 1, 1, 0, 0, 0, 0, 0, // control byte 0b1110_0000
        1, 1, 1, 1, 1, 1, 1, 1, // blue 0xFF
        0, 0, 0, 0, 0, 0, 0, 0, // green 0x00
        1, 1, 1, 1, 1, 1, 1, 1, // red 0xFF
    ];
    for (k, bit) in expected_bits.iter().enumerate() {
        let level = if *bit == 1 { Level::High } else { Level::Low };
        // each payload bit is one data write and one clock pulse
        assert_eq!(frame[66 + 3 * k], PinWrite::Dat(level));
        assert_eq!(frame[67 + 3 * k], PinWrite::Clk(Level::High));
        assert_eq!(frame[68 + 3 * k], PinWrite::Clk(Level::Low));
    }

    // end-of-frame starts right after the payload
    assert_eq!(frame[162], PinWrite::Dat(Level::Low));
    assert_eq!(frame[235], PinWrite::ChipSelect(Level::High));
}

/// The brightness level lands in the low 5 bits of the control byte: level
/// 21 (0b10101) yields control bits 11110101.
#[test]
fn control_byte_carries_the_brightness_level() {
    let mut apa102 = APA102::new(1);
    apa102.set_pixel(0, 0, 0, 0, 21);
    let frame = apa102.encode_frame();

    let expected_control: [u8; 8] = [1, 1, 1, 1, 0, 1, 0, 1];
    for (k, bit) in expected_control.iter().enumerate() {
        let level = if *bit == 1 { Level::High } else { Level::Low };
        assert_eq!(frame[66 + 3 * k], PinWrite::Dat(level));
    }
}

/// Pixels are transmitted in buffer order: with two pixels, the second
/// pixel's control byte begins right after the first pixel's 96 writes.
#[test]
fn pixels_are_transmitted_in_buffer_order() {
    let mut apa102 = APA102::new(2);
    apa102.set_pixel(0, 0, 0, 0, 0);
    apa102.set_pixel(1, 0, 0, 0, 31);
    let frame = apa102.encode_frame();

    // first pixel: control byte 0b1110_0000
    assert_eq!(frame[66], PinWrite::Dat(Level::High));
    assert_eq!(frame[66 + 3 * 3], PinWrite::Dat(Level::Low));
    // second pixel: control byte 0b1111_1111, 96 writes later
    assert_eq!(frame[162], PinWrite::Dat(Level::High));
    assert_eq!(frame[162 + 3 * 3], PinWrite::Dat(Level::High));
}
