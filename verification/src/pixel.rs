//! One pixel and its four bytes on the wire.

use vstd::prelude::*;

verus! {

/// Brightness of a pixel that has not been given one, in 31sts of full output.
pub const DEFAULT_BRIGHTNESS: u8 = 7;

/// Full output: the largest value the five brightness bits can hold.
pub const MAX_BRIGHTNESS: u8 = 31;

/// The three bits that open every pixel frame.
pub const FRAME_MARKER: u8 = 0b1110_0000;

/// The five bits of a pixel frame's first byte that hold the brightness.
pub const BRIGHTNESS_MASK: u8 = 0b0001_1111;

/// A brightness limited to what five bits can hold.
pub open spec fn clamp_brightness(brightness: u8) -> u8 {
    if brightness > MAX_BRIGHTNESS {
        MAX_BRIGHTNESS
    } else {
        brightness
    }
}

/// First byte of a pixel frame: the marker bits above the clamped
/// brightness, which as a number is the marker plus the brightness.
pub open spec fn brightness_byte(brightness: u8) -> u8 {
    (FRAME_MARKER + clamp_brightness(brightness)) as u8
}

/// The four bytes that carry one pixel: brightness, blue, green, red.
pub open spec fn encode(red: u8, green: u8, blue: u8, brightness: u8) -> Seq<u8> {
    seq![brightness_byte(brightness), blue, green, red]
}

/// Whether bytes are a pixel frame: four bytes, the first with all three
/// marker bits set.
pub open spec fn is_pixel_frame(bytes: Seq<u8>) -> bool {
    bytes.len() == 4 && bytes[0] >= FRAME_MARKER
}

/// Brightness held by a pixel frame: the low five bits of its first byte.
pub open spec fn frame_brightness(bytes: Seq<u8>) -> u8 {
    bytes[0] % 32
}

/// Blue value held by a pixel frame.
pub open spec fn frame_blue(bytes: Seq<u8>) -> u8 {
    bytes[1]
}

/// Green value held by a pixel frame.
pub open spec fn frame_green(bytes: Seq<u8>) -> u8 {
    bytes[2]
}

/// Red value held by a pixel frame.
pub open spec fn frame_red(bytes: Seq<u8>) -> u8 {
    bytes[3]
}

/// A pixel frame with another colour and the brightness it had.
pub open spec fn recolored(bytes: Seq<u8>, red: u8, green: u8, blue: u8) -> Seq<u8> {
    seq![bytes[0], blue, green, red]
}

/// A pixel frame with another brightness and the colour it had.
pub open spec fn relit(bytes: Seq<u8>, brightness: u8) -> Seq<u8> {
    bytes.update(0, brightness_byte(brightness))
}

/// In bits, the brightness byte is the marker with the clamped brightness
/// below it.
pub proof fn lemma_brightness_byte_bits(brightness: u8)
    ensures
        brightness_byte(brightness) == FRAME_MARKER | clamp_brightness(brightness),
        brightness_byte(brightness) & FRAME_MARKER == FRAME_MARKER,
        brightness_byte(brightness) & BRIGHTNESS_MASK == clamp_brightness(brightness),
{
    let level = clamp_brightness(brightness);
    assert(level <= 31 ==> (0b1110_0000u8 | level) == 224 + level) by (bit_vector);
    assert(level <= 31 ==> (0b1110_0000u8 | level) & 0b1110_0000u8 == 0b1110_0000u8)
        by (bit_vector);
    assert(level <= 31 ==> (0b1110_0000u8 | level) & 0b0001_1111u8 == level) by (bit_vector);
}

/// Every brightness from the maximum up encodes as the maximum does, with
/// all bits set.
pub proof fn lemma_brightness_saturates(brightness: u8)
    requires
        brightness >= MAX_BRIGHTNESS,
    ensures
        brightness_byte(brightness) == brightness_byte(MAX_BRIGHTNESS),
        brightness_byte(brightness) == 0xFF,
{
}

/// Decoding an encoded pixel gives back its colours exactly, and its
/// brightness clamped to five bits.
pub proof fn lemma_encode_round_trip(red: u8, green: u8, blue: u8, brightness: u8)
    ensures
        is_pixel_frame(encode(red, green, blue, brightness)),
        frame_red(encode(red, green, blue, brightness)) == red,
        frame_green(encode(red, green, blue, brightness)) == green,
        frame_blue(encode(red, green, blue, brightness)) == blue,
        frame_brightness(encode(red, green, blue, brightness)) == clamp_brightness(brightness),
{
}

/// A pixel frame is the encoding of the values it decodes to.
pub proof fn lemma_decode_round_trip(bytes: Seq<u8>)
    requires
        is_pixel_frame(bytes),
    ensures
        frame_brightness(bytes) <= MAX_BRIGHTNESS,
        bytes == encode(
            frame_red(bytes),
            frame_green(bytes),
            frame_blue(bytes),
            frame_brightness(bytes),
        ),
{
}

/// One pixel of the strip, held as the four bytes that go on the wire.
#[derive(Debug, Copy, Clone, PartialEq, Eq)]
pub struct Pixel {
    value: [u8; 4],  // Brightness, blue, green, red
}

impl View for Pixel {
    type V = Seq<u8>;

    closed spec fn view(&self) -> Seq<u8> {
        self.value@
    }
}

impl Pixel {
    /// The pixel's bytes are a pixel frame.
    pub open spec fn wf(&self) -> bool {
        is_pixel_frame(self@)
    }

    /// Sets the colour and keeps the brightness.
    pub fn set_rgb(&mut self, red: u8, green: u8, blue: u8)
        ensures
            final(self)@ == recolored(old(self)@, red, green, blue),
            old(self).wf() ==> final(self).wf(),
    {
        self.value[1] = blue;
        self.value[2] = green;
        self.value[3] = red;
    }

    /// Sets the brightness, in 31sts of full output, and keeps the colour.
    /// A value above 31 counts as 31.
    pub fn set_brightness(&mut self, brightness: u8)
        ensures
            final(self)@ == relit(old(self)@, brightness),
            final(self).wf(),
    {
        let level: u8 = if brightness > MAX_BRIGHTNESS {
            MAX_BRIGHTNESS
        } else {
            brightness
        };
        self.value[0] = FRAME_MARKER | level;
        proof {
            lemma_brightness_byte_bits(brightness);
        }
    }

    /// Sets colour and brightness, overwriting all four bytes.
    pub fn set_rgbb(&mut self, red: u8, green: u8, blue: u8, brightness: u8)
        ensures
            final(self)@ == encode(red, green, blue, brightness),
            final(self).wf(),
    {
        self.set_rgb(red, green, blue);
        self.set_brightness(brightness);
    }

    /// The four bytes of the pixel as they are sent.
    pub fn bytes(&self) -> (out: &[u8])
        ensures
            out@ == self@,
    {
        &self.value
    }

    /// Brightness of the pixel, in 31sts of full output.
    pub fn brightness(&self) -> (level: u8)
        ensures
            level == frame_brightness(self@),
            level <= MAX_BRIGHTNESS,
    {
        let first: u8 = self.value[0];
        assert(first & 0b0001_1111u8 == first % 32) by (bit_vector);
        first & BRIGHTNESS_MASK
    }

    /// Red value of the pixel.
    pub fn red(&self) -> (red: u8)
        ensures
            red == frame_red(self@),
    {
        self.value[3]
    }

    /// Green value of the pixel.
    pub fn green(&self) -> (green: u8)
        ensures
            green == frame_green(self@),
    {
        self.value[2]
    }

    /// Blue value of the pixel.
    pub fn blue(&self) -> (blue: u8)
        ensures
            blue == frame_blue(self@),
    {
        self.value[1]
    }

    /// Reads a pixel back from its wire bytes. Gives `None` unless there are
    /// four bytes and the first carries the marker bits.
    pub fn from_bytes(bytes: &[u8]) -> (pixel: Option<Pixel>)
        ensures
            pixel is Some <==> is_pixel_frame(bytes@),
            pixel matches Some(p) ==> p@ == bytes@,
    {
        if bytes.len() != 4 {
            return None;
        }
        let first: u8 = bytes[0];
        assert(first & 0b1110_0000u8 == 0b1110_0000u8 <==> first >= 0b1110_0000u8) by (bit_vector);
        if first & FRAME_MARKER != FRAME_MARKER {
            return None;
        }
        let pixel = Pixel { value: [bytes[0], bytes[1], bytes[2], bytes[3]] };
        Some(pixel)
    }
}

impl Default for Pixel {
    /// A black pixel at the default brightness.
    fn default() -> (pixel: Pixel)
        ensures
            pixel@ == encode(0, 0, 0, DEFAULT_BRIGHTNESS),
            pixel.wf(),
    {
        let pixel = Pixel { value: [FRAME_MARKER | DEFAULT_BRIGHTNESS, 0, 0, 0] };
        proof {
            lemma_brightness_byte_bits(DEFAULT_BRIGHTNESS);
        }
        pixel
    }
}

} // verus!
