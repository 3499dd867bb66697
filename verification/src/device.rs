//! The device: its pixel buffer, the refresh that sends the buffer to the
//! strip, and the release that ends its life.

use vstd::prelude::*;
use crate::command::{Command, Signal};
use crate::frame::{
    START_FRAME_BYTES,
    end_frame,
    end_frame_len,
    lemma_pixel_frames_push,
    lemma_wire_frame_pixel,
    pixel_frames,
    wire_frame,
    zeros,
};
use crate::gpio::{BlinktGpio, bitbang_signals, lemma_bitbang_append};
use crate::pixel::{DEFAULT_BRIGHTNESS, Pixel, encode, is_pixel_frame, recolored, relit};
use crate::serial::{
    Medium,
    SerialOutput,
    Transport,
    flush_signals,
    lemma_write_append,
    release_signals,
    setup_signals,
    write_queued,
    write_signals,
};
use crate::spi::{BlinktSpi, SPI_BUFFER_BYTES, lemma_transfers_split, transfers};
use crate::wire::{delivered, lemma_transferred_append, lemma_write_flush_delivers, usable};

verus! {

/// Data pin of the Pimoroni Blinkt! board, as a BCM GPIO number.
pub const DAT: u8 = 23;

/// Clock pin of the Pimoroni Blinkt! board, as a BCM GPIO number.
pub const CLK: u8 = 24;

/// Number of pixels on the Pimoroni Blinkt! board.
pub const NUM_PIXELS: usize = 8;

/// What a device is, apart from how it is stored.
pub struct State {
    /// What the device drives.
    pub medium: Medium,
    /// The frame of each pixel, nearest pixel first.
    pub pixels: Seq<Seq<u8>>,
    /// Whether the pixels are turned off when the device is released.
    pub clear_on_drop: bool,
    /// Whether the device has been released.
    pub released: bool,
}

/// The state of a device that has just been made: every pixel black at the
/// default brightness, to be cleared on release.
pub open spec fn fresh(medium: Medium, num_pixels: nat) -> State {
    State {
        medium,
        pixels: Seq::new(num_pixels, |i: int| encode(0, 0, 0, DEFAULT_BRIGHTNESS)),
        clear_on_drop: true,
        released: false,
    }
}

/// A strip with the colour of every pixel replaced and its brightness kept.
pub open spec fn recolored_all(pixels: Seq<Seq<u8>>, red: u8, green: u8, blue: u8) -> Seq<
    Seq<u8>,
> {
    Seq::new(pixels.len(), |i: int| recolored(pixels[i], red, green, blue))
}

/// A strip with the brightness of every pixel replaced and its colour kept.
pub open spec fn relit_all(pixels: Seq<Seq<u8>>, brightness: u8) -> Seq<Seq<u8>> {
    Seq::new(pixels.len(), |i: int| relit(pixels[i], brightness))
}

/// What one refresh hands to the host: the frame of the strip, clocked out
/// bit by bit on lines, cut into transmissions on the bus.
pub open spec fn show_signals(medium: Medium, pixels: Seq<Seq<u8>>) -> Seq<Signal> {
    match medium {
        Medium::Lines { data_pin, clock_pin } => bitbang_signals(
            data_pin,
            clock_pin,
            wire_frame(pixels),
        ),
        Medium::Bus { .. } => transfers(wire_frame(pixels)),
    }
}

/// A refresh is the frame written to a transport with nothing queued, and
/// then flushed.
pub proof fn lemma_show_writes_and_flushes(medium: Medium, pixels: Seq<Seq<u8>>)
    ensures
        show_signals(medium, pixels) == write_signals(medium, Seq::empty(), wire_frame(pixels))
            + flush_signals(medium, write_queued(medium, Seq::empty(), wire_frame(pixels))),
{
    if medium is Bus {
        lemma_transfers_split(wire_frame(pixels));
    }
}

/// A refresh carries the frame of the strip to the pixels, byte for byte,
/// over either medium.
pub proof fn lemma_show_delivers(medium: Medium, pixels: Seq<Seq<u8>>)
    requires
        usable(medium),
    ensures
        delivered(medium, show_signals(medium, pixels)) == wire_frame(pixels),
{
    lemma_show_writes_and_flushes(medium, pixels);
    lemma_write_flush_delivers(medium, Seq::empty(), wire_frame(pixels));
}

/// Two refreshes in a row carry the frame of the first and then the frame of
/// the second: no byte of one runs into the other.
pub proof fn lemma_shows_deliver_in_turn(
    medium: Medium,
    first: Seq<Seq<u8>>,
    second: Seq<Seq<u8>>,
)
    requires
        usable(medium),
    ensures
        delivered(medium, show_signals(medium, first) + show_signals(medium, second))
            == wire_frame(first) + wire_frame(second),
{
    lemma_show_delivers(medium, first);
    lemma_show_delivers(medium, second);
    match medium {
        Medium::Lines { data_pin, clock_pin } => {
            lemma_bitbang_append(data_pin, clock_pin, wire_frame(first), wire_frame(second));
            lemma_write_flush_delivers(medium, Seq::empty(), wire_frame(first) + wire_frame(second));
        },
        Medium::Bus { .. } => {
            lemma_transferred_append(show_signals(medium, first), show_signals(medium, second));
        },
    }
}

/// A frame shorter than the buffer goes over the bus in a single
/// transmission.
pub proof fn lemma_show_in_one_transfer(clock_speed_hz: u32, pixels: Seq<Seq<u8>>)
    requires
        0 < wire_frame(pixels).len() <= SPI_BUFFER_BYTES,
    ensures
        show_signals(Medium::Bus { clock_speed_hz }, pixels) == seq![
            Signal::Transfer { data: wire_frame(pixels) },
        ],
{
    let frame = wire_frame(pixels);
    assert(frame.subrange(0, frame.len() as int) =~= frame);
}

/// The refresh that a release sends carries, for every pixel, the
/// brightness byte the pixel had and zero for each of its colours.
pub proof fn lemma_release_turns_off(medium: Medium, pixels: Seq<Seq<u8>>, i: int)
    requires
        usable(medium),
        0 <= i < pixels.len(),
    ensures
        delivered(medium, show_signals(medium, recolored_all(pixels, 0, 0, 0)))[4 + 4 * i]
            == pixels[i][0],
        delivered(medium, show_signals(medium, recolored_all(pixels, 0, 0, 0)))[4 + 4 * i + 1]
            == 0,
        delivered(medium, show_signals(medium, recolored_all(pixels, 0, 0, 0)))[4 + 4 * i + 2]
            == 0,
        delivered(medium, show_signals(medium, recolored_all(pixels, 0, 0, 0)))[4 + 4 * i + 3]
            == 0,
{
    let cleared = recolored_all(pixels, 0, 0, 0);
    lemma_show_delivers(medium, cleared);
    lemma_wire_frame_pixel(cleared, i, 0);
    lemma_wire_frame_pixel(cleared, i, 1);
    lemma_wire_frame_pixel(cleared, i, 2);
    lemma_wire_frame_pixel(cleared, i, 3);
}

/// How a release came about.
#[derive(Clone, Copy, Debug, PartialEq, Eq, Structural)]
pub enum Release {
    /// The caller asked for it.
    Explicit,
    /// The device went out of scope.
    Automatic,
}

/// What the host is to do for a release.
#[derive(Debug)]
pub struct Teardown {
    /// The last refresh, which turns the pixels off. To be performed first;
    /// the host stops at the first command that fails.
    pub render: Vec<Command>,
    /// What returns the peripheral to its neutral state. To be performed
    /// whether or not the refresh succeeded; a failure here is not reported.
    pub release: Vec<Command>,
}

/// What a release reports, given how the host fared with the last refresh
/// and with returning the peripheral to its neutral state. A release that the
/// caller asked for passes a failure of the refresh on; one that came by
/// itself never fails. How the peripheral was returned is never reported.
pub fn release_result<E>(release: Release, render: Result<(), E>, restore: Result<(), E>) -> (result:
    Result<(), E>)
    ensures
        release == Release::Explicit ==> result == render,
        release == Release::Automatic ==> result is Ok,
{
    match release {
        Release::Explicit => render,
        Release::Automatic => Ok(()),
    }
}

/// Interface for the Pimoroni Blinkt!, and any similar APA102 or SK9822 LED
/// strips or boards.
///
/// All changes of colour and brightness go to a local buffer; `show` sends
/// the buffer to the pixels.
pub struct Blinkt {
    serial_output: Transport,
    pixels: Vec<Pixel>,
    clear_on_drop: bool,
    end_frame: Vec<u8>,
    released: bool,
}

impl View for Blinkt {
    type V = State;

    closed spec fn view(&self) -> State {
        State {
            medium: self.serial_output.medium(),
            pixels: Seq::new(self.pixels@.len(), |i: int| self.pixels@[i]@),
            clear_on_drop: self.clear_on_drop,
            released: self.released,
        }
    }
}

impl Blinkt {
    /// The device is consistent: its transport is, nothing waits in the
    /// transport between two calls, every pixel holds a pixel frame, and the
    /// end frame is the one for the number of pixels.
    pub closed spec fn wf(&self) -> bool {
        &&& self.serial_output.wf()
        &&& self.serial_output.queued() == Seq::<u8>::empty()
        &&& forall|i: int| 0 <= i < self.pixels@.len() ==> (#[trigger] self.pixels@[i]).wf()
        &&& self.end_frame@ == zeros(end_frame_len(self.pixels@.len()))
    }

    /// Every pixel of a consistent device holds a pixel frame.
    pub proof fn lemma_pixels_are_frames(&self)
        requires
            self.wf(),
        ensures
            forall|i: int| 0 <= i < self@.pixels.len() ==> is_pixel_frame(#[trigger] self@.pixels[i]),
    {
    }

    fn build(serial_output: Transport, num_pixels: usize) -> (blinkt: Blinkt)
        requires
            serial_output.wf(),
            serial_output.queued() == Seq::<u8>::empty(),
        ensures
            blinkt.wf(),
            blinkt@ == fresh(serial_output.medium(), num_pixels as nat),
    {
        let blinkt = Blinkt {
            serial_output,
            pixels: vec![Pixel::default(); num_pixels],
            clear_on_drop: true,
            end_frame: end_frame(num_pixels),
            released: false,
        };
        assert(blinkt@.pixels =~= fresh(serial_output.medium(), num_pixels as nat).pixels);
        blinkt
    }

    /// Creates a new `Blinkt` using the default settings for a Pimoroni
    /// Blinkt! board.
    ///
    /// This sets the data pin to GPIO 23 (physical pin 16), the clock pin to
    /// GPIO 24 (physical pin 18), and number of pixels to 8.
    pub fn new() -> (blinkt: Blinkt)
        ensures
            blinkt.wf(),
            blinkt@ == fresh(Medium::Lines { data_pin: DAT, clock_pin: CLK }, NUM_PIXELS as nat),
    {
        Blinkt::with_settings(DAT, CLK, NUM_PIXELS)
    }

    /// Creates a new `Blinkt` using bitbanging mode, with custom settings for
    /// the data pin, clock pin, and number of pixels. Pins should be specified
    /// by their BCM GPIO pin numbers.
    pub fn with_settings(pin_data: u8, pin_clock: u8, num_pixels: usize) -> (blinkt: Blinkt)
        ensures
            blinkt.wf(),
            blinkt@ == fresh(
                Medium::Lines { data_pin: pin_data, clock_pin: pin_clock },
                num_pixels as nat,
            ),
    {
        Blinkt::build(Transport::Gpio(BlinktGpio::with_settings(pin_data, pin_clock)), num_pixels)
    }

    /// Creates a new `Blinkt` using hardware SPI, with custom settings for the
    /// clock speed and number of pixels.
    ///
    /// The data then leaves on GPIO 10 (physical pin 19) and the clock on
    /// GPIO 11 (physical pin 23).
    pub fn with_spi(clock_speed_hz: u32, num_pixels: usize) -> (blinkt: Blinkt)
        ensures
            blinkt.wf(),
            blinkt@ == fresh(Medium::Bus { clock_speed_hz }, num_pixels as nat),
    {
        Blinkt::build(Transport::Spi(BlinktSpi::with_settings(clock_speed_hz)), num_pixels)
    }

    /// The commands that prepare the hardware for this device. The host
    /// performs them once, before those of any refresh; where one fails,
    /// the device cannot be used.
    pub fn setup(&self) -> (out: Vec<Command>)
        requires
            self.wf(),
        ensures
            out.deep_view() == setup_signals(self@.medium),
    {
        self.serial_output.setup()
    }

    /// Number of pixels of the strip.
    pub fn num_pixels(&self) -> (num_pixels: usize)
        ensures
            num_pixels == self@.pixels.len(),
    {
        self.pixels.len()
    }

    /// The pixel at the given place in the local buffer, the nearest being
    /// pixel 0; `None` where the strip has no such pixel.
    pub fn pixel(&self, pixel: usize) -> (found: Option<Pixel>)
        ensures
            found is Some <==> pixel < self@.pixels.len(),
            found matches Some(p) ==> p@ == self@.pixels[pixel as int],
    {
        if pixel < self.pixels.len() {
            Some(self.pixels[pixel])
        } else {
            None
        }
    }

    /// Whether the pixels are cleared when the device is released.
    pub fn clear_on_drop(&self) -> (clear_on_drop: bool)
        ensures
            clear_on_drop == self@.clear_on_drop,
    {
        self.clear_on_drop
    }

    /// Whether the device has been released.
    pub fn is_released(&self) -> (released: bool)
        ensures
            released == self@.released,
    {
        self.released
    }

    /// When enabled, clears all pixels when the `Blinkt` is released.
    ///
    /// Enabled by default.
    pub fn set_clear_on_drop(&mut self, clear_on_drop: bool)
        requires
            old(self).wf(),
        ensures
            final(self).wf(),
            final(self)@ == (State { clear_on_drop, ..old(self)@ }),
    {
        self.clear_on_drop = clear_on_drop;
    }

    /// Sets the red, green and blue values for a single pixel in the local
    /// buffer. A pixel that the strip does not have is ignored.
    ///
    /// For an 8-pixel board, valid values for pixel are 0-7.
    pub fn set_pixel(&mut self, pixel: usize, red: u8, green: u8, blue: u8)
        requires
            old(self).wf(),
        ensures
            final(self).wf(),
            pixel < old(self)@.pixels.len() ==> final(self)@ == (State {
                pixels: old(self)@.pixels.update(
                    pixel as int,
                    recolored(old(self)@.pixels[pixel as int], red, green, blue),
                ),
                ..old(self)@
            }),
            pixel >= old(self)@.pixels.len() ==> final(self)@ == old(self)@,
    {
        if pixel < self.pixels.len() {
            self.pixels[pixel].set_rgb(red, green, blue);
            assert(self@.pixels =~= old(self)@.pixels.update(
                pixel as int,
                recolored(old(self)@.pixels[pixel as int], red, green, blue),
            ));
        }
    }

    /// Sets the red, green, blue and brightness values for a single pixel in
    /// the local buffer. A pixel that the strip does not have is ignored.
    ///
    /// The brightness is given in 31sts of full output; a value above 31
    /// counts as 31.
    pub fn set_pixel_rgbb(&mut self, pixel: usize, red: u8, green: u8, blue: u8, brightness: u8)
        requires
            old(self).wf(),
        ensures
            final(self).wf(),
            pixel < old(self)@.pixels.len() ==> final(self)@ == (State {
                pixels: old(self)@.pixels.update(
                    pixel as int,
                    encode(red, green, blue, brightness),
                ),
                ..old(self)@
            }),
            pixel >= old(self)@.pixels.len() ==> final(self)@ == old(self)@,
    {
        if pixel < self.pixels.len() {
            self.pixels[pixel].set_rgbb(red, green, blue, brightness);
            assert(self@.pixels =~= old(self)@.pixels.update(
                pixel as int,
                encode(red, green, blue, brightness),
            ));
        }
    }

    /// Sets the brightness value for a single pixel in the local buffer. A
    /// pixel that the strip does not have is ignored.
    ///
    /// The brightness is given in 31sts of full output; a value above 31
    /// counts as 31.
    pub fn set_pixel_brightness(&mut self, pixel: usize, brightness: u8)
        requires
            old(self).wf(),
        ensures
            final(self).wf(),
            pixel < old(self)@.pixels.len() ==> final(self)@ == (State {
                pixels: old(self)@.pixels.update(
                    pixel as int,
                    relit(old(self)@.pixels[pixel as int], brightness),
                ),
                ..old(self)@
            }),
            pixel >= old(self)@.pixels.len() ==> final(self)@ == old(self)@,
    {
        if pixel < self.pixels.len() {
            self.pixels[pixel].set_brightness(brightness);
            assert(self@.pixels =~= old(self)@.pixels.update(
                pixel as int,
                relit(old(self)@.pixels[pixel as int], brightness),
            ));
        }
    }

    /// Sets the red, green and blue values for all pixels in the local buffer.
    pub fn set_all_pixels(&mut self, red: u8, green: u8, blue: u8)
        requires
            old(self).wf(),
        ensures
            final(self).wf(),
            final(self)@ == (State {
                pixels: recolored_all(old(self)@.pixels, red, green, blue),
                ..old(self)@
            }),
    {
        let mut i: usize = 0;
        while i < self.pixels.len()
            invariant
                i <= self.pixels@.len(),
                self.pixels@.len() == old(self).pixels@.len(),
                self.serial_output == old(self).serial_output,
                self.end_frame == old(self).end_frame,
                self.clear_on_drop == old(self).clear_on_drop,
                self.released == old(self).released,
                old(self).wf(),
                forall|j: int| 0 <= j < self.pixels@.len() ==> (#[trigger] self.pixels@[j]).wf(),
                forall|j: int|
                    0 <= j < i ==> (#[trigger] self.pixels@[j])@ == recolored(
                        old(self).pixels@[j]@,
                        red,
                        green,
                        blue,
                    ),
                forall|j: int|
                    i <= j < self.pixels@.len() ==> #[trigger] self.pixels@[j] == old(
                        self,
                    ).pixels@[j],
            decreases self.pixels@.len() - i,
        {
            self.pixels[i].set_rgb(red, green, blue);
            i += 1;
        }
        assert(self@.pixels =~= recolored_all(old(self)@.pixels, red, green, blue));
    }

    /// Sets the red, green, blue and brightness values for all pixels in the
    /// local buffer.
    ///
    /// The brightness is given in 31sts of full output; a value above 31
    /// counts as 31.
    pub fn set_all_pixels_rgbb(&mut self, red: u8, green: u8, blue: u8, brightness: u8)
        requires
            old(self).wf(),
        ensures
            final(self).wf(),
            final(self)@ == (State {
                pixels: Seq::new(
                    old(self)@.pixels.len(),
                    |i: int| encode(red, green, blue, brightness),
                ),
                ..old(self)@
            }),
    {
        let mut i: usize = 0;
        while i < self.pixels.len()
            invariant
                i <= self.pixels@.len(),
                self.pixels@.len() == old(self).pixels@.len(),
                self.serial_output == old(self).serial_output,
                self.end_frame == old(self).end_frame,
                self.clear_on_drop == old(self).clear_on_drop,
                self.released == old(self).released,
                old(self).wf(),
                forall|j: int| 0 <= j < self.pixels@.len() ==> (#[trigger] self.pixels@[j]).wf(),
                forall|j: int|
                    0 <= j < i ==> (#[trigger] self.pixels@[j])@ == encode(
                        red,
                        green,
                        blue,
                        brightness,
                    ),
            decreases self.pixels@.len() - i,
        {
            self.pixels[i].set_rgbb(red, green, blue, brightness);
            i += 1;
        }
        assert(self@.pixels =~= Seq::new(
            old(self)@.pixels.len(),
            |i: int| encode(red, green, blue, brightness),
        ));
    }

    /// Sets the brightness value for all pixels in the local buffer.
    ///
    /// The brightness is given in 31sts of full output; a value above 31
    /// counts as 31.
    pub fn set_all_pixels_brightness(&mut self, brightness: u8)
        requires
            old(self).wf(),
        ensures
            final(self).wf(),
            final(self)@ == (State {
                pixels: relit_all(old(self)@.pixels, brightness),
                ..old(self)@
            }),
    {
        let mut i: usize = 0;
        while i < self.pixels.len()
            invariant
                i <= self.pixels@.len(),
                self.pixels@.len() == old(self).pixels@.len(),
                self.serial_output == old(self).serial_output,
                self.end_frame == old(self).end_frame,
                self.clear_on_drop == old(self).clear_on_drop,
                self.released == old(self).released,
                old(self).wf(),
                forall|j: int| 0 <= j < self.pixels@.len() ==> (#[trigger] self.pixels@[j]).wf(),
                forall|j: int|
                    0 <= j < i ==> (#[trigger] self.pixels@[j])@ == relit(
                        old(self).pixels@[j]@,
                        brightness,
                    ),
                forall|j: int|
                    i <= j < self.pixels@.len() ==> #[trigger] self.pixels@[j] == old(
                        self,
                    ).pixels@[j],
            decreases self.pixels@.len() - i,
        {
            self.pixels[i].set_brightness(brightness);
            i += 1;
        }
        assert(self@.pixels =~= relit_all(old(self)@.pixels, brightness));
    }

    /// Sets the red, green and blue values to 0 for all pixels in the local
    /// buffer. Each pixel keeps its brightness.
    pub fn clear(&mut self)
        requires
            old(self).wf(),
        ensures
            final(self).wf(),
            final(self)@ == (State {
                pixels: recolored_all(old(self)@.pixels, 0, 0, 0),
                ..old(self)@
            }),
    {
        self.set_all_pixels(0, 0, 0);
    }

    /// Sends the contents of the local buffer to the pixels, updating their
    /// LED colors and brightness: the start frame, the frame of each pixel
    /// from the nearest on, the end frame, and then whatever the transport
    /// still has queued.
    ///
    /// The host performs the commands in order and stops at the first that
    /// fails.
    pub fn show(&mut self) -> (out: Vec<Command>)
        requires
            old(self).wf(),
        ensures
            final(self).wf(),
            final(self)@ == old(self)@,
            out.deep_view() == show_signals(old(self)@.medium, old(self)@.pixels),
    {
        let ghost medium = self@.medium;
        let ghost pixels = self@.pixels;
        let ghost nothing = Seq::<u8>::empty();

        // Start frame (32*0).
        let start: [u8; START_FRAME_BYTES] = [0u8;START_FRAME_BYTES];
        let mut out = self.serial_output.write(&start);

        // LED frames (3*1, 5*brightness, 8*blue, 8*green, 8*red).
        let mut i: usize = 0;
        while i < self.pixels.len()
            invariant
                i <= self.pixels@.len(),
                self.pixels == old(self).pixels,
                self.end_frame == old(self).end_frame,
                self.clear_on_drop == old(self).clear_on_drop,
                self.released == old(self).released,
                old(self).wf(),
                medium == old(self)@.medium,
                pixels == old(self)@.pixels,
                nothing == Seq::<u8>::empty(),
                self.serial_output.wf(),
                self.serial_output.medium() == medium,
                self.serial_output.queued() == write_queued(
                    medium,
                    nothing,
                    zeros(START_FRAME_BYTES as nat) + pixel_frames(pixels.take(i as int)),
                ),
                out.deep_view() == write_signals(
                    medium,
                    nothing,
                    zeros(START_FRAME_BYTES as nat) + pixel_frames(pixels.take(i as int)),
                ),
            decreases self.pixels@.len() - i,
        {
            let ghost sent = zeros(START_FRAME_BYTES as nat) + pixel_frames(
                pixels.take(i as int),
            );
            let mut part = self.serial_output.write(self.pixels[i].bytes());
            out.append(&mut part);
            proof {
                lemma_write_append(medium, nothing, sent, pixels[i as int]);
                lemma_pixel_frames_push(pixels.take(i as int), pixels[i as int]);
                assert(sent + pixels[i as int] =~= zeros(START_FRAME_BYTES as nat) + pixel_frames(
                    pixels.take(i + 1),
                ));
            }
            i += 1;
        }

        // End frame (8*0 for every 16 pixels, 32*0 SK9822 reset frame).
        // The SK9822 won't update any pixels until it receives the next
        // start frame (32*0). The APA102 doesn't care if we send zeroes
        // instead of ones as the end frame. This workaround is
        // compatible with both the APA102 and SK9822.
        let ghost sent = zeros(START_FRAME_BYTES as nat) + pixel_frames(pixels);
        let mut part = self.serial_output.write(self.end_frame.as_slice());
        out.append(&mut part);
        proof {
            assert(pixels.take(i as int) =~= pixels);
            lemma_write_append(medium, nothing, sent, self.end_frame@);
        }

        let mut part = self.serial_output.flush();
        out.append(&mut part);
        proof {
            lemma_show_writes_and_flushes(medium, pixels);
        }
        out
    }

    /// Releases the device: turns the pixels off, unless that was disabled,
    /// and returns the peripheral to its neutral state. Only the first call
    /// does this; any later one asks for nothing.
    pub fn cleanup(&mut self) -> (teardown: Teardown)
        requires
            old(self).wf(),
        ensures
            final(self).wf(),
            final(self)@.released,
            final(self)@.medium == old(self)@.medium,
            final(self)@.clear_on_drop == old(self)@.clear_on_drop,
            final(self)@.pixels == if !old(self)@.released && old(self)@.clear_on_drop {
                recolored_all(old(self)@.pixels, 0, 0, 0)
            } else {
                old(self)@.pixels
            },
            teardown.render.deep_view() == if !old(self)@.released && old(self)@.clear_on_drop {
                show_signals(old(self)@.medium, recolored_all(old(self)@.pixels, 0, 0, 0))
            } else {
                Seq::<Signal>::empty()
            },
            teardown.release.deep_view() == if !old(self)@.released {
                release_signals(old(self)@.medium)
            } else {
                Seq::<Signal>::empty()
            },
    {
        if self.released {
            return Teardown { render: Vec::new(), release: Vec::new() };
        }
        let render = if self.clear_on_drop {
            self.clear();
            self.show()
        } else {
            Vec::new()
        };
        let release = self.serial_output.cleanup();
        self.released = true;
        Teardown { render, release }
    }
}

} // verus!
