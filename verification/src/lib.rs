//! Driver core for APA102 and SK9822 pixel strips, such as the Pimoroni Blinkt!.
//!
//! The crate keeps the pixel buffer, encodes it into the frame that the LED
//! driver ICs expect, and turns that frame into the operations a host has to
//! perform on its GPIO lines or its SPI bus. It performs no I/O itself: every
//! function that would touch the hardware returns a list of [`Command`]s
//! instead, and the host carries them out in order.

pub mod command;
pub mod device;
pub mod frame;
pub mod gpio;
pub mod pixel;
pub mod serial;
pub mod spi;
pub mod wire;

pub use crate::command::{Command, Level};
pub use crate::device::{Blinkt, Release, Teardown, release_result};
pub use crate::gpio::BlinktGpio;
pub use crate::pixel::Pixel;
pub use crate::serial::{SerialOutput, Transport};
pub use crate::spi::BlinktSpi;
