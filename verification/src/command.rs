//! What the library hands to the host: operations on GPIO lines and on the
//! SPI bus, to be carried out in the order given.

use vstd::prelude::*;

verus! {

/// Logic level of a GPIO line.
#[derive(Clone, Copy, Debug, PartialEq, Eq, Structural)]
pub enum Level {
    Low,
    High,
}

/// One operation for the host to perform on the hardware.
#[derive(Debug, PartialEq, Eq)]
pub enum Command {
    /// Take hold of the GPIO peripheral.
    Acquire,
    /// Make a GPIO pin an output.
    SetOutput { pin: u8 },
    /// Drive a GPIO pin to a logic level.
    WritePin { pin: u8, level: Level },
    /// Give the GPIO pins back in the mode they were found in.
    ReleasePins,
    /// Open an SPI bus for writing.
    OpenBus { bus: u8, slave_select: u8, clock_speed_hz: u32, mode: u8 },
    /// Send the bytes over the SPI bus as one transmission.
    Transfer { data: Vec<u8> },
}

/// A command as a mathematical value.
pub enum Signal {
    Acquire,
    SetOutput { pin: u8 },
    WritePin { pin: u8, level: Level },
    ReleasePins,
    OpenBus { bus: u8, slave_select: u8, clock_speed_hz: u32, mode: u8 },
    Transfer { data: Seq<u8> },
}

impl DeepView for Command {
    type V = Signal;

    open spec fn deep_view(&self) -> Signal {
        match *self {
            Command::Acquire => Signal::Acquire,
            Command::SetOutput { pin } => Signal::SetOutput { pin },
            Command::WritePin { pin, level } => Signal::WritePin { pin, level },
            Command::ReleasePins => Signal::ReleasePins,
            Command::OpenBus { bus, slave_select, clock_speed_hz, mode } => Signal::OpenBus {
                bus,
                slave_select,
                clock_speed_hz,
                mode,
            },
            Command::Transfer { data } => Signal::Transfer { data: data@ },
        }
    }
}

/// The level that stands for a bit: high for one, low for zero.
pub open spec fn level_of(bit: bool) -> Level {
    if bit {
        Level::High
    } else {
        Level::Low
    }
}

/// Pushing a command onto a list pushes its signal onto the list's signals.
pub proof fn lemma_push_signal(before: Vec<Command>, after: Vec<Command>, command: Command)
    requires
        after@ == before@.push(command),
    ensures
        after.deep_view() == before.deep_view().push(command.deep_view()),
{
}

} // verus!
