//! The contract that both transports share, stated over the medium they
//! drive and the bytes they have queued.

use vstd::prelude::*;
use crate::command::{Command, Level, Signal};
use crate::gpio::{BlinktGpio, bitbang_signals, lemma_bitbang_append};
use crate::spi::{
    BlinktSpi,
    SPI_BUFFER_BYTES,
    flush_transfers,
    full_transfers,
    lemma_stream_append,
    lemma_stream_fills_buffer,
    remainder,
};

verus! {

/// SPI bus that the hardware transport sends on.
pub const SPI_BUS: u8 = 0;

/// Slave Select line that the hardware transport sends on.
pub const SPI_SLAVE_SELECT: u8 = 0;

/// SPI mode that the hardware transport sends in.
pub const SPI_MODE: u8 = 0;

/// What a transport drives, with the settings it was made with.
pub enum Medium {
    /// A data line and a clock line, driven bit by bit.
    Lines { data_pin: u8, clock_pin: u8 },
    /// The SPI bus, which takes whole runs of bytes.
    Bus { clock_speed_hz: u32 },
}

/// What prepares the medium: both lines made outputs and driven low, or the
/// bus opened at the clock speed.
pub open spec fn setup_signals(medium: Medium) -> Seq<Signal> {
    match medium {
        Medium::Lines { data_pin, clock_pin } => seq![
            Signal::Acquire,
            Signal::SetOutput { pin: data_pin },
            Signal::WritePin { pin: data_pin, level: Level::Low },
            Signal::SetOutput { pin: clock_pin },
            Signal::WritePin { pin: clock_pin, level: Level::Low },
        ],
        Medium::Bus { clock_speed_hz } => seq![
            Signal::OpenBus {
                bus: SPI_BUS,
                slave_select: SPI_SLAVE_SELECT,
                clock_speed_hz,
                mode: SPI_MODE,
            },
        ],
    }
}

/// What writing `data` hands to the host, with `queued` waiting from before:
/// on lines every bit at once, on the bus each transmission that is filled.
pub open spec fn write_signals(medium: Medium, queued: Seq<u8>, data: Seq<u8>) -> Seq<Signal> {
    match medium {
        Medium::Lines { data_pin, clock_pin } => bitbang_signals(data_pin, clock_pin, data),
        Medium::Bus { .. } => full_transfers(queued + data),
    }
}

/// What is queued after writing `data`, with `queued` waiting from before.
pub open spec fn write_queued(medium: Medium, queued: Seq<u8>, data: Seq<u8>) -> Seq<u8> {
    match medium {
        Medium::Lines { .. } => queued,
        Medium::Bus { .. } => remainder(queued + data),
    }
}

/// What flushing hands to the host: on the bus one transmission of what is
/// queued, if anything is; on lines nothing.
pub open spec fn flush_signals(medium: Medium, queued: Seq<u8>) -> Seq<Signal> {
    match medium {
        Medium::Lines { .. } => Seq::empty(),
        Medium::Bus { .. } => flush_transfers(queued),
    }
}

/// What returns the medium to its neutral state: the lines are given back,
/// the bus needs nothing.
pub open spec fn release_signals(medium: Medium) -> Seq<Signal> {
    match medium {
        Medium::Lines { .. } => seq![Signal::ReleasePins],
        Medium::Bus { .. } => Seq::empty(),
    }
}

/// Writing in two parts hands the host the same signals, and leaves the same
/// bytes queued, as writing the whole at once.
pub proof fn lemma_write_append(medium: Medium, queued: Seq<u8>, first: Seq<u8>, second: Seq<u8>)
    ensures
        write_signals(medium, queued, first + second) == write_signals(medium, queued, first)
            + write_signals(medium, write_queued(medium, queued, first), second),
        write_queued(medium, queued, first + second) == write_queued(
            medium,
            write_queued(medium, queued, first),
            second,
        ),
{
    match medium {
        Medium::Lines { data_pin, clock_pin } => {
            lemma_bitbang_append(data_pin, clock_pin, first, second);
        },
        Medium::Bus { .. } => {
            assert(queued + (first + second) =~= (queued + first) + second);
            lemma_stream_append(queued + first, second);
        },
    }
}

/// Written to a bus transport with nothing queued, bytes that exactly fill
/// the buffer leave at once in one transmission and nothing stays queued;
/// of one byte more, the last stays queued alone.
pub proof fn lemma_write_fills_buffer(clock_speed_hz: u32, data: Seq<u8>)
    ensures
        data.len() == SPI_BUFFER_BYTES ==> {
            &&& write_signals(Medium::Bus { clock_speed_hz }, Seq::empty(), data) == seq![
                Signal::Transfer { data },
            ]
            &&& write_queued(Medium::Bus { clock_speed_hz }, Seq::empty(), data) == Seq::<
                u8,
            >::empty()
        },
        data.len() == SPI_BUFFER_BYTES + 1 ==> {
            &&& write_signals(Medium::Bus { clock_speed_hz }, Seq::empty(), data) == seq![
                Signal::Transfer { data: data.take(SPI_BUFFER_BYTES as int) },
            ]
            &&& write_queued(Medium::Bus { clock_speed_hz }, Seq::empty(), data) == seq![
                data[SPI_BUFFER_BYTES as int],
            ]
        },
{
    lemma_stream_fills_buffer(data);
}

/// A way to get bytes to the pixels. The commands a method returns are to be
/// performed in order, and before those of any later call.
pub trait SerialOutput {
    /// The transport's state is consistent.
    spec fn wf(&self) -> bool;

    /// What the transport drives.
    spec fn medium(&self) -> Medium;

    /// Bytes written that no command has carried yet.
    spec fn queued(&self) -> Seq<u8>;

    /// The commands that prepare the medium; to be performed once, before
    /// those of any other method.
    fn setup(&self) -> (out: Vec<Command>)
        requires
            self.wf(),
        ensures
            out.deep_view() == setup_signals(self.medium()),
    ;

    /// Returns the medium to its neutral state. Nothing changes in the
    /// transport, so a second call asks for the same again.
    fn cleanup(&mut self) -> (out: Vec<Command>)
        requires
            old(self).wf(),
        ensures
            final(self).wf(),
            final(self).medium() == old(self).medium(),
            final(self).queued() == old(self).queued(),
            out.deep_view() == release_signals(old(self).medium()),
    ;

    /// Forces out whatever is queued.
    fn flush(&mut self) -> (out: Vec<Command>)
        requires
            old(self).wf(),
        ensures
            final(self).wf(),
            final(self).medium() == old(self).medium(),
            final(self).queued() == Seq::<u8>::empty(),
            out.deep_view() == flush_signals(old(self).medium(), old(self).queued()),
            old(self).queued().len() == 0 ==> out@.len() == 0,
    ;

    /// Sends or queues the bytes, in the order given.
    fn write(&mut self, data: &[u8]) -> (out: Vec<Command>)
        requires
            old(self).wf(),
        ensures
            final(self).wf(),
            final(self).medium() == old(self).medium(),
            final(self).queued() == write_queued(old(self).medium(), old(self).queued(), data@),
            out.deep_view() == write_signals(old(self).medium(), old(self).queued(), data@),
    ;
}

/// Either of the two transports.
pub enum Transport {
    Gpio(BlinktGpio),
    Spi(BlinktSpi),
}

impl SerialOutput for Transport {
    open spec fn wf(&self) -> bool {
        match self {
            Transport::Gpio(gpio) => gpio.wf(),
            Transport::Spi(spi) => spi.wf(),
        }
    }

    open spec fn medium(&self) -> Medium {
        match self {
            Transport::Gpio(gpio) => gpio.medium(),
            Transport::Spi(spi) => spi.medium(),
        }
    }

    open spec fn queued(&self) -> Seq<u8> {
        match self {
            Transport::Gpio(gpio) => gpio.queued(),
            Transport::Spi(spi) => spi.queued(),
        }
    }

    fn setup(&self) -> (out: Vec<Command>) {
        match self {
            Transport::Gpio(gpio) => gpio.setup(),
            Transport::Spi(spi) => spi.setup(),
        }
    }

    fn cleanup(&mut self) -> (out: Vec<Command>) {
        match self {
            Transport::Gpio(gpio) => gpio.cleanup(),
            Transport::Spi(spi) => spi.cleanup(),
        }
    }

    fn flush(&mut self) -> (out: Vec<Command>) {
        match self {
            Transport::Gpio(gpio) => gpio.flush(),
            Transport::Spi(spi) => spi.flush(),
        }
    }

    fn write(&mut self, data: &[u8]) -> (out: Vec<Command>) {
        match self {
            Transport::Gpio(gpio) => gpio.write(data),
            Transport::Spi(spi) => spi.write(data),
        }
    }
}

} // verus!
