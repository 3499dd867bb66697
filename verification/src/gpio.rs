//! Bit-banging transport: every bit is put on the data line and clocked out
//! by a pulse on the clock line.

use vstd::prelude::*;
use crate::command::{Command, Level, Signal, level_of, lemma_push_signal};
use crate::serial::{Medium, SerialOutput};

verus! {

/// What bit `n` of a byte weighs, the bits counted from the most significant:
/// 128 for bit 0, down to 1 for bit 7.
pub open spec fn bit_weight(n: int) -> int {
    if n == 0 {
        128
    } else if n == 1 {
        64
    } else if n == 2 {
        32
    } else if n == 3 {
        16
    } else if n == 4 {
        8
    } else if n == 5 {
        4
    } else if n == 6 {
        2
    } else {
        1
    }
}

/// Bit `n` of a byte, counted from the most significant bit.
pub open spec fn bit_at(byte: u8, n: int) -> bool {
    (byte as int / bit_weight(n)) % 2 == 1
}

/// A byte has bit `n` exactly if the mask with a one shifted up to that
/// place finds something in it.
pub proof fn lemma_mask_finds_bit(byte: u8, n: u8)
    requires
        n < 8,
    ensures
        (byte & (1u8 << ((7 - n) as u8))) > 0 <==> bit_at(byte, n as int),
{
    if n == 0 {
        assert((byte & (1u8 << 7u8)) > 0 <==> (byte / 128u8) % 2u8 == 1u8) by (bit_vector);
    } else if n == 1 {
        assert((byte & (1u8 << 6u8)) > 0 <==> (byte / 64u8) % 2u8 == 1u8) by (bit_vector);
    } else if n == 2 {
        assert((byte & (1u8 << 5u8)) > 0 <==> (byte / 32u8) % 2u8 == 1u8) by (bit_vector);
    } else if n == 3 {
        assert((byte & (1u8 << 4u8)) > 0 <==> (byte / 16u8) % 2u8 == 1u8) by (bit_vector);
    } else if n == 4 {
        assert((byte & (1u8 << 3u8)) > 0 <==> (byte / 8u8) % 2u8 == 1u8) by (bit_vector);
    } else if n == 5 {
        assert((byte & (1u8 << 2u8)) > 0 <==> (byte / 4u8) % 2u8 == 1u8) by (bit_vector);
    } else if n == 6 {
        assert((byte & (1u8 << 1u8)) > 0 <==> (byte / 2u8) % 2u8 == 1u8) by (bit_vector);
    } else {
        assert((byte & (1u8 << 0u8)) > 0 <==> (byte / 1u8) % 2u8 == 1u8) by (bit_vector);
    }
}

/// Signal number `i` of those that clock `data` out: three for each bit, the
/// bit's level on the data line, then the clock line high, then low; the bits
/// of a byte from the most significant down, the bytes in order.
pub open spec fn bitbang_signal(data_pin: u8, clock_pin: u8, data: Seq<u8>, i: int) -> Signal {
    if i % 3 == 0 {
        Signal::WritePin {
            pin: data_pin,
            level: level_of(bit_at(data[i / 24], (i % 24) / 3)),
        }
    } else if i % 3 == 1 {
        Signal::WritePin { pin: clock_pin, level: Level::High }
    } else {
        Signal::WritePin { pin: clock_pin, level: Level::Low }
    }
}

/// The signals that clock `data` out over the two lines.
pub open spec fn bitbang_signals(data_pin: u8, clock_pin: u8, data: Seq<u8>) -> Seq<Signal> {
    Seq::new(24 * data.len(), |i: int| bitbang_signal(data_pin, clock_pin, data, i))
}

/// Clocking out one run of bytes after another gives the signals of the
/// first followed by those of the second.
pub proof fn lemma_bitbang_append(data_pin: u8, clock_pin: u8, first: Seq<u8>, second: Seq<u8>)
    ensures
        bitbang_signals(data_pin, clock_pin, first + second) == bitbang_signals(
            data_pin,
            clock_pin,
            first,
        ) + bitbang_signals(data_pin, clock_pin, second),
{
    let joined = bitbang_signals(data_pin, clock_pin, first + second);
    let parts = bitbang_signals(data_pin, clock_pin, first) + bitbang_signals(
        data_pin,
        clock_pin,
        second,
    );
    assert forall|i: int| 0 <= i < joined.len() implies joined[i] == parts[i] by {
        if i >= 24 * first.len() {
            let j = i - 24 * first.len();
            assert(i / 24 == j / 24 + first.len());
            assert(i % 24 == j % 24 && i % 3 == j % 3);
        }
    }
}

/// Transport that drives a data line and a clock line bit by bit.
pub struct BlinktGpio {
    pin_data: u8,
    pin_clock: u8,
}

impl BlinktGpio {
    /// A transport on the two pins, named by their BCM GPIO numbers.
    pub fn with_settings(pin_data: u8, pin_clock: u8) -> (gpio: BlinktGpio)
        ensures
            gpio.wf(),
            gpio.medium() == (Medium::Lines { data_pin: pin_data, clock_pin: pin_clock }),
            gpio.queued() == Seq::<u8>::empty(),
    {
        BlinktGpio { pin_data, pin_clock }
    }

    /// The pin that carries the data.
    pub fn pin_data(&self) -> (pin: u8)
        ensures
            self.medium() matches Medium::Lines { data_pin, .. } && pin == data_pin,
    {
        self.pin_data
    }

    /// The pin that carries the clock.
    pub fn pin_clock(&self) -> (pin: u8)
        ensures
            self.medium() matches Medium::Lines { clock_pin, .. } && pin == clock_pin,
    {
        self.pin_clock
    }
}

impl SerialOutput for BlinktGpio {
    open spec fn wf(&self) -> bool {
        true
    }

    closed spec fn medium(&self) -> Medium {
        Medium::Lines { data_pin: self.pin_data, clock_pin: self.pin_clock }
    }

    open spec fn queued(&self) -> Seq<u8> {
        Seq::empty()
    }

    /// Takes hold of the GPIO peripheral, makes both pins outputs and drives
    /// them low.
    fn setup(&self) -> (out: Vec<Command>) {
        let mut out: Vec<Command> = Vec::new();
        out.push(Command::Acquire);
        out.push(Command::SetOutput { pin: self.pin_data });
        out.push(Command::WritePin { pin: self.pin_data, level: Level::Low });
        out.push(Command::SetOutput { pin: self.pin_clock });
        out.push(Command::WritePin { pin: self.pin_clock, level: Level::Low });
        out
    }

    /// Gives the pins back in the mode they were found in.
    fn cleanup(&mut self) -> (out: Vec<Command>) {
        let mut out: Vec<Command> = Vec::new();
        out.push(Command::ReleasePins);
        out
    }

    /// Nothing is ever queued, so there is nothing to force out.
    fn flush(&mut self) -> (out: Vec<Command>) {
        Vec::new()
    }

    /// Clocks the bytes out: for each bit, most significant first, the data
    /// line is set to the bit and the clock line pulsed high, then low.
    fn write(&mut self, data: &[u8]) -> (out: Vec<Command>) {
        let mut out: Vec<Command> = Vec::new();
        let ghost all = bitbang_signals(self.pin_data, self.pin_clock, data@);
        proof {
            assert(out.deep_view() =~= all.take(0));
        }
        let mut i: usize = 0;
        while i < data.len()
            invariant
                i <= data.len(),
                all == bitbang_signals(self.pin_data, self.pin_clock, data@),
                out.deep_view() == all.take(24 * i),
            decreases data.len() - i,
        {
            let byte: u8 = data[i];
            let mut n: u8 = 0;
            while n < 8
                invariant
                    i < data.len(),
                    n <= 8,
                    byte == data@[i as int],
                    all == bitbang_signals(self.pin_data, self.pin_clock, data@),
                    out.deep_view() == all.take(24 * i + 3 * n),
                decreases 8 - n,
            {
                let mask: u8 = 1u8 << (7 - n);
                proof {
                    lemma_mask_finds_bit(byte, n);
                }
                let level = if (byte & mask) > 0 {
                    Level::High
                } else {
                    Level::Low
                };
                let ghost before = out;
                out.push(Command::WritePin { pin: self.pin_data, level });
                proof {
                    lemma_push_signal(before, out, Command::WritePin { pin: self.pin_data, level });
                }
                let ghost before = out;
                out.push(Command::WritePin { pin: self.pin_clock, level: Level::High });
                proof {
                    lemma_push_signal(
                        before,
                        out,
                        Command::WritePin { pin: self.pin_clock, level: Level::High },
                    );
                }
                let ghost before = out;
                out.push(Command::WritePin { pin: self.pin_clock, level: Level::Low });
                proof {
                    lemma_push_signal(
                        before,
                        out,
                        Command::WritePin { pin: self.pin_clock, level: Level::Low },
                    );
                }
                n += 1;
            }
            i += 1;
        }
        out
    }
}

} // verus!
