//! What reaches the pixels: the bytes that a list of signals carries, read
//! the way the LED drivers read them.

use vstd::prelude::*;
use crate::command::{Level, Signal, level_of};
use crate::gpio::{bit_at, bitbang_signals, lemma_bitbang_append};
use crate::serial::{Medium, flush_signals, setup_signals, write_queued, write_signals};
use crate::spi::{chunk, full_transfers, remainder};

verus! {

/// A data line and a clock line, and the bits that were taken off them.
pub struct Lines {
    /// Level of the data line.
    pub data: Level,
    /// Level of the clock line.
    pub clock: Level,
    /// The bits clocked in so far, oldest first.
    pub bits: Seq<bool>,
}

/// Both lines low and no bit taken: the lines as `setup` leaves them.
pub open spec fn idle() -> Lines {
    Lines { data: Level::Low, clock: Level::Low, bits: Seq::empty() }
}

/// The lines after one signal. A driver takes the level of the data line as
/// the next bit whenever the clock line rises.
pub open spec fn after_signal(lines: Lines, data_pin: u8, clock_pin: u8, signal: Signal) -> Lines {
    match signal {
        Signal::WritePin { pin, level } => {
            if pin == clock_pin {
                if lines.clock == Level::Low && level == Level::High {
                    Lines {
                        clock: level,
                        bits: lines.bits.push(lines.data == Level::High),
                        ..lines
                    }
                } else {
                    Lines { clock: level, ..lines }
                }
            } else if pin == data_pin {
                Lines { data: level, ..lines }
            } else {
                lines
            }
        },
        _ => lines,
    }
}

/// The lines after a list of signals, performed in order.
pub open spec fn after_signals(
    lines: Lines,
    data_pin: u8,
    clock_pin: u8,
    signals: Seq<Signal>,
) -> Lines
    decreases signals.len(),
{
    if signals.len() == 0 {
        lines
    } else {
        after_signal(
            after_signals(lines, data_pin, clock_pin, signals.drop_last()),
            data_pin,
            clock_pin,
            signals.last(),
        )
    }
}

/// The value of a bit in the place that weighs `weight`.
pub open spec fn place(bit: bool, weight: int) -> int {
    if bit {
        weight
    } else {
        0
    }
}

/// The byte made of eight bits, most significant first.
pub open spec fn byte_of(bits: Seq<bool>) -> u8 {
    (place(bits[0], 128) + place(bits[1], 64) + place(bits[2], 32) + place(bits[3], 16) + place(
        bits[4],
        8,
    ) + place(bits[5], 4) + place(bits[6], 2) + place(bits[7], 1)) as u8
}

/// The bytes made of a run of bits, eight to the byte; bits that do not fill
/// a byte are left out.
pub open spec fn bytes_of(bits: Seq<bool>) -> Seq<u8> {
    Seq::new(bits.len() / 8, |i: int| byte_of(bits.subrange(8 * i, 8 * i + 8)))
}

/// The bits of a byte, most significant first.
pub open spec fn byte_bits(byte: u8) -> Seq<bool> {
    Seq::new(8, |j: int| bit_at(byte, j))
}

/// The bits of a run of bytes, each byte most significant bit first.
pub open spec fn bits_of(data: Seq<u8>) -> Seq<bool> {
    Seq::new(8 * data.len(), |i: int| bit_at(data[i / 8], i % 8))
}

/// What a signal sends over the bus.
pub open spec fn payload(signal: Signal) -> Seq<u8> {
    match signal {
        Signal::Transfer { data } => data,
        _ => Seq::empty(),
    }
}

/// The bytes that a list of signals sends over the bus, in order.
pub open spec fn transferred(signals: Seq<Signal>) -> Seq<u8>
    decreases signals.len(),
{
    if signals.len() == 0 {
        Seq::empty()
    } else {
        transferred(signals.drop_last()) + payload(signals.last())
    }
}

/// The bytes that reach the pixels when the signals are performed in order on
/// a medium that `setup` has prepared.
pub open spec fn delivered(medium: Medium, signals: Seq<Signal>) -> Seq<u8> {
    match medium {
        Medium::Lines { data_pin, clock_pin } => bytes_of(
            after_signals(idle(), data_pin, clock_pin, signals).bits,
        ),
        Medium::Bus { .. } => transferred(signals),
    }
}

/// Whether a medium can carry data at all: lines must be two different pins.
pub open spec fn usable(medium: Medium) -> bool {
    match medium {
        Medium::Lines { data_pin, clock_pin } => data_pin != clock_pin,
        Medium::Bus { .. } => true,
    }
}

/// Performing one list of signals after another is performing the two in a
/// row.
pub proof fn lemma_after_append(
    lines: Lines,
    data_pin: u8,
    clock_pin: u8,
    first: Seq<Signal>,
    second: Seq<Signal>,
)
    ensures
        after_signals(lines, data_pin, clock_pin, first + second) == after_signals(
            after_signals(lines, data_pin, clock_pin, first),
            data_pin,
            clock_pin,
            second,
        ),
    decreases second.len(),
{
    if second.len() > 0 {
        assert((first + second).drop_last() =~= first + second.drop_last());
        lemma_after_append(lines, data_pin, clock_pin, first, second.drop_last());
    }
}

/// Setting up lines leaves both low, whatever they were, and hands no bit
/// over.
pub proof fn lemma_setup_idles_lines(lines: Lines, data_pin: u8, clock_pin: u8)
    requires
        data_pin != clock_pin,
    ensures
        after_signals(
            lines,
            data_pin,
            clock_pin,
            setup_signals(Medium::Lines { data_pin, clock_pin }),
        ) == (Lines { data: Level::Low, clock: Level::Low, bits: lines.bits }),
{
    let five = setup_signals(Medium::Lines { data_pin, clock_pin });
    let four = five.drop_last();
    let three = four.drop_last();
    let two = three.drop_last();
    let one = two.drop_last();
    assert(after_signals(lines, data_pin, clock_pin, one.drop_last()) == lines);
    assert(after_signals(lines, data_pin, clock_pin, one) == lines);
    assert(after_signals(lines, data_pin, clock_pin, two) == lines);
    assert(after_signals(lines, data_pin, clock_pin, three) == (Lines {
        data: Level::Low,
        ..lines
    }));
    assert(after_signals(lines, data_pin, clock_pin, four) == (Lines {
        data: Level::Low,
        ..lines
    }));
}

/// Setting the data line and pulsing the clock hands one bit over and leaves
/// the clock low.
proof fn lemma_clock_bit(lines: Lines, data_pin: u8, clock_pin: u8, bit: bool)
    requires
        data_pin != clock_pin,
        lines.clock == Level::Low,
    ensures
        after_signals(
            lines,
            data_pin,
            clock_pin,
            seq![
                Signal::WritePin { pin: data_pin, level: level_of(bit) },
                Signal::WritePin { pin: clock_pin, level: Level::High },
                Signal::WritePin { pin: clock_pin, level: Level::Low },
            ],
        ) == (Lines { data: level_of(bit), clock: Level::Low, bits: lines.bits.push(bit) }),
{
    let set = Signal::WritePin { pin: data_pin, level: level_of(bit) };
    let rise = Signal::WritePin { pin: clock_pin, level: Level::High };
    let fall = Signal::WritePin { pin: clock_pin, level: Level::Low };
    let three = seq![set, rise, fall];
    let two = seq![set, rise];
    let one = seq![set];
    assert(three.drop_last() =~= two);
    assert(two.drop_last() =~= one);
    assert(after_signals(lines, data_pin, clock_pin, one.drop_last()) == lines);
    assert(after_signals(lines, data_pin, clock_pin, one) == (Lines {
        data: level_of(bit),
        ..lines
    }));
    assert(after_signals(lines, data_pin, clock_pin, two) == (Lines {
        data: level_of(bit),
        clock: Level::High,
        bits: lines.bits.push(bit),
    }));
}

/// Clocking out the first `n` bits of a byte hands those bits over.
proof fn lemma_clock_bits(lines: Lines, data_pin: u8, clock_pin: u8, byte: u8, n: nat)
    requires
        data_pin != clock_pin,
        lines.clock == Level::Low,
        n <= 8,
    ensures
        after_signals(
            lines,
            data_pin,
            clock_pin,
            bitbang_signals(data_pin, clock_pin, seq![byte]).take(3 * (n as int)),
        ).clock == Level::Low,
        after_signals(
            lines,
            data_pin,
            clock_pin,
            bitbang_signals(data_pin, clock_pin, seq![byte]).take(3 * (n as int)),
        ).bits == lines.bits + byte_bits(byte).take(n as int),
    decreases n,
{
    let all = bitbang_signals(data_pin, clock_pin, seq![byte]);
    if n > 0 {
        let m = (n - 1) as nat;
        lemma_clock_bits(lines, data_pin, clock_pin, byte, m);
        let before = after_signals(lines, data_pin, clock_pin, all.take(3 * (m as int)));
        let bit = bit_at(byte, m as int);
        let pulse = seq![
            Signal::WritePin { pin: data_pin, level: level_of(bit) },
            Signal::WritePin { pin: clock_pin, level: Level::High },
            Signal::WritePin { pin: clock_pin, level: Level::Low },
        ];
        assert(all.take(3 * (n as int)) =~= all.take(3 * (m as int)) + pulse);
        lemma_after_append(lines, data_pin, clock_pin, all.take(3 * (m as int)), pulse);
        lemma_clock_bit(before, data_pin, clock_pin, bit);
    }
}

/// Clocking out a run of bytes hands their bits over, each byte most
/// significant bit first, and leaves the clock low.
pub proof fn lemma_clock_bytes(lines: Lines, data_pin: u8, clock_pin: u8, data: Seq<u8>)
    requires
        data_pin != clock_pin,
        lines.clock == Level::Low,
    ensures
        after_signals(
            lines,
            data_pin,
            clock_pin,
            bitbang_signals(data_pin, clock_pin, data),
        ).clock == Level::Low,
        after_signals(
            lines,
            data_pin,
            clock_pin,
            bitbang_signals(data_pin, clock_pin, data),
        ).bits == lines.bits + bits_of(data),
    decreases data.len(),
{
    if data.len() > 0 {
        let head = data.drop_last();
        let last = seq![data.last()];
        assert(data =~= head + last);
        lemma_bitbang_append(data_pin, clock_pin, head, last);
        lemma_clock_bytes(lines, data_pin, clock_pin, head);
        let before = after_signals(
            lines,
            data_pin,
            clock_pin,
            bitbang_signals(data_pin, clock_pin, head),
        );
        lemma_after_append(
            lines,
            data_pin,
            clock_pin,
            bitbang_signals(data_pin, clock_pin, head),
            bitbang_signals(data_pin, clock_pin, last),
        );
        lemma_clock_bits(before, data_pin, clock_pin, data.last(), 8);
        let one = bitbang_signals(data_pin, clock_pin, last);
        assert(one.take(24) =~= one);
    }
}

/// Eight bits taken from a byte, most significant first, make up the byte.
pub proof fn lemma_byte_of_bits(byte: u8)
    ensures
        byte_of(byte_bits(byte)) == byte,
{
    assert(byte == (if (byte / 128u8) % 2u8 == 1u8 { 128int } else { 0 })
        + (if (byte / 64u8) % 2u8 == 1u8 { 64int } else { 0 })
        + (if (byte / 32u8) % 2u8 == 1u8 { 32int } else { 0 })
        + (if (byte / 16u8) % 2u8 == 1u8 { 16int } else { 0 })
        + (if (byte / 8u8) % 2u8 == 1u8 { 8int } else { 0 })
        + (if (byte / 4u8) % 2u8 == 1u8 { 4int } else { 0 })
        + (if (byte / 2u8) % 2u8 == 1u8 { 2int } else { 0 })
        + (if (byte / 1u8) % 2u8 == 1u8 { 1int } else { 0 })) by (bit_vector);
}

/// The bits of a run of bytes, read eight to the byte, make up the bytes.
pub proof fn lemma_bytes_of_bits(data: Seq<u8>)
    ensures
        bytes_of(bits_of(data)) == data,
{
    assert forall|i: int| 0 <= i < data.len() implies bytes_of(bits_of(data))[i] == data[i] by {
        lemma_byte_of_bits(data[i]);
    }
}

/// What two lists of signals send over the bus is what the first sends
/// followed by what the second sends.
pub proof fn lemma_transferred_append(first: Seq<Signal>, second: Seq<Signal>)
    ensures
        transferred(first + second) == transferred(first) + transferred(second),
    decreases second.len(),
{
    if second.len() > 0 {
        assert((first + second).drop_last() =~= first + second.drop_last());
        lemma_transferred_append(first, second.drop_last());
    }
}

/// The full transmissions of a stream send the stream up to what is left
/// over.
pub proof fn lemma_full_transfers_send(stream: Seq<u8>)
    ensures
        transferred(full_transfers(stream)) + remainder(stream) == stream,
    decreases stream.len(),
{
    let c = stream.len() as int / 4096;
    if c > 0 {
        let head = stream.take(4096 * (c - 1));
        assert(forall|k: int| 0 <= k < c - 1 ==> #[trigger] chunk(stream, k) == chunk(head, k));
        assert(full_transfers(stream).drop_last() =~= full_transfers(head));
        lemma_full_transfers_send(head);
    }
}

/// Whatever is written, what the host is handed carries it to the pixels in
/// the order given, but for the bytes that stay queued.
pub proof fn lemma_write_delivers(medium: Medium, queued: Seq<u8>, data: Seq<u8>)
    requires
        usable(medium),
        medium is Lines ==> queued.len() == 0,
    ensures
        delivered(medium, write_signals(medium, queued, data)) + write_queued(medium, queued, data)
            == queued + data,
{
    match medium {
        Medium::Lines { data_pin, clock_pin } => {
            lemma_clock_bytes(idle(), data_pin, clock_pin, data);
            lemma_bytes_of_bits(data);
        },
        Medium::Bus { .. } => {
            lemma_full_transfers_send(queued + data);
        },
    }
}

/// Writing and then flushing carries every byte to the pixels: nothing is
/// lost, added or reordered.
pub proof fn lemma_write_flush_delivers(medium: Medium, queued: Seq<u8>, data: Seq<u8>)
    requires
        usable(medium),
        medium is Lines ==> queued.len() == 0,
    ensures
        delivered(
            medium,
            write_signals(medium, queued, data) + flush_signals(
                medium,
                write_queued(medium, queued, data),
            ),
        ) == queued + data,
{
    lemma_write_delivers(medium, queued, data);
    if medium is Bus {
        let flushed = flush_signals(medium, write_queued(medium, queued, data));
        lemma_transferred_append(write_signals(medium, queued, data), flushed);
        if flushed.len() > 0 {
            assert(transferred(flushed.drop_last()) =~= Seq::<u8>::empty());
        }
    }
}

} // verus!
