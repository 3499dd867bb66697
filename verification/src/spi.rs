//! Hardware SPI transport: bytes are collected in a buffer of fixed size and
//! sent over the bus one full buffer at a time.

use vstd::prelude::*;
use crate::command::{Command, Signal};
use crate::serial::{Medium, SerialOutput, SPI_BUS, SPI_MODE, SPI_SLAVE_SELECT};

verus! {

/// The most bytes that the bus takes in one transmission, and so the size of
/// the buffer.
pub const SPI_BUFFER_BYTES: usize = 4096;

/// The `k`-th run of `SPI_BUFFER_BYTES` bytes in a stream.
pub open spec fn chunk(stream: Seq<u8>, k: int) -> Seq<u8> {
    stream.subrange(SPI_BUFFER_BYTES * k, SPI_BUFFER_BYTES * k + SPI_BUFFER_BYTES)
}

/// The transmissions that a stream of bytes fills completely, in order.
pub open spec fn full_transfers(stream: Seq<u8>) -> Seq<Signal> {
    Seq::new(
        stream.len() / (SPI_BUFFER_BYTES as nat),
        |k: int| Signal::Transfer { data: chunk(stream, k) },
    )
}

/// What is left of a stream of bytes after its full transmissions.
pub open spec fn remainder(stream: Seq<u8>) -> Seq<u8> {
    stream.skip(stream.len() - stream.len() % (SPI_BUFFER_BYTES as nat))
}

/// The transmission that empties a buffer holding `queued`: none where
/// nothing is queued.
pub open spec fn flush_transfers(queued: Seq<u8>) -> Seq<Signal> {
    if queued.len() == 0 {
        Seq::empty()
    } else {
        seq![Signal::Transfer { data: queued }]
    }
}

/// A stream cut into transmissions: runs of `SPI_BUFFER_BYTES` bytes, and a
/// shorter last one where the stream does not end on such a run.
pub open spec fn transfers(stream: Seq<u8>) -> Seq<Signal> {
    Seq::new(
        ((stream.len() + SPI_BUFFER_BYTES - 1) / (SPI_BUFFER_BYTES as int)) as nat,
        |k: int|
            Signal::Transfer {
                data: stream.subrange(
                    SPI_BUFFER_BYTES * k,
                    if SPI_BUFFER_BYTES * k + SPI_BUFFER_BYTES <= stream.len() {
                        SPI_BUFFER_BYTES * k + SPI_BUFFER_BYTES
                    } else {
                        stream.len() as int
                    },
                ),
            },
    )
}

/// Writing a stream to an empty buffer and flushing cuts the stream into
/// transmissions.
pub proof fn lemma_transfers_split(stream: Seq<u8>)
    ensures
        transfers(stream) == full_transfers(stream) + flush_transfers(remainder(stream)),
{
    let n = stream.len() as int;
    let parts = full_transfers(stream) + flush_transfers(remainder(stream));
    assert(transfers(stream).len() == parts.len());
    assert forall|k: int| 0 <= k < transfers(stream).len() implies transfers(stream)[k]
        == parts[k] by {
        if k == n / 4096 {
            assert(stream.subrange(4096 * k, n) =~= remainder(stream));
        }
    }
}

/// Adding one byte to a stream either lengthens what is left over, or
/// completes one more transmission and leaves nothing over.
pub proof fn lemma_stream_push(stream: Seq<u8>, byte: u8)
    ensures
        (stream.len() + 1) % (SPI_BUFFER_BYTES as nat) != 0 ==> {
            &&& full_transfers(stream.push(byte)) == full_transfers(stream)
            &&& remainder(stream.push(byte)) == remainder(stream).push(byte)
        },
        (stream.len() + 1) % (SPI_BUFFER_BYTES as nat) == 0 ==> {
            &&& full_transfers(stream.push(byte)) == full_transfers(stream).push(
                Signal::Transfer { data: remainder(stream).push(byte) },
            )
            &&& remainder(stream.push(byte)) == Seq::<u8>::empty()
        },
{
    let longer = stream.push(byte);
    let n = stream.len() as int;
    assert(forall|k: int| 0 <= k < n / 4096 ==> #[trigger] chunk(longer, k) == chunk(stream, k));
    if (n + 1) % 4096 == 0 {
        assert(chunk(longer, n / 4096) =~= remainder(stream).push(byte));
    }
}

/// Writing to a stream goes by what the stream has left over: the full
/// transmissions of the longer stream are those of the stream, followed by
/// those that the left-over bytes and the new bytes fill.
pub proof fn lemma_stream_append(stream: Seq<u8>, data: Seq<u8>)
    ensures
        full_transfers(stream + data) == full_transfers(stream) + full_transfers(
            remainder(stream) + data,
        ),
        remainder(stream + data) == remainder(remainder(stream) + data),
{
    let longer = stream + data;
    let rest = remainder(stream) + data;
    let n = stream.len() as int;
    let c = n / 4096;
    let parts = full_transfers(stream) + full_transfers(rest);
    assert forall|k: int| 0 <= k < longer.len() / 4096 implies #[trigger] full_transfers(
        longer,
    )[k] == parts[k] by {
        if k < c {
            assert(chunk(longer, k) =~= chunk(stream, k));
        } else {
            assert(chunk(longer, k) =~= chunk(rest, k - c));
        }
    }
}

/// Bytes that exactly fill the buffer leave as one transmission, with
/// nothing left over; a byte more stays behind alone.
pub proof fn lemma_stream_fills_buffer(stream: Seq<u8>)
    ensures
        stream.len() == SPI_BUFFER_BYTES ==> {
            &&& full_transfers(stream) == seq![Signal::Transfer { data: stream }]
            &&& remainder(stream) == Seq::<u8>::empty()
        },
        stream.len() == SPI_BUFFER_BYTES + 1 ==> {
            &&& full_transfers(stream) == seq![
                Signal::Transfer { data: stream.take(SPI_BUFFER_BYTES as int) },
            ]
            &&& remainder(stream) == seq![stream[SPI_BUFFER_BYTES as int]]
        },
        stream.len() < SPI_BUFFER_BYTES ==> {
            &&& full_transfers(stream) == Seq::<Signal>::empty()
            &&& remainder(stream) == stream
        },
{
    if stream.len() == SPI_BUFFER_BYTES {
        assert(chunk(stream, 0) =~= stream);
    }
}

/// Transport that queues bytes for the SPI bus.
pub struct BlinktSpi {
    clock_speed_hz: u32,
    buffer: [u8; SPI_BUFFER_BYTES],
    index: usize,
}

impl BlinktSpi {
    /// A full buffer never waits: fewer bytes are queued than the buffer holds.
    pub proof fn lemma_queued_below_capacity(&self)
        requires
            self.wf(),
        ensures
            self.queued().len() < SPI_BUFFER_BYTES,
    {
    }

    /// A transport with an empty buffer, for a bus at the given clock speed.
    pub fn with_settings(clock_speed_hz: u32) -> (spi: BlinktSpi)
        ensures
            spi.wf(),
            spi.medium() == (Medium::Bus { clock_speed_hz }),
            spi.queued() == Seq::<u8>::empty(),
    {
        let spi = BlinktSpi { clock_speed_hz, buffer: [0;SPI_BUFFER_BYTES], index: 0 };
        spi
    }

    /// The clock speed that the bus is opened with.
    pub fn clock_speed_hz(&self) -> (hz: u32)
        ensures
            self.medium() == (Medium::Bus { clock_speed_hz: hz }),
    {
        self.clock_speed_hz
    }

    /// Number of bytes that are queued.
    pub fn index(&self) -> (index: usize)
        requires
            self.wf(),
        ensures
            index == self.queued().len(),
    {
        self.index
    }

    /// Hands out the occupied part of the buffer as one transmission and
    /// empties the buffer.
    fn transmit(&mut self) -> (out: Command)
        requires
            0 < old(self).index <= SPI_BUFFER_BYTES,
        ensures
            out.deep_view() == (Signal::Transfer {
                data: old(self).buffer@.take(old(self).index as int),
            }),
            final(self).index == 0,
            final(self).buffer == old(self).buffer,
            final(self).clock_speed_hz == old(self).clock_speed_hz,
    {
        let mut data: Vec<u8> = Vec::new();
        let mut i: usize = 0;
        while i < self.index
            invariant
                i <= self.index <= SPI_BUFFER_BYTES,
                data@ == self.buffer@.take(i as int),
                *self == *old(self),
            decreases self.index - i,
        {
            data.push(self.buffer[i]);
            i += 1;
        }
        self.index = 0;
        Command::Transfer { data }
    }
}

impl SerialOutput for BlinktSpi {
    closed spec fn wf(&self) -> bool {
        self.index < SPI_BUFFER_BYTES
    }

    closed spec fn medium(&self) -> Medium {
        Medium::Bus { clock_speed_hz: self.clock_speed_hz }
    }

    closed spec fn queued(&self) -> Seq<u8> {
        self.buffer@.take(self.index as int)
    }

    /// Opens the bus at the clock speed.
    fn setup(&self) -> (out: Vec<Command>) {
        let mut out: Vec<Command> = Vec::new();
        out.push(
            Command::OpenBus {
                bus: SPI_BUS,
                slave_select: SPI_SLAVE_SELECT,
                clock_speed_hz: self.clock_speed_hz,
                mode: SPI_MODE,
            },
        );
        out
    }

    /// The bus holds no state of the peripheral that would have to be
    /// restored.
    fn cleanup(&mut self) -> (out: Vec<Command>) {
        Vec::new()
    }

    /// Hands out whatever is queued as one transmission and empties the
    /// buffer. Where nothing is queued, nothing is sent.
    fn flush(&mut self) -> (out: Vec<Command>) {
        let mut out: Vec<Command> = Vec::new();
        if self.index > 0 {
            let transfer = self.transmit();
            out.push(transfer);
        }
        out
    }

    /// Queues the bytes. Each time the buffer fills, it is handed out as one
    /// transmission and emptied before the next byte is queued.
    fn write(&mut self, data: &[u8]) -> (out: Vec<Command>) {
        let mut out: Vec<Command> = Vec::new();
        let ghost start = self.queued();
        let mut i: usize = 0;
        while i < data.len()
            invariant
                i <= data.len(),
                self.index < SPI_BUFFER_BYTES,
                self.clock_speed_hz == old(self).clock_speed_hz,
                start == old(self).queued(),
                self.index == (start + data@.take(i as int)).len() % (SPI_BUFFER_BYTES as nat),
                out.deep_view() == full_transfers(start + data@.take(i as int)),
                self.queued() == remainder(start + data@.take(i as int)),
            decreases data.len() - i,
        {
            let ghost stream = start + data@.take(i as int);
            let ghost queued = self.queued();
            proof {
                lemma_stream_push(stream, data@[i as int]);
                assert(stream.push(data@[i as int]) =~= start + data@.take(i + 1));
            }
            self.buffer[self.index] = data[i];
            self.index += 1;
            assert(self.queued() =~= queued.push(data@[i as int]));
            if self.index >= SPI_BUFFER_BYTES {
                let transfer = self.transmit();
                out.push(transfer);
            }
            i += 1;
        }
        assert(data@.take(i as int) =~= data@);
        out
    }
}

} // verus!
