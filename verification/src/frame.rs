//! The frame that one refresh puts on the wire: a start frame, one frame for
//! each pixel, and an end frame that clocks the data through the chain.

use vstd::prelude::*;

verus! {

/// Number of bytes in the start frame.
pub const START_FRAME_BYTES: usize = 4;

/// Number of bytes in the end frame of a strip of `n` pixels:
/// `4 + floor(n / 16 + 0.94)`, written over the common denominator 1600.
pub open spec fn end_frame_len(num_pixels: nat) -> nat {
    4 + (100 * num_pixels + 1504) / 1600
}

/// A run of zero bytes.
pub open spec fn zeros(len: nat) -> Seq<u8> {
    Seq::new(len, |i: int| 0u8)
}

/// The pixel frames of a strip one after the other, nearest pixel first.
pub open spec fn pixel_frames(pixels: Seq<Seq<u8>>) -> Seq<u8> {
    Seq::new(4 * pixels.len(), |i: int| pixels[i / 4][i % 4])
}

/// Everything one refresh sends: four zero bytes, the pixel frames, and the
/// zero bytes of the end frame.
pub open spec fn wire_frame(pixels: Seq<Seq<u8>>) -> Seq<u8> {
    zeros(START_FRAME_BYTES as nat) + pixel_frames(pixels) + zeros(end_frame_len(pixels.len()))
}

/// The end frame is four bytes and one for every started sixteen pixels.
pub proof fn lemma_end_frame_len(num_pixels: nat)
    ensures
        end_frame_len(num_pixels) == 4 + (num_pixels + 15) / 16,
        end_frame_len(num_pixels) == 4 + num_pixels / 16 + if num_pixels % 16 == 0 {
            0nat
        } else {
            1nat
        },
{
    let n = num_pixels as int;
    let q = n / 16;
    let r = n % 16;
    assert(100 * n + 1504 == 1600 * q + (100 * r + 1504));
    if r == 0 {
        assert((1600 * q + 1504) / 1600 == q);
    } else {
        assert((1600 * q + (100 * r + 1504)) / 1600 == q + 1);
    }
}

/// The end frame clocks the chain at least once for every two pixels, which
/// is what the last driver needs to see its data.
pub proof fn lemma_end_frame_clocks_chain(num_pixels: nat)
    ensures
        2 * (8 * end_frame_len(num_pixels)) >= num_pixels,
{
    lemma_end_frame_len(num_pixels);
}

/// The pixel frames of a strip with one more pixel are those without it,
/// followed by the frame of the new pixel.
pub proof fn lemma_pixel_frames_push(pixels: Seq<Seq<u8>>, last: Seq<u8>)
    requires
        last.len() == 4,
    ensures
        pixel_frames(pixels.push(last)) == pixel_frames(pixels) + last,
{
}

/// Byte `j` of pixel `i` stands in the frame after the start frame and the
/// frames of the pixels before it.
pub proof fn lemma_wire_frame_pixel(pixels: Seq<Seq<u8>>, i: int, j: int)
    requires
        0 <= i < pixels.len(),
        0 <= j < 4,
    ensures
        4 + 4 * i + j < wire_frame(pixels).len(),
        wire_frame(pixels)[4 + 4 * i + j] == pixels[i][j],
{
}

/// A frame is as long as its three parts together, and all that stands
/// before and after the pixel frames is zero.
pub proof fn lemma_wire_frame_padding(pixels: Seq<Seq<u8>>, k: int)
    ensures
        wire_frame(pixels).len() == 4 + 4 * pixels.len() + end_frame_len(pixels.len()),
        0 <= k < 4 ==> wire_frame(pixels)[k] == 0,
        4 + 4 * pixels.len() <= k < wire_frame(pixels).len() ==> wire_frame(pixels)[k] == 0,
{
}

/// Length of the end frame for a strip of `num_pixels` pixels.
pub fn end_frame_length(num_pixels: usize) -> (len: usize)
    ensures
        len == end_frame_len(num_pixels as nat),
{
    proof {
        lemma_end_frame_len(num_pixels as nat);
    }
    let started: usize = if num_pixels % 16 == 0 {
        0
    } else {
        1
    };
    4 + num_pixels / 16 + started
}

/// The end frame for a strip of `num_pixels` pixels.
pub fn end_frame(num_pixels: usize) -> (frame: Vec<u8>)
    ensures
        frame@ == zeros(end_frame_len(num_pixels as nat)),
{
    let frame = vec![0u8; end_frame_length(num_pixels)];
    frame
}

} // verus!
