//! Mixing and splitting of interleaved audio.
//!
//! Interleaved audio holds one sample of each channel in turn: a frame. Samples that
//! are left over after the last whole frame belong to no frame.

use vstd::prelude::*;

verus! {

/// The quotient of `a` by a positive `b`, rounded towards zero.
pub open spec fn quotient(a: int, b: int) -> int {
    if a >= 0 {
        a / b
    } else {
        -((-a) / b)
    }
}

/// The sum of the quotients by `channels` of the first `count` samples of the frame
/// that begins at `start`.
pub open spec fn mixed(input: Seq<i16>, start: int, channels: int, count: int) -> int
    decreases count,
{
    if count <= 0 {
        0
    } else {
        mixed(input, start, channels, count - 1) + quotient(
            input[start + count - 1] as int,
            channels,
        )
    }
}

/// The number of samples of channel `lane` among `len` interleaved samples.
pub open spec fn lane_len(len: int, lane: int, channels: int) -> int {
    if lane < len {
        (len - lane - 1) / channels + 1
    } else {
        0
    }
}

/// The samples of channel `lane` among the interleaved samples `buf`, in order.
pub open spec fn lane_of<T>(buf: Seq<T>, lane: int, channels: int) -> Seq<T> {
    Seq::new(lane_len(buf.len() as int, lane, channels) as nat, |i: int| buf[i * channels + lane])
}

/// A sum of `count` quotients by `channels` of 16-bit samples stays within 16 bits as
/// long as there are no more of them than channels.
proof fn lemma_mixed_bounds(input: Seq<i16>, start: int, channels: int, count: int)
    requires
        0 < channels,
        0 <= count <= channels,
        0 <= start,
        start + count <= input.len(),
    ensures
        -(count * (32768int / channels)) <= mixed(input, start, channels, count) <= count * (32767int
            / channels),
        -32768 <= mixed(input, start, channels, count) <= 32767,
    decreases count,
{
    if count > 0 {
        lemma_mixed_bounds(input, start, channels, count - 1);
        let sample = input[start + count - 1] as int;
        assert(-(32768int / channels) <= quotient(sample, channels) <= 32767int / channels)
            by (nonlinear_arith)
            requires
                -32768 <= sample <= 32767,
                channels > 0,
        ;
        assert((count - 1) * (32768int / channels) + 32768int / channels == count * (32768int / channels))
            by (nonlinear_arith);
        assert((count - 1) * (32767int / channels) + 32767int / channels == count * (32767int / channels))
            by (nonlinear_arith);
    }
    assert(count * (32768int / channels) <= 32768) by (nonlinear_arith)
        requires
            0 <= count <= channels,
            channels > 0,
    ;
    assert(count * (32767int / channels) <= 32767) by (nonlinear_arith)
        requires
            0 <= count <= channels,
            channels > 0,
    ;
}

/// Mixes interleaved audio of `channels` channels down to one: each frame becomes the
/// sum of its samples, each divided by the number of channels first. Audio of one
/// channel is returned as it is; samples after the last whole frame are dropped.
pub fn convert_to_mono(input_data: &[i16], channels: u16) -> (r: Vec<i16>)
    requires
        0 < channels <= i16::MAX,
    ensures
        channels == 1 ==> r@ == input_data@,
        channels != 1 ==> r@.len() == input_data@.len() / (channels as nat),
        channels != 1 ==> forall|k: int|
            0 <= k < r@.len() ==> #[trigger] r@[k] == mixed(
                input_data@,
                k * channels,
                channels as int,
                channels as int,
            ),
{
    let len = input_data.len();
    let mut result: Vec<i16> = Vec::new();
    if channels == 1 {
        let mut i: usize = 0;
        while i < len
            invariant
                len == input_data@.len(),
                i <= len,
                result@ == input_data@.take(i as int),
            decreases len - i,
        {
            result.push(input_data[i]);
            i = i + 1;
        }
        assert(input_data@.take(len as int) == input_data@);
        return result;
    }
    let width = channels as usize;
    let divisor = channels as i16;
    let frames = len / width;
    let mut k: usize = 0;
    while k < frames
        invariant
            len == input_data@.len(),
            width == channels,
            divisor == channels,
            0 < channels <= i16::MAX,
            frames == len / width,
            k <= frames,
            result@.len() == k,
            forall|j: int|
                0 <= j < k ==> #[trigger] result@[j] == mixed(
                    input_data@,
                    j * channels,
                    channels as int,
                    channels as int,
                ),
        decreases frames - k,
    {
        assert(k * width + width <= len) by (nonlinear_arith)
            requires
                k < frames,
                frames == len / width,
                width > 0,
        ;
        let start = k * width;
        let mut sum: i16 = 0;
        let mut i: usize = 0;
        while i < width
            invariant
                len == input_data@.len(),
                width == channels,
                divisor == channels,
                0 < channels <= i16::MAX,
                start + width <= len,
                i <= width,
                sum == mixed(input_data@, start as int, channels as int, i as int),
            decreases width - i,
        {
            proof {
                lemma_mixed_bounds(input_data@, start as int, channels as int, i as int);
                lemma_mixed_bounds(input_data@, start as int, channels as int, i + 1);
            }
            sum = sum + input_data[start + i] / divisor;
            i = i + 1;
        }
        result.push(sum);
        k = k + 1;
    }
    result
}

/// The samples of one channel of the interleaved samples `buf`.
fn channel_samples<T: Copy>(buf: &[T], lane: usize, width: usize) -> (r: Vec<T>)
    requires
        lane < width,
    ensures
        r@ == lane_of(buf@, lane as int, width as int),
{
    let len = buf.len();
    let mut out: Vec<T> = Vec::new();
    if lane >= len {
        return out;
    }
    let mut j: usize = lane;
    assert(out@.len() * width == 0) by (nonlinear_arith)
        requires
            out@.len() == 0,
    ;
    loop
        invariant_except_break
            lane <= j < len,
            j == out@.len() * width + lane,
            forall|i: int| 0 <= i < out@.len() ==> #[trigger] out@[i] == buf@[i * width + lane],
        invariant
            len == buf@.len(),
            lane < width,
        ensures
            out@ == lane_of(buf@, lane as int, width as int),
        decreases len - j,
    {
        out.push(buf[j]);
        if len - j <= width {
            proof {
                let count = out@.len() as int;
                assert((len - lane - 1) / (width as int) + 1 == count) by (nonlinear_arith)
                    requires
                        j == (count - 1) * width + lane,
                        j < len,
                        len - j <= width,
                        width > 0,
                ;
                assert(out@ =~= lane_of(buf@, lane as int, width as int));
            }
            break ;
        }
        assert((out@.len() - 1) * width + width == out@.len() * width) by (nonlinear_arith);
        j = j + width;
    }
    out
}

/// Splits interleaved samples into one vector per channel. When the samples end within
/// a frame, the channels that the frame still reached hold one sample more.
pub fn split_channels<T: Copy>(buf: &[T], channels: u16) -> (r: Vec<Vec<T>>)
    requires
        channels > 0,
    ensures
        r@.len() == channels,
        forall|lane: int|
            0 <= lane < channels ==> (#[trigger] r@[lane])@ == lane_of(
                buf@,
                lane,
                channels as int,
            ),
{
    let width = channels as usize;
    let mut buffer: Vec<Vec<T>> = Vec::new();
    let mut lane: usize = 0;
    while lane < width
        invariant
            width == channels,
            lane <= width,
            buffer@.len() == lane,
            forall|l: int|
                0 <= l < lane ==> (#[trigger] buffer@[l])@ == lane_of(buf@, l, channels as int),
        decreases width - lane,
    {
        buffer.push(channel_samples(buf, lane, width));
        lane = lane + 1;
    }
    buffer
}

} // verus!
