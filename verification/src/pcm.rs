//! Raw audio: interleaved little-endian samples, cut into the frames that
//! the AAC encoder takes.

use vstd::prelude::*;

verus! {

/// Sample rate asked of the audio stream and set on the encoder, in hertz.
pub const AUDIO_SAMPLE_RATE: u32 = 48000;

/// Channels asked of the audio stream and set on the encoder: stereo.
pub const AUDIO_CHANNELS: u32 = 2;

/// Samples of one AAC frame, both channels together: AAC-LC encodes exactly
/// 1024 samples per channel at a time.
pub const FRAME_LEN: usize = 2048;

/// A raw audio format, offered to the audio stream as fixed values: what the
/// encoder is set up for, and nothing else.
#[derive(Clone, Copy, Debug, PartialEq, Eq, Structural)]
pub struct AudioOffer {
    pub rate: i32,
    pub channels: i32,
}

/// Offers interleaved signed 16-bit little-endian samples at the encoder's
/// rate and number of channels.
pub fn audio_offer() -> (offer: AudioOffer)
    ensures
        offer.rate == AUDIO_SAMPLE_RATE,
        offer.channels == AUDIO_CHANNELS,
{
    AudioOffer { rate: AUDIO_SAMPLE_RATE as i32, channels: AUDIO_CHANNELS as i32 }
}

/// The signed 16-bit number whose low byte is `lo` and whose high byte is
/// `hi`, in two's complement.
pub open spec fn s16le(lo: u8, hi: u8) -> i16 {
    let unsigned = lo + 256 * hi;
    if unsigned < 0x8000 {
        unsigned as i16
    } else {
        (unsigned - 0x1_0000) as i16
    }
}

/// The samples that `bytes` hold, two bytes each; an odd byte at the end is
/// no sample.
pub open spec fn decode_s16le(bytes: Seq<u8>) -> Seq<i16> {
    Seq::new(bytes.len() / 2, |i: int| s16le(bytes[2 * i], bytes[2 * i + 1]))
}

/// The complete frames at the front of `samples`.
pub open spec fn full_frames(samples: Seq<i16>) -> Seq<Seq<i16>> {
    Seq::new(
        samples.len() / FRAME_LEN as nat,
        |i: int| samples.subrange(i * FRAME_LEN, (i + 1) * FRAME_LEN),
    )
}

/// What is left of `samples` behind its complete frames.
pub open spec fn leftover(samples: Seq<i16>) -> Seq<i16> {
    samples.skip(samples.len() as int / FRAME_LEN as int * FRAME_LEN)
}

/// Appends the samples that `bytes` hold to `out`.
pub fn push_s16le(out: &mut Vec<i16>, bytes: &[u8])
    ensures
        final(out)@ == old(out)@ + decode_s16le(bytes@),
{
    let len: usize = bytes.len();
    let n: usize = len / 2;
    for i in 0..n
        invariant
            len == bytes@.len(),
            n == len / 2,
            out@ == old(out)@ + decode_s16le(bytes@).take(i as int),
    {
        let lo: u8 = bytes[2 * i];
        let hi: u8 = bytes[2 * i + 1];
        let unsigned: i32 = lo as i32 + 256 * (hi as i32);
        let sample: i16 = if unsigned < 0x8000 {
            unsigned as i16
        } else {
            (unsigned - 0x1_0000) as i16
        };
        out.push(sample);
        assert(decode_s16le(bytes@)[i as int] == sample);
    }
    assert(decode_s16le(bytes@).take(n as int) == decode_s16le(bytes@));
}

/// No sample is lost and none comes twice: the frames of `samples` one after
/// the other, and then the leftover, are `samples`; each frame has 1024
/// samples for either channel, and the leftover is less than a frame.
pub proof fn law_frames_and_leftover(samples: Seq<i16>)
    ensures
        full_frames(samples).flatten() + leftover(samples) == samples,
        forall|i: int|
            0 <= i < full_frames(samples).len() ==> (#[trigger] full_frames(samples)[i]).len()
                == 2048,
        leftover(samples).len() < 2048,
    decreases samples.len(),
{
    let n = samples.len() / FRAME_LEN as nat;
    let frames = full_frames(samples);
    if n == 0 {
        assert(frames == Seq::<Seq<i16>>::empty());
        assert(leftover(samples) == samples);
        assert(frames.flatten() == Seq::<i16>::empty());
    } else {
        let rest = samples.skip(FRAME_LEN as int);
        assert(rest.len() / FRAME_LEN as nat == n - 1);
        law_frames_and_leftover(rest);
        assert(frames.drop_first() =~= full_frames(rest)) by {
            assert forall|i: int| 0 <= i < n - 1 implies frames.drop_first()[i] == full_frames(
                rest,
            )[i] by {
                assert(frames[i + 1] == full_frames(rest)[i]);
            }
        }
        assert(leftover(samples) == leftover(rest));
        assert(frames.first() + rest == samples);
        assert(frames.flatten() == frames.first() + full_frames(rest).flatten());
    }
}

/// Where one buffer ends and the next begins does not matter: what `more`
/// adds to the leftover of `samples` makes the frames that come behind those
/// of `samples` when all are taken together, and leaves the same leftover.
pub proof fn law_buffering(samples: Seq<i16>, more: Seq<i16>)
    ensures
        full_frames(samples + more) == full_frames(samples) + full_frames(
            leftover(samples) + more,
        ),
        leftover(samples + more) == leftover(leftover(samples) + more),
{
    let len = FRAME_LEN as int;
    let n = samples.len() as int / len;
    let all = samples + more;
    let rest = leftover(samples) + more;
    let m = rest.len() as int / len;
    assert(rest == all.skip(n * len));
    assert(all.len() as int / len == n + m);
    let joined = full_frames(samples) + full_frames(rest);
    assert forall|i: int| 0 <= i < n + m implies full_frames(all)[i] == joined[i] by {
        if i < n {
            assert(all.subrange(i * len, (i + 1) * len) == samples.subrange(
                i * len,
                (i + 1) * len,
            ));
        } else {
            let j = i - n;
            assert(all.subrange(i * len, (i + 1) * len) == rest.subrange(j * len, (j + 1) * len));
        }
    }
    assert(full_frames(all) == joined);
    assert(leftover(all) == leftover(rest));
}

/// Two buffers decode to the samples of the first and then those of the
/// second, as long as the first does not end in the middle of a sample.
pub proof fn law_decoding_in_parts(first: Seq<u8>, second: Seq<u8>)
    requires
        first.len() % 2 == 0,
    ensures
        decode_s16le(first + second) == decode_s16le(first) + decode_s16le(second),
{
    let n = first.len() as int / 2;
    let all = decode_s16le(first + second);
    let joined = decode_s16le(first) + decode_s16le(second);
    assert(all.len() == joined.len());
    assert forall|i: int| 0 <= i < all.len() implies all[i] == joined[i] by {
        if i >= n {
            assert((first + second)[2 * i] == second[2 * (i - n)]);
            assert((first + second)[2 * i + 1] == second[2 * (i - n) + 1]);
        }
    }
    assert(all == joined);
}

/// Samples are in two's complement, low byte first: a sample differs from the
/// number that its two bytes make by a multiple of 65536, which fixes it. There
/// is one for every two bytes.
pub proof fn law_samples_are_twos_complement(bytes: Seq<u8>, i: int)
    requires
        0 <= i,
        2 * i + 1 < bytes.len(),
    ensures
        2 * decode_s16le(bytes).len() <= bytes.len() < 2 * decode_s16le(bytes).len() + 2,
        i < decode_s16le(bytes).len(),
        (decode_s16le(bytes)[i] - (bytes[2 * i] + 256 * bytes[2 * i + 1])) % 0x1_0000 == 0,
{
}

/// Decoding gives back what was encoded: samples written low byte first, with
/// an odd byte behind them or not, come out as they were.
pub proof fn law_decoding_undoes_encoding(samples: Seq<i16>, bytes: Seq<u8>)
    requires
        bytes.len() / 2 == samples.len(),
        forall|i: int|
            #![trigger samples[i]]
            0 <= i < samples.len() ==> bytes[2 * i] == samples[i] as int % 256 && bytes[2 * i + 1]
                == samples[i] as int % 0x1_0000 / 256,
    ensures
        decode_s16le(bytes) == samples,
{
    assert forall|i: int| 0 <= i < samples.len() implies decode_s16le(bytes)[i] == samples[i] by {
        let v = samples[i] as int;
        assert(bytes[2 * i] == v % 256 && bytes[2 * i + 1] == v % 0x1_0000 / 256);
        assert(v % 256 + 256 * (v % 0x1_0000 / 256) == v % 0x1_0000);
    }
}

/// A frame lies where it should: sample `k` of frame `i` is the one with 2048
/// for each frame before it, and `k` more, in front of it.
pub proof fn law_frames_lie_in_order(samples: Seq<i16>, i: int, k: int)
    requires
        0 <= i,
        0 <= k < 2048,
        2048 * (i + 1) <= samples.len(),
    ensures
        i < full_frames(samples).len(),
        full_frames(samples)[i].len() == 2048,
        full_frames(samples)[i][k] == samples[2048 * i + k],
{
}

} // verus!
