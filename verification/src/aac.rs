//! The AAC encoder: what the recorder hands to `fdk-aac`, and what it gets
//! back.

use fdk_aac::enc::{AudioObjectType, BitRate, ChannelMode, Encoder, EncoderError, EncoderParams};
use vstd::prelude::*;

verus! {

/// How the encoder wraps what it makes.
#[derive(Clone, Copy, Debug, PartialEq, Eq, Structural)]
pub enum Transport {
    Adts,
    Raw,
}

/// How many channels the encoder takes.
#[derive(Clone, Copy, Debug, PartialEq, Eq, Structural)]
pub enum Channels {
    Mono,
    Stereo,
}

/// Which AAC profile the encoder works in.
#[derive(Clone, Copy, Debug, PartialEq, Eq, Structural)]
pub enum Profile {
    LowComplexity,
    HighEfficiency,
}

/// What an encoder is set up for.
#[derive(Clone, Copy, Debug, PartialEq, Eq, Structural)]
pub struct Settings {
    /// Constant bit rate, in bits per second.
    pub bit_rate: u32,
    /// Sample rate, in hertz.
    pub sample_rate: u32,
    pub transport: Transport,
    pub channels: Channels,
    pub profile: Profile,
}

/// One call of the encoder: the samples that went in, and what came out.
pub struct Encoding {
    pub samples: Seq<i16>,
    pub result: Result<Seq<u8>, EncoderError>,
}

/// The AAC encoder of `fdk-aac`, as an opaque type.
#[verifier::external_type_specification]
#[verifier::external_body]
pub struct ExEncoder(fdk_aac::enc::Encoder);

/// The error of `fdk-aac`'s encoder, as an opaque type.
#[verifier::external_type_specification]
#[verifier::external_body]
pub struct ExEncoderError(fdk_aac::enc::EncoderError);

/// The calls that an encoder has been through, oldest first.
pub uninterp spec fn encodings(encoder: fdk_aac::enc::Encoder) -> Seq<Encoding>;

/// What an encoder was set up for.
pub uninterp spec fn settings(encoder: fdk_aac::enc::Encoder) -> Settings;

/// Calls `fdk_aac::enc::Encoder::new` with the settings given. An encoder
/// that comes back has these settings and has encoded nothing yet. Whether
/// one comes back is up to the codec library.
#[verifier::external_body]
pub(crate) fn new_encoder(with: Settings) -> (result: Result<Encoder, EncoderError>)
    ensures
        result matches Ok(encoder) ==> settings(encoder) == with,
        result matches Ok(encoder) ==> encodings(encoder) == Seq::<Encoding>::empty(),
{
    let transport = match with.transport { Transport::Adts => fdk_aac::enc::Transport::Adts, Transport::Raw => fdk_aac::enc::Transport::Raw };
    let channels = match with.channels { Channels::Mono => ChannelMode::Mono, Channels::Stereo => ChannelMode::Stereo };
    let audio_object_type = match with.profile {
        Profile::LowComplexity => AudioObjectType::Mpeg4LowComplexity,
        Profile::HighEfficiency => AudioObjectType::Mpeg4HeAac,
    };
    let bit_rate = BitRate::Cbr(with.bit_rate);
    Encoder::new(EncoderParams { bit_rate, sample_rate: with.sample_rate, transport, channels, audio_object_type })
}

/// Calls `fdk_aac::enc::Encoder::encode`, which writes its bytes to the front
/// of `output`, and returns how many. The encoder's history grows by this
/// call, with the samples handed over and the bytes written; the settings
/// stay. The bytes never run past the end of `output`: the codec library
/// reports an error when the buffer is too small.
#[verifier::external_body]
pub(crate) fn encode(encoder: &mut Encoder, samples: &[i16], output: &mut Vec<u8>) -> (result:
    Result<usize, EncoderError>)
    requires
        old(output)@.len() <= i32::MAX,
    ensures
        final(output)@.len() == old(output)@.len(),
        result matches Ok(n) ==> n <= final(output)@.len(),
        settings(*final(encoder)) == settings(*old(encoder)),
        encodings(*final(encoder)) == encodings(*old(encoder)).push(
            Encoding {
                samples: samples@,
                result: match result {
                    Ok(n) => Ok(final(output)@.take(n as int)),
                    Err(err) => Err(err),
                },
            },
        ),
{
    encoder.encode(samples, output.as_mut_slice()).map(|info| info.output_size)
}

} // verus!
