//! The MP4 container: movie, tracks and samples, as the `mp4` crate writes
//! them into memory.

use mp4::{AacConfig, AvcConfig, Mp4Config, Mp4Sample, Mp4Writer, TrackConfig};
use std::io::Cursor;
use vstd::prelude::*;

verus! {

/// Units of time per second, for the timestamps and durations of samples.
pub const TIMESCALE: u32 = 1000;

/// The brand `isom`, as a big-endian number.
pub const BRAND_ISOM: u32 = 0x6973_6f6d;

/// The brand `iso2`, as a big-endian number.
pub const BRAND_ISO2: u32 = 0x6973_6f32;

/// The brand `avc1`, as a big-endian number.
pub const BRAND_AVC1: u32 = 0x6176_6331;

/// The brand `mp41`, as a big-endian number.
pub const BRAND_MP41: u32 = 0x6d70_3431;

/// The minor version of the major brand.
pub const MINOR_VERSION: u32 = 512;

/// The fewest bytes of a sequence parameter set that a track's header can be
/// made from: the NAL unit's header, and the three bytes behind it that name
/// profile and level.
pub const MIN_SPS_LEN: usize = 4;

/// The most samples that a track can hold.
pub const MAX_SAMPLES: u32 = 0xffff_fffe;

/// Below this many bytes, a sample of an audio track can be stated in the
/// track's header, which has three bytes for the largest.
pub const MAX_AUDIO_SAMPLE_LEN: usize = 0x100_0000;

/// What a file says of itself before any track.
pub struct Movie {
    pub major_brand: u32,
    pub minor_version: u32,
    pub compatible_brands: Vec<u32>,
    pub timescale: u32,
}

/// What a [`Movie`] holds.
pub struct MovieView {
    pub major_brand: u32,
    pub minor_version: u32,
    pub compatible_brands: Seq<u32>,
    pub timescale: u32,
}

impl View for Movie {
    type V = MovieView;

    open spec fn view(&self) -> MovieView {
        MovieView {
            major_brand: self.major_brand,
            minor_version: self.minor_version,
            compatible_brands: self.compatible_brands@,
            timescale: self.timescale,
        }
    }
}

/// One sample: a coded picture, or a coded frame of audio.
pub struct Sample {
    /// When the sample begins, in units of the timescale.
    pub start_time: u64,
    pub duration: u32,
    pub rendering_offset: i32,
    /// Whether decoding can start here.
    pub is_sync: bool,
    pub bytes: Vec<u8>,
}

/// What a [`Sample`] holds.
pub struct SampleView {
    pub start_time: u64,
    pub duration: u32,
    pub rendering_offset: i32,
    pub is_sync: bool,
    pub bytes: Seq<u8>,
}

impl View for Sample {
    type V = SampleView;

    open spec fn view(&self) -> SampleView {
        SampleView {
            start_time: self.start_time,
            duration: self.duration,
            rendering_offset: self.rendering_offset,
            is_sync: self.is_sync,
            bytes: self.bytes@,
        }
    }
}

/// What the samples of a track are, and what a player needs to know to decode
/// them.
pub enum TrackFormat {
    /// H.264 video, with its parameter sets.
    Avc { width: u16, height: u16, sps: Seq<u8>, pps: Seq<u8> },
    /// AAC audio, by the code numbers of ISO/IEC 14496-3.
    Aac { bitrate: u32, object_type: u8, freq_index: u8, channel_config: u8 },
}

/// A track: its format, and its samples in the order they were written.
pub struct Track {
    pub format: TrackFormat,
    pub samples: Seq<SampleView>,
}

/// `tracks` with one more sample behind those of the track with number `id`,
/// counted from one.
pub open spec fn with_sample(tracks: Seq<Track>, id: u32, sample: SampleView) -> Seq<Track> {
    let track = tracks[id - 1];
    tracks.update(id - 1, Track { format: track.format, samples: track.samples.push(sample) })
}

/// The MP4 writer of the `mp4` crate, as an opaque type.
#[verifier::external_type_specification]
#[verifier::external_body]
#[verifier::reject_recursive_types(W)]
pub struct ExMp4Writer<W>(mp4::Mp4Writer<W>);

/// What a track is to be opened with, as an opaque type.
#[verifier::external_type_specification]
#[verifier::external_body]
pub struct ExTrackConfig(mp4::TrackConfig);

/// The error of the `mp4` crate, as an opaque type.
#[verifier::external_type_specification]
#[verifier::external_body]
pub struct ExMp4Error(mp4::Error);

/// `std::io::Cursor`, as an opaque type.
#[verifier::external_type_specification]
#[verifier::external_body]
#[verifier::reject_recursive_types(T)]
pub struct ExCursor<T>(std::io::Cursor<T>);

/// The tracks that a writer has been given, with their samples.
pub uninterp spec fn tracks(writer: mp4::Mp4Writer<std::io::Cursor<Vec<u8>>>) -> Seq<Track>;

/// The movie that a writer was started with.
pub uninterp spec fn movie(writer: mp4::Mp4Writer<std::io::Cursor<Vec<u8>>>) -> MovieView;

/// The format of the track that a configuration opens.
pub uninterp spec fn track_format(config: mp4::TrackConfig) -> TrackFormat;

/// The bytes of the MP4 file that holds these tracks.
pub uninterp spec fn mp4_file(movie: MovieView, tracks: Seq<Track>) -> Seq<u8>;

/// Calls `mp4::Mp4Writer::write_start` on an empty buffer. Writing to memory
/// does not fail; the writer that comes back has no tracks yet.
#[verifier::external_body]
pub(crate) fn write_start(start: Movie) -> (result: Result<
    Mp4Writer<Cursor<Vec<u8>>>,
    mp4::Error>)
    ensures
        result is Ok,
        result matches Ok(writer) ==> movie(writer) == start@,
        result matches Ok(writer) ==> tracks(writer) == Seq::<Track>::empty(),
{
    let config = Mp4Config {
        major_brand: start.major_brand.into(),
        minor_version: start.minor_version,
        compatible_brands: start.compatible_brands.into_iter().map(mp4::FourCC::from).collect(),
        timescale: start.timescale,
    };
    Mp4Writer::write_start(Cursor::new(Vec::new()), &config)
}

/// Calls `mp4::TrackConfig::from` for H.264 video.
#[verifier::external_body]
pub(crate) fn avc_track_config(width: u16, height: u16, sps: Vec<u8>, pps: Vec<u8>) -> (config:
    TrackConfig)
    ensures
        track_format(config) == (TrackFormat::Avc { width, height, sps: sps@, pps: pps@ }),
{
    TrackConfig::from(AvcConfig { width, height, seq_param_set: sps, pic_param_set: pps })
}

/// Calls `mp4::TrackConfig::from` for AAC audio. Each code number is looked
/// up first; the numbers admitted here all stand for something.
#[verifier::external_body]
pub(crate) fn aac_track_config(
    bitrate: u32,
    object_type: u8,
    freq_index: u8,
    channel_config: u8,
) -> (result: Result<TrackConfig, mp4::Error>)
    requires
        1 <= object_type <= 9,
        freq_index <= 12,
        1 <= channel_config <= 7,
    ensures
        result is Ok,
        result matches Ok(config) ==> track_format(config) == (TrackFormat::Aac {
            bitrate,
            object_type,
            freq_index,
            channel_config,
        }),
{
    Ok(TrackConfig::from(AacConfig {
        bitrate,
        profile: mp4::AudioObjectType::try_from(object_type)?,
        freq_index: mp4::SampleFreqIndex::try_from(freq_index)?,
        chan_conf: mp4::ChannelConfig::try_from(channel_config)?,
    }))
}

/// Calls `mp4::Mp4Writer::add_track`, which does not fail: the new track comes
/// behind the others and has no samples yet. Its number, counted from one, is
/// the number of tracks there now are. A sequence parameter set that is too
/// short makes the call panic.
#[verifier::external_body]
pub(crate) fn add_track(writer: &mut Mp4Writer<Cursor<Vec<u8>>>, config: &TrackConfig) -> (result:
    Result<(), mp4::Error>)
    requires
        tracks(*old(writer)).len() < u32::MAX,
        track_format(*config) matches TrackFormat::Avc { sps, .. } ==> sps.len() >= MIN_SPS_LEN,
    ensures
        result is Ok,
        movie(*final(writer)) == movie(*old(writer)),
        tracks(*final(writer)) == tracks(*old(writer)).push(
            Track { format: track_format(*config), samples: Seq::empty() },
        ),
{
    writer.add_track(config)
}

/// Calls `mp4::Mp4Writer::write_sample` for a sample without a duration of
/// its own. The writer keeps such samples in memory until the file is
/// finished, so the call fails only for want of a track with that number.
#[verifier::external_body]
pub(crate) fn write_sample(
    writer: &mut Mp4Writer<Cursor<Vec<u8>>>,
    track_id: u32,
    sample: Sample,
) -> (result: Result<(), mp4::Error>)
    requires
        sample.duration == 0,
        1 <= track_id <= tracks(*old(writer)).len() ==> tracks(*old(writer))[track_id
            - 1].samples.len() < MAX_SAMPLES,
    ensures
        result is Ok <==> 1 <= track_id <= tracks(*old(writer)).len(),
        movie(*final(writer)) == movie(*old(writer)),
        tracks(*final(writer)) == if result is Ok {
            with_sample(tracks(*old(writer)), track_id, sample@)
        } else {
            tracks(*old(writer))
        },
{
    let Sample { start_time, duration, rendering_offset, is_sync, bytes } = sample;
    let sample = Mp4Sample { start_time, duration, rendering_offset, is_sync, bytes: bytes.into() };
    writer.write_sample(track_id, &sample)
}

/// Whether the header of every audio track can state the size of its largest
/// sample.
pub open spec fn audio_samples_fit(tracks: Seq<Track>) -> bool {
    forall|t: int, s: int|
        0 <= t < tracks.len() && tracks[t].format is Aac && 0 <= s < tracks[t].samples.len()
            ==> (#[trigger] tracks[t].samples[s]).bytes.len() < MAX_AUDIO_SAMPLE_LEN
}

/// Calls `mp4::Mp4Writer::write_end`, and takes the file out of the writer.
/// Writing to memory does not fail; the file depends on the movie, the tracks
/// and their samples, and on nothing else. An audio sample too large for its
/// track's header makes the call panic.
#[verifier::external_body]
pub(crate) fn write_end(writer: Mp4Writer<Cursor<Vec<u8>>>) -> (result: Result<
    Vec<u8>,
    mp4::Error>)
    requires
        audio_samples_fit(tracks(writer)),
    ensures
        result is Ok,
        result matches Ok(bytes) ==> bytes@ == mp4_file(movie(writer), tracks(writer)),
{
    let mut writer = writer;
    writer.write_end()?;
    Ok(writer.into_writer().into_inner())
}

/// Writing a sample adds it to one track, behind all that are there, and
/// touches nothing else.
pub proof fn law_a_sample_goes_to_one_track(tracks: Seq<Track>, id: u32, sample: SampleView, t: int)
    requires
        1 <= id <= tracks.len(),
        0 <= t < tracks.len(),
    ensures
        with_sample(tracks, id, sample).len() == tracks.len(),
        with_sample(tracks, id, sample)[t].format == tracks[t].format,
        with_sample(tracks, id, sample)[t].samples == if t + 1 == id {
            tracks[t].samples + seq![sample]
        } else {
            tracks[t].samples
        },
{
    assert(tracks[t].samples + seq![sample] == tracks[t].samples.push(sample));
}

} // verus!
