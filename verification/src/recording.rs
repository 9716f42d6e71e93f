//! Encodes video frames and, optionally, desktop audio, and muxes both into
//! one MP4 file.

use crate::aac;
use crate::clock::{
    law_whole_milliseconds, millis_between, millis_since, reading, MIN_FRAME_INTERVAL_MILLIS,
};
use crate::frame::{
    at_least_zero, law_rows_fit_when_each_does, non_negative, packed_rows, repack_rows, rows_fit, MediaSubtype, MediaType,
    PixelLayout, VideoFormat,
};
use crate::h264;
use crate::h264::{FrameType, Picture};
use crate::mux;
use crate::mux::{
    movie, mp4_file, tracks, with_sample, Movie, MovieView, Sample, SampleView, Track, TrackFormat,
    BRAND_AVC1, BRAND_ISO2, BRAND_ISOM, BRAND_MP41, MAX_SAMPLES, MINOR_VERSION, MIN_SPS_LEN,
    TIMESCALE,
};
use crate::nal::{
    access_unit, is_annex_b, last_of_type, law_picture_nal_joins_the_sample,
    law_sample_holds_its_nals, lemma_access_unit_push, parse_avcc, sample_payloads, AccessUnit,
    AccessUnitView,
};
use crate::pcm::{
    decode_s16le, full_frames, law_buffering, law_decoding_in_parts, law_frames_and_leftover,
    leftover, push_s16le,
    AUDIO_SAMPLE_RATE, FRAME_LEN,
};
use crate::text::{display, displayed_as, join};
use mp4::Mp4Writer;
use std::io::Cursor;
use std::time::Instant;
use vstd::prelude::*;

verus! {

/// Bit rate of the audio track, in bits per second.
pub const AUDIO_BIT_RATE: u32 = 128_000;

/// Code number of the AAC low complexity profile.
pub const AAC_LOW_COMPLEXITY: u8 = 2;

/// Code number of a sample rate of 48 kHz.
pub const FREQ_INDEX_48000: u8 = 3;

/// Code number of two channels, left and right.
pub const CHANNEL_CONFIG_STEREO: u8 = 2;

/// Room for one encoded frame of audio, in bytes.
pub const AAC_OUTPUT_LEN: usize = 4096;

/// A message that asks a running recording to stop.
pub struct Terminate;

/// Audio-specific encode state, present only when audio was asked for.
pub struct AudioState {
    pub encoder: fdk_aac::enc::Encoder,
    pub track_id: Option<u32>,
    /// Interleaved samples, kept until there are enough for one AAC frame.
    pub pcm: Vec<i16>,
    pub frame_count: u32,
}

/// The frames that came out of the encoder in `calls`. A call that gave no
/// bytes made no frame: the encoder looks ahead before it gives out its
/// first.
pub open spec fn coded_frames(calls: Seq<aac::Encoding>) -> Seq<Seq<u8>>
    decreases calls.len(),
{
    if calls.len() == 0 {
        Seq::empty()
    } else {
        let before = coded_frames(calls.drop_last());
        match calls.last().result {
            Ok(bytes) if bytes.len() > 0 => before.push(bytes),
            _ => before,
        }
    }
}

/// The contents of each of `buffers`.
pub open spec fn contents(buffers: Seq<Vec<u8>>) -> Seq<Seq<u8>> {
    buffers.map_values(|buffer: Vec<u8>| buffer@)
}

impl AudioState {
    /// The samples at hand once `bytes` have come in.
    pub open spec fn with_input(self, bytes: Seq<u8>) -> Seq<i16> {
        self.pcm@ + decode_s16le(bytes)
    }

    /// The encoder calls that have been made since `before`.
    pub open spec fn calls_since(self, before: AudioState) -> Seq<aac::Encoding> {
        aac::encodings(self.encoder).skip(aac::encodings(before.encoder).len() as int)
    }

    /// How the state after calls of the encoder relates to the state before
    /// `bytes` came in: it has been handed the complete frames of what is at
    /// hand, from the first on, one at a time; and only the last call can
    /// have failed.
    pub open spec fn input_handed_over(self, post: AudioState, bytes: Seq<u8>) -> bool {
        let frames = full_frames(self.with_input(bytes));
        let calls = post.calls_since(self);
        &&& aac::encodings(post.encoder) == aac::encodings(self.encoder) + calls
        &&& aac::settings(post.encoder) == aac::settings(self.encoder)
        &&& post.track_id == self.track_id
        &&& post.frame_count == self.frame_count
        &&& calls.len() <= frames.len()
        &&& forall|i: int|
            0 <= i < calls.len() ==> (#[trigger] calls[i]).samples == full_frames(
                self.with_input(bytes),
            )[i]
        &&& forall|i: int| 0 <= i < calls.len() - 1 ==> (#[trigger] calls[i]).result is Ok
    }

    /// How the state after `bytes` relates to the state before: every
    /// complete frame has been encoded, and what is left of the samples is
    /// kept.
    pub open spec fn input_encoded(self, post: AudioState, bytes: Seq<u8>) -> bool {
        let samples = self.with_input(bytes);
        let calls = post.calls_since(self);
        &&& self.input_handed_over(post, bytes)
        &&& calls.len() == full_frames(samples).len()
        &&& calls.len() > 0 ==> calls.last().result is Ok
        &&& post.pcm@ == leftover(samples)
    }

    /// How the state after `bytes` relates to the state before when the
    /// encoder failed: the samples from the frame that failed on are kept.
    pub open spec fn input_failed(self, post: AudioState, bytes: Seq<u8>, message: Seq<char>) -> bool {
        let samples = self.with_input(bytes);
        let calls = post.calls_since(self);
        &&& self.input_handed_over(post, bytes)
        &&& calls.len() > 0
        &&& calls.last().result matches Err(err) && exists|text: Seq<char>|
            #[trigger] displayed_as(err, text) && message == "AAC encode failed: "@ + text
        &&& post.pcm@ == samples.skip((calls.len() - 1) * FRAME_LEN)
    }

    /// Takes in raw samples and encodes every complete frame, keeping what is
    /// left for the next time. Gives back the frames that came out.
    ///
    /// When the encoder fails, the samples from the frame that failed on stay
    /// where they are, and what was encoded before it is dropped.
    pub fn encode_pending(&mut self, bytes: &[u8]) -> (result: Result<Vec<Vec<u8>>, String>)
        ensures
            match result {
                Ok(frames) => {
                    &&& old(self).input_encoded(*final(self), bytes@)
                    &&& contents(frames@) == coded_frames(final(self).calls_since(*old(self)))
                    &&& frames@.len() == coded_frames(final(self).calls_since(*old(self))).len()
                    &&& forall|i: int|
                        0 <= i < frames@.len() ==> (#[trigger] frames@[i])@ == coded_frames(
                            final(self).calls_since(*old(self)),
                        )[i]
                    &&& forall|i: int|
                        0 <= i < frames@.len() ==> 0 < (#[trigger] frames@[i])@.len()
                            <= AAC_OUTPUT_LEN
                },
                Err(message) => old(self).input_failed(*final(self), bytes@, message@),
            },
    {
        push_s16le(&mut self.pcm, bytes);
        let ghost samples = self.pcm@;
        let ghost before = aac::encodings(self.encoder);
        let ghost mut calls: Seq<aac::Encoding> = Seq::empty();
        let mut output: Vec<u8> = vec![0u8; AAC_OUTPUT_LEN];
        let mut frames: Vec<Vec<u8>> = Vec::new();
        assert(samples.skip(0) == samples);
        assert(before + calls == before);
        assert(contents(frames@) == Seq::<Seq<u8>>::empty());
        while self.pcm.len() >= FRAME_LEN
            invariant
                samples == old(self).with_input(bytes@),
                before == aac::encodings(old(self).encoder),
                aac::encodings(self.encoder) == before + calls,
                aac::settings(self.encoder) == aac::settings(old(self).encoder),
                self.track_id == old(self).track_id,
                self.frame_count == old(self).frame_count,
                output@.len() == AAC_OUTPUT_LEN,
                calls.len() * FRAME_LEN <= samples.len(),
                self.pcm@ == samples.skip(calls.len() * FRAME_LEN),
                forall|i: int|
                    0 <= i < calls.len() ==> (#[trigger] calls[i]).samples == full_frames(
                        samples,
                    )[i],
                forall|i: int| 0 <= i < calls.len() ==> (#[trigger] calls[i]).result is Ok,
                contents(frames@) == coded_frames(calls),
                forall|i: int|
                    0 <= i < frames@.len() ==> 0 < (#[trigger] frames@[i])@.len()
                        <= AAC_OUTPUT_LEN,
            decreases self.pcm@.len(),
        {
            let ghost n = calls.len() as int;
            let encoded: Result<usize, fdk_aac::enc::EncoderError> = aac::encode(
                &mut self.encoder,
                &self.pcm[0..FRAME_LEN],
                &mut output,
            );
            proof {
                let call = aac::encodings(self.encoder).last();
                assert(call.samples == full_frames(samples)[n]);
                assert((before + calls).push(call) == before + calls.push(call));
                assert(calls.push(call).drop_last() == calls);
                calls = calls.push(call);
            }
            match encoded {
                Ok(size) => {
                    let rest: Vec<i16> = self.pcm.split_off(FRAME_LEN);
                    self.pcm = rest;
                    if size > 0 {
                        let ghost frames_before = frames@;
                        let mut frame: Vec<u8> = Vec::new();
                        crate::nal::push_bytes(&mut frame, &output[0..size]);
                        frames.push(frame);
                        assert(contents(frames@) == contents(frames_before).push(frame@));
                    }
                },
                Err(err) => {
                    let text: String = display(&err);
                    assert(self.calls_since(*old(self)) == calls);
                    assert(displayed_as(calls.last().result->Err_0, text@));
                    return Err(join("AAC encode failed: ", text.as_str()));
                },
            }
        }
        assert(self.calls_since(*old(self)) == calls);
        assert forall|i: int| 0 <= i < frames@.len() implies (#[trigger] frames@[i])@
            == coded_frames(calls)[i] by {
            assert(contents(frames@)[i] == frames@[i]@);
        }
        Ok(frames)
    }
}

/// Mutable state shared between the video and (optional) audio streams of a
/// recording.
pub struct EncodeState {
    pub writer: Mp4Writer<Cursor<Vec<u8>>>,
    /// The writer numbers its tracks from one on, in the order they are
    /// added, and does not tell. The number of the next is kept here: either
    /// track is added when its first data arrives, in whichever order that
    /// happens, and its samples are written under its number afterwards.
    pub next_track_id: u32,
    /// When the recording started: the time of the first sample, video or
    /// audio. Samples are stamped with the time since then.
    pub start: Option<Instant>,
    /// The first thing that went wrong. Nothing more is encoded after it.
    pub error: Option<String>,
    pub encoder: openh264::encoder::Encoder,
    pub layout: Option<PixelLayout>,
    pub size: (usize, usize),
    pub video_track_id: Option<u32>,
    pub last_frame_at: Option<Instant>,
    pub frame_count: u32,
    pub audio: Option<AudioState>,
}

/// What the file of a recording says of itself.
pub open spec fn recording_movie() -> MovieView {
    MovieView {
        major_brand: BRAND_ISOM,
        minor_version: MINOR_VERSION,
        compatible_brands: seq![BRAND_ISOM, BRAND_ISO2, BRAND_AVC1, BRAND_MP41],
        timescale: TIMESCALE,
    }
}

/// What the audio encoder of a recording is set up for.
pub open spec fn audio_settings() -> aac::Settings {
    aac::Settings {
        bit_rate: AUDIO_BIT_RATE,
        sample_rate: AUDIO_SAMPLE_RATE,
        transport: aac::Transport::Raw,
        channels: aac::Channels::Stereo,
        profile: aac::Profile::LowComplexity,
    }
}

/// What to set up the audio encoder of a recording with.
pub fn audio_encoder_settings() -> (settings: aac::Settings)
    ensures
        settings == audio_settings(),
{
    aac::Settings {
        bit_rate: AUDIO_BIT_RATE,
        sample_rate: AUDIO_SAMPLE_RATE,
        transport: aac::Transport::Raw,
        channels: aac::Channels::Stereo,
        profile: aac::Profile::LowComplexity,
    }
}

/// A finished recording: the file, and what to tell of it.
pub struct Recording {
    pub file: Vec<u8>,
    pub frame_count: u32,
    pub size: (usize, usize),
    /// When the first sample was written, if any was.
    pub start: Option<Instant>,
    /// Frames of audio, if audio was asked for.
    pub audio_frames: Option<u32>,
}

/// The format of the audio track.
pub open spec fn audio_format() -> TrackFormat {
    TrackFormat::Aac {
        bitrate: AUDIO_BIT_RATE,
        object_type: AAC_LOW_COMPLEXITY,
        freq_index: FREQ_INDEX_48000,
        channel_config: CHANNEL_CONFIG_STEREO,
    }
}

/// The format of the video track. The container has sixteen bits for either
/// dimension.
pub open spec fn video_format(size: (usize, usize), sps: Seq<u8>, pps: Seq<u8>) -> TrackFormat {
    TrackFormat::Avc {
        width: (size.0 as int % 0x1_0000) as u16,
        height: (size.1 as int % 0x1_0000) as u16,
        sps,
        pps,
    }
}

/// A sample without a duration of its own, shown when it is decoded.
pub open spec fn plain_sample(start_time: u64, is_sync: bool, bytes: Seq<u8>) -> SampleView {
    SampleView { start_time, duration: 0, rendering_offset: 0, is_sync, bytes }
}

/// The timestamp of a sample that is written at `now`, in a recording that
/// started at `start`: the whole milliseconds in between, as far as 64 bits
/// hold them.
pub open spec fn stamp(start: Instant, now: Instant) -> u64 {
    (millis_between(start, now) % 0x1_0000_0000_0000_0000) as u64
}

/// Whether `samples` are those of `frames` of audio, one for each, written at
/// `times`, in a recording that started at `start`.
pub open spec fn are_audio_samples(
    samples: Seq<SampleView>,
    frames: Seq<Seq<u8>>,
    times: Seq<Instant>,
    start: Instant,
) -> bool {
    &&& samples.len() == frames.len()
    &&& forall|i: int|
        0 <= i < frames.len() ==> #[trigger] samples[i] == plain_sample(
            stamp(start, times[i]),
            true,
            frames[i],
        )
}

/// One, if there is such a track.
pub open spec fn one_if(track_id: Option<u32>) -> nat {
    if track_id is Some {
        1
    } else {
        0
    }
}

/// Whether `message` tells why there is no video encoder.
pub open spec fn video_encoder_refused(message: Seq<char>) -> bool {
    exists|err: openh264::Error| #[trigger] displayed_as(err, message)
}

/// Whether `message` tells that there is no audio encoder because of `err`.
pub open spec fn no_audio_encoder_message(
    err: fdk_aac::enc::EncoderError,
    message: Seq<char>,
) -> bool {
    exists|text: Seq<char>|
        #[trigger] displayed_as(err, text) && message == "failed to create AAC encoder: "@ + text
}

/// Whether `message` tells why there is no audio encoder.
pub open spec fn audio_encoder_refused(message: Seq<char>) -> bool {
    exists|err: fdk_aac::enc::EncoderError| #[trigger] no_audio_encoder_message(err, message)
}

impl EncodeState {
    /// Whether nothing has been recorded yet, of frames of the size that the
    /// screencast reported.
    pub open spec fn is_start(self, size: (i32, i32)) -> bool {
        &&& self.wf()
        &&& movie(self.writer) == recording_movie()
        &&& tracks(self.writer) == Seq::<Track>::empty()
        &&& self.start is None
        &&& self.error is None
        &&& self.layout is None
        &&& self.size == (at_least_zero(size.0), at_least_zero(size.1))
        &&& self.video_track_id is None
        &&& self.last_frame_at is None
        &&& self.audio matches Some(audio) ==> {
            &&& audio.track_id is None
            &&& audio.pcm@ == Seq::<i16>::empty()
        }
    }

    /// Starts a recording with the encoders that the codec libraries have
    /// given, or fails with the error of the first that they have not. The
    /// audio encoder is there if audio was asked for.
    pub fn with_encoders(
        size: (i32, i32),
        video: Result<openh264::encoder::Encoder, openh264::Error>,
        audio: Option<Result<fdk_aac::enc::Encoder, fdk_aac::enc::EncoderError>>,
    ) -> (result: Result<EncodeState, String>)
        ensures
            match (video, audio) {
                (Err(err), _) => result matches Err(message) && displayed_as(err, message@),
                (Ok(_), Some(Err(err))) => result matches Err(message)
                    && no_audio_encoder_message(err, message@),
                (Ok(encoder), Some(Ok(audio_encoder))) => {
                    &&& result matches Ok(state)
                    &&& state.is_start(size)
                    &&& state.encoder == encoder
                    &&& state.audio matches Some(audio)
                    &&& audio.encoder == audio_encoder
                },
                (Ok(encoder), None) => {
                    &&& result matches Ok(state)
                    &&& state.is_start(size)
                    &&& state.encoder == encoder
                    &&& state.audio is None
                },
            },
    {
        let mut compatible_brands: Vec<u32> = Vec::new();
        compatible_brands.push(BRAND_ISOM);
        compatible_brands.push(BRAND_ISO2);
        compatible_brands.push(BRAND_AVC1);
        compatible_brands.push(BRAND_MP41);
        let start: Movie = Movie {
            major_brand: BRAND_ISOM,
            minor_version: MINOR_VERSION,
            compatible_brands,
            timescale: TIMESCALE,
        };
        assert(start@.compatible_brands == recording_movie().compatible_brands);
        let writer: Mp4Writer<Cursor<Vec<u8>>> = match mux::write_start(start) {
            Ok(writer) => writer,
            Err(err) => return Err(display(&err)),
        };
        let encoder: openh264::encoder::Encoder = match video {
            Ok(encoder) => encoder,
            Err(err) => return Err(display(&err)),
        };
        let audio: Option<AudioState> = match audio {
            Some(Ok(encoder)) => Some(
                AudioState { encoder, track_id: None, pcm: Vec::new(), frame_count: 0 },
            ),
            Some(Err(err)) => {
                let text: String = display(&err);
                assert(displayed_as(err, text@));
                return Err(join("failed to create AAC encoder: ", text.as_str()));
            },
            None => None,
        };
        Ok(
            EncodeState {
                writer,
                next_track_id: 1,
                start: None,
                error: None,
                encoder,
                layout: None,
                size: (non_negative(size.0), non_negative(size.1)),
                video_track_id: None,
                last_frame_at: None,
                frame_count: 0,
                audio,
            },
        )
    }

    /// Starts a recording of frames of the size that the screencast reported,
    /// with or without audio. Whether the encoders can be had is up to the
    /// codec libraries; what comes of either answer, [`Self::with_encoders`]
    /// says.
    pub fn new(size: (i32, i32), with_audio: bool) -> (result: Result<EncodeState, String>)
        ensures
            match result {
                Ok(state) => {
                    &&& state.is_start(size)
                    &&& h264::encodings(state.encoder) == Seq::<h264::Encoding>::empty()
                    &&& state.audio is Some <==> with_audio
                    &&& state.audio matches Some(audio) ==> {
                        &&& aac::settings(audio.encoder) == audio_settings()
                        &&& aac::encodings(audio.encoder) == Seq::<aac::Encoding>::empty()
                    }
                },
                Err(message) => {
                    ||| video_encoder_refused(message@)
                    ||| with_audio && audio_encoder_refused(message@)
                },
            },
    {
        let video: Result<openh264::encoder::Encoder, openh264::Error> = h264::new_encoder();
        let audio: Option<Result<fdk_aac::enc::Encoder, fdk_aac::enc::EncoderError>> = if with_audio
            && video.is_ok() {
            Some(aac::new_encoder(audio_encoder_settings()))
        } else {
            None
        };
        Self::with_encoders(size, video, audio)
    }

    /// The number of the audio track, once there is one.
    pub open spec fn audio_track_id(self) -> Option<u32> {
        match self.audio {
            Some(audio) => audio.track_id,
            None => None,
        }
    }

    /// The state agrees with what the writer holds: the tracks are those that
    /// the state knows of, under the numbers it knows them by, each with as
    /// many samples as were counted.
    pub open spec fn wf(self) -> bool {
        let all = tracks(self.writer);
        &&& self.next_track_id == all.len() + 1
        &&& all.len() == one_if(self.video_track_id) + one_if(self.audio_track_id())
        &&& match self.video_track_id {
            Some(id) => {
                &&& 1 <= id <= all.len()
                &&& all[id - 1].format is Avc
                &&& all[id - 1].samples.len() == self.frame_count
            },
            None => self.frame_count == 0,
        }
        &&& match self.audio {
            Some(audio) => match audio.track_id {
                Some(id) => {
                    &&& 1 <= id <= all.len()
                    &&& all[id - 1].format == audio_format()
                    &&& all[id - 1].samples.len() == audio.frame_count
                    &&& forall|i: int|
                        0 <= i < all[id - 1].samples.len() ==> (#[trigger] all[id
                            - 1].samples[i]).bytes.len() <= AAC_OUTPUT_LEN
                },
                None => audio.frame_count == 0,
            },
            None => true,
        }
    }

    /// When the recording started, if a sample is written at `now`: then, if it
    /// has not before.
    pub open spec fn started_at(self, now: Instant) -> Instant {
        match self.start {
            Some(start) => start,
            None => now,
        }
    }

    /// The timestamp of a sample that is written at `now`. The first one starts
    /// the recording.
    pub fn timestamp_at(&mut self, now: Instant) -> (start_time: u64)
        ensures
            start_time == stamp(old(self).started_at(now), now),
            *final(self) == (EncodeState { start: Some(old(self).started_at(now)), ..*old(self) }),
            old(self).wf() ==> final(self).wf(),
    {
        let start: Instant = match self.start {
            Some(start) => start,
            None => now,
        };
        self.start = Some(start);
        (millis_since(start, now) % 0x1_0000_0000_0000_0000) as u64
    }

    /// Opens the video track, under the next track number.
    pub fn add_video_track(&mut self, sps: Vec<u8>, pps: Vec<u8>) -> (result: Result<(), String>)
        requires
            old(self).wf(),
            old(self).video_track_id is None,
            sps@.len() >= MIN_SPS_LEN,
        ensures
            result is Ok,
            final(self).wf(),
            movie(final(self).writer) == movie(old(self).writer),
            tracks(final(self).writer) == tracks(old(self).writer).push(
                Track { format: video_format(old(self).size, sps@, pps@), samples: Seq::empty() },
            ),
            tracks(final(self).writer).last().format matches TrackFormat::Avc {
                width,
                height,
                sps: track_sps,
                pps: track_pps,
            } && (width - old(self).size.0) % 0x1_0000 == 0 && (height - old(self).size.1)
                % 0x1_0000 == 0 && track_sps == sps@ && track_pps == pps@,
            *final(self) == (EncodeState {
                writer: final(self).writer,
                next_track_id: (old(self).next_track_id + 1) as u32,
                video_track_id: Some(old(self).next_track_id),
                ..*old(self)
            }),
    {
        let width: u16 = (self.size.0 % 0x1_0000) as u16;
        let height: u16 = (self.size.1 % 0x1_0000) as u16;
        let config: mp4::TrackConfig = mux::avc_track_config(width, height, sps, pps);
        match mux::add_track(&mut self.writer, &config) {
            Ok(()) => {
                self.video_track_id = Some(self.next_track_id);
                self.next_track_id = self.next_track_id + 1;
                Ok(())
            },
            Err(err) => Err(display(&err)),
        }
    }

    /// Writes one sample to the video track.
    pub fn write_video_sample(&mut self, bytes: Vec<u8>, is_sync: bool, start_time: u64) -> (result:
        Result<(), String>)
        requires
            old(self).wf(),
            old(self).video_track_id is Some,
            old(self).frame_count < MAX_SAMPLES,
        ensures
            result is Ok,
            final(self).wf(),
            movie(final(self).writer) == movie(old(self).writer),
            tracks(final(self).writer) == with_sample(
                tracks(old(self).writer),
                old(self).video_track_id->0,
                plain_sample(start_time, is_sync, bytes@),
            ),
            *final(self) == (EncodeState {
                writer: final(self).writer,
                frame_count: (old(self).frame_count + 1) as u32,
                ..*old(self)
            }),
    {
        let sample: Sample = Sample { start_time, duration: 0, rendering_offset: 0, is_sync, bytes };
        if let Some(track_id) = self.video_track_id {
            match mux::write_sample(&mut self.writer, track_id, sample) {
                Ok(()) => {},
                Err(err) => return Err(display(&err)),
            }
            self.frame_count = self.frame_count + 1;
        }
        Ok(())
    }

    /// Whether `unit` can be muxed: the video track is open, or `unit` has
    /// both parameter sets to open it with.
    pub open spec fn can_mux(self, unit: AccessUnitView) -> bool {
        self.video_track_id is Some || (unit.sps is Some && unit.pps is Some)
    }

    /// Whether muxing `unit` would open the video track with a sequence
    /// parameter set that names no profile and level.
    pub open spec fn sps_too_short(self, unit: AccessUnitView) -> bool {
        &&& self.video_track_id is None
        &&& unit.pps is Some
        &&& unit.sps matches Some(sps) && sps.len() < MIN_SPS_LEN
    }

    /// How the state after muxing one encoded frame at `now` relates to the
    /// state before.
    ///
    /// Until the parameter sets have come, nothing happens. With them the
    /// video track is opened, and stays. What is not empty becomes a sample
    /// of the track, which can be decoded from if the frame is an IDR frame;
    /// its timestamp is the time from the start of the recording, which its
    /// first sample makes, until `now`.
    pub open spec fn frame_muxed(
        self,
        post: EncodeState,
        unit: AccessUnitView,
        ty: FrameType,
        now: Instant,
    ) -> bool {
        if !self.can_mux(unit) {
            post == self
        } else {
            let (id, opened) = match self.video_track_id {
                Some(id) => (id, tracks(self.writer)),
                None => (
                    self.next_track_id,
                    tracks(self.writer).push(
                        Track {
                            format: video_format(self.size, unit.sps->0, unit.pps->0),
                            samples: Seq::empty(),
                        },
                    ),
                ),
            };
            let start = self.started_at(now);
            let has_sample = unit.sample.len() > 0;
            &&& tracks(post.writer) == if has_sample {
                with_sample(
                    opened,
                    id,
                    plain_sample(stamp(start, now), ty == FrameType::Idr, unit.sample),
                )
            } else {
                opened
            }
            &&& movie(post.writer) == movie(self.writer)
            &&& post == (EncodeState {
                writer: post.writer,
                next_track_id: (opened.len() + 1) as u32,
                video_track_id: Some(id),
                start: if has_sample {
                    Some(start)
                } else {
                    self.start
                },
                frame_count: if has_sample {
                    (self.frame_count + 1) as u32
                } else {
                    self.frame_count
                },
                ..self
            })
        }
    }

    /// Muxes the access unit of one encoded frame at `now`: opens the video track when
    /// the parameter sets are first seen, and writes the sample.
    pub fn mux_frame(&mut self, unit: AccessUnit, ty: FrameType, now: Instant) -> (result: Result<
        (),
        String,
    >)
        requires
            old(self).wf(),
            !old(self).sps_too_short(unit@),
            old(self).can_mux(unit@) && unit@.sample.len() > 0 ==> old(self).frame_count
                < MAX_SAMPLES,
        ensures
            result is Ok,
            final(self).wf(),
            old(self).frame_muxed(*final(self), unit@, ty, now),
    {
        let AccessUnit { sps, pps, sample } = unit;
        if self.video_track_id.is_none() {
            match (sps, pps) {
                (Some(sps), Some(pps)) => {
                    match self.add_video_track(sps, pps) {
                        Ok(()) => {},
                        Err(err) => return Err(err),
                    }
                },
                _ => return Ok(()),
            }
        }
        if sample.len() == 0 {
            return Ok(());
        }
        let start_time: u64 = self.timestamp_at(now);
        self.write_video_sample(sample, ty == FrameType::Idr, start_time)
    }

    /// Whether a buffer of `len` bytes with row pitch `stride` holds a frame
    /// of the current size. Both dimensions have to be even. A frame without
    /// pixels needs no bytes.
    pub open spec fn spec_frame_fits(self, stride: nat, len: nat) -> bool {
        let (width, height) = self.size;
        width == 0 || height == 0 || {
            &&& width % 2 == 0
            &&& height % 2 == 0
            &&& rows_fit(len, stride, (width * 4) as nat, height as nat)
        }
    }

    /// Whether a buffer of `len` bytes with row pitch `stride` holds a frame
    /// of the current size that can be encoded.
    pub fn frame_fits(&self, stride: usize, len: usize) -> (fits: bool)
        ensures
            fits == self.spec_frame_fits(stride as nat, len as nat),
    {
        let (width, height) = self.size;
        if width == 0 || height == 0 {
            return true;
        }
        if width % 2 != 0 || height % 2 != 0 {
            return false;
        }
        proof {
            assert(width * 4 <= width * 4 * height) by (nonlinear_arith)
                requires
                    height >= 1,
            ;
            assert(0 <= (height - 1) * stride) by (nonlinear_arith)
                requires
                    height >= 1,
            ;
        }
        let row_bytes: usize = match width.checked_mul(4) {
            Some(row_bytes) => row_bytes,
            None => return false,
        };
        let packed: usize = match row_bytes.checked_mul(height) {
            Some(packed) => packed,
            None => return false,
        };
        let last_row: usize = match (height - 1).checked_mul(stride) {
            Some(last_row) => last_row,
            None => return false,
        };
        let end: usize = match last_row.checked_add(row_bytes) {
            Some(end) => end,
            None => return false,
        };
        packed <= isize::MAX as usize && end <= len
    }

    /// How the state after encoding one raw frame relates to the state
    /// before, and what the result is.
    ///
    /// A frame without pixels is passed over. Any other is handed to the
    /// encoder, in packed rows, and muxed when the encoder has made something
    /// of it, at the time that the clock shows then; one that is too large for
    /// the encoder fails.
    pub open spec fn frame_encoded(
        self,
        post: EncodeState,
        layout: PixelLayout,
        stride: usize,
        bytes: Seq<u8>,
        result: Result<(), String>,
    ) -> bool {
        let (width, height) = self.size;
        if width == 0 || height == 0 {
            result is Ok && post == self
        } else {
            let encoding = h264::encodings(post.encoder).last();
            let encoded = EncodeState { encoder: post.encoder, ..self };
            &&& h264::encodings(post.encoder) == h264::encodings(self.encoder).push(encoding)
            &&& encoding.picture == (Picture {
                layout,
                width,
                height,
                pixels: packed_rows(bytes, stride as nat, (width * 4) as nat, height as nat),
            })
            &&& h264::too_large(width, height) ==> encoding.result is Err
            &&& match encoding.result {
                Err(err) => {
                    &&& result matches Err(message) && displayed_as(err, message@)
                    &&& post == encoded
                },
                Ok(coded) => {
                    let unit = access_unit(coded.layers.flatten());
                    if self.sps_too_short(unit) {
                        &&& result matches Err(message) && message@
                            == "encoder gave a malformed sequence parameter set"@
                        &&& post == encoded
                    } else {
                        &&& result is Ok
                        &&& exists|now: Instant| #[trigger]
                            encoded.frame_muxed(post, unit, coded.frame_type, now)
                    }
                },
            }
        }
    }

    /// Encodes one raw frame and muxes what comes out.
    ///
    /// The frame is handed to the encoder in packed rows. A failing encoder
    /// ends the call, as does a sequence parameter set that the container
    /// cannot take; otherwise the frame is muxed.
    pub fn encode_frame(&mut self, layout: PixelLayout, stride: usize, bytes: &[u8]) -> (result:
        Result<(), String>)
        requires
            old(self).wf(),
            old(self).spec_frame_fits(stride as nat, bytes@.len()),
            old(self).size.0 > 0 && old(self).size.1 > 0 ==> old(self).frame_count < MAX_SAMPLES,
        ensures
            final(self).wf(),
            old(self).frame_encoded(*final(self), layout, stride, bytes@, result),
    {
        let (width, height) = self.size;
        if width == 0 || height == 0 {
            return Ok(());
        }
        proof {
            assert(width * 4 <= width * 4 * height) by (nonlinear_arith)
                requires
                    height >= 1,
            ;
            assert((width * 4) * height == width * height * 4) by (nonlinear_arith);
        }
        let packed: Vec<u8> = repack_rows(bytes, stride, width * 4, height);
        let yuv: openh264::formats::YUVBuffer = h264::to_yuv(
            layout,
            packed.as_slice(),
            width,
            height,
        );
        let (unit, ty) = match h264::encode(&mut self.encoder, &yuv) {
            Ok(stream) => (h264::read_access_unit(&stream), h264::frame_type(&stream)),
            Err(err) => return Err(display(&err)),
        };
        if self.video_track_id.is_none() && unit.pps.is_some() {
            if let Some(sps) = &unit.sps {
                if sps.len() < MIN_SPS_LEN {
                    return Err("encoder gave a malformed sequence parameter set".to_owned());
                }
            }
        }
        let ghost encoded = *self;
        let now: Instant = Instant::now();
        let result: Result<(), String> = self.mux_frame(unit, ty, now);
        assert(encoded.frame_muxed(*self, unit@, ty, now));
        result
    }

    /// How the state after muxing encoded frames of audio, at `times`, relates
    /// to the state before.
    ///
    /// The first frame opens the audio track. Every frame becomes a sample of
    /// it, in order, from which decoding can start; the timestamps are
    /// the times from the start of the recording, which its first sample makes.
    pub open spec fn audio_muxed(
        self,
        post: EncodeState,
        frames: Seq<Seq<u8>>,
        times: Seq<Instant>,
    ) -> bool {
        if frames.len() == 0 {
            times.len() == 0 && post == self
        } else {
            let start = self.started_at(times[0]);
            let audio = self.audio->0;
            let (id, opened) = match audio.track_id {
                Some(id) => (id, tracks(self.writer)),
                None => (
                    self.next_track_id,
                    tracks(self.writer).push(
                        Track { format: audio_format(), samples: Seq::empty() },
                    ),
                ),
            };
            let before = opened[id - 1].samples;
            let added = tracks(post.writer)[id - 1].samples.skip(before.len() as int);
            &&& tracks(post.writer) == opened.update(
                id - 1,
                Track { format: opened[id - 1].format, samples: before + added },
            )
            &&& times.len() == frames.len()
            &&& are_audio_samples(added, frames, times, start)
            &&& movie(post.writer) == movie(self.writer)
            &&& post == (EncodeState {
                writer: post.writer,
                next_track_id: (opened.len() + 1) as u32,
                start: Some(start),
                audio: Some(
                    AudioState {
                        track_id: Some(id),
                        frame_count: (audio.frame_count + frames.len()) as u32,
                        ..audio
                    },
                ),
                ..self
            })
        }
    }

    /// Opens the audio track, under the next track number.
    pub fn add_audio_track(&mut self) -> (result: Result<(), String>)
        requires
            old(self).wf(),
            old(self).audio is Some,
            old(self).audio_track_id() is None,
        ensures
            result is Ok,
            final(self).wf(),
            movie(final(self).writer) == movie(old(self).writer),
            tracks(final(self).writer) == tracks(old(self).writer).push(
                Track { format: audio_format(), samples: Seq::empty() },
            ),
            *final(self) == (EncodeState {
                writer: final(self).writer,
                next_track_id: (old(self).next_track_id + 1) as u32,
                audio: Some(
                    AudioState {
                        track_id: Some(old(self).next_track_id),
                        ..old(self).audio->0
                    },
                ),
                ..*old(self)
            }),
    {
        let config: mp4::TrackConfig = match mux::aac_track_config(
            AUDIO_BIT_RATE,
            AAC_LOW_COMPLEXITY,
            FREQ_INDEX_48000,
            CHANNEL_CONFIG_STEREO,
        ) {
            Ok(config) => config,
            Err(err) => return Err(display(&err)),
        };
        match mux::add_track(&mut self.writer, &config) {
            Ok(()) => {},
            Err(err) => return Err(display(&err)),
        }
        let track_id: u32 = self.next_track_id;
        self.next_track_id = track_id + 1;
        if let Some(audio) = &mut self.audio {
            audio.track_id = Some(track_id);
        }
        Ok(())
    }

    /// Writes one sample to the audio track.
    pub fn write_audio_sample(&mut self, bytes: Vec<u8>, start_time: u64) -> (result: Result<
        (),
        String,
    >)
        requires
            old(self).wf(),
            old(self).audio_track_id() is Some,
            old(self).audio->0.frame_count < MAX_SAMPLES,
            bytes@.len() <= AAC_OUTPUT_LEN,
        ensures
            result is Ok,
            final(self).wf(),
            movie(final(self).writer) == movie(old(self).writer),
            tracks(final(self).writer) == with_sample(
                tracks(old(self).writer),
                old(self).audio_track_id()->0,
                plain_sample(start_time, true, bytes@),
            ),
            *final(self) == (EncodeState {
                writer: final(self).writer,
                audio: Some(
                    AudioState {
                        frame_count: (old(self).audio->0.frame_count + 1) as u32,
                        ..old(self).audio->0
                    },
                ),
                ..*old(self)
            }),
    {
        let sample: Sample = Sample {
            start_time,
            duration: 0,
            rendering_offset: 0,
            is_sync: true,
            bytes,
        };
        if let Some(audio) = &mut self.audio {
            if let Some(track_id) = audio.track_id {
                match mux::write_sample(&mut self.writer, track_id, sample) {
                    Ok(()) => {},
                    Err(err) => return Err(display(&err)),
                }
                audio.frame_count = audio.frame_count + 1;
            }
        }
        Ok(())
    }

    /// Muxes one encoded frame of audio at `now`: opens the audio track if it is the
    /// first, and writes the sample.
    pub fn mux_audio_frame(&mut self, frame: Vec<u8>, now: Instant) -> (result: Result<
        (),
        String,
    >)
        requires
            old(self).wf(),
            old(self).audio is Some,
            old(self).audio->0.frame_count < MAX_SAMPLES,
            frame@.len() <= AAC_OUTPUT_LEN,
        ensures
            result is Ok,
            final(self).wf(),
            old(self).audio_muxed(*final(self), seq![frame@], seq![now]),
    {
        let is_open: bool = match &self.audio {
            Some(audio) => audio.track_id.is_some(),
            None => false,
        };
        if !is_open {
            match self.add_audio_track() {
                Ok(()) => {},
                Err(err) => return Err(err),
            }
        }
        let ghost opened = *self;
        let start_time: u64 = self.timestamp_at(now);
        let result: Result<(), String> = self.write_audio_sample(frame, start_time);
        proof {
            let id = opened.audio_track_id()->0;
            let before = tracks(opened.writer)[id - 1].samples;
            let added = tracks(self.writer)[id - 1].samples.skip(before.len() as int);
            assert(added == seq![plain_sample(start_time, true, frame@)]);
            assert(before + added == before.push(plain_sample(start_time, true, frame@)));
        }
        result
    }

    /// Whether the audio track has room for all the frames that may come out
    /// once `len` bytes have come in.
    pub open spec fn spec_audio_fits(self, len: nat) -> bool {
        self.audio matches Some(audio) ==> audio.frame_count + (audio.pcm@.len() + len / 2)
            / FRAME_LEN as nat <= MAX_SAMPLES
    }

    /// How the state after taking in a buffer of audio relates to the state
    /// before, and what the result is.
    pub open spec fn audio_encoded(
        self,
        post: EncodeState,
        bytes: Seq<u8>,
        result: Result<(), String>,
    ) -> bool {
        match self.audio {
            None => result is Ok && post == self,
            Some(audio) => {
                let encoded = AudioState {
                    track_id: audio.track_id,
                    frame_count: audio.frame_count,
                    ..post.audio->0
                };
                let state = EncodeState { audio: Some(encoded), ..self };
                &&& post.audio is Some
                &&& match result {
                    Ok(()) => {
                        &&& audio.input_encoded(encoded, bytes)
                        &&& exists|times: Seq<Instant>| #[trigger]
                            state.audio_muxed(
                                post,
                                coded_frames(encoded.calls_since(audio)),
                                times,
                            )
                    },
                    Err(message) => {
                        &&& audio.input_failed(encoded, bytes, message@)
                        &&& post == state
                    },
                }
            },
        }
    }

    /// Accumulates interleaved samples of audio, encodes complete AAC frames
    /// as they become available, and muxes each one. Samples short of a full
    /// frame stay buffered for the next call. Without audio, nothing happens.
    pub fn encode_audio(&mut self, bytes: &[u8]) -> (result: Result<(), String>)
        requires
            old(self).wf(),
            old(self).spec_audio_fits(bytes@.len()),
        ensures
            final(self).wf(),
            old(self).audio_encoded(*final(self), bytes@, result),
    {
        let frames: Vec<Vec<u8>> = match &mut self.audio {
            None => return Ok(()),
            Some(audio) => match audio.encode_pending(bytes) {
                Ok(frames) => frames,
                Err(message) => return Err(message),
            },
        };
        let ghost state = *self;
        let ghost encoded = self.audio->0;
        let ghost coded = contents(frames@);
        proof {
            lemma_coded_frames_len(encoded.calls_since(old(self).audio->0));
            assert(coded.take(0) == Seq::<Seq<u8>>::empty());
        }
        let ghost mut times: Seq<Instant> = Seq::empty();
        for frame in it: frames
            invariant
                it.seq() == frames@,
                coded == contents(frames@),
                state.wf(),
                state.audio == Some(encoded),
                encoded.frame_count + coded.len() <= MAX_SAMPLES,
                forall|i: int|
                    0 <= i < frames@.len() ==> 0 < (#[trigger] frames@[i])@.len()
                        <= AAC_OUTPUT_LEN,
                self.wf(),
                state.audio_muxed(*self, coded.take(it.index() as int), times),
        {
            let ghost middle = *self;
            let ghost i = it.index() as int;
            let now: Instant = Instant::now();
            match self.mux_audio_frame(frame, now) {
                Ok(()) => {},
                Err(message) => return Err(message),
            }
            proof {
                lemma_audio_muxed_concat(
                    state,
                    middle,
                    *self,
                    coded.take(i),
                    seq![frame@],
                    times,
                    seq![now],
                );
                assert(coded.take(i) + seq![frame@] == coded.take(i + 1));
                times = times + seq![now];
            }
        }
        assert(coded.take(coded.len() as int) == coded);
        Ok(())
    }

    /// Takes up what the video stream has agreed on: from then on, frames
    /// have this layout and size. What is not raw video, or has a pixel format
    /// that the encoder cannot take, is passed over.
    pub fn format_changed(
        &mut self,
        media_type: MediaType,
        media_subtype: MediaSubtype,
        format: VideoFormat,
        width: u32,
        height: u32,
    )
        ensures
            *final(self) == if media_type == MediaType::Video && media_subtype == MediaSubtype::Raw
                && format.spec_layout() is Some {
                EncodeState {
                    layout: format.spec_layout(),
                    size: (width as usize, height as usize),
                    ..*old(self)
                }
            } else {
                *old(self)
            },
            old(self).wf() ==> final(self).wf(),
    {
        if media_type != MediaType::Video || media_subtype != MediaSubtype::Raw {
            return;
        }
        if let Some(layout) = format.layout() {
            self.layout = Some(layout);
            self.size = (width as usize, height as usize);
        }
    }

    /// How the state after deciding on a video buffer that comes at `now`
    /// relates to the state before, and what the decision is.
    ///
    /// A buffer is let through if nothing has gone wrong, and enough time has
    /// passed since the last one that was. It counts as the last from then
    /// on.
    pub open spec fn frame_admitted(
        self,
        post: EncodeState,
        layout: Option<PixelLayout>,
        now: Instant,
    ) -> bool {
        if self.error is None && frame_due(self.last_frame_at, now) {
            &&& layout == self.layout
            &&& post == (EncodeState { last_frame_at: Some(now), ..self })
        } else {
            &&& layout is None
            &&& post == self
        }
    }

    /// Decides on a video buffer that comes at `now`. One that is let through
    /// is to be encoded in the layout returned; while no layout has been agreed
    /// on, there is none.
    ///
    /// Buffers that come too fast are dropped, however fast the stream
    /// delivers them and however slow the encoder is: a thread that is always
    /// busy encoding never gets to see that it should stop.
    pub fn admit_frame(&mut self, now: Instant) -> (layout: Option<PixelLayout>)
        ensures
            old(self).frame_admitted(*final(self), layout, now),
            old(self).wf() ==> final(self).wf(),
    {
        if self.error.is_some() {
            return None;
        }
        let due: bool = match self.last_frame_at {
            Some(last) => millis_since(last, now) >= MIN_FRAME_INTERVAL_MILLIS,
            None => true,
        };
        if !due {
            return None;
        }
        self.last_frame_at = Some(now);
        self.layout
    }

    /// Decides on a video buffer that has just come, by the clock.
    pub fn next_frame(&mut self) -> (layout: Option<PixelLayout>)
        ensures
            exists|now: Instant| #[trigger]
                old(self).frame_admitted(*final(self), layout, now),
            old(self).wf() ==> final(self).wf(),
    {
        let now: Instant = Instant::now();
        self.admit_frame(now)
    }

    /// Encodes one raw frame, and keeps the error if that fails.
    pub fn record_frame(&mut self, layout: PixelLayout, stride: usize, bytes: &[u8])
        requires
            old(self).wf(),
            old(self).error is None,
            old(self).spec_frame_fits(stride as nat, bytes@.len()),
            old(self).size.0 > 0 && old(self).size.1 > 0 ==> old(self).frame_count < MAX_SAMPLES,
        ensures
            final(self).wf(),
            exists|encoded: EncodeState, result: Result<(), String>|
                {
                    &&& #[trigger] old(self).frame_encoded(
                        encoded,
                        layout,
                        stride,
                        bytes@,
                        result,
                    )
                    &&& *final(self) == encoded.with_outcome(result)
                },
    {
        let result: Result<(), String> = self.encode_frame(layout, stride, bytes);
        let ghost encoded = *self;
        assert(old(self).frame_encoded(encoded, layout, stride, bytes@, result));
        if let Err(message) = result {
            self.error = Some(message);
        }
        assert(*self == encoded.with_outcome(result));
    }

    /// This state, with the error that `result` holds, if it holds one.
    pub open spec fn with_outcome(self, result: Result<(), String>) -> EncodeState {
        match result {
            Ok(()) => self,
            Err(message) => EncodeState { error: Some(message), ..self },
        }
    }

    /// Takes in one buffer of audio, unless something has gone wrong before,
    /// and keeps the error if that fails.
    pub fn record_audio(&mut self, bytes: &[u8])
        requires
            old(self).wf(),
            old(self).error is None ==> old(self).spec_audio_fits(bytes@.len()),
        ensures
            final(self).wf(),
            old(self).error is Some ==> *final(self) == *old(self),
            old(self).error is None ==> exists|encoded: EncodeState, result: Result<(), String>|
                {
                    &&& #[trigger] old(self).audio_encoded(encoded, bytes@, result)
                    &&& *final(self) == encoded.with_outcome(result)
                },
    {
        if self.error.is_some() {
            return;
        }
        let result: Result<(), String> = self.encode_audio(bytes);
        let ghost encoded = *self;
        assert(old(self).audio_encoded(encoded, bytes@, result));
        if let Err(message) = result {
            self.error = Some(message);
        }
        assert(*self == encoded.with_outcome(result));
    }

    /// Whether the audio track has room for all the frames that may come out
    /// once `len` bytes have come in.
    pub fn audio_fits(&self, len: usize) -> (fits: bool)
        ensures
            fits == self.spec_audio_fits(len as nat),
    {
        match &self.audio {
            Some(audio) => {
                let samples: u128 = audio.pcm.len() as u128 + (len / 2) as u128;
                audio.frame_count as u128 + samples / (FRAME_LEN as u128) <= MAX_SAMPLES as u128
            },
            None => true,
        }
    }

    /// Ends the recording. If something went wrong on the way, that is all
    /// that comes of it; otherwise the file is finished.
    pub fn finish(self) -> (result: Result<Recording, String>)
        requires
            self.wf(),
        ensures
            match self.error {
                Some(message) => result == Err::<Recording, String>(message),
                None => {
                    &&& result matches Ok(recording)
                    &&& recording.file@ == mp4_file(movie(self.writer), tracks(self.writer))
                    &&& recording.frame_count == self.frame_count
                    &&& recording.size == self.size
                    &&& recording.start == self.start
                    &&& recording.audio_frames == match self.audio {
                        Some(audio) => Some(audio.frame_count),
                        None => None,
                    }
                },
            },
    {
        if let Some(message) = self.error {
            return Err(message);
        }
        let audio_frames: Option<u32> = match &self.audio {
            Some(audio) => Some(audio.frame_count),
            None => None,
        };
        let file: Vec<u8> = match mux::write_end(self.writer) {
            Ok(file) => file,
            Err(err) => return Err(display(&err)),
        };
        Ok(
            Recording {
                file,
                frame_count: self.frame_count,
                size: self.size,
                start: self.start,
                audio_frames,
            },
        )
    }
}

/// Whether a frame that comes at `now` is to be encoded, if the last came at
/// `last`: the first is, and any other once the interval has passed.
pub open spec fn frame_due(last: Option<Instant>, now: Instant) -> bool {
    last matches Some(last) ==> millis_between(last, now) >= MIN_FRAME_INTERVAL_MILLIS
}

/// A NAL unit that is no parameter set leaves the sample with something in it.
proof fn lemma_picture_nal_fills_sample(nals: Seq<Seq<u8>>, i: int, payload: Seq<u8>)
    requires
        0 <= i < nals.len(),
        is_annex_b(nals[i], payload),
        payload.len() > 0,
        payload[0] % 32 != 7,
        payload[0] % 32 != 8,
    ensures
        access_unit(nals).sample.len() > 0,
    decreases nals.len(),
{
    let init = nals.drop_last();
    assert(init.push(nals.last()) == nals);
    lemma_access_unit_push(init, nals.last());
    if i == nals.len() - 1 {
        law_picture_nal_joins_the_sample(init, nals[i], payload);
    } else {
        lemma_picture_nal_fills_sample(init, i, payload);
    }
}

/// No more frames come out of the encoder than calls are made.
proof fn lemma_coded_frames_len(calls: Seq<aac::Encoding>)
    ensures
        coded_frames(calls).len() <= calls.len(),
    decreases calls.len(),
{
    if calls.len() > 0 {
        lemma_coded_frames_len(calls.drop_last());
    }
}

/// The frames of some calls and then some more are those of all of them.
proof fn lemma_coded_frames_concat(calls: Seq<aac::Encoding>, more: Seq<aac::Encoding>)
    ensures
        coded_frames(calls + more) == coded_frames(calls) + coded_frames(more),
    decreases more.len(),
{
    if more.len() == 0 {
        assert(calls + more == calls);
        assert(coded_frames(calls) + coded_frames(more) == coded_frames(calls));
    } else {
        assert((calls + more).drop_last() == calls + more.drop_last());
        assert((calls + more).last() == more.last());
        lemma_coded_frames_concat(calls, more.drop_last());
    }
}

/// Muxing some frames and then some more is muxing them all.
proof fn lemma_audio_muxed_concat(
    first: EncodeState,
    middle: EncodeState,
    last: EncodeState,
    frames: Seq<Seq<u8>>,
    more: Seq<Seq<u8>>,
    times: Seq<Instant>,
    more_times: Seq<Instant>,
)
    requires
        first.wf(),
        first.audio is Some,
        first.audio_muxed(middle, frames, times),
        middle.audio_muxed(last, more, more_times),
        first.audio->0.frame_count + frames.len() + more.len() <= MAX_SAMPLES,
    ensures
        first.audio_muxed(last, frames + more, times + more_times),
{
    let all = frames + more;
    let all_times = times + more_times;
    if frames.len() == 0 {
        assert(all == more);
        assert(all_times == more_times);
    } else if more.len() == 0 {
        assert(all == frames);
        assert(all_times == times);
    } else {
        let start = first.started_at(times[0]);
        let audio = first.audio->0;
        let id = match audio.track_id {
            Some(id) => id,
            None => first.next_track_id,
        };
        let opened = match audio.track_id {
            Some(id) => tracks(first.writer),
            None => tracks(first.writer).push(
                Track { format: audio_format(), samples: Seq::empty() },
            ),
        };
        let before = opened[id - 1].samples;
        let added1 = tracks(middle.writer)[id - 1].samples.skip(before.len() as int);
        let between = tracks(middle.writer)[id - 1].samples;
        let added2 = tracks(last.writer)[id - 1].samples.skip(between.len() as int);
        let added = tracks(last.writer)[id - 1].samples.skip(before.len() as int);
        assert(between == before + added1);
        assert(tracks(last.writer)[id - 1].samples == between + added2);
        assert(added == added1 + added2);
        assert(before + added == between + added2);
        assert(are_audio_samples(added, all, all_times, start)) by {
            assert forall|i: int| 0 <= i < all.len() implies #[trigger] added[i] == plain_sample(
                stamp(start, all_times[i]),
                true,
                all[i],
            ) by {
                if i < frames.len() {
                    assert(added[i] == added1[i]);
                } else {
                    assert(added[i] == added2[i - frames.len()]);
                }
            }
        }
        assert(tracks(last.writer) == opened.update(
            id - 1,
            Track { format: opened[id - 1].format, samples: before + added },
        ));
    }
}

/// Each track has a number of its own, and the number leads to the right
/// track: video under the number of video, audio under that of audio.
pub proof fn law_track_numbers(state: EncodeState)
    requires
        state.wf(),
    ensures
        state.video_track_id matches Some(video) ==> tracks(state.writer)[video - 1].format is Avc,
        state.audio_track_id() matches Some(audio) ==> tracks(state.writer)[audio - 1].format
            == audio_format(),
        state.video_track_id is Some && state.audio_track_id() is Some ==> state.video_track_id
            != state.audio_track_id(),
{
}

/// Whether every track of `before` is there in `after`, in its place and with
/// its format, and has all its samples still, in order.
pub open spec fn only_grown(before: Seq<Track>, after: Seq<Track>) -> bool {
    &&& before.len() <= after.len()
    &&& forall|t: int|
        0 <= t < before.len() ==> (#[trigger] after[t]).format == before[t].format
            && before[t].samples.is_prefix_of(after[t].samples)
}

/// What has been recorded stays: encoding a frame, whatever comes of it,
/// changes no track but by adding to it, a track that has a number keeps it,
/// and a recording that has started keeps its start. Neither does it change
/// when the last frame was let through.
pub proof fn law_frame_only_adds(
    pre: EncodeState,
    post: EncodeState,
    layout: PixelLayout,
    stride: usize,
    bytes: Seq<u8>,
    result: Result<(), String>,
)
    requires
        pre.wf(),
        pre.frame_encoded(post, layout, stride, bytes, result),
    ensures
        only_grown(tracks(pre.writer), tracks(post.writer)),
        pre.video_track_id is Some ==> post.video_track_id == pre.video_track_id,
        pre.start is Some ==> post.start == pre.start,
        post.last_frame_at == pre.last_frame_at,
        post.audio == pre.audio,
{
}

/// What has been recorded stays: taking in audio, whatever comes of it,
/// changes no track but by adding to it, a track that has a number keeps it,
/// and a recording that has started keeps its start. Neither does it change
/// when the last frame was let through.
pub proof fn law_audio_only_adds(
    pre: EncodeState,
    post: EncodeState,
    bytes: Seq<u8>,
    result: Result<(), String>,
)
    requires
        pre.wf(),
        pre.audio_encoded(post, bytes, result),
    ensures
        only_grown(tracks(pre.writer), tracks(post.writer)),
        post.video_track_id == pre.video_track_id,
        pre.audio_track_id() is Some ==> post.audio_track_id() == pre.audio_track_id(),
        pre.start is Some ==> post.start == pre.start,
        post.last_frame_at == pre.last_frame_at,
{
}

/// A picture that was recorded can be read back: when encoding a frame added
/// a sample to the video track, the NAL units in that sample are those that
/// the encoder made of the frame, in order, without the parameter sets, as
/// long as each is short enough for its length to fit four bytes.
pub proof fn law_recorded_picture_reads_back(
    pre: EncodeState,
    post: EncodeState,
    layout: PixelLayout,
    stride: usize,
    bytes: Seq<u8>,
    result: Result<(), String>,
)
    requires
        pre.wf(),
        pre.frame_count < MAX_SAMPLES,
        pre.frame_encoded(post, layout, stride, bytes, result),
        post.frame_count != pre.frame_count,
        h264::encodings(post.encoder).last().result matches Ok(coded) ==> forall|i: int|
            0 <= i < coded.layers.flatten().len() ==> (#[trigger] coded.layers.flatten()[i]).len()
                < 0x1_0000_0000,
    ensures
        h264::encodings(post.encoder).last().result is Ok,
        post.video_track_id is Some,
        parse_avcc(tracks(post.writer)[post.video_track_id->0 - 1].samples.last().bytes) == Some(
            sample_payloads(h264::encodings(post.encoder).last().result->Ok_0.layers.flatten()),
        ),
{
    let coded = h264::encodings(post.encoder).last().result->Ok_0;
    law_sample_holds_its_nals(coded.layers.flatten());
}

/// Frames that are encoded lie apart: from the last that was let through to
/// the next there is at least the interval. One that comes sooner is dropped,
/// and does not put off the next.
pub proof fn law_frames_lie_apart(
    pre: EncodeState,
    post: EncodeState,
    layout: Option<PixelLayout>,
    now: Instant,
)
    requires
        pre.frame_admitted(post, layout, now),
        pre.last_frame_at is Some,
    ensures
        layout is Some ==> post.last_frame_at == Some(now),
        layout is Some || post != pre ==> {
            &&& post.last_frame_at is Some
            &&& millis_between(pre.last_frame_at->0, post.last_frame_at->0)
                >= MIN_FRAME_INTERVAL_MILLIS
        },
        millis_between(pre.last_frame_at->0, now) < MIN_FRAME_INTERVAL_MILLIS ==> layout is None
            && post == pre,
{
}

/// Not only two frames in turn lie apart, but any two: among the times at
/// which frames were let through, each due after the one before, there are as
/// many intervals between two as there are steps from one to the other.
pub proof fn law_any_two_frames_lie_apart(times: Seq<Instant>, i: int, j: int)
    requires
        0 <= i < j < times.len(),
        forall|k: int|
            0 < k < times.len() ==> frame_due(Some(times[k - 1]), #[trigger] times[k]),
    ensures
        millis_between(times[i], times[j]) >= MIN_FRAME_INTERVAL_MILLIS * (j - i),
        frame_due(Some(times[i]), times[j]),
    decreases j - i,
{
    assert(frame_due(Some(times[j - 1]), times[j]));
    if i < j - 1 {
        law_any_two_frames_lie_apart(times, i, j - 1);
        assert(reading(times[j]) - reading(times[i]) >= 1_000_000 * (MIN_FRAME_INTERVAL_MILLIS * (j
            - i)));
    }
}

/// Timestamps follow the clock: the first sample starts the recording and is
/// stamped with zero, and one that is written later has no earlier stamp, as
/// long as 64 bits hold it.
pub proof fn law_stamps_follow_the_clock(start: Instant, now: Instant, later: Instant)
    requires
        reading(now) <= reading(later),
        millis_between(start, later) < 0x1_0000_0000_0000_0000,
    ensures
        stamp(start, start) == 0,
        stamp(start, now) <= stamp(start, later),
        stamp(start, later) == millis_between(start, later),
{
}

/// The first error is the one that counts: after it no frame is let through,
/// and nothing changes any more.
pub proof fn law_first_error_stays(
    pre: EncodeState,
    post: EncodeState,
    layout: Option<PixelLayout>,
    now: Instant,
)
    requires
        pre.error is Some,
        pre.frame_admitted(post, layout, now),
    ensures
        layout is None,
        post == pre,
{
}

/// How the stream cuts audio into buffers makes no difference: two buffers in
/// turn hand the encoder the same frames as both in one, and leave the same
/// samples over, as long as the first does not end in the middle of a sample.
pub proof fn law_audio_in_parts(
    first: AudioState,
    middle: AudioState,
    last: AudioState,
    bytes: Seq<u8>,
    more: Seq<u8>,
)
    requires
        bytes.len() % 2 == 0,
        first.input_encoded(middle, bytes),
        middle.input_encoded(last, more),
    ensures
        first.input_encoded(last, bytes + more),
{
    let samples = first.with_input(bytes);
    let added = decode_s16le(more);
    law_decoding_in_parts(bytes, more);
    assert(first.with_input(bytes + more) == samples + added);
    law_buffering(samples, added);
    let frames1 = full_frames(samples);
    let frames2 = full_frames(leftover(samples) + added);
    let calls1 = middle.calls_since(first);
    let calls2 = last.calls_since(middle);
    let calls = last.calls_since(first);
    assert(calls == calls1 + calls2);
    assert(aac::encodings(last.encoder) == aac::encodings(first.encoder) + calls);
    assert forall|i: int| 0 <= i < calls.len() implies (#[trigger] calls[i]).samples
        == full_frames(first.with_input(bytes + more))[i] && calls[i].result is Ok by {
        if i < calls1.len() {
            assert(calls[i] == calls1[i]);
            assert(calls1[i].samples == frames1[i]);
        } else {
            let j = i - calls1.len();
            assert(calls[i] == calls2[j]);
            assert(calls2[j].samples == frames2[j]);
        }
    }
}

/// How the stream cuts audio into buffers makes no difference to the recording
/// either: taking in two buffers in turn is, in the frames encoded, the
/// samples written, the track's number and the count of its frames, one way of
/// taking in both at once. The first must not end in the middle of a sample,
/// and the track must have room.
pub proof fn law_recorded_audio_in_parts(
    first: EncodeState,
    middle: EncodeState,
    last: EncodeState,
    bytes: Seq<u8>,
    more: Seq<u8>,
)
    requires
        first.wf(),
        bytes.len() % 2 == 0,
        first.spec_audio_fits(bytes.len() + more.len()),
        first.audio_encoded(middle, bytes, Ok(())),
        middle.audio_encoded(last, more, Ok(())),
    ensures
        first.audio_encoded(last, bytes + more, Ok(())),
{
    if first.audio is Some {
        let audio = first.audio->0;
        let audio1 = middle.audio->0;
        let audio2 = last.audio->0;
        let encoded1 = AudioState {
            track_id: audio.track_id,
            frame_count: audio.frame_count,
            ..audio1
        };
        let encoded2 = AudioState {
            track_id: audio1.track_id,
            frame_count: audio1.frame_count,
            ..audio2
        };
        let encoded = AudioState {
            track_id: audio.track_id,
            frame_count: audio.frame_count,
            ..audio2
        };
        assert(encoded1.input_encoded(encoded, more)) by {
            assert(audio1.input_encoded(encoded2, more));
            assert(encoded.calls_since(encoded1) == encoded2.calls_since(audio1));
        }
        law_audio_in_parts(audio, encoded1, encoded, bytes, more);
        let calls1 = encoded1.calls_since(audio);
        let calls2 = encoded2.calls_since(audio1);
        let calls = encoded.calls_since(audio);
        assert(calls == calls1 + calls2);
        lemma_coded_frames_concat(calls1, calls2);
        lemma_coded_frames_len(calls1);
        lemma_coded_frames_len(calls2);
        let start = EncodeState { audio: Some(encoded), ..first };
        let between = EncodeState { audio: Some(encoded2), ..middle };
        let state1 = EncodeState { audio: Some(encoded1), ..first };
        let times1 = choose|times: Seq<Instant>| #[trigger]
            state1.audio_muxed(middle, coded_frames(calls1), times);
        let times2 = choose|times: Seq<Instant>| #[trigger]
            between.audio_muxed(last, coded_frames(calls2), times);
        assert(start.audio_muxed(between, coded_frames(calls1), times1));
        lemma_audio_muxed_concat(
            start,
            between,
            last,
            coded_frames(calls1),
            coded_frames(calls2),
            times1,
            times2,
        );
    }
}

/// Every frame with pixels goes to the encoder, whatever its size: once, after
/// all that went before, in the layout it was captured in, with the rows of
/// the buffer. If the encoder fails, so does the call, and nothing is written.
pub proof fn law_every_frame_is_encoded(
    pre: EncodeState,
    post: EncodeState,
    layout: PixelLayout,
    stride: usize,
    bytes: Seq<u8>,
    result: Result<(), String>,
)
    requires
        pre.frame_encoded(post, layout, stride, bytes, result),
        pre.size.0 > 0,
        pre.size.1 > 0,
    ensures
        h264::encodings(post.encoder).len() == h264::encodings(pre.encoder).len() + 1,
        h264::encodings(pre.encoder).is_prefix_of(h264::encodings(post.encoder)),
        ({
            let call = h264::encodings(post.encoder).last();
            &&& call.picture.layout == layout
            &&& call.picture.width == pre.size.0
            &&& call.picture.height == pre.size.1
            &&& call.picture.pixels == packed_rows(
                bytes,
                stride as nat,
                (pre.size.0 * 4) as nat,
                pre.size.1 as nat,
            )
            &&& call.result matches Err(err) ==> {
                &&& result matches Err(message)
                &&& displayed_as(err, message@)
                &&& tracks(post.writer) == tracks(pre.writer)
                &&& post.frame_count == pre.frame_count
                &&& post.video_track_id == pre.video_track_id
            }
        }),
{
}

/// Every picture that the encoder makes is written: when the parameter sets
/// are known, and there is a NAL unit that is no parameter set, the video
/// track has one sample more. It can be decoded from if it is an IDR frame.
pub proof fn law_every_picture_is_written(
    pre: EncodeState,
    post: EncodeState,
    layout: PixelLayout,
    stride: usize,
    bytes: Seq<u8>,
    result: Result<(), String>,
    i: int,
    payload: Seq<u8>,
)
    requires
        pre.wf(),
        pre.frame_count < MAX_SAMPLES,
        pre.frame_encoded(post, layout, stride, bytes, result),
        pre.size.0 > 0,
        pre.size.1 > 0,
        h264::encodings(post.encoder).last().result is Ok,
        ({
            let nals = h264::encodings(post.encoder).last().result->Ok_0.layers.flatten();
            &&& pre.video_track_id is Some || {
                &&& last_of_type(nals, 7) matches Some(sps)
                &&& sps.len() >= 4
                &&& last_of_type(nals, 8) is Some
            }
            &&& 0 <= i < nals.len()
            &&& is_annex_b(nals[i], payload)
            &&& payload.len() > 0
            &&& payload[0] % 32 != 7
            &&& payload[0] % 32 != 8
        }),
    ensures
        result is Ok,
        post.frame_count == pre.frame_count + 1,
        post.start is Some,
        post.video_track_id is Some,
        pre.video_track_id is Some ==> post.video_track_id == pre.video_track_id,
        ({
            let coded = h264::encodings(post.encoder).last().result->Ok_0;
            let id = post.video_track_id->0;
            let samples = tracks(post.writer)[id - 1].samples;
            &&& 1 <= id <= tracks(post.writer).len()
            &&& tracks(post.writer)[id - 1].format is Avc
            &&& samples.len() == pre.frame_count + 1
            &&& pre.video_track_id is Some ==> samples.drop_last() == tracks(pre.writer)[id
                - 1].samples
            &&& samples.last().bytes == access_unit(coded.layers.flatten()).sample
            &&& samples.last().bytes.len() > 0
            &&& samples.last().is_sync <==> coded.frame_type is Idr
            &&& samples.last().duration == 0
            &&& samples.last().rendering_offset == 0
        }),
{
    let nals = h264::encodings(post.encoder).last().result->Ok_0.layers.flatten();
    lemma_picture_nal_fills_sample(nals, i, payload);
}

/// The video track is opened once, with the size of the picture, as far as
/// sixteen bits hold it, and with the parameter sets that the encoder made.
pub proof fn law_video_track_has_the_picture_size(
    pre: EncodeState,
    post: EncodeState,
    unit: AccessUnitView,
    ty: FrameType,
    now: Instant,
)
    requires
        pre.wf(),
        pre.video_track_id is None,
        pre.frame_muxed(post, unit, ty, now),
    ensures
        post.video_track_id is Some <==> unit.sps is Some && unit.pps is Some,
        post.video_track_id matches Some(id) ==> {
            &&& id == tracks(pre.writer).len() + 1
            &&& tracks(post.writer).len() == tracks(pre.writer).len() + 1
            &&& tracks(post.writer)[id - 1].format matches TrackFormat::Avc {
                width,
                height,
                sps,
                pps,
            }
            &&& (width - pre.size.0) % 0x1_0000 == 0
            &&& (height - pre.size.1) % 0x1_0000 == 0
            &&& pre.size.0 < 0x1_0000 ==> width == pre.size.0
            &&& pre.size.1 < 0x1_0000 ==> height == pre.size.1
            &&& Some(sps) == unit.sps
            &&& Some(pps) == unit.pps
        },
        post.video_track_id is None ==> post == pre,
{
}

/// A format has the size it is made for, and the parameter sets.
pub proof fn law_video_format_has_the_size(size: (usize, usize), sps: Seq<u8>, pps: Seq<u8>)
    requires
        size.0 < 0x1_0000,
        size.1 < 0x1_0000,
    ensures
        video_format(size, sps, pps) == (TrackFormat::Avc {
            width: size.0 as u16,
            height: size.1 as u16,
            sps,
            pps,
        }),
{
}

/// A sample is stamped with the time of the clock since the recording started,
/// in milliseconds. The first one starts it.
pub proof fn law_a_sample_is_stamped_when_written(
    pre: EncodeState,
    post: EncodeState,
    unit: AccessUnitView,
    ty: FrameType,
    now: Instant,
)
    requires
        pre.wf(),
        pre.frame_muxed(post, unit, ty, now),
        pre.video_track_id is Some || (unit.sps is Some && unit.pps is Some),
        unit.sample.len() > 0,
    ensures
        pre.start is None ==> post.start == Some(now),
        pre.start is Some ==> post.start == pre.start,
        post.video_track_id is Some,
        ({
            let start_time = tracks(post.writer)[post.video_track_id->0
                - 1].samples.last().start_time;
            let nanos = reading(now) - reading(post.start->0);
            &&& pre.start is None ==> start_time == 0
            &&& 0 <= nanos < 1_000_000 * 0x1_0000_0000_0000_0000 ==> 1_000_000 * start_time <= nanos
                < 1_000_000 * (start_time + 1)
        }),
{
    law_whole_milliseconds(post.start->0, now);
}

/// A frame that is due is let through: with nothing gone wrong and a layout
/// agreed on, the first one is, and so is any other that comes 33 milliseconds
/// or more after the last, however much later. It is then the last.
pub proof fn law_a_due_frame_is_let_through(
    pre: EncodeState,
    post: EncodeState,
    layout: Option<PixelLayout>,
    now: Instant,
)
    requires
        pre.frame_admitted(post, layout, now),
        pre.error is None,
        pre.last_frame_at matches Some(last) ==> reading(now) - reading(last) >= 33_000_000,
    ensures
        layout == pre.layout,
        post.last_frame_at == Some(now),
        post == (EncodeState { last_frame_at: Some(now), ..pre }),
{
}

/// A frame that comes less than 33 milliseconds after the last is dropped.
pub proof fn law_a_frame_too_soon_is_dropped(
    pre: EncodeState,
    post: EncodeState,
    layout: Option<PixelLayout>,
    now: Instant,
)
    requires
        pre.frame_admitted(post, layout, now),
        pre.last_frame_at matches Some(last) && reading(now) - reading(last) < 33_000_000,
    ensures
        layout is None,
        post == pre,
{
}

/// A frame fits its buffer just when it has no pixels, or both its dimensions
/// are even, every row lies inside the buffer, and the rows packed fit into
/// memory.
pub proof fn law_frame_fits_when_its_rows_do(state: EncodeState, stride: nat, len: nat)
    ensures
        state.size.0 == 0 || state.size.1 == 0 ==> state.spec_frame_fits(stride, len),
        state.size.0 > 0 && state.size.1 > 0 ==> (state.spec_frame_fits(stride, len) <==> {
            &&& state.size.0 % 2 == 0
            &&& state.size.1 % 2 == 0
            &&& 4 * state.size.0 * state.size.1 <= isize::MAX
            &&& forall|row: nat|
                row < state.size.1 ==> #[trigger] (row * stride) + 4 * state.size.0 <= len
        }),
{
    law_rows_fit_when_each_does(len, stride, (state.size.0 * 4) as nat, state.size.1 as nat);
}

/// There is room for audio just when the frames that are complete with it can
/// still be counted.
pub proof fn law_audio_fits_when_its_frames_do(state: EncodeState, bytes: Seq<u8>)
    ensures
        state.audio is None ==> state.spec_audio_fits(bytes.len()),
        state.audio matches Some(audio) ==> (state.spec_audio_fits(bytes.len())
            <==> audio.frame_count + full_frames(audio.pcm@ + decode_s16le(bytes)).len()
            <= MAX_SAMPLES),
{
}

/// No sound is lost: what the encoder was handed, one frame of 2048 samples
/// after the other, and then what is kept, are the samples that were kept
/// before and those that came in. When all went well, less than a frame is
/// kept.
pub proof fn law_no_sound_is_lost(pre: AudioState, post: AudioState, bytes: Seq<u8>)
    requires
        pre.input_encoded(post, bytes),
    ensures
        aac::encodings(pre.encoder).is_prefix_of(aac::encodings(post.encoder)),
        ({
            let before = aac::encodings(pre.encoder).len() as int;
            let calls = aac::encodings(post.encoder).skip(before);
            &&& calls.map_values(|call: aac::Encoding| call.samples).flatten() + post.pcm@
                == pre.pcm@ + decode_s16le(bytes)
            &&& post.pcm@.len() < 2048
            &&& forall|i: int|
                0 <= i < calls.len() ==> (#[trigger] calls[i]).samples.len() == 2048
                    && calls[i].result is Ok
        }),
        aac::settings(post.encoder) == aac::settings(pre.encoder),
{
    let calls = post.calls_since(pre);
    let samples = pre.with_input(bytes);
    law_frames_and_leftover(samples);
    assert(calls.map_values(|call: aac::Encoding| call.samples) == full_frames(samples));
    assert forall|i: int| 0 <= i < calls.len() implies (#[trigger] calls[i]).samples.len() == 2048
        && calls[i].result is Ok by {
        assert(full_frames(samples)[i].len() == 2048);
    }
}

/// When the encoder fails, what it did not take is kept: it was handed frames
/// of 2048 samples from the first on, and the samples from the one it failed
/// on are still there.
pub proof fn law_sound_is_kept_when_the_encoder_fails(
    pre: AudioState,
    post: AudioState,
    bytes: Seq<u8>,
    message: Seq<char>,
)
    requires
        pre.input_failed(post, bytes, message),
    ensures
        ({
            let before = aac::encodings(pre.encoder).len() as int;
            let calls = aac::encodings(post.encoder).skip(before);
            let taken = 2048 * (calls.len() - 1);
            &&& calls.len() > 0
            &&& calls.last().result matches Err(err)
            &&& exists|text: Seq<char>| #[trigger]
                displayed_as(err, text) && message == "AAC encode failed: "@ + text
            &&& calls.last().samples == post.pcm@.take(2048)
            &&& post.pcm@ == (pre.pcm@ + decode_s16le(bytes)).skip(taken)
            &&& forall|i: int|
                0 <= i < calls.len() - 1 ==> (#[trigger] calls[i]).result is Ok && calls[i].samples
                    == (pre.pcm@ + decode_s16le(bytes)).subrange(2048 * i, 2048 * (i + 1))
        }),
{
    let calls = post.calls_since(pre);
    let samples = pre.with_input(bytes);
    let n = calls.len() - 1;
    assert(calls[n].samples == full_frames(samples)[n]);
    assert(full_frames(samples)[n] == samples.skip(2048 * n).take(2048));
}

/// Every frame of audio that comes out of the encoder counts, however long it
/// is; a call that gave no bytes, or failed, gave none.
pub proof fn law_every_output_is_a_frame(calls: Seq<aac::Encoding>, call: aac::Encoding)
    ensures
        coded_frames(Seq::empty()) == Seq::<Seq<u8>>::empty(),
        call.result matches Ok(bytes) ==> bytes.len() > 0 ==> coded_frames(calls.push(call))
            == coded_frames(calls) + seq![bytes],
        call.result matches Ok(bytes) ==> bytes.len() == 0 ==> coded_frames(calls.push(call))
            == coded_frames(calls),
        call.result is Err ==> coded_frames(calls.push(call)) == coded_frames(calls),
{
    assert(calls.push(call).drop_last() == calls);
    assert(calls.push(call).last() == call);
}

/// Every frame of audio is written: for each that came out of the encoder the
/// audio track has one sample more, in order, with its bytes, from which
/// decoding can start. The video track stays as it is.
pub proof fn law_every_audio_frame_is_written(
    pre: EncodeState,
    post: EncodeState,
    bytes: Seq<u8>,
)
    requires
        pre.wf(),
        pre.spec_audio_fits(bytes.len()),
        pre.audio is Some,
        pre.audio_encoded(post, bytes, Ok(())),
    ensures
        post.audio is Some,
        ({
            let before = aac::encodings(pre.audio->0.encoder).len() as int;
            let calls = aac::encodings(post.audio->0.encoder).skip(before);
            let frames = coded_frames(calls);
            let count = pre.audio->0.frame_count;
            &&& post.audio->0.frame_count == count + frames.len()
            &&& frames.len() == 0 ==> tracks(post.writer) == tracks(pre.writer)
            &&& frames.len() > 0 ==> {
                &&& post.audio->0.track_id matches Some(id)
                &&& post.start is Some
                &&& 1 <= id <= tracks(post.writer).len()
                &&& tracks(post.writer)[id - 1].format is Aac
                &&& tracks(post.writer)[id - 1].samples.len() == count + frames.len()
                &&& forall|k: int|
                    0 <= k < frames.len() ==> (#[trigger] tracks(post.writer)[id - 1].samples[count
                        + k]).bytes == frames[k] && tracks(post.writer)[id - 1].samples[count
                        + k].is_sync && tracks(post.writer)[id - 1].samples[count + k].duration == 0
                        && tracks(post.writer)[id - 1].samples[count + k].rendering_offset == 0
            }
        }),
        pre.video_track_id matches Some(id) ==> tracks(post.writer)[id - 1] == tracks(pre.writer)[id
            - 1],
        post.frame_count == pre.frame_count,
        post.layout == pre.layout,
        post.size == pre.size,
{
    let audio = pre.audio->0;
    let encoded = AudioState {
        track_id: audio.track_id,
        frame_count: audio.frame_count,
        ..post.audio->0
    };
    let calls = encoded.calls_since(audio);
    let frames = coded_frames(calls);
    let count = audio.frame_count;
    lemma_coded_frames_len(calls);
    if frames.len() > 0 {
        let id = post.audio->0.track_id->0;
        let samples = tracks(post.writer)[id - 1].samples;
        assert forall|k: int| 0 <= k < frames.len() implies (#[trigger] samples[count + k]).bytes
            == frames[k] && samples[count + k].is_sync && samples[count + k].duration == 0
            && samples[count + k].rendering_offset == 0 by {
            assert(samples.skip(count as int)[k] == samples[count + k]);
        }
    }
}

/// Taking in audio fails just when a call of the encoder does; and then no
/// sample is written.
pub proof fn law_audio_fails_with_the_encoder(
    pre: EncodeState,
    post: EncodeState,
    bytes: Seq<u8>,
    result: Result<(), String>,
)
    requires
        pre.audio is Some,
        pre.audio_encoded(post, bytes, result),
    ensures
        post.audio is Some,
        ({
            let before = aac::encodings(pre.audio->0.encoder).len() as int;
            let calls = aac::encodings(post.audio->0.encoder).skip(before);
            let samples = pre.audio->0.pcm@ + decode_s16le(bytes);
            &&& result is Err <==> exists|i: int|
                0 <= i < calls.len() && (#[trigger] calls[i]).result is Err
            &&& result is Ok ==> calls.len() == samples.len() / 2048
            &&& result is Err ==> tracks(post.writer) == tracks(pre.writer)
        }),
{
    let audio = pre.audio->0;
    let encoded = AudioState {
        track_id: audio.track_id,
        frame_count: audio.frame_count,
        ..post.audio->0
    };
    let calls = encoded.calls_since(audio);
    if result is Err {
        assert(calls[calls.len() - 1].result is Err);
    } else {
        assert forall|i: int| 0 <= i < calls.len() implies (#[trigger] calls[i]).result is Ok by {
            if i == calls.len() - 1 {
                assert(calls[i] == calls.last());
            }
        }
    }
}

/// Without audio, buffers of audio change nothing.
pub proof fn law_audio_not_asked_for_is_ignored(
    pre: EncodeState,
    post: EncodeState,
    bytes: Seq<u8>,
    result: Result<(), String>,
)
    requires
        pre.audio is None,
        pre.audio_encoded(post, bytes, result),
    ensures
        result is Ok,
        post == pre,
{
}

/// An error is kept as it is, and is all that changes; success changes
/// nothing.
pub proof fn law_an_error_is_kept(state: EncodeState, message: String)
    ensures
        state.with_outcome(Ok(())) == state,
        state.with_outcome(Err(message)).error == Some(message),
        state.with_outcome(Err(message)) == (EncodeState { error: Some(message), ..state }),
{
}

/// A recording starts with nothing in it, and takes frames of the size it was
/// told, where that is a size.
pub proof fn law_a_recording_starts_empty(state: EncodeState, size: (i32, i32))
    requires
        state.is_start(size),
    ensures
        state.wf(),
        tracks(state.writer).len() == 0,
        state.next_track_id == 1,
        state.frame_count == 0,
        state.error is None,
        state.start is None,
        state.last_frame_at is None,
        state.layout is None,
        size.0 >= 0 ==> state.size.0 == size.0,
        size.1 >= 0 ==> state.size.1 == size.1,
        size.0 < 0 ==> state.size.0 == 0,
        size.1 < 0 ==> state.size.1 == 0,
        state.audio matches Some(audio) ==> audio.pcm@.len() == 0 && audio.frame_count == 0,
{
}

/// A frame that cannot be written does no harm. One without pixels is passed
/// over; while a parameter set is missing, or when nothing but parameter sets
/// came out, no sample is written and the call succeeds.
pub proof fn law_no_picture_no_sample(
    pre: EncodeState,
    post: EncodeState,
    layout: PixelLayout,
    stride: usize,
    bytes: Seq<u8>,
    result: Result<(), String>,
)
    requires
        pre.wf(),
        pre.frame_encoded(post, layout, stride, bytes, result),
    ensures
        pre.size.0 == 0 || pre.size.1 == 0 ==> result is Ok && post == pre,
        pre.size.0 > 0 && pre.size.1 > 0 && h264::encodings(post.encoder).last().result is Ok ==> {
            let nals = h264::encodings(post.encoder).last().result->Ok_0.layers.flatten();
            let sps = last_of_type(nals, 7);
            let pps = last_of_type(nals, 8);
            &&& pre.video_track_id is None && (sps is None || pps is None) ==> {
                &&& result is Ok
                &&& tracks(post.writer) == tracks(pre.writer)
                &&& post.frame_count == pre.frame_count
                &&& post.video_track_id is None
            }
            &&& access_unit(nals).sample.len() == 0 && (pre.video_track_id is Some || (
            sps matches Some(sps) && sps.len() >= 4)) ==> {
                &&& result is Ok
                &&& post.frame_count == pre.frame_count
                &&& post.start == pre.start
            }
            &&& pre.video_track_id is None && pps is Some && (sps matches Some(sps) && sps.len()
                < 4) ==> {
                &&& result is Err
                &&& tracks(post.writer) == tracks(pre.writer)
            }
        },
{
}

/// The video track of a recording has the size of the frames, as far as
/// sixteen bits hold it, and the parameter sets that came with the first
/// picture.
pub proof fn law_recorded_track_has_the_frame_size(
    pre: EncodeState,
    post: EncodeState,
    layout: PixelLayout,
    stride: usize,
    bytes: Seq<u8>,
    result: Result<(), String>,
)
    requires
        pre.wf(),
        pre.frame_encoded(post, layout, stride, bytes, result),
        pre.video_track_id is None,
        post.video_track_id is Some,
    ensures
        ({
            let nals = h264::encodings(post.encoder).last().result->Ok_0.layers.flatten();
            let id = post.video_track_id->0;
            &&& h264::encodings(post.encoder).last().result is Ok
            &&& tracks(post.writer)[id - 1].format matches TrackFormat::Avc {
                width,
                height,
                sps,
                pps,
            }
            &&& (width - pre.size.0) % 0x1_0000 == 0
            &&& (height - pre.size.1) % 0x1_0000 == 0
            &&& Some(sps) == last_of_type(nals, 7)
            &&& Some(pps) == last_of_type(nals, 8)
        }),
{
}

/// Timestamps are in units of the timescale that the file states: with so many
/// units to the second, a stamp counts the full units since the start.
pub proof fn law_stamps_are_in_units_of_the_timescale(start: Instant, now: Instant)
    requires
        0 <= reading(now) - reading(start) < 1_000_000 * 0x1_0000_0000_0000_0000,
    ensures
        1_000_000_000 * stamp(start, now) <= recording_movie().timescale * (reading(now) - reading(
            start,
        )) < 1_000_000_000 * (stamp(start, now) + 1),
{
    law_whole_milliseconds(start, now);
    let nanos = reading(now) - reading(start);
    assert(recording_movie().timescale * nanos == 1000 * nanos);
}

/// The audio track says what the encoder was set up for: the same bit rate,
/// and the codes of its profile, rate and channels.
pub proof fn law_audio_track_describes_the_encoder()
    ensures
        audio_format() matches TrackFormat::Aac { bitrate, object_type, freq_index, channel_config }
            && bitrate == audio_settings().bit_rate && object_type == 2 && freq_index == 3
            && channel_config == 2,
        audio_settings().sample_rate == 48000,
        audio_settings().profile is LowComplexity,
        audio_settings().channels is Stereo,
        audio_settings().transport is Raw,
{
}

/// Frames of audio are stamped one by one: each with the time of the clock
/// when it was written, since the recording started. The first sample of the
/// recording starts it.
pub proof fn law_audio_is_stamped_when_written(
    pre: EncodeState,
    post: EncodeState,
    frames: Seq<Seq<u8>>,
    times: Seq<Instant>,
    k: int,
)
    requires
        pre.wf(),
        pre.audio is Some,
        pre.audio_muxed(post, frames, times),
        pre.audio->0.frame_count + frames.len() <= MAX_SAMPLES,
        0 <= k < frames.len(),
    ensures
        times.len() == frames.len(),
        pre.start is None ==> post.start == Some(times[0]),
        pre.start is Some ==> post.start == pre.start,
        post.audio_track_id() is Some,
        ({
            let sample = tracks(post.writer)[post.audio_track_id()->0
                - 1].samples[pre.audio->0.frame_count + k];
            let nanos = reading(times[k]) - reading(post.start->0);
            &&& sample.bytes == frames[k]
            &&& 0 <= nanos < 1_000_000 * 0x1_0000_0000_0000_0000 ==> 1_000_000 * sample.start_time
                <= nanos < 1_000_000 * (sample.start_time + 1)
        }),
{
    let count = pre.audio->0.frame_count;
    let samples = tracks(post.writer)[post.audio_track_id()->0 - 1].samples;
    assert(samples.skip(count as int)[k] == samples[count + k]);
    law_whole_milliseconds(post.start->0, times[k]);
}

} // verus!
