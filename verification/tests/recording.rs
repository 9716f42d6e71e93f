use prtsc::frame::{MediaSubtype, MediaType, PixelLayout, VideoFormat};
use prtsc::h264::FrameType;
use prtsc::nal::AccessUnit;
use prtsc::recording::{EncodeState, Recording};
use std::io::Cursor;
use std::time::{Duration, Instant};

type Reader = mp4::Mp4Reader<Cursor<Vec<u8>>>;

fn read(file: Vec<u8>) -> Reader {
    let size = file.len() as u64;
    mp4::Mp4Reader::read_header(Cursor::new(file), size)
        .expect("mp4 file failed to parse as valid MP4")
}

fn state(width: u32, height: u32, audio: bool) -> EncodeState {
    let mut state = EncodeState::new((16, 16), audio).expect("encoders");
    state.format_changed(
        MediaType::Video,
        MediaSubtype::Raw,
        VideoFormat::Bgrx,
        width,
        height,
    );
    state
}

fn finished(state: EncodeState) -> Recording {
    match state.finish() {
        Ok(recording) => recording,
        Err(err) => panic!("finish: {err}"),
    }
}

fn samples(reader: &mut Reader, track_id: u32) -> Vec<Vec<u8>> {
    let count = reader.sample_count(track_id).unwrap();
    (1..=count)
        .map(|id| reader.read_sample(track_id, id).unwrap().unwrap().bytes.to_vec())
        .collect()
}

/// A 64x64 picture that is not the same all over, with `pad` bytes behind
/// every row.
fn picture(seed: usize, pad: usize) -> Vec<u8> {
    let mut pixels: Vec<u8> = Vec::new();
    for y in 0..64 {
        for x in 0..64 {
            pixels.extend([(x * 4 + seed) as u8, (y * 4) as u8, (x * y + seed) as u8, 255]);
        }
        pixels.extend(vec![0xee; pad]);
    }
    pixels
}

/// Interleaved samples, as bytes, of a tone of some kind.
fn tone(samples: usize) -> Vec<u8> {
    (0..samples)
        .flat_map(|i| ((((i / 2) % 109) as i16 - 54) * 200).to_le_bytes())
        .collect()
}

#[test]
fn encodes_synthetic_frames_to_a_readable_mp4() {
    const WIDTH: usize = 64;
    const HEIGHT: usize = 64;
    const FRAME_COUNT: usize = 5;

    let mp4_config = mp4::Mp4Config {
        major_brand: str::parse("isom").unwrap(),
        minor_version: 512,
        compatible_brands: vec![str::parse("isom").unwrap(), str::parse("avc1").unwrap()],
        timescale: prtsc::mux::TIMESCALE,
    };
    let writer = mp4::Mp4Writer::write_start(Cursor::new(Vec::new()), &mp4_config)
        .expect("write_start");

    let api = openh264::OpenH264API::from_source();
    let encoder = openh264::encoder::Encoder::with_api_config(
        api,
        openh264::encoder::EncoderConfig::new(),
    )
    .expect("build encoder");

    let mut state = EncodeState {
        writer,
        next_track_id: 1,
        start: None,
        error: None,
        encoder,
        layout: Some(PixelLayout::Bgra),
        size: (WIDTH, HEIGHT),
        video_track_id: None,
        last_frame_at: None,
        frame_count: 0,
        audio: None,
    };

    for frame in 0..FRAME_COUNT {
        let shade = (frame * 40) as u8;
        let pixels = vec![shade; WIDTH * HEIGHT * 4];
        state
            .encode_frame(PixelLayout::Bgra, WIDTH * 4, &pixels)
            .expect("encode_frame");
    }

    assert!(
        state.video_track_id.is_some(),
        "no track was added - SPS/PPS never seen"
    );
    state.writer.write_end().expect("write_end");

    let file = state.writer.into_writer().into_inner();
    let mp4 = read(file);

    assert_eq!(mp4.tracks().len(), 1, "expected exactly one track");
    let track = mp4.tracks().values().next().unwrap();
    assert_eq!(track.track_type().unwrap(), mp4::TrackType::Video);
    assert!(
        mp4.sample_count(1).unwrap() >= 1,
        "expected at least one sample to have been written"
    );
}

#[test]
fn a_new_recording_is_empty() {
    let state = EncodeState::new((1920, -1), false).expect("encoders");
    assert_eq!(state.next_track_id, 1);
    assert_eq!(state.size, (1920, 0));
    assert!(state.start.is_none() && state.error.is_none() && state.layout.is_none());
    assert!(state.video_track_id.is_none() && state.last_frame_at.is_none());
    assert!(state.audio.is_none());
    let recording = finished(state);
    assert_eq!(recording.frame_count, 0);
    assert_eq!(recording.audio_frames, None);
    assert!(recording.start.is_none());
    let mp4 = read(recording.file);
    assert_eq!(mp4.tracks().len(), 0);
    assert_eq!(mp4.major_brand().to_string(), "isom");
    assert_eq!(mp4.minor_version(), 512);
    let brands: Vec<String> = mp4.compatible_brands().iter().map(|b| b.to_string()).collect();
    assert_eq!(brands, vec!["isom", "iso2", "avc1", "mp41"]);
    assert_eq!(mp4.timescale(), 1000);
}

#[test]
fn an_empty_recording_with_audio_counts_no_frames() {
    let state = EncodeState::new((64, 64), true).expect("encoders");
    assert!(state.audio.is_some());
    assert_eq!(finished(state).audio_frames, Some(0));
}

#[test]
fn records_frames_from_the_stream_to_the_file() {
    let mut state = state(64, 64, false);
    let layout = state.next_frame().expect("the first frame is let through");
    assert_eq!(layout, PixelLayout::Bgra);
    assert!(state.frame_fits(256, 64 * 256));
    for seed in 0..3 {
        state.record_frame(layout, 256, &picture(seed, 0));
    }
    assert!(state.error.is_none());
    assert_eq!(state.frame_count, 3);
    assert_eq!(state.video_track_id, Some(1));
    assert_eq!(state.next_track_id, 2);
    assert!(state.start.is_some());

    let recording = finished(state);
    assert_eq!(recording.frame_count, 3);
    assert_eq!(recording.size, (64, 64));
    let mut mp4 = read(recording.file);
    let track = &mp4.tracks()[&1];
    assert_eq!((track.width(), track.height()), (64, 64));
    assert_eq!(track.sequence_parameter_set().unwrap()[0] & 0x1f, 7);
    assert_eq!(track.picture_parameter_set().unwrap()[0] & 0x1f, 8);
    let first = mp4.read_sample(1, 1).unwrap().unwrap();
    assert!(first.is_sync);
    assert_eq!((first.duration, first.rendering_offset), (0, 0));
    let second = mp4.read_sample(1, 2).unwrap().unwrap();
    assert!(!second.is_sync);

    for sample in samples(&mut mp4, 1) {
        let mut rest: &[u8] = &sample;
        while !rest.is_empty() {
            let len = u32::from_be_bytes([rest[0], rest[1], rest[2], rest[3]]) as usize;
            let ty = rest[4] & 0x1f;
            assert!(ty != 7 && ty != 8);
            rest = &rest[4 + len..];
        }
    }
}

#[test]
fn padding_between_rows_makes_no_difference() {
    let mut packed = state(64, 64, false);
    let mut padded = state(64, 64, false);
    for seed in 0..3 {
        packed.record_frame(PixelLayout::Bgra, 256, &picture(seed, 0));
        padded.record_frame(PixelLayout::Bgra, 300, &picture(seed, 44));
    }
    assert_eq!(packed.frame_count, 3);
    assert_eq!(finished(packed).file, finished(padded).file);
}

#[test]
fn layouts_tell_red_from_blue() {
    let red_bgra: Vec<u8> = [0u8, 0, 255, 255].repeat(64 * 64);
    let red_rgba: Vec<u8> = [255u8, 0, 0, 255].repeat(64 * 64);
    let file = |layout: PixelLayout, pixels: &[u8]| {
        let mut state = state(64, 64, false);
        state.record_frame(layout, 256, pixels);
        finished(state).file
    };
    let red = file(PixelLayout::Bgra, &red_bgra);
    assert_eq!(red, file(PixelLayout::Rgba, &red_rgba));
    assert_ne!(red, file(PixelLayout::Rgba, &red_bgra));
    assert_ne!(red, file(PixelLayout::Bgra, &red_rgba));
}

#[test]
fn decodes_to_the_colour_that_went_in() {
    let mut state = state(64, 64, false);
    state.record_frame(PixelLayout::Rgba, 256, &[255u8, 0, 0, 255].repeat(64 * 64));
    let mut mp4 = read(finished(state).file);
    let mut stream: Vec<u8> = Vec::new();
    let track = &mp4.tracks()[&1];
    for set in [track.sequence_parameter_set().unwrap(), track.picture_parameter_set().unwrap()] {
        stream.extend([0, 0, 0, 1]);
        stream.extend(set);
    }
    let sample = samples(&mut mp4, 1).remove(0);
    let mut rest: &[u8] = &sample;
    while !rest.is_empty() {
        let len = u32::from_be_bytes([rest[0], rest[1], rest[2], rest[3]]) as usize;
        stream.extend([0, 0, 0, 1]);
        stream.extend(&rest[4..4 + len]);
        rest = &rest[4 + len..];
    }
    let mut decoder = openh264::decoder::Decoder::new().unwrap();
    let decoded = decoder.decode(&stream).unwrap().expect("a picture");
    let mut rgb = vec![0u8; 64 * 64 * 3];
    decoded.write_rgb8(&mut rgb);
    assert!(rgb[0] > 200 && rgb[1] < 60 && rgb[2] < 60);
}

#[test]
fn a_frame_without_pixels_is_passed_over() {
    let mut state = state(0, 64, false);
    assert!(state.frame_fits(0, 0));
    assert_eq!(state.encode_frame(PixelLayout::Bgra, 0, &[]), Ok(()));
    state.size = (64, 0);
    assert!(state.frame_fits(0, 0));
    assert_eq!(state.encode_frame(PixelLayout::Rgba, 0, &[]), Ok(()));
    assert_eq!((state.frame_count, state.video_track_id), (0, None));
    assert!(state.start.is_none());
}

#[test]
fn frames_have_to_fit_their_buffer() {
    let mut state = state(64, 64, false);
    assert!(state.frame_fits(256, 256 * 64));
    assert!(!state.frame_fits(256, 256 * 64 - 1));
    assert!(state.frame_fits(300, 300 * 63 + 256));
    assert!(!state.frame_fits(300, 300 * 63 + 255));
    assert!(state.frame_fits(0, 256));
    assert!(!state.frame_fits(usize::MAX, usize::MAX));
    state.size = (63, 64);
    assert!(!state.frame_fits(256, 256 * 64));
    state.size = (64, 63);
    assert!(!state.frame_fits(256, 256 * 64));
    state.size = (usize::MAX - 1, 2);
    assert!(!state.frame_fits(0, usize::MAX));
}

#[test]
fn the_first_error_ends_the_recording() {
    let mut state = state(3842, 2, true);
    let pixels = vec![0u8; 3842 * 4 * 2];
    assert!(state.frame_fits(3842 * 4, pixels.len()));
    let layout = state.next_frame().unwrap();
    state.record_frame(layout, 3842 * 4, &pixels);
    let error = state.error.clone().expect("a picture of that width is refused");
    assert!(error.starts_with("OpenH264 encountered an error."));

    assert_eq!(state.admit_frame(Instant::now() + Duration::from_secs(1)), None);
    assert_eq!(state.next_frame(), None);
    state.record_audio(&tone(4096));
    assert!(state.audio.as_ref().unwrap().pcm.is_empty());
    assert_eq!(state.error, Some(error.clone()));
    assert_eq!(state.finish().err(), Some(error));
}

#[test]
fn frames_that_come_too_fast_are_dropped() {
    let mut state = state(64, 64, false);
    let first = Instant::now();
    let second = first + Duration::from_millis(33);
    assert_eq!(state.admit_frame(first), Some(PixelLayout::Bgra));
    assert_eq!(state.last_frame_at, Some(first));
    assert_eq!(state.admit_frame(first), None);
    assert_eq!(state.admit_frame(second - Duration::from_nanos(1)), None);
    assert_eq!(state.last_frame_at, Some(first));
    assert_eq!(state.admit_frame(second), Some(PixelLayout::Bgra));
    assert_eq!(state.last_frame_at, Some(second));
    assert_eq!(state.admit_frame(first), None);
    assert_eq!(state.admit_frame(first + Duration::from_millis(65)), None);
    let third = first + Duration::from_millis(66);
    assert_eq!(state.admit_frame(third), Some(PixelLayout::Bgra));
}

#[test]
fn samples_are_stamped_with_the_time_since_the_start() {
    let mut state = state(64, 64, false);
    let start = Instant::now();
    assert_eq!(state.timestamp_at(start), 0);
    assert_eq!(state.start, Some(start));
    assert_eq!(state.timestamp_at(start + Duration::from_micros(1_500_999)), 1500);
    assert_eq!(state.timestamp_at(start + Duration::from_secs(3600)), 3_600_000);
    assert_eq!(state.start, Some(start));
}

#[test]
fn without_a_layout_no_frame_is_encoded() {
    let mut state = EncodeState::new((64, 64), false).expect("encoders");
    assert_eq!(state.next_frame(), None);
    assert!(state.last_frame_at.is_some());
}

#[test]
fn takes_up_raw_video_formats_only() {
    let mut state = EncodeState::new((64, 48), false).expect("encoders");
    state.format_changed(MediaType::Other, MediaSubtype::Raw, VideoFormat::Bgra, 2, 2);
    state.format_changed(MediaType::Video, MediaSubtype::Other, VideoFormat::Bgra, 2, 2);
    state.format_changed(MediaType::Video, MediaSubtype::Raw, VideoFormat::Other, 2, 2);
    assert_eq!((state.layout, state.size), (None, (64, 48)));
    state.format_changed(MediaType::Video, MediaSubtype::Raw, VideoFormat::Rgbx, 8, 6);
    assert_eq!((state.layout, state.size), (Some(PixelLayout::Rgba), (8, 6)));
    state.format_changed(MediaType::Video, MediaSubtype::Raw, VideoFormat::Other, 2, 2);
    assert_eq!((state.layout, state.size), (Some(PixelLayout::Rgba), (8, 6)));
}

#[test]
fn nothing_is_muxed_before_the_parameter_sets() {
    let mut state = state(64, 64, false);
    let now = Instant::now();
    let unit = AccessUnit { sps: None, pps: Some(vec![0x68]), sample: vec![1] };
    assert_eq!(state.mux_frame(unit, FrameType::Idr, now), Ok(()));
    assert_eq!((state.video_track_id, state.frame_count), (None, 0));
    assert!(state.start.is_none());

    let unit = AccessUnit {
        sps: Some(vec![0x67, 66, 0, 30]),
        pps: Some(vec![0x68, 1]),
        sample: Vec::new(),
    };
    assert_eq!(state.mux_frame(unit, FrameType::Idr, now), Ok(()));
    assert_eq!((state.video_track_id, state.frame_count), (Some(1), 0));
    assert!(state.start.is_none());

    let unit = AccessUnit { sps: None, pps: None, sample: vec![0, 0, 0, 1, 0x41] };
    assert_eq!(state.mux_frame(unit, FrameType::P, now), Ok(()));
    assert_eq!(state.start, Some(now));
    let (start, now) = (state.start, now + Duration::from_millis(40));
    let unit = AccessUnit { sps: None, pps: None, sample: vec![0, 0, 0, 1, 0x65] };
    assert_eq!(state.mux_frame(unit, FrameType::Idr, now), Ok(()));
    let unit = AccessUnit { sps: None, pps: None, sample: vec![0, 0, 0, 1, 0x61] };
    assert_eq!(state.mux_frame(unit, FrameType::I, now), Ok(()));
    assert_eq!(state.start, start);
    assert_eq!(state.frame_count, 3);

    let mut mp4 = read(finished(state).file);
    let track = &mp4.tracks()[&1];
    assert_eq!(track.sequence_parameter_set().unwrap(), [0x67, 66, 0, 30]);
    assert_eq!(track.picture_parameter_set().unwrap(), [0x68, 1]);
    assert_eq!(
        samples(&mut mp4, 1),
        vec![vec![0, 0, 0, 1, 0x41], vec![0, 0, 0, 1, 0x65], vec![0, 0, 0, 1, 0x61]]
    );
    assert!(!mp4.read_sample(1, 1).unwrap().unwrap().is_sync);
    assert!(mp4.read_sample(1, 2).unwrap().unwrap().is_sync);
    assert!(!mp4.read_sample(1, 3).unwrap().unwrap().is_sync);
}

#[test]
fn the_container_has_sixteen_bits_for_a_dimension() {
    let mut state = state(64, 64, false);
    state.size = (0x1_0000 + 640, 0x2_0000 + 480);
    assert_eq!(state.add_video_track(vec![0x67, 66, 0, 30], vec![0x68]), Ok(()));
    let mp4 = read(finished(state).file);
    assert_eq!((mp4.tracks()[&1].width(), mp4.tracks()[&1].height()), (640, 480));
}

#[test]
fn encodes_audio_frame_by_frame() {
    let mut state = state(64, 64, true);
    state.record_audio(&tone(2047));
    assert_eq!(state.audio.as_ref().unwrap().pcm.len(), 2047);
    assert_eq!(state.audio.as_ref().unwrap().track_id, None);
    state.record_audio(&tone(2048 * 20 + 5));
    let audio = state.audio.as_ref().unwrap();
    assert_eq!(audio.pcm.len(), (2047 + 2048 * 20 + 5) % 2048);
    assert_eq!(audio.track_id, Some(1));
    assert!(audio.frame_count > 0 && audio.frame_count <= 21);
    assert!(state.start.is_some());
    let frames = audio.frame_count;

    let recording = finished(state);
    assert_eq!(recording.audio_frames, Some(frames));
    let mut mp4 = read(recording.file);
    assert_eq!(mp4.tracks().len(), 1);
    let track = &mp4.tracks()[&1];
    assert_eq!(track.track_type().unwrap(), mp4::TrackType::Audio);
    assert_eq!(track.audio_profile().unwrap(), mp4::AudioObjectType::AacLowComplexity);
    assert_eq!(track.sample_freq_index().unwrap(), mp4::SampleFreqIndex::Freq48000);
    assert_eq!(track.channel_config().unwrap(), mp4::ChannelConfig::Stereo);
    let samples = samples(&mut mp4, 1);
    assert_eq!(samples.len(), frames as usize);
    assert!(samples.iter().all(|sample| !sample.is_empty() && sample.len() <= 4096));
    assert!(samples.iter().all(|sample| sample[0] != 0xff || sample[1] & 0xf0 != 0xf0));
}

#[test]
fn the_cut_between_buffers_makes_no_difference() {
    let bytes = tone(2048 * 12 + 100);
    let mut at_once = state(64, 64, true);
    at_once.record_audio(&bytes);
    let mut in_parts = state(64, 64, true);
    for part in bytes.chunks(1502) {
        in_parts.record_audio(part);
    }
    let (one, two) = (at_once.audio.as_ref().unwrap(), in_parts.audio.as_ref().unwrap());
    assert_eq!(one.frame_count, two.frame_count);
    assert_eq!(one.pcm, two.pcm);
    assert_eq!(one.pcm.len(), 100);
    let mut one = read(finished(at_once).file);
    let mut two = read(finished(in_parts).file);
    assert_eq!(samples(&mut one, 1), samples(&mut two, 1));
}

#[test]
fn audio_is_ignored_unless_asked_for() {
    let mut state = state(64, 64, false);
    assert!(state.audio_fits(usize::MAX));
    assert_eq!(state.encode_audio(&tone(8192)), Ok(()));
    assert_eq!(state.next_track_id, 1);
    assert!(state.start.is_none());
}

#[test]
fn audio_has_to_fit_its_track() {
    let mut state = state(64, 64, true);
    assert!(state.audio_fits(4096));
    state.audio.as_mut().unwrap().frame_count = 0xffff_fffe;
    assert!(state.audio_fits(4095));
    assert!(!state.audio_fits(4096));
}

#[test]
fn tracks_are_numbered_as_they_come() {
    let mut video_first = state(64, 64, true);
    video_first.record_frame(PixelLayout::Bgra, 256, &picture(0, 0));
    video_first.record_audio(&tone(2048 * 10));
    assert_eq!(video_first.video_track_id, Some(1));
    assert_eq!(video_first.audio.as_ref().unwrap().track_id, Some(2));

    let mut audio_first = state(64, 64, true);
    audio_first.record_audio(&tone(2048 * 10));
    let before = audio_first.audio.as_ref().unwrap().frame_count;
    let start = audio_first.start;
    audio_first.record_frame(PixelLayout::Bgra, 256, &picture(0, 0));
    assert_eq!(audio_first.audio.as_ref().unwrap().track_id, Some(1));
    assert_eq!(audio_first.audio.as_ref().unwrap().frame_count, before);
    assert_eq!(audio_first.video_track_id, Some(2));
    assert_eq!(audio_first.next_track_id, 3);
    assert_eq!(audio_first.start, start);

    let one = read(finished(video_first).file);
    let two = read(finished(audio_first).file);
    assert_eq!(one.tracks()[&1].track_type().unwrap(), mp4::TrackType::Video);
    assert_eq!(one.tracks()[&2].track_type().unwrap(), mp4::TrackType::Audio);
    assert_eq!(two.tracks()[&1].track_type().unwrap(), mp4::TrackType::Audio);
    assert_eq!(two.tracks()[&2].track_type().unwrap(), mp4::TrackType::Video);
    assert_eq!(one.sample_count(1).unwrap(), 1);
    assert_eq!(two.sample_count(2).unwrap(), 1);
}

#[test]
fn audio_samples_go_to_the_audio_track() {
    let mut state = state(64, 64, true);
    assert_eq!(state.add_video_track(vec![0x67, 66, 0, 30], vec![0x68]), Ok(()));
    let now = Instant::now();
    assert_eq!(state.mux_audio_frame(vec![1, 2, 3], now), Ok(()));
    assert_eq!(state.mux_audio_frame(vec![4], now + Duration::from_millis(21)), Ok(()));
    assert_eq!(state.start, Some(now));
    assert_eq!(state.write_video_sample(vec![5, 6], true, 40), Ok(()));
    assert_eq!(state.write_audio_sample(vec![7], 50), Ok(()));
    let recording = finished(state);
    assert_eq!((recording.frame_count, recording.audio_frames), (1, Some(3)));
    let mut mp4 = read(recording.file);
    assert_eq!(samples(&mut mp4, 1), vec![vec![5, 6]]);
    assert_eq!(samples(&mut mp4, 2), vec![vec![1, 2, 3], vec![4], vec![7]]);
}

fn video_error() -> openh264::Error {
    let mut encoder = openh264::encoder::Encoder::new().unwrap();
    let yuv = openh264::formats::YUVBuffer::new(3842, 2);
    let error = encoder.encode(&yuv).err();
    error.expect("a picture of that width is refused")
}

fn audio_encoder(
    sample_rate: u32,
) -> Result<fdk_aac::enc::Encoder, fdk_aac::enc::EncoderError> {
    fdk_aac::enc::Encoder::new(fdk_aac::enc::EncoderParams {
        bit_rate: fdk_aac::enc::BitRate::Cbr(128_000),
        sample_rate,
        transport: fdk_aac::enc::Transport::Raw,
        channels: fdk_aac::enc::ChannelMode::Stereo,
        audio_object_type: fdk_aac::enc::AudioObjectType::Mpeg4LowComplexity,
    })
}

#[test]
fn without_a_video_encoder_there_is_no_recording() {
    let message = video_error().to_string();
    let result = EncodeState::with_encoders((64, 64), Err(video_error()), None);
    assert_eq!(result.err(), Some(message.clone()));
    let result = EncodeState::with_encoders((64, 64), Err(video_error()), Some(audio_encoder(1)));
    assert_eq!(result.err(), Some(message));
}

#[test]
fn without_an_audio_encoder_there_is_no_recording_with_audio() {
    let error = audio_encoder(1).err().expect("that sample rate is refused");
    let message = format!("failed to create AAC encoder: {error}");
    let video = openh264::encoder::Encoder::new();
    let result = EncodeState::with_encoders((64, 64), video, Some(Err(error)));
    assert_eq!(result.err(), Some(message));
}

#[test]
fn with_its_encoders_a_recording_starts() {
    let video = openh264::encoder::Encoder::new();
    let mut state =
        EncodeState::with_encoders((-1, 64), video, Some(audio_encoder(48_000))).expect("state");
    assert_eq!((state.size, state.next_track_id, state.frame_count), ((0, 64), 1, 0));
    state.record_audio(&tone(2048 * 10));
    assert!(state.audio.as_ref().unwrap().frame_count > 0);
    let video = openh264::encoder::Encoder::new();
    let state = EncodeState::with_encoders((64, 64), video, None).expect("state");
    assert!(state.audio.is_none() && state.error.is_none());
}

#[test]
fn the_audio_encoder_is_set_up_for_stereo_at_48_kilohertz() {
    let settings = prtsc::recording::audio_encoder_settings();
    assert_eq!((settings.bit_rate, settings.sample_rate), (128_000, 48_000));
    assert_eq!(settings.transport, prtsc::aac::Transport::Raw);
    assert_eq!(settings.channels, prtsc::aac::Channels::Stereo);
    assert_eq!(settings.profile, prtsc::aac::Profile::LowComplexity);
}

#[test]
fn the_clock_keeps_frames_apart() {
    let mut state = state(64, 64, false);
    let mut last: Option<Instant> = None;
    let mut passed = 0;
    while passed < 4 {
        if state.next_frame().is_some() {
            let now = state.last_frame_at.unwrap();
            if let Some(last) = last {
                assert!(now.duration_since(last).as_millis() >= 33);
            }
            last = Some(now);
            passed += 1;
        } else {
            assert_eq!(state.last_frame_at, last);
        }
    }
}
