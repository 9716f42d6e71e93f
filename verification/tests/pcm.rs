use prtsc::pcm::{
    audio_offer, push_s16le, AUDIO_CHANNELS, AUDIO_SAMPLE_RATE, FRAME_LEN,
};

#[test]
fn decodes_little_endian_samples() {
    let mut out: Vec<i16> = vec![5];
    push_s16le(&mut out, &[0x01, 0x00, 0xff, 0xff, 0x00, 0x80, 0xff, 0x7f, 0x34, 0x12]);
    assert_eq!(out, vec![5, 1, -1, -32768, 32767, 0x1234]);
}

#[test]
fn an_odd_byte_is_no_sample() {
    let mut out: Vec<i16> = Vec::new();
    push_s16le(&mut out, &[0x02, 0x00, 0x03]);
    assert_eq!(out, vec![2]);
    push_s16le(&mut out, &[0x03]);
    push_s16le(&mut out, &[]);
    assert_eq!(out, vec![2]);
}

#[test]
fn decoding_in_parts_is_decoding_at_once() {
    let bytes: Vec<u8> = (0..200u8).collect();
    let mut at_once: Vec<i16> = Vec::new();
    push_s16le(&mut at_once, &bytes);
    let mut in_parts: Vec<i16> = Vec::new();
    push_s16le(&mut in_parts, &bytes[..66]);
    push_s16le(&mut in_parts, &bytes[66..]);
    assert_eq!(at_once, in_parts);
    for (i, sample) in at_once.iter().enumerate() {
        assert_eq!(*sample, i16::from_le_bytes([bytes[2 * i], bytes[2 * i + 1]]));
    }
}

#[test]
fn offers_what_the_encoder_is_set_up_for() {
    let offer = audio_offer();
    assert_eq!((offer.rate, offer.channels), (48000, 2));
    assert_eq!((AUDIO_SAMPLE_RATE, AUDIO_CHANNELS), (48000, 2));
    assert_eq!(FRAME_LEN, 1024 * AUDIO_CHANNELS as usize);
}
