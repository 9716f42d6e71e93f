use prtsc::frame::{
    non_negative, repack_rows, video_offer, Fraction, PixelLayout, VideoFormat, MAX_FRAME_RATE,
};

#[test]
fn packs_padded_rows() {
    let src: [u8; 11] = [1, 2, 3, 0, 4, 5, 6, 0, 7, 8, 9];
    assert_eq!(repack_rows(&src, 4, 3, 3), vec![1, 2, 3, 4, 5, 6, 7, 8, 9]);
}

#[test]
fn packed_rows_are_copied_without_what_lies_behind() {
    let src: [u8; 7] = [1, 2, 3, 4, 5, 6, 99];
    assert_eq!(repack_rows(&src, 3, 3, 2), vec![1, 2, 3, 4, 5, 6]);
    assert_eq!(repack_rows(&src, 2, 2, 0), Vec::<u8>::new());
    assert_eq!(repack_rows(&src, 5, 0, 2), Vec::<u8>::new());
    assert_eq!(repack_rows(&[], 5, 3, 0), Vec::<u8>::new());
}

#[test]
fn rows_may_overlap_when_the_pitch_is_small() {
    assert_eq!(repack_rows(&[1, 2, 3, 4], 1, 2, 3), vec![1, 2, 2, 3, 3, 4]);
    assert_eq!(repack_rows(&[1, 2, 3, 4], 0, 2, 2), vec![1, 2, 1, 2]);
}

#[test]
fn repacking_twice_is_repacking_once() {
    let src: Vec<u8> = (0..60u8).collect();
    let once = repack_rows(&src, 10, 7, 6);
    assert_eq!(once.len(), 42);
    assert_eq!(once[7 * 4 + 3], src[10 * 4 + 3]);
    assert_eq!(repack_rows(&once, 7, 7, 6), once);
}

#[test]
fn formats_have_layouts() {
    assert_eq!(VideoFormat::Bgra.layout(), Some(PixelLayout::Bgra));
    assert_eq!(VideoFormat::Bgrx.layout(), Some(PixelLayout::Bgra));
    assert_eq!(VideoFormat::Rgba.layout(), Some(PixelLayout::Rgba));
    assert_eq!(VideoFormat::Rgbx.layout(), Some(PixelLayout::Rgba));
    assert_eq!(VideoFormat::Other.layout(), None);
}

#[test]
fn offers_every_layout_at_the_reported_size() {
    let offer = video_offer((1920, 1080));
    assert_eq!(offer.preferred, VideoFormat::Bgrx);
    assert_eq!(
        offer.formats,
        vec![VideoFormat::Bgrx, VideoFormat::Bgra, VideoFormat::Rgbx, VideoFormat::Rgba]
    );
    assert_eq!((offer.width, offer.height), (1920, 1080));
    assert_eq!(offer.rate, Fraction { num: 30, denom: 1 });
    assert_eq!(offer.min_rate, Fraction { num: 0, denom: 1 });
    assert_eq!(offer.max_rate, Fraction { num: 30, denom: 1 });
    assert_eq!(MAX_FRAME_RATE, 30);
}

#[test]
fn offers_at_least_one_pixel() {
    let offer = video_offer((0, -5));
    assert_eq!((offer.width, offer.height), (1, 1));
    let offer = video_offer((1, i32::MAX));
    assert_eq!((offer.width, offer.height), (1, 2147483647));
}

#[test]
fn negative_pitch_counts_as_none() {
    assert_eq!(non_negative(-1), 0);
    assert_eq!(non_negative(i32::MIN), 0);
    assert_eq!(non_negative(0), 0);
    assert_eq!(non_negative(7680), 7680);
}
