//! Raw video frames: how their rows lie in a capture buffer, which pixel
//! formats the recorder asks for, and what it makes of the one it gets.

use crate::nal::push_bytes;
use vstd::prelude::*;

verus! {

/// The frame rate asked for, in frames per second.
pub const MAX_FRAME_RATE: u32 = 30;

/// Which interleaved pixel layout a frame has.
#[derive(Clone, Copy, Debug, PartialEq, Eq, Structural)]
pub enum PixelLayout {
    Bgra,
    Rgba,
}

/// A pixel format as the capture stream names it. The `x` formats have a
/// padding byte in place of the alpha byte.
#[derive(Clone, Copy, Debug, PartialEq, Eq, Structural)]
pub enum VideoFormat {
    Bgra,
    Bgrx,
    Rgba,
    Rgbx,
    Other,
}

/// What kind of media a stream format describes.
#[derive(Clone, Copy, Debug, PartialEq, Eq, Structural)]
pub enum MediaType {
    Video,
    Other,
}

/// How the media of a stream format is coded.
#[derive(Clone, Copy, Debug, PartialEq, Eq, Structural)]
pub enum MediaSubtype {
    Raw,
    Other,
}

impl VideoFormat {
    /// The layout that pixels of this format have.
    pub open spec fn spec_layout(self) -> Option<PixelLayout> {
        match self {
            VideoFormat::Bgra | VideoFormat::Bgrx => Some(PixelLayout::Bgra),
            VideoFormat::Rgba | VideoFormat::Rgbx => Some(PixelLayout::Rgba),
            VideoFormat::Other => None,
        }
    }

    /// The layout that pixels of this format have; `None` for a format that
    /// the recorder cannot take.
    pub fn layout(self) -> (layout: Option<PixelLayout>)
        ensures
            layout == self.spec_layout(),
    {
        match self {
            VideoFormat::Bgra | VideoFormat::Bgrx => Some(PixelLayout::Bgra),
            VideoFormat::Rgba | VideoFormat::Rgbx => Some(PixelLayout::Rgba),
            VideoFormat::Other => None,
        }
    }
}

/// A frame rate, or a bound of one.
#[derive(Clone, Copy, Debug, PartialEq, Eq, Structural)]
pub struct Fraction {
    pub num: u32,
    pub denom: u32,
}

/// The raw video formats offered to the capture stream: a choice of pixel
/// formats, a fixed size, and a range of frame rates.
pub struct VideoOffer {
    pub preferred: VideoFormat,
    pub formats: Vec<VideoFormat>,
    pub width: u32,
    pub height: u32,
    pub rate: Fraction,
    pub min_rate: Fraction,
    pub max_rate: Fraction,
}

/// The larger of a stream dimension and one.
pub open spec fn at_least_one(n: i32) -> u32 {
    if n < 1 {
        1
    } else {
        n as u32
    }
}

/// The larger of a stream dimension and zero.
pub open spec fn at_least_zero(n: i32) -> usize {
    if n < 0 {
        0
    } else {
        n as usize
    }
}

/// Offers the pixel formats whose layout the encoder can take, at the size
/// that the screencast reported (at least one pixel each way).
///
/// Frames come at thirty a second at most: a capture without a cap keeps the
/// encoder busy all the time. The range of rates starts at zero, which stands
/// for frames that come only when something changed; screen sources often
/// offer nothing else.
pub fn video_offer(size: (i32, i32)) -> (offer: VideoOffer)
    ensures
        offer.preferred == VideoFormat::Bgrx,
        offer.formats@ == seq![
            VideoFormat::Bgrx,
            VideoFormat::Bgra,
            VideoFormat::Rgbx,
            VideoFormat::Rgba,
        ],
        offer.width == at_least_one(size.0),
        offer.height == at_least_one(size.1),
        offer.rate == (Fraction { num: MAX_FRAME_RATE, denom: 1 }),
        offer.min_rate == (Fraction { num: 0, denom: 1 }),
        offer.max_rate == (Fraction { num: MAX_FRAME_RATE, denom: 1 }),
{
    let mut formats: Vec<VideoFormat> = Vec::new();
    formats.push(VideoFormat::Bgrx);
    formats.push(VideoFormat::Bgra);
    formats.push(VideoFormat::Rgbx);
    formats.push(VideoFormat::Rgba);
    VideoOffer {
        preferred: VideoFormat::Bgrx,
        formats,
        width: if size.0 < 1 {
            1
        } else {
            size.0 as u32
        },
        height: if size.1 < 1 {
            1
        } else {
            size.1 as u32
        },
        rate: Fraction { num: MAX_FRAME_RATE, denom: 1 },
        min_rate: Fraction { num: 0, denom: 1 },
        max_rate: Fraction { num: MAX_FRAME_RATE, denom: 1 },
    }
}

/// A stream dimension or row pitch, which the system reports as a signed
/// number, with zero in place of what is negative.
pub fn non_negative(n: i32) -> (clamped: usize)
    ensures
        clamped == at_least_zero(n),
{
    if n < 0 {
        0
    } else {
        n as usize
    }
}

/// Whether `len` bytes hold `height` rows of `row_bytes` bytes that start
/// `stride` bytes apart, and the packed rows fit into memory.
pub open spec fn rows_fit(len: nat, stride: nat, row_bytes: nat, height: nat) -> bool {
    &&& row_bytes * height <= isize::MAX
    &&& height > 0 ==> (height - 1) * stride + row_bytes <= len
}

/// `height` rows of `row_bytes` bytes that start `stride` bytes apart in
/// `src`, one right behind the other.
pub open spec fn packed_rows(src: Seq<u8>, stride: nat, row_bytes: nat, height: nat) -> Seq<u8>
    decreases height,
{
    if height == 0 {
        Seq::empty()
    } else {
        let start = (height - 1) * stride;
        packed_rows(src, stride, row_bytes, (height - 1) as nat) + src.subrange(
            start,
            start + row_bytes,
        )
    }
}

/// Packed rows have the length of all rows together.
pub proof fn lemma_packed_rows_len(src: Seq<u8>, stride: nat, row_bytes: nat, height: nat)
    requires
        height > 0 ==> (height - 1) * stride + row_bytes <= src.len(),
    ensures
        packed_rows(src, stride, row_bytes, height).len() == row_bytes * height,
    decreases height,
{
    if height > 0 {
        let h = (height - 1) as nat;
        assert(row_bytes * height == row_bytes * h + row_bytes) by (nonlinear_arith)
            requires
                height == h + 1,
        ;
        assert(0 <= h * stride) by (nonlinear_arith);
        if h > 0 {
            assert((h - 1) * stride <= h * stride) by (nonlinear_arith)
                requires
                    h > 0,
            ;
        }
        lemma_packed_rows_len(src, stride, row_bytes, h);
    } else {
        assert(row_bytes * height == 0) by (nonlinear_arith)
            requires
                height == 0,
        ;
    }
}

/// Rows that already lie one behind the other are packed as they are.
proof fn lemma_packed_rows_tight(src: Seq<u8>, row_bytes: nat, height: nat)
    requires
        row_bytes * height <= src.len(),
    ensures
        packed_rows(src, row_bytes, row_bytes, height) == src.take((row_bytes * height) as int),
    decreases height,
{
    if height > 0 {
        let h = (height - 1) as nat;
        assert(row_bytes * height == h * row_bytes + row_bytes) by (nonlinear_arith)
            requires
                height == h + 1,
        ;
        assert(h * row_bytes == row_bytes * h) by (nonlinear_arith);
        assert(0 <= h * row_bytes) by (nonlinear_arith);
        lemma_packed_rows_tight(src, row_bytes, h);
        assert(src.take((row_bytes * height) as int) == src.take((row_bytes * h) as int)
            + src.subrange((h * row_bytes) as int, (h * row_bytes + row_bytes) as int));
    } else {
        assert(row_bytes * height == 0) by (nonlinear_arith)
            requires
                height == 0,
        ;
        assert(src.take(0) == Seq::<u8>::empty());
    }
}

/// Copies `height` rows of `row_bytes` bytes each out of a possibly padded
/// `src` buffer (row pitch `stride`) into a tightly packed `Vec<u8>`. The
/// encoder takes frames only without padding between the rows.
pub fn repack_rows(src: &[u8], stride: usize, row_bytes: usize, height: usize) -> (out: Vec<u8>)
    requires
        rows_fit(src@.len(), stride as nat, row_bytes as nat, height as nat),
    ensures
        out@ == packed_rows(src@, stride as nat, row_bytes as nat, height as nat),
        out@.len() == row_bytes * height,
{
    proof {
        lemma_packed_rows_len(src@, stride as nat, row_bytes as nat, height as nat);
    }
    let total: usize = row_bytes * height;
    let mut out: Vec<u8> = Vec::with_capacity(total);
    if stride == row_bytes {
        proof {
            if height > 0 {
                assert(row_bytes * height == (height - 1) * row_bytes + row_bytes)
                    by (nonlinear_arith);
            } else {
                assert(row_bytes * height == 0) by (nonlinear_arith)
                    requires
                        height == 0,
                ;
            }
            lemma_packed_rows_tight(src@, row_bytes as nat, height as nat);
        }
        push_bytes(&mut out, &src[0..total]);
        assert(out@ == src@.take(total as int));
        return out;
    }
    let len: usize = src.len();
    for row in 0..height
        invariant
            len == src@.len(),
            rows_fit(src@.len(), stride as nat, row_bytes as nat, height as nat),
            out@ == packed_rows(src@, stride as nat, row_bytes as nat, row as nat),
    {
        assert(0 <= row * stride <= (height - 1) * stride) by (nonlinear_arith)
            requires
                row < height,
        ;
        let start: usize = row * stride;
        push_bytes(&mut out, &src[start..start + row_bytes]);
    }
    out
}

/// Repacking drops padding and nothing else: byte `col` of row `row` comes
/// from byte `col` of that row in the source.
pub proof fn law_packed_rows_index(
    src: Seq<u8>,
    stride: nat,
    row_bytes: nat,
    height: nat,
    row: nat,
    col: nat,
)
    requires
        (height - 1) * stride + row_bytes <= src.len(),
        row < height,
        col < row_bytes,
    ensures
        0 <= row * row_bytes + col < packed_rows(src, stride, row_bytes, height).len(),
        packed_rows(src, stride, row_bytes, height)[(row * row_bytes + col) as int] == src[(row
            * stride + col) as int],
    decreases height,
{
    let h = (height - 1) as nat;
    lemma_packed_rows_len(src, stride, row_bytes, height);
    assert(row * row_bytes + col < row_bytes * height) by (nonlinear_arith)
        requires
            row < height,
            col < row_bytes,
    ;
    assert(0 <= h * stride) by (nonlinear_arith);
    if h > 0 {
        assert((h - 1) * stride <= h * stride) by (nonlinear_arith)
            requires
                h > 0,
        ;
    }
    lemma_packed_rows_len(src, stride, row_bytes, h);
    assert(row_bytes * h == h * row_bytes) by (nonlinear_arith);
    if row < h {
        law_packed_rows_index(src, stride, row_bytes, h, row, col);
    }
}

/// Repacking a packed frame changes nothing.
pub proof fn law_repacking_is_idempotent(src: Seq<u8>, stride: nat, row_bytes: nat, height: nat)
    requires
        rows_fit(src.len(), stride, row_bytes, height),
    ensures
        packed_rows(
            packed_rows(src, stride, row_bytes, height),
            row_bytes,
            row_bytes,
            height,
        ) == packed_rows(src, stride, row_bytes, height),
{
    let packed = packed_rows(src, stride, row_bytes, height);
    lemma_packed_rows_len(src, stride, row_bytes, height);
    lemma_packed_rows_tight(packed, row_bytes, height);
    assert(packed.take(packed.len() as int) == packed);
}

/// The padding byte makes no difference: a format has the layout that names
/// its colours in order, and no other format has one.
pub proof fn law_layout_names_the_colours(format: VideoFormat)
    ensures
        format.spec_layout() == Some(PixelLayout::Bgra) <==> format is Bgra || format is Bgrx,
        format.spec_layout() == Some(PixelLayout::Rgba) <==> format is Rgba || format is Rgbx,
{
}

/// Clamping gives the least number that is no smaller than either bound.
pub proof fn law_clamping(n: i32)
    ensures
        at_least_zero(n) >= 0,
        at_least_zero(n) >= n,
        at_least_zero(n) == 0 || at_least_zero(n) == n,
        at_least_one(n) >= 1,
        at_least_one(n) >= n,
        at_least_one(n) == 1 || at_least_one(n) == n,
{
}

/// Rows fit a buffer just when every one of them lies inside it, and all of
/// them packed fit into memory.
pub proof fn law_rows_fit_when_each_does(len: nat, stride: nat, row_bytes: nat, height: nat)
    ensures
        rows_fit(len, stride, row_bytes, height) <==> row_bytes * height <= isize::MAX && forall|
            row: nat,
        |
            row < height ==> #[trigger] (row * stride) + row_bytes <= len,
{
    assert forall|row: nat| row < height && rows_fit(len, stride, row_bytes, height) implies
        #[trigger] (row * stride) + row_bytes <= len by {
        assert(row * stride <= (height - 1) * stride) by (nonlinear_arith)
            requires
                row < height,
        ;
    }
    if height > 0 {
        let last = (height - 1) as nat;
        assert(last * stride == (height - 1) * stride);
        if forall|row: nat| row < height ==> #[trigger] (row * stride) + row_bytes <= len {
            assert(last * stride + row_bytes <= len);
        }
    }
}

/// All rows are packed, whole: a row of bytes for each row of the picture.
pub proof fn law_packed_rows_are_complete(src: Seq<u8>, stride: nat, row_bytes: nat, height: nat)
    requires
        rows_fit(src.len(), stride, row_bytes, height),
    ensures
        packed_rows(src, stride, row_bytes, height).len() == height * row_bytes,
{
    lemma_packed_rows_len(src, stride, row_bytes, height);
    assert(row_bytes * height == height * row_bytes) by (nonlinear_arith);
}

} // verus!
