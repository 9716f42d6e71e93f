//! The H.264 encoder: what the recorder hands to `openh264`, and what it gets
//! back.

use crate::frame::PixelLayout;
use crate::nal::{access_unit, lemma_access_unit_push, AccessUnit};
use openh264::encoder::{EncodedBitStream, Encoder, EncoderConfig, Layer};
use openh264::formats::{BgraSliceU8, RgbaSliceU8, YUVBuffer};
use openh264::OpenH264API;
use vstd::prelude::*;

verus! {

/// What kind of picture the encoder made of a frame.
#[derive(Clone, Copy, Debug, PartialEq, Eq, Structural)]
pub enum FrameType {
    Invalid,
    Idr,
    I,
    P,
    Skip,
    IpMixed,
}

/// One frame as it is handed to the encoder: packed rows, top to bottom.
pub struct Picture {
    pub layout: PixelLayout,
    pub width: usize,
    pub height: usize,
    pub pixels: Seq<u8>,
}

/// What the encoder made of one picture: its layers, each a list of NAL
/// units in Annex-B form, and the kind of frame.
pub struct Coded {
    pub layers: Seq<Seq<Seq<u8>>>,
    pub frame_type: FrameType,
}

/// One call of the encoder: the picture that went in, and what came out.
pub struct Encoding {
    pub picture: Picture,
    pub result: Result<Coded, openh264::Error>,
}

/// The H.264 encoder of `openh264`, as an opaque type.
#[verifier::external_type_specification]
#[verifier::external_body]
pub struct ExEncoder(openh264::encoder::Encoder);

/// The error of `openh264`, as an opaque type.
#[verifier::external_type_specification]
#[verifier::external_body]
pub struct ExError(openh264::Error);

/// A picture in the colour format of the encoder, as an opaque type.
#[verifier::external_type_specification]
#[verifier::external_body]
pub struct ExYuvBuffer(openh264::formats::YUVBuffer);

/// What one call of the encoder made, as an opaque type.
#[verifier::external_type_specification]
#[verifier::external_body]
pub struct ExEncodedBitStream<'a>(openh264::encoder::EncodedBitStream<'a>);

/// One layer of a bit stream, as an opaque type.
#[verifier::external_type_specification]
#[verifier::external_body]
pub struct ExLayer<'a>(openh264::encoder::Layer<'a>);

/// The picture that a buffer was converted from.
pub uninterp spec fn picture_of(yuv: openh264::formats::YUVBuffer) -> Picture;

/// The calls that an encoder has been through, oldest first.
pub uninterp spec fn encodings(encoder: openh264::encoder::Encoder) -> Seq<Encoding>;

/// What a bit stream holds.
pub uninterp spec fn coded(stream: openh264::encoder::EncodedBitStream) -> Coded;

/// The NAL units that a layer holds.
pub uninterp spec fn nal_units(layer: openh264::encoder::Layer) -> Seq<Seq<u8>>;

/// Calls `openh264::encoder::Encoder::with_api_config` with the library that
/// was compiled in and the default configuration. An encoder that comes back
/// has encoded nothing yet. Whether one comes back is up to the codec
/// library.
#[verifier::external_body]
pub(crate) fn new_encoder() -> (result: Result<Encoder, openh264::Error>)
    ensures
        result matches Ok(encoder) ==> encodings(encoder) == Seq::<Encoding>::empty(),
{
    Encoder::with_api_config(OpenH264API::from_source(), EncoderConfig::new())
}

/// Calls `openh264::formats::YUVBuffer::from_bgra8_source` on the pixels, and
/// claims only which picture the result was made from: the colour conversion
/// itself is left unsaid. The conversion panics on an odd width or height,
/// and on any other number of bytes than the size asks for.
#[verifier::external_body]
fn yuv_from_bgra(pixels: &[u8], width: usize, height: usize) -> (yuv: YUVBuffer)
    requires
        pixels@.len() == width * height * 4,
        width > 0,
        height > 0,
        width % 2 == 0,
        height % 2 == 0,
    ensures
        picture_of(yuv) == (Picture { layout: PixelLayout::Bgra, width, height, pixels: pixels@ }),
{
    YUVBuffer::from_bgra8_source(BgraSliceU8::new(pixels, (width, height)))
}

/// Calls `openh264::formats::YUVBuffer::from_rgba8_source` on the pixels, and
/// claims only which picture the result was made from: the colour conversion
/// itself is left unsaid. The conversion panics on an odd width or height,
/// and on any other number of bytes than the size asks for.
#[verifier::external_body]
fn yuv_from_rgba(pixels: &[u8], width: usize, height: usize) -> (yuv: YUVBuffer)
    requires
        pixels@.len() == width * height * 4,
        width > 0,
        height > 0,
        width % 2 == 0,
        height % 2 == 0,
    ensures
        picture_of(yuv) == (Picture { layout: PixelLayout::Rgba, width, height, pixels: pixels@ }),
{
    YUVBuffer::from_rgba8_source(RgbaSliceU8::new(pixels, (width, height)))
}

/// Whether a picture has more rows and columns than the encoder takes, which
/// is 3840 by 2160, either way round.
pub open spec fn too_large(width: usize, height: usize) -> bool {
    &&& width <= i32::MAX
    &&& height <= i32::MAX
    &&& width > 3840 || height > 3840 || (width > 2160 && height > 2160)
}

/// Calls `openh264::encoder::Encoder::encode`. The encoder's history grows by
/// this call, with the picture handed over and what came of it. A picture
/// that is too large is always refused. What comes of any other depends on
/// the pictures before it and on the machine, and is left unsaid.
#[verifier::external_body]
pub(crate) fn encode<'a>(encoder: &'a mut Encoder, yuv: &YUVBuffer) -> (result: Result<
    EncodedBitStream<'a>,
    openh264::Error>)
    ensures
        too_large(picture_of(*yuv).width, picture_of(*yuv).height) ==> result is Err,
        encodings(*final(encoder)) == encodings(*old(encoder)).push(
            Encoding {
                picture: picture_of(*yuv),
                result: match result {
                    Ok(stream) => Ok(coded(stream)),
                    Err(err) => Err(err),
                },
            },
        ),
{
    encoder.encode(yuv)
}

/// Calls `EncodedBitStream::num_layers`: how many layers the stream holds.
#[verifier::external_body]
fn num_layers(stream: &EncodedBitStream) -> (n: usize)
    ensures
        n == coded(*stream).layers.len(),
{
    stream.num_layers()
}

/// Calls `EncodedBitStream::layer`: the layer at `i`, or `None` past the last.
#[verifier::external_body]
fn layer_at<'a>(stream: &EncodedBitStream<'a>, i: usize) -> (layer: Option<Layer<'a>>)
    ensures
        layer is Some <==> i < coded(*stream).layers.len(),
        layer matches Some(layer) ==> nal_units(layer) == coded(*stream).layers[i as int],
{
    stream.layer(i)
}

/// Calls `EncodedBitStream::frame_type`: the kind of frame of the stream.
#[verifier::external_body]
pub(crate) fn frame_type(stream: &EncodedBitStream) -> (ty: FrameType)
    ensures
        ty == coded(*stream).frame_type,
{
    match stream.frame_type() {
        openh264::encoder::FrameType::Invalid => FrameType::Invalid,
        openh264::encoder::FrameType::IDR => FrameType::Idr,
        openh264::encoder::FrameType::I => FrameType::I,
        openh264::encoder::FrameType::P => FrameType::P,
        openh264::encoder::FrameType::Skip => FrameType::Skip,
        openh264::encoder::FrameType::IPMixed => FrameType::IpMixed,
    }
}

/// Calls `Layer::nal_count`: how many NAL units the layer holds.
#[verifier::external_body]
fn nal_count(layer: &Layer) -> (n: usize)
    ensures
        n == nal_units(*layer).len(),
{
    layer.nal_count()
}

/// Calls `Layer::nal_unit`: the NAL unit at `i`, or `None` past the last.
#[verifier::external_body]
fn nal_unit<'a>(layer: &'a Layer<'a>, i: usize) -> (nal: Option<&'a [u8]>)
    ensures
        nal is Some <==> i < nal_units(*layer).len(),
        nal matches Some(nal) ==> nal@ == nal_units(*layer)[i as int],
{
    layer.nal_unit(i)
}

/// Converts a packed frame to the colour format of the encoder.
pub(crate) fn to_yuv(layout: PixelLayout, pixels: &[u8], width: usize, height: usize) -> (yuv:
    YUVBuffer)
    requires
        pixels@.len() == width * height * 4,
        width > 0,
        height > 0,
        width % 2 == 0,
        height % 2 == 0,
    ensures
        picture_of(yuv) == (Picture { layout, width, height, pixels: pixels@ }),
{
    match layout {
        PixelLayout::Bgra => yuv_from_bgra(pixels, width, height),
        PixelLayout::Rgba => yuv_from_rgba(pixels, width, height),
    }
}

/// Sorts the NAL units of all layers of a bit stream into one access unit.
pub fn read_access_unit(stream: &EncodedBitStream) -> (unit: AccessUnit)
    ensures
        unit@ == access_unit(coded(*stream).layers.flatten()),
{
    let ghost layers = coded(*stream).layers;
    let mut unit: AccessUnit = AccessUnit::new();
    let layer_count: usize = num_layers(stream);
    assert(layers.take(0).flatten() == Seq::<Seq<u8>>::empty());
    for l in 0..layer_count
        invariant
            layers == coded(*stream).layers,
            layer_count == layers.len(),
            unit@ == access_unit(layers.take(l as int).flatten()),
    {
        let ghost before = layers.take(l as int).flatten();
        let ghost nals = layers[l as int];
        proof {
            assert(layers.take(l + 1) == layers.take(l as int).push(nals));
            layers.take(l as int).lemma_flatten_push(nals);
            assert(before + nals.take(0) == before);
        }
        if let Some(layer) = layer_at(stream, l) {
            let count: usize = nal_count(&layer);
            for n in 0..count
                invariant
                    nals == nal_units(layer),
                    count == nals.len(),
                    unit@ == access_unit(before + nals.take(n as int)),
            {
                if let Some(nal) = nal_unit(&layer, n) {
                    unit.push_nal(nal);
                    proof {
                        lemma_access_unit_push(before + nals.take(n as int), nals[n as int]);
                        assert(before + nals.take(n + 1) == (before + nals.take(n as int)).push(
                            nals[n as int],
                        ));
                    }
                }
            }
            assert(nals.take(count as int) == nals);
        }
    }
    assert(layers.take(layer_count as int) == layers);
    unit
}

} // verus!
