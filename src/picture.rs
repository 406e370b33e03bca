//! Resampling and encoding of decoded images.

use vstd::prelude::*;
use image::{ColorType, DynamicImage, ImageError};
use crate::format::OutputFormat;

verus! {

#[verifier::external_type_specification]
#[verifier::external_body]
pub struct ExDynamicImage(DynamicImage);

#[verifier::external_type_specification]
#[verifier::external_body]
pub struct ExImageError(ImageError);

/// image's `ColorType`, with its variants visible: the encoders' conditions
/// name them.
#[verifier::external_type_specification]
pub struct ExColorType(ColorType);

/// The width in pixels of a decoded image.
pub uninterp spec fn width_of(img: DynamicImage) -> u32;

/// The height in pixels of a decoded image.
pub uninterp spec fn height_of(img: DynamicImage) -> u32;

/// Relies on `DynamicImage::width`: the width of the underlying buffer.
pub assume_specification[ DynamicImage::width ](img: &DynamicImage) -> (r: u32)
    ensures
        r == width_of(*img),
;

/// Relies on `DynamicImage::height`: the height of the underlying buffer.
pub assume_specification[ DynamicImage::height ](img: &DynamicImage) -> (r: u32)
    ensures
        r == height_of(*img),
;

/// The colour type (channels and sample depth) of a decoded image.
pub uninterp spec fn color_of(img: DynamicImage) -> ColorType;

/// Relies on `DynamicImage::color`: the colour type of the underlying buffer.
pub assume_specification[ DynamicImage::color ](img: &DynamicImage) -> (r: ColorType)
    ensures
        r == color_of(*img),
;

/// The image that three-lobe Lanczos resampling of `img` to `width` by
/// `height` pixels gives.
pub uninterp spec fn lanczos3_of(img: DynamicImage, width: u32, height: u32) -> DynamicImage;

/// The bytes that encoding `img` in `format` gives, or `None` where the
/// encoder refuses the image.
pub uninterp spec fn encoded_of(img: DynamicImage, format: OutputFormat) -> Option<Seq<u8>>;

/// Whether a buffer of `width` by `height` pixels of up to four channels can
/// be addressed.
pub open spec fn addressable(width: u32, height: u32) -> bool {
    width as int * height as int * 4 <= usize::MAX as int
}

/// Whether resampling a `src_w` by `src_h` image to `width` by `height` is
/// within what the resampler can address: the target and the intermediate
/// column pass (source width by target height) must fit in memory's address
/// range.
pub open spec fn resizable(src_w: u32, src_h: u32, width: u32, height: u32) -> bool {
    &&& addressable(width, height)
    &&& addressable(src_w, height)
}

/// Relies on `DynamicImage::resize_exact` with `FilterType::Lanczos3`: the
/// result is exactly `width` by `height` pixels, aspect ratio not kept.
#[verifier::external_body]
fn resize_lanczos3(img: &DynamicImage, width: u32, height: u32) -> (r: DynamicImage)
    requires
        resizable(width_of(*img), height_of(*img), width, height),
    ensures
        r == lanczos3_of(*img, width, height),
        width_of(r) == width,
        height_of(r) == height,
{
    img.resize_exact(width, height, image::imageops::FilterType::Lanczos3)
}

fn fits(width: u32, height: u32) -> (r: bool)
    ensures
        r == addressable(width, height),
{
    assert(width as int * height as int <= u64::MAX as int) by (nonlinear_arith)
        requires
            width <= u32::MAX,
            height <= u32::MAX,
    ;
    let area: u64 = width as u64 * height as u64;
    let limit: u64 = (usize::MAX as u64) / 4;
    assert(area * 4 <= usize::MAX as int <==> area <= limit) by (nonlinear_arith)
        requires
            limit == (usize::MAX as u64) / 4,
            usize::MAX as int <= u64::MAX as int,
    ;
    area <= limit
}

/// What `resize` gives: the resampled image of exactly `width` by `height`
/// pixels where the sizes are `resizable`, else `None`.
pub open spec fn resized(img: DynamicImage, width: u32, height: u32, r: Option<DynamicImage>) -> bool {
    if resizable(width_of(img), height_of(img), width, height) {
        r matches Some(out) && out == lanczos3_of(img, width, height) && width_of(out) == width
            && height_of(out) == height
    } else {
        r is None
    }
}

/// Resamples `img` to exactly `width` by `height` pixels with a three-lobe
/// Lanczos filter, whatever the source's aspect ratio. A target with a zero
/// side gives an image without pixels. `None` where the buffers could not be
/// addressed (see `resizable`).
pub fn resize(img: &DynamicImage, width: u32, height: u32) -> (r: Option<DynamicImage>)
    ensures
        resized(*img, width, height, r),
{
    let src_w = img.width();
    if fits(width, height) && fits(src_w, height) {
        Some(resize_lanczos3(img, width, height))
    } else {
        None
    }
}

/// The output size of a resize depends on the requested size alone: two
/// sources of any sizes and aspect ratios come out alike in size.
pub proof fn lemma_resize_size_ignores_source(
    a: DynamicImage,
    b: DynamicImage,
    width: u32,
    height: u32,
    ra: Option<DynamicImage>,
    rb: Option<DynamicImage>,
)
    requires
        resized(a, width, height, ra),
        resized(b, width, height, rb),
        resizable(width_of(a), height_of(a), width, height),
        resizable(width_of(b), height_of(b), width, height),
    ensures
        ra matches Some(oa) && rb matches Some(ob) && width_of(oa) == width_of(ob) == width
            && height_of(oa) == height_of(ob) == height,
{
}

/// The bytes with which a file of the format begins.
pub open spec fn signature(format: OutputFormat) -> Seq<u8> {
    match format {
        OutputFormat::Jpeg(_) => seq![0xFFu8, 0xD8u8],
        OutputFormat::Png => seq![137u8, 80u8, 78u8, 71u8, 13u8, 10u8, 26u8, 10u8],
        OutputFormat::WebP => seq![82u8, 73u8, 70u8, 70u8],
    }
}

pub open spec fn is_8bit(c: ColorType) -> bool {
    c == ColorType::L8 || c == ColorType::La8 || c == ColorType::Rgb8 || c == ColorType::Rgba8
}

pub open spec fn is_16bit(c: ColorType) -> bool {
    c == ColorType::L16 || c == ColorType::La16 || c == ColorType::Rgb16 || c == ColorType::Rgba16
}

/// Where the encoders are bound to succeed: PNG takes any non-empty image of
/// 8- or 16-bit grey or colour samples, with or without alpha; JPEG takes the
/// 8-bit ones with sides of at most 65535; lossless WebP takes the 8-bit ones
/// with sides in 1..=16384.
pub open spec fn encodable(c: ColorType, width: u32, height: u32, format: OutputFormat) -> bool {
    match format {
        OutputFormat::Png => (is_8bit(c) || is_16bit(c)) && width > 0 && height > 0,
        OutputFormat::Jpeg(_) => is_8bit(c) && width <= 65535 && height <= 65535,
        OutputFormat::WebP => is_8bit(c) && 1 <= width <= 16384 && 1 <= height <= 16384,
    }
}

/// Whether `img` is `encodable` in `format`, so that `encode` is bound to
/// succeed on it.
pub fn can_encode(img: &DynamicImage, format: OutputFormat) -> (r: bool)
    ensures
        r == encodable(color_of(*img), width_of(*img), height_of(*img), format),
{
    let c = img.color();
    let w = img.width();
    let h = img.height();
    let eight = match c {
        ColorType::L8 | ColorType::La8 | ColorType::Rgb8 | ColorType::Rgba8 => true,
        _ => false,
    };
    let sixteen = match c {
        ColorType::L16 | ColorType::La16 | ColorType::Rgb16 | ColorType::Rgba16 => true,
        _ => false,
    };
    match format {
        OutputFormat::Png => (eight || sixteen) && w > 0 && h > 0,
        OutputFormat::Jpeg(_) => eight && w <= 65535 && h <= 65535,
        OutputFormat::WebP => eight && 1 <= w && w <= 16384 && 1 <= h && h <= 16384,
    }
}

pub open spec fn starts_with(bytes: Seq<u8>, prefix: Seq<u8>) -> bool {
    prefix.len() <= bytes.len() && bytes.subrange(0, prefix.len() as int) == prefix
}

/// Relies on `DynamicImage::write_to` with an in-memory buffer: JPEG at the
/// given quality (clamped by the encoder to 1..=100), PNG, or lossless WebP.
/// The output depends on the image and the format alone. Each encoder writes
/// its format's signature first (JPEG start-of-image marker, PNG file
/// signature, WebP `RIFF` container), and refuses only images outside
/// `encodable` (colour types it has no room for, sizes out of range).
#[verifier::external_body]
fn write_encoded(img: &DynamicImage, format: OutputFormat) -> (r: Result<Vec<u8>, ImageError>)
    ensures
        match encoded_of(*img, format) {
            Some(b) => r matches Ok(v) && v@ == b,
            None => r is Err,
        },
        encodable(color_of(*img), width_of(*img), height_of(*img), format) ==> r is Ok,
        r matches Ok(bytes) ==> starts_with(bytes@, signature(format)),
{
    let target = match format {
        OutputFormat::Jpeg(q) => image::ImageOutputFormat::Jpeg(q),
        OutputFormat::Png => image::ImageOutputFormat::Png,
        OutputFormat::WebP => image::ImageOutputFormat::WebP,
    };
    let mut buffer = std::io::Cursor::new(Vec::new());
    img.write_to(&mut buffer, target)?;
    Ok(buffer.into_inner())
}

/// Why an image could not be encoded.
#[derive(Debug)]
pub struct EncodeError {
    pub cause: ImageError,
}

/// Encodes `img` in `format`: the encoder's bytes, which begin with the
/// format's signature. It succeeds on every `encodable` image; elsewhere the
/// encoder decides.
pub fn encode(img: &DynamicImage, format: OutputFormat) -> (r: Result<Vec<u8>, EncodeError>)
    ensures
        r is Ok <==> encoded_of(*img, format) is Some,
        r matches Ok(b) ==> Some(b@) == encoded_of(*img, format),
        encodable(color_of(*img), width_of(*img), height_of(*img), format) ==> r is Ok,
        r matches Ok(bytes) ==> starts_with(bytes@, signature(format)),
{
    match write_encoded(img, format) {
        Ok(bytes) => Ok(bytes),
        Err(cause) => Err(EncodeError { cause }),
    }
}

} // verus!
