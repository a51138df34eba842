//! Images attached to prompts: base64 or data-URL input is decoded, kept
//! as is when it is a small PNG, JPEG or WebP, and otherwise downscaled to
//! fit `MAX_WIDTH` x `MAX_HEIGHT` and re-encoded.

use vstd::prelude::*;
use crate::text::{str_ends_with, str_starts_with, to_string, starts_with, ends_with};

verus! {

/// Widest image sent to a model.
pub const MAX_WIDTH: u32 = 2048;

/// Tallest image sent to a model.
pub const MAX_HEIGHT: u32 = 768;

/// Quality of re-encoded JPEG images.
pub const JPEG_QUALITY: u8 = 85;

/// The resampling filters an image can be downscaled with.
#[derive(Clone, Copy, Debug, PartialEq, Eq, Structural)]
pub enum ResizeFilter {
    Nearest,
    Triangle,
    CatmullRom,
    Gaussian,
    Lanczos3,
}

/// The filter images are downscaled with.
pub const RESIZE_FILTER: ResizeFilter = ResizeFilter::Triangle;

/// `base64::DecodeError`, why base64 text did not decode.
#[verifier::external_type_specification]
#[verifier::external_body]
pub struct ExDecodeError(base64::DecodeError);

/// `image::ImageError`, why an image did not decode or encode.
#[verifier::external_type_specification]
#[verifier::external_body]
pub struct ExImageError(image::ImageError);

/// `image::DynamicImage`, a decoded image.
#[verifier::external_type_specification]
#[verifier::external_body]
pub struct ExDynamicImage(image::DynamicImage);

/// The image formats this module tells apart.
#[derive(Clone, Copy, Debug, PartialEq, Eq, Structural)]
pub enum ImageKind {
    Png,
    Jpeg,
    Gif,
    WebP,
    /// A format the image crate knows but this module does not handle.
    Other,
}

/// Why an image could not be processed.
#[derive(Debug)]
pub enum ImageProcessingError {
    InvalidBase64(base64::DecodeError),
    InvalidDataUrl,
    Decode(image::ImageError),
    UnsupportedFormat,
    Encode { format: ImageKind, source: image::ImageError },
}

/// Image bytes ready to send, with their media type.
#[derive(Debug, Clone)]
pub struct EncodedImage {
    pub bytes: Vec<u8>,
    pub mime: String,
}

// ─── Outside calls ──────────────────────────────────────────────────────

/// The ASCII code of base64 digit `v` (0 to 63) in the standard alphabet:
/// `A`-`Z`, `a`-`z`, `0`-`9`, `+`, `/`.
pub open spec fn base64_digit(v: int) -> u8 {
    if v < 26 {
        (65 + v) as u8
    } else if v < 52 {
        (97 + v - 26) as u8
    } else if v < 62 {
        (48 + v - 52) as u8
    } else if v == 62 {
        43u8
    } else {
        47u8
    }
}

/// The standard, padded base64 encoding of `bytes` (RFC 4648), as ASCII
/// codes: each group of three bytes becomes four digits, and a last group
/// of one or two bytes is padded with `=`.
pub open spec fn base64_std(bytes: Seq<u8>) -> Seq<u8>
    decreases bytes.len(),
{
    if bytes.len() == 0 {
        seq![]
    } else if bytes.len() == 1 {
        seq![base64_digit((bytes[0] as int) / 4), base64_digit(((bytes[0] as int) % 4) * 16), 61u8, 61u8]
    } else if bytes.len() == 2 {
        seq![
            base64_digit((bytes[0] as int) / 4),
            base64_digit(((bytes[0] as int) % 4) * 16 + (bytes[1] as int) / 16),
            base64_digit(((bytes[1] as int) % 16) * 4),
            61u8,
        ]
    } else {
        seq![
            base64_digit((bytes[0] as int) / 4),
            base64_digit(((bytes[0] as int) % 4) * 16 + (bytes[1] as int) / 16),
            base64_digit(((bytes[1] as int) % 16) * 4 + (bytes[2] as int) / 64),
            base64_digit((bytes[2] as int) % 64),
        ] + base64_std(bytes.skip(3))
    }
}

/// The base64 text of `bytes`.
pub open spec fn base64_text(bytes: Seq<u8>) -> Seq<char> {
    base64_std(bytes).map_values(|c: u8| c as char)
}

/// The bytes whose standard base64 encoding `input` is, when there are
/// any (there is at most one: `lemma_base64_injective`).
pub open spec fn base64_decoding(input: Seq<u8>) -> Option<Seq<u8>> {
    if exists|b: Seq<u8>| base64_std(b) == input {
        Some(choose|b: Seq<u8>| base64_std(b) == input)
    } else {
        None
    }
}

proof fn lemma_base64_digit_injective(v: int, w: int)
    requires
        0 <= v < 64,
        0 <= w < 64,
        base64_digit(v) == base64_digit(w),
    ensures
        v == w,
{
}

proof fn lemma_base64_digit_not_pad(v: int)
    requires
        0 <= v < 64,
    ensures
        base64_digit(v) != 61u8,
{
}

proof fn lemma_base64_leading_digits(a: Seq<u8>)
    requires
        a.len() > 0,
    ensures
        base64_std(a).len() >= 4,
        base64_std(a)[0] == base64_digit((a[0] as int) / 4),
        a.len() >= 2 ==> base64_std(a)[1] == base64_digit(((a[0] as int) % 4) * 16 + (a[1] as int) / 16),
        a.len() == 1 ==> base64_std(a)[1] == base64_digit(((a[0] as int) % 4) * 16) && base64_std(a)[2] == 61u8,
        a.len() == 2 ==> base64_std(a)[2] == base64_digit(((a[1] as int) % 16) * 4) && base64_std(a)[3] == 61u8,
        a.len() >= 3 ==> base64_std(a)[2] == base64_digit(((a[1] as int) % 16) * 4 + (a[2] as int) / 64)
            && base64_std(a)[3] == base64_digit((a[2] as int) % 64),
        a.len() >= 3 ==> base64_std(a).skip(4) == base64_std(a.skip(3)),
{
    if a.len() >= 3 {
        let head = seq![
            base64_digit((a[0] as int) / 4),
            base64_digit(((a[0] as int) % 4) * 16 + (a[1] as int) / 16),
            base64_digit(((a[1] as int) % 16) * 4 + (a[2] as int) / 64),
            base64_digit((a[2] as int) % 64),
        ];
        assert(base64_std(a) == head + base64_std(a.skip(3)));
        assert((head + base64_std(a.skip(3))).skip(4) =~= base64_std(a.skip(3)));
    }
}

/// Different bytes have different base64 encodings.
pub proof fn lemma_base64_injective(a: Seq<u8>, b: Seq<u8>)
    requires
        base64_std(a) == base64_std(b),
    ensures
        a == b,
    decreases a.len(),
{
    let ea = base64_std(a);
    let eb = base64_std(b);
    if a.len() == 0 || b.len() == 0 {
        if a.len() != b.len() {
            assert(ea.len() != eb.len());
        }
        assert(a =~= b);
    } else {
        let (x0, y0) = (a[0], b[0]);
        lemma_base64_leading_digits(a);
        lemma_base64_leading_digits(b);
        lemma_base64_digit_injective((x0 as int) / 4, (y0 as int) / 4);
        if a.len() == 1 || b.len() == 1 {
            // A one-byte group is the only one padded from its third digit.
            if a.len() != 1 {
                lemma_base64_digit_not_pad(if a.len() == 2 {
                    ((a[1] as int) % 16) * 4
                } else {
                    ((a[1] as int) % 16) * 4 + (a[2] as int) / 64
                });
            }
            if b.len() != 1 {
                lemma_base64_digit_not_pad(if b.len() == 2 {
                    ((b[1] as int) % 16) * 4
                } else {
                    ((b[1] as int) % 16) * 4 + (b[2] as int) / 64
                });
            }
            lemma_base64_digit_injective(((x0 as int) % 4) * 16, ((y0 as int) % 4) * 16);
            assert(x0 == y0) by (nonlinear_arith)
                requires
                    x0 / 4 == y0 / 4,
                    (x0 % 4) * 16 == (y0 % 4) * 16,
            ;
            assert(a =~= b);
        } else {
            let (x1, y1) = (a[1], b[1]);
            lemma_base64_digit_injective(
                ((x0 as int) % 4) * 16 + (x1 as int) / 16,
                ((y0 as int) % 4) * 16 + (y1 as int) / 16,
            );
            if a.len() == 2 || b.len() == 2 {
                // A two-byte group is the only one padded from its fourth digit.
                if a.len() != 2 {
                    lemma_base64_digit_not_pad((a[2] as int) % 64);
                }
                if b.len() != 2 {
                    lemma_base64_digit_not_pad((b[2] as int) % 64);
                }
                lemma_base64_digit_injective(((x1 as int) % 16) * 4, ((y1 as int) % 16) * 4);
                assert(x0 == y0 && x1 == y1) by (bit_vector)
                    requires
                        x0 / 4 == y0 / 4,
                        (x0 % 4) * 16 + x1 / 16 == (y0 % 4) * 16 + y1 / 16,
                        (x1 % 16) * 4 == (y1 % 16) * 4,
                ;
                assert(a =~= b);
            } else {
                let (x2, y2) = (a[2], b[2]);
                lemma_base64_digit_injective(
                    ((x1 as int) % 16) * 4 + (x2 as int) / 64,
                    ((y1 as int) % 16) * 4 + (y2 as int) / 64,
                );
                lemma_base64_digit_injective((x2 as int) % 64, (y2 as int) % 64);
                assert(x0 == y0 && x1 == y1 && x2 == y2) by (bit_vector)
                    requires
                        x0 / 4 == y0 / 4,
                        (x0 % 4) * 16 + x1 / 16 == (y0 % 4) * 16 + y1 / 16,
                        (x1 % 16) * 4 + x2 / 64 == (y1 % 16) * 4 + y2 / 64,
                        x2 % 64 == y2 % 64,
                ;
                lemma_base64_injective(a.skip(3), b.skip(3));
                assert(a =~= a.take(3) + a.skip(3));
                assert(b =~= b.take(3) + b.skip(3));
                assert(a.take(3) =~= b.take(3));
            }
        }
    }
}

/// `bytes` start with `signature`.
pub open spec fn has_prefix(bytes: Seq<u8>, signature: Seq<u8>) -> bool {
    signature.len() <= bytes.len() && bytes.take(signature.len() as int) == signature
}

/// `bytes` start with the magic bytes of a format the image crate knows
/// but this module does not handle: TIFF, DDS, BMP, ICO, Radiance HDR,
/// AVIF, OpenEXR, QOI, PNM or farbfeld.
pub open spec fn other_format_magic(bytes: Seq<u8>) -> bool {
    ||| has_prefix(bytes, seq![0x4du8, 0x4d, 0x00, 0x2a])
    ||| has_prefix(bytes, seq![0x49u8, 0x49, 0x2a, 0x00])
    ||| has_prefix(bytes, seq![0x44u8, 0x44, 0x53, 0x20])
    ||| has_prefix(bytes, seq![0x42u8, 0x4d])
    ||| has_prefix(bytes, seq![0x00u8, 0x00, 0x01, 0x00])
    ||| has_prefix(bytes, seq![0x23u8, 0x3f, 0x52, 0x41, 0x44, 0x49, 0x41, 0x4e, 0x43, 0x45])
    ||| (bytes.len() >= 12 && bytes[0] == 0 && bytes[1] == 0 && bytes.subrange(4, 12) == seq![0x66u8, 0x74, 0x79, 0x70, 0x61, 0x76, 0x69, 0x66])
    ||| has_prefix(bytes, seq![0x76u8, 0x2f, 0x31, 0x01])
    ||| has_prefix(bytes, seq![0x71u8, 0x6f, 0x69, 0x66])
    ||| (bytes.len() >= 2 && bytes[0] == 0x50 && 0x31 <= bytes[1] <= 0x37)
    ||| has_prefix(bytes, seq![0x66u8, 0x61, 0x72, 0x62, 0x66, 0x65, 0x6c, 0x64])
}

/// The format `image::guess_format` reads from the magic bytes at the
/// start of `bytes`, by kind: the crate's table is tried in order and PNG,
/// JPEG, GIF and WebP come first in it.
pub open spec fn guessed_format(bytes: Seq<u8>) -> Option<ImageKind> {
    if has_prefix(bytes, seq![0x89u8, 0x50, 0x4e, 0x47, 0x0d, 0x0a, 0x1a, 0x0a]) {
        Some(ImageKind::Png)
    } else if has_prefix(bytes, seq![0xffu8, 0xd8, 0xff]) {
        Some(ImageKind::Jpeg)
    } else if has_prefix(bytes, seq![0x47u8, 0x49, 0x46, 0x38, 0x39, 0x61]) || has_prefix(bytes, seq![0x47u8, 0x49, 0x46, 0x38, 0x37, 0x61]) {
        Some(ImageKind::Gif)
    } else if bytes.len() >= 12 && has_prefix(bytes, seq![0x52u8, 0x49, 0x46, 0x46]) && bytes.subrange(8, 12) == seq![0x57u8, 0x45, 0x42, 0x50] {
        Some(ImageKind::WebP)
    } else if other_format_magic(bytes) {
        Some(ImageKind::Other)
    } else {
        None
    }
}

/// `STANDARD.encode(bytes)` of the base64 crate: the standard alphabet
/// with `=` padding.
#[verifier::external_body]
fn base64_encode(bytes: &[u8]) -> (r: String)
    ensures
        r@ == base64_text(bytes@),
{
    base64::Engine::encode(&base64::engine::general_purpose::STANDARD, bytes)
}

/// `STANDARD.decode(input)` of the base64 crate.  The engine requires
/// canonical padding and zero trailing bits, so it accepts exactly the
/// standard padded encodings, and gives back the bytes encoded.
#[verifier::external_body]
fn base64_decode(input: &[u8]) -> (r: Result<Vec<u8>, base64::DecodeError>)
    ensures
        match r {
            Ok(v) => base64_std(v@) == input@,
            Err(_) => forall|b: Seq<u8>| #[trigger] base64_std(b) != input@,
        },
{
    base64::Engine::decode(&base64::engine::general_purpose::STANDARD, input)
}

/// `image::guess_format(bytes)`, by the format's kind; `None` when the
/// magic bytes match no format (`guessed_format`).
#[verifier::external_body]
fn guess_format(bytes: &[u8]) -> (r: Option<ImageKind>)
    ensures
        r == guessed_format(bytes@),
{
    match image::guess_format(bytes) {
        Ok(image::ImageFormat::Png) => Some(ImageKind::Png),
        Ok(image::ImageFormat::Jpeg) => Some(ImageKind::Jpeg),
        Ok(image::ImageFormat::Gif) => Some(ImageKind::Gif),
        Ok(image::ImageFormat::WebP) => Some(ImageKind::WebP),
        Ok(_) => Some(ImageKind::Other),
        Err(_) => None,
    }
}

/// The (width, height) of the image that `bytes` decode to, when they
/// decode as an image of a format the image crate guesses.
pub uninterp spec fn decoded_size(bytes: Seq<u8>) -> Option<(u32, u32)>;

/// The (width, height) of a decoded image (`GenericImageView::dimensions`).
pub uninterp spec fn image_size(image: image::DynamicImage) -> (u32, u32);

/// The (width, height) `DynamicImage::resize` gives an image of
/// `width` x `height` for the bounds `max_width` x `max_height`: the
/// largest size within the bounds that keeps the aspect ratio, each side
/// rounded and at least 1 (worked out in floating point by the image
/// crate).
pub uninterp spec fn resized_size(width: u32, height: u32, max_width: u32, max_height: u32) -> (u32, u32);

/// `image::load_from_memory(bytes)` and the decoded image's
/// `GenericImageView::dimensions`: `Ok` with the image and its size exactly
/// when the bytes decode, the size named (`decoded_size`, `image_size`).
/// Nothing is claimed of the pixels.
#[verifier::external_body]
fn decode_image(bytes: &[u8]) -> (r: Result<(image::DynamicImage, u32, u32), image::ImageError>)
    ensures
        match r {
            Ok((image, w, h)) => decoded_size(bytes@) == Some((w, h)) && image_size(image) == (w, h),
            Err(_) => decoded_size(bytes@) is None,
        },
{
    match image::load_from_memory(bytes) {
        Ok(image) => {
            let (w, h) = image::GenericImageView::dimensions(&image);
            Ok((image, w, h))
        },
        Err(e) => Err(e),
    }
}

/// `DynamicImage::resize(width, height, filter)`: the image scaled, aspect
/// ratio kept, to the largest size within the bounds (`resized_size`),
/// which for positive bounds is at least 1 and at most the bound on each
/// side.  Nothing is claimed of the pixels.
#[verifier::external_body]
fn resize_image(image: &image::DynamicImage, width: u32, height: u32, filter: ResizeFilter) -> (r: image::DynamicImage)
    ensures
        image_size(r) == resized_size(image_size(*image).0, image_size(*image).1, width, height),
        width > 0 && height > 0 ==> 1 <= image_size(r).0 <= width && 1 <= image_size(r).1 <= height,
{
    let filter = match filter {
        ResizeFilter::Nearest => image::imageops::FilterType::Nearest,
        ResizeFilter::Triangle => image::imageops::FilterType::Triangle,
        ResizeFilter::CatmullRom => image::imageops::FilterType::CatmullRom,
        ResizeFilter::Gaussian => image::imageops::FilterType::Gaussian,
        ResizeFilter::Lanczos3 => image::imageops::FilterType::Lanczos3,
    };
    image.resize(width, height, filter)
}

/// An image with 8-bit RGBA pixels; only [`to_rgba8`] makes one.
pub struct Rgba8Image {
    image: image::DynamicImage,
}

impl Rgba8Image {
    /// The image.
    pub closed spec fn image(&self) -> image::DynamicImage {
        self.image
    }
}

/// `DynamicImage::to_rgba8`, as a `DynamicImage::ImageRgba8`: the image
/// with 8-bit RGBA pixels, of the same size.  Nothing is claimed of the
/// pixels.
#[verifier::external_body]
fn to_rgba8(image: &image::DynamicImage) -> (r: Rgba8Image)
    ensures
        image_size(r.image()) == image_size(*image),
{
    Rgba8Image { image: image::DynamicImage::ImageRgba8(image.to_rgba8()) }
}

/// A size with no empty side and none beyond `MAX_WIDTH` x `MAX_HEIGHT`.
pub open spec fn within_bounds(size: (u32, u32)) -> bool {
    1 <= size.0 <= MAX_WIDTH && 1 <= size.1 <= MAX_HEIGHT
}

/// `bytes` start with the signature the encoder of `format` writes first:
/// the PNG signature, the JPEG start-of-image and APP0 markers, or the
/// `RIFF` header of a `WEBP` file.
pub open spec fn starts_as(format: ImageKind, bytes: Seq<u8>) -> bool {
    match format {
        ImageKind::Png => has_prefix(bytes, seq![0x89u8, 0x50, 0x4e, 0x47, 0x0d, 0x0a, 0x1a, 0x0a]),
        ImageKind::Jpeg => has_prefix(bytes, seq![0xffu8, 0xd8, 0xff]),
        ImageKind::WebP => bytes.len() >= 12 && has_prefix(bytes, seq![0x52u8, 0x49, 0x46, 0x46]) && bytes.subrange(8, 12)
            == seq![0x57u8, 0x45, 0x42, 0x50],
        _ => false,
    }
}

/// What an encoder of `format` gives for an image of `size`: bytes only
/// for an image with no empty side, starting with the format's signature,
/// and, for an image within bounds (well inside the decoder's default
/// memory limit), bytes that decode back at that size; an image within
/// bounds is always encoded.
pub open spec fn encoded_from(r: Result<Vec<u8>, image::ImageError>, format: ImageKind, size: (u32, u32)) -> bool {
    &&& within_bounds(size) ==> r is Ok
    &&& match r {
        Ok(bytes) => {
            &&& size.0 > 0 && size.1 > 0
            &&& starts_as(format, bytes@)
            &&& within_bounds(size) ==> decoded_size(bytes@) == Some(size)
        },
        Err(_) => true,
    }
}

/// `DynamicImage::write_with_encoder(PngEncoder::new(..))`: the PNG
/// encoding of an RGBA8 image.  The png crate refuses only an empty side
/// here (the output is a `Vec`) and writes the PNG signature first.
#[verifier::external_body]
fn encode_png(image: &Rgba8Image) -> (r: Result<Vec<u8>, image::ImageError>)
    ensures
        encoded_from(r, ImageKind::Png, image_size(image.image())),
{
    let mut buffer = Vec::new();
    image.image.write_with_encoder(image::codecs::png::PngEncoder::new(&mut buffer))?;
    Ok(buffer)
}

/// `JpegEncoder::new_with_quality(.., quality).encode_image(image)`: the
/// JPEG encoding of an image.  The encoder refuses only a side of 0 or
/// above 65535 here (the output is a `Vec`) and starts with the SOI and
/// APP0 markers.
#[verifier::external_body]
fn encode_jpeg(image: &image::DynamicImage, quality: u8) -> (r: Result<Vec<u8>, image::ImageError>)
    ensures
        encoded_from(r, ImageKind::Jpeg, image_size(*image)),
{
    let mut buffer = Vec::new();
    image::codecs::jpeg::JpegEncoder::new_with_quality(&mut buffer, quality).encode_image(image)?;
    Ok(buffer)
}

/// `DynamicImage::write_with_encoder(WebPEncoder::new_lossless(..))`: the
/// lossless WebP encoding of an RGBA8 image (the only WebP encoder of the
/// image crate).  The encoder refuses only a side of 0 or above 16384 here
/// (the output is a `Vec`) and writes the `RIFF`/`WEBP` header first.
#[verifier::external_body]
fn encode_webp_lossless(image: &Rgba8Image) -> (r: Result<Vec<u8>, image::ImageError>)
    ensures
        encoded_from(r, ImageKind::WebP, image_size(image.image())),
{
    let mut buffer = Vec::new();
    image.image.write_with_encoder(image::codecs::webp::WebPEncoder::new_lossless(&mut buffer))?;
    Ok(buffer)
}

/// Bytes an encoder wrote are guessed as its format.
proof fn lemma_signature_guessed(format: ImageKind, bytes: Seq<u8>)
    requires
        starts_as(format, bytes),
    ensures
        guessed_format(bytes) == Some(format),
{
    assert(bytes[0] == bytes.take(3)[0]);
    if format == ImageKind::Jpeg {
        assert(bytes.take(3) == seq![0xffu8, 0xd8, 0xff]);
        assert(bytes[0] == 0xffu8);
        assert(!has_prefix(bytes, seq![0x89u8, 0x50, 0x4e, 0x47, 0x0d, 0x0a, 0x1a, 0x0a])) by {
            if has_prefix(bytes, seq![0x89u8, 0x50, 0x4e, 0x47, 0x0d, 0x0a, 0x1a, 0x0a]) {
                assert(bytes.take(8)[0] == bytes[0]);
            }
        }
    }
    if format == ImageKind::WebP {
        assert(bytes.take(4)[0] == bytes[0]);
        assert(bytes[0] == 0x52u8);
        assert forall|sig: Seq<u8>| sig.len() > 0 && sig[0] != 0x52u8 implies !has_prefix(bytes, sig) by {
            if has_prefix(bytes, sig) {
                assert(bytes.take(sig.len() as int)[0] == bytes[0]);
            }
        }
    }
}

// ─── Decisions ──────────────────────────────────────────────────────────

/// A byte that may appear in base64 text (line breaks included).
pub open spec fn base64_byte(b: u8) -> bool {
    (0x30 <= b && b <= 0x39) || (0x41 <= b && b <= 0x5a) || (0x61 <= b && b <= 0x7a) || b == 0x2b || b == 0x2f
        || b == 0x3d || b == 0x0a || b == 0x0d
}

/// Whether raw input looks like base64 text rather than image bytes: not
/// empty, and only letters, digits, `+`, `/`, `=` and line breaks.
pub fn looks_like_base64_text(raw: &[u8]) -> (r: bool)
    ensures
        r == (raw@.len() > 0 && forall|i: int| 0 <= i < raw@.len() ==> base64_byte(#[trigger] raw@[i])),
{
    if raw.len() == 0 {
        return false;
    }
    let mut i: usize = 0;
    while i < raw.len()
        invariant
            0 <= i <= raw@.len(),
            forall|j: int| 0 <= j < i ==> base64_byte(#[trigger] raw@[j]),
        decreases raw@.len() - i,
    {
        let b = raw[i];
        if !((0x30 <= b && b <= 0x39) || (0x41 <= b && b <= 0x5a) || (0x61 <= b && b <= 0x7a) || b == 0x2b || b == 0x2f
            || b == 0x3d || b == 0x0a || b == 0x0d) {
            return false;
        }
        i = i + 1;
    }
    true
}

/// The image format a media type names.
pub open spec fn format_of_mime(media_type: Seq<char>) -> Option<ImageKind> {
    if media_type == "image/jpeg"@ || media_type == "image/jpg"@ {
        Some(ImageKind::Jpeg)
    } else if media_type == "image/png"@ {
        Some(ImageKind::Png)
    } else if media_type == "image/gif"@ {
        Some(ImageKind::Gif)
    } else if media_type == "image/webp"@ {
        Some(ImageKind::WebP)
    } else {
        None
    }
}

/// The format named by a media type.
pub fn mime_to_format(media_type: &str) -> (r: Option<ImageKind>)
    ensures
        r == format_of_mime(media_type@),
{
    if crate::text::str_eq(media_type, "image/jpeg") || crate::text::str_eq(media_type, "image/jpg") {
        Some(ImageKind::Jpeg)
    } else if crate::text::str_eq(media_type, "image/png") {
        Some(ImageKind::Png)
    } else if crate::text::str_eq(media_type, "image/gif") {
        Some(ImageKind::Gif)
    } else if crate::text::str_eq(media_type, "image/webp") {
        Some(ImageKind::WebP)
    } else {
        None
    }
}

/// The media type of a format; PNG for anything unknown.
pub open spec fn mime_of_format(format: ImageKind) -> Seq<char> {
    match format {
        ImageKind::Jpeg => "image/jpeg"@,
        ImageKind::Gif => "image/gif"@,
        ImageKind::WebP => "image/webp"@,
        _ => "image/png"@,
    }
}

/// The media type of `format`.
pub fn format_to_mime(format: ImageKind) -> (r: String)
    ensures
        r@ == mime_of_format(format),
{
    match format {
        ImageKind::Jpeg => to_string("image/jpeg"),
        ImageKind::Gif => to_string("image/gif"),
        ImageKind::WebP => to_string("image/webp"),
        _ => to_string("image/png"),
    }
}

/// Formats whose source bytes may be sent unchanged.
pub open spec fn preservable(format: ImageKind) -> bool {
    format == ImageKind::Png || format == ImageKind::Jpeg || format == ImageKind::WebP
}

/// The source format: the guessed one when it is PNG, JPEG, GIF or WebP,
/// else the one the media type hint names.
pub open spec fn source_format(guessed: Option<ImageKind>, hint: Seq<char>) -> Option<ImageKind> {
    match guessed {
        Some(f) => if f == ImageKind::Other {
            format_of_mime(hint)
        } else {
            Some(f)
        },
        None => format_of_mime(hint),
    }
}

/// How an image is sent.
#[derive(Clone, Copy, Debug, PartialEq, Eq, Structural)]
pub enum EncodingPlan {
    /// Send the source bytes as they are.
    KeepSource(ImageKind),
    /// Re-encode as `target`, after downscaling when `resize` is set.
    Reencode { resize: bool, target: ImageKind },
}

/// The plan for an image of `width` x `height` in `source`: a small image
/// in a preservable format is kept; otherwise it is downscaled when too
/// large and re-encoded in its own preservable format, or as PNG.
pub open spec fn encoding_plan(source: Option<ImageKind>, width: u32, height: u32) -> EncodingPlan {
    let fits = width <= MAX_WIDTH && height <= MAX_HEIGHT;
    let keep = match source {
        Some(f) => preservable(f),
        None => false,
    };
    if fits && keep {
        EncodingPlan::KeepSource(source->0)
    } else {
        EncodingPlan::Reencode { resize: !fits, target: if keep { source->0 } else { ImageKind::Png } }
    }
}

/// Decides how an image is sent.
pub fn plan_encoding(source: Option<ImageKind>, width: u32, height: u32) -> (r: EncodingPlan)
    ensures
        r == encoding_plan(source, width, height),
{
    let fits = width <= MAX_WIDTH && height <= MAX_HEIGHT;
    let keep = match source {
        Some(f) => f == ImageKind::Png || f == ImageKind::Jpeg || f == ImageKind::WebP,
        None => false,
    };
    if fits && keep {
        match source {
            Some(f) => EncodingPlan::KeepSource(f),
            None => EncodingPlan::Reencode { resize: !fits, target: ImageKind::Png },
        }
    } else {
        let target = match source {
            Some(f) => if keep { f } else { ImageKind::Png },
            None => ImageKind::Png,
        };
        EncodingPlan::Reencode { resize: !fits, target }
    }
}

fn copy_bytes(bytes: &[u8]) -> (r: Vec<u8>)
    ensures
        r@ == bytes@,
{
    let mut r: Vec<u8> = Vec::new();
    let mut i: usize = 0;
    while i < bytes.len()
        invariant
            0 <= i <= bytes@.len(),
            r@ == bytes@.take(i as int),
        decreases bytes@.len() - i,
    {
        r.push(bytes[i]);
        proof {
            assert(bytes@.take(i + 1) =~= bytes@.take(i as int).push(bytes@[i as int]));
        }
        i = i + 1;
    }
    proof {
        assert(bytes@.take(bytes@.len() as int) =~= bytes@);
    }
    r
}

/// The size of a re-encoded image: the downscaled size when the plan
/// resizes, else the decoded size.
pub open spec fn reencoded_size(resize: bool, width: u32, height: u32) -> (u32, u32) {
    if resize {
        resized_size(width, height, MAX_WIDTH, MAX_HEIGHT)
    } else {
        (width, height)
    }
}

/// What processing `file_bytes` gives: a decoding error when they do not
/// decode as an image; the source bytes under the source format's media
/// type when the plan for the decoded size keeps them; otherwise bytes in
/// the plan's target format (guessed as that format) that decode to an
/// image of the re-encoded size (downscaled when the plan says so), no side
/// empty and none beyond `MAX_WIDTH` x `MAX_HEIGHT`; an encoding error
/// naming that format only for a decoded image with an empty side, which
/// no encoder writes.
pub open spec fn processed_outcome(
    file_bytes: Seq<u8>,
    hint: Seq<char>,
    r: Result<EncodedImage, ImageProcessingError>,
) -> bool {
    match decoded_size(file_bytes) {
        None => r matches Err(e) && e is Decode,
        Some((w, h)) => match encoding_plan(source_format(guessed_format(file_bytes), hint), w, h) {
            EncodingPlan::KeepSource(f) => r matches Ok(img) && img.bytes@ == file_bytes && img.mime@
                == mime_of_format(f),
            EncodingPlan::Reencode { resize, target } => {
                let size = reencoded_size(resize, w, h);
                match r {
                    Ok(img) => {
                        &&& img.mime@ == mime_of_format(target)
                        &&& guessed_format(img.bytes@) == Some(target)
                        &&& decoded_size(img.bytes@) == Some(size)
                        &&& within_bounds(size)
                    },
                    Err(e) => {
                        &&& e matches ImageProcessingError::Encode { format, .. } && format == target
                        &&& (size.0 == 0 || size.1 == 0)
                    },
                }
            },
        },
    }
}

/// Decodes an image and prepares it for a model: kept as is when it is a
/// small PNG, JPEG or WebP, otherwise downscaled to fit and re-encoded
/// (in its own format when that is PNG, JPEG or WebP, else as PNG).
pub fn process_image_bytes(file_bytes: &[u8], media_type_hint: &str) -> (r: Result<EncodedImage, ImageProcessingError>)
    ensures
        processed_outcome(file_bytes@, media_type_hint@, r),
{
    let guessed = guess_format(file_bytes);
    let source = match guessed {
        Some(f) => match f {
            ImageKind::Other => mime_to_format(media_type_hint),
            _ => Some(f),
        },
        None => mime_to_format(media_type_hint),
    };
    let (dynamic, width, height) = match decode_image(file_bytes) {
        Ok(decoded) => decoded,
        Err(e) => return Err(ImageProcessingError::Decode(e)),
    };
    let plan = plan_encoding(source, width, height);
    proof {
        assert(encoding_plan(source_format(guessed_format(file_bytes@), media_type_hint@), width, height) == plan);
    }
    match plan {
        EncodingPlan::KeepSource(f) => Ok(EncodedImage { bytes: copy_bytes(file_bytes), mime: format_to_mime(f) }),
        EncodingPlan::Reencode { resize, target } => {
            let resized = if resize {
                resize_image(&dynamic, MAX_WIDTH, MAX_HEIGHT, RESIZE_FILTER)
            } else {
                dynamic
            };
            let encoded = match target {
                ImageKind::Jpeg => encode_jpeg(&resized, JPEG_QUALITY),
                ImageKind::WebP => encode_webp_lossless(&to_rgba8(&resized)),
                _ => encode_png(&to_rgba8(&resized)),
            };
            match encoded {
                Ok(bytes) => {
                    proof {
                        lemma_signature_guessed(target, bytes@);
                    }
                    Ok(EncodedImage { bytes, mime: format_to_mime(target) })
                },
                Err(source) => Err(ImageProcessingError::Encode { format: target, source }),
            }
        },
    }
}

/// Decodes base64 text, or takes raw bytes as they are, and prepares the
/// image.
pub fn encode_from_bytes(raw: &[u8], media_type_hint: &str) -> (r: Result<EncodedImage, ImageProcessingError>)
    ensures
        (raw@.len() > 0 && forall|i: int| 0 <= i < raw@.len() ==> base64_byte(#[trigger] raw@[i])) ==> match base64_decoding(raw@) {
            Some(b) => processed_outcome(b, media_type_hint@, r),
            None => r matches Err(e) && e is InvalidBase64,
        },
        !(raw@.len() > 0 && forall|i: int| 0 <= i < raw@.len() ==> base64_byte(#[trigger] raw@[i]))
            ==> processed_outcome(raw@, media_type_hint@, r),
{
    if looks_like_base64_text(raw) {
        match base64_decode(raw) {
            Ok(bytes) => {
                proof {
                    lemma_base64_injective(choose|b: Seq<u8>| base64_std(b) == raw@, bytes@);
                }
                process_image_bytes(bytes.as_slice(), media_type_hint)
            },
            Err(e) => Err(ImageProcessingError::InvalidBase64(e)),
        }
    } else {
        process_image_bytes(raw, media_type_hint)
    }
}

/// `s` with every trailing `;base64` removed (`trim_end_matches`).
pub open spec fn strip_base64_markers(s: Seq<char>) -> Seq<char>
    decreases s.len(),
{
    if s.len() >= 7 && ends_with(s, ";base64"@) {
        strip_base64_markers(s.take(s.len() - 7))
    } else {
        s
    }
}

/// A data URL split into its media type and payload: `data:{type};base64,{payload}`,
/// the media type without any `;base64` markers at its end.
pub open spec fn data_url_parts(url: Seq<char>) -> Option<(Seq<char>, Seq<char>)> {
    if !starts_with(url, "data:"@) {
        None
    } else {
        let rest = url.skip(5);
        if exists|i: int| 0 <= i < rest.len() && rest[i] == ',' {
            let i = choose|i: int| 0 <= i < rest.len() && rest[i] == ',' && forall|j: int| 0 <= j < i ==> rest[j] != ',';
            let meta = rest.take(i);
            if ends_with(meta, ";base64"@) {
                Some((strip_base64_markers(meta), rest.skip(i + 1)))
            } else {
                None
            }
        } else {
            None
        }
    }
}

/// Splits `data:{type};base64,{payload}` at its first comma.
pub fn split_data_url(url: &str) -> (r: Option<(String, String)>)
    ensures
        match r {
            Some((t, p)) => data_url_parts(url@) == Some((t@, p@)),
            None => data_url_parts(url@) is None,
        },
{
    proof {
        reveal_strlit("data:");
        reveal_strlit(";base64");
    }
    if !str_starts_with(url, "data:") {
        return None;
    }
    let v = crate::text::chars_of(url);
    let ghost rest = url@.skip(5);
    let mut i: usize = 5;
    while i < v.len() && v[i] != ','
        invariant
            5 <= i <= v@.len(),
            v@ == url@,
            rest == url@.skip(5),
            forall|j: int| 0 <= j < i - 5 ==> rest[j] != ',',
        decreases v@.len() - i,
    {
        i = i + 1;
    }
    if i == v.len() {
        proof {
            assert(!(exists|k: int| 0 <= k < rest.len() && rest[k] == ','));
        }
        return None;
    }
    let meta = crate::text::string_from_range(&v, 5, i);
    proof {
        let k = (i - 5) as int;
        assert(rest[k] == ',');
        let c = choose|c: int| 0 <= c < rest.len() && rest[c] == ',' && forall|j: int| 0 <= j < c ==> rest[j] != ',';
        assert(c == k);
        assert(meta@ =~= rest.take(k));
    }
    if !str_ends_with(meta.as_str(), ";base64") {
        return None;
    }
    let mut media = meta;
    let ghost m0 = media@;
    while str_ends_with(media.as_str(), ";base64")
        invariant
            strip_base64_markers(m0) == strip_base64_markers(media@),
            ";base64"@.len() == 7,
        decreases media@.len(),
    {
        let mv = crate::text::chars_of(media.as_str());
        let shorter = crate::text::string_from_range(&mv, 0, mv.len() - 7);
        proof {
            assert(shorter@ =~= media@.take(media@.len() - 7));
        }
        media = shorter;
    }
    let payload = crate::text::string_from_range(&v, i + 1, v.len());
    proof {
        let k = (i - 5) as int;
        assert(payload@ =~= rest.skip(k + 1));
        assert(m0 == rest.take(k));
    }
    Some((media, payload))
}

/// Decodes a `data:{type};base64,{payload}` URL and prepares the image.
pub fn decode_from_data_url(data_url: &str) -> (r: Result<EncodedImage, ImageProcessingError>)
    ensures
        match data_url_parts(data_url@) {
            None => r matches Err(e) && e is InvalidDataUrl,
            Some((media, payload)) => match base64_decoding(vstd::utf8::encode_utf8(payload)) {
                None => r matches Err(e) && e is InvalidBase64,
                Some(b) => processed_outcome(b, media, r),
            },
        },
{
    let (media_type, encoded) = match split_data_url(data_url) {
        Some(parts) => parts,
        None => return Err(ImageProcessingError::InvalidDataUrl),
    };
    match base64_decode(encoded.as_str().as_bytes()) {
        Ok(bytes) => {
            proof {
                let input = vstd::utf8::encode_utf8(encoded@);
                lemma_base64_injective(choose|b: Seq<u8>| base64_std(b) == input, bytes@);
            }
            process_image_bytes(bytes.as_slice(), media_type.as_str())
        },
        Err(e) => Err(ImageProcessingError::InvalidBase64(e)),
    }
}

impl EncodedImage {
    /// The image bytes as standard base64 text.
    pub fn to_base64(&self) -> (r: String)
        ensures
            r@ == base64_text(self.bytes@),
    {
        base64_encode(self.bytes.as_slice())
    }
}

/// The media types of the four image formats are the IANA ones, and each
/// reads back as its format (`image/jpg` being read as JPEG too); a format
/// this module does not handle is sent as PNG.
pub proof fn law_media_types()
    ensures
        mime_of_format(ImageKind::Png) == "image/png"@,
        mime_of_format(ImageKind::Jpeg) == "image/jpeg"@,
        mime_of_format(ImageKind::Gif) == "image/gif"@,
        mime_of_format(ImageKind::WebP) == "image/webp"@,
        mime_of_format(ImageKind::Other) == "image/png"@,
        format_of_mime("image/png"@) == Some(ImageKind::Png),
        format_of_mime("image/jpeg"@) == Some(ImageKind::Jpeg),
        format_of_mime("image/jpg"@) == Some(ImageKind::Jpeg),
        format_of_mime("image/gif"@) == Some(ImageKind::Gif),
        format_of_mime("image/webp"@) == Some(ImageKind::WebP),
        forall|f: ImageKind| f != ImageKind::Other ==> format_of_mime(#[trigger] mime_of_format(f)) == Some(f),
{
    reveal_strlit("image/png");
    reveal_strlit("image/jpeg");
    reveal_strlit("image/jpg");
    reveal_strlit("image/gif");
    reveal_strlit("image/webp");
    assert("image/png"@[6] != "image/jpg"@[6]);
    assert("image/gif"@[6] != "image/jpg"@[6]);
    assert("image/gif"@[6] != "image/png"@[6]);
    assert("image/webp"@[6] != "image/jpeg"@[6]);
    assert("image/webp"@.len() != "image/png"@.len());
    assert forall|f: ImageKind| f != ImageKind::Other implies format_of_mime(#[trigger] mime_of_format(f)) == Some(f) by {
        match f {
            ImageKind::Png => {},
            ImageKind::Jpeg => {},
            ImageKind::Gif => {},
            ImageKind::WebP => {},
            ImageKind::Other => {},
        }
    }
}

/// Only small images in a format the model reads as sent (PNG, JPEG, WebP)
/// keep their bytes; every other image is re-encoded, downscaled exactly
/// when a side exceeds its bound, in its own format when it is PNG, JPEG
/// or WebP and as PNG otherwise.
pub proof fn law_encoding_plans(source: Option<ImageKind>, width: u32, height: u32)
    ensures
        encoding_plan(source, width, height) matches EncodingPlan::KeepSource(f) ==> {
            &&& source == Some(f)
            &&& (f == ImageKind::Png || f == ImageKind::Jpeg || f == ImageKind::WebP)
            &&& width <= 2048 && height <= 768
        },
        encoding_plan(source, width, height) matches EncodingPlan::Reencode { resize, target } ==> {
            &&& resize == (width > 2048 || height > 768)
            &&& (target == ImageKind::Png || target == ImageKind::Jpeg || target == ImageKind::WebP)
            &&& (source is Some && (source->0 == ImageKind::Png || source->0 == ImageKind::Jpeg || source->0
                == ImageKind::WebP) ==> target == source->0)
            &&& (!(source is Some && (source->0 == ImageKind::Png || source->0 == ImageKind::Jpeg || source->0
                == ImageKind::WebP)) ==> target == ImageKind::Png)
        },
        width <= 2048 && height <= 768 && (source == Some(ImageKind::Png) || source == Some(ImageKind::Jpeg)
            || source == Some(ImageKind::WebP)) ==> encoding_plan(source, width, height) == EncodingPlan::KeepSource(
            source->0,
        ),
{
}

} // verus!
