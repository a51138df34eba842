use astrcode::image_processing::{
    decode_from_data_url, encode_from_bytes, looks_like_base64_text, plan_encoding, split_data_url, EncodingPlan,
    EncodedImage, ImageKind, ImageProcessingError, MAX_HEIGHT, MAX_WIDTH,
};
use base64::Engine;
use image::{DynamicImage, ImageBuffer, ImageFormat, Rgba};

fn png_bytes(width: u32, height: u32) -> Vec<u8> {
    let image = ImageBuffer::from_pixel(width, height, Rgba([10u8, 20, 30, 255]));
    let mut buffer = Vec::new();
    DynamicImage::ImageRgba8(image)
        .write_to(&mut std::io::Cursor::new(&mut buffer), ImageFormat::Png)
        .unwrap();
    buffer
}

#[test]
fn decodes_base64_png_content() {
    let raw = png_bytes(64, 32);
    let encoded = base64::engine::general_purpose::STANDARD.encode(&raw);
    let result = encode_from_bytes(encoded.as_bytes(), "image/png").unwrap();
    assert_eq!(result.mime, "image/png");
    assert!(!result.to_base64().is_empty());
}

#[test]
fn downscales_large_image() {
    let raw = png_bytes(4096, 2048);
    let result = encode_from_bytes(&raw, "image/png").unwrap();
    let loaded = image::load_from_memory(&result.bytes).unwrap();
    assert!(loaded.width() <= MAX_WIDTH);
    assert!(loaded.height() <= MAX_HEIGHT);
}

#[test]
fn small_png_is_kept_byte_for_byte() {
    let raw = png_bytes(16, 16);
    let result = encode_from_bytes(&raw, "image/jpeg").unwrap();
    assert_eq!(result.bytes, raw);
    assert_eq!(result.mime, "image/png");
    assert_eq!(result.to_base64(), base64::engine::general_purpose::STANDARD.encode(&raw));
}

#[test]
fn data_urls_and_base64_detection() {
    assert!(looks_like_base64_text(b"QUJD\r\n+/="));
    assert!(!looks_like_base64_text(b""));
    assert!(!looks_like_base64_text(b"ab c"));
    assert_eq!(
        split_data_url("data:image/png;base64,AAAA"),
        Some(("image/png".to_string(), "AAAA".to_string()))
    );
    assert_eq!(split_data_url("data:image/png,AAAA"), None);
    assert_eq!(split_data_url("image/png;base64,AAAA"), None);
    assert!(matches!(decode_from_data_url("nope"), Err(ImageProcessingError::InvalidDataUrl)));
    assert!(matches!(decode_from_data_url("data:image/png;base64,@@@"), Err(ImageProcessingError::InvalidBase64(_))));
    let url = format!("data:image/png;base64,{}", base64::engine::general_purpose::STANDARD.encode(png_bytes(8, 8)));
    assert_eq!(decode_from_data_url(&url).unwrap().mime, "image/png");
    assert!(matches!(encode_from_bytes(b"not an image!", "image/png"), Err(ImageProcessingError::Decode(_))));
}

#[test]
fn encoding_plans() {
    assert_eq!(plan_encoding(Some(ImageKind::Jpeg), 100, 100), EncodingPlan::KeepSource(ImageKind::Jpeg));
    assert_eq!(
        plan_encoding(Some(ImageKind::Gif), 100, 100),
        EncodingPlan::Reencode { resize: false, target: ImageKind::Png }
    );
    assert_eq!(
        plan_encoding(Some(ImageKind::WebP), 3000, 100),
        EncodingPlan::Reencode { resize: true, target: ImageKind::WebP }
    );
    assert_eq!(plan_encoding(None, 10, 800), EncodingPlan::Reencode { resize: true, target: ImageKind::Png });
}

#[test]
fn repeated_base64_markers_are_all_removed() {
    assert_eq!(
        split_data_url("data:image/png;base64;base64,AAAA"),
        Some(("image/png".to_string(), "AAAA".to_string()))
    );
}

fn text_of(bytes: &[u8]) -> String {
    EncodedImage { bytes: bytes.to_vec(), mime: "image/png".to_string() }.to_base64()
}

#[test]
fn base64_text_is_standard_and_padded() {
    assert_eq!(text_of(b""), "");
    assert_eq!(text_of(b"M"), "TQ==");
    assert_eq!(text_of(b"Ma"), "TWE=");
    assert_eq!(text_of(b"Man"), "TWFu");
    assert_eq!(text_of(&[0xfb, 0xff, 0xbf]), "+/+/");
}

#[test]
fn non_canonical_base64_is_refused() {
    // Missing padding and non-zero trailing bits are both refused.
    assert!(matches!(encode_from_bytes(b"TQ", "image/png"), Err(ImageProcessingError::InvalidBase64(_))));
    assert!(matches!(encode_from_bytes(b"TR==", "image/png"), Err(ImageProcessingError::InvalidBase64(_))));
    // Canonical text of bytes that are no image fails to decode as one.
    assert!(matches!(encode_from_bytes(b"TWFu", "image/png"), Err(ImageProcessingError::Decode(_))));
}

#[test]
fn gif_is_reencoded_as_png() {
    let image = ImageBuffer::from_pixel(4, 4, Rgba([1u8, 2, 3, 255]));
    let mut gif = Vec::new();
    DynamicImage::ImageRgba8(image)
        .write_to(&mut std::io::Cursor::new(&mut gif), ImageFormat::Gif)
        .unwrap();
    let result = encode_from_bytes(&gif, "image/gif").unwrap();
    assert_eq!(result.mime, "image/png");
    assert_ne!(result.bytes, gif);
    assert_eq!(image::guess_format(&result.bytes).unwrap(), ImageFormat::Png);
}

#[test]
fn large_image_keeps_its_aspect_within_bounds() {
    let result = encode_from_bytes(&png_bytes(4096, 2048), "image/png").unwrap();
    assert_eq!(result.mime, "image/png");
    let loaded = image::load_from_memory(&result.bytes).unwrap();
    assert_eq!((loaded.width(), loaded.height()), (1536, 768));
}

#[test]
fn reencoding_without_resizing_keeps_the_size() {
    let image = ImageBuffer::from_pixel(5, 3, Rgba([1u8, 2, 3, 255]));
    let mut gif = Vec::new();
    DynamicImage::ImageRgba8(image)
        .write_to(&mut std::io::Cursor::new(&mut gif), ImageFormat::Gif)
        .unwrap();
    let result = encode_from_bytes(&gif, "image/gif").unwrap();
    let loaded = image::load_from_memory(&result.bytes).unwrap();
    assert_eq!((loaded.width(), loaded.height()), (5, 3));
}

fn encoded(width: u32, height: u32, format: ImageFormat) -> Vec<u8> {
    let image = ImageBuffer::from_pixel(width, height, Rgba([200u8, 100, 50, 255]));
    let mut buffer = Vec::new();
    let dynamic = DynamicImage::ImageRgba8(image);
    let dynamic = if format == ImageFormat::Jpeg { DynamicImage::ImageRgb8(dynamic.to_rgb8()) } else { dynamic };
    dynamic.write_to(&mut std::io::Cursor::new(&mut buffer), format).unwrap();
    buffer
}

#[test]
fn large_jpeg_is_reencoded_as_jpeg() {
    let result = encode_from_bytes(&encoded(3000, 100, ImageFormat::Jpeg), "image/jpeg").unwrap();
    assert_eq!(result.mime, "image/jpeg");
    assert_eq!(image::guess_format(&result.bytes).unwrap(), ImageFormat::Jpeg);
    let loaded = image::load_from_memory(&result.bytes).unwrap();
    assert!(loaded.width() <= MAX_WIDTH && loaded.height() <= MAX_HEIGHT);
}

#[test]
fn large_webp_is_reencoded_as_webp() {
    let result = encode_from_bytes(&encoded(100, 1000, ImageFormat::WebP), "image/webp").unwrap();
    assert_eq!(result.mime, "image/webp");
    assert_eq!(image::guess_format(&result.bytes).unwrap(), ImageFormat::WebP);
    let loaded = image::load_from_memory(&result.bytes).unwrap();
    assert_eq!(loaded.height(), MAX_HEIGHT);
}
