use std::io::Cursor;

use clawdbot_image_ops::error::ImageOpsError;
use clawdbot_image_ops::format::FormatTag;
use clawdbot_image_ops::ops::{
    admit_decoded, admit_encoded, cmd_metadata, cmd_resize, cmd_thumbnail, describe, read_image,
    write_jpeg, Origin,
};
use clawdbot_image_ops::raster::RasterImage;
use clawdbot_image_ops::request::{ResizeRequest, ThumbnailRequest};
use clawdbot_image_ops::transform::{resize, thumbnail};
use image::{DynamicImage, ImageFormat};

fn encoded(width: u32, height: u32, format: ImageFormat) -> Vec<u8> {
    let img = DynamicImage::new_rgb8(width, height);
    let mut bytes = Vec::new();
    img.write_to(&mut Cursor::new(&mut bytes), format).unwrap();
    bytes
}

fn create_test_image() -> Vec<u8> {
    encoded(100, 50, ImageFormat::Png)
}

fn file(extension: &str) -> Origin {
    Origin::File(Some(extension.to_string()))
}

fn plain(width: u32, height: u32) -> RasterImage {
    let length = width as usize * height as usize * 3;
    RasterImage::new(width, height, vec![128u8; length]).unwrap()
}

fn dimensions_of_jpeg(bytes: &[u8]) -> (u32, u32) {
    let (image, tag) = read_image(bytes, &Origin::Stream).unwrap();
    assert_eq!(tag, FormatTag::Jpeg);
    (image.width(), image.height())
}

#[test]
fn test_read_image_from_file() {
    let bytes = create_test_image();
    let (img, format) = read_image(&bytes, &file("png")).unwrap();

    assert_eq!((img.width(), img.height()), (100, 50));
    assert_eq!(format, FormatTag::Png);
}

#[test]
fn test_resize_maintains_aspect_ratio() {
    let bytes = create_test_image();

    let output = cmd_resize(
        &bytes,
        &file("png"),
        50, // max_side
        85,
        true,
    )
    .unwrap();

    let (resized, _) = read_image(&output.jpeg, &file("jpg")).unwrap();
    let (w, h) = (resized.width(), resized.height());

    // Should be 50x25 (maintaining 2:1 aspect ratio)
    assert_eq!(w, 50);
    assert_eq!(h, 25);
}

#[test]
fn test_without_enlargement() {
    let bytes = create_test_image();

    let output = cmd_resize(
        &bytes,
        &file("png"),
        200, // max_side larger than image
        85,
        true, // without_enlargement
    )
    .unwrap();

    let (resized, _) = read_image(&output.jpeg, &file("jpg")).unwrap();
    let (w, h) = (resized.width(), resized.height());

    // Should remain 100x50, not enlarged
    assert_eq!(w, 100);
    assert_eq!(h, 50);
}

#[test]
fn resize_reports_dimensions_before_and_after() {
    let bytes = create_test_image();
    let output = cmd_resize(&bytes, &Origin::Stream, 50, 85, true).unwrap();
    assert_eq!(output.report.original_width, 100);
    assert_eq!(output.report.original_height, 50);
    assert_eq!(output.report.width, 50);
    assert_eq!(output.report.height, 25);
}

#[test]
fn resize_never_enlarges_even_when_allowed() {
    let bytes = create_test_image();
    let output = cmd_resize(&bytes, &Origin::Stream, 200, 85, false).unwrap();
    assert_eq!((output.report.width, output.report.height), (100, 50));
    assert_eq!(dimensions_of_jpeg(&output.jpeg), (100, 50));
}

#[test]
fn resize_to_the_longest_side_itself_changes_nothing() {
    let image = plain(100, 50);
    let before = image.pixels().clone();
    for flag in [true, false] {
        let request = ResizeRequest::new(100, 85, flag).unwrap();
        let out = resize(image.clone(), &request).unwrap();
        assert_eq!((out.width(), out.height()), (100, 50));
        assert_eq!(out.pixels(), &before);
    }
}

#[test]
fn resize_square_image() {
    let request = ResizeRequest::new(16, 85, true).unwrap();
    let out = resize(plain(64, 64), &request).unwrap();
    assert_eq!((out.width(), out.height()), (16, 16));
    assert_eq!(out.pixels().len(), 16 * 16 * 3);
}

#[test]
fn resize_portrait_image() {
    let request = ResizeRequest::new(50, 85, true).unwrap();
    let out = resize(plain(50, 100), &request).unwrap();
    assert_eq!((out.width(), out.height()), (25, 50));
}

#[test]
fn resize_result_fits_the_longest_side() {
    for (width, height, max_side) in
        [(100u32, 34u32, 30u32), (101, 10, 4), (100, 4, 30), (22, 11, 15), (640, 480, 100), (3, 7, 5)]
    {
        let request = ResizeRequest::new(max_side, 85, true).unwrap();
        let out = resize(plain(width, height), &request).unwrap();
        assert!(out.width() >= 1 && out.width() <= max_side && out.width() <= width);
        assert!(out.height() >= 1 && out.height() <= max_side && out.height() <= height);
        assert_eq!(out.pixels().len(), (out.width() * out.height() * 3) as usize);
    }
}

#[test]
fn resize_puts_the_longest_side_on_max_side() {
    for (width, height, max_side) in
        [(640u32, 480u32, 100u32), (1000, 700, 333), (300, 200, 7), (100, 34, 30), (7, 1000, 999)]
    {
        let request = ResizeRequest::new(max_side, 85, true).unwrap();
        let out = resize(plain(width, height), &request).unwrap();
        assert_eq!(out.width().max(out.height()), max_side);
        assert!(out.width() <= width && out.height() <= height);
        let skew = out.width() as i64 * height as i64 - out.height() as i64 * width as i64;
        assert!(skew.abs() < width.max(height) as i64);
    }
}

#[test]
fn resize_of_a_thin_image_keeps_the_longest_side() {
    let request = ResizeRequest::new(30, 85, true).unwrap();
    let out = resize(plain(100, 4), &request).unwrap();
    assert_eq!((out.width(), out.height()), (30, 1));
}

#[test]
fn resize_with_a_vanishing_side_keeps_one_pixel() {
    let request = ResizeRequest::new(4, 85, true).unwrap();
    let out = resize(plain(101, 10), &request).unwrap();
    assert_eq!((out.width(), out.height()), (4, 1));
}

#[test]
fn resize_gives_the_pixels_of_the_lanczos_resampler() {
    let mut pixels = Vec::new();
    for i in 0..(40 * 30 * 3) {
        pixels.push((i * 31 % 251) as u8);
    }
    let image = RasterImage::new(40, 30, pixels.clone()).unwrap();
    let request = ResizeRequest::new(20, 85, true).unwrap();
    let out = resize(image, &request).unwrap();
    let source = image::RgbImage::from_raw(40, 30, pixels).unwrap();
    let expected = DynamicImage::ImageRgb8(source)
        .resize(20, 15, image::imageops::FilterType::Lanczos3)
        .into_rgb8();
    assert_eq!((out.width(), out.height()), expected.dimensions());
    assert_eq!(out.pixels(), expected.as_raw());
}

#[test]
fn enlargement_flag_changes_nothing() {
    let bytes = encoded(64, 48, ImageFormat::Png);
    for max_side in [20u32, 64, 100] {
        let on = cmd_resize(&bytes, &Origin::Stream, max_side, 85, true).unwrap();
        let off = cmd_resize(&bytes, &Origin::Stream, max_side, 85, false).unwrap();
        assert_eq!(on.report, off.report);
        assert_eq!(on.jpeg, off.jpeg);
    }
}

#[test]
fn thumbnail_has_the_dimensions_of_the_aspect_preserving_fit() {
    for (width, height, size) in [
        (100u32, 50u32, 256u32),
        (100, 50, 7),
        (3, 200, 64),
        (200, 3, 64),
        (17, 17, 1),
        (5, 9, 300),
        (640, 480, 256),
        (1000, 1, 100),
        (22, 11, 15),
        (46, 23, 13),
    ] {
        let request = ThumbnailRequest::new(size, 80).unwrap();
        let out = thumbnail(&plain(width, height), &request).unwrap();
        let expected = DynamicImage::new_rgb8(width, height).thumbnail(size, size);
        assert_eq!((out.width(), out.height()), (expected.width(), expected.height()));
        assert_eq!(out.width().max(out.height()), size);
    }
}

#[test]
fn thumbnail_gives_the_pixels_of_the_averaging_resampler() {
    let mut pixels = Vec::new();
    for i in 0..(40 * 30 * 3) {
        pixels.push((i * 31 % 251) as u8);
    }
    let image = RasterImage::new(40, 30, pixels.clone()).unwrap();
    for size in [8u32, 100] {
        let request = ThumbnailRequest::new(size, 80).unwrap();
        let out = thumbnail(&image, &request).unwrap();
        let source = image::RgbImage::from_raw(40, 30, pixels.clone()).unwrap();
        let expected = DynamicImage::ImageRgb8(source).thumbnail(size, size).into_rgb8();
        assert_eq!((out.width(), out.height()), expected.dimensions());
        assert_eq!(out.pixels(), expected.as_raw());
    }
}

#[test]
fn thumbnail_of_a_thin_image_in_a_large_box() {
    let request = ThumbnailRequest::new(30000, 80).unwrap();
    let out = thumbnail(&plain(1000, 1), &request).unwrap();
    assert_eq!((out.width(), out.height()), (30000, 30));
    let request = ThumbnailRequest::new(28000, 80).unwrap();
    let out = thumbnail(&plain(60000, 1), &request).unwrap();
    assert_eq!((out.width(), out.height()), (28000, 1));
}

#[test]
fn thumbnail_block_at_the_limit_of_the_averaging() {
    // one pixel averaging 4100 x 4100 source pixels is the most that sums
    let request = ThumbnailRequest::new(1, 80).unwrap();
    let out = thumbnail(&plain(4100, 4100), &request).unwrap();
    assert_eq!((out.width(), out.height()), (1, 1));
    assert_eq!(out.pixels(), &vec![128u8, 128, 128]);
    assert!(matches!(thumbnail(&plain(4105, 4105), &request), Err(ImageOpsError::TooLarge)));
}

#[test]
fn metadata_of_a_png_stream() {
    let bytes = create_test_image();
    let record = cmd_metadata(&bytes, &Origin::Stream).unwrap();
    assert_eq!(record.width, 100);
    assert_eq!(record.height, 50);
    assert_eq!(record.format, "png");
    assert_eq!(record.orientation, None);
}

#[test]
fn metadata_of_a_png_file() {
    let bytes = create_test_image();
    let record = cmd_metadata(&bytes, &file("png")).unwrap();
    assert_eq!((record.width, record.height), (100, 50));
    assert_eq!(record.format, "png");
}

#[test]
fn format_reads_unknown_only_where_none_is_detected() {
    let bytes = encoded(4, 4, ImageFormat::Png);
    let (_, tag) = read_image(&bytes, &Origin::Stream).unwrap();
    assert_ne!(tag, FormatTag::Unknown);
    assert_ne!(cmd_metadata(&bytes, &file("png")).unwrap().format, "unknown");
    for extension in ["avif", "jpg", "jfif", "apng", "tif", "exr", "pbm", "ff", "qoi", "ico", "dds"] {
        let (image, tag) = match read_image(&encoded(2, 2, ImageFormat::Png), &file(extension)) {
            Ok(found) => found,
            Err(_) => continue,
        };
        assert_eq!((image.width(), image.height()), (2, 2));
        assert_ne!(tag, FormatTag::Unknown);
    }
}

#[test]
fn metadata_is_idempotent() {
    let bytes = encoded(37, 91, ImageFormat::Bmp);
    let first = cmd_metadata(&bytes, &Origin::Stream).unwrap();
    let second = cmd_metadata(&bytes, &Origin::Stream).unwrap();
    assert_eq!(first.width, second.width);
    assert_eq!(first.height, second.height);
    assert_eq!(first.format, second.format);
    assert_eq!(first.orientation, second.orientation);
    assert_eq!((first.width, first.height), (37, 91));
    assert_eq!(first.format, "bmp");
}

#[test]
fn metadata_labels_follow_the_detected_format() {
    for (format, label) in [
        (ImageFormat::Jpeg, "jpeg"),
        (ImageFormat::Gif, "gif"),
        (ImageFormat::Bmp, "bmp"),
        (ImageFormat::Tiff, "tiff"),
        (ImageFormat::Qoi, "qoi"),
    ] {
        let bytes = encoded(8, 4, format);
        let record = cmd_metadata(&bytes, &Origin::Stream).unwrap();
        assert_eq!(record.format, label);
        assert_eq!((record.width, record.height), (8, 4));
    }
}

#[test]
fn file_extension_governs_the_format_of_a_file() {
    let bytes = create_test_image();
    // a PNG stream under a JPEG name is decoded as JPEG, and fails
    assert!(matches!(read_image(&bytes, &file("jpg")), Err(ImageOpsError::Decode(_))));
    // the extension is matched without regard to case
    let (image, tag) = read_image(&bytes, &file("PNG")).unwrap();
    assert_eq!((image.width(), image.height()), (100, 50));
    assert_eq!(tag, FormatTag::Png);
}

#[test]
fn file_without_a_known_extension_is_not_decoded() {
    let bytes = create_test_image();
    assert!(matches!(read_image(&bytes, &file("xyz")), Err(ImageOpsError::Decode(_))));
    assert!(matches!(read_image(&bytes, &Origin::File(None)), Err(ImageOpsError::Decode(_))));
}

#[test]
fn describe_reports_unknown_without_a_format() {
    let record = describe(&plain(3, 2), FormatTag::Unknown);
    assert_eq!((record.width, record.height), (3, 2));
    assert_eq!(record.format, "unknown");
    assert_eq!(record.orientation, None);
}

#[test]
fn thumbnail_fits_the_box_and_keeps_the_aspect_ratio() {
    let bytes = create_test_image();
    let jpeg = cmd_thumbnail(&bytes, &Origin::Stream, 256, 80).unwrap();
    let (w, h) = dimensions_of_jpeg(&jpeg);
    assert!(w <= 256 && h <= 256);
    assert_eq!((w, h), (256, 128));
}

#[test]
fn thumbnail_shrinks_into_the_box() {
    let request = ThumbnailRequest::new(10, 80).unwrap();
    let out = thumbnail(&plain(100, 50), &request).unwrap();
    assert_eq!((out.width(), out.height()), (10, 5));
    assert_eq!(out.pixels().len(), 10 * 5 * 3);
}

#[test]
fn thumbnail_never_exceeds_the_box() {
    for (width, height, size) in
        [(100u32, 50u32, 7u32), (3, 200, 64), (200, 3, 64), (17, 17, 1), (5, 9, 300), (640, 480, 256)]
    {
        let request = ThumbnailRequest::new(size, 80).unwrap();
        let out = thumbnail(&plain(width, height), &request).unwrap();
        assert!(out.width() >= 1 && out.width() <= size);
        assert!(out.height() >= 1 && out.height() <= size);
    }
}

#[test]
fn thumbnail_box_beyond_memory_is_refused() {
    let request = ThumbnailRequest::new(u32::MAX, 80).unwrap();
    assert!(matches!(thumbnail(&plain(2, 2), &request), Err(ImageOpsError::TooLarge)));
    let bytes = create_test_image();
    assert!(matches!(
        cmd_thumbnail(&bytes, &Origin::Stream, u32::MAX, 80),
        Err(ImageOpsError::TooLarge)
    ));
}

#[test]
fn round_trip_keeps_the_computed_dimensions() {
    for (width, height, max_side) in [(100u32, 50u32, 50u32), (64, 48, 20), (33, 77, 40), (9, 9, 20)] {
        let request = ResizeRequest::new(max_side, 85, true).unwrap();
        let resized = resize(plain(width, height), &request).unwrap();
        let jpeg = write_jpeg(&resized, 85).unwrap();
        assert_eq!(dimensions_of_jpeg(&jpeg), (resized.width(), resized.height()));
    }
}

#[test]
fn jpeg_stream_starts_with_its_marker() {
    let jpeg = write_jpeg(&plain(4, 4), 90).unwrap();
    assert_eq!(&jpeg[..2], &[0xff, 0xd8]);
    assert_ne!(jpeg, plain(4, 4).into_pixels());
}

#[test]
fn jpeg_quality_changes_the_stream() {
    let mut pixels = Vec::new();
    for i in 0..(16 * 16 * 3) {
        pixels.push((i * 7 % 256) as u8);
    }
    let image = RasterImage::new(16, 16, pixels).unwrap();
    let low = write_jpeg(&image, 1).unwrap();
    let high = write_jpeg(&image, 100).unwrap();
    assert!(low.len() < high.len());
}

#[test]
fn quality_outside_range_is_refused() {
    let image = plain(4, 4);
    assert!(matches!(write_jpeg(&image, 0), Err(ImageOpsError::InvalidQuality(0))));
    assert!(matches!(write_jpeg(&image, 101), Err(ImageOpsError::InvalidQuality(101))));
    assert!(matches!(write_jpeg(&image, 255), Err(ImageOpsError::InvalidQuality(255))));
    assert!(write_jpeg(&image, 1).is_ok());
    assert!(write_jpeg(&image, 100).is_ok());
}

#[test]
fn image_wider_than_the_encoder_holds_is_refused() {
    let image = plain(65536, 1);
    assert!(matches!(write_jpeg(&image, 85), Err(ImageOpsError::Encode(_))));
    let image = plain(1, 65536);
    assert!(matches!(write_jpeg(&image, 85), Err(ImageOpsError::Encode(_))));
    assert!(write_jpeg(&plain(65535, 1), 85).is_ok());
}

#[test]
fn malformed_bytes_fail_at_the_decode_stage() {
    let mut truncated = create_test_image();
    truncated.truncate(12);
    for origin in [Origin::Stream, file("png")] {
        assert!(matches!(cmd_metadata(&truncated, &origin), Err(ImageOpsError::Decode(_))));
        assert!(matches!(
            cmd_resize(&truncated, &origin, 50, 85, true),
            Err(ImageOpsError::Decode(_))
        ));
        assert!(matches!(cmd_thumbnail(&truncated, &origin, 256, 80), Err(ImageOpsError::Decode(_))));
    }
    let garbage = vec![1u8, 2, 3, 4, 5];
    assert!(matches!(cmd_metadata(&garbage, &Origin::Stream), Err(ImageOpsError::Decode(_))));
    assert!(matches!(cmd_metadata(&[], &Origin::Stream), Err(ImageOpsError::Decode(_))));
}

#[test]
fn parameters_are_checked_before_the_bytes() {
    let garbage = vec![0u8; 4];
    assert!(matches!(
        cmd_resize(&garbage, &Origin::Stream, 0, 85, true),
        Err(ImageOpsError::InvalidParameter)
    ));
    assert!(matches!(
        cmd_resize(&garbage, &Origin::Stream, 0, 0, true),
        Err(ImageOpsError::InvalidParameter)
    ));
    assert!(matches!(
        cmd_resize(&garbage, &Origin::Stream, 10, 0, true),
        Err(ImageOpsError::InvalidQuality(0))
    ));
    assert!(matches!(
        cmd_thumbnail(&garbage, &Origin::Stream, 0, 80),
        Err(ImageOpsError::InvalidParameter)
    ));
    assert!(matches!(
        cmd_thumbnail(&garbage, &Origin::Stream, 10, 200),
        Err(ImageOpsError::InvalidQuality(200))
    ));
}

#[test]
fn alpha_is_dropped_on_decode() {
    let img = DynamicImage::new_rgba8(6, 5);
    let mut bytes = Vec::new();
    img.write_to(&mut Cursor::new(&mut bytes), ImageFormat::Png).unwrap();
    let (image, _) = read_image(&bytes, &Origin::Stream).unwrap();
    assert_eq!(image.pixels().len(), 6 * 5 * 3);
}

#[test]
fn decoder_failure_becomes_a_decode_error() {
    let failure = image::ImageError::IoError(std::io::Error::other("cut short"));
    match admit_decoded(Err(failure)) {
        Err(ImageOpsError::Decode(text)) => assert!(text.contains("cut short")),
        _ => panic!("expected a decode error"),
    }
}

#[test]
fn decoded_parts_must_describe_an_image() {
    let image = admit_decoded(Ok((2, 2, vec![9u8; 12]))).unwrap();
    assert_eq!((image.width(), image.height()), (2, 2));
    assert_eq!(image.pixels(), &vec![9u8; 12]);
    assert!(matches!(admit_decoded(Ok((0, 2, vec![]))), Err(ImageOpsError::Decode(_))));
    assert!(matches!(admit_decoded(Ok((2, 0, vec![]))), Err(ImageOpsError::Decode(_))));
    assert!(matches!(admit_decoded(Ok((2, 2, vec![0u8; 11]))), Err(ImageOpsError::Decode(_))));
    assert!(matches!(admit_decoded(Ok((2, 2, vec![0u8; 16]))), Err(ImageOpsError::Decode(_))));
}

#[test]
fn encoder_failure_becomes_an_encode_error() {
    let failure = image::ImageError::IoError(std::io::Error::other("sink closed"));
    match admit_encoded(Err(failure)) {
        Err(ImageOpsError::Encode(text)) => assert!(text.contains("sink closed")),
        _ => panic!("expected an encode error"),
    }
    assert_eq!(admit_encoded(Ok(vec![1, 2, 3])).unwrap(), vec![1, 2, 3]);
}

#[test]
fn stream_of_unrecognised_bytes_has_no_format() {
    // a TGA stream has no signature: nothing is detected and nothing decoded
    let bytes = encoded(4, 4, ImageFormat::Tga);
    assert!(matches!(read_image(&bytes, &Origin::Stream), Err(ImageOpsError::Decode(_))));
    let (image, tag) = read_image(&bytes, &file("tga")).unwrap();
    assert_eq!((image.width(), image.height()), (4, 4));
    assert_eq!(tag, FormatTag::Tga);
}
