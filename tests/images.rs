use image::{DynamicImage, ImageFormat, RgbImage, Rgb};
use imgswift::format::OutputFormat;
use imgswift::picture::{can_encode, encode, resize};

fn photo(width: u32, height: u32) -> DynamicImage {
    let mut seed: u32 = 12345;
    let img = RgbImage::from_fn(width, height, |x, y| {
        seed = seed.wrapping_mul(1103515245).wrapping_add(12345);
        let noise = ((seed >> 16) % 24) as u8;
        let r = ((x * 255) / width.max(1)) as u8;
        let g = ((y * 255) / height.max(1)) as u8;
        let b = (((x + y) * 127) / (width + height).max(1)) as u8;
        Rgb([r.saturating_add(noise), g.saturating_add(noise / 2), b.saturating_add(noise)])
    });
    DynamicImage::ImageRgb8(img)
}

#[test]
fn resize_gives_exact_dimensions() {
    let img = photo(40, 10);
    let out = resize(&img, 20, 20).unwrap();
    assert_eq!((out.width(), out.height()), (20, 20));
    let out = resize(&img, 7, 90).unwrap();
    assert_eq!((out.width(), out.height()), (7, 90));
    let out = resize(&img, 40, 10).unwrap();
    assert_eq!((out.width(), out.height()), (40, 10));
}

#[test]
fn resize_to_zero_side_gives_empty_image() {
    let img = photo(8, 8);
    let out = resize(&img, 0, 5).unwrap();
    assert_eq!((out.width(), out.height()), (0, 5));
}

#[test]
fn resize_of_empty_source_gives_target_size() {
    let img = photo(0, 0);
    let out = resize(&img, 3, 3).unwrap();
    assert_eq!((out.width(), out.height()), (3, 3));
    let out = resize(&img, 0, 0).unwrap();
    assert_eq!((out.width(), out.height()), (0, 0));
}

#[test]
fn resize_of_sources_with_other_aspect_ratios_gives_same_size() {
    let wide = resize(&photo(200, 100), 50, 50).unwrap();
    let tall = resize(&photo(100, 300), 50, 50).unwrap();
    assert_eq!((wide.width(), wide.height()), (50, 50));
    assert_eq!((tall.width(), tall.height()), (50, 50));
}

#[test]
fn encoding_is_repeatable() {
    let img = photo(20, 14);
    for format in [OutputFormat::Jpeg(85), OutputFormat::Png, OutputFormat::WebP] {
        assert_eq!(encode(&img, format).unwrap(), encode(&img, format).unwrap());
    }
}

#[test]
fn encoders_refuse_what_they_cannot_hold() {
    let float = DynamicImage::ImageRgb32F(image::Rgb32FImage::new(4, 4));
    assert!(encode(&float, OutputFormat::Jpeg(85)).is_err());
    assert!(encode(&float, OutputFormat::Png).is_err());
    assert!(encode(&float, OutputFormat::WebP).is_err());
    let empty = photo(0, 0);
    assert!(encode(&empty, OutputFormat::Png).is_err());
    assert!(encode(&empty, OutputFormat::WebP).is_err());
    let deep = DynamicImage::ImageRgb16(image::ImageBuffer::new(3, 2));
    let png = encode(&deep, OutputFormat::Png).unwrap();
    assert_eq!(&png[..8], &[137, 80, 78, 71, 13, 10, 26, 10]);
}

#[test]
fn convert_png_to_jpeg_is_decodable_jpeg() {
    let png = encode(&photo(16, 12), OutputFormat::Png).unwrap();
    let decoded = image::load_from_memory(&png).unwrap();
    let jpeg = encode(&decoded, OutputFormat::Jpeg(85)).unwrap();
    assert_eq!(&jpeg[..2], &[0xFF, 0xD8]);
    assert_eq!(image::guess_format(&jpeg).unwrap(), ImageFormat::Jpeg);
    let back = image::load_from_memory_with_format(&jpeg, ImageFormat::Jpeg).unwrap();
    assert_eq!((back.width(), back.height()), (16, 12));
}

#[test]
fn convert_jpeg_to_png_is_decodable_png() {
    let jpeg = encode(&photo(16, 12), OutputFormat::Jpeg(85)).unwrap();
    let decoded = image::load_from_memory(&jpeg).unwrap();
    let png = encode(&decoded, OutputFormat::Png).unwrap();
    assert_eq!(&png[..8], &[137, 80, 78, 71, 13, 10, 26, 10]);
    let back = image::load_from_memory_with_format(&png, ImageFormat::Png).unwrap();
    assert_eq!((back.width(), back.height()), (16, 12));
}

#[test]
fn webp_output_is_riff_webp() {
    let webp = encode(&photo(9, 9), OutputFormat::WebP).unwrap();
    assert_eq!(&webp[..4], b"RIFF");
    assert_eq!(&webp[8..12], b"WEBP");
}

#[test]
fn lower_quality_gives_smaller_jpeg() {
    let img = photo(96, 64);
    let low = encode(&img, OutputFormat::Jpeg(50)).unwrap();
    let high = encode(&img, OutputFormat::Jpeg(95)).unwrap();
    assert!(low.len() <= high.len());
    let back = image::load_from_memory_with_format(&low, ImageFormat::Jpeg).unwrap();
    assert_eq!((back.width(), back.height()), (96, 64));
}

#[test]
fn png_output_does_not_depend_on_quality() {
    let img = photo(12, 12);
    let a = encode(&img, imgswift::format::compress_format("out.png", 10)).unwrap();
    let b = encode(&img, imgswift::format::compress_format("out.png", 90)).unwrap();
    assert_eq!(a, b);
    let back = image::load_from_memory_with_format(&a, ImageFormat::Png).unwrap();
    assert_eq!(back.to_rgb8(), img.to_rgb8());
}

#[test]
fn dpi_output_matches_plain_reencoding() {
    let img = photo(10, 6);
    let jpeg = encode(&img, OutputFormat::Jpeg(85)).unwrap();
    let decoded = image::load_from_memory(&jpeg).unwrap();
    let format = imgswift::format::get_format("out.jpg");
    let written = encode(&decoded, format).unwrap();
    let plain = encode(&decoded, OutputFormat::Jpeg(85)).unwrap();
    assert_eq!(written, plain);
}

#[test]
fn can_encode_follows_colour_type_and_size() {
    let rgb = photo(5, 4);
    assert!(can_encode(&rgb, OutputFormat::Jpeg(50)));
    assert!(can_encode(&rgb, OutputFormat::Png));
    assert!(can_encode(&rgb, OutputFormat::WebP));
    let deep = DynamicImage::ImageRgb16(image::ImageBuffer::new(3, 2));
    assert!(can_encode(&deep, OutputFormat::Png));
    assert!(!can_encode(&deep, OutputFormat::Jpeg(85)));
    assert!(!can_encode(&deep, OutputFormat::WebP));
    let float = DynamicImage::ImageRgba32F(image::Rgba32FImage::new(2, 2));
    assert!(!can_encode(&float, OutputFormat::Png));
    let empty = photo(0, 3);
    assert!(can_encode(&empty, OutputFormat::Jpeg(85)));
    assert!(!can_encode(&empty, OutputFormat::Png));
    let wide = DynamicImage::ImageLuma8(image::GrayImage::new(16385, 1));
    assert!(!can_encode(&wide, OutputFormat::WebP));
    assert!(can_encode(&wide, OutputFormat::Png));
}

#[test]
fn encodable_images_encode() {
    for img in [photo(7, 3), DynamicImage::ImageLumaA8(image::GrayAlphaImage::new(4, 4))] {
        for format in [OutputFormat::Jpeg(85), OutputFormat::Png, OutputFormat::WebP] {
            assert!(can_encode(&img, format));
            assert!(encode(&img, format).is_ok());
        }
    }
}
