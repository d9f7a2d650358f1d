use i3f::{Format, IiifError, RasterImage};

fn sample(width: u32, height: u32) -> RasterImage {
    let mut pixels = Vec::new();
    for y in 0..height {
        for x in 0..width {
            pixels.push((x * 7 % 256) as u8);
            pixels.push((y * 5 % 256) as u8);
            pixels.push(((x + y) % 256) as u8);
            pixels.push(255);
        }
    }
    RasterImage::new(width, height, pixels).unwrap()
}

#[test]
fn test_format_from_str() {
    assert_eq!(Format::from_str("jpg").unwrap(), Format::Jpg);
    assert_eq!(Format::from_str("tif").unwrap(), Format::Tif);
    assert_eq!(Format::from_str("png").unwrap(), Format::Png);
    assert_eq!(Format::from_str("gif").unwrap(), Format::Gif);
    assert_eq!(Format::from_str("jp2").unwrap(), Format::Jp2);
    assert_eq!(Format::from_str("pdf").unwrap(), Format::Pdf);
    assert_eq!(Format::from_str("webp").unwrap(), Format::Webp);

    assert!(Format::from_str("").is_err());
    assert!(Format::from_str("invalid").is_err());
}

#[test]
fn test_format_display() {
    assert_eq!(Format::Jpg.to_string(), "jpg");
    assert_eq!(Format::Tif.to_string(), "tif");
    assert_eq!(Format::Png.to_string(), "png");
    assert_eq!(Format::Gif.to_string(), "gif");
    assert_eq!(Format::Jp2.to_string(), "jp2");
    assert_eq!(Format::Pdf.to_string(), "pdf");
    assert_eq!(Format::Webp.to_string(), "webp");
}

#[test]
fn format_keywords_ignore_case_and_spaces() {
    assert_eq!(Format::from_str(" JPG ").unwrap(), Format::Jpg);
    assert_eq!(Format::from_str("WebP").unwrap(), Format::Webp);
    assert_eq!(
        Format::from_str("bmp").unwrap_err(),
        IiifError::BadRequest("Invalid format: bmp".to_string())
    );
}

#[test]
fn format_content_types() {
    assert_eq!(Format::Jpg.get_content_type(), "image/jpeg");
    assert_eq!(Format::Png.get_content_type(), "image/png");
    assert_eq!(Format::Gif.get_content_type(), "image/gif");
    assert_eq!(Format::Webp.get_content_type(), "image/webp");
    assert_eq!(Format::Tif.get_content_type(), "image/tiff");
    assert_eq!(Format::Jp2.get_content_type(), "image/jp2");
    assert_eq!(Format::Pdf.get_content_type(), "application/pdf");
}

#[test]
fn format_jp2_is_not_implemented() {
    assert_eq!(
        Format::Jp2.process(sample(3, 2)).unwrap_err(),
        IiifError::NotImplemented("JPEG 2000 encoding not yet implemented".to_string())
    );
}

#[test]
fn format_rejects_empty_image() {
    let empty = RasterImage::new(0, 5, Vec::new()).unwrap();
    assert_eq!(
        Format::Png.process(empty).unwrap_err(),
        IiifError::InternalServerError("Cannot encode an empty image".to_string())
    );
}

#[test]
fn format_encoders_produce_decodable_images() {
    for (format, kind) in [
        (Format::Jpg, image::ImageFormat::Jpeg),
        (Format::Png, image::ImageFormat::Png),
        (Format::Gif, image::ImageFormat::Gif),
        (Format::Tif, image::ImageFormat::Tiff),
        (Format::Webp, image::ImageFormat::WebP),
    ] {
        let bytes = format.process(sample(30, 20)).unwrap();
        assert_eq!(image::guess_format(&bytes).unwrap(), kind);
        let decoded = image::load_from_memory(&bytes).unwrap();
        assert_eq!(decoded.width(), 30);
        assert_eq!(decoded.height(), 20);
    }
}

#[test]
fn format_png_keeps_every_pixel() {
    let source = sample(9, 4);
    let expected = source.pixels().clone();
    let bytes = Format::Png.process(source).unwrap();
    let decoded = image::load_from_memory(&bytes).unwrap().into_rgba8();
    assert_eq!(decoded.into_raw(), expected);
}

#[test]
fn format_jpeg_is_limited_to_sixteen_bit_dimensions() {
    let wide = RasterImage::new(70000, 1, vec![0u8; 280000]).unwrap();
    assert!(matches!(
        Format::Jpg.process(wide),
        Err(IiifError::InternalServerError(_))
    ));
}
