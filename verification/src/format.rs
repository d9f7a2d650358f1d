//! The output format of a request: its keyword, its content type, and the
//! encoding of a raster in it.
use crate::error::IiifError;
use crate::pdf::{image_document, image_objects, offsets_fit, write_image_document};
use crate::raster::{image_error_text, Raster, RasterImage};
use crate::text::{chars_of, is_text, lowered, to_lower, trim, trimmed};
use image::ImageEncoder;
use vstd::prelude::*;
use vstd::string::StringExecFns;

verus! {

/// The format in which the image is returned.
#[derive(Debug, PartialEq, Eq, Clone, Copy)]
pub enum Format {
    /// `jpg`: JPEG.
    Jpg,
    /// `tif`: TIFF.
    Tif,
    /// `png`: PNG.
    Png,
    /// `gif`: GIF.
    Gif,
    /// `jp2`: JPEG 2000.
    Jp2,
    /// `pdf`: PDF.
    Pdf,
    /// `webp`: WebP.
    Webp,
}

/// The format that a keyword names, after white space around it is removed
/// and upper-case letters are folded; `None` for any other text.
pub open spec fn spec_parse_format(s: Seq<char>) -> Option<Format> {
    let t = lowered(trimmed(s));
    if t == "jpg"@ {
        Some(Format::Jpg)
    } else if t == "tif"@ {
        Some(Format::Tif)
    } else if t == "png"@ {
        Some(Format::Png)
    } else if t == "gif"@ {
        Some(Format::Gif)
    } else if t == "jp2"@ {
        Some(Format::Jp2)
    } else if t == "pdf"@ {
        Some(Format::Pdf)
    } else if t == "webp"@ {
        Some(Format::Webp)
    } else {
        None
    }
}

/// The bytes that `JpegEncoder::write_image` produces for an RGBA raster
/// flattened to RGB; `None` where it fails.
pub uninterp spec fn jpeg_encoding(width: nat, height: nat, pixels: Seq<u8>) -> Option<Seq<u8>>;

/// The bytes that `PngEncoder::write_image` produces for an RGBA raster;
/// `None` where it fails.
pub uninterp spec fn png_encoding(width: nat, height: nat, pixels: Seq<u8>) -> Option<Seq<u8>>;

/// The bytes that the lossless `WebPEncoder::write_image` produces for an
/// RGBA raster; `None` where it fails.
pub uninterp spec fn webp_encoding(width: nat, height: nat, pixels: Seq<u8>) -> Option<Seq<u8>>;

/// The bytes that `GifEncoder::write_image` produces for an RGBA raster;
/// `None` where it fails.
pub uninterp spec fn gif_encoding(width: nat, height: nat, pixels: Seq<u8>) -> Option<Seq<u8>>;

/// The bytes that `TiffEncoder::write_image` produces for an RGBA raster;
/// `None` where it fails.
pub uninterp spec fn tiff_encoding(width: nat, height: nat, pixels: Seq<u8>) -> Option<Seq<u8>>;

/// Whether an encoder's outcome is the one that `expected` names.
pub open spec fn encoded_as(
    r: Result<Vec<u8>, image::ImageError>,
    expected: Option<Seq<u8>>,
) -> bool {
    match r {
        Ok(bytes) => expected == Some(bytes@),
        Err(_) => expected is None,
    }
}

/// Calls `JpegEncoder::new` and its `write_image` on the raster flattened
/// to RGB by `DynamicImage::to_rgb8`, writing into memory. The outcome is a
/// function of the raster alone.
#[verifier::external_body]
fn encode_jpeg(image: RasterImage) -> (r: Result<Vec<u8>, image::ImageError>)
    requires
        image@.width > 0,
        image@.height > 0,
    ensures
        encoded_as(r, jpeg_encoding(image@.width, image@.height, image@.pixels)),
{
    let (w, h) = (image.width(), image.height());
    let rgba = image::RgbaImage::from_raw(w, h, image.into_pixels()).unwrap();
    let rgb = image::DynamicImage::ImageRgba8(rgba).to_rgb8();
    let mut bytes = Vec::new();
    image::codecs::jpeg::JpegEncoder::new(std::io::Cursor::new(&mut bytes)).write_image(
        rgb.as_raw(),
        w,
        h,
        image::ExtendedColorType::Rgb8,
    )?;
    Ok(bytes)
}

/// Calls `PngEncoder::new` and its `write_image`, writing into memory. The
/// outcome is a function of the raster alone.
#[verifier::external_body]
fn encode_png(image: RasterImage) -> (r: Result<Vec<u8>, image::ImageError>)
    requires
        image@.width > 0,
        image@.height > 0,
    ensures
        encoded_as(r, png_encoding(image@.width, image@.height, image@.pixels)),
{
    let (w, h) = (image.width(), image.height());
    let mut bytes = Vec::new();
    image::codecs::png::PngEncoder::new(std::io::Cursor::new(&mut bytes)).write_image(
        image.pixels(),
        w,
        h,
        image::ExtendedColorType::Rgba8,
    )?;
    Ok(bytes)
}

/// Calls `WebPEncoder::new_lossless` and its `write_image`, writing into
/// memory. The outcome is a function of the raster alone.
#[verifier::external_body]
fn encode_webp(image: RasterImage) -> (r: Result<Vec<u8>, image::ImageError>)
    requires
        image@.width > 0,
        image@.height > 0,
    ensures
        encoded_as(r, webp_encoding(image@.width, image@.height, image@.pixels)),
{
    let (w, h) = (image.width(), image.height());
    let mut bytes = Vec::new();
    image::codecs::webp::WebPEncoder::new_lossless(std::io::Cursor::new(&mut bytes)).write_image(
        image.pixels(),
        w,
        h,
        image::ExtendedColorType::Rgba8,
    )?;
    Ok(bytes)
}

/// Calls `GifEncoder::new` and its `write_image`, writing into memory. The
/// outcome is a function of the raster alone.
#[verifier::external_body]
fn encode_gif(image: RasterImage) -> (r: Result<Vec<u8>, image::ImageError>)
    requires
        image@.width > 0,
        image@.height > 0,
    ensures
        encoded_as(r, gif_encoding(image@.width, image@.height, image@.pixels)),
{
    let (w, h) = (image.width(), image.height());
    let mut bytes = Vec::new();
    image::codecs::gif::GifEncoder::new(std::io::Cursor::new(&mut bytes)).write_image(
        image.pixels(),
        w,
        h,
        image::ExtendedColorType::Rgba8,
    )?;
    Ok(bytes)
}

/// Calls `TiffEncoder::new` and its `write_image`, writing into memory. The
/// outcome is a function of the raster alone.
#[verifier::external_body]
fn encode_tiff(image: RasterImage) -> (r: Result<Vec<u8>, image::ImageError>)
    requires
        image@.width > 0,
        image@.height > 0,
    ensures
        encoded_as(r, tiff_encoding(image@.width, image@.height, image@.pixels)),
{
    let (w, h) = (image.width(), image.height());
    let mut bytes = Vec::new();
    image::codecs::tiff::TiffEncoder::new(std::io::Cursor::new(&mut bytes)).write_image(
        image.pixels(),
        w,
        h,
        image::ExtendedColorType::Rgba8,
    )?;
    Ok(bytes)
}

impl Format {
    /// The keyword of the format.
    pub open spec fn spec_text(self) -> Seq<char> {
        match self {
            Format::Jpg => "jpg"@,
            Format::Tif => "tif"@,
            Format::Png => "png"@,
            Format::Gif => "gif"@,
            Format::Jp2 => "jp2"@,
            Format::Pdf => "pdf"@,
            Format::Webp => "webp"@,
        }
    }

    /// The content type that a response in this format carries.
    pub open spec fn spec_content_type(self) -> Seq<char> {
        match self {
            Format::Jpg => "image/jpeg"@,
            Format::Png => "image/png"@,
            Format::Gif => "image/gif"@,
            Format::Webp => "image/webp"@,
            Format::Tif => "image/tiff"@,
            Format::Jp2 => "image/jp2"@,
            Format::Pdf => "application/pdf"@,
        }
    }

    /// Reads a format keyword, ignoring case and surrounding white space.
    pub fn from_str(s: &str) -> (r: Result<Format, IiifError>)
        ensures
            match spec_parse_format(s@) {
                Some(f) => r == Ok::<Format, IiifError>(f),
                None => r matches Err(e) && e.is_bad_request("Invalid format: "@, s@),
            },
    {
        let t = to_lower(&trim(&chars_of(s)));
        if is_text(&t, "jpg") {
            Ok(Format::Jpg)
        } else if is_text(&t, "tif") {
            Ok(Format::Tif)
        } else if is_text(&t, "png") {
            Ok(Format::Png)
        } else if is_text(&t, "gif") {
            Ok(Format::Gif)
        } else if is_text(&t, "jp2") {
            Ok(Format::Jp2)
        } else if is_text(&t, "pdf") {
            Ok(Format::Pdf)
        } else if is_text(&t, "webp") {
            Ok(Format::Webp)
        } else {
            Err(IiifError::bad_request("Invalid format: ", s))
        }
    }

    /// The keyword of the format.
    pub fn to_string(&self) -> (r: String)
        ensures
            r@ == self.spec_text(),
    {
        match self {
            Format::Jpg => String::from_str("jpg"),
            Format::Tif => String::from_str("tif"),
            Format::Png => String::from_str("png"),
            Format::Gif => String::from_str("gif"),
            Format::Jp2 => String::from_str("jp2"),
            Format::Pdf => String::from_str("pdf"),
            Format::Webp => String::from_str("webp"),
        }
    }

    /// The content type that a response in this format carries.
    pub fn get_content_type(&self) -> (r: &'static str)
        ensures
            r@ == self.spec_content_type(),
    {
        match self {
            Format::Jpg => "image/jpeg",
            Format::Png => "image/png",
            Format::Gif => "image/gif",
            Format::Webp => "image/webp",
            Format::Tif => "image/tiff",
            Format::Jp2 => "image/jp2",
            Format::Pdf => "application/pdf",
        }
    }

    /// The bytes of a raster in this format; `None` where the encoder fails,
    /// where the format is not implemented, or where the PDF file would be
    /// too large for its cross-reference table.
    pub open spec fn encoding(self, raster: Raster) -> Option<Seq<u8>> {
        match self {
            Format::Jpg => jpeg_encoding(raster.width, raster.height, raster.pixels),
            Format::Png => png_encoding(raster.width, raster.height, raster.pixels),
            Format::Webp => webp_encoding(raster.width, raster.height, raster.pixels),
            Format::Gif => gif_encoding(raster.width, raster.height, raster.pixels),
            Format::Tif => tiff_encoding(raster.width, raster.height, raster.pixels),
            Format::Jp2 => None,
            Format::Pdf => match jpeg_encoding(raster.width, raster.height, raster.pixels) {
                Some(jpeg) => if offsets_fit(image_objects(raster.width, raster.height, jpeg)) {
                    Some(image_document(raster.width, raster.height, jpeg))
                } else {
                    None
                },
                None => None,
            },
        }
    }

    /// Encodes a raster in this format.
    ///
    /// JPEG 2000 is not implemented. A PDF is a single page that shows the
    /// JPEG encoding of the raster. Any failure of an encoder is an internal
    /// server error, and so is an image without pixels, which no encoder is
    /// asked to write.
    pub fn process(&self, image: RasterImage) -> (r: Result<Vec<u8>, IiifError>)
        ensures
            match self {
                Format::Jp2 => r matches Err(e) && e is NotImplemented && e.detail()
                    == "JPEG 2000 encoding not yet implemented"@,
                _ => if image@.width == 0 || image@.height == 0 {
                    r matches Err(e) && e is InternalServerError && e.detail()
                        == "Cannot encode an empty image"@
                } else {
                    match r {
                        Ok(bytes) => self.encoding(image@) == Some(bytes@),
                        Err(e) => self.encoding(image@) is None && e is InternalServerError,
                    }
                },
            },
    {
        if let Format::Jp2 = self {
            return Err(
                IiifError::NotImplemented(
                    String::from_str("JPEG 2000 encoding not yet implemented"),
                ),
            );
        }
        let width = image.width();
        let height = image.height();
        if width == 0 || height == 0 {
            return Err(
                IiifError::InternalServerError(String::from_str("Cannot encode an empty image")),
            );
        }
        match self {
            Format::Jpg => Format::encoded(encode_jpeg(image)),
            Format::Png => Format::encoded(encode_png(image)),
            Format::Webp => Format::encoded(encode_webp(image)),
            Format::Gif => Format::encoded(encode_gif(image)),
            Format::Tif => Format::encoded(encode_tiff(image)),
            Format::Jp2 => Err(
                IiifError::NotImplemented(
                    String::from_str("JPEG 2000 encoding not yet implemented"),
                ),
            ),
            Format::Pdf => {
                let jpeg = Format::encoded(encode_jpeg(image))?;
                Format::paged(write_image_document(width, height, &jpeg))
            },
        }
    }

    /// What the assembly of a PDF file becomes: its bytes, or an internal
    /// server error where the file could not be laid out.
    pub fn paged(outcome: Option<Vec<u8>>) -> (r: Result<Vec<u8>, IiifError>)
        ensures
            match outcome {
                Some(bytes) => r == Ok::<Vec<u8>, IiifError>(bytes),
                None => r matches Err(e) && e is InternalServerError && e.detail()
                    == "PDF assembly failed: the file is too large"@,
            },
    {
        match outcome {
            Some(bytes) => Ok(bytes),
            None => Err(
                IiifError::InternalServerError(
                    String::from_str("PDF assembly failed: the file is too large"),
                ),
            ),
        }
    }

    /// What an encoder's outcome becomes: its bytes, or an internal server
    /// error that carries the codec's message.
    pub fn encoded(outcome: Result<Vec<u8>, image::ImageError>) -> (r: Result<Vec<u8>, IiifError>)
        ensures
            match outcome {
                Ok(bytes) => r == Ok::<Vec<u8>, IiifError>(bytes),
                Err(_) => r matches Err(e) && e is InternalServerError,
            },
    {
        match outcome {
            Ok(bytes) => Ok(bytes),
            Err(e) => Err(IiifError::InternalServerError(image_error_text(&e))),
        }
    }
}

/// Every keyword reads back as its format.
pub proof fn lemma_format_round_trip(f: Format)
    ensures
        spec_parse_format(f.spec_text()) == Some(f),
{
    reveal_strlit("jpg");
    reveal_strlit("tif");
    reveal_strlit("png");
    reveal_strlit("gif");
    reveal_strlit("jp2");
    reveal_strlit("pdf");
    reveal_strlit("webp");
    let s = f.spec_text();
    assert(trimmed(s) == s);
    assert(lowered(s) == s);
}

/// Whatever a text reads as, the keyword of that format reads as the same
/// format.
pub proof fn lemma_format_parse_round_trip(s: Seq<char>)
    requires
        spec_parse_format(s) is Some,
    ensures
        spec_parse_format(spec_parse_format(s)->0.spec_text()) == spec_parse_format(s),
{
    lemma_format_round_trip(spec_parse_format(s)->0);
}

impl std::str::FromStr for Format {
    type Err = IiifError;

    /// Reads a format keyword, as [`Format::from_str`] does.
    fn from_str(s: &str) -> (r: Result<Self, Self::Err>)
        ensures
            match spec_parse_format(s@) {
                Some(f) => r == Ok::<Format, IiifError>(f),
                None => r matches Err(e) && e.is_bad_request("Invalid format: "@, s@),
            },
    {
        Format::from_str(s)
    }
}

} // verus!
