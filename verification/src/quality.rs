//! The quality of a request: whether the image keeps its colours, becomes
//! gray, or becomes black and white.
use crate::error::IiifError;
use crate::raster::{
    gray_alpha, grayscale_image, luma_image, luma_pixels, luminance, Raster, RasterImage,
};
use crate::text::{chars_of, is_text, lowered, to_lower, trim, trimmed};
use vstd::prelude::*;
use vstd::string::StringExecFns;

verus! {

/// The colour treatment of the returned image.
#[derive(Debug, PartialEq, Eq, Clone, Copy)]
pub enum Quality {
    /// `default`: the server's default, which is colour.
    Default,
    /// `color`: all colour information.
    Color,
    /// `gray`: shades of gray.
    Gray,
    /// `bitonal`: black and white only.
    Bitonal,
}

/// The luminance above which a pixel becomes white.
pub const BITONAL_THRESHOLD: u8 = 170;

/// The quality that a keyword names, after white space around it is removed
/// and upper-case letters are folded; `None` for any other text.
pub open spec fn spec_parse_quality(s: Seq<char>) -> Option<Quality> {
    let t = lowered(trimmed(s));
    if t == "default"@ {
        Some(Quality::Default)
    } else if t == "color"@ {
        Some(Quality::Color)
    } else if t == "gray"@ {
        Some(Quality::Gray)
    } else if t == "bitonal"@ {
        Some(Quality::Bitonal)
    } else {
        None
    }
}

/// White for a luminance above the threshold, black otherwise.
pub open spec fn spec_bitonal_level(v: u8) -> u8 {
    if v > BITONAL_THRESHOLD {
        255
    } else {
        0
    }
}

/// The RGBA bytes of the black and white image that a luminance plane
/// gives: every pixel opaque, and white exactly where the luminance is above
/// the threshold.
pub open spec fn bitonal_pixels(luma: Seq<u8>) -> Seq<u8> {
    Seq::new(
        4 * luma.len(),
        |k: int|
            if k % 4 == 3 {
                255u8
            } else {
                spec_bitonal_level(luma[k / 4])
            },
    )
}

/// The RGBA bytes of the gray image of an RGBA buffer: red, green and blue
/// of every pixel are its luminance, and its alpha stays.
pub open spec fn gray_pixels(pixels: Seq<u8>) -> Seq<u8> {
    Seq::new(
        pixels.len(),
        |k: int|
            if k % 4 == 3 {
                pixels[k]
            } else {
                luminance(pixels[4 * (k / 4)], pixels[4 * (k / 4) + 1], pixels[4 * (k / 4) + 2])
            },
    )
}

/// White for a luminance above the threshold, black otherwise.
pub fn bitonal_level(v: u8) -> (r: u8)
    ensures
        r == spec_bitonal_level(v),
{
    if v > BITONAL_THRESHOLD {
        255
    } else {
        0
    }
}

/// Calls `imageproc::map::map_pixels` on a luminance plane with
/// [`bitonal_level`] as the function of each pixel: a plane of the same
/// size that holds the level of every pixel.
#[verifier::external_body]
fn threshold_luma(luma: Vec<u8>, width: u32, height: u32) -> (out: Vec<u8>)
    requires
        luma@.len() == width * height,
    ensures
        out@.len() == luma@.len(),
        forall|i: int| 0 <= i < out@.len() ==> out@[i] == spec_bitonal_level(luma@[i]),
{
    let plane = image::GrayImage::from_raw(width, height, luma).unwrap();
    imageproc::map::map_pixels(&plane, |_x, _y, p| image::Luma([bitonal_level(p[0])])).into_raw()
}

/// Spreads a plane of levels over the three colours of opaque pixels.
fn opaque_gray(levels: &Vec<u8>) -> (out: Vec<u8>)
    ensures
        out@.len() == 4 * levels@.len(),
        forall|k: int|
            0 <= k < out@.len() ==> out@[k] == if k % 4 == 3 {
                255u8
            } else {
                levels@[k / 4]
            },
{
    let mut out: Vec<u8> = Vec::new();
    let mut i: usize = 0;
    while i < levels.len()
        invariant
            i <= levels.len(),
            out@.len() == 4 * i,
            forall|k: int|
                0 <= k < out@.len() ==> out@[k] == if k % 4 == 3 {
                    255u8
                } else {
                    levels@[k / 4]
                },
        decreases levels.len() - i,
    {
        let v = levels[i];
        out.push(v);
        out.push(v);
        out.push(v);
        out.push(255);
        i += 1;
    }
    out
}

/// Spreads luminance and alpha, two bytes for every pixel, over the four
/// bytes of RGBA pixels.
fn spread_gray(levels: &Vec<u8>) -> (out: Vec<u8>)
    requires
        levels@.len() % 2 == 0,
    ensures
        out@.len() == 2 * levels@.len(),
        forall|k: int|
            0 <= k < out@.len() ==> out@[k] == if k % 4 == 3 {
                levels@[2 * (k / 4) + 1]
            } else {
                levels@[2 * (k / 4)]
            },
{
    let mut out: Vec<u8> = Vec::new();
    let mut i: usize = 0;
    while i < levels.len()
        invariant
            i <= levels.len(),
            i % 2 == 0,
            levels@.len() % 2 == 0,
            out@.len() == 2 * i,
            forall|k: int|
                0 <= k < out@.len() ==> out@[k] == if k % 4 == 3 {
                    levels@[2 * (k / 4) + 1]
                } else {
                    levels@[2 * (k / 4)]
                },
        decreases levels.len() - i,
    {
        let v = levels[i];
        let a = levels[i + 1];
        out.push(v);
        out.push(v);
        out.push(v);
        out.push(a);
        i += 2;
    }
    out
}

impl Quality {
    /// The keyword of the quality.
    pub open spec fn spec_text(self) -> Seq<char> {
        match self {
            Quality::Default => "default"@,
            Quality::Color => "color"@,
            Quality::Gray => "gray"@,
            Quality::Bitonal => "bitonal"@,
        }
    }

    /// The image that the quality makes of a raster.
    pub open spec fn applied(self, src: Raster) -> Raster {
        match self {
            Quality::Default | Quality::Color => src,
            Quality::Gray => Raster {
                width: src.width,
                height: src.height,
                pixels: gray_pixels(src.pixels),
            },
            Quality::Bitonal => Raster {
                width: src.width,
                height: src.height,
                pixels: bitonal_pixels(luma_pixels(src.width, src.height, src.pixels)),
            },
        }
    }

    /// Reads a quality keyword, ignoring case and surrounding white space.
    pub fn from_str(s: &str) -> (r: Result<Quality, IiifError>)
        ensures
            match spec_parse_quality(s@) {
                Some(q) => r == Ok::<Quality, IiifError>(q),
                None => r matches Err(e) && e.is_bad_request("Invalid quality format: "@, s@),
            },
    {
        let t = to_lower(&trim(&chars_of(s)));
        if is_text(&t, "default") {
            Ok(Quality::Default)
        } else if is_text(&t, "color") {
            Ok(Quality::Color)
        } else if is_text(&t, "gray") {
            Ok(Quality::Gray)
        } else if is_text(&t, "bitonal") {
            Ok(Quality::Bitonal)
        } else {
            Err(IiifError::bad_request("Invalid quality format: ", s))
        }
    }

    /// The keyword of the quality.
    pub fn to_string(&self) -> (r: String)
        ensures
            r@ == self.spec_text(),
    {
        match self {
            Quality::Default => String::from_str("default"),
            Quality::Color => String::from_str("color"),
            Quality::Gray => String::from_str("gray"),
            Quality::Bitonal => String::from_str("bitonal"),
        }
    }

    /// Applies the quality to an image.
    ///
    /// `default` and `color` return the image as it is. `gray` removes the
    /// colour. `bitonal` makes every pixel opaque black or opaque white:
    /// white exactly where its luminance is above the threshold. This stage
    /// never fails.
    pub fn process(&self, image: RasterImage) -> (r: Result<RasterImage, IiifError>)
        ensures
            r matches Ok(out) && out@ == self.applied(image@) && out@.well_formed(),
            *self == Quality::Bitonal ==> (r matches Ok(out) && is_black_and_white(out@)),
    {
        match self {
            Quality::Default => {
                let _ = image.width();
                Ok(image)
            },
            Quality::Color => {
                let _ = image.width();
                Ok(image)
            },
            Quality::Gray => {
                let ghost src = image@;
                let width = image.width();
                let height = image.height();
                assert(4 * (width * height) == 4 * width * height) by (nonlinear_arith);
                let levels = grayscale_image(image);
                let pixels = spread_gray(&levels);
                assert(pixels@ == gray_pixels(src.pixels));
                Ok(RasterImage::from_parts(width, height, pixels))
            },
            Quality::Bitonal => {
                let width = image.width();
                let height = image.height();
                let luma = luma_image(image);
                let levels = threshold_luma(luma, width, height);
                let pixels = opaque_gray(&levels);
                assert(pixels@ == bitonal_pixels(luma@));
                assert(4 * (width * height) == 4 * width * height) by (nonlinear_arith);
                let out = RasterImage::from_parts(width, height, pixels);
                proof {
                    lemma_bitonal_is_black_and_white(width as nat, height as nat, luma@);
                }
                Ok(out)
            },
        }
    }
}

/// Whether every pixel of a raster is opaque black or opaque white.
pub open spec fn is_black_and_white(raster: Raster) -> bool {
    forall|x: int, y: int|
        raster.inside(x, y) ==> {
            let p = #[trigger] raster.pixel(x, y);
            p.a == 255 && p.r == p.g && p.g == p.b && (p.r == 0 || p.r == 255)
        }
}

/// A bitonal image holds only the two luminance values of black and white.
pub proof fn lemma_bitonal_is_black_and_white(width: nat, height: nat, luma: Seq<u8>)
    requires
        luma.len() == width * height,
    ensures
        is_black_and_white(Raster { width, height, pixels: bitonal_pixels(luma) }),
{
    let raster = Raster { width, height, pixels: bitonal_pixels(luma) };
    assert forall|x: int, y: int| raster.inside(x, y) implies {
        let p = #[trigger] raster.pixel(x, y);
        p.a == 255 && p.r == p.g && p.g == p.b && (p.r == 0 || p.r == 255)
    } by {
        let i = y * width + x;
        assert(0 <= i < width * height) by (nonlinear_arith)
            requires
                0 <= x < width,
                0 <= y < height,
                i == y * width + x,
        ;
        let k = 4 * i;
        assert(k / 4 == i && (k + 1) / 4 == i && (k + 2) / 4 == i && (k + 3) / 4 == i);
        assert(k % 4 == 0 && (k + 1) % 4 == 1 && (k + 2) % 4 == 2 && (k + 3) % 4 == 3);
    }
}

/// A gray image has red, green and blue alike in every pixel, and the alpha
/// of the source.
pub proof fn lemma_gray_is_gray(src: Raster, x: int, y: int)
    requires
        src.well_formed(),
        src.inside(x, y),
    ensures
        ({
            let p = Quality::Gray.applied(src).pixel(x, y);
            let q = src.pixel(x, y);
            p.r == luminance(q.r, q.g, q.b) && p.g == p.r && p.b == p.r && p.a == q.a
        }),
{
    let i = y * src.width + x;
    assert(0 <= i < src.width * src.height) by (nonlinear_arith)
        requires
            0 <= x < src.width,
            0 <= y < src.height,
            i == y * src.width + x,
    ;
    assert(4 * (src.width * src.height) == 4 * src.width * src.height) by (nonlinear_arith);
    let k = 4 * i;
    assert(k / 4 == i && (k + 1) / 4 == i && (k + 2) / 4 == i && (k + 3) / 4 == i);
    assert(k % 4 == 0 && (k + 1) % 4 == 1 && (k + 2) % 4 == 2 && (k + 3) % 4 == 3);
}

/// Every keyword reads back as its quality.
pub proof fn lemma_quality_round_trip(q: Quality)
    ensures
        spec_parse_quality(q.spec_text()) == Some(q),
{
    reveal_strlit("default");
    reveal_strlit("color");
    reveal_strlit("gray");
    reveal_strlit("bitonal");
    let s = q.spec_text();
    assert(trimmed(s) == s);
    assert(lowered(s) == s);
}

/// Whatever a text reads as, the keyword of that quality reads as the same
/// quality.
pub proof fn lemma_quality_parse_round_trip(s: Seq<char>)
    requires
        spec_parse_quality(s) is Some,
    ensures
        spec_parse_quality(spec_parse_quality(s)->0.spec_text()) == spec_parse_quality(s),
{
    lemma_quality_round_trip(spec_parse_quality(s)->0);
}

impl std::str::FromStr for Quality {
    type Err = IiifError;

    /// Reads a quality keyword, as [`Quality::from_str`] does.
    fn from_str(s: &str) -> (r: Result<Self, Self::Err>)
        ensures
            match spec_parse_quality(s@) {
                Some(q) => r == Ok::<Quality, IiifError>(q),
                None => r matches Err(e) && e.is_bad_request("Invalid quality format: "@, s@),
            },
    {
        Quality::from_str(s)
    }
}

} // verus!
