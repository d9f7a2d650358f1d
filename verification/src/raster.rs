//! The raster that the pipeline transforms: eight-bit RGBA pixels in row
//! order, and the pixel operations that the `image` crate performs on it.
use crate::math::rgba_len;
use vstd::prelude::*;

verus! {

/// The error type of the `image` crate.
#[verifier::external_type_specification]
#[verifier::external_body]
pub struct ExImageError(image::ImageError);

/// One pixel: red, green, blue and alpha.
#[derive(Debug, PartialEq, Eq, Clone, Copy)]
pub struct Pixel {
    pub r: u8,
    pub g: u8,
    pub b: u8,
    pub a: u8,
}

/// The mathematical model of a raster: its dimensions and its bytes, four
/// per pixel, rows from top to bottom and pixels from left to right.
pub struct Raster {
    pub width: nat,
    pub height: nat,
    pub pixels: Seq<u8>,
}

impl Raster {
    /// The buffer holds exactly four bytes for every pixel.
    pub open spec fn well_formed(self) -> bool {
        self.pixels.len() == 4 * self.width * self.height
    }

    /// Whether `(x, y)` is a position of the raster.
    pub open spec fn inside(self, x: int, y: int) -> bool {
        0 <= x < self.width && 0 <= y < self.height
    }

    /// The pixel in column `x` of row `y`.
    pub open spec fn pixel(self, x: int, y: int) -> Pixel {
        let k = 4 * (y * self.width + x);
        Pixel {
            r: self.pixels[k],
            g: self.pixels[k + 1],
            b: self.pixels[k + 2],
            a: self.pixels[k + 3],
        }
    }

    /// `self` is the part of `src` that a crop at `(x, y)` of size `w` by `h`
    /// keeps: the box is first moved and shrunk to lie inside `src`.
    pub open spec fn is_crop_of(self, src: Raster, x: nat, y: nat, w: nat, h: nat) -> bool {
        let x0 = if x <= src.width { x } else { src.width };
        let y0 = if y <= src.height { y } else { src.height };
        &&& self.well_formed()
        &&& self.width == if w <= src.width - x0 { w } else { (src.width - x0) as nat }
        &&& self.height == if h <= src.height - y0 { h } else { (src.height - y0) as nat }
        &&& forall|i: int, j: int|
            self.inside(i, j) ==> #[trigger] self.pixel(i, j) == src.pixel(x0 + i, y0 + j)
    }

    /// `self` is a transparent canvas of `width` by `height` pixels that
    /// holds `src` in its middle: as much space to the left of it as to the
    /// right, and as much above as below, but for one pixel where the space
    /// cannot be halved.
    pub open spec fn is_centred(self, src: Raster, width: nat, height: nat) -> bool {
        let left = (width - src.width) / 2;
        let top = (height - src.height) / 2;
        &&& self.well_formed()
        &&& self.width == width
        &&& self.height == height
        &&& forall|i: int, j: int|
            self.inside(i, j) ==> #[trigger] self.pixel(i, j) == if left <= i < left + src.width
                && top <= j < top + src.height {
                src.pixel(i - left, j - top)
            } else {
                Pixel { r: 0, g: 0, b: 0, a: 0 }
            }
    }

    /// `self` is `src` mirrored left to right.
    pub open spec fn is_mirror_of(self, src: Raster) -> bool {
        &&& self.well_formed()
        &&& self.width == src.width
        &&& self.height == src.height
        &&& forall|i: int, j: int|
            self.inside(i, j) ==> #[trigger] self.pixel(i, j) == src.pixel(src.width - 1 - i, j)
    }

    /// `self` is `src` turned clockwise by a quarter turn.
    pub open spec fn is_quarter_turn_of(self, src: Raster) -> bool {
        &&& self.well_formed()
        &&& self.width == src.height
        &&& self.height == src.width
        &&& forall|i: int, j: int|
            self.inside(i, j) ==> #[trigger] self.pixel(i, j) == src.pixel(j, src.height - 1 - i)
    }

    /// `self` is `src` turned by a half turn.
    pub open spec fn is_half_turn_of(self, src: Raster) -> bool {
        &&& self.well_formed()
        &&& self.width == src.width
        &&& self.height == src.height
        &&& forall|i: int, j: int|
            self.inside(i, j) ==> #[trigger] self.pixel(i, j) == src.pixel(
                src.width - 1 - i,
                src.height - 1 - j,
            )
    }

    /// `self` is `src` turned clockwise by three quarter turns.
    pub open spec fn is_three_quarter_turn_of(self, src: Raster) -> bool {
        &&& self.well_formed()
        &&& self.width == src.height
        &&& self.height == src.width
        &&& forall|i: int, j: int|
            self.inside(i, j) ==> #[trigger] self.pixel(i, j) == src.pixel(src.width - 1 - j, i)
    }
}

/// The raster of the given size over the given bytes.
pub open spec fn canvas(pixels: Seq<u8>, width: u32, height: u32) -> Raster {
    Raster { width: width as nat, height: height as nat, pixels }
}

/// The pixel at `(i, j)` of a transparent canvas on which `src` lies with its
/// corner at `(left, top)`.
pub open spec fn placed(src: Raster, left: int, top: int, i: int, j: int) -> Pixel {
    if left <= i < left + src.width && top <= j < top + src.height {
        src.pixel(i - left, j - top)
    } else {
        Pixel { r: 0, g: 0, b: 0, a: 0 }
    }
}

/// The bytes of a pixel of a raster lie inside its buffer.
pub proof fn lemma_cell_index(width: int, height: int, x: int, y: int)
    requires
        0 <= x < width,
        0 <= y < height,
    ensures
        0 <= y * width,
        0 <= y * width + x < width * height,
        4 * (y * width + x) + 3 < 4 * (width * height),
{
    assert(y * width + x < width * height) by (nonlinear_arith)
        requires
            0 <= x < width,
            0 <= y < height,
    ;
    assert(0 <= y * width) by (nonlinear_arith)
        requires
            0 <= y,
            0 <= width,
    ;
}

/// In row order, a pixel of an earlier row or further left in the same row
/// comes first.
pub proof fn lemma_cell_before(width: int, i: int, j: int, x: int, y: int)
    requires
        0 <= i < width,
        0 <= j,
        0 <= x < width,
        j < y || (j == y && i < x),
    ensures
        0 <= j * width + i < y * width + x,
{
    assert(j * width + i < y * width + x) by (nonlinear_arith)
        requires
            0 <= i < width,
            0 <= x < width,
            0 <= j,
            j < y || (j == y && i < x),
    ;
    assert(0 <= j * width) by (nonlinear_arith)
        requires
            0 <= j,
            0 <= width,
    ;
}

/// A decoded image: `width * height` pixels of four bytes each.
#[derive(Debug)]
pub struct RasterImage {
    width: u32,
    height: u32,
    pixels: Vec<u8>,
}

impl View for RasterImage {
    type V = Raster;

    closed spec fn view(&self) -> Raster {
        Raster { width: self.width as nat, height: self.height as nat, pixels: self.pixels@ }
    }
}

impl RasterImage {
    #[verifier::type_invariant]
    closed spec fn buffer_matches(&self) -> bool {
        self.pixels@.len() == 4 * self.width * self.height
    }

    /// A raster of the given dimensions over the given bytes; `None` unless
    /// there are exactly four bytes for every pixel.
    pub fn new(width: u32, height: u32, pixels: Vec<u8>) -> (r: Option<RasterImage>)
        ensures
            r is Some <==> pixels@.len() == 4 * width * height,
            r matches Some(image) ==> image@ == (Raster {
                width: width as nat,
                height: height as nat,
                pixels: pixels@,
            }),
    {
        let need: u128 = rgba_len(width, height);
        if pixels.len() as u128 == need {
            Some(RasterImage { width, height, pixels })
        } else {
            None
        }
    }

    /// A raster of the given dimensions over bytes that are known to be
    /// four for every pixel.
    pub(crate) fn from_parts(width: u32, height: u32, pixels: Vec<u8>) -> (r: RasterImage)
        requires
            pixels@.len() == 4 * width * height,
        ensures
            r@ == (Raster { width: width as nat, height: height as nat, pixels: pixels@ }),
    {
        RasterImage { width, height, pixels }
    }

    /// The number of columns. Every raster image is well formed.
    pub fn width(&self) -> (r: u32)
        ensures
            r == self@.width,
            self@.well_formed(),
    {
        proof {
            use_type_invariant(self);
        }
        self.width
    }

    /// The number of rows. Every raster image is well formed.
    pub fn height(&self) -> (r: u32)
        ensures
            r == self@.height,
            self@.well_formed(),
    {
        proof {
            use_type_invariant(self);
        }
        self.height
    }

    /// The bytes of the raster: four for every pixel.
    pub fn pixels(&self) -> (r: &Vec<u8>)
        ensures
            r@ == self@.pixels,
            self@.well_formed(),
            self@.width <= u32::MAX,
            self@.height <= u32::MAX,
    {
        proof {
            use_type_invariant(self);
        }
        &self.pixels
    }

    /// The image in the middle of a transparent canvas of `width` by
    /// `height` pixels: `None` where the canvas is narrower or lower than
    /// the image, or larger than a buffer can be.
    pub fn centred_on(&self, width: u32, height: u32) -> (r: Option<RasterImage>)
        ensures
            r is Some <==> self@.width <= width && self@.height <= height && 4 * width * height
                <= isize::MAX,
            r matches Some(out) ==> out@.is_centred(self@, width as nat, height as nat),
    {
        proof {
            use_type_invariant(self);
        }
        let w: u32 = self.width;
        let h: u32 = self.height;
        if w > width || h > height || rgba_len(width, height) > isize::MAX as u128 {
            return None;
        }
        let left: u32 = (width - w) / 2;
        let top: u32 = (height - h) / 2;
        let ghost src = self@;
        let n: usize = self.pixels.len();
        let mut out: Vec<u8> = Vec::new();
        let mut y: u32 = 0;
        while y < height
            invariant
                y <= height,
                n == self.pixels@.len(),
                src == self@,
                src.well_formed(),
                src.width == w,
                src.height == h,
                w <= width,
                h <= height,
                left == (width - w) / 2,
                top == (height - h) / 2,
                out@.len() == 4 * (y * width),
                forall|i: int, j: int|
                    0 <= i < width && 0 <= j < y ==> #[trigger] canvas(out@, width, height).pixel(
                        i,
                        j,
                    ) == placed(src, left as int, top as int, i, j),
            decreases height - y,
        {
            let mut x: u32 = 0;
            while x < width
                invariant
                    x <= width,
                    y < height,
                    n == self.pixels@.len(),
                    src == self@,
                    src.well_formed(),
                    src.width == w,
                    src.height == h,
                    w <= width,
                    h <= height,
                    left == (width - w) / 2,
                    top == (height - h) / 2,
                    out@.len() == 4 * (y * width + x),
                    forall|i: int, j: int|
                        0 <= i < width && (0 <= j < y || (j == y && i < x)) ==> #[trigger] canvas(
                            out@,
                            width,
                            height,
                        ).pixel(i, j) == placed(src, left as int, top as int, i, j),
                decreases width - x,
            {
                let ghost before = out@;
                let covered = left <= x && x - left < w && top <= y && y - top < h;
                if covered {
                    let row: usize = (y - top) as usize;
                    let column: usize = (x - left) as usize;
                    proof {
                        lemma_cell_index(w as int, h as int, column as int, row as int);
                        assert(4 * (w * h) == 4 * w * h) by (nonlinear_arith);
                        assert(self.pixels@.len() == 4 * (w * h));
                        assert(0 <= row * w <= row * w + column);
                        assert(4 * (row * w + column) + 3 < n);
                    }
                    let k: usize = 4 * (row * (w as usize) + column);
                    out.push(self.pixels[k]);
                    out.push(self.pixels[k + 1]);
                    out.push(self.pixels[k + 2]);
                    out.push(self.pixels[k + 3]);
                } else {
                    out.push(0);
                    out.push(0);
                    out.push(0);
                    out.push(0);
                }
                proof {
                    assert(4 * (y * width + x) + 4 == 4 * (y * width + (x + 1)));
                    assert forall|i: int, j: int|
                        0 <= i < width && (0 <= j < y || (j == y && i < x + 1)) implies (
                        #[trigger] canvas(out@, width, height).pixel(i, j)) == placed(
                            src,
                            left as int,
                            top as int,
                            i,
                            j,
                        ) by {
                        if j == y && i == x {
                        } else {
                            lemma_cell_before(width as int, i, j, x as int, y as int);
                            assert(canvas(out@, width, height).pixel(i, j) == canvas(
                                before,
                                width,
                                height,
                            ).pixel(i, j));
                        }
                    }
                }
                x += 1;
            }
            proof {
                assert(y * width + width == (y + 1) * width) by (nonlinear_arith);
            }
            y += 1;
        }
        proof {
            assert(4 * (height * width) == 4 * width * height) by (nonlinear_arith);
            assert(canvas(out@, width, height).is_centred(src, width as nat, height as nat));
        }
        Some(RasterImage { width, height, pixels: out })
    }

    /// Gives up the raster for its bytes.
    pub fn into_pixels(self) -> (r: Vec<u8>)
        ensures
            r@ == self@.pixels,
    {
        self.pixels
    }
}

/// Calls `image::load_from_memory` and flattens what it decoded to
/// eight-bit RGBA with `into_rgba8`. Nothing is claimed of which bytes
/// decode to what: the formats that the call knows can be changed by hooks
/// that are registered for the whole process.
#[verifier::external_body]
pub(crate) fn decode_image(bytes: &[u8]) -> (r: Result<RasterImage, image::ImageError>) {
    let buffer = image::load_from_memory(bytes)?.into_rgba8();
    Ok(RasterImage { width: buffer.width(), height: buffer.height(), pixels: buffer.into_raw() })
}

/// Calls `ImageError`'s `to_string`, the text of a codec failure.
#[verifier::external_body]
pub(crate) fn image_error_text(e: &image::ImageError) -> (r: String) {
    e.to_string()
}

/// The luminance of a colour: the weighted mean of red, green and blue,
/// rounded down.
pub open spec fn luminance(r: u8, g: u8, b: u8) -> u8 {
    ((2126 * r + 7152 * g + 722 * b) / 10000) as u8
}

/// The luminance and the alpha of every pixel of an RGBA buffer: two bytes
/// for each of its four.
pub open spec fn gray_alpha(pixels: Seq<u8>) -> Seq<u8> {
    Seq::new(
        pixels.len() / 2,
        |k: int|
            if k % 2 == 0 {
                luminance(pixels[4 * (k / 2)], pixels[4 * (k / 2) + 1], pixels[4 * (k / 2) + 2])
            } else {
                pixels[4 * (k / 2) + 3]
            },
    )
}

/// The luminance, one byte for every pixel, that `DynamicImage::to_luma8`
/// gives for an RGBA raster.
pub uninterp spec fn luma_pixels(width: nat, height: nat, pixels: Seq<u8>) -> Seq<u8>;

/// Calls `DynamicImage::grayscale` on an RGBA raster and takes the bytes of
/// the result with `into_luma_alpha8`: for every pixel its luminance, which
/// is `(2126 r + 7152 g + 722 b) / 10000`, and its alpha unchanged.
#[verifier::external_body]
pub(crate) fn grayscale_image(image: RasterImage) -> (out: Vec<u8>)
    ensures
        out@ == gray_alpha(image@.pixels),
{
    let view = image::RgbaImage::from_raw(image.width, image.height, image.pixels).unwrap();
    image::DynamicImage::ImageRgba8(view).grayscale().into_luma_alpha8().into_raw()
}

/// Calls `DynamicImage::to_luma8`: one byte for every pixel, a function of
/// the source's pixels.
#[verifier::external_body]
pub(crate) fn luma_image(image: RasterImage) -> (out: Vec<u8>)
    ensures
        out@.len() == image@.width * image@.height,
        out@ == luma_pixels(image@.width, image@.height, image@.pixels),
{
    let view = image::RgbaImage::from_raw(image.width, image.height, image.pixels).unwrap();
    image::DynamicImage::ImageRgba8(view).to_luma8().into_raw()
}

/// Calls `image::imageops::crop_imm`: the box is clamped to the image, and
/// the pixels inside it are copied.
#[verifier::external_body]
pub(crate) fn crop_image(image: RasterImage, x: u32, y: u32, w: u32, h: u32) -> (out:
    RasterImage)
    ensures
        out@.is_crop_of(image@, x as nat, y as nat, w as nat, h as nat),
{
    let view = image::RgbaImage::from_raw(image.width, image.height, image.pixels).unwrap();
    let buffer = image::imageops::crop_imm(&view, x, y, w, h).to_image();
    RasterImage { width: buffer.width(), height: buffer.height(), pixels: buffer.into_raw() }
}

/// Calls `image::imageops::resize` with the Lanczos filter of window 3: the
/// result has the dimensions asked for. Nothing is claimed of its pixels.
/// The call allocates `4 * image.width * h` numbers of four bytes and
/// `4 * w * h` bytes, and panics where such a buffer is larger than an
/// allocation can be.
#[verifier::external_body]
pub(crate) fn resize_image(image: RasterImage, w: u32, h: u32) -> (out: RasterImage)
    requires
        image@.width > 0,
        image@.height > 0,
        w > 0,
        h > 0,
        16 * image@.width * h <= isize::MAX,
        4 * w * h <= isize::MAX,
    ensures
        out@.well_formed(),
        out@.width == w,
        out@.height == h,
{
    let view = image::RgbaImage::from_raw(image.width, image.height, image.pixels).unwrap();
    let buffer = image::imageops::resize(&view, w, h, image::imageops::FilterType::Lanczos3);
    RasterImage { width: buffer.width(), height: buffer.height(), pixels: buffer.into_raw() }
}

/// Calls `image::imageops::flip_horizontal`: each row is reversed.
#[verifier::external_body]
pub(crate) fn flip_image(image: RasterImage) -> (out: RasterImage)
    ensures
        out@.is_mirror_of(image@),
{
    let view = image::RgbaImage::from_raw(image.width, image.height, image.pixels).unwrap();
    let buffer = image::imageops::flip_horizontal(&view);
    RasterImage { width: buffer.width(), height: buffer.height(), pixels: buffer.into_raw() }
}

/// Calls `image::imageops::rotate90`: the source pixel at `(x, y)` moves to
/// `(height - 1 - y, x)`.
#[verifier::external_body]
pub(crate) fn rotate90_image(image: RasterImage) -> (out: RasterImage)
    ensures
        out@.is_quarter_turn_of(image@),
{
    let view = image::RgbaImage::from_raw(image.width, image.height, image.pixels).unwrap();
    let buffer = image::imageops::rotate90(&view);
    RasterImage { width: buffer.width(), height: buffer.height(), pixels: buffer.into_raw() }
}

/// Calls `image::imageops::rotate180`: the source pixel at `(x, y)` moves to
/// `(width - 1 - x, height - 1 - y)`.
#[verifier::external_body]
pub(crate) fn rotate180_image(image: RasterImage) -> (out: RasterImage)
    ensures
        out@.is_half_turn_of(image@),
{
    let view = image::RgbaImage::from_raw(image.width, image.height, image.pixels).unwrap();
    let buffer = image::imageops::rotate180(&view);
    RasterImage { width: buffer.width(), height: buffer.height(), pixels: buffer.into_raw() }
}

/// Calls `image::imageops::rotate270`: the source pixel at `(x, y)` moves to
/// `(y, width - 1 - x)`.
#[verifier::external_body]
pub(crate) fn rotate270_image(image: RasterImage) -> (out: RasterImage)
    ensures
        out@.is_three_quarter_turn_of(image@),
{
    let view = image::RgbaImage::from_raw(image.width, image.height, image.pixels).unwrap();
    let buffer = image::imageops::rotate270(&view);
    RasterImage { width: buffer.width(), height: buffer.height(), pixels: buffer.into_raw() }
}

} // verus!
