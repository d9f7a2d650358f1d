//! The region of a request: which rectangle of the source image is kept.
use crate::decimal::{
    lemma_decimal_chars, lemma_decimal_round_trip, lemma_parse_decimal_wf, spec_parse_decimal,
    Decimal,
};
use crate::error::IiifError;
use crate::math::round_div;
use crate::raster::{crop_image, RasterImage};
use crate::text::{
    all_plain, chars_of, contains_char, decimal_text, has_prefix, is_text, lemma_concat_lacks,
    lemma_decimal_text, lemma_digits_plain, lemma_four_lack, lemma_no_prefix,
    lemma_number_text, lemma_plain_concat, lemma_plain_four, lemma_plain_text, lemma_split_four,
    lowered, parse_u32, push_decimal, push_str, spec_parse_u32, split, split_text, starts_with,
    string_of, subvec, texts, to_lower, trim, trimmed,
};
use vstd::prelude::*;
use vstd::string::StringExecFns;

verus! {

/// The rectangle of the source image that a request keeps.
#[derive(Debug, PartialEq, Eq, Clone, Copy)]
pub enum Region {
    /// `full`: the whole image.
    Full,
    /// `square`: the centred square whose side is the shorter dimension.
    Square,
    /// `x,y,w,h`: a rectangle in pixels, from its top left corner.
    Rect(u32, u32, u32, u32),
    /// `pct:x,y,w,h`: a rectangle in percent of the image's dimensions.
    Pct(Decimal, Decimal, Decimal, Decimal),
}

/// A hundred percent, in billionths.
pub open spec fn hundred() -> int {
    100_000_000_000
}

/// The pixels that a share of a dimension comes to: `dim * share / 100`
/// rounded to the nearest integer, halves away from zero, where `share` is given in
/// billionths of a percent; 0 for a negative share, and no more than the
/// largest 32-bit number.
pub open spec fn pct_pixels(dim: u32, share: int) -> u32 {
    if share <= 0 {
        0
    } else {
        let r = round_div(dim * share, hundred());
        if r > u32::MAX {
            u32::MAX
        } else {
            r as u32
        }
    }
}

/// The rectangle that four comma-separated pixel counts write.
pub open spec fn spec_parse_rect(t: Seq<char>) -> Option<Region> {
    let parts = split(t, ',');
    if parts.len() == 4 && spec_parse_u32(parts[0]) is Some && spec_parse_u32(parts[1]) is Some
        && spec_parse_u32(parts[2]) is Some && spec_parse_u32(parts[3]) is Some {
        Some(
            Region::Rect(
                spec_parse_u32(parts[0])->0,
                spec_parse_u32(parts[1])->0,
                spec_parse_u32(parts[2])->0,
                spec_parse_u32(parts[3])->0,
            ),
        )
    } else {
        None
    }
}

/// The rectangle that four comma-separated percentages write: decimal
/// numbers, written with digits and a decimal point and without an exponent.
pub open spec fn spec_parse_pct(t: Seq<char>) -> Option<Region> {
    let parts = split(t, ',');
    if parts.len() == 4 && spec_parse_decimal(parts[0]) is Some && spec_parse_decimal(parts[1])
        is Some && spec_parse_decimal(parts[2]) is Some && spec_parse_decimal(parts[3]) is Some {
        Some(
            Region::Pct(
                spec_parse_decimal(parts[0])->0,
                spec_parse_decimal(parts[1])->0,
                spec_parse_decimal(parts[2])->0,
                spec_parse_decimal(parts[3])->0,
            ),
        )
    } else {
        None
    }
}

/// The region that a text writes, after white space around it is removed
/// and upper-case letters are folded: `full`, `square`, `pct:` and four
/// percentages, or four pixel counts; `None` for any other text.
pub open spec fn spec_parse_region(s: Seq<char>) -> Option<Region> {
    let t = lowered(trimmed(s));
    if t == "full"@ {
        Some(Region::Full)
    } else if t == "square"@ {
        Some(Region::Square)
    } else if has_prefix(t, "pct:"@) {
        spec_parse_pct(t.subrange("pct:"@.len() as int, t.len() as int))
    } else if t.contains(',') {
        spec_parse_rect(t)
    } else {
        None
    }
}

/// Converts a share of a dimension, in billionths of a percent, to pixels.
fn pixels_of(dim: u32, share: i128) -> (r: u32)
    requires
        share <= 18_446_744_073_709_551_615_000_000_000,
    ensures
        r == pct_pixels(dim, share as int),
{
    if share <= 0 {
        return 0;
    }
    let magnitude: u128 = share as u128;
    assert(dim * magnitude <= 0xffff_ffff * 18_446_744_073_709_551_615_000_000_000)
        by (nonlinear_arith)
        requires
            dim <= 0xffff_ffff,
            magnitude <= 18_446_744_073_709_551_615_000_000_000,
    ;
    let n: u128 = (dim as u128) * magnitude;
    let q: u128 = (2 * n + 100_000_000_000) / 200_000_000_000;
    if q > 0xffff_ffff {
        0xffff_ffff
    } else {
        q as u32
    }
}

impl Region {
    /// Every percentage of the region is a well-formed number.
    pub open spec fn wf(&self) -> bool {
        match self {
            Region::Pct(x, y, w, h) => x.wf() && y.wf() && w.wf() && h.wf(),
            _ => true,
        }
    }

    /// Whether the region has no width or no height.
    pub open spec fn is_degenerate(&self) -> bool {
        match self {
            Region::Rect(_, _, w, h) => *w == 0 || *h == 0,
            Region::Pct(_, _, w, h) => w.billionths() == 0 || h.billionths() == 0,
            _ => false,
        }
    }

    /// Whether the corner of the region lies outside an image of the given
    /// size: at or beyond its right or bottom edge.
    pub open spec fn is_outside(&self, width: u32, height: u32) -> bool {
        match self {
            Region::Rect(x, y, _, _) => *x >= width || *y >= height,
            Region::Pct(x, y, _, _) => x.billionths() >= hundred() || y.billionths() >= hundred(),
            _ => false,
        }
    }

    /// The box `(x, y, w, h)` in pixels that the region selects from an
    /// image of the given size.
    ///
    /// The square is centred on the longer axis. A rectangle that reaches
    /// beyond the right or bottom edge is cut at that edge. Percentages are
    /// cut at a hundred in the same way and then converted, each of the
    /// four by itself.
    pub open spec fn boxed(&self, width: u32, height: u32) -> (u32, u32, u32, u32) {
        match self {
            Region::Full => (0, 0, width, height),
            Region::Square => {
                let side = if width <= height { width } else { height };
                (((width - side) / 2) as u32, ((height - side) / 2) as u32, side, side)
            },
            Region::Rect(x, y, w, h) => (
                *x,
                *y,
                if *w <= width - *x { *w } else { (width - *x) as u32 },
                if *h <= height - *y { *h } else { (height - *y) as u32 },
            ),
            Region::Pct(x, y, w, h) => {
                let room_w = hundred() - x.billionths();
                let room_h = hundred() - y.billionths();
                (
                    pct_pixels(width, x.billionths()),
                    pct_pixels(height, y.billionths()),
                    pct_pixels(
                        width,
                        if w.billionths() <= room_w { w.billionths() } else { room_w },
                    ),
                    pct_pixels(
                        height,
                        if h.billionths() <= room_h { h.billionths() } else { room_h },
                    ),
                )
            },
        }
    }

    /// The canonical text of the region.
    pub open spec fn spec_text(&self) -> Seq<char> {
        match self {
            Region::Full => "full"@,
            Region::Square => "square"@,
            Region::Rect(x, y, w, h) => decimal_text(*x as nat) + seq![','] + decimal_text(
                *y as nat,
            ) + seq![','] + decimal_text(*w as nat) + seq![','] + decimal_text(*h as nat),
            Region::Pct(x, y, w, h) => "pct:"@ + x.spec_text() + seq![','] + y.spec_text()
                + seq![','] + w.spec_text() + seq![','] + h.spec_text(),
        }
    }

    /// Reads four comma-separated pixel counts.
    pub fn parse_rect_coordinates(coords: &Vec<char>) -> (r: Option<Region>)
        ensures
            r == spec_parse_rect(coords@),
    {
        let parts = split_text(coords, ',');
        if parts.len() != 4 {
            return None;
        }
        assert(texts(parts@)[0] == parts@[0]@);
        assert(texts(parts@)[1] == parts@[1]@);
        assert(texts(parts@)[2] == parts@[2]@);
        assert(texts(parts@)[3] == parts@[3]@);
        let x = parse_u32(&parts[0]);
        let y = parse_u32(&parts[1]);
        let w = parse_u32(&parts[2]);
        let h = parse_u32(&parts[3]);
        match (x, y, w, h) {
            (Some(x), Some(y), Some(w), Some(h)) => Some(Region::Rect(x, y, w, h)),
            _ => None,
        }
    }

    /// Reads four comma-separated percentages.
    pub fn parse_pct_coordinates(coords: &Vec<char>) -> (r: Option<Region>)
        ensures
            r == spec_parse_pct(coords@),
            r matches Some(region) ==> region.wf(),
    {
        let parts = split_text(coords, ',');
        if parts.len() != 4 {
            return None;
        }
        assert(texts(parts@)[0] == parts@[0]@);
        assert(texts(parts@)[1] == parts@[1]@);
        assert(texts(parts@)[2] == parts@[2]@);
        assert(texts(parts@)[3] == parts@[3]@);
        let x = Decimal::parse(&parts[0]);
        let y = Decimal::parse(&parts[1]);
        let w = Decimal::parse(&parts[2]);
        let h = Decimal::parse(&parts[3]);
        match (x, y, w, h) {
            (Some(x), Some(y), Some(w), Some(h)) => Some(Region::Pct(x, y, w, h)),
            _ => None,
        }
    }

    /// Reads a region, ignoring case and surrounding white space.
    pub fn from_str(s: &str) -> (r: Result<Region, IiifError>)
        ensures
            match spec_parse_region(s@) {
                Some(region) => r == Ok::<Region, IiifError>(region) && region.wf(),
                None => r matches Err(e) && e.is_bad_request("Invalid region format: "@, s@),
            },
    {
        let t = to_lower(&trim(&chars_of(s)));
        let parsed = if is_text(&t, "full") {
            Some(Region::Full)
        } else if is_text(&t, "square") {
            Some(Region::Square)
        } else if starts_with(&t, "pct:") {
            let prefix = chars_of("pct:");
            let rest = subvec(&t, prefix.len(), t.len());
            Region::parse_pct_coordinates(&rest)
        } else if contains_char(&t, ',') {
            Region::parse_rect_coordinates(&t)
        } else {
            None
        };
        match parsed {
            Some(region) => Ok(region),
            None => Err(IiifError::bad_request("Invalid region format: ", s)),
        }
    }

    /// Appends the canonical text of the region.
    pub fn push_text(&self, out: &mut Vec<char>)
        ensures
            final(out)@ == old(out)@ + self.spec_text(),
    {
        match self {
            Region::Full => push_str(out, "full"),
            Region::Square => push_str(out, "square"),
            Region::Rect(x, y, w, h) => {
                let mut t: Vec<char> = Vec::new();
                push_decimal(&mut t, *x as u64);
                t.push(',');
                push_decimal(&mut t, *y as u64);
                t.push(',');
                push_decimal(&mut t, *w as u64);
                t.push(',');
                push_decimal(&mut t, *h as u64);
                crate::text::push_all(out, &t);
            },
            Region::Pct(x, y, w, h) => {
                let mut t: Vec<char> = Vec::new();
                push_str(&mut t, "pct:");
                x.push_text(&mut t);
                t.push(',');
                y.push_text(&mut t);
                t.push(',');
                w.push_text(&mut t);
                t.push(',');
                h.push_text(&mut t);
                crate::text::push_all(out, &t);
            },
        }
    }

    /// The canonical text of the region.
    pub fn to_string(&self) -> (r: String)
        ensures
            r@ == self.spec_text(),
    {
        let mut out: Vec<char> = Vec::new();
        self.push_text(&mut out);
        string_of(&out)
    }

    /// The box `(x, y, w, h)` in pixels that the region selects from an
    /// image of the given size.
    ///
    /// A region without width or height is rejected, and so is one whose
    /// corner lies outside the image; the first of the two that applies is
    /// reported.
    pub fn get_region(&self, width: u32, height: u32) -> (r: Result<
        (u32, u32, u32, u32),
        IiifError,
    >)
        ensures
            if self.is_degenerate() {
                r matches Err(e) && e.is_bad_request("Width or height is 0: "@, self.spec_text())
            } else if self.is_outside(width, height) {
                r matches Err(e) && e.is_bad_request(
                    "X or Y is out of bounds: "@,
                    self.spec_text(),
                )
            } else {
                r == Ok::<(u32, u32, u32, u32), IiifError>(self.boxed(width, height))
            },
    {
        match self {
            Region::Full => Ok((0, 0, width, height)),
            Region::Square => {
                let side: u32 = if width <= height { width } else { height };
                Ok(((width - side) / 2, (height - side) / 2, side, side))
            },
            Region::Rect(x, y, w, h) => {
                if *w == 0 || *h == 0 {
                    return Err(self.rejected("Width or height is 0: "));
                }
                if *x >= width || *y >= height {
                    return Err(self.rejected("X or Y is out of bounds: "));
                }
                let rw: u32 = if *w <= width - *x { *w } else { width - *x };
                let rh: u32 = if *h <= height - *y { *h } else { height - *y };
                Ok((*x, *y, rw, rh))
            },
            Region::Pct(x, y, w, h) => {
                let xb = x.signed_billionths();
                let yb = y.signed_billionths();
                let wb = w.signed_billionths();
                let hb = h.signed_billionths();
                if wb == 0 || hb == 0 {
                    return Err(self.rejected("Width or height is 0: "));
                }
                if xb >= 100_000_000_000 || yb >= 100_000_000_000 {
                    return Err(self.rejected("X or Y is out of bounds: "));
                }
                let room_w: i128 = 100_000_000_000 - xb;
                let room_h: i128 = 100_000_000_000 - yb;
                let px = pixels_of(width, xb);
                let py = pixels_of(height, yb);
                let pw = pixels_of(width, if wb <= room_w { wb } else { room_w });
                let ph = pixels_of(height, if hb <= room_h { hb } else { room_h });
                Ok((px, py, pw, ph))
            },
        }
    }

    /// The bad request that names this region behind `reason`.
    fn rejected(&self, reason: &str) -> (e: IiifError)
        ensures
            e.is_bad_request(reason@, self.spec_text()),
    {
        let text = self.to_string();
        IiifError::bad_request(reason, text.as_str())
    }

    /// Crops an image to the region.
    ///
    /// The box is the one that [`Region::get_region`] gives for the size of
    /// the image; the result holds the pixels of the image inside that box,
    /// which is first cut to the image where rounding let it reach beyond.
    pub fn process(&self, image: RasterImage) -> (r: Result<RasterImage, IiifError>)
        ensures
            if self.is_degenerate() {
                r matches Err(e) && e.is_bad_request("Width or height is 0: "@, self.spec_text())
            } else if self.is_outside(image@.width as u32, image@.height as u32) {
                r matches Err(e) && e.is_bad_request(
                    "X or Y is out of bounds: "@,
                    self.spec_text(),
                )
            } else {
                let b = self.boxed(image@.width as u32, image@.height as u32);
                r matches Ok(out) && out@.is_crop_of(
                    image@,
                    b.0 as nat,
                    b.1 as nat,
                    b.2 as nat,
                    b.3 as nat,
                )
            },
    {
        let width = image.width();
        let height = image.height();
        let (x, y, w, h) = self.get_region(width, height)?;
        Ok(crop_image(image, x, y, w, h))
    }
}

impl std::str::FromStr for Region {
    type Err = IiifError;

    /// Reads a region, as [`Region::from_str`] does.
    fn from_str(s: &str) -> (r: Result<Self, Self::Err>)
        ensures
            match spec_parse_region(s@) {
                Some(region) => r == Ok::<Region, IiifError>(region) && region.wf(),
                None => r matches Err(e) && e.is_bad_request("Invalid region format: "@, s@),
            },
    {
        Region::from_str(s)
    }
}

/// The square lies in the image, has the shorter dimension as its side and
/// is centred on the longer axis: the space on either side of it differs by
/// one pixel at most.
pub proof fn lemma_square_is_centred(width: u32, height: u32)
    ensures
        ({
            let b = Region::Square.boxed(width, height);
            let side = if width <= height { width } else { height };
            &&& !Region::Square.is_degenerate()
            &&& !Region::Square.is_outside(width, height)
            &&& b.2 == side && b.3 == side
            &&& b.0 == (width - side) / 2 && b.1 == (height - side) / 2
            &&& b.0 + b.2 <= width && b.1 + b.3 <= height
            &&& 0 <= (width - side - b.0) - b.0 <= 1
            &&& 0 <= (height - side - b.1) - b.1 <= 1
            &&& b.0 == 0 || b.1 == 0
        }),
{
}

/// A rectangle that is accepted comes to a box that lies in the image, at
/// the rectangle's own corner, and is not empty.
pub proof fn lemma_rect_lies_inside(x: u32, y: u32, w: u32, h: u32, width: u32, height: u32)
    requires
        !Region::Rect(x, y, w, h).is_degenerate(),
        !Region::Rect(x, y, w, h).is_outside(width, height),
    ensures
        ({
            let b = Region::Rect(x, y, w, h).boxed(width, height);
            &&& b.0 == x && b.1 == y
            &&& 1 <= b.2 <= w && 1 <= b.3 <= h
            &&& b.0 + b.2 <= width && b.1 + b.3 <= height
            &&& b.2 == w || b.0 + b.2 == width
            &&& b.3 == h || b.1 + b.3 == height
        }),
{
}

/// Four pixel counts joined by commas read as the rectangle.
proof fn lemma_rect_round_trip(x: u32, y: u32, w: u32, h: u32)
    ensures
        spec_parse_region(Region::Rect(x, y, w, h).spec_text()) == Some(Region::Rect(x, y, w, h)),
{
    let (a, b, c, d) = (
        decimal_text(x as nat),
        decimal_text(y as nat),
        decimal_text(w as nat),
        decimal_text(h as nat),
    );
    let t = Region::Rect(x, y, w, h).spec_text();
    lemma_number_text(x);
    lemma_number_text(y);
    lemma_number_text(w);
    lemma_number_text(h);
    lemma_plain_four(a, b, c, d);
    lemma_plain_text(t);
    lemma_split_four(a, b, c, d, ',');
    reveal_strlit("full");
    reveal_strlit("square");
    reveal_strlit("pct:");
    assert(t[0] == a[0]);
    lemma_no_prefix(t, "pct:"@);
    assert(t[a.len() as int] == ',');
    assert(t.contains(','));
    let parts = split(t, ',');
    assert(parts[0] == a && parts[1] == b && parts[2] == c && parts[3] == d);
}

/// Four percentages joined by commas read as the region.
proof fn lemma_pct_parse(x: Decimal, y: Decimal, w: Decimal, h: Decimal)
    requires
        x.wf(),
        y.wf(),
        w.wf(),
        h.wf(),
    ensures
        spec_parse_pct(
            x.spec_text() + seq![','] + y.spec_text() + seq![','] + w.spec_text() + seq![',']
                + h.spec_text(),
        ) == Some(Region::Pct(x, y, w, h)),
{
    let (a, b, c, d) = (x.spec_text(), y.spec_text(), w.spec_text(), h.spec_text());
    let rest = a + seq![','] + b + seq![','] + c + seq![','] + d;
    lemma_decimal_chars(x);
    lemma_decimal_chars(y);
    lemma_decimal_chars(w);
    lemma_decimal_chars(h);
    lemma_decimal_round_trip(x);
    lemma_decimal_round_trip(y);
    lemma_decimal_round_trip(w);
    lemma_decimal_round_trip(h);
    lemma_split_four(a, b, c, d, ',');
    let parts = split(rest, ',');
    assert(parts[0] == a && parts[1] == b && parts[2] == c && parts[3] == d);
}

/// `pct:` and four percentages joined by commas read as the region.
#[verifier::rlimit(50)]
proof fn lemma_pct_round_trip(x: Decimal, y: Decimal, w: Decimal, h: Decimal)
    requires
        x.wf(),
        y.wf(),
        w.wf(),
        h.wf(),
    ensures
        spec_parse_region(Region::Pct(x, y, w, h).spec_text()) == Some(Region::Pct(x, y, w, h)),
{
    let (a, b, c, d) = (x.spec_text(), y.spec_text(), w.spec_text(), h.spec_text());
    let t = Region::Pct(x, y, w, h).spec_text();
    let rest = a + seq![','] + b + seq![','] + c + seq![','] + d;
    assert(t == "pct:"@ + rest);
    assert(all_plain(t)) by {
        lemma_decimal_chars(x);
        lemma_decimal_chars(y);
        lemma_decimal_chars(w);
        lemma_decimal_chars(h);
        lemma_plain_four(a, b, c, d);
        reveal_strlit("pct:");
        assert(all_plain("pct:"@));
        lemma_plain_concat("pct:"@, rest);
    }
    lemma_plain_text(t);
    lemma_pct_parse(x, y, w, h);
    assert(t != "full"@ && t != "square"@ && has_prefix(t, "pct:"@) && t.subrange(
        "pct:"@.len() as int,
        t.len() as int,
    ) == rest) by {
        reveal_strlit("full");
        reveal_strlit("square");
        reveal_strlit("pct:");
        assert(t[0] == 'p');
        assert(t.subrange(0, 4) == "pct:"@);
        assert(t.subrange(4, t.len() as int) == rest);
    }
}

/// The canonical text of a region reads back as the region.
pub proof fn lemma_region_round_trip(region: Region)
    requires
        region.wf(),
    ensures
        spec_parse_region(region.spec_text()) == Some(region),
{
    match region {
        Region::Full => {
            reveal_strlit("full");
            assert(all_plain("full"@));
            lemma_plain_text("full"@);
        },
        Region::Square => {
            reveal_strlit("full");
            reveal_strlit("square");
            assert(all_plain("square"@));
            lemma_plain_text("square"@);
        },
        Region::Rect(x, y, w, h) => lemma_rect_round_trip(x, y, w, h),
        Region::Pct(x, y, w, h) => lemma_pct_round_trip(x, y, w, h),
    }
}

/// What a text reads as is a region of well-formed numbers.
pub proof fn lemma_parse_region_wf(s: Seq<char>)
    ensures
        spec_parse_region(s) matches Some(region) ==> region.wf(),
{
    let t = lowered(trimmed(s));
    if has_prefix(t, "pct:"@) {
        let parts = split(t.subrange("pct:"@.len() as int, t.len() as int), ',');
        if parts.len() == 4 {
            lemma_parse_decimal_wf(parts[0]);
            lemma_parse_decimal_wf(parts[1]);
            lemma_parse_decimal_wf(parts[2]);
            lemma_parse_decimal_wf(parts[3]);
        }
    }
}

/// Whatever a text reads as, the canonical text of that region reads as the
/// same region.
pub proof fn lemma_region_parse_round_trip(s: Seq<char>)
    requires
        spec_parse_region(s) is Some,
    ensures
        spec_parse_region(spec_parse_region(s)->0.spec_text()) == spec_parse_region(s),
{
    lemma_parse_region_wf(s);
    lemma_region_round_trip(spec_parse_region(s)->0);
}

/// The canonical text of a region holds no slash.
pub proof fn lemma_region_text_has_no_slash(region: Region)
    requires
        region.wf(),
    ensures
        !region.spec_text().contains('/'),
{
    match region {
        Region::Full => {
            reveal_strlit("full");
        },
        Region::Square => {
            reveal_strlit("square");
        },
        Region::Rect(x, y, w, h) => {
            lemma_decimal_text(x as nat);
            lemma_decimal_text(y as nat);
            lemma_decimal_text(w as nat);
            lemma_decimal_text(h as nat);
            lemma_digits_plain(decimal_text(x as nat));
            lemma_digits_plain(decimal_text(y as nat));
            lemma_digits_plain(decimal_text(w as nat));
            lemma_digits_plain(decimal_text(h as nat));
            lemma_four_lack(
                decimal_text(x as nat),
                decimal_text(y as nat),
                decimal_text(w as nat),
                decimal_text(h as nat),
                '/',
            );
        },
        Region::Pct(x, y, w, h) => {
            reveal_strlit("pct:");
            lemma_decimal_chars(x);
            lemma_decimal_chars(y);
            lemma_decimal_chars(w);
            lemma_decimal_chars(h);
            let rest = x.spec_text() + seq![','] + y.spec_text() + seq![','] + w.spec_text()
                + seq![','] + h.spec_text();
            lemma_four_lack(x.spec_text(), y.spec_text(), w.spec_text(), h.spec_text(), '/');
            lemma_concat_lacks("pct:"@, rest, '/');
            assert(region.spec_text() == "pct:"@ + rest);
        },
    }
}

} // verus!
