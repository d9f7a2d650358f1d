//! The size of a request: the dimensions to which the cropped region is
//! scaled.
use crate::error::IiifError;
use crate::math::{div_round, mul32, rgba_len, round_div};
use crate::raster::{resize_image, RasterImage};
use crate::text::{
    all_plain, chars_of, contains_char, decimal_text, has_prefix, is_text, lemma_concat_lacks,
    lemma_no_prefix, lemma_number_text, lemma_plain_concat, lemma_plain_text, lemma_split_concat,
    lemma_split_single, lemma_split_two_numbers, lowered, parse_u32, push_all, push_decimal,
    push_str, spec_parse_u32, split, split_text, starts_with, string_of, subvec, texts, to_lower,
    trim, trimmed,
};
use vstd::arithmetic::div_mod::lemma_div_is_ordered;
use vstd::arithmetic::mul::lemma_mul_upper_bound;
use vstd::prelude::*;
use vstd::string::StringExecFns;

verus! {

/// The dimensions to which the cropped region is scaled. The forms whose
/// name begins with `C` carry the upscale marker `^`.
#[derive(Debug, PartialEq, Eq, Clone, Copy)]
pub enum Size {
    /// `max`: the largest size available, never upscaled.
    Max,
    /// `^max`: the largest size that the service permits.
    CMax,
    /// `w,`: the given width; the height keeps the aspect ratio.
    W { w: u32 },
    /// `^w,`: as `w,`, and `w` may exceed the region.
    CW { w: u32 },
    /// `,h`: the given height; the width keeps the aspect ratio.
    H { h: u32 },
    /// `^,h`: as `,h`, and `h` may exceed the region.
    CH { h: u32 },
    /// `pct:n`: `n` percent of the region, at most 100.
    Pct { n: u32 },
    /// `^pct:n`: `n` percent of the region.
    CPct { n: u32 },
    /// `w,h`: exactly these dimensions; the aspect ratio may change.
    WH { w: u32, h: u32 },
    /// `^w,h`: as `w,h`, and either may exceed the region.
    CWH { w: u32, h: u32 },
    /// `!w,h`: the best fit inside `w` by `h` that is no larger than the
    /// region.
    LWH { w: u32, h: u32 },
    /// `^!w,h`: the best fit inside `w` by `h`.
    CLWH { w: u32, h: u32 },
}

/// Why a size cannot be resolved against a region.
#[derive(Debug, PartialEq, Eq, Clone, Copy)]
pub enum SizeFault {
    /// The region has no width or no height.
    EmptyRegion,
    /// The size is larger than the region and carries no upscale marker.
    Upscale,
    /// A dimension of the result does not fit 32 bits, or the scaled image
    /// does not fit the memory that can be addressed.
    TooLarge,
    /// The result has no width or no height.
    Empty,
}

/// The limits that the service sets on what it returns.
#[derive(Debug, PartialEq, Eq, Clone, Copy)]
pub struct SizeLimits {
    /// The largest width, where there is one.
    pub max_width: Option<u32>,
    /// The largest height, where there is one.
    pub max_height: Option<u32>,
    /// The largest number of pixels, where there is one.
    pub max_area: Option<u64>,
}

/// `len * num / den`, rounded to the nearest integer, halves away from zero.
pub open spec fn scaled(len: int, num: int, den: int) -> int {
    round_div(len * num, den)
}

/// The largest size inside `bw` by `bh` that keeps the aspect ratio of
/// `cw` by `ch`: the side that limits is taken whole and the other follows.
pub open spec fn fit(cw: int, ch: int, bw: int, bh: int) -> (int, int) {
    if bw * ch <= bh * cw {
        (bw, scaled(bw, ch, cw))
    } else {
        (scaled(bh, cw, ch), bh)
    }
}

/// Whether the width `w`, with the height that keeps the aspect ratio of
/// `cw` by `ch`, meets the limits and fits 32 bits.
pub open spec fn width_allowed(w: int, cw: u32, ch: u32, limits: SizeLimits) -> bool {
    scaled(w, ch as int, cw as int) <= u32::MAX && limits.allows(w, scaled(w, ch as int, cw as int))
}

/// The largest width from 1 to `cap` that is allowed; 0 where none is.
pub open spec fn largest_width(cap: int, cw: u32, ch: u32, limits: SizeLimits) -> int
    decreases cap,
{
    if cap <= 0 {
        0
    } else if width_allowed(cap, cw, ch, limits) {
        cap
    } else {
        largest_width(cap - 1, cw, ch, limits)
    }
}

/// The two numbers that a text of the form `w,h` writes.
pub open spec fn spec_parse_two_nums(c: Seq<char>) -> Option<(u32, u32)> {
    let parts = split(c, ',');
    if parts.len() == 2 && spec_parse_u32(parts[0]) is Some && spec_parse_u32(parts[1]) is Some {
        Some((spec_parse_u32(parts[0])->0, spec_parse_u32(parts[1])->0))
    } else {
        None
    }
}

/// The size that a percentage writes: above 100 only with the upscale
/// marker.
pub open spec fn spec_parse_pct(p: Seq<char>, caret: bool) -> Option<Size> {
    match spec_parse_u32(p) {
        Some(n) => if caret {
            Some(Size::CPct { n })
        } else if n <= 100 {
            Some(Size::Pct { n })
        } else {
            None
        },
        None => None,
    }
}

/// The size that the text behind `!` writes.
pub open spec fn spec_parse_fit(c: Seq<char>, caret: bool) -> Option<Size> {
    match spec_parse_two_nums(c) {
        Some((w, h)) => if caret {
            Some(Size::CLWH { w, h })
        } else {
            Some(Size::LWH { w, h })
        },
        None => None,
    }
}

/// The size that a text of the form `w,`, `,h` or `w,h` writes. The height
/// may carry the upscale marker, which then holds for the whole size. A
/// side that is not empty must be a number.
pub open spec fn spec_parse_dims(c: Seq<char>, caret: bool) -> Option<Size> {
    let parts = split(c, ',');
    if parts.len() != 2 {
        None
    } else {
        let marked = parts[1].len() > 0 && parts[1][0] == '^';
        let up = caret || marked;
        let height = if marked { parts[1].subrange(1, parts[1].len() as int) } else { parts[1] };
        let w = spec_parse_u32(parts[0]);
        let h = spec_parse_u32(height);
        if parts[0].len() == 0 && parts[1].len() == 0 {
            None
        } else if parts[0].len() == 0 {
            match h {
                Some(h) => Some(if up { Size::CH { h } } else { Size::H { h } }),
                None => None,
            }
        } else if parts[1].len() == 0 {
            match w {
                Some(w) => Some(if up { Size::CW { w } } else { Size::W { w } }),
                None => None,
            }
        } else {
            match (w, h) {
                (Some(w), Some(h)) => Some(if up { Size::CWH { w, h } } else { Size::WH { w, h } }),
                _ => None,
            }
        }
    }
}

/// The size that a text without its leading upscale marker writes.
pub open spec fn spec_parse_content(c: Seq<char>, caret: bool) -> Option<Size> {
    if has_prefix(c, "pct:"@) {
        spec_parse_pct(c.subrange("pct:"@.len() as int, c.len() as int), caret)
    } else if c.len() > 0 && c[0] == '!' {
        spec_parse_fit(c.subrange(1, c.len() as int), caret)
    } else if c.contains(',') {
        spec_parse_dims(c, caret)
    } else {
        None
    }
}

/// The size that a text writes, after white space around it is removed and
/// upper-case letters are folded; `None` for any other text.
pub open spec fn spec_parse_size(s: Seq<char>) -> Option<Size> {
    let t = lowered(trimmed(s));
    if t == "max"@ {
        Some(Size::Max)
    } else if t == "^max"@ {
        Some(Size::CMax)
    } else if t.len() > 0 && t[0] == '^' {
        spec_parse_content(t.subrange(1, t.len() as int), true)
    } else {
        spec_parse_content(t, false)
    }
}

impl SizeFault {
    /// The words with which the fault begins its message.
    pub open spec fn spec_reason(self) -> Seq<char> {
        match self {
            SizeFault::EmptyRegion => "Region is empty: "@,
            SizeFault::Upscale => "Size exceeds the region: "@,
            SizeFault::TooLarge => "Size is too large: "@,
            SizeFault::Empty => "Width or height is 0: "@,
        }
    }

    /// The words with which the fault begins its message.
    pub fn reason(self) -> (r: &'static str)
        ensures
            r@ == self.spec_reason(),
    {
        match self {
            SizeFault::EmptyRegion => "Region is empty: ",
            SizeFault::Upscale => "Size exceeds the region: ",
            SizeFault::TooLarge => "Size is too large: ",
            SizeFault::Empty => "Width or height is 0: ",
        }
    }
}

impl SizeLimits {
    /// No limit at all.
    pub fn none() -> (r: SizeLimits)
        ensures
            r.is_unlimited(),
    {
        SizeLimits { max_width: None, max_height: None, max_area: None }
    }

    /// Whether no limit is set.
    pub open spec fn is_unlimited(self) -> bool {
        self.max_width is None && self.max_height is None && self.max_area is None
    }

    /// Whether a size meets every limit that is set.
    pub open spec fn allows(self, w: int, h: int) -> bool {
        &&& self.max_width matches Some(m) ==> w <= m
        &&& self.max_height matches Some(m) ==> h <= m
        &&& self.max_area matches Some(m) ==> w * h <= m
    }
}

/// `len * num / den`, rounded to the nearest integer.
fn scale(len: u32, num: u32, den: u32) -> (r: u64)
    requires
        den > 0,
    ensures
        r == scaled(len as int, num as int, den as int),
{
    div_round(mul32(len, num), den as u64)
}

/// Tests a width against the limits.
fn allowed(w: u32, cw: u32, ch: u32, limits: &SizeLimits) -> (r: bool)
    requires
        cw > 0,
    ensures
        r == width_allowed(w as int, cw, ch, *limits),
{
    let h = scale(w, ch, cw);
    if h > 0xffff_ffff {
        return false;
    }
    if let Some(m) = limits.max_width {
        if w > m {
            return false;
        }
    }
    if let Some(m) = limits.max_height {
        if h > m as u64 {
            return false;
        }
    }
    if let Some(m) = limits.max_area {
        let area = mul32(w, h as u32);
        if area > m {
            return false;
        }
    }
    true
}

/// A width below an allowed width is allowed.
pub proof fn lemma_allowed_monotone(a: int, b: int, cw: u32, ch: u32, limits: SizeLimits)
    requires
        0 <= a <= b,
        cw > 0,
        width_allowed(b, cw, ch, limits),
    ensures
        width_allowed(a, cw, ch, limits),
{
    let ha = scaled(a, ch as int, cw as int);
    let hb = scaled(b, ch as int, cw as int);
    assert(a * ch <= b * ch) by (nonlinear_arith)
        requires
            a <= b,
            ch >= 0,
    ;
    lemma_div_is_ordered(2 * (a * ch) + cw, 2 * (b * ch) + cw, 2 * cw);
    assert(ha <= hb);
    assert(0 <= a * ch) by (nonlinear_arith)
        requires
            0 <= a,
            0 <= ch,
    ;
    lemma_div_is_ordered(0, 2 * (a * ch) + cw, 2 * cw);
    assert(0 <= ha);
    lemma_mul_upper_bound(a, b, ha, hb);
}

/// The largest allowed width is the one above which none is allowed.
pub proof fn lemma_largest_width(lo: int, cap: int, cw: u32, ch: u32, limits: SizeLimits)
    requires
        0 <= lo <= cap,
        lo == 0 || width_allowed(lo, cw, ch, limits),
        forall|w: int| lo < w <= cap ==> !width_allowed(w, cw, ch, limits),
    ensures
        largest_width(cap, cw, ch, limits) == lo,
    decreases cap - lo,
{
    if lo < cap {
        lemma_largest_width(lo, cap - 1, cw, ch, limits);
    }
}

/// Finds the largest allowed width up to `cap`.
fn widest(cap: u32, cw: u32, ch: u32, limits: &SizeLimits) -> (r: u32)
    requires
        cw > 0,
    ensures
        r == largest_width(cap as int, cw, ch, *limits),
        r <= cap,
        r == 0 || width_allowed(r as int, cw, ch, *limits),
{
    if cap == 0 {
        return 0;
    }
    if allowed(cap, cw, ch, limits) {
        return cap;
    }
    let mut lo: u32 = 0;
    let mut hi: u32 = cap;
    while hi - lo > 1
        invariant
            cw > 0,
            lo < hi <= cap,
            lo == 0 || width_allowed(lo as int, cw, ch, *limits),
            !width_allowed(hi as int, cw, ch, *limits),
        decreases hi - lo,
    {
        let mid: u32 = lo + (hi - lo) / 2;
        if allowed(mid, cw, ch, limits) {
            lo = mid;
        } else {
            hi = mid;
        }
    }
    proof {
        assert forall|w: int| lo < w <= cap implies !width_allowed(w, cw, ch, *limits) by {
            if width_allowed(w, cw, ch, *limits) {
                lemma_allowed_monotone(hi as int, w, cw, ch, *limits);
            }
        }
        lemma_largest_width(lo as int, cap as int, cw, ch, *limits);
    }
    lo
}

impl Size {
    /// A percentage without the upscale marker is at most 100.
    pub open spec fn wf(self) -> bool {
        match self {
            Size::Pct { n } => n <= 100,
            _ => true,
        }
    }

    /// Whether the size asks for more than the region holds without the
    /// upscale marker.
    pub open spec fn is_upscale(self, cw: u32, ch: u32) -> bool {
        match self {
            Size::W { w } => w > cw,
            Size::H { h } => h > ch,
            Size::Pct { n } => n > 100,
            Size::WH { w, h } => w > cw || h > ch,
            _ => false,
        }
    }

    /// The dimensions that the size asks for, for a region of `cw` by `ch`
    /// pixels, before they are held against what 32 bits can express.
    pub open spec fn target(self, cw: u32, ch: u32, limits: SizeLimits) -> (int, int) {
        match self {
            Size::Max => {
                let w = largest_width(cw as int, cw, ch, limits);
                (w, scaled(w, ch as int, cw as int))
            },
            Size::CMax => if limits.is_unlimited() {
                (cw as int, ch as int)
            } else {
                let w = largest_width(u32::MAX as int, cw, ch, limits);
                (w, scaled(w, ch as int, cw as int))
            },
            Size::W { w } | Size::CW { w } => (w as int, scaled(w as int, ch as int, cw as int)),
            Size::H { h } | Size::CH { h } => (scaled(h as int, cw as int, ch as int), h as int),
            Size::Pct { n } | Size::CPct { n } => (
                scaled(cw as int, n as int, 100),
                scaled(ch as int, n as int, 100),
            ),
            Size::WH { w, h } | Size::CWH { w, h } => (w as int, h as int),
            Size::LWH { w, h } => fit(
                cw as int,
                ch as int,
                if w <= cw { w as int } else { cw as int },
                if h <= ch { h as int } else { ch as int },
            ),
            Size::CLWH { w, h } => fit(cw as int, ch as int, w as int, h as int),
        }
    }

    /// The dimensions to which a region of `cw` by `ch` pixels is scaled, or
    /// the reason why there are none.
    pub open spec fn resolved(self, cw: u32, ch: u32, limits: SizeLimits) -> Result<
        (u32, u32),
        SizeFault,
    > {
        let t = self.target(cw, ch, limits);
        if cw == 0 || ch == 0 {
            Err(SizeFault::EmptyRegion)
        } else if self.is_upscale(cw, ch) {
            Err(SizeFault::Upscale)
        } else if t.0 > u32::MAX || t.1 > u32::MAX {
            Err(SizeFault::TooLarge)
        } else if t.0 <= 0 || t.1 <= 0 {
            Err(SizeFault::Empty)
        } else {
            Ok((t.0 as u32, t.1 as u32))
        }
    }

    /// The canonical text of the size.
    pub open spec fn spec_text(self) -> Seq<char> {
        match self {
            Size::Max => "max"@,
            Size::CMax => "^max"@,
            Size::W { w } => decimal_text(w as nat) + seq![','],
            Size::CW { w } => seq!['^'] + decimal_text(w as nat) + seq![','],
            Size::H { h } => seq![','] + decimal_text(h as nat),
            Size::CH { h } => seq!['^', ','] + decimal_text(h as nat),
            Size::Pct { n } => "pct:"@ + decimal_text(n as nat),
            Size::CPct { n } => seq!['^'] + "pct:"@ + decimal_text(n as nat),
            Size::WH { w, h } => decimal_text(w as nat) + seq![','] + decimal_text(h as nat),
            Size::CWH { w, h } => seq!['^'] + decimal_text(w as nat) + seq![','] + decimal_text(
                h as nat,
            ),
            Size::LWH { w, h } => seq!['!'] + decimal_text(w as nat) + seq![','] + decimal_text(
                h as nat,
            ),
            Size::CLWH { w, h } => seq!['^', '!'] + decimal_text(w as nat) + seq![',']
                + decimal_text(h as nat),
        }
    }

    /// Reads two comma-separated numbers.
    pub fn parse_two_nums(coords: &Vec<char>) -> (r: Option<(u32, u32)>)
        ensures
            r == spec_parse_two_nums(coords@),
    {
        let parts = split_text(coords, ',');
        if parts.len() != 2 {
            return None;
        }
        assert(texts(parts@)[0] == parts@[0]@);
        assert(texts(parts@)[1] == parts@[1]@);
        let w = parse_u32(&parts[0]);
        let h = parse_u32(&parts[1]);
        match (w, h) {
            (Some(w), Some(h)) => Some((w, h)),
            _ => None,
        }
    }

    /// Reads the number of a percentage.
    pub fn parse_pct(pct: &Vec<char>, caret: bool) -> (r: Option<Size>)
        ensures
            r == spec_parse_pct(pct@, caret),
    {
        match parse_u32(pct) {
            Some(n) => if caret {
                Some(Size::CPct { n })
            } else if n <= 100 {
                Some(Size::Pct { n })
            } else {
                None
            },
            None => None,
        }
    }

    /// Reads the two numbers of a confined size.
    pub fn parse_fit(coords: &Vec<char>, caret: bool) -> (r: Option<Size>)
        ensures
            r == spec_parse_fit(coords@, caret),
    {
        match Size::parse_two_nums(coords) {
            Some((w, h)) => if caret {
                Some(Size::CLWH { w, h })
            } else {
                Some(Size::LWH { w, h })
            },
            None => None,
        }
    }

    /// Reads a width, a height or both.
    pub fn parse_dims(content: &Vec<char>, caret: bool) -> (r: Option<Size>)
        ensures
            r == spec_parse_dims(content@, caret),
    {
        let parts = split_text(content, ',');
        if parts.len() != 2 {
            return None;
        }
        assert(texts(parts@)[0] == parts@[0]@);
        assert(texts(parts@)[1] == parts@[1]@);
        let first = &parts[0];
        let second = &parts[1];
        let marked: bool = second.len() > 0 && second[0] == '^';
        let up: bool = caret || marked;
        let height = if marked {
            subvec(second, 1, second.len())
        } else {
            subvec(second, 0, second.len())
        };
        assert(!marked ==> height@ == second@);
        if first.len() == 0 && second.len() == 0 {
            None
        } else if first.len() == 0 {
            match parse_u32(&height) {
                Some(h) => Some(if up { Size::CH { h } } else { Size::H { h } }),
                None => None,
            }
        } else if second.len() == 0 {
            match parse_u32(first) {
                Some(w) => Some(if up { Size::CW { w } } else { Size::W { w } }),
                None => None,
            }
        } else {
            match (parse_u32(first), parse_u32(&height)) {
                (Some(w), Some(h)) => Some(if up { Size::CWH { w, h } } else { Size::WH { w, h } }),
                _ => None,
            }
        }
    }

    /// Reads a size without its leading upscale marker.
    pub fn parse_content(content: &Vec<char>, caret: bool) -> (r: Option<Size>)
        ensures
            r == spec_parse_content(content@, caret),
    {
        if starts_with(content, "pct:") {
            let prefix = chars_of("pct:");
            let rest = subvec(content, prefix.len(), content.len());
            Size::parse_pct(&rest, caret)
        } else if content.len() > 0 && content[0] == '!' {
            let rest = subvec(content, 1, content.len());
            Size::parse_fit(&rest, caret)
        } else if contains_char(content, ',') {
            Size::parse_dims(content, caret)
        } else {
            None
        }
    }

    /// Reads a size, ignoring case and surrounding white space.
    pub fn from_str(s: &str) -> (r: Result<Size, IiifError>)
        ensures
            match spec_parse_size(s@) {
                Some(size) => r == Ok::<Size, IiifError>(size),
                None => r matches Err(e) && e.is_bad_request("Invalid size format: "@, s@),
            },
    {
        let t = to_lower(&trim(&chars_of(s)));
        let parsed = if is_text(&t, "max") {
            Some(Size::Max)
        } else if is_text(&t, "^max") {
            Some(Size::CMax)
        } else if t.len() > 0 && t[0] == '^' {
            let rest = subvec(&t, 1, t.len());
            Size::parse_content(&rest, true)
        } else {
            Size::parse_content(&t, false)
        };
        match parsed {
            Some(size) => Ok(size),
            None => Err(IiifError::bad_request("Invalid size format: ", s)),
        }
    }

    /// Appends the canonical text of the size.
    pub fn push_text(&self, out: &mut Vec<char>)
        ensures
            final(out)@ == old(out)@ + self.spec_text(),
    {
        let mut t: Vec<char> = Vec::new();
        match self {
            Size::Max => push_str(&mut t, "max"),
            Size::CMax => push_str(&mut t, "^max"),
            Size::W { w } => {
                push_decimal(&mut t, *w as u64);
                t.push(',');
            },
            Size::CW { w } => {
                t.push('^');
                push_decimal(&mut t, *w as u64);
                t.push(',');
            },
            Size::H { h } => {
                t.push(',');
                push_decimal(&mut t, *h as u64);
            },
            Size::CH { h } => {
                t.push('^');
                t.push(',');
                push_decimal(&mut t, *h as u64);
            },
            Size::Pct { n } => {
                push_str(&mut t, "pct:");
                push_decimal(&mut t, *n as u64);
            },
            Size::CPct { n } => {
                t.push('^');
                push_str(&mut t, "pct:");
                push_decimal(&mut t, *n as u64);
            },
            Size::WH { w, h } => {
                push_decimal(&mut t, *w as u64);
                t.push(',');
                push_decimal(&mut t, *h as u64);
            },
            Size::CWH { w, h } => {
                t.push('^');
                push_decimal(&mut t, *w as u64);
                t.push(',');
                push_decimal(&mut t, *h as u64);
            },
            Size::LWH { w, h } => {
                t.push('!');
                push_decimal(&mut t, *w as u64);
                t.push(',');
                push_decimal(&mut t, *h as u64);
            },
            Size::CLWH { w, h } => {
                t.push('^');
                t.push('!');
                push_decimal(&mut t, *w as u64);
                t.push(',');
                push_decimal(&mut t, *h as u64);
            },
        }
        assert(t@ == self.spec_text());
        push_all(out, &t);
    }

    /// The canonical text of the size.
    pub fn to_string(&self) -> (r: String)
        ensures
            r@ == self.spec_text(),
    {
        let mut out: Vec<char> = Vec::new();
        self.push_text(&mut out);
        string_of(&out)
    }

    /// The largest size inside `bw` by `bh` that keeps the aspect ratio.
    fn fit_into(cw: u32, ch: u32, bw: u32, bh: u32) -> (r: (u64, u64))
        requires
            cw > 0,
            ch > 0,
        ensures
            (r.0 as int, r.1 as int) == fit(cw as int, ch as int, bw as int, bh as int),
    {
        if mul32(bw, ch) <= mul32(bh, cw) {
            (bw as u64, scale(bw, ch, cw))
        } else {
            (scale(bh, cw, ch), bh as u64)
        }
    }

    /// The dimensions to which a region of `cw` by `ch` pixels is scaled.
    ///
    /// An empty region, a size above the region without the upscale marker,
    /// a result beyond 32 bits and an empty result are refused, in this
    /// order.
    pub fn resolve(&self, cw: u32, ch: u32, limits: &SizeLimits) -> (r: Result<
        (u32, u32),
        SizeFault,
    >)
        ensures
            r == self.resolved(cw, ch, *limits),
    {
        if cw == 0 || ch == 0 {
            return Err(SizeFault::EmptyRegion);
        }
        let (tw, th): (u64, u64) = match self {
            Size::Max => {
                let w = widest(cw, cw, ch, limits);
                (w as u64, scale(w, ch, cw))
            },
            Size::CMax => {
                if limits.max_width.is_none() && limits.max_height.is_none()
                    && limits.max_area.is_none() {
                    (cw as u64, ch as u64)
                } else {
                    let w = widest(0xffff_ffff, cw, ch, limits);
                    (w as u64, scale(w, ch, cw))
                }
            },
            Size::W { w } => {
                if *w > cw {
                    return Err(SizeFault::Upscale);
                }
                (*w as u64, scale(*w, ch, cw))
            },
            Size::CW { w } => (*w as u64, scale(*w, ch, cw)),
            Size::H { h } => {
                if *h > ch {
                    return Err(SizeFault::Upscale);
                }
                (scale(*h, cw, ch), *h as u64)
            },
            Size::CH { h } => (scale(*h, cw, ch), *h as u64),
            Size::Pct { n } => {
                if *n > 100 {
                    return Err(SizeFault::Upscale);
                }
                (scale(cw, *n, 100), scale(ch, *n, 100))
            },
            Size::CPct { n } => (scale(cw, *n, 100), scale(ch, *n, 100)),
            Size::WH { w, h } => {
                if *w > cw || *h > ch {
                    return Err(SizeFault::Upscale);
                }
                (*w as u64, *h as u64)
            },
            Size::CWH { w, h } => (*w as u64, *h as u64),
            Size::LWH { w, h } => Size::fit_into(
                cw,
                ch,
                if *w <= cw { *w } else { cw },
                if *h <= ch { *h } else { ch },
            ),
            Size::CLWH { w, h } => Size::fit_into(cw, ch, *w, *h),
        };
        if tw > 0xffff_ffff || th > 0xffff_ffff {
            Err(SizeFault::TooLarge)
        } else if tw == 0 || th == 0 {
            Err(SizeFault::Empty)
        } else {
            Ok((tw as u32, th as u32))
        }
    }

    /// The bad request that names this size behind the reason of a fault.
    pub fn refused(&self, fault: SizeFault) -> (e: IiifError)
        ensures
            e.is_bad_request(fault.spec_reason(), self.spec_text()),
    {
        let text = self.to_string();
        IiifError::bad_request(fault.reason(), text.as_str())
    }

    /// Whether an image of `w` by `h` pixels, scaled from one that is
    /// `source_width` wide, can be held in memory: the scaled image takes
    /// four bytes for every pixel, and on the way to it an image of
    /// `source_width` by `h` pixels takes sixteen.
    pub open spec fn fits_memory(source_width: nat, w: u32, h: u32) -> bool {
        16 * source_width * h <= isize::MAX && 4 * w * h <= isize::MAX
    }

    /// Scales an image to the size.
    ///
    /// The dimensions are those that [`Size::resolve`] gives for the size
    /// of the image. Where they are the image's own, the image is returned
    /// as it is. A result that memory cannot hold is refused as too large.
    pub fn process(&self, image: RasterImage, limits: &SizeLimits) -> (r: Result<
        RasterImage,
        IiifError,
    >)
        ensures
            match self.resolved(image@.width as u32, image@.height as u32, *limits) {
                Err(fault) => r matches Err(e) && e.is_bad_request(
                    fault.spec_reason(),
                    self.spec_text(),
                ),
                Ok((w, h)) => if w == image@.width && h == image@.height {
                    r == Ok::<RasterImage, IiifError>(image)
                } else if !Size::fits_memory(image@.width, w, h) {
                    r matches Err(e) && e.is_bad_request(
                        SizeFault::TooLarge.spec_reason(),
                        self.spec_text(),
                    )
                } else {
                    r matches Ok(out) && out@.well_formed() && out@.width == w && out@.height == h
                },
            },
    {
        let width = image.width();
        let height = image.height();
        match self.resolve(width, height, limits) {
            Err(fault) => Err(self.refused(fault)),
            Ok((w, h)) => {
                if w == width && h == height {
                    return Ok(image);
                }
                let a = rgba_len(width, h);
                let b = rgba_len(w, h);
                assert(a <= 4 * 0xffff_ffff * 0xffff_ffff) by (nonlinear_arith)
                    requires
                        a == 4 * width * h,
                        width <= 0xffff_ffff,
                        h <= 0xffff_ffff,
                ;
                assert(4 * (4 * width * h) == 16 * width * h) by (nonlinear_arith);
                if 4 * a > isize::MAX as u128 || b > isize::MAX as u128 {
                    return Err(self.refused(SizeFault::TooLarge));
                }
                Ok(resize_image(image, w, h))
            },
        }
    }
}

impl std::str::FromStr for Size {
    type Err = IiifError;

    /// Reads a size, as [`Size::from_str`] does.
    fn from_str(s: &str) -> (r: Result<Self, Self::Err>)
        ensures
            match spec_parse_size(s@) {
                Some(size) => r == Ok::<Size, IiifError>(size),
                None => r matches Err(e) && e.is_bad_request("Invalid size format: "@, s@),
            },
    {
        Size::from_str(s)
    }
}

/// A width before a comma reads as a width.
proof fn lemma_content_w(w: u32, caret: bool)
    ensures
        spec_parse_content(decimal_text(w as nat) + seq![','], caret) == Some(
            if caret {
                Size::CW { w }
            } else {
                Size::W { w }
            },
        ),
{
    let d = decimal_text(w as nat);
    let c = d + seq![','];
    lemma_number_text(w);
    reveal_strlit("pct:");
    assert(c[0] == d[0]);
    lemma_no_prefix(c, "pct:"@);
    assert(c[c.len() - 1] == ',');
    assert(c.contains(','));
    let empty = Seq::<char>::empty();
    assert(c == d + seq![','] + empty);
    assert(!empty.contains(','));
    lemma_split_concat(d, ',', empty);
    lemma_split_single(empty, ',');
    assert(split(c, ',') == seq![d, empty]);
    assert(split(c, ',')[0] == d);
    assert(split(c, ',')[1] == empty);
    assert(spec_parse_dims(c, caret) == Some(if caret { Size::CW { w } } else { Size::W { w } }));
}

/// A height behind a comma reads as a height.
proof fn lemma_content_h(h: u32, caret: bool)
    ensures
        spec_parse_content(seq![','] + decimal_text(h as nat), caret) == Some(
            if caret {
                Size::CH { h }
            } else {
                Size::H { h }
            },
        ),
{
    let d = decimal_text(h as nat);
    let c = seq![','] + d;
    lemma_number_text(h);
    reveal_strlit("pct:");
    assert(c[0] == ',');
    lemma_no_prefix(c, "pct:"@);
    assert(c.contains(','));
    let empty = Seq::<char>::empty();
    assert(c == empty + seq![','] + d);
    assert(!empty.contains(','));
    lemma_split_concat(empty, ',', d);
    lemma_split_single(d, ',');
    assert(split(c, ',') == seq![empty, d]);
    assert(split(c, ',')[0] == empty);
    assert(split(c, ',')[1] == d);
    assert(spec_parse_dims(c, caret) == Some(if caret { Size::CH { h } } else { Size::H { h } }));
}

/// A width and a height around a comma read as both.
proof fn lemma_content_wh(w: u32, h: u32, caret: bool)
    ensures
        spec_parse_content(decimal_text(w as nat) + seq![','] + decimal_text(h as nat), caret)
            == Some(if caret {
            Size::CWH { w, h }
        } else {
            Size::WH { w, h }
        }),
{
    let dw = decimal_text(w as nat);
    let dh = decimal_text(h as nat);
    let c = dw + seq![','] + dh;
    lemma_number_text(w);
    lemma_number_text(h);
    reveal_strlit("pct:");
    assert(c[0] == dw[0]);
    lemma_no_prefix(c, "pct:"@);
    assert(c[dw.len() as int] == ',');
    assert(c.contains(','));
    lemma_split_two_numbers(w, h);
    assert(split(c, ',')[0] == dw);
    assert(split(c, ',')[1] == dh);
    assert(spec_parse_dims(c, caret) == Some(
        if caret {
            Size::CWH { w, h }
        } else {
            Size::WH { w, h }
        },
    ));
}

/// `pct:` and a number read as a percentage.
proof fn lemma_content_pct(n: u32, caret: bool)
    requires
        caret || n <= 100,
    ensures
        spec_parse_content("pct:"@ + decimal_text(n as nat), caret) == Some(
            if caret {
                Size::CPct { n }
            } else {
                Size::Pct { n }
            },
        ),
{
    let d = decimal_text(n as nat);
    let c = "pct:"@ + d;
    lemma_number_text(n);
    reveal_strlit("pct:");
    assert(c.subrange(0, 4) == "pct:"@);
    assert(c.subrange(4, c.len() as int) == d);
}

/// `!` and two numbers around a comma read as a confined size.
proof fn lemma_content_fit(w: u32, h: u32, caret: bool)
    ensures
        spec_parse_content(
            seq!['!'] + decimal_text(w as nat) + seq![','] + decimal_text(h as nat),
            caret,
        ) == Some(if caret {
            Size::CLWH { w, h }
        } else {
            Size::LWH { w, h }
        }),
{
    let dw = decimal_text(w as nat);
    let dh = decimal_text(h as nat);
    let c = seq!['!'] + dw + seq![','] + dh;
    lemma_number_text(w);
    lemma_number_text(h);
    reveal_strlit("pct:");
    assert(c[0] == '!');
    lemma_no_prefix(c, "pct:"@);
    assert(c.subrange(1, c.len() as int) == dw + seq![','] + dh);
    lemma_split_two_numbers(w, h);
    let parts = split(dw + seq![','] + dh, ',');
    assert(parts[0] == dw);
    assert(parts[1] == dh);
    assert(spec_parse_two_nums(dw + seq![','] + dh) == Some((w, h)));
}

/// A plain text that is not `max` reads as its content does, and behind
/// the upscale marker as its content with the marker set.
proof fn lemma_size_content(content: Seq<char>, caret: bool)
    requires
        all_plain(content),
        content.len() > 0,
        content[0] != '^',
        content[0] != 'm',
    ensures
        spec_parse_size(if caret { seq!['^'] + content } else { content }) == spec_parse_content(
            content,
            caret,
        ),
{
    let t = if caret { seq!['^'] + content } else { content };
    reveal_strlit("max");
    reveal_strlit("^max");
    if caret {
        assert(all_plain(seq!['^']));
        lemma_plain_concat(seq!['^'], content);
        assert(t[0] == '^');
        assert(t[1] == content[0]);
        assert(t.subrange(1, t.len() as int) == content);
    }
    lemma_plain_text(t);
}

/// The canonical text of a width reads back.
proof fn lemma_round_trip_w(w: u32, caret: bool)
    ensures
        spec_parse_size((if caret { Size::CW { w } } else { Size::W { w } }).spec_text()) == Some(
            if caret {
                Size::CW { w }
            } else {
                Size::W { w }
            },
        ),
{
    let c = decimal_text(w as nat) + seq![','];
    lemma_number_text(w);
    assert(all_plain(seq![',']));
    lemma_plain_concat(decimal_text(w as nat), seq![',']);
    assert(c[0] == decimal_text(w as nat)[0]);
    lemma_content_w(w, caret);
    lemma_size_content(c, caret);
    assert((Size::CW { w }).spec_text() == seq!['^'] + c);
}

/// The canonical text of a height reads back.
proof fn lemma_round_trip_h(h: u32, caret: bool)
    ensures
        spec_parse_size((if caret { Size::CH { h } } else { Size::H { h } }).spec_text()) == Some(
            if caret {
                Size::CH { h }
            } else {
                Size::H { h }
            },
        ),
{
    let c = seq![','] + decimal_text(h as nat);
    lemma_number_text(h);
    assert(all_plain(seq![',']));
    lemma_plain_concat(seq![','], decimal_text(h as nat));
    assert(c[0] == ',');
    lemma_content_h(h, caret);
    lemma_size_content(c, caret);
    assert((Size::CH { h }).spec_text() == seq!['^'] + c);
}

/// The canonical text of a percentage reads back.
proof fn lemma_round_trip_pct(n: u32, caret: bool)
    requires
        caret || n <= 100,
    ensures
        spec_parse_size((if caret { Size::CPct { n } } else { Size::Pct { n } }).spec_text())
            == Some(if caret {
            Size::CPct { n }
        } else {
            Size::Pct { n }
        }),
{
    let c = "pct:"@ + decimal_text(n as nat);
    lemma_number_text(n);
    reveal_strlit("pct:");
    assert(all_plain("pct:"@));
    lemma_plain_concat("pct:"@, decimal_text(n as nat));
    assert(c[0] == 'p');
    lemma_content_pct(n, caret);
    lemma_size_content(c, caret);
    assert((Size::CPct { n }).spec_text() == seq!['^'] + c);
}

/// The canonical text of a width and a height reads back.
proof fn lemma_round_trip_wh(w: u32, h: u32, caret: bool)
    ensures
        spec_parse_size((if caret { Size::CWH { w, h } } else { Size::WH { w, h } }).spec_text())
            == Some(if caret {
            Size::CWH { w, h }
        } else {
            Size::WH { w, h }
        }),
{
    let c = decimal_text(w as nat) + seq![','] + decimal_text(h as nat);
    lemma_number_text(w);
    lemma_number_text(h);
    assert(all_plain(seq![',']));
    lemma_plain_concat(decimal_text(w as nat), seq![',']);
    lemma_plain_concat(decimal_text(w as nat) + seq![','], decimal_text(h as nat));
    assert(c[0] == decimal_text(w as nat)[0]);
    lemma_content_wh(w, h, caret);
    lemma_size_content(c, caret);
    assert((Size::CWH { w, h }).spec_text() == seq!['^'] + c);
}

/// The canonical text of a confined size reads back.
proof fn lemma_round_trip_fit(w: u32, h: u32, caret: bool)
    ensures
        spec_parse_size((if caret { Size::CLWH { w, h } } else { Size::LWH { w, h } }).spec_text())
            == Some(if caret {
            Size::CLWH { w, h }
        } else {
            Size::LWH { w, h }
        }),
{
    let c = seq!['!'] + decimal_text(w as nat) + seq![','] + decimal_text(h as nat);
    lemma_number_text(w);
    lemma_number_text(h);
    assert(all_plain(seq![',']));
    assert(all_plain(seq!['!']));
    lemma_plain_concat(seq!['!'], decimal_text(w as nat));
    lemma_plain_concat(seq!['!'] + decimal_text(w as nat), seq![',']);
    lemma_plain_concat(seq!['!'] + decimal_text(w as nat) + seq![','], decimal_text(h as nat));
    assert(c[0] == '!');
    lemma_content_fit(w, h, caret);
    lemma_size_content(c, caret);
    assert((Size::CLWH { w, h }).spec_text() == seq!['^'] + c);
}

/// The canonical text of a size reads back as the size.
pub proof fn lemma_size_round_trip(size: Size)
    requires
        size.wf(),
    ensures
        spec_parse_size(size.spec_text()) == Some(size),
{
    match size {
        Size::Max => {
            reveal_strlit("max");
            assert(all_plain("max"@));
            lemma_plain_text("max"@);
        },
        Size::CMax => {
            reveal_strlit("max");
            reveal_strlit("^max");
            assert(all_plain("^max"@));
            lemma_plain_text("^max"@);
        },
        Size::W { w } => lemma_round_trip_w(w, false),
        Size::CW { w } => lemma_round_trip_w(w, true),
        Size::H { h } => lemma_round_trip_h(h, false),
        Size::CH { h } => lemma_round_trip_h(h, true),
        Size::Pct { n } => lemma_round_trip_pct(n, false),
        Size::CPct { n } => lemma_round_trip_pct(n, true),
        Size::WH { w, h } => lemma_round_trip_wh(w, h, false),
        Size::CWH { w, h } => lemma_round_trip_wh(w, h, true),
        Size::LWH { w, h } => lemma_round_trip_fit(w, h, false),
        Size::CLWH { w, h } => lemma_round_trip_fit(w, h, true),
    }
}

/// Whatever a text reads as, the canonical text of that size reads as the
/// same size.
pub proof fn lemma_size_parse_round_trip(s: Seq<char>)
    requires
        spec_parse_size(s) is Some,
    ensures
        spec_parse_size(spec_parse_size(s)->0.spec_text()) == spec_parse_size(s),
{
    let size = spec_parse_size(s)->0;
    assert(size.wf());
    lemma_size_round_trip(size);
}

/// The canonical text of a size holds no slash.
pub proof fn lemma_size_text_has_no_slash(size: Size)
    ensures
        !size.spec_text().contains('/'),
{
    reveal_strlit("max");
    reveal_strlit("^max");
    reveal_strlit("pct:");
    let t = size.spec_text();
    let comma = seq![','];
    assert(!comma.contains('/'));
    assert(!seq!['^'].contains('/'));
    assert(!seq!['!'].contains('/'));
    assert(!seq!['^', ','].contains('/'));
    assert(!seq!['^', '!'].contains('/'));
    assert(!"pct:"@.contains('/'));
    match size {
        Size::Max => {},
        Size::CMax => {},
        Size::W { w } => {
            lemma_number_slash(w);
            lemma_concat_lacks(decimal_text(w as nat), comma, '/');
        },
        Size::CW { w } => {
            lemma_number_slash(w);
            lemma_concat_lacks(seq!['^'], decimal_text(w as nat), '/');
            lemma_concat_lacks(seq!['^'] + decimal_text(w as nat), comma, '/');
        },
        Size::H { h } => {
            lemma_number_slash(h);
            lemma_concat_lacks(comma, decimal_text(h as nat), '/');
        },
        Size::CH { h } => {
            lemma_number_slash(h);
            lemma_concat_lacks(seq!['^', ','], decimal_text(h as nat), '/');
        },
        Size::Pct { n } => {
            lemma_number_slash(n);
            lemma_concat_lacks("pct:"@, decimal_text(n as nat), '/');
        },
        Size::CPct { n } => {
            lemma_number_slash(n);
            lemma_concat_lacks(seq!['^'], "pct:"@, '/');
            lemma_concat_lacks(seq!['^'] + "pct:"@, decimal_text(n as nat), '/');
        },
        Size::WH { w, h } => {
            lemma_number_slash(w);
            lemma_number_slash(h);
            lemma_concat_lacks(decimal_text(w as nat), comma, '/');
            lemma_concat_lacks(decimal_text(w as nat) + comma, decimal_text(h as nat), '/');
        },
        Size::CWH { w, h } => {
            lemma_number_slash(w);
            lemma_number_slash(h);
            lemma_concat_lacks(seq!['^'], decimal_text(w as nat), '/');
            lemma_concat_lacks(seq!['^'] + decimal_text(w as nat), comma, '/');
            lemma_concat_lacks(
                seq!['^'] + decimal_text(w as nat) + comma,
                decimal_text(h as nat),
                '/',
            );
        },
        Size::LWH { w, h } => {
            lemma_number_slash(w);
            lemma_number_slash(h);
            lemma_concat_lacks(seq!['!'], decimal_text(w as nat), '/');
            lemma_concat_lacks(seq!['!'] + decimal_text(w as nat), comma, '/');
            lemma_concat_lacks(
                seq!['!'] + decimal_text(w as nat) + comma,
                decimal_text(h as nat),
                '/',
            );
        },
        Size::CLWH { w, h } => {
            lemma_number_slash(w);
            lemma_number_slash(h);
            lemma_concat_lacks(seq!['^', '!'], decimal_text(w as nat), '/');
            lemma_concat_lacks(seq!['^', '!'] + decimal_text(w as nat), comma, '/');
            lemma_concat_lacks(
                seq!['^', '!'] + decimal_text(w as nat) + comma,
                decimal_text(h as nat),
                '/',
            );
        },
    }
}

/// The digits of a number hold no slash.
proof fn lemma_number_slash(n: u32)
    ensures
        !decimal_text(n as nat).contains('/'),
{
    lemma_number_text(n);
    crate::text::lemma_digits_plain(decimal_text(n as nat));
}

/// Scaling a length by a ratio of at most one does not make it longer:
/// `round(len * num / den) <= bound` where `len * num <= bound * den`.
pub proof fn lemma_scaled_bound(len: int, num: int, den: int, bound: int)
    requires
        0 <= len,
        0 <= num,
        0 < den,
        0 <= bound,
        len * num <= bound * den,
    ensures
        0 <= scaled(len, num, den) <= bound,
{
    let n = len * num;
    assert(0 <= n) by (nonlinear_arith)
        requires
            0 <= len,
            0 <= num,
            n == len * num,
    ;
    lemma_div_is_ordered(0, 2 * n + den, 2 * den);
    lemma_div_is_ordered(2 * n + den, 2 * (bound * den) + den, 2 * den);
    assert((2 * (bound * den) + den) / (2 * den) == bound) by (nonlinear_arith)
        requires
            0 < den,
            0 <= bound,
    ;
}

/// The confined fit lies inside its box and touches it on one side: no
/// larger size of the same aspect ratio lies inside the box.
pub proof fn lemma_fit_is_confined(cw: int, ch: int, bw: int, bh: int)
    requires
        0 < cw,
        0 < ch,
        0 <= bw,
        0 <= bh,
    ensures
        0 <= fit(cw, ch, bw, bh).0 <= bw,
        0 <= fit(cw, ch, bw, bh).1 <= bh,
        fit(cw, ch, bw, bh).0 == bw || fit(cw, ch, bw, bh).1 == bh,
{
    if bw * ch <= bh * cw {
        lemma_scaled_bound(bw, ch, cw, bh);
    } else {
        lemma_scaled_bound(bh, cw, ch, bw);
    }
}

/// The largest allowed width up to a cap is at most the cap, and is
/// allowed unless it is 0.
pub proof fn lemma_largest_width_bounds(cap: int, cw: u32, ch: u32, limits: SizeLimits)
    requires
        0 <= cap,
    ensures
        0 <= largest_width(cap, cw, ch, limits) <= cap,
        largest_width(cap, cw, ch, limits) > 0 ==> width_allowed(
            largest_width(cap, cw, ch, limits),
            cw,
            ch,
            limits,
        ),
        forall|w: int|
            largest_width(cap, cw, ch, limits) < w <= cap ==> !width_allowed(w, cw, ch, limits),
    decreases cap,
{
    if cap > 0 && !width_allowed(cap, cw, ch, limits) {
        lemma_largest_width_bounds(cap - 1, cw, ch, limits);
    }
}

/// A size without the upscale marker never comes to more than the region:
/// neither its width nor its height exceeds that of the region.
pub proof fn lemma_no_upscale(size: Size, cw: u32, ch: u32, limits: SizeLimits)
    requires
        size is Max || size is W || size is H || size is Pct || size is WH || size is LWH,
        size.resolved(cw, ch, limits) is Ok,
    ensures
        size.resolved(cw, ch, limits)->Ok_0.0 <= cw,
        size.resolved(cw, ch, limits)->Ok_0.1 <= ch,
{
    match size {
        Size::Max => {
            lemma_largest_width_bounds(cw as int, cw, ch, limits);
            let w = largest_width(cw as int, cw, ch, limits);
            assert(w * ch <= ch * cw) by (nonlinear_arith)
                requires
                    0 <= w <= cw,
                    0 <= ch,
            ;
            lemma_scaled_bound(w, ch as int, cw as int, ch as int);
        },
        Size::W { w } => {
            assert(w * ch <= ch * cw) by (nonlinear_arith)
                requires
                    0 <= w <= cw,
                    0 <= ch,
            ;
            lemma_scaled_bound(w as int, ch as int, cw as int, ch as int);
        },
        Size::H { h } => {
            assert(h * cw <= cw * ch) by (nonlinear_arith)
                requires
                    0 <= h <= ch,
                    0 <= cw,
            ;
            lemma_scaled_bound(h as int, cw as int, ch as int, cw as int);
        },
        Size::Pct { n } => {
            assert(cw * n <= cw * 100) by (nonlinear_arith)
                requires
                    0 <= n <= 100,
                    0 <= cw,
            ;
            assert(ch * n <= ch * 100) by (nonlinear_arith)
                requires
                    0 <= n <= 100,
                    0 <= ch,
            ;
            lemma_scaled_bound(cw as int, n as int, 100, cw as int);
            lemma_scaled_bound(ch as int, n as int, 100, ch as int);
        },
        Size::WH { w, h } => {},
        Size::LWH { w, h } => {
            lemma_fit_is_confined(
                cw as int,
                ch as int,
                if w <= cw { w as int } else { cw as int },
                if h <= ch { h as int } else { ch as int },
            );
        },
        _ => {},
    }
}

/// Without limits, `max` returns the region at its own size.
pub proof fn lemma_max_is_natural(cw: u32, ch: u32)
    requires
        cw > 0,
        ch > 0,
    ensures
        Size::Max.resolved(cw, ch, SizeLimits { max_width: None, max_height: None, max_area: None })
            == Ok::<(u32, u32), SizeFault>((cw, ch)),
{
    let limits = SizeLimits { max_width: None, max_height: None, max_area: None };
    assert(cw * ch <= ch * cw) by (nonlinear_arith);
    lemma_scaled_bound(cw as int, ch as int, cw as int, ch as int);
    assert(scaled(cw as int, ch as int, cw as int) == ch) by {
        assert((2 * (cw * ch) + cw) / (2 * cw) == ch) by (nonlinear_arith)
            requires
                cw > 0,
                ch >= 0,
        ;
    }
    assert(width_allowed(cw as int, cw, ch, limits));
}

impl Size {
    /// Whether the size carries the upscale marker.
    pub open spec fn is_marked(self) -> bool {
        self is CMax || self is CW || self is CH || self is CPct || self is CWH || self is CLWH
    }

    /// The same size with the upscale marker.
    pub open spec fn marked(self) -> Size {
        match self {
            Size::Max => Size::CMax,
            Size::W { w } => Size::CW { w },
            Size::H { h } => Size::CH { h },
            Size::Pct { n } => Size::CPct { n },
            Size::WH { w, h } => Size::CWH { w, h },
            Size::LWH { w, h } => Size::CLWH { w, h },
            _ => self,
        }
    }
}

/// The canonical text of a size begins with the upscale marker exactly
/// where the size carries it.
pub proof fn lemma_size_text_marker(size: Size)
    ensures
        size.spec_text().len() > 0,
        size.spec_text()[0] == '^' <==> size.is_marked(),
{
    reveal_strlit("max");
    reveal_strlit("^max");
    reveal_strlit("pct:");
    let t = size.spec_text();
    match size {
        Size::W { w } | Size::CW { w } => {
            lemma_number_text(w);
            assert(t[0] == if size is CW { '^' } else { decimal_text(w as nat)[0] });
        },
        Size::H { h } | Size::CH { h } => {
            lemma_number_text(h);
        },
        Size::Pct { n } | Size::CPct { n } => {
            lemma_number_text(n);
            assert(t[0] == if size is CPct { '^' } else { 'p' });
        },
        Size::WH { w, h } | Size::CWH { w, h } => {
            lemma_number_text(w);
            assert(t[0] == if size is CWH { '^' } else { decimal_text(w as nat)[0] });
        },
        Size::LWH { w, h } | Size::CLWH { w, h } => {
            lemma_number_text(w);
            assert(t[0] == if size is CLWH { '^' } else { '!' });
        },
        _ => {},
    }
}

/// The canonical text of a size with the upscale marker is the marker and
/// the text of the size without it.
pub proof fn lemma_marked_text(size: Size)
    requires
        !size.is_marked(),
    ensures
        size.marked().spec_text() == seq!['^'] + size.spec_text(),
{
    reveal_strlit("max");
    reveal_strlit("^max");
    let marked = size.marked().spec_text();
    let plain = seq!['^'] + size.spec_text();
    assert(marked =~= plain);
}

/// Two sizes with the same canonical text are the same size.
pub proof fn lemma_size_text_injective(a: Size, b: Size)
    requires
        a.spec_text() == b.spec_text(),
    ensures
        a == b,
{
    lemma_size_text_marker(a);
    lemma_size_text_marker(b);
    if a.is_marked() {
        lemma_size_round_trip(a);
        lemma_size_round_trip(b);
    } else {
        lemma_marked_text(a);
        lemma_marked_text(b);
        lemma_size_round_trip(a.marked());
        lemma_size_round_trip(b.marked());
    }
}

} // verus!
