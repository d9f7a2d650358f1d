//! The rotation of a request: an optional mirroring and a clockwise turn.
use crate::decimal::{
    lemma_decimal_chars, lemma_decimal_round_trip, lemma_parse_decimal_wf, spec_parse_decimal,
    Decimal,
};
use crate::error::IiifError;
use crate::raster::{
    flip_image, rotate180_image, rotate270_image, rotate90_image, Raster, RasterImage,
};
use crate::text::{chars_of, string_of, subvec};
use vstd::prelude::*;
use vstd::string::StringExecFns;

verus! {

/// The rotation of the returned image, in degrees clockwise.
#[derive(Debug, PartialEq, Eq, Clone, Copy)]
pub enum Rotation {
    /// `n`: a turn by `n` degrees.
    Degrees(Decimal),
    /// `!n`: the image is mirrored left to right and then turned by `n`
    /// degrees.
    MirrorDegrees(Decimal),
}

/// How a rotation is carried out.
#[derive(Debug, PartialEq, Eq, Clone, Copy)]
pub enum Turn {
    /// Nothing moves: 0 or 360 degrees.
    Stay,
    /// 90 degrees: an exact exchange of rows and columns.
    Quarter,
    /// 180 degrees.
    Half,
    /// 270 degrees.
    ThreeQuarters,
    /// Any other angle: the image is resampled on a larger canvas.
    Free,
}

/// What the rotation stage hands on.
#[derive(Debug)]
pub enum Rotated {
    /// The rotated image.
    Done(RasterImage),
    /// The image, already mirrored where the rotation asks for it, which
    /// still has to be turned by an angle that is no multiple of 90.
    Pending { image: RasterImage, degrees: Decimal },
}

/// The rotation that a text writes: an optional `!` and a decimal number,
/// written with digits and a decimal point and without an exponent; `None`
/// for any other text.
pub open spec fn spec_parse_rotation(s: Seq<char>) -> Option<Rotation> {
    if s.len() > 0 && s[0] == '!' {
        match spec_parse_decimal(s.subrange(1, s.len() as int)) {
            Some(d) => Some(Rotation::MirrorDegrees(d)),
            None => None,
        }
    } else {
        match spec_parse_decimal(s) {
            Some(d) => Some(Rotation::Degrees(d)),
            None => None,
        }
    }
}

/// Whether `out` is `src`, mirrored first where `mirror` is set.
pub open spec fn is_mirrored(out: Raster, src: Raster, mirror: bool) -> bool {
    if mirror {
        out.is_mirror_of(src)
    } else {
        out == src
    }
}

/// Whether `out` is `src` turned by a multiple of 90 degrees.
pub open spec fn is_turned(out: Raster, src: Raster, turn: Turn) -> bool {
    match turn {
        Turn::Stay => out == src,
        Turn::Quarter => out.is_quarter_turn_of(src),
        Turn::Half => out.is_half_turn_of(src),
        Turn::ThreeQuarters => out.is_three_quarter_turn_of(src),
        Turn::Free => false,
    }
}

/// Whether `out` is `src`, mirrored where `mirror` is set and then turned.
pub open spec fn is_rotated(out: Raster, src: Raster, mirror: bool, turn: Turn) -> bool {
    exists|mid: Raster| #[trigger] is_mirrored(mid, src, mirror) && is_turned(out, mid, turn)
}

impl Rotation {
    /// The angle is a well-formed number.
    pub open spec fn wf(&self) -> bool {
        self.degrees().wf()
    }

    /// The angle of the rotation.
    pub open spec fn degrees(&self) -> Decimal {
        match self {
            Rotation::Degrees(d) => *d,
            Rotation::MirrorDegrees(d) => *d,
        }
    }

    /// Whether the image is mirrored before it is turned.
    pub open spec fn is_mirror(&self) -> bool {
        self is MirrorDegrees
    }

    /// Whether the angle lies from 0 to 360 degrees.
    pub open spec fn in_range(&self) -> bool {
        0 <= self.degrees().billionths() <= 360_000_000_000
    }

    /// How an angle from 0 to 360 degrees is carried out.
    pub open spec fn turn(&self) -> Turn {
        let b = self.degrees().billionths();
        if b == 0 || b == 360_000_000_000 {
            Turn::Stay
        } else if b == 90_000_000_000 {
            Turn::Quarter
        } else if b == 180_000_000_000 {
            Turn::Half
        } else if b == 270_000_000_000 {
            Turn::ThreeQuarters
        } else {
            Turn::Free
        }
    }

    /// The canonical text of the rotation.
    pub open spec fn spec_text(&self) -> Seq<char> {
        match self {
            Rotation::Degrees(d) => d.spec_text(),
            Rotation::MirrorDegrees(d) => seq!['!'] + d.spec_text(),
        }
    }

    /// Reads a rotation. The angle is not held against any range here.
    pub fn from_str(s: &str) -> (r: Result<Rotation, IiifError>)
        ensures
            match spec_parse_rotation(s@) {
                Some(rotation) => r == Ok::<Rotation, IiifError>(rotation) && rotation.wf(),
                None => r matches Err(e) && e.is_bad_request("Invalid rotation"@, ""@),
            },
    {
        let v = chars_of(s);
        let parsed = if v.len() > 0 && v[0] == '!' {
            let rest = subvec(&v, 1, v.len());
            match Decimal::parse(&rest) {
                Some(d) => Some(Rotation::MirrorDegrees(d)),
                None => None,
            }
        } else {
            match Decimal::parse(&v) {
                Some(d) => Some(Rotation::Degrees(d)),
                None => None,
            }
        };
        match parsed {
            Some(rotation) => Ok(rotation),
            None => Err(IiifError::bad_request("Invalid rotation", "")),
        }
    }

    /// Appends the canonical text of the rotation.
    pub fn push_text(&self, out: &mut Vec<char>)
        ensures
            final(out)@ == old(out)@ + self.spec_text(),
    {
        let mut t: Vec<char> = Vec::new();
        match self {
            Rotation::Degrees(d) => {
                d.push_text(&mut t);
            },
            Rotation::MirrorDegrees(d) => {
                t.push('!');
                d.push_text(&mut t);
            },
        }
        crate::text::push_all(out, &t);
    }

    /// The canonical text of the rotation.
    pub fn to_string(&self) -> (r: String)
        ensures
            r@ == self.spec_text(),
    {
        let mut out: Vec<char> = Vec::new();
        self.push_text(&mut out);
        string_of(&out)
    }

    /// Whether the image is mirrored, and how it is then turned: a bad
    /// request where the angle lies outside 0 to 360 degrees.
    pub fn plan(&self) -> (r: Result<(bool, Turn), IiifError>)
        ensures
            if self.in_range() {
                r == Ok::<(bool, Turn), IiifError>((self.is_mirror(), self.turn()))
            } else {
                r matches Err(e) && e.is_bad_request("Rotation angle is out of range"@, ""@)
            },
    {
        let (mirror, b): (bool, i128) = match self {
            Rotation::Degrees(d) => (false, d.signed_billionths()),
            Rotation::MirrorDegrees(d) => (true, d.signed_billionths()),
        };
        if b < 0 || b > 360_000_000_000 {
            return Err(IiifError::bad_request("Rotation angle is out of range", ""));
        }
        let turn = if b == 0 || b == 360_000_000_000 {
            Turn::Stay
        } else if b == 90_000_000_000 {
            Turn::Quarter
        } else if b == 180_000_000_000 {
            Turn::Half
        } else if b == 270_000_000_000 {
            Turn::ThreeQuarters
        } else {
            Turn::Free
        };
        Ok((mirror, turn))
    }

    /// Rotates an image.
    ///
    /// An angle outside 0 to 360 degrees is a bad request. The image is
    /// mirrored where the rotation asks for it. A multiple of 90 degrees is
    /// then carried out exactly: no pixel changes its value, and width and
    /// height change places for 90 and 270 degrees. For any other angle the
    /// image is handed back with the angle by which it still has to be
    /// turned.
    pub fn process(&self, image: RasterImage) -> (r: Result<Rotated, IiifError>)
        ensures
            if !self.in_range() {
                r matches Err(e) && e.is_bad_request("Rotation angle is out of range"@, ""@)
            } else if self.turn() == Turn::Free {
                r matches Ok(Rotated::Pending { image: out, degrees }) && degrees == self.degrees()
                    && is_mirrored(out@, image@, self.is_mirror())
            } else {
                r matches Ok(Rotated::Done(out)) && is_rotated(
                    out@,
                    image@,
                    self.is_mirror(),
                    self.turn(),
                )
            },
    {
        let (mirror, turn) = self.plan()?;
        let degrees = match self {
            Rotation::Degrees(d) => *d,
            Rotation::MirrorDegrees(d) => *d,
        };
        let ghost src = image@;
        let mid = if mirror { flip_image(image) } else { image };
        assert(is_mirrored(mid@, src, mirror));
        let ghost m = mid@;
        match turn {
            Turn::Stay => Ok(Rotated::Done(mid)),
            Turn::Quarter => {
                let out = rotate90_image(mid);
                assert(is_turned(out@, m, turn));
                Ok(Rotated::Done(out))
            },
            Turn::Half => {
                let out = rotate180_image(mid);
                assert(is_turned(out@, m, turn));
                Ok(Rotated::Done(out))
            },
            Turn::ThreeQuarters => {
                let out = rotate270_image(mid);
                assert(is_turned(out@, m, turn));
                Ok(Rotated::Done(out))
            },
            Turn::Free => Ok(Rotated::Pending { image: mid, degrees }),
        }
    }
}

impl std::str::FromStr for Rotation {
    type Err = IiifError;

    /// Reads a rotation, as [`Rotation::from_str`] does.
    fn from_str(s: &str) -> (r: Result<Self, Self::Err>)
        ensures
            match spec_parse_rotation(s@) {
                Some(rotation) => r == Ok::<Rotation, IiifError>(rotation) && rotation.wf(),
                None => r matches Err(e) && e.is_bad_request("Invalid rotation"@, ""@),
            },
    {
        Rotation::from_str(s)
    }
}

/// A rotation by a multiple of 90 degrees keeps every pixel as it is and
/// the size of the image, but for a quarter turn and three quarter turns,
/// where width and height change places.
pub proof fn lemma_rotated_size(out: Raster, src: Raster, mirror: bool, turn: Turn)
    requires
        is_rotated(out, src, mirror, turn),
    ensures
        turn != Turn::Free,
        turn == Turn::Quarter || turn == Turn::ThreeQuarters ==> out.width == src.height
            && out.height == src.width,
        turn == Turn::Stay || turn == Turn::Half ==> out.width == src.width && out.height
            == src.height,
        turn == Turn::Stay && !mirror ==> out == src,
{
}

/// The canonical text of a rotation reads back as the rotation.
pub proof fn lemma_rotation_round_trip(rotation: Rotation)
    requires
        rotation.wf(),
    ensures
        spec_parse_rotation(rotation.spec_text()) == Some(rotation),
{
    let d = rotation.degrees();
    lemma_decimal_chars(d);
    lemma_decimal_round_trip(d);
    match rotation {
        Rotation::Degrees(_) => {
            assert(rotation.spec_text()[0] != '!');
        },
        Rotation::MirrorDegrees(_) => {
            let s = rotation.spec_text();
            assert(s[0] == '!');
            assert(s.subrange(1, s.len() as int) == d.spec_text());
        },
    }
}

/// Whatever a text reads as, the canonical text of that rotation reads as
/// the same rotation.
pub proof fn lemma_rotation_parse_round_trip(s: Seq<char>)
    requires
        spec_parse_rotation(s) is Some,
    ensures
        spec_parse_rotation(spec_parse_rotation(s)->0.spec_text()) == spec_parse_rotation(s),
{
    if s.len() > 0 && s[0] == '!' {
        lemma_parse_decimal_wf(s.subrange(1, s.len() as int));
    } else {
        lemma_parse_decimal_wf(s);
    }
    lemma_rotation_round_trip(spec_parse_rotation(s)->0);
}

} // verus!
