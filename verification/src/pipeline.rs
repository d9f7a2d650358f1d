//! How a request is carried out: the geometry that it comes to on a source
//! of given size, the stages region, size, rotation and quality in this
//! order, the encoding, and the steps between which the host of the library
//! does what the library cannot do itself.
use crate::decimal::Decimal;
use crate::error::IiifError;
use crate::format::Format;
use crate::raster::{decode_image, image_error_text, Raster, RasterImage};
use crate::request::{Fault, IiifImage};
use crate::result::ProcessResult;
use crate::rotation::{is_mirrored, is_rotated, Rotated, Turn};
use crate::size::{Size, SizeFault, SizeLimits};
use vstd::prelude::*;
use vstd::string::StringExecFns;

verus! {

/// The geometry of a request on a source image of given size.
#[derive(Debug, PartialEq, Eq, Clone, Copy)]
pub struct Plan {
    /// The box `(x, y, w, h)` that the region selects.
    pub region: (u32, u32, u32, u32),
    /// The width and height of the part of that box that lies in the image.
    pub crop: (u32, u32),
    /// The width and height to which the crop is scaled.
    pub size: (u32, u32),
    /// Whether the image is mirrored before it is turned.
    pub mirror: bool,
    /// How the image is turned.
    pub turn: Turn,
}

/// What the host of the library reports to it.
#[derive(Debug)]
pub enum Event {
    /// A request has come in.
    Start,
    /// The storage holds the derivative: its bytes.
    Cached(Vec<u8>),
    /// The storage does not hold the derivative.
    CacheMiss,
    /// The bytes of the source image.
    Origin(Vec<u8>),
    /// The identifier names no source image; the storage's message.
    OriginMissing(String),
    /// The image, turned by the angle that was asked for.
    Turned(RasterImage),
    /// The derivative has been stored; the result that was handed out.
    Stored(ProcessResult),
    /// The derivative could not be stored; the storage's message.
    StoreFailed(String),
}

/// What the library asks its host to do next.
#[derive(Debug)]
pub enum Action {
    /// Look the derivative up under this key.
    Lookup { key: String },
    /// Fetch the source image of this identifier.
    Fetch { identifier: String },
    /// Turn the image clockwise by this angle about its centre, on a canvas
    /// that holds all of it.
    Turn { image: RasterImage, degrees: Decimal },
    /// Store the derivative under this key.
    Store { key: String, result: ProcessResult },
    /// Answer the request with this result.
    Return(ProcessResult),
    /// Answer the request with this error.
    Fail(IiifError),
}

/// The width or height that a crop of `len` pixels at `at` keeps of an
/// image that is `dim` pixels wide or high.
pub open spec fn cut(dim: u32, at: u32, len: u32) -> u32 {
    let start = if at <= dim { at } else { dim };
    if len <= dim - start {
        len
    } else {
        (dim - start) as u32
    }
}

impl Plan {
    /// The width and height of the result, where the turn is a multiple of
    /// 90 degrees.
    pub open spec fn output(self) -> (u32, u32) {
        match self.turn {
            Turn::Quarter | Turn::ThreeQuarters => (self.size.1, self.size.0),
            _ => self.size,
        }
    }
}

impl IiifImage {
    /// The geometry of the request on a source image of the given size, or
    /// the first fault in the order region, size, rotation.
    pub open spec fn planned(&self, width: u32, height: u32, limits: SizeLimits) -> Result<
        Plan,
        Fault,
    > {
        let b = self.region.boxed(width, height);
        let crop = (cut(width, b.0, b.2), cut(height, b.1, b.3));
        if self.region.is_degenerate() {
            Err(
                Fault {
                    invalid_url: false,
                    reason: "Width or height is 0: "@,
                    value: self.region.spec_text(),
                },
            )
        } else if self.region.is_outside(width, height) {
            Err(
                Fault {
                    invalid_url: false,
                    reason: "X or Y is out of bounds: "@,
                    value: self.region.spec_text(),
                },
            )
        } else {
            match self.size.resolved(crop.0, crop.1, limits) {
                Err(fault) => Err(
                    Fault {
                        invalid_url: false,
                        reason: fault.spec_reason(),
                        value: self.size.spec_text(),
                    },
                ),
                Ok(size) => if !self.rotation.in_range() {
                    Err(
                        Fault {
                            invalid_url: false,
                            reason: "Rotation angle is out of range"@,
                            value: ""@,
                        },
                    )
                } else {
                    Ok(
                        Plan {
                            region: b,
                            crop,
                            size,
                            mirror: self.rotation.is_mirror(),
                            turn: self.rotation.turn(),
                        },
                    )
                },
            }
        }
    }

    /// The geometry of the request on a source image of the given size.
    pub fn plan(&self, width: u32, height: u32, limits: &SizeLimits) -> (r: Result<
        Plan,
        IiifError,
    >)
        ensures
            match self.planned(width, height, *limits) {
                Ok(plan) => r == Ok::<Plan, IiifError>(plan),
                Err(fault) => r matches Err(e) && fault.is_reported_by(e),
            },
    {
        let b = self.region.get_region(width, height)?;
        let x: u32 = if b.0 <= width { b.0 } else { width };
        let y: u32 = if b.1 <= height { b.1 } else { height };
        let cw: u32 = if b.2 <= width - x { b.2 } else { width - x };
        let ch: u32 = if b.3 <= height - y { b.3 } else { height - y };
        let size = match self.size.resolve(cw, ch, limits) {
            Ok(size) => size,
            Err(fault) => {
                return Err(self.size.refused(fault));
            },
        };
        let (mirror, turn) = self.rotation.plan()?;
        Ok(Plan { region: b, crop: (cw, ch), size, mirror, turn })
    }

    /// Whether `r` is what the three geometric stages make of `src` under a
    /// plan: the crop of the region, scaled to the size, mirrored and
    /// turned. A scaled image that memory cannot hold is refused. An angle
    /// that is no multiple of 90 degrees leaves the image pending.
    pub open spec fn transformed_as(
        &self,
        plan: Plan,
        src: Raster,
        r: Result<Rotated, IiifError>,
    ) -> bool {
        if plan.size != plan.crop && !Size::fits_memory(
            plan.crop.0 as nat,
            plan.size.0,
            plan.size.1,
        ) {
            r matches Err(e) && e.is_bad_request(
                SizeFault::TooLarge.spec_reason(),
                self.size.spec_text(),
            )
        } else {
            exists|cropped: Raster, sized: Raster|
                {
                    &&& #[trigger] cropped.is_crop_of(
                        src,
                        plan.region.0 as nat,
                        plan.region.1 as nat,
                        plan.region.2 as nat,
                        plan.region.3 as nat,
                    )
                    &&& #[trigger] sized.well_formed()
                    &&& sized.width == plan.size.0
                    &&& sized.height == plan.size.1
                    &&& plan.size == plan.crop ==> sized == cropped
                    &&& match plan.turn {
                        Turn::Free => r matches Ok(Rotated::Pending { image: out, degrees })
                            && degrees == self.rotation.degrees() && is_mirrored(
                            out@,
                            sized,
                            plan.mirror,
                        ),
                        _ => r matches Ok(Rotated::Done(out)) && is_rotated(
                            out@,
                            sized,
                            plan.mirror,
                            plan.turn,
                        ),
                    }
                }
        }
    }

    /// Carries out the stages region, size and rotation, in this order.
    ///
    /// The geometry of all three is settled first, so that a request with a
    /// fault in any of them fails before a pixel is touched; nothing of an
    /// image is returned then.
    pub fn transform(&self, image: RasterImage, limits: &SizeLimits) -> (r: Result<
        Rotated,
        IiifError,
    >)
        ensures
            match self.planned(image@.width as u32, image@.height as u32, *limits) {
                Ok(plan) => self.transformed_as(plan, image@, r),
                Err(fault) => r matches Err(e) && fault.is_reported_by(e),
            },
    {
        let ghost src = image@;
        let width = image.width();
        let height = image.height();
        let plan = self.plan(width, height, limits)?;
        let ghost b = plan.region;
        let cropped = self.region.process(image)?;
        let ghost c = cropped@;
        let cw = cropped.width();
        let ch = cropped.height();
        assert(c.is_crop_of(src, b.0 as nat, b.1 as nat, b.2 as nat, b.3 as nat));
        assert(cw == plan.crop.0 && ch == plan.crop.1);
        let sized = self.size.process(cropped, limits)?;
        let ghost s = sized@;
        let _ = sized.width();
        assert(s.well_formed());
        assert(plan.size == plan.crop ==> s == c);
        let r = self.rotation.process(sized);
        assert(self.transformed_as(plan, src, r));
        r
    }

    /// Whether `r` is what quality and format make of `src`: the encoding of
    /// the image that the quality gives, under the content type of the
    /// format.
    pub open spec fn finished_as(&self, src: Raster, r: Result<ProcessResult, IiifError>) -> bool {
        match self.format {
            Format::Jp2 => r matches Err(e) && e is NotImplemented,
            _ => if src.width == 0 || src.height == 0 {
                r matches Err(e) && e is InternalServerError && e.detail()
                    == "Cannot encode an empty image"@
            } else {
                match r {
                    Ok(result) => self.format.encoding(self.quality.applied(src)) == Some(
                        result.data@,
                    ) && result.content_type@ == self.format.spec_content_type(),
                    Err(e) => self.format.encoding(self.quality.applied(src)) is None && e
                        is InternalServerError,
                }
            },
        }
    }

    /// Carries out the stage quality and encodes the image.
    pub fn finish(&self, image: RasterImage) -> (r: Result<ProcessResult, IiifError>)
        ensures
            self.finished_as(image@, r),
    {
        let image = self.quality.process(image)?;
        let data = self.format.process(image)?;
        let content_type = String::from_str(self.format.get_content_type());
        Ok(ProcessResult::new(content_type, data))
    }

    /// Whether `r` asks to store what quality and format make of `src`
    /// under the canonical string of the request, or fails as they do.
    pub open spec fn stored_as(&self, src: Raster, r: Action) -> bool {
        match r {
            Action::Store { key, result } => key@ == self@.spec_text() && self.finished_as(
                src,
                Ok(result),
            ),
            Action::Fail(e) => self.finished_as(src, Err(e)),
            _ => false,
        }
    }

    /// Whether `r` is the action that follows an outcome of the three
    /// geometric stages: to fail as they did, to turn the image where that
    /// is still pending, or what follows the rotation.
    pub open spec fn follows_transform(
        &self,
        outcome: Result<Rotated, IiifError>,
        r: Action,
    ) -> bool {
        match outcome {
            Err(e) => r == Action::Fail(e),
            Ok(Rotated::Pending { image, degrees }) => r == (Action::Turn { image, degrees }),
            Ok(Rotated::Done(image)) => self.stored_as(image@, r),
        }
    }

    /// The action that follows the three geometric stages: to turn the
    /// image where that is still pending, to store the encoded derivative,
    /// or to fail.
    pub fn after_transform(&self, outcome: Result<Rotated, IiifError>) -> (r: Action)
        ensures
            self.follows_transform(outcome, r),
    {
        match outcome {
            Err(e) => Action::Fail(e),
            Ok(Rotated::Pending { image, degrees }) => Action::Turn { image, degrees },
            Ok(Rotated::Done(image)) => self.after_turn(image),
        }
    }

    /// The action that follows the rotation: to store the encoded
    /// derivative, or to fail.
    pub fn after_turn(&self, image: RasterImage) -> (r: Action)
        ensures
            self.stored_as(image@, r),
    {
        match self.finish(image) {
            Ok(result) => Action::Store { key: self.to_string(), result },
            Err(e) => Action::Fail(e),
        }
    }

    /// Whether `r` is the action that follows the decoding of the source
    /// image, where `decoded` is the image that the bytes hold, if any: an
    /// internal server error where they hold none, the first fault of the
    /// geometry where there is one, and otherwise what follows the three
    /// geometric stages.
    pub open spec fn follows_decode(
        &self,
        decoded: Option<Raster>,
        limits: SizeLimits,
        r: Action,
    ) -> bool {
        match decoded {
            None => r matches Action::Fail(e) && e is InternalServerError,
            Some(image) => match self.planned(image.width as u32, image.height as u32, limits) {
                Err(fault) => r matches Action::Fail(e) && fault.is_reported_by(e),
                Ok(plan) => exists|outcome: Result<Rotated, IiifError>|
                    #[trigger] self.transformed_as(plan, image, outcome) && self.follows_transform(
                        outcome,
                        r,
                    ),
            },
        }
    }

    /// The action that follows the decoding of the source image: an
    /// internal server error where the bytes are no image, and otherwise
    /// what follows the three geometric stages.
    pub fn after_decode(
        &self,
        decoded: Result<RasterImage, image::ImageError>,
        limits: &SizeLimits,
    ) -> (r: Action)
        ensures
            self.follows_decode(
                match decoded {
                    Ok(image) => Some(image@),
                    Err(_) => None,
                },
                *limits,
                r,
            ),
    {
        match decoded {
            Err(e) => Action::Fail(IiifError::InternalServerError(image_error_text(&e))),
            Ok(image) => {
                let outcome = self.transform(image, limits);
                let r = self.after_transform(outcome);
                proof {
                    let planned = self.planned(image@.width as u32, image@.height as u32, *limits);
                    if let Ok(plan) = planned {
                        assert(self.transformed_as(plan, image@, outcome)
                            && self.follows_transform(outcome, r));
                    }
                }
                r
            },
        }
    }

    /// The next action of the work on this request, given what the host
    /// reports.
    ///
    /// The work begins with a lookup of the derivative under the canonical
    /// string. A hit is the answer. After a miss the source is fetched,
    /// decoded and transformed; the host turns the image where the angle is
    /// no multiple of 90 degrees; the encoded derivative is stored and then
    /// returned. A source that cannot be found is reported as not found, a
    /// derivative that cannot be stored as an internal server error.
    ///
    /// What the bytes of a source decode to is the decoder's to say, and it
    /// may change with the formats that the process has registered. Whatever
    /// it gives, the action is the one that [`IiifImage::after_decode`]
    /// states for it.
    pub fn process(&self, event: Event, limits: &SizeLimits) -> (r: Action)
        ensures
            match event {
                Event::Start => r matches Action::Lookup { key } && key@ == self@.spec_text(),
                Event::Cached(data) => r matches Action::Return(result) && result.data == data
                    && result.content_type@ == self.format.spec_content_type(),
                Event::CacheMiss => r matches Action::Fetch { identifier } && identifier@
                    == self.identifier@,
                Event::Origin(_) => exists|decoded: Option<Raster>|
                    #[trigger] self.follows_decode(decoded, *limits, r),
                Event::OriginMissing(message) => r matches Action::Fail(e) && e is NotFound
                    && e.detail() == message@,
                Event::Turned(image) => self.stored_as(image@, r),
                Event::Stored(result) => r == Action::Return(result),
                Event::StoreFailed(message) => r matches Action::Fail(e) && e
                    is InternalServerError && e.detail() == message@,
            },
    {
        match event {
            Event::Start => Action::Lookup { key: self.to_string() },
            Event::Cached(data) => Action::Return(
                ProcessResult::new(String::from_str(self.format.get_content_type()), data),
            ),
            Event::CacheMiss => Action::Fetch { identifier: self.identifier.clone() },
            Event::Origin(bytes) => {
                let decoded = decode_image(bytes.as_slice());
                let r = self.after_decode(decoded, limits);
                assert(self.follows_decode(
                    match decoded {
                        Ok(image) => Some(image@),
                        Err(_) => None,
                    },
                    *limits,
                    r,
                ));
                r
            },
            Event::OriginMissing(message) => Action::Fail(IiifError::NotFound(message)),
            Event::Turned(image) => self.after_turn(image),
            Event::Stored(result) => Action::Return(result),
            Event::StoreFailed(message) => Action::Fail(IiifError::InternalServerError(message)),
        }
    }
}

} // verus!
