//! The technical properties of an image service, as its information
//! document lists them.
use crate::contexts::{ending_with, list_ending_with, uris};
use crate::format::Format;
use crate::quality::Quality;
use crate::size::SizeLimits;
use vstd::prelude::*;
use vstd::string::StringExecFns;

verus! {

/// The context URI of the image API.
pub const IIIF_IMAGE_3_CONTEXT: &'static str = "http://iiif.io/api/image/3/context.json";

/// The `@context` of the document: one URI, or a list that ends with the
/// URI of the image API.
#[derive(Debug, PartialEq)]
pub enum Context {
    Single(String),
    List(Vec<String>),
}

/// The type of the service: the string `ImageService3`.
#[derive(Debug, PartialEq)]
pub struct InfoType(String);

/// The protocol of the service: the URI `http://iiif.io/api/image`.
#[derive(Debug, PartialEq)]
pub struct Protocol(String);

/// The highest compliance level that the service supports in full.
#[derive(Debug, PartialEq, Eq, Clone, Copy)]
pub enum Profile {
    Level0,
    Level1,
    Level2,
}

/// The type of a size entry: the string `Size`.
#[derive(Debug, PartialEq, Eq, Clone, Copy)]
pub enum SizeType {
    Size,
}

/// A preferred size of the full image.
#[derive(Debug, PartialEq)]
pub struct SizeInfo {
    pub kind: Option<SizeType>,
    pub width: u32,
    pub height: u32,
}

/// The type of a tile entry: the string `Tile`.
#[derive(Debug, PartialEq, Eq, Clone, Copy)]
pub enum TileType {
    Tile,
}

/// A set of predefined tiles.
#[derive(Debug, PartialEq)]
pub struct TileInfo {
    pub kind: Option<TileType>,
    pub scale_factors: Vec<u8>,
    pub width: u32,
    pub height: Option<u32>,
}

/// A feature that a service may support beyond its compliance level.
#[derive(Debug, PartialEq, Eq, Clone, Copy)]
pub enum Feature {
    BaseUriRedirect,
    CanonicalLinkHeader,
    Cors,
    JsonldMediaType,
    Mirroring,
    ProfileLinkHeader,
    RegionByPct,
    RegionByPx,
    RegionSquare,
    RotationBy90s,
    SizeByConfinedWh,
    SizeByH,
    SizeByPct,
    SizeByW,
    SizeByWh,
    SizeUpscaling,
}

/// A link to another resource.
#[derive(Debug, PartialEq)]
pub struct LinkInfo {
    pub id: String,
    pub kind: String,
    pub label: Option<String>,
    pub format: Option<String>,
    pub profile: Option<String>,
}

/// The information document of an image.
#[derive(Debug)]
pub struct ImageInfo {
    pub context: Context,
    pub id: String,
    pub kind: InfoType,
    pub protocol: Protocol,
    pub profile: Profile,
    pub width: u32,
    pub height: u32,
    pub max_width: Option<u32>,
    pub max_height: Option<u32>,
    pub max_area: Option<u32>,
    pub sizes: Option<Vec<SizeInfo>>,
    pub extra_formats: Option<Vec<Format>>,
    pub preferred_formats: Option<Vec<Format>>,
    pub rights: Option<String>,
    pub extra_qualities: Option<Vec<Quality>>,
    pub extra_features: Option<Vec<Feature>>,
    pub part_of: Option<LinkInfo>,
    pub see_also: Option<LinkInfo>,
    pub service: Option<LinkInfo>,
}

impl Context {
    /// The context of the image API alone.
    pub fn new_single() -> (r: Context)
        ensures
            r matches Context::Single(uri) && uri@ == IIIF_IMAGE_3_CONTEXT@,
    {
        Context::Single(String::from_str(IIIF_IMAGE_3_CONTEXT))
    }

    /// The given contexts, followed by that of the image API: where it is
    /// among them, its first occurrence moves to the end.
    pub fn new_list(contexts: &[String]) -> (r: Context)
        ensures
            r matches Context::List(list) && uris(list@) == ending_with(
                uris(contexts@),
                IIIF_IMAGE_3_CONTEXT@,
            ),
    {
        Context::List(list_ending_with(contexts, IIIF_IMAGE_3_CONTEXT))
    }
}

impl Default for Context {
    fn default() -> (r: Context)
        ensures
            r matches Context::Single(uri) && uri@ == IIIF_IMAGE_3_CONTEXT@,
    {
        Context::new_single()
    }
}

impl InfoType {
    /// The text of the type.
    pub closed spec fn spec_text(&self) -> Seq<char> {
        self.0@
    }

    /// The text of the type.
    pub fn as_str(&self) -> (r: &str)
        ensures
            r@ == self.spec_text(),
    {
        self.0.as_str()
    }
}

impl Default for InfoType {
    fn default() -> (r: InfoType)
        ensures
            r.spec_text() == "ImageService3"@,
    {
        InfoType(String::from_str("ImageService3"))
    }
}

impl Protocol {
    /// The text of the protocol.
    pub closed spec fn spec_text(&self) -> Seq<char> {
        self.0@
    }

    /// The text of the protocol.
    pub fn as_str(&self) -> (r: &str)
        ensures
            r@ == self.spec_text(),
    {
        self.0.as_str()
    }
}

impl Default for Protocol {
    fn default() -> (r: Protocol)
        ensures
            r.spec_text() == "http://iiif.io/api/image"@,
    {
        Protocol(String::from_str("http://iiif.io/api/image"))
    }
}

impl Default for Profile {
    fn default() -> (r: Profile)
        ensures
            r == Profile::Level0,
    {
        Profile::Level0
    }
}

impl Default for SizeType {
    fn default() -> (r: SizeType)
        ensures
            r == SizeType::Size,
    {
        SizeType::Size
    }
}

impl Default for TileType {
    fn default() -> (r: TileType)
        ensures
            r == TileType::Tile,
    {
        TileType::Tile
    }
}

impl ImageInfo {
    /// The limits that the document sets on the size of what is returned.
    pub fn limits(&self) -> (r: SizeLimits)
        ensures
            r.max_width == self.max_width,
            r.max_height == self.max_height,
            r.max_area == match self.max_area {
                Some(area) => Some(area as u64),
                None => None,
            },
    {
        SizeLimits {
            max_width: self.max_width,
            max_height: self.max_height,
            max_area: match self.max_area {
                Some(area) => Some(area as u64),
                None => None,
            },
        }
    }
}

impl Default for ImageInfo {
    fn default() -> (r: ImageInfo)
        ensures
            r.context matches Context::Single(uri) && uri@ == IIIF_IMAGE_3_CONTEXT@,
            r.id@.len() == 0,
            r.kind.spec_text() == "ImageService3"@,
            r.protocol.spec_text() == "http://iiif.io/api/image"@,
            r.profile == Profile::Level0,
            r.width == 0 && r.height == 0,
            r.max_width is None && r.max_height is None && r.max_area is None,
            r.sizes is None && r.extra_formats is None && r.preferred_formats is None,
            r.rights is None && r.extra_qualities is None && r.extra_features is None,
            r.part_of is None && r.see_also is None && r.service is None,
    {
        ImageInfo {
            context: Context::new_single(),
            id: String::new(),
            kind: InfoType::default(),
            protocol: Protocol::default(),
            profile: Profile::Level0,
            width: 0,
            height: 0,
            max_width: None,
            max_height: None,
            max_area: None,
            sizes: None,
            extra_formats: None,
            preferred_formats: None,
            rights: None,
            extra_qualities: None,
            extra_features: None,
            part_of: None,
            see_also: None,
            service: None,
        }
    }
}

} // verus!
