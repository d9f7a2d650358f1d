//! The records of the presentation API that refer to images: contexts,
//! resources, metadata, annotations and collections.
use crate::contexts::{ending_with, list_ending_with, uris};
use std::collections::HashMap;
use vstd::prelude::*;
use vstd::string::StringExecFns;

verus! {

/// The context URI of the presentation API.
pub const IIIF_PRESENTATION_3_CONTEXT: &'static str =
    "https://iiif.io/api/presentation/3/context.json";

/// The context URI of the image API.
pub const IIIF_IMAGE_3_CONTEXT: &'static str = "http://iiif.io/api/image/3/context.json";

/// Texts by language code.
pub type LangMap = HashMap<String, Vec<String>>;

/// The top-level `@context`: one URI or a list of them.
#[derive(Debug, Clone, PartialEq, Eq)]
pub enum Context {
    Single(String),
    List(Vec<String>),
}

/// A label and a value, each in several languages.
#[derive(Debug, Clone, PartialEq)]
pub struct Metadata {
    pub label: LangMap,
    pub value: LangMap,
}

/// A reference to a resource: a thumbnail, a home page, a service.
#[derive(Debug, Clone, PartialEq)]
pub struct Resource {
    pub id: String,
    pub kind: String,
    pub label: Option<LangMap>,
    pub format: Option<String>,
    pub profile: Option<String>,
}

/// How a body relates to a target, which is a canvas or a part of one.
#[derive(Debug, Clone, PartialEq)]
pub struct Annotation {
    pub id: String,
    pub kind: String,
    pub label: Option<LangMap>,
    pub motivation: String,
    pub target: String,
    pub body: Resource,
}

/// An ordered list of annotations.
#[derive(Debug, Clone, PartialEq)]
pub struct AnnotationPage {
    pub id: String,
    pub kind: String,
    pub label: Option<LangMap>,
    pub items: Vec<Annotation>,
}

/// An ordered list of manifests and collections.
#[derive(Debug, Clone, PartialEq)]
pub struct Collection {
    pub context: Context,
    pub id: String,
    pub kind: String,
    pub label: LangMap,
    pub summary: Option<LangMap>,
    pub metadata: Option<Vec<Metadata>>,
    pub required_statement: Option<Metadata>,
    pub rights: Option<String>,
    pub language: Option<Vec<String>>,
    pub provider: Option<Vec<Resource>>,
    pub logo: Option<Vec<Resource>>,
    pub thumbnail: Option<Vec<Resource>>,
    pub homepage: Option<Vec<Resource>>,
    pub see_also: Option<Vec<Resource>>,
    pub rendering: Option<Vec<Resource>>,
    pub service: Option<Vec<Resource>>,
    pub part_of: Option<Vec<Resource>>,
    pub behavior: Option<Vec<String>>,
    pub items: Vec<Resource>,
}

impl Context {
    /// The context of the presentation API alone.
    pub fn presentation_default() -> (r: Context)
        ensures
            r matches Context::Single(uri) && uri@ == IIIF_PRESENTATION_3_CONTEXT@,
    {
        Context::Single(String::from_str(IIIF_PRESENTATION_3_CONTEXT))
    }

    /// The context of the image API alone.
    pub fn image_default() -> (r: Context)
        ensures
            r matches Context::Single(uri) && uri@ == IIIF_IMAGE_3_CONTEXT@,
    {
        Context::Single(String::from_str(IIIF_IMAGE_3_CONTEXT))
    }

    /// The given contexts, followed by that of the presentation API.
    pub fn new_presentation_list(contexts: &[String]) -> (r: Context)
        ensures
            r matches Context::List(list) && uris(list@) == ending_with(
                uris(contexts@),
                IIIF_PRESENTATION_3_CONTEXT@,
            ),
    {
        Context::new_list(contexts, IIIF_PRESENTATION_3_CONTEXT)
    }

    /// The given contexts, followed by that of the image API.
    pub fn new_image_list(contexts: &[String]) -> (r: Context)
        ensures
            r matches Context::List(list) && uris(list@) == ending_with(
                uris(contexts@),
                IIIF_IMAGE_3_CONTEXT@,
            ),
    {
        Context::new_list(contexts, IIIF_IMAGE_3_CONTEXT)
    }

    /// The given contexts, followed by `default_context`: where it is among
    /// them, its first occurrence moves to the end.
    pub fn new_list(contexts: &[String], default_context: &str) -> (r: Context)
        ensures
            r matches Context::List(list) && uris(list@) == ending_with(
                uris(contexts@),
                default_context@,
            ),
    {
        Context::List(list_ending_with(contexts, default_context))
    }
}

/// The type of an annotation page.
pub fn annotation_page_type() -> (r: String)
    ensures
        r@ == "AnnotationPage"@,
{
    String::from_str("AnnotationPage")
}

/// The type of an annotation.
pub fn annotation_type() -> (r: String)
    ensures
        r@ == "Annotation"@,
{
    String::from_str("Annotation")
}

/// The type of a collection.
pub fn collection_type() -> (r: String)
    ensures
        r@ == "Collection"@,
{
    String::from_str("Collection")
}

impl Default for Metadata {
    fn default() -> (r: Metadata)
        ensures
            r.label@ == Map::<String, Vec<String>>::empty(),
            r.value@ == Map::<String, Vec<String>>::empty(),
    {
        Metadata { label: HashMap::new(), value: HashMap::new() }
    }
}

impl Default for Resource {
    fn default() -> (r: Resource)
        ensures
            r.id@.len() == 0,
            r.kind@.len() == 0,
            r.label is None && r.format is None && r.profile is None,
    {
        Resource {
            id: String::new(),
            kind: String::new(),
            label: None,
            format: None,
            profile: None,
        }
    }
}

impl Default for Annotation {
    fn default() -> (r: Annotation)
        ensures
            r.id@.len() == 0,
            r.kind@ == "Annotation"@,
            r.label is None,
            r.motivation@.len() == 0,
            r.target@.len() == 0,
            r.body.id@.len() == 0 && r.body.kind@.len() == 0,
    {
        Annotation {
            id: String::new(),
            kind: annotation_type(),
            label: None,
            motivation: String::new(),
            target: String::new(),
            body: Resource::default(),
        }
    }
}

impl Default for AnnotationPage {
    fn default() -> (r: AnnotationPage)
        ensures
            r.id@.len() == 0,
            r.kind@ == "AnnotationPage"@,
            r.label is None,
            r.items@.len() == 0,
    {
        AnnotationPage {
            id: String::new(),
            kind: annotation_page_type(),
            label: None,
            items: Vec::new(),
        }
    }
}

impl Default for Collection {
    fn default() -> (r: Collection)
        ensures
            r.context matches Context::Single(uri) && uri@ == IIIF_PRESENTATION_3_CONTEXT@,
            r.id@.len() == 0,
            r.kind@ == "Collection"@,
            r.label@ == Map::<String, Vec<String>>::empty(),
            r.summary is None && r.metadata is None && r.required_statement is None,
            r.rights is None && r.language is None && r.provider is None && r.logo is None,
            r.thumbnail is None && r.homepage is None && r.see_also is None,
            r.rendering is None && r.service is None && r.part_of is None && r.behavior is None,
            r.items@.len() == 0,
    {
        Collection {
            context: Context::presentation_default(),
            id: String::new(),
            kind: collection_type(),
            label: HashMap::new(),
            summary: None,
            metadata: None,
            required_statement: None,
            rights: None,
            language: None,
            provider: None,
            logo: None,
            thumbnail: None,
            homepage: None,
            see_also: None,
            rendering: None,
            service: None,
            part_of: None,
            behavior: None,
            items: Vec::new(),
        }
    }
}

} // verus!
