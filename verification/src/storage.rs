//! Where a local storage keeps source images and derivatives: the paths of
//! the files, which the host of the library reads and writes.
use crate::request::IiifImage;
use std::path::PathBuf;
use vstd::prelude::*;
use vstd::string::StringExecFns;

verus! {

/// A path of the file system.
#[verifier::external_type_specification]
#[verifier::external_body]
pub struct ExPathBuf(PathBuf);

/// Calls `Path::join` on the directory: the path of `name` below it, or
/// `name` itself where that is absolute. Nothing is claimed of the result.
#[verifier::external_body]
pub(crate) fn join_path(directory: &str, name: &str) -> (r: PathBuf) {
    std::path::Path::new(directory).join(name)
}

/// A directory of source images and a directory of derivatives.
#[derive(Debug)]
pub struct LocalStorage {
    origin_dir: String,
    iiif_dir: String,
}

impl LocalStorage {
    /// The directory of the source images.
    pub closed spec fn spec_origin_dir(&self) -> Seq<char> {
        self.origin_dir@
    }

    /// The directory of the derivatives.
    pub closed spec fn spec_iiif_dir(&self) -> Seq<char> {
        self.iiif_dir@
    }

    /// A storage of source images in `base_dir` and derivatives in
    /// `iiif_dir`.
    pub fn new(base_dir: &str, iiif_dir: &str) -> (r: LocalStorage)
        ensures
            r.spec_origin_dir() == base_dir@,
            r.spec_iiif_dir() == iiif_dir@,
    {
        LocalStorage {
            origin_dir: String::from_str(base_dir),
            iiif_dir: String::from_str(iiif_dir),
        }
    }

    /// The path of the source image of an identifier.
    pub fn origin_path(&self, identifier: &str) -> PathBuf {
        join_path(self.origin_dir.as_str(), identifier)
    }

    /// The path of the derivative of a request: its canonical string below
    /// the directory of the derivatives.
    pub fn derivative_path(&self, request: &IiifImage) -> PathBuf {
        let key = request.to_string();
        join_path(self.iiif_dir.as_str(), key.as_str())
    }
}

} // verus!
