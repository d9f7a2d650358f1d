//! A directory of source images, and the path of the file of an identifier
//! in it.
use crate::storage::join_path;
use std::path::PathBuf;
use vstd::prelude::*;
use vstd::string::StringExecFns;

verus! {

/// A storage that can say where the file of an identifier lies.
pub trait Storage {
    /// The path of the file that holds the image of an identifier.
    fn get_file_path(&self, identifier: &str) -> PathBuf;
}

/// A directory of source images.
#[derive(Debug)]
pub struct LocalStorage {
    base_path: String,
}

impl LocalStorage {
    /// The directory in which the images lie.
    pub closed spec fn spec_base_path(&self) -> Seq<char> {
        self.base_path@
    }

    /// A storage of the images in a directory.
    pub fn new(base_path: &str) -> (r: LocalStorage)
        ensures
            r.spec_base_path() == base_path@,
    {
        LocalStorage { base_path: String::from_str(base_path) }
    }

    /// The directory in which the images lie.
    pub fn base_path(&self) -> (r: &str)
        ensures
            r@ == self.spec_base_path(),
    {
        self.base_path.as_str()
    }
}

impl Storage for LocalStorage {
    fn get_file_path(&self, identifier: &str) -> PathBuf {
        join_path(self.base_path.as_str(), identifier)
    }
}

} // verus!
