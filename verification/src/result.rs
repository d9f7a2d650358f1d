//! What a processed request returns.
use vstd::prelude::*;

verus! {

/// The encoded image and the content type under which it is served.
#[derive(Debug)]
pub struct ProcessResult {
    pub content_type: String,
    pub data: Vec<u8>,
}

impl ProcessResult {
    /// A result of the given content type and bytes.
    pub fn new(content_type: String, data: Vec<u8>) -> (r: ProcessResult)
        ensures
            r.content_type == content_type,
            r.data == data,
    {
        ProcessResult { content_type, data }
    }
}

} // verus!
