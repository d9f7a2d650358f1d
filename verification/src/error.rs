//! The error type shared by every parser, resolver and pipeline stage.
use vstd::prelude::*;
use vstd::string::StringExecFns;

verus! {

/// What went wrong while a request was parsed, resolved or executed.
///
/// Every variant carries a human-readable detail text.
#[derive(Debug, PartialEq)]
pub enum IiifError {
    /// The URL does not have the shape of an image request.
    InvalidIiifURL(String),
    /// The source image could not be opened.
    ImageOpenFailed(String),
    /// 400: the syntax of the request is incorrect.
    BadRequest(String),
    /// 401: the request requires authentication.
    Unauthorized(String),
    /// 403: the user is not permitted to perform the operation.
    Forbidden(String),
    /// 404: the identifier does not resolve to an image.
    NotFound(String),
    /// 500: an unexpected failure inside the server.
    InternalServerError(String),
    /// 501: a valid request that this server does not implement.
    NotImplemented(String),
    /// 503: the server is temporarily unavailable.
    ServiceUnavailable(String),
}

impl IiifError {
    /// The detail text that the error carries.
    pub open spec fn detail(&self) -> Seq<char> {
        match self {
            IiifError::InvalidIiifURL(m) => m@,
            IiifError::ImageOpenFailed(m) => m@,
            IiifError::BadRequest(m) => m@,
            IiifError::Unauthorized(m) => m@,
            IiifError::Forbidden(m) => m@,
            IiifError::NotFound(m) => m@,
            IiifError::InternalServerError(m) => m@,
            IiifError::NotImplemented(m) => m@,
            IiifError::ServiceUnavailable(m) => m@,
        }
    }

    /// The text shown to a client: the detail, behind a fixed prefix for the
    /// two variants that have one.
    pub open spec fn spec_message(&self) -> Seq<char> {
        match self {
            IiifError::InvalidIiifURL(m) => "Invalid IIIF image URL: "@ + m@,
            IiifError::ImageOpenFailed(m) => "Image open failed: "@ + m@,
            _ => self.detail(),
        }
    }

    /// Whether the error is a bad request whose detail is `prefix` followed
    /// by `value`.
    pub open spec fn is_bad_request(&self, prefix: Seq<char>, value: Seq<char>) -> bool {
        self is BadRequest && self.detail() == prefix + value
    }

    /// Whether the error is an invalid URL whose detail is `prefix` followed
    /// by `value`.
    pub open spec fn is_invalid_url(&self, prefix: Seq<char>, value: Seq<char>) -> bool {
        self is InvalidIiifURL && self.detail() == prefix + value
    }

    /// A bad request whose detail is `prefix` followed by `value`.
    pub fn bad_request(prefix: &str, value: &str) -> (e: IiifError)
        ensures
            e.is_bad_request(prefix@, value@),
    {
        IiifError::BadRequest(String::from_str(prefix).concat(value))
    }

    /// An invalid URL whose detail is `prefix` followed by `value`.
    pub fn invalid_url(prefix: &str, value: &str) -> (e: IiifError)
        ensures
            e.is_invalid_url(prefix@, value@),
    {
        IiifError::InvalidIiifURL(String::from_str(prefix).concat(value))
    }

    /// Renders the error as the text shown to a client.
    pub fn message(&self) -> (r: String)
        ensures
            r@ == self.spec_message(),
    {
        match self {
            IiifError::InvalidIiifURL(m) => {
                String::from_str("Invalid IIIF image URL: ").concat(m.as_str())
            },
            IiifError::ImageOpenFailed(m) => {
                String::from_str("Image open failed: ").concat(m.as_str())
            },
            IiifError::BadRequest(m) => m.clone(),
            IiifError::Unauthorized(m) => m.clone(),
            IiifError::Forbidden(m) => m.clone(),
            IiifError::NotFound(m) => m.clone(),
            IiifError::InternalServerError(m) => m.clone(),
            IiifError::NotImplemented(m) => m.clone(),
            IiifError::ServiceUnavailable(m) => m.clone(),
        }
    }

    /// Same as [`IiifError::message`].
    pub fn to_string(&self) -> (r: String)
        ensures
            r@ == self.spec_message(),
    {
        self.message()
    }
}

} // verus!
