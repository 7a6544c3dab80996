use vstd::prelude::*;

verus! {

/// `std::io::Error`, carried through unopened.
#[verifier::external_type_specification]
#[verifier::external_body]
pub struct ExIoError(std::io::Error);

/// `reqwest::Error`, carried through unopened.
#[verifier::external_type_specification]
#[verifier::external_body]
pub struct ExHttpError(reqwest::Error);

/// `serde_json::Error`, carried through unopened.
#[verifier::external_type_specification]
#[verifier::external_body]
pub struct ExJsonError(serde_json::Error);

/// `roxmltree::Error`, carried through unopened.
#[verifier::external_type_specification]
#[verifier::external_body]
pub struct ExXmlError(roxmltree::Error);

/// `time::error::Format`, carried through unopened.
#[verifier::external_type_specification]
#[verifier::external_body]
pub struct ExTimeFormatError(time::error::Format);

/// What can go wrong while listing, requesting or downloading versions. (Named so
/// that it does not shadow the error types of the crates it wraps.)
#[derive(Debug)]
pub enum CoreError {
    Io(std::io::Error),
    Http(reqwest::Error),
    Json(serde_json::Error),
    Xml(roxmltree::Error),
    TimeFormat(time::error::Format),
    InvalidResponse(String),
    DownloadUrlNotFound,
    NoDownloadUrls,
}

pub type Result<T> = std::result::Result<T, CoreError>;

/// `r` failed with an invalid-response error whose message is `msg`.
pub open spec fn is_invalid_response<T>(r: Result<T>, msg: Seq<char>) -> bool {
    r matches Err(CoreError::InvalidResponse(m)) && m@ == msg
}

/// The invalid-response error with the given message.
pub(crate) fn invalid_response(msg: &str) -> (e: CoreError)
    ensures
        e matches CoreError::InvalidResponse(m) && m@ == msg@,
{
    CoreError::InvalidResponse(String::from_str(msg))
}

} // verus!
