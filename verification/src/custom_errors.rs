//! The error type shared by the scanner's modules.

use vstd::prelude::*;

verus! {

/// A failed wait on a spawned task.
#[verifier::external_type_specification]
#[verifier::external_body]
pub struct ExJoinError(tokio::task::JoinError);

/// A failed HTTP request or client construction.
#[verifier::external_type_specification]
#[verifier::external_body]
pub struct ExReqwestError(reqwest::Error);

/// A header value that is not visible ASCII.
#[verifier::external_type_specification]
#[verifier::external_body]
pub struct ExToStrError(hyper::header::ToStrError);

/// A failed integer parse.
#[verifier::external_type_specification]
#[verifier::external_body]
pub struct ExParseIntError(core::num::ParseIntError);

/// A semaphore that was closed while a permit was awaited.
#[verifier::external_type_specification]
#[verifier::external_body]
pub struct ExAcquireError(tokio::sync::AcquireError);

/// An input/output failure.
#[verifier::external_type_specification]
#[verifier::external_body]
pub struct ExIoError(std::io::Error);

/// Everything that can make a scan fail.
#[derive(Debug)]
pub enum Errors {
    Error(String),
    JoinError(tokio::task::JoinError),
    ReqwestError(reqwest::Error),
    ToStrError(hyper::header::ToStrError),
    ParseIntError(core::num::ParseIntError),
    AcquireError(tokio::sync::AcquireError),
    STDIOError(std::io::Error),
}

/// The text of the error that `Errors::error` builds.
pub open spec fn error_text(message: Seq<char>, err: Seq<char>) -> Seq<char> {
    message + " -> "@ + err
}

/// `e` is the plain error whose text is `text`.
pub open spec fn is_error_with_text(e: Errors, text: Seq<char>) -> bool {
    e matches Errors::Error(t) && t@ == text
}

impl Errors {
    /// Builds a plain error from a context message and the text of the
    /// error that caused it: `"{message} -> {err}"`.
    pub fn error(message: &str, err: &str) -> (e: Self)
        ensures
            is_error_with_text(e, error_text(message@, err@)),
    {
        let mut text = String::from_str(message);
        text.append(" -> ");
        text.append(err);
        Errors::Error(text)
    }
}

impl From<()> for Errors {
    /// The error for a failure that carries no information of its own.
    fn from(v: ()) -> (e: Self)
        ensures
            is_error_with_text(e, "An unexpected error occurred"@),
    {
        Errors::Error(String::from_str("An unexpected error occurred"))
    }
}

impl vstd::std_specs::convert::FromSpecImpl<()> for Errors {
    open spec fn obeys_from_spec() -> bool {
        false
    }

    open spec fn from_spec(v: ()) -> Self {
        arbitrary()
    }
}

} // verus!
