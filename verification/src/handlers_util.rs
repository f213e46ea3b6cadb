//! What the request handlers of the HTTP server share: the media type of
//! their answers, and the answer to a request for a repository that cannot
//! be served.

use mime::Mime;
use vstd::prelude::*;
use vstd::string::StringExecFns;

verus! {

/// A media type of the `mime` crate. Nothing of its inside is known here.
#[verifier::external_type_specification]
#[verifier::external_body]
pub struct ExMime(mime::Mime);

/// Whether `mime` takes a text for a media type.
pub uninterp spec fn parses_as_mime(text: Seq<char>) -> bool;

/// A text as `std` writes it for debugging: in double quotes, with what
/// needs it escaped.
pub uninterp spec fn debug_text(text: Seq<char>) -> Seq<char>;

/// Calls `mime`'s `FromStr` for `Mime`, which parses a media type. Whether
/// it succeeds depends on the text alone; where it does not, nothing is
/// handed back. Nothing is claimed of the media type that is.
#[verifier::external_body]
fn parse_mime(text: &str) -> (parsed: Option<Mime>)
    requires
        text.is_ascii(),
    ensures
        parsed is Some == parses_as_mime(text@),
{
    text.parse::<Mime>().ok()
}

/// Calls `std`'s `Debug` for `str` through `format!`. What it writes
/// depends on the text alone.
#[verifier::external_body]
fn format_debug(text: &str) -> (quoted: String)
    ensures
        quoted@ == debug_text(text@),
{
    format!("{:?}", text)
}

/// The media type of CBOR, where `mime` takes its name for one.
pub fn cbor_mime() -> (cbor: Option<Mime>)
    ensures
        cbor is Some == parses_as_mime("application/cbor"@),
{
    proof {
        reveal_strlit("application/cbor");
    }
    parse_mime("application/cbor")
}

/// An answer that reports a failure: its status code and what went wrong.
#[derive(Debug, PartialEq, Eq)]
pub struct HttpError {
    pub status_code: u16,
    pub error: String,
}

impl HttpError {
    /// The request was bad.
    pub fn e400(error: String) -> (answer: HttpError)
        ensures
            answer == (HttpError { status_code: 400, error }),
    {
        HttpError { status_code: 400, error }
    }

    /// The request is forbidden.
    pub fn e403(error: String) -> (answer: HttpError)
        ensures
            answer == (HttpError { status_code: 403, error }),
    {
        HttpError { status_code: 403, error }
    }

    /// What was asked for is not there.
    pub fn e404(error: String) -> (answer: HttpError)
        ensures
            answer == (HttpError { status_code: 404, error }),
    {
        HttpError { status_code: 404, error }
    }
}

/// What is said of a repository that does not exist.
pub open spec fn no_such_repo(name: Seq<char>) -> Seq<char> {
    "repo does not exist: "@ + debug_text(name)
}

/// The repository of the given name, given what looking it up gave. A
/// lookup that failed is answered as forbidden, with the failure; a
/// repository that does not exist is answered as not found.
pub fn get_repo<R>(name: &str, looked_up: Result<Option<R>, String>) -> (repo: Result<R, HttpError>)
    ensures
        match looked_up {
            Ok(Some(found)) => repo == Ok::<R, HttpError>(found),
            Ok(None) => repo matches Err(answer) && answer.status_code == 404 && answer.error@
                == no_such_repo(name@),
            Err(error) => repo == Err::<R, HttpError>(HttpError { status_code: 403, error }),
        },
{
    match looked_up {
        Ok(Some(found)) => Ok(found),
        Ok(None) => {
            let quoted = format_debug(name);
            Err(HttpError::e404(String::from_str("repo does not exist: ").concat(quoted.as_str())))
        },
        Err(error) => Err(HttpError::e403(error)),
    }
}

/// The body of a request, given what reading it gave: a failure to read it
/// is answered as a bad request.
pub fn get_request_body<B>(body: Result<B, String>) -> (read: Result<B, HttpError>)
    ensures
        read == match body {
            Ok(body) => Ok::<B, HttpError>(body),
            Err(error) => Err::<B, HttpError>(HttpError { status_code: 400, error }),
        },
{
    match body {
        Ok(body) => Ok(body),
        Err(error) => Err(HttpError::e400(error)),
    }
}

} // verus!
