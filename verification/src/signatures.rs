//! Serving detached signatures: where a signature is kept, what is answered
//! for one that could not be had, and how a request is written to the log.

use crate::errors::{GraphError, GraphErrorView};
use vstd::prelude::*;
use vstd::string::StringExecFns;

verus! {

/// What the log says of a request without a `User-Agent` header.
pub const NO_USER_AGENT: &'static str = "user-agent not available";

/// What the log says of a request without an `Accept` header.
pub const NO_ACCEPT_TYPE: &'static str = "Accept value unavailable";

/// The line that describes a request in the log.
pub open spec fn request_line(
    method: Seq<char>,
    path: Seq<char>,
    query: Seq<char>,
    user_agent: Seq<char>,
    accept: Seq<char>,
) -> Seq<char> {
    "Method: '"@ + method + "', Request: '"@ + path + "', Query: '"@ + query
        + "', User-Agent: '"@ + user_agent + "', Accept: '"@ + accept + "'"@
}

/// Describes a request for the log, with no more than the log needs: the
/// method, the path, the query string, and the two headers that tell clients
/// apart. A header that the request lacks is described as not available.
pub fn format_request(
    method: &str,
    path: &str,
    query: &str,
    user_agent: Option<&str>,
    accept: Option<&str>,
) -> (r: String)
    ensures
        r@ == request_line(
            method@,
            path@,
            query@,
            match user_agent {
                Some(value) => value@,
                None => NO_USER_AGENT@,
            },
            match accept {
                Some(value) => value@,
                None => NO_ACCEPT_TYPE@,
            },
        ),
{
    let user_agent = match user_agent {
        Some(value) => value,
        None => NO_USER_AGENT,
    };
    let accept_type = match accept {
        Some(value) => value,
        None => NO_ACCEPT_TYPE,
    };
    String::from_str("Method: '").concat(method).concat("', Request: '").concat(path).concat(
        "', Query: '",
    ).concat(query).concat("', User-Agent: '").concat(user_agent).concat("', Accept: '").concat(
        accept_type,
    ).concat("'")
}

/// Where the signature `signature` of the image with digest `digest` is kept,
/// below the directory of all signatures.
pub fn signature_path(digest: &str, signature: &str) -> (r: String)
    ensures
        r@ == digest@ + "/"@ + signature@,
{
    String::from_str(digest).concat("/").concat(signature)
}

/// What came of fetching a signature from where it is kept.
#[derive(Debug)]
pub enum SignatureRead {
    /// It could not be opened, for the reason given.
    Missing(String),
    /// It was opened and could not be read, for the reason given.
    Unreadable(String),
    /// It was read, and this is what it holds.
    Content(String),
}

/// What the client is answered: the signature, or why there is none.
pub fn signature_response(read: SignatureRead) -> (r: Result<String, GraphError>)
    ensures
        match read {
            SignatureRead::Missing(reason) => r matches Err(e) && e@
                == GraphErrorView::DoesNotExist("signature does not exist "@ + reason@),
            SignatureRead::Unreadable(reason) => r matches Err(e) && e@
                == GraphErrorView::FileOpenError("unable to read "@ + reason@),
            SignatureRead::Content(body) => r matches Ok(sent) && sent@ == body@,
        },
{
    match read {
        SignatureRead::Missing(reason) => Err(
            GraphError::DoesNotExist(
                String::from_str("signature does not exist ").concat(reason.as_str()),
            ),
        ),
        SignatureRead::Unreadable(reason) => Err(
            GraphError::FileOpenError(String::from_str("unable to read ").concat(reason.as_str())),
        ),
        SignatureRead::Content(body) => Ok(body),
    }
}

} // verus!
