//! The client's side of the open protocol: the routes it calls, and the
//! interpretation of the server's reply.  The unverified shell performs the
//! HTTP exchange itself.

use crate::cmd;
use crate::wire;
use vstd::prelude::*;
use vstd::string::StringExecFns;

verus! {

/// Configuration for the open-here client.
#[derive(Debug)]
pub struct Config {
    /// Host and optional port the open-here server listens on.
    pub host: String,
}

/// An error that can occur while opening a target.
#[derive(Debug)]
pub enum OpenError {
    /// The HTTP exchange failed, or the reply was malformed.
    HttpError { msg: String },
    /// The server answered with an error envelope.
    ServerError { err: cmd::Error },
}

/// Mathematical model of an `OpenError`.
pub enum OpenErrorModel {
    HttpError { msg: Seq<char> },
    ServerError { err: cmd::ErrorModel },
}

impl View for OpenError {
    type V = OpenErrorModel;

    open spec fn view(&self) -> OpenErrorModel {
        match self {
            OpenError::HttpError { msg } => OpenErrorModel::HttpError { msg: msg@ },
            OpenError::ServerError { err } => OpenErrorModel::ServerError { err: err@ },
        }
    }
}

/// The message an `OpenError` prints.
pub open spec fn open_error_display_spec(e: OpenErrorModel) -> Seq<char> {
    match e {
        OpenErrorModel::HttpError { msg } => "Open failed with HTTP error: "@ + msg,
        OpenErrorModel::ServerError { err } => "Open failed with server error: "@
            + cmd::error_display_spec(err),
    }
}

impl OpenError {
    /// Render this error as the message it prints.
    pub fn display_string(&self) -> (s: String)
        ensures
            s@ == open_error_display_spec(self@),
    {
        match self {
            OpenError::HttpError { msg } => String::from_str("Open failed with HTTP error: ")
                .concat(msg.as_str()),
            OpenError::ServerError { err } => String::from_str("Open failed with server error: ")
                .concat(err.display_string().as_str()),
        }
    }
}

/// The URL of the open-url route on `server`.
pub fn url_route(server: &str) -> (s: String)
    ensures
        s@ == server@ + "/open/url"@,
{
    String::from_str(server).concat("/open/url")
}

/// The URL of the open-path route on `server`.
pub fn path_route(server: &str) -> (s: String)
    ensures
        s@ == server@ + "/open/path"@,
{
    String::from_str(server).concat("/open/path")
}

/// Interpret an HTTP reply to an open request.  A non-success status is an
/// HTTP error carrying the status text; a success reply carries an
/// envelope, whose error becomes a server error; a success body that is no
/// envelope at all is an HTTP error.
pub fn decode_reply(success: bool, status: &str, body: &str) -> (r: Result<String, OpenError>)
    ensures
        !success ==> (r matches Err(e) && e@ == (OpenErrorModel::HttpError { msg: status@ })),
        success ==> match r {
            Ok(s) => body@ == wire::envelope_json(Ok(s@)),
            Err(e) => match e@ {
                OpenErrorModel::ServerError { err } => body@ == wire::envelope_json(Err(err)),
                OpenErrorModel::HttpError { msg } => {
                    &&& forall|m: wire::ResponseModel| body@ != wire::envelope_json(m)
                    &&& msg == "malformed server reply"@
                },
            },
        },
{
    if !success {
        return Err(OpenError::HttpError { msg: String::from_str(status) });
    }
    match wire::decode_envelope(body) {
        Some(resp) => match resp {
            Ok(s) => Ok(s),
            Err(e) => Err(OpenError::ServerError { err: e }),
        },
        None => Err(OpenError::HttpError { msg: String::from_str("malformed server reply") }),
    }
}

} // verus!
