//! The errors of the fork.

use vstd::prelude::*;

use crate::text::{join2, join4};

verus! {

/// Why an operation of the fork failed.
#[derive(Debug, Clone, PartialEq, Eq)]
#[non_exhaustive]
pub enum ForkError {
    /// A request to the RPC endpoint failed: a network error, a timeout, or a
    /// refusal after all retries.
    Transport(String),
    /// The endpoint answered with a JSON-RPC error object.
    RpcError(String),
    /// The endpoint's answer held no result.
    RpcNoResult,
    /// An XDR payload could not be encoded or decoded.
    Xdr(String),
    /// A base64 payload could not be decoded.
    Base64(String),
    /// A JSON document could not be read or written.
    Json(String),
    /// The snapshot file could not be read or written.
    Cache { path: String, message: String },
    /// The host, or what it was asked to read, is not as it should be.
    Host(String),
    /// A crate of the workspace could not be built.
    Workspace(String),
}

/// The content of an error.
#[verifier::ext_equal]
pub enum ErrorView {
    Transport(Seq<char>),
    RpcError(Seq<char>),
    RpcNoResult,
    Xdr(Seq<char>),
    Base64(Seq<char>),
    Json(Seq<char>),
    Cache { path: Seq<char>, message: Seq<char> },
    Host(Seq<char>),
    Workspace(Seq<char>),
}

impl View for ForkError {
    type V = ErrorView;

    open spec fn view(&self) -> ErrorView {
        match *self {
            ForkError::Transport(s) => ErrorView::Transport(s@),
            ForkError::RpcError(s) => ErrorView::RpcError(s@),
            ForkError::RpcNoResult => ErrorView::RpcNoResult,
            ForkError::Xdr(s) => ErrorView::Xdr(s@),
            ForkError::Base64(s) => ErrorView::Base64(s@),
            ForkError::Json(s) => ErrorView::Json(s@),
            ForkError::Cache { path, message } => ErrorView::Cache { path: path@, message: message@ },
            ForkError::Host(s) => ErrorView::Host(s@),
            ForkError::Workspace(s) => ErrorView::Workspace(s@),
        }
    }
}

/// The message of an error.
pub open spec fn error_text(e: ErrorView) -> Seq<char> {
    match e {
        ErrorView::Transport(s) => "RPC transport error: "@ + s,
        ErrorView::RpcError(s) => "RPC returned error: "@ + s,
        ErrorView::RpcNoResult => "RPC response had no result field"@,
        ErrorView::Xdr(s) => "XDR codec error: "@ + s,
        ErrorView::Base64(s) => "base64 decode error: "@ + s,
        ErrorView::Json(s) => "JSON codec error: "@ + s,
        ErrorView::Cache { path, message } => "cache I/O error at "@ + path + ": "@ + message,
        ErrorView::Host(s) => "host error: "@ + s,
        ErrorView::Workspace(s) => "workspace error: "@ + s,
    }
}

impl ForkError {
    /// The error's message.
    pub fn to_text(&self) -> (r: String)
        ensures
            r@ == error_text(self@),
    {
        match self {
            ForkError::Transport(s) => join2("RPC transport error: ", s.as_str()),
            ForkError::RpcError(s) => join2("RPC returned error: ", s.as_str()),
            ForkError::RpcNoResult => "RPC response had no result field".to_owned(),
            ForkError::Xdr(s) => join2("XDR codec error: ", s.as_str()),
            ForkError::Base64(s) => join2("base64 decode error: ", s.as_str()),
            ForkError::Json(s) => join2("JSON codec error: ", s.as_str()),
            ForkError::Cache { path, message } => join4(
                "cache I/O error at ",
                path.as_str(),
                ": ",
                message.as_str(),
            ),
            ForkError::Host(s) => join2("host error: ", s.as_str()),
            ForkError::Workspace(s) => join2("workspace error: ", s.as_str()),
        }
    }
}

/// Every error tells what it is about and ends with what went wrong.
pub proof fn law_errors_tell_what_went_wrong(s: Seq<char>, path: Seq<char>)
    ensures
        error_text(ErrorView::Transport(s)) == "RPC transport error: "@ + s,
        error_text(ErrorView::RpcError(s)) == "RPC returned error: "@ + s,
        error_text(ErrorView::Xdr(s)) == "XDR codec error: "@ + s,
        error_text(ErrorView::Base64(s)) == "base64 decode error: "@ + s,
        error_text(ErrorView::Json(s)) == "JSON codec error: "@ + s,
        error_text(ErrorView::Cache { path, message: s }) == "cache I/O error at "@ + path + ": "@ + s,
        error_text(ErrorView::Host(s)) == "host error: "@ + s,
        error_text(ErrorView::Workspace(s)) == "workspace error: "@ + s,
{
}

} // verus!
