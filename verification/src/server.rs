//! The JSON-RPC server: its wire format, what its worker does with the fork,
//! and how each method goes about its work.

pub mod actor;
pub mod handlers;
pub mod laws;
pub mod types;

use vstd::prelude::*;

use crate::error::{error_text, ErrorView, ForkError};
use crate::fork::ForkConfig;
use crate::text::join2;

verus! {

/// Where a server listens unless it is told otherwise.
pub const DEFAULT_LISTEN: &'static str = "127.0.0.1:8000";

/// Why a server could not serve.
#[derive(Debug)]
pub enum ServeError {
    /// The fork could not be built.
    Fork(ForkError),
    /// Listening or serving failed.
    Io(String),
    /// The worker was gone before it could tell whether the fork was built.
    WorkerAborted,
}

/// The content of a serving error.
pub enum ServeErrorView {
    Fork(ErrorView),
    Io(Seq<char>),
    WorkerAborted,
}

impl View for ServeError {
    type V = ServeErrorView;

    open spec fn view(&self) -> ServeErrorView {
        match *self {
            ServeError::Fork(e) => ServeErrorView::Fork(e@),
            ServeError::Io(m) => ServeErrorView::Io(m@),
            ServeError::WorkerAborted => ServeErrorView::WorkerAborted,
        }
    }
}

/// The text of a serving error.
pub open spec fn serve_error_text(e: ServeErrorView) -> Seq<char> {
    match e {
        ServeErrorView::Fork(e) => "fork build failed: "@ + error_text(e),
        ServeErrorView::Io(m) => "listener I/O error: "@ + m,
        ServeErrorView::WorkerAborted => "worker thread aborted before reporting build status"@,
    }
}

impl ServeError {
    /// The text of the error.
    pub fn to_text(&self) -> (r: String)
        ensures
            r@ == serve_error_text(self@),
    {
        match self {
            ServeError::Fork(e) => join2("fork build failed: ", e.to_text().as_str()),
            ServeError::Io(m) => join2("listener I/O error: ", m.as_str()),
            ServeError::WorkerAborted => "worker thread aborted before reporting build status".to_owned(),
        }
    }
}

/// A server for a fork.
pub struct Server;

/// What a server is to serve, and where.
#[derive(Debug)]
pub struct ServerBuilder {
    pub config: ForkConfig,
    pub listen: Option<String>,
}

impl Server {
    /// Plan a server for a fork.
    pub fn builder(config: ForkConfig) -> (r: ServerBuilder)
        ensures
            r.config == config,
            r.listen is None,
    {
        ServerBuilder { config, listen: None }
    }
}

impl ServerBuilder {
    /// Choose where to listen.
    pub fn listen(self, addr: &str) -> (r: ServerBuilder)
        ensures
            r.config == self.config,
            r.listen matches Some(a) && a@ == addr@,
    {
        ServerBuilder { config: self.config, listen: Some(addr.to_owned()) }
    }

    /// Where the server is to listen.
    pub fn address(&self) -> (r: String)
        ensures
            r@ == (match self.listen {
                Some(a) => a@,
                None => DEFAULT_LISTEN@,
            }),
    {
        match &self.listen {
            Some(a) => a.as_str().to_owned(),
            None => DEFAULT_LISTEN.to_owned(),
        }
    }
}

/// A refusal to serve tells which step failed and ends with what went wrong.
pub proof fn law_serving_errors_tell_what_went_wrong(e: ErrorView, m: Seq<char>)
    ensures
        serve_error_text(ServeErrorView::Fork(e)) == "fork build failed: "@ + error_text(e),
        serve_error_text(ServeErrorView::Io(m)) == "listener I/O error: "@ + m,
{
}

/// A server listens where it is told to, and only on this machine otherwise.
pub proof fn law_servers_listen_where_they_are_told(
    config: ForkConfig,
    b: ServerBuilder,
    addr: &str,
    c: ServerBuilder,
    usual: String,
    told: String,
)
    requires
        call_ensures(Server::builder, (config,), b),
        call_ensures(ServerBuilder::listen, (b, addr), c),
        call_ensures(ServerBuilder::address, (&b,), usual),
        call_ensures(ServerBuilder::address, (&c,), told),
    ensures
        usual@ == "127.0.0.1:8000"@,
        told@ == addr@,
        c.config == config,
{
}

} // verus!
