//! Error values surfaced by the registry.

use vstd::prelude::*;

verus! {

/// A failure of the slave's own API surface.
#[derive(Debug)]
pub enum ServerError {
    /// An invariant violation attributable to the caller, such as a
    /// duplicate subscription.
    Critical(String),
    /// A malformed peer call, such as an empty topic name.
    Protocol(String),
}

/// Mathematical image of a `ServerError`.
pub enum ServerErrorView {
    Critical(Seq<char>),
    Protocol(Seq<char>),
}

impl View for ServerError {
    type V = ServerErrorView;

    open spec fn view(&self) -> ServerErrorView {
        match self {
            ServerError::Critical(m) => ServerErrorView::Critical(m@),
            ServerError::Protocol(m) => ServerErrorView::Protocol(m@),
        }
    }
}

impl ServerError {
    /// The human-readable text carried by the error.
    pub fn message(&self) -> (r: &str)
        ensures
            self@ is Critical ==> r@ == self@->Critical_0,
            self@ is Protocol ==> r@ == self@->Protocol_0,
    {
        match self {
            ServerError::Critical(m) => m.as_str(),
            ServerError::Protocol(m) => m.as_str(),
        }
    }
}

/// A socket or transport-protocol failure, reported by the transport that
/// binds listeners and opens peer connections.
#[derive(Debug)]
pub struct TransportError {
    pub message: String,
}

impl View for TransportError {
    type V = Seq<char>;

    open spec fn view(&self) -> Seq<char> {
        self.message@
    }
}

} // verus!
