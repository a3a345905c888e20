//! Publisher endpoints and the stream handles users send through.

use vstd::prelude::*;
use crate::msg::{MessageType, MessageTypeView};
use crate::table::Keyed;

verus! {

/// An outbound publication endpoint: the topic it serves, the message-type
/// identifiers it advertises, and the transport address (host plus the port
/// the OS chose for its listener) at which peers reach it.  The listening
/// socket itself is owned by the transport outside the library; the registry
/// records the address the transport reported and keeps it stable for the
/// publication's lifetime.
pub struct Publication {
    pub topic: String,
    pub msg_type: MessageType,
    pub hostname: String,
    pub port: u16,
}

/// Mathematical image of a `Publication`.
pub struct PublicationView {
    pub topic: Seq<char>,
    pub msg_type: MessageTypeView,
    pub hostname: Seq<char>,
    pub port: u16,
}

impl View for Publication {
    type V = PublicationView;

    open spec fn view(&self) -> PublicationView {
        PublicationView {
            topic: self.topic@,
            msg_type: self.msg_type@,
            hostname: self.hostname@,
            port: self.port,
        }
    }
}

impl Keyed for Publication {
    open spec fn key(&self) -> Seq<char> {
        self.topic@
    }
}

/// A cheap handle through which the user sends on a publication.  Several
/// handles may point at one publication; a handle names the topic and the
/// publication's advertised address, and stays valid only while the registry
/// still lists a publication with that very address (see
/// `Slave::stream_is_live`).
pub struct PublisherStream {
    pub topic: String,
    pub hostname: String,
    pub port: u16,
}

/// Mathematical image of a `PublisherStream`.
pub struct PublisherStreamView {
    pub topic: Seq<char>,
    pub hostname: Seq<char>,
    pub port: u16,
}

impl View for PublisherStream {
    type V = PublisherStreamView;

    open spec fn view(&self) -> PublisherStreamView {
        PublisherStreamView { topic: self.topic@, hostname: self.hostname@, port: self.port }
    }
}

impl Clone for PublisherStream {
    /// Handles are freely duplicated; every copy points at the same
    /// publication.
    fn clone(&self) -> (r: Self)
        ensures
            r@ == self@,
    {
        PublisherStream {
            topic: self.topic.clone(),
            hostname: self.hostname.clone(),
            port: self.port,
        }
    }
}

impl Publication {
    /// A fresh stream handle onto this publication.
    pub fn stream(&self) -> (r: PublisherStream)
        ensures
            r@.topic == self@.topic,
            r@.hostname == self@.hostname,
            r@.port == self@.port,
    {
        PublisherStream {
            topic: self.topic.clone(),
            hostname: self.hostname.clone(),
            port: self.port,
        }
    }
}

} // verus!
