//! Static identity of a message type: what a publication or subscription
//! advertises about the values that flow over its topic.

use vstd::prelude::*;

verus! {

/// The static identifiers of a message type: its canonical name
/// (`std_msgs/Int32`), its MD5-style hash, and its declared definition text.
/// Endpoints store these erased identifiers; the typed codec lives with the
/// transport, outside this library.
pub struct MessageType {
    pub name: String,
    pub md5sum: String,
    pub definition: String,
}

/// Mathematical image of a `MessageType`: the three identifiers as
/// character sequences.
pub struct MessageTypeView {
    pub name: Seq<char>,
    pub md5sum: Seq<char>,
    pub definition: Seq<char>,
}

impl View for MessageType {
    type V = MessageTypeView;

    open spec fn view(&self) -> MessageTypeView {
        MessageTypeView { name: self.name@, md5sum: self.md5sum@, definition: self.definition@ }
    }
}

} // verus!
