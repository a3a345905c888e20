//! Slave-side registry of a ROS-style publish/subscribe node.
//!
//! The library keeps the node's publication and subscription tables, answers
//! the peer-facing queries of the slave API over them, and decides which
//! transport connections a publisher-set update calls for.  Socket binding,
//! the XML-RPC server and the TCP transport itself live outside the library;
//! they hand in plain values (host names, ports, URIs) and act on the plain
//! values handed back.

pub mod errors;
pub mod laws;
pub mod msg;
pub mod pubs;
pub mod slave;
pub mod subs;
pub mod table;
