//! The registry's general guarantees, stated and proved over the state
//! transitions that the `Slave` methods are specified by.

use vstd::prelude::*;
use crate::msg::MessageTypeView;
use crate::slave::{
    spec_add_publication, spec_add_publication_result, spec_add_publishers, spec_add_subscription,
    spec_callback_for, spec_remove_publication, spec_remove_subscription, spec_shutdown, SlaveView,
};

verus! {

/// One step of publication-table traffic: an `add_publication` with its
/// bind outcome, or a `remove_publication`.
pub enum PubOp {
    Add {
        hostname: Seq<char>,
        topic: Seq<char>,
        msg_type: MessageTypeView,
        bind: Result<u16, Seq<char>>,
    },
    Remove { topic: Seq<char> },
}

/// The state after a sequence of publication operations.
pub open spec fn apply_pub_ops(s: SlaveView, ops: Seq<PubOp>) -> SlaveView
    decreases ops.len(),
{
    if ops.len() == 0 {
        s
    } else {
        let prev = apply_pub_ops(s, ops.drop_last());
        match ops.last() {
            PubOp::Add { hostname, topic, msg_type, bind } => spec_add_publication(
                prev,
                hostname,
                topic,
                msg_type,
                bind,
            ),
            PubOp::Remove { topic } => spec_remove_publication(prev, topic),
        }
    }
}

/// Whether `topic` is currently added but not removed after `ops`: its last
/// effective operation is an add whose bind succeeded — or nothing in `ops`
/// touched it and it was published at the start.
pub open spec fn pub_live(s: SlaveView, ops: Seq<PubOp>, t: Seq<char>) -> bool
    decreases ops.len(),
{
    if ops.len() == 0 {
        s.publications.contains_key(t)
    } else {
        match ops.last() {
            PubOp::Add { topic, bind, .. } => if topic == t && bind is Ok {
                true
            } else {
                pub_live(s, ops.drop_last(), t)
            },
            PubOp::Remove { topic } => if topic == t {
                false
            } else {
                pub_live(s, ops.drop_last(), t)
            },
        }
    }
}

/// For any interleaving of `add_publication` and `remove_publication`, the
/// publication table's key set is exactly the set of topics currently added
/// but not removed.  The subscriptions and the node's identity stay
/// untouched throughout.
pub proof fn lemma_publication_table_tracks_ops(s: SlaveView, ops: Seq<PubOp>)
    ensures
        apply_pub_ops(s, ops).publications.dom() =~= Set::new(
            |t: Seq<char>| pub_live(s, ops, t),
        ),
        apply_pub_ops(s, ops).subscriptions == s.subscriptions,
        apply_pub_ops(s, ops).uri == s.uri,
        apply_pub_ops(s, ops).name == s.name,
        apply_pub_ops(s, ops).master_uri == s.master_uri,
    decreases ops.len(),
{
    if ops.len() == 0 {
    } else {
        lemma_publication_table_tracks_ops(s, ops.drop_last());
        let prev = apply_pub_ops(s, ops.drop_last());
        assert forall|t: Seq<char>|
            apply_pub_ops(s, ops).publications.dom().contains(t) == pub_live(s, ops, t) by {
            assert(prev.publications.dom().contains(t) == pub_live(s, ops.drop_last(), t));
        }
    }
}

/// Two `add_publication` calls for one topic share a single endpoint: after
/// the first files the publication, the second changes nothing — whatever
/// its own bind outcome — and both stream handles carry the one advertised
/// address.  The topic is listed exactly once throughout.
pub proof fn lemma_duplicate_publication_shares_endpoint(
    s: SlaveView,
    hostname: Seq<char>,
    topic: Seq<char>,
    mt1: MessageTypeView,
    mt2: MessageTypeView,
    port: u16,
    bind2: Result<u16, Seq<char>>,
)
    requires
        !s.publications.contains_key(topic),
    ensures
        ({
            let s1 = spec_add_publication(s, hostname, topic, mt1, Ok(port));
            let s2 = spec_add_publication(s1, hostname, topic, mt2, bind2);
            let r1 = spec_add_publication_result(s, hostname, topic, Ok(port));
            let r2 = spec_add_publication_result(s1, hostname, topic, bind2);
            &&& s2 == s1
            &&& s1.publications.dom() =~= s.publications.dom().insert(topic)
            &&& (r1 matches Ok(h1) && h1.topic == topic && h1.hostname == hostname && h1.port
                == port)
            &&& (r2 matches Ok(h2) && r1 matches Ok(h1) && h2 == h1)
        }),
{
}

/// A second subscription to one topic is rejected and leaves the first
/// untouched: the state does not change, and messages on the topic keep
/// going to the first callback.  (That the second call answers the duplicate
/// error is stated by `Slave::add_subscription` itself.)
pub proof fn lemma_duplicate_subscription_rejected(
    s: SlaveView,
    topic: Seq<char>,
    mt1: MessageTypeView,
    cb1: u64,
    mt2: MessageTypeView,
    cb2: u64,
)
    requires
        !s.subscriptions.contains_key(topic),
    ensures
        ({
            let s1 = spec_add_subscription(s, topic, mt1, cb1);
            let s2 = spec_add_subscription(s1, topic, mt2, cb2);
            &&& s1.subscriptions.contains_key(topic)
            &&& s2 == s1
            &&& spec_callback_for(s1, topic) == Some(cb1)
            &&& spec_callback_for(s2, topic) == Some(cb1)
        }),
{
}

/// Publisher updates are additive: after updates with publisher sets `u1`
/// and then `u2 ⊇ u1`, the second update connects only to `u2 \ u1` (what
/// the second call connects is `u2` less the upstreams already present), and
/// the upstream set ends as the union of everything reported.
pub proof fn lemma_publisher_update_additive(
    s: SlaveView,
    topic: Seq<char>,
    u1: Set<Seq<char>>,
    u2: Set<Seq<char>>,
)
    requires
        s.subscriptions.contains_key(topic),
        u1.subset_of(u2),
    ensures
        ({
            let s1 = spec_add_publishers(s, topic, u1);
            let second = u2.difference(s1.subscriptions[topic].publishers);
            &&& second.subset_of(u2.difference(u1))
            &&& spec_add_publishers(s1, topic, u2).subscriptions[topic].publishers
                =~= s.subscriptions[topic].publishers.union(u2)
        }),
{
}

/// After `remove_subscription`, nothing is delivered for the topic any
/// more: no callback is routed to, and a stale publisher update for the
/// removed topic is dropped silently without reviving it.
pub proof fn lemma_removed_subscription_gets_nothing(
    s: SlaveView,
    topic: Seq<char>,
    uris: Set<Seq<char>>,
)
    ensures
        ({
            let s1 = spec_remove_subscription(s, topic);
            &&& spec_callback_for(s1, topic) is None
            &&& spec_add_publishers(s1, topic, uris) == s1
            &&& spec_callback_for(spec_add_publishers(s1, topic, uris), topic) is None
        }),
{
}

/// The node's identity is stable: every operation of the slave's lifetime
/// preserves the advertised RPC URI (so `uri()` always answers the address
/// construction recorded and peers keep reaching the same node), the node
/// name, and the configured master URI.
pub proof fn lemma_identity_stable(
    s: SlaveView,
    hostname: Seq<char>,
    topic: Seq<char>,
    mt: MessageTypeView,
    bind: Result<u16, Seq<char>>,
    callback_id: u64,
    uris: Set<Seq<char>>,
)
    ensures
        spec_add_publication(s, hostname, topic, mt, bind).uri == s.uri,
        spec_remove_publication(s, topic).uri == s.uri,
        spec_add_subscription(s, topic, mt, callback_id).uri == s.uri,
        spec_remove_subscription(s, topic).uri == s.uri,
        spec_add_publishers(s, topic, uris).uri == s.uri,
        spec_shutdown(s).uri == s.uri,
        spec_add_publication(s, hostname, topic, mt, bind).name == s.name,
        spec_remove_publication(s, topic).name == s.name,
        spec_add_subscription(s, topic, mt, callback_id).name == s.name,
        spec_remove_subscription(s, topic).name == s.name,
        spec_add_publishers(s, topic, uris).name == s.name,
        spec_shutdown(s).name == s.name,
        spec_add_publication(s, hostname, topic, mt, bind).master_uri == s.master_uri,
        spec_remove_publication(s, topic).master_uri == s.master_uri,
        spec_add_subscription(s, topic, mt, callback_id).master_uri == s.master_uri,
        spec_remove_subscription(s, topic).master_uri == s.master_uri,
        spec_add_publishers(s, topic, uris).master_uri == s.master_uri,
        spec_shutdown(s).master_uri == s.master_uri,
{
}

} // verus!
