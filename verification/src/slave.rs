//! The slave facade and the peer-facing handler surface.
//!
//! A `Slave` owns the node's two topic tables and its advertised identity.
//! User code drives `add_publication`, `add_subscription` and their inverses;
//! peers reach `get_publications`, `request_topic` and `publisher_update`
//! through the RPC server that the embedding program runs.  The operations
//! that block — binding a publisher's listening socket, starting the RPC
//! server, opening a transport connection to an upstream publisher — happen
//! outside the library; their outcomes enter as plain values (`bind`, the
//! final server URI) or leave as plain values (the URIs still to connect).

use vstd::prelude::*;
use crate::errors::{ServerError, ServerErrorView, TransportError};
use crate::msg::{MessageType, MessageTypeView};
use crate::pubs::{Publication, PublicationView, PublisherStream, PublisherStreamView};
use crate::subs::{
    contains_uri, lemma_unique_uris_push, lemma_uri_set_contains, lemma_uri_set_push, subs_wf,
    Subscription, SubscriptionView, unique_uris, uri_set,
};
use crate::table::{
    as_map, lemma_as_map_contains, lemma_as_map_index, lemma_as_map_push, lemma_as_map_remove,
    lemma_unique_keys_push, unique_keys, Keyed,
};

verus! {

/// Mathematical image of a `Slave`: its immutable identity and the two
/// tables as finite maps from topic name to endpoint image.
#[verifier::ext_equal]
pub struct SlaveView {
    pub name: Seq<char>,
    pub master_uri: Seq<char>,
    pub uri: Seq<char>,
    pub publications: Map<Seq<char>, PublicationView>,
    pub subscriptions: Map<Seq<char>, SubscriptionView>,
}

/// What `add_publication` does to the state: nothing when the topic is
/// already published or when the listener bind failed; otherwise it files a
/// new publication under the topic.
pub open spec fn spec_add_publication(
    s: SlaveView,
    hostname: Seq<char>,
    topic: Seq<char>,
    mt: MessageTypeView,
    bind: Result<u16, Seq<char>>,
) -> SlaveView {
    if s.publications.contains_key(topic) {
        s
    } else {
        match bind {
            Ok(port) => SlaveView {
                publications: s.publications.insert(
                    topic,
                    PublicationView { topic, msg_type: mt, hostname, port },
                ),
                ..s
            },
            Err(_) => s,
        }
    }
}

/// What `add_publication` returns: a stream onto the existing publication
/// when the topic is already published, a stream onto the fresh one when the
/// bind succeeded, and the transport error otherwise.
pub open spec fn spec_add_publication_result(
    s: SlaveView,
    hostname: Seq<char>,
    topic: Seq<char>,
    bind: Result<u16, Seq<char>>,
) -> Result<PublisherStreamView, Seq<char>> {
    if s.publications.contains_key(topic) {
        Ok(
            PublisherStreamView {
                topic: s.publications[topic].topic,
                hostname: s.publications[topic].hostname,
                port: s.publications[topic].port,
            },
        )
    } else {
        match bind {
            Ok(port) => Ok(PublisherStreamView { topic, hostname, port }),
            Err(e) => Err(e),
        }
    }
}

/// What `remove_publication` does to the state.
pub open spec fn spec_remove_publication(s: SlaveView, topic: Seq<char>) -> SlaveView {
    SlaveView { publications: s.publications.remove(topic), ..s }
}

/// What `add_subscription` does to the state: nothing on a duplicate topic;
/// otherwise it files a subscription with an empty upstream set.
pub open spec fn spec_add_subscription(
    s: SlaveView,
    topic: Seq<char>,
    mt: MessageTypeView,
    callback_id: u64,
) -> SlaveView {
    if s.subscriptions.contains_key(topic) {
        s
    } else {
        SlaveView {
            subscriptions: s.subscriptions.insert(
                topic,
                SubscriptionView { topic, msg_type: mt, callback_id, publishers: Set::empty() },
            ),
            ..s
        }
    }
}

/// What `remove_subscription` does to the state.
pub open spec fn spec_remove_subscription(s: SlaveView, topic: Seq<char>) -> SlaveView {
    SlaveView { subscriptions: s.subscriptions.remove(topic), ..s }
}

/// What `add_publishers_to_subscription` does to the state: nothing for an
/// unknown topic (the subscription may have been removed concurrently, and a
/// stale notification is dropped silently); otherwise the incoming URIs join
/// the subscription's upstream set.
pub open spec fn spec_add_publishers(
    s: SlaveView,
    topic: Seq<char>,
    uris: Set<Seq<char>>,
) -> SlaveView {
    if !s.subscriptions.contains_key(topic) {
        s
    } else {
        SlaveView {
            subscriptions: s.subscriptions.insert(
                topic,
                SubscriptionView {
                    publishers: s.subscriptions[topic].publishers.union(uris),
                    ..s.subscriptions[topic]
                },
            ),
            ..s
        }
    }
}

/// What `shutdown` does to the state: both tables are emptied; the node's
/// identity stays.
pub open spec fn spec_shutdown(s: SlaveView) -> SlaveView {
    SlaveView {
        publications: Map::empty(),
        subscriptions: Map::empty(),
        ..s
    }
}

/// Which callback a message arriving on a topic is routed to: the callback
/// of the topic's subscription, none once the subscription is gone.
pub open spec fn spec_callback_for(s: SlaveView, topic: Seq<char>) -> Option<u64> {
    if s.subscriptions.contains_key(topic) {
        Some(s.subscriptions[topic].callback_id)
    } else {
        None
    }
}

/// A stream handle is live while the registry still lists a publication
/// under the handle's topic at the handle's address.
pub open spec fn spec_stream_live(s: SlaveView, h: PublisherStreamView) -> bool {
    &&& s.publications.contains_key(h.topic)
    &&& s.publications[h.topic].hostname == h.hostname
    &&& s.publications[h.topic].port == h.port
}

/// Whether an offered protocol list names the supported TCP transport.
pub open spec fn spec_supports_tcpros(protocols: Seq<String>) -> bool {
    exists|i: int| 0 <= i < protocols.len() && protocols[i]@ == "TCPROS"@
}

/// The image of a bind outcome: the chosen port, or the transport error's
/// message.
pub open spec fn bind_view(bind: Result<u16, TransportError>) -> Result<u16, Seq<char>> {
    match bind {
        Ok(port) => Ok(port),
        Err(e) => Err(e@),
    }
}

/// The image of an `add_publication` outcome.
pub open spec fn stream_result_view(
    r: Result<PublisherStream, TransportError>,
) -> Result<PublisherStreamView, Seq<char>> {
    match r {
        Ok(h) => Ok(h@),
        Err(e) => Err(e@),
    }
}

/// The transport endpoint handed back by `request_topic`: the protocol name
/// and the publisher's advertised address.
pub struct TopicEndpoint {
    pub protocol: String,
    pub host: String,
    pub port: u16,
}

/// The tri-valued reply of `request_topic`: a status code (`1` success, `0`
/// soft miss, `-1` malformed), a human-readable message, and the endpoint on
/// success.
pub struct RequestTopicReply {
    pub code: i32,
    pub message: String,
    pub endpoint: Option<TopicEndpoint>,
}

/// The slave node's registry: its identity and its two topic tables.
///
/// Each table is a vector of endpoints with pairwise-distinct topic names;
/// its model is the map `self@.publications` respectively
/// `self@.subscriptions`.
pub struct Slave {
    name: String,
    master_uri: String,
    uri: String,
    publications: Vec<Publication>,
    subscriptions: Vec<Subscription>,
}

impl View for Slave {
    type V = SlaveView;

    closed spec fn view(&self) -> SlaveView {
        SlaveView {
            name: self.name@,
            master_uri: self.master_uri@,
            uri: self.uri@,
            publications: as_map(self.publications@),
            subscriptions: as_map(self.subscriptions@),
        }
    }
}

impl Slave {
    /// The tables are well formed: one publication and one subscription per
    /// topic, and no subscription holds an upstream URI twice.
    pub closed spec fn wf(&self) -> bool {
        &&& unique_keys(self.publications@)
        &&& unique_keys(self.subscriptions@)
        &&& subs_wf(self.subscriptions@)
    }

    /// A fresh slave with empty tables.  `server_uri` is the URI at which
    /// the embedding program's RPC server ended up answering (the server may
    /// substitute an OS-assigned port); it is recorded once and stays the
    /// slave's advertised URI for its whole lifetime.
    pub fn new(master_uri: &str, server_uri: &str, name: &str) -> (s: Slave)
        ensures
            s.wf(),
            s@ == (SlaveView {
                name: name@,
                master_uri: master_uri@,
                uri: server_uri@,
                publications: Map::empty(),
                subscriptions: Map::empty(),
            }),
    {
        let s = Slave {
            name: name.to_owned(),
            master_uri: master_uri.to_owned(),
            uri: server_uri.to_owned(),
            publications: Vec::new(),
            subscriptions: Vec::new(),
        };
        proof {
            assert(s@ =~~= (SlaveView {
                name: name@,
                master_uri: master_uri@,
                uri: server_uri@,
                publications: Map::empty(),
                subscriptions: Map::empty(),
            }));
        }
        s
    }

    /// The advertised RPC URI of this node.
    pub fn uri(&self) -> (r: &str)
        ensures
            r@ == self@.uri,
    {
        self.uri.as_str()
    }

    /// The URI of the master this node was configured against.
    pub fn master_uri(&self) -> (r: &str)
        ensures
            r@ == self@.master_uri,
    {
        self.master_uri.as_str()
    }

    /// The name this node advertises.
    pub fn name(&self) -> (r: &str)
        ensures
            r@ == self@.name,
    {
        self.name.as_str()
    }

    /// The index of the publication for `topic`, if one is filed.
    fn find_pub_index(&self, topic: &String) -> (r: Option<usize>)
        ensures
            match r {
                Some(i) => i < self.publications@.len()
                    && self.publications@[i as int].topic@ == topic@,
                None => forall|j: int|
                    0 <= j < self.publications@.len() ==> self.publications@[j].topic@ != topic@,
            },
    {
        let n = self.publications.len();
        let mut i: usize = 0;
        while i < n
            invariant
                n == self.publications@.len(),
                0 <= i <= n,
                forall|j: int| 0 <= j < i ==> self.publications@[j].topic@ != topic@,
            decreases n - i,
        {
            if self.publications[i].topic == *topic {
                return Some(i);
            }
            i = i + 1;
        }
        None
    }

    /// The index of the subscription for `topic`, if one is filed.
    fn find_sub_index(&self, topic: &String) -> (r: Option<usize>)
        ensures
            match r {
                Some(i) => i < self.subscriptions@.len()
                    && self.subscriptions@[i as int].topic@ == topic@,
                None => forall|j: int|
                    0 <= j < self.subscriptions@.len() ==> self.subscriptions@[j].topic@
                        != topic@,
            },
    {
        let n = self.subscriptions.len();
        let mut i: usize = 0;
        while i < n
            invariant
                n == self.subscriptions@.len(),
                0 <= i <= n,
                forall|j: int| 0 <= j < i ==> self.subscriptions@[j].topic@ != topic@,
            decreases n - i,
        {
            if self.subscriptions[i].topic == *topic {
                return Some(i);
            }
            i = i + 1;
        }
        None
    }

    /// Whether a publication for `topic` is filed.  The embedding program
    /// consults this before binding a listener, so that a duplicate
    /// `add_publication` costs no socket.
    pub fn is_publishing(&self, topic: &str) -> (r: bool)
        ensures
            r == self@.publications.contains_key(topic@),
    {
        proof {
            lemma_as_map_contains(self.publications@, topic@);
        }
        let topic_string: String = topic.to_owned();
        match self.find_pub_index(&topic_string) {
            Some(_) => true,
            None => false,
        }
    }

    /// File a publication for `topic` and hand back a stream onto it.
    ///
    /// If the topic is already published, the existing endpoint is reused
    /// and `bind` is not consulted: a fresh handle onto it comes back and
    /// the table is unchanged.  The message type is not revalidated against
    /// the existing entry; callers use one type per topic.  Otherwise
    /// `bind` — the outcome of binding the listener socket on `hostname` —
    /// decides: a bound port files the publication at `hostname:port`, a
    /// transport error comes back unchanged and leaves the table as it was.
    pub fn add_publication(
        &mut self,
        hostname: &str,
        topic: &str,
        msg_type: MessageType,
        bind: Result<u16, TransportError>,
    ) -> (r: Result<PublisherStream, TransportError>)
        requires
            old(self).wf(),
            topic@.len() > 0,
        ensures
            final(self).wf(),
            final(self)@ == spec_add_publication(
                old(self)@,
                hostname@,
                topic@,
                msg_type@,
                bind_view(bind),
            ),
            stream_result_view(r) == spec_add_publication_result(
                old(self)@,
                hostname@,
                topic@,
                bind_view(bind),
            ),
    {
        let topic_string: String = topic.to_owned();
        proof {
            lemma_as_map_contains(self.publications@, topic@);
        }
        match self.find_pub_index(&topic_string) {
            Some(i) => {
                proof {
                    lemma_as_map_index(self.publications@, i as int);
                }
                Ok(self.publications[i].stream())
            },
            None => {
                match bind {
                    Ok(port) => {
                        let publication = Publication {
                            topic: topic_string,
                            msg_type,
                            hostname: hostname.to_owned(),
                            port,
                        };
                        let stream = publication.stream();
                        proof {
                            lemma_as_map_push(self.publications@, publication);
                            lemma_unique_keys_push(self.publications@, publication);
                        }
                        self.publications.push(publication);
                        proof {
                            assert(self@ =~~= spec_add_publication(
                                old(self)@,
                                hostname@,
                                topic@,
                                msg_type@,
                                bind_view(Ok(port)),
                            ));
                        }
                        Ok(stream)
                    },
                    Err(e) => Err(e),
                }
            },
        }
    }

    /// Drop the publication for `topic` if one is filed; do nothing
    /// otherwise.  The embedding program closes the dropped endpoint's
    /// listener and streams; handles onto it go inert (`stream_is_live`
    /// turns false).
    pub fn remove_publication(&mut self, topic: &str)
        requires
            old(self).wf(),
        ensures
            final(self).wf(),
            final(self)@ == spec_remove_publication(old(self)@, topic@),
    {
        let topic_string: String = topic.to_owned();
        proof {
            lemma_as_map_contains(self.publications@, topic@);
        }
        match self.find_pub_index(&topic_string) {
            Some(i) => {
                proof {
                    lemma_as_map_remove(self.publications@, i as int);
                }
                self.publications.remove(i);
                proof {
                    assert(self@ =~~= spec_remove_publication(old(self)@, topic@));
                }
            },
            None => {
                proof {
                    assert(self@ =~~= spec_remove_publication(old(self)@, topic@));
                }
            },
        }
    }

    /// File a subscription for `topic`, routing to the callback named by
    /// `callback_id`.  A second subscription for one topic is a hard error:
    /// the call fails with a critical error and the existing subscription is
    /// untouched.  A fresh subscription starts with an empty upstream set.
    pub fn add_subscription(
        &mut self,
        topic: &str,
        msg_type: MessageType,
        callback_id: u64,
    ) -> (r: Result<(), ServerError>)
        requires
            old(self).wf(),
            topic@.len() > 0,
        ensures
            final(self).wf(),
            final(self)@ == spec_add_subscription(old(self)@, topic@, msg_type@, callback_id),
            r is Ok <==> !old(self)@.subscriptions.contains_key(topic@),
            r matches Err(e) ==> e@ == ServerErrorView::Critical(
                "Could not add duplicate subscription to topic"@,
            ),
    {
        let topic_string: String = topic.to_owned();
        proof {
            lemma_as_map_contains(self.subscriptions@, topic@);
        }
        match self.find_sub_index(&topic_string) {
            Some(_) => Err(
                ServerError::Critical("Could not add duplicate subscription to topic".to_owned()),
            ),
            None => {
                let subscription = Subscription {
                    topic: topic_string,
                    msg_type,
                    callback_id,
                    publishers: Vec::new(),
                };
                proof {
                    lemma_as_map_push(self.subscriptions@, subscription);
                    lemma_unique_keys_push(self.subscriptions@, subscription);
                    assert forall|j: int|
                        0 <= j < self.subscriptions@.push(subscription).len() implies unique_uris(
                        self.subscriptions@.push(subscription)[j].publishers@,
                    ) by {
                        if j < self.subscriptions@.len() {
                            assert(self.subscriptions@.push(subscription)[j]
                                == self.subscriptions@[j]);
                        } else {
                            assert(self.subscriptions@.push(subscription)[j] == subscription);
                        }
                    }
                }
                self.subscriptions.push(subscription);
                proof {
                    assert(self@ =~~= spec_add_subscription(
                        old(self)@,
                        topic@,
                        msg_type@,
                        callback_id,
                    ));
                }
                Ok(())
            },
        }
    }

    /// Drop the subscription for `topic` if one is filed; do nothing
    /// otherwise.  Afterwards no message on `topic` is routed to a callback
    /// (`deliver_target` turns `None`), and the embedding program closes the
    /// dropped endpoint's connections.
    pub fn remove_subscription(&mut self, topic: &str)
        requires
            old(self).wf(),
        ensures
            final(self).wf(),
            final(self)@ == spec_remove_subscription(old(self)@, topic@),
    {
        let topic_string: String = topic.to_owned();
        proof {
            lemma_as_map_contains(self.subscriptions@, topic@);
        }
        match self.find_sub_index(&topic_string) {
            Some(i) => {
                proof {
                    lemma_as_map_remove(self.subscriptions@, i as int);
                    self.subscriptions@.remove_ensures(i as int);
                    assert forall|j: int|
                        0 <= j < self.subscriptions@.remove(i as int).len() implies unique_uris(
                        self.subscriptions@.remove(i as int)[j].publishers@,
                    ) by {
                        if j < i {
                            assert(self.subscriptions@.remove(i as int)[j]
                                == self.subscriptions@[j]);
                        } else {
                            assert(self.subscriptions@.remove(i as int)[j]
                                == self.subscriptions@[j + 1]);
                        }
                    }
                }
                self.subscriptions.remove(i);
                proof {
                    assert(self@ =~~= spec_remove_subscription(old(self)@, topic@));
                }
            },
            None => {
                proof {
                    assert(self@ =~~= spec_remove_subscription(old(self)@, topic@));
                }
            },
        }
    }

    /// Join the incoming publisher URIs to the subscription for `topic` and
    /// hand back the URIs that are new — the ones the embedding program must
    /// now open transport connections to.  Each new URI comes back exactly
    /// once, however often it occurs in the input.  For an unknown topic the
    /// call is ignored silently and nothing is to be connected: the
    /// subscription may have been removed concurrently, and such a stale
    /// notification is dropped.
    pub fn add_publishers_to_subscription(
        &mut self,
        topic: &str,
        publishers: &Vec<String>,
    ) -> (connect: Vec<String>)
        requires
            old(self).wf(),
        ensures
            final(self).wf(),
            final(self)@ == spec_add_publishers(old(self)@, topic@, uri_set(publishers@)),
            unique_uris(connect@),
            old(self)@.subscriptions.contains_key(topic@) ==> uri_set(connect@) == uri_set(
                publishers@,
            ).difference(old(self)@.subscriptions[topic@].publishers),
            !old(self)@.subscriptions.contains_key(topic@) ==> connect@.len() == 0,
    {
        let topic_string: String = topic.to_owned();
        proof {
            lemma_as_map_contains(self.subscriptions@, topic@);
        }
        let mut connect: Vec<String> = Vec::new();
        match self.find_sub_index(&topic_string) {
            None => {
                proof {
                    assert(self@ =~~= spec_add_publishers(
                        old(self)@,
                        topic@,
                        uri_set(publishers@),
                    ));
                }
                connect
            },
            Some(i) => {
                let ghost s0 = self.subscriptions@;
                proof {
                    lemma_as_map_index(s0, i as int);
                    lemma_as_map_remove(s0, i as int);
                    s0.remove_ensures(i as int);
                }
                let mut subscription = self.subscriptions.remove(i);
                let ghost base = uri_set(subscription.publishers@);
                let n = publishers.len();
                let mut j: usize = 0;
                while j < n
                    invariant
                        n == publishers@.len(),
                        0 <= j <= n,
                        subscription.topic@ == s0[i as int].topic@,
                        subscription.msg_type@ == s0[i as int].msg_type@,
                        subscription.callback_id == s0[i as int].callback_id,
                        base == uri_set(s0[i as int].publishers@),
                        unique_uris(subscription.publishers@),
                        uri_set(subscription.publishers@) == base.union(
                            uri_set(publishers@.take(j as int)),
                        ),
                        unique_uris(connect@),
                        uri_set(connect@) == uri_set(publishers@.take(j as int)).difference(base),
                    decreases n - j,
                {
                    let ghost taken = publishers@.take(j as int);
                    let ghost incoming = publishers@[j as int];
                    proof {
                        assert(publishers@.take(j as int + 1) =~= taken.push(incoming));
                        lemma_uri_set_push(taken, incoming);
                        lemma_uri_set_contains(subscription.publishers@, incoming@);
                        lemma_uri_set_contains(connect@, incoming@);
                    }
                    if !contains_uri(&subscription.publishers, &publishers[j]) {
                        let ghost subs_before = subscription.publishers@;
                        let ghost connect_before = connect@;
                        proof {
                            lemma_unique_uris_push(subs_before, incoming);
                            lemma_unique_uris_push(connect_before, incoming);
                        }
                        subscription.publishers.push(publishers[j].clone());
                        connect.push(publishers[j].clone());
                        proof {
                            assert(subscription.publishers@ == subs_before.push(incoming));
                            assert(connect@ == connect_before.push(incoming));
                            lemma_uri_set_push(subs_before, incoming);
                            lemma_uri_set_push(connect_before, incoming);
                            assert(uri_set(subscription.publishers@) =~= base.union(
                                uri_set(publishers@.take(j as int + 1)),
                            ));
                            assert(uri_set(connect@) =~= uri_set(
                                publishers@.take(j as int + 1),
                            ).difference(base));
                        }
                    } else {
                        proof {
                            assert(uri_set(subscription.publishers@) =~= base.union(
                                uri_set(publishers@.take(j as int + 1)),
                            ));
                            assert(uri_set(connect@) =~= uri_set(
                                publishers@.take(j as int + 1),
                            ).difference(base));
                        }
                    }
                    j = j + 1;
                }
                proof {
                    assert(publishers@.take(n as int) =~= publishers@);
                    lemma_as_map_contains(self.subscriptions@, topic@);
                    lemma_as_map_push(self.subscriptions@, subscription);
                    lemma_unique_keys_push(self.subscriptions@, subscription);
                    assert forall|k: int|
                        0 <= k < self.subscriptions@.push(subscription).len() implies unique_uris(
                        self.subscriptions@.push(subscription)[k].publishers@,
                    ) by {
                        if k < self.subscriptions@.len() {
                            assert(self.subscriptions@.push(subscription)[k]
                                == self.subscriptions@[k]);
                            if k < i {
                                assert(self.subscriptions@[k] == s0[k]);
                            } else {
                                assert(self.subscriptions@[k] == s0[k + 1]);
                            }
                        } else {
                            assert(self.subscriptions@.push(subscription)[k] == subscription);
                        }
                    }
                }
                self.subscriptions.push(subscription);
                proof {
                    assert(self@ =~~= spec_add_publishers(
                        old(self)@,
                        topic@,
                        uri_set(publishers@),
                    ));
                }
                connect
            },
        }
    }

    /// The peer-facing `publisherUpdate` call: a master or peer reports the
    /// full publisher set now known for `topic`.  An empty topic name is a
    /// malformed call and is rejected with a protocol error; otherwise the
    /// update forwards to `add_publishers_to_subscription` and the URIs
    /// still to be connected come back.
    pub fn publisher_update(
        &mut self,
        _caller_id: &str,
        topic: &str,
        publishers: &Vec<String>,
    ) -> (r: Result<Vec<String>, ServerError>)
        requires
            old(self).wf(),
        ensures
            final(self).wf(),
            topic@.len() == 0 ==> final(self)@ == old(self)@ && (r matches Err(e) && e@
                is Protocol),
            topic@.len() > 0 ==> final(self)@ == spec_add_publishers(
                old(self)@,
                topic@,
                uri_set(publishers@),
            ),
            topic@.len() > 0 ==> (r matches Ok(connect) && unique_uris(connect@) && (old(
                self,
            )@.subscriptions.contains_key(topic@) ==> uri_set(connect@) == uri_set(
                publishers@,
            ).difference(old(self)@.subscriptions[topic@].publishers)) && (!old(
                self,
            )@.subscriptions.contains_key(topic@) ==> connect@.len() == 0)),
    {
        if topic.is_empty() {
            Err(ServerError::Protocol("publisher update for an empty topic name".to_owned()))
        } else {
            Ok(self.add_publishers_to_subscription(topic, publishers))
        }
    }

    /// The peer-facing `requestTopic` call: look the topic's publication up
    /// and, when one of the offered protocols is the supported TCP
    /// transport, answer success (code `1`) with the publication's
    /// advertised address.  An unknown topic or an unsupported protocol list
    /// is a soft miss: code `0` and no endpoint.
    pub fn request_topic(
        &self,
        _caller_id: &str,
        topic: &str,
        protocols: &Vec<String>,
    ) -> (r: RequestTopicReply)
        requires
            self.wf(),
        ensures
            self@.publications.contains_key(topic@) && spec_supports_tcpros(protocols@) ==> {
                &&& r.code == 1
                &&& r.endpoint matches Some(e) && e.protocol@ == "TCPROS"@ && e.host@
                    == self@.publications[topic@].hostname && e.port
                    == self@.publications[topic@].port
            },
            !(self@.publications.contains_key(topic@) && spec_supports_tcpros(protocols@)) ==> {
                &&& r.code == 0
                &&& r.endpoint is None
            },
    {
        let tcpros: String = "TCPROS".to_owned();
        let n = protocols.len();
        let mut supported = false;
        let mut k: usize = 0;
        while k < n
            invariant
                n == protocols@.len(),
                0 <= k <= n,
                supported <==> exists|j: int| 0 <= j < k && protocols@[j]@ == "TCPROS"@,
                tcpros@ == "TCPROS"@,
            decreases n - k,
        {
            if protocols[k] == tcpros {
                supported = true;
            }
            k = k + 1;
        }
        proof {
            lemma_as_map_contains(self.publications@, topic@);
        }
        if !supported {
            return RequestTopicReply {
                code: 0,
                message: "no supported protocol was offered".to_owned(),
                endpoint: None,
            };
        }
        let topic_string: String = topic.to_owned();
        match self.find_pub_index(&topic_string) {
            Some(i) => {
                proof {
                    lemma_as_map_index(self.publications@, i as int);
                }
                let publication = &self.publications[i];
                RequestTopicReply {
                    code: 1,
                    message: "ready on the advertised address".to_owned(),
                    endpoint: Some(
                        TopicEndpoint {
                            protocol: tcpros,
                            host: publication.hostname.clone(),
                            port: publication.port,
                        },
                    ),
                }
            },
            None => RequestTopicReply {
                code: 0,
                message: "no publication for the requested topic".to_owned(),
                endpoint: None,
            },
        }
    }

    /// The peer-facing `getPublications` call: a snapshot of the publication
    /// table as `(topic, type name)` pairs, one per publication, in no
    /// promised order.
    pub fn get_publications(&self) -> (r: Vec<(String, String)>)
        requires
            self.wf(),
        ensures
            forall|i: int|
                0 <= i < r@.len() ==> self@.publications.contains_key(#[trigger] r@[i].0@)
                    && self@.publications[r@[i].0@].msg_type.name == r@[i].1@,
            forall|t: Seq<char>|
                self@.publications.contains_key(t) ==> exists|i: int|
                    0 <= i < r@.len() && #[trigger] r@[i].0@ == t,
            forall|i: int, j: int| 0 <= i < j < r@.len() ==> r@[i].0@ != r@[j].0@,
    {
        let n = self.publications.len();
        let mut r: Vec<(String, String)> = Vec::new();
        let mut i: usize = 0;
        while i < n
            invariant
                n == self.publications@.len(),
                0 <= i <= n,
                r@.len() == i,
                forall|j: int|
                    0 <= j < i ==> #[trigger] r@[j].0@ == self.publications@[j].topic@ && r@[j].1@
                        == self.publications@[j].msg_type.name@,
            decreases n - i,
        {
            let entry = &self.publications[i];
            r.push((entry.topic.clone(), entry.msg_type.name.clone()));
            proof {
                assert(r@[i as int].0@ == self.publications@[i as int].topic@);
                assert(r@[i as int].1@ == self.publications@[i as int].msg_type.name@);
            }
            i = i + 1;
        }
        proof {
            assert forall|i: int|
                0 <= i < r@.len() implies self@.publications.contains_key(#[trigger] r@[i].0@)
                && self@.publications[r@[i].0@].msg_type.name == r@[i].1@ by {
                lemma_as_map_index(self.publications@, i);
            }
            assert forall|t: Seq<char>|
                self@.publications.contains_key(t) implies exists|i: int|
                0 <= i < r@.len() && #[trigger] r@[i].0@ == t by {
                lemma_as_map_contains(self.publications@, t);
                let j = choose|j: int|
                    0 <= j < self.publications@.len() && self.publications@[j].topic@ == t;
                assert(r@[j].0@ == t);
            }
        }
        r
    }

    /// The peer-facing `getSubscriptions` call: a snapshot of the
    /// subscription table as `(topic, type name)` pairs.
    pub fn get_subscriptions(&self) -> (r: Vec<(String, String)>)
        requires
            self.wf(),
        ensures
            forall|i: int|
                0 <= i < r@.len() ==> self@.subscriptions.contains_key(#[trigger] r@[i].0@)
                    && self@.subscriptions[r@[i].0@].msg_type.name == r@[i].1@,
            forall|t: Seq<char>|
                self@.subscriptions.contains_key(t) ==> exists|i: int|
                    0 <= i < r@.len() && #[trigger] r@[i].0@ == t,
            forall|i: int, j: int| 0 <= i < j < r@.len() ==> r@[i].0@ != r@[j].0@,
    {
        let n = self.subscriptions.len();
        let mut r: Vec<(String, String)> = Vec::new();
        let mut i: usize = 0;
        while i < n
            invariant
                n == self.subscriptions@.len(),
                0 <= i <= n,
                r@.len() == i,
                forall|j: int|
                    0 <= j < i ==> #[trigger] r@[j].0@ == self.subscriptions@[j].topic@ && r@[j].1@
                        == self.subscriptions@[j].msg_type.name@,
            decreases n - i,
        {
            let entry = &self.subscriptions[i];
            r.push((entry.topic.clone(), entry.msg_type.name.clone()));
            proof {
                assert(r@[i as int].0@ == self.subscriptions@[i as int].topic@);
                assert(r@[i as int].1@ == self.subscriptions@[i as int].msg_type.name@);
            }
            i = i + 1;
        }
        proof {
            assert forall|i: int|
                0 <= i < r@.len() implies self@.subscriptions.contains_key(#[trigger] r@[i].0@)
                && self@.subscriptions[r@[i].0@].msg_type.name == r@[i].1@ by {
                lemma_as_map_index(self.subscriptions@, i);
            }
            assert forall|t: Seq<char>|
                self@.subscriptions.contains_key(t) implies exists|i: int|
                0 <= i < r@.len() && #[trigger] r@[i].0@ == t by {
                lemma_as_map_contains(self.subscriptions@, t);
                let j = choose|j: int|
                    0 <= j < self.subscriptions@.len() && self.subscriptions@[j].topic@ == t;
                assert(r@[j].0@ == t);
            }
        }
        r
    }

    /// Which callback a message arriving on `topic` is routed to.  Transport
    /// readers consult this on every decoded message; after
    /// `remove_subscription` it answers `None` and nothing is delivered.
    pub fn deliver_target(&self, topic: &str) -> (r: Option<u64>)
        requires
            self.wf(),
        ensures
            r == spec_callback_for(self@, topic@),
    {
        proof {
            lemma_as_map_contains(self.subscriptions@, topic@);
        }
        let topic_string: String = topic.to_owned();
        match self.find_sub_index(&topic_string) {
            Some(i) => {
                proof {
                    lemma_as_map_index(self.subscriptions@, i as int);
                }
                Some(self.subscriptions[i].callback_id)
            },
            None => None,
        }
    }

    /// Whether a stream handle still reaches a live publication: its topic
    /// is published at the very address the handle carries.  A send on a
    /// handle for which this is false fails with a transport error instead
    /// of reaching any peer.
    pub fn stream_is_live(&self, handle: &PublisherStream) -> (r: bool)
        requires
            self.wf(),
        ensures
            r == spec_stream_live(self@, handle@),
    {
        proof {
            lemma_as_map_contains(self.publications@, handle.topic@);
        }
        match self.find_pub_index(&handle.topic) {
            Some(i) => {
                proof {
                    lemma_as_map_index(self.publications@, i as int);
                }
                let publication = &self.publications[i];
                publication.hostname == handle.hostname && publication.port == handle.port
            },
            None => false,
        }
    }

    /// The peer-facing `shutdown` call, and the teardown path: both tables
    /// are emptied, which drops every endpoint.  The node's identity and
    /// advertised URI stay what they were.
    pub fn shutdown(&mut self)
        requires
            old(self).wf(),
        ensures
            final(self).wf(),
            final(self)@ == spec_shutdown(old(self)@),
    {
        self.publications.clear();
        self.subscriptions.clear();
        proof {
            assert(self@ =~~= spec_shutdown(old(self)@));
        }
    }
}

} // verus!
