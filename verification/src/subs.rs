//! Subscriber endpoints and the set of upstream publishers each one follows.

use vstd::prelude::*;
use crate::msg::{MessageType, MessageTypeView};
use crate::table::Keyed;

verus! {

/// An inbound subscription endpoint: the topic, the message-type identifiers
/// it expects, the identifier of the user callback that each decoded message
/// is routed to, and the RPC URIs of the upstream publishers it is connected
/// to.  The callback closure itself and the reader threads that invoke it
/// live with the transport outside the library; the registry routes by the
/// callback identifier.
pub struct Subscription {
    pub topic: String,
    pub msg_type: MessageType,
    pub callback_id: u64,
    pub publishers: Vec<String>,
}

/// Mathematical image of a `Subscription`.  The upstream publishers form a
/// set: a subscriber never holds more than one entry per URI.
pub struct SubscriptionView {
    pub topic: Seq<char>,
    pub msg_type: MessageTypeView,
    pub callback_id: u64,
    pub publishers: Set<Seq<char>>,
}

impl View for Subscription {
    type V = SubscriptionView;

    open spec fn view(&self) -> SubscriptionView {
        SubscriptionView {
            topic: self.topic@,
            msg_type: self.msg_type@,
            callback_id: self.callback_id,
            publishers: uri_set(self.publishers@),
        }
    }
}

impl Keyed for Subscription {
    open spec fn key(&self) -> Seq<char> {
        self.topic@
    }
}

/// The set of URIs a vector of URI strings holds.
pub open spec fn uri_set(s: Seq<String>) -> Set<Seq<char>>
    decreases s.len(),
{
    if s.len() == 0 {
        Set::empty()
    } else {
        uri_set(s.drop_last()).insert(s.last()@)
    }
}

/// No URI occurs twice in the vector.
pub open spec fn unique_uris(s: Seq<String>) -> bool {
    forall|i: int, j: int| 0 <= i < j < s.len() ==> s[i]@ != s[j]@
}

/// Every subscription of the table holds each upstream URI at most once.
pub open spec fn subs_wf(s: Seq<Subscription>) -> bool {
    forall|i: int| 0 <= i < s.len() ==> unique_uris(#[trigger] s[i].publishers@)
}

/// A URI is in the set exactly when some element of the vector spells it.
pub proof fn lemma_uri_set_contains(s: Seq<String>, u: Seq<char>)
    ensures
        uri_set(s).contains(u) <==> exists|i: int| 0 <= i < s.len() && s[i]@ == u,
    decreases s.len(),
{
    if s.len() == 0 {
    } else {
        lemma_uri_set_contains(s.drop_last(), u);
        if s.last()@ == u {
            assert(s[s.len() - 1]@ == u);
        } else {
            if uri_set(s).contains(u) {
                let i = choose|i: int| 0 <= i < s.drop_last().len() && s.drop_last()[i]@ == u;
                assert(s[i]@ == u);
            }
            if exists|i: int| 0 <= i < s.len() && s[i]@ == u {
                let i = choose|i: int| 0 <= i < s.len() && s[i]@ == u;
                assert(i < s.len() - 1);
                assert(s.drop_last()[i]@ == u);
            }
        }
    }
}

/// Appending a URI string inserts that URI into the set.
pub proof fn lemma_uri_set_push(s: Seq<String>, u: String)
    ensures
        uri_set(s.push(u)) == uri_set(s).insert(u@),
{
    assert(s.push(u).drop_last() =~= s);
    assert(s.push(u).last() == u);
}

/// Appending a fresh URI keeps the vector duplicate-free.
pub proof fn lemma_unique_uris_push(s: Seq<String>, u: String)
    requires
        unique_uris(s),
        forall|i: int| 0 <= i < s.len() ==> s[i]@ != u@,
    ensures
        unique_uris(s.push(u)),
{
    assert forall|i: int, j: int|
        0 <= i < j < s.push(u).len() implies s.push(u)[i]@ != s.push(u)[j]@ by {
        if j < s.len() {
            assert(s.push(u)[i] == s[i]);
            assert(s.push(u)[j] == s[j]);
        } else {
            assert(s.push(u)[i] == s[i]);
            assert(s.push(u)[j] == u);
        }
    }
}

/// Whether the vector already holds the given URI.
pub fn contains_uri(v: &Vec<String>, u: &String) -> (r: bool)
    ensures
        r <==> uri_set(v@).contains(u@),
{
    let n = v.len();
    let mut i: usize = 0;
    while i < n
        invariant
            n == v@.len(),
            0 <= i <= n,
            forall|j: int| 0 <= j < i ==> v@[j]@ != u@,
        decreases n - i,
    {
        if v[i] == *u {
            proof {
                lemma_uri_set_contains(v@, u@);
                assert(v@[i as int]@ == u@);
            }
            return true;
        }
        i = i + 1;
    }
    proof {
        lemma_uri_set_contains(v@, u@);
    }
    false
}

} // verus!
