//! The connection registry and the in-process broadcast fan-out.
//!
//! A [`ConnectionManager`] tracks, for every live connection, the single
//! channel it is currently subscribed to (if any), and owns one bounded
//! buffer per connection through which published envelopes are fanned out.
//! Subscribing overwrites the previous channel (last write wins); removing a
//! connection erases both its subscription and its buffer. Publishing never
//! blocks: a buffer that is full drops its own oldest envelope and nothing
//! else — one slow consumer cannot stall the publisher or other consumers.
//!
//! The caller serializes access (one lock around the whole manager); methods
//! here take `&mut self` and hold no lock themselves.

use vstd::prelude::*;

use crate::assoc::{
    assoc_find, assoc_get, assoc_insert, assoc_map, assoc_remove, assoc_unique,
    lemma_assoc_absent, lemma_assoc_lookup, lemma_assoc_update_at,
};
use crate::relay::RedisMessage;

verus! {

/// How a bounded per-subscriber buffer takes one more envelope: appended at
/// the back; if the buffer is full, its oldest envelope is dropped first.
pub open spec fn lag_push(b: Seq<RedisMessage>, m: RedisMessage, cap: nat) -> Seq<RedisMessage> {
    if b.len() < cap {
        b.push(m)
    } else {
        b.skip(b.len() - cap + 1).push(m)
    }
}

/// Tracks live connections: which channel each one is subscribed to, and the
/// per-connection buffer of envelopes awaiting its write loop.
pub struct ConnectionManager {
    /// Connection id -> channel name currently subscribed to. A connection
    /// with no entry here receives nothing.
    pub subscriptions: Vec<(u64, String)>,
    /// Connection id -> buffered envelopes, oldest first.
    pub handles: Vec<(u64, Vec<RedisMessage>)>,
    /// Bound on each per-connection buffer.
    pub capacity: usize,
}

impl ConnectionManager {
    /// The registry as a map: which channel each connection id is on.
    pub open spec fn subs(&self) -> Map<u64, String> {
        assoc_map(self.subscriptions@)
    }

    /// The channel a connection is currently subscribed to, if any.
    pub open spec fn spec_channel(&self, id: u64) -> Option<Seq<char>> {
        if self.subs().dom().contains(id) {
            Some(self.subs()[id]@)
        } else {
            None
        }
    }

    /// The fan-out buffer of a connection, if it has one.
    pub open spec fn spec_buffer(&self, id: u64) -> Option<Seq<RedisMessage>> {
        if assoc_map(self.handles@).dom().contains(id) {
            Some(assoc_map(self.handles@)[id]@)
        } else {
            None
        }
    }

    pub open spec fn spec_has_handle(&self, id: u64) -> bool {
        self.spec_buffer(id) is Some
    }

    /// Well-formedness: unique ids on both sides, a positive bound, and every
    /// buffer within the bound.
    pub open spec fn wf(&self) -> bool {
        &&& assoc_unique(self.subscriptions@)
        &&& assoc_unique(self.handles@)
        &&& self.capacity >= 1
        &&& forall|id: u64|
            assoc_map(self.handles@).dom().contains(id)
                ==> (#[trigger] assoc_map(self.handles@)[id])@.len() <= self.capacity
    }

    /// A fresh manager: no connections, no subscriptions.
    pub fn new(capacity: usize) -> (r: ConnectionManager)
        requires
            capacity >= 1,
        ensures
            r.wf(),
            r.subs() == Map::<u64, String>::empty(),
            r.handles@.len() == 0,
            r.capacity == capacity,
    {
        ConnectionManager { subscriptions: Vec::new(), handles: Vec::new(), capacity }
    }

    /// A new connection joins: it gets an empty buffer, starting "now" — it
    /// will only see envelopes published after this call. Its subscription
    /// state is untouched (a fresh id has none).
    pub fn add_connection(&mut self, connection_id: u64)
        requires
            old(self).wf(),
        ensures
            final (self).wf(),
            final (self).subs() == old(self).subs(),
            final (self).capacity == old(self).capacity,
            final (self).spec_buffer(connection_id) == Some(Seq::<RedisMessage>::empty()),
            forall|id: u64|
                id != connection_id ==> final (self).spec_buffer(id) == old(self).spec_buffer(id),
            final (self).handles@.len() == old(self).handles@.len() + (if old(
                self,
            ).spec_has_handle(connection_id) {
                0int
            } else {
                1int
            }),
    {
        let empty: Vec<RedisMessage> = Vec::new();
        assoc_insert(&mut self.handles, connection_id, empty);
    }

    /// Subscribes a connection to a channel, unconditionally overwriting any
    /// previous subscription: last write wins. An unknown id simply gains an
    /// entry.
    pub fn subscribe(&mut self, connection_id: u64, channel_name: String)
        requires
            old(self).wf(),
        ensures
            final (self).wf(),
            final (self).subs() == old(self).subs().insert(connection_id, channel_name),
            final (self).spec_channel(connection_id) == Some(channel_name@),
            forall|id: u64|
                id != connection_id ==> final (self).spec_channel(id) == old(self).spec_channel(
                    id,
                ),
            final (self).handles == old(self).handles,
            final (self).capacity == old(self).capacity,
    {
        assoc_insert(&mut self.subscriptions, connection_id, channel_name);
    }

    /// Drops a connection's subscription: it keeps its buffer, but from now
    /// on nothing is forwarded to it. Unknown ids are a no-op.
    pub fn unsubscribe(&mut self, connection_id: u64)
        requires
            old(self).wf(),
        ensures
            final (self).wf(),
            final (self).subs() == old(self).subs().remove(connection_id),
            final (self).spec_channel(connection_id) is None,
            forall|id: u64|
                id != connection_id ==> final (self).spec_channel(id) == old(self).spec_channel(
                    id,
                ),
            final (self).handles == old(self).handles,
            final (self).capacity == old(self).capacity,
    {
        assoc_remove(&mut self.subscriptions, connection_id);
    }

    /// Tears a connection down: unsubscribes it and erases its buffer. After
    /// this, no state of the manager references the id any more.
    pub fn remove_connection(&mut self, connection_id: u64)
        requires
            old(self).wf(),
        ensures
            final (self).wf(),
            final (self).subs() == old(self).subs().remove(connection_id),
            final (self).spec_channel(connection_id) is None,
            final (self).spec_buffer(connection_id) is None,
            forall|id: u64|
                id != connection_id ==> final (self).spec_channel(id) == old(self).spec_channel(
                    id,
                ),
            forall|id: u64|
                id != connection_id ==> final (self).spec_buffer(id) == old(self).spec_buffer(id),
            final (self).capacity == old(self).capacity,
            final (self).handles@.len() == old(self).handles@.len() - (if old(
                self,
            ).spec_has_handle(connection_id) {
                1int
            } else {
                0int
            }),
    {
        assoc_remove(&mut self.subscriptions, connection_id);
        assoc_remove(&mut self.handles, connection_id);
    }

    /// The channel a connection is currently on, or `None` for "not
    /// subscribed". A lookup miss is never an error.
    pub fn current_channel(&self, connection_id: u64) -> (r: Option<String>)
        requires
            self.wf(),
        ensures
            match r {
                Some(c) => self.spec_channel(connection_id) == Some(c@) && self.subs().dom()
                    .contains(connection_id) && c == self.subs()[connection_id],
                None => self.spec_channel(connection_id) is None,
            },
    {
        match assoc_get(&self.subscriptions, connection_id) {
            Some(c) => Some(c.clone()),
            None => None,
        }
    }

    /// Fans one envelope out to every connection's buffer, each taking it by
    /// [`lag_push`]: appended, dropping that buffer's oldest envelope if it is
    /// full. Total and never blocking; returns how many buffers took it.
    /// No subscribers is not an error.
    pub fn publish(&mut self, msg: &RedisMessage) -> (count: usize)
        requires
            old(self).wf(),
        ensures
            final (self).wf(),
            final (self).subscriptions == old(self).subscriptions,
            final (self).capacity == old(self).capacity,
            count == old(self).handles@.len(),
            forall|id: u64| #![trigger final (self).spec_buffer(id)]
                match old(self).spec_buffer(id) {
                    Some(b) => final (self).spec_buffer(id) == Some(
                        lag_push(b, *msg, old(self).capacity as nat),
                    ),
                    None => final (self).spec_buffer(id) is None,
                },
    {
        let n = self.handles.len();
        let mut i: usize = 0;
        while i < n
            invariant
                i <= n,
                n == self.handles@.len(),
                n == old(self).handles@.len(),
                self.capacity == old(self).capacity,
                self.subscriptions == old(self).subscriptions,
                old(self).wf(),
                forall|k: int|
                    0 <= k < n ==> (#[trigger] self.handles@[k]).0 == old(self).handles@[k].0,
                forall|k: int|
                    0 <= k < i ==> (#[trigger] self.handles@[k]).1@ == lag_push(
                        old(self).handles@[k].1@,
                        *msg,
                        old(self).capacity as nat,
                    ),
                forall|k: int|
                    i <= k < n ==> (#[trigger] self.handles@[k]).1 == old(self).handles@[k].1,
            decreases n - i,
        {
            let ghost s = self.handles@;
            proof {
                lemma_assoc_lookup(old(self).handles@, i as int);
            }
            let (key, mut buf) = self.handles.remove(i);
            if buf.len() >= self.capacity {
                buf.remove(0);
            }
            buf.push(msg.duplicate());
            self.handles.insert(i, (key, buf));
            proof {
                assert(self.handles@ =~= s.update(i as int, (key, buf)));
                assert(s[i as int].1@.len() <= old(self).capacity);
                assert(buf@ =~= lag_push(s[i as int].1@, *msg, old(self).capacity as nat));
            }
            i = i + 1;
        }
        proof {
            lemma_handles_pointwise(
                old(self).handles@,
                self.handles@,
                *msg,
                old(self).capacity as nat,
            );
        }
        n
    }

    /// Publishes a plain text on the diagnostic channel `"broadcast"`.
    pub fn broadcast(&mut self, message: &str) -> (count: usize)
        requires
            old(self).wf(),
        ensures
            final (self).wf(),
            final (self).subscriptions == old(self).subscriptions,
            final (self).capacity == old(self).capacity,
            count == old(self).handles@.len(),
            exists|m: RedisMessage|
                m.channel@ == "broadcast"@ && m.data@ == message@ && (forall|id: u64|
                    #![trigger final (self).spec_buffer(id)]
                    match old(self).spec_buffer(id) {
                        Some(b) => final (self).spec_buffer(id) == Some(
                            lag_push(b, m, old(self).capacity as nat),
                        ),
                        None => final (self).spec_buffer(id) is None,
                    }),
    {
        let msg = RedisMessage::new("broadcast".to_owned(), message.to_owned());
        let count = self.publish(&msg);
        proof {
            assert(msg.channel@ == "broadcast"@ && msg.data@ == message@ && (forall|id: u64|
                #![trigger final (self).spec_buffer(id)]
                match old(self).spec_buffer(id) {
                    Some(b) => final (self).spec_buffer(id) == Some(
                        lag_push(b, msg, old(self).capacity as nat),
                    ),
                    None => final (self).spec_buffer(id) is None,
                }));
        }
        count
    }

    /// Takes the next buffered envelope for a connection, oldest first:
    /// `None` when the buffer is empty or the connection has none.
    pub fn recv(&mut self, connection_id: u64) -> (r: Option<RedisMessage>)
        requires
            old(self).wf(),
        ensures
            final (self).wf(),
            final (self).subscriptions == old(self).subscriptions,
            final (self).capacity == old(self).capacity,
            forall|id: u64|
                id != connection_id ==> final (self).spec_buffer(id) == old(self).spec_buffer(id),
            match old(self).spec_buffer(connection_id) {
                None => r is None && final (self).spec_buffer(connection_id) is None,
                Some(b) => (if b.len() == 0 {
                    r is None && final (self).spec_buffer(connection_id) == Some(b)
                } else {
                    r == Some(b[0]) && final (self).spec_buffer(connection_id) == Some(
                        b.drop_first(),
                    )
                }),
            },
    {
        match assoc_find(&self.handles, connection_id) {
            None => {
                proof {
                    lemma_assoc_absent(self.handles@, connection_id);
                }
                None
            },
            Some(idx) => {
                proof {
                    lemma_assoc_lookup(self.handles@, idx as int);
                }
                let ghost s = self.handles@;
                let (key, mut buf) = self.handles.remove(idx);
                if buf.len() == 0 {
                    self.handles.insert(idx, (key, buf));
                    proof {
                        assert(self.handles@ =~= s);
                    }
                    None
                } else {
                    let m = buf.remove(0);
                    self.handles.insert(idx, (key, buf));
                    proof {
                        assert(self.handles@ =~= s.update(idx as int, (key, buf)));
                        lemma_assoc_update_at(s, idx as int, buf);
                        assert(buf@ =~= assoc_map(s)[connection_id]@.drop_first());
                    }
                    Some(m)
                }
            },
        }
    }
}

/// Keys kept, every buffer advanced by [`lag_push`]: then the denoted maps
/// have the same domain, and every buffer of the denoted map advanced by
/// [`lag_push`].
proof fn lemma_handles_pointwise(
    s1: Seq<(u64, Vec<RedisMessage>)>,
    s2: Seq<(u64, Vec<RedisMessage>)>,
    m: RedisMessage,
    cap: nat,
)
    requires
        s2.len() == s1.len(),
        forall|k: int| 0 <= k < s1.len() ==> (#[trigger] s2[k]).0 == s1[k].0,
        forall|k: int| 0 <= k < s1.len() ==> (#[trigger] s2[k]).1@ == lag_push(s1[k].1@, m, cap),
    ensures
        assoc_map(s2).dom() == assoc_map(s1).dom(),
        forall|id: u64| #[trigger]
            assoc_map(s1).dom().contains(id) ==> assoc_map(s2)[id]@ == lag_push(
                assoc_map(s1)[id]@,
                m,
                cap,
            ),
    decreases s1.len(),
{
    if s1.len() == 0 {
        assert(assoc_map(s2).dom() =~= assoc_map(s1).dom());
    } else {
        assert(forall|k: int|
            0 <= k < s1.drop_last().len() ==> (#[trigger] s2.drop_last()[k]).0
                == s1.drop_last()[k].0 && s2.drop_last()[k].1 == s2[k].1);
        assert(forall|k: int|
            0 <= k < s1.drop_last().len() ==> (#[trigger] s2.drop_last()[k]).1@ == lag_push(
                s1.drop_last()[k].1@,
                m,
                cap,
            ));
        lemma_handles_pointwise(s1.drop_last(), s2.drop_last(), m, cap);
        assert(s2.last().0 == s1.last().0 && s2.last().1@ == lag_push(s1.last().1@, m, cap));
        assert(assoc_map(s2).dom() =~= assoc_map(s1).dom());
    }
}

/// The delivery filter: a registry state forwards an envelope published on
/// `channel` to connection `id` exactly when that connection's current
/// subscription is `channel` — plain string equality, no pattern semantics.
pub open spec fn forwards(subs: Map<u64, String>, id: u64, channel: Seq<char>) -> bool {
    subs.dom().contains(id) && subs[id]@ == channel
}

/// Last subscribe wins: after a connection subscribes to `a` and then to `b`,
/// an envelope is forwarded to it exactly when it was published on `b` —
/// never again on `a` (unless `a` and `b` are the same name).
pub proof fn lemma_resubscribe_last_wins(
    subs: Map<u64, String>,
    id: u64,
    a: String,
    b: String,
    channel: Seq<char>,
)
    ensures
        forwards(subs.insert(id, a).insert(id, b), id, channel) <==> channel == b@,
{
}

/// A connection with no active subscription is forwarded nothing, whatever is
/// published; in particular not after an unsubscribe.
pub proof fn lemma_unsubscribed_gets_nothing(subs: Map<u64, String>, id: u64, channel: Seq<char>)
    ensures
        !subs.dom().contains(id) ==> !forwards(subs, id, channel),
        !forwards(subs.remove(id), id, channel),
{
}

/// Fan-out: a published envelope enters every subscriber's buffer (as its new
/// last element, within the bound), and the delivery filter forwards an
/// envelope on channel `x` exactly to the connections currently on `x`,
/// however many connections exist in the registry.
pub proof fn lemma_publish_fanout(
    b: Seq<RedisMessage>,
    m: RedisMessage,
    cap: nat,
    subs: Map<u64, String>,
    id: u64,
)
    requires
        cap >= 1,
        b.len() <= cap,
    ensures
        lag_push(b, m, cap).last() == m,
        lag_push(b, m, cap).len() <= cap,
        forwards(subs, id, m.channel@) <==> (subs.dom().contains(id) && subs[id]@ == m.channel@),
{
}

/// After a connection is removed, its channel lookup reports "not
/// subscribed", nothing is forwarded to it, and neither registry side holds
/// its id any more.
pub proof fn lemma_removed_connection_gone(cm: ConnectionManager, id: u64, channel: Seq<char>)
    requires
        cm.subs() == cm.subs().remove(id),
        cm.spec_buffer(id) is None,
    ensures
        cm.spec_channel(id) is None,
        !forwards(cm.subs(), id, channel),
        !cm.spec_has_handle(id),
{
    assert(!cm.subs().dom().contains(id));
}

/// Lag isolation: a subscriber that never drains its buffer loses only its
/// own oldest envelope, while any subscriber with room receives the envelope
/// unaffected; and `lag_push` is total, so publishing never blocks on either.
pub proof fn lemma_lag_isolation(
    slow: Seq<RedisMessage>,
    ok: Seq<RedisMessage>,
    m: RedisMessage,
    cap: nat,
)
    requires
        cap >= 1,
        slow.len() == cap,
        ok.len() < cap,
    ensures
        lag_push(slow, m, cap) == slow.drop_first().push(m),
        lag_push(slow, m, cap).len() == cap,
        lag_push(ok, m, cap) == ok.push(m),
{
    assert(lag_push(slow, m, cap) =~= slow.drop_first().push(m));
}

} // verus!
