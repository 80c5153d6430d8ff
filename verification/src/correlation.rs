//! The client-side correlation of replies to outstanding calls.
//!
//! Each call registers a pending subscription — a fresh random id and the
//! frame type it waits for — and races the reply against a timer. The
//! dispatch task matches each inbound event against the table in
//! registration order and wakes exactly the earliest subscription of the
//! event's type. Matching is by type only, not by id: when two calls of the
//! same type are outstanding, the earliest-registered one consumes the next
//! matching reply, whichever call it belongs to. A call that times out
//! removes its own entry before returning, so a late reply can never be
//! delivered to a waiter that is gone.
//!
//! The table holds no channels: the caller keeps the id-to-waker mapping and
//! performs the delivery the dispatch decision names. The caller must hold
//! its lock around each table call and never across a wait.

use vstd::prelude::*;

use crate::event::ClientEvent;

verus! {

/// One outstanding call: its id and the frame type it waits for.
#[derive(Clone, Copy, Debug, PartialEq, Eq, Structural)]
pub struct PendingSubscription {
    pub id: u128,
    pub expected_type: u8,
}

/// `s[i]` is the earliest-registered subscription waiting for type `t`.
pub open spec fn matches_at(s: Seq<PendingSubscription>, t: u8, i: int) -> bool {
    &&& 0 <= i < s.len()
    &&& s[i].expected_type == t
    &&& forall|k: int| 0 <= k < i ==> s[k].expected_type != t
}

/// Some subscription in `s` waits for type `t`.
pub open spec fn has_waiter(s: Seq<PendingSubscription>, t: u8) -> bool {
    exists|i: int| matches_at(s, t, i)
}

/// At most one index is the earliest match.
pub proof fn lemma_matches_at_unique(s: Seq<PendingSubscription>, t: u8, i: int, j: int)
    requires
        matches_at(s, t, i),
        matches_at(s, t, j),
    ensures
        i == j,
{
}

/// The table after a call removes its own id: every entry carrying `id` is
/// gone, all others stay, in order.
pub open spec fn spec_without_id(s: Seq<PendingSubscription>, id: u128) -> Seq<
    PendingSubscription,
> {
    s.filter(|e: PendingSubscription| e.id != id)
}

/// The dispatch decision for one event of type `t`: the id to wake — the
/// earliest-registered subscription of that type, which leaves the table —
/// or none, leaving the table unchanged.
pub open spec fn spec_dispatch(s: Seq<PendingSubscription>, t: u8) -> (
    Option<u128>,
    Seq<PendingSubscription>,
) {
    if has_waiter(s, t) {
        let i = choose|i: int| matches_at(s, t, i);
        (Some(s[i].id), s.remove(i))
    } else {
        (None, s)
    }
}

/// The table of outstanding subscriptions, in registration order.
pub struct PendingTable {
    entries: Vec<PendingSubscription>,
}

impl View for PendingTable {
    type V = Seq<PendingSubscription>;

    closed spec fn view(&self) -> Seq<PendingSubscription> {
        self.entries@
    }
}

impl PendingTable {
    /// The empty table.
    pub fn new() -> (r: Self)
        ensures
            r@ == Seq::<PendingSubscription>::empty(),
    {
        PendingTable { entries: Vec::new() }
    }

    pub fn len(&self) -> (r: usize)
        ensures
            r == self@.len(),
    {
        self.entries.len()
    }

    /// Whether some entry carries `id`.
    pub fn contains_id(&self, id: u128) -> (r: bool)
        ensures
            r == exists|i: int| 0 <= i < self@.len() && self@[i].id == id,
    {
        let n = self.entries.len();
        let mut i: usize = 0;
        while i < n
            invariant
                n == self.entries@.len(),
                i <= n,
                forall|k: int| 0 <= k < i ==> self.entries@[k].id != id,
            decreases n - i,
        {
            if self.entries[i].id == id {
                proof {
                    assert(0 <= i < self@.len() && self@[i as int].id == id);
                }
                return true;
            }
            i += 1;
        }
        false
    }

    /// Appends a subscription: the latest registration always scans last.
    pub fn subscribe(&mut self, expected_type: u8, id: u128)
        ensures
            final(self)@ == old(self)@.push(PendingSubscription { id, expected_type }),
    {
        self.entries.push(PendingSubscription { id, expected_type });
    }

    /// Draws a fresh random id and registers it; returns the id so the
    /// caller can route the reply and remove the entry on timeout.
    pub fn subscribe_fresh(&mut self, expected_type: u8) -> (id: u128)
        ensures
            final(self)@ == old(self)@.push(PendingSubscription { id, expected_type }),
    {
        let id = fresh_sub_id();
        self.subscribe(expected_type, id);
        id
    }

    /// Removes every entry carrying `id` — what a timed-out call does for
    /// its own id before it returns.
    pub fn remove(&mut self, id: u128)
        ensures
            final(self)@ == spec_without_id(old(self)@, id),
    {
        let ghost orig = self.entries@;
        let n = self.entries.len();
        let mut kept: Vec<PendingSubscription> = Vec::new();
        let mut i: usize = 0;
        proof {
            lemma_without_id_empty(orig.subrange(0, 0), id);
        }
        while i < n
            invariant
                n == self.entries@.len(),
                i <= n,
                self.entries@ == orig,
                kept@ == spec_without_id(orig.subrange(0, i as int), id),
            decreases n - i,
        {
            let e = self.entries[i];
            proof {
                assert(e == orig[i as int]);
                lemma_without_id_push(orig.subrange(0, i as int), id, e);
                assert(orig.subrange(0, i as int + 1) =~= orig.subrange(0, i as int).push(
                    orig[i as int],
                ));
            }
            if e.id != id {
                kept.push(e);
            }
            i += 1;
        }
        proof {
            assert(orig.subrange(0, n as int) =~= orig);
        }
        self.entries = kept;
    }

    /// Matches one event of type `event_type` against the table: wakes and
    /// removes the earliest-registered subscription of that type, if any.
    pub fn match_event(&mut self, event_type: u8) -> (r: Option<u128>)
        ensures
            r == spec_dispatch(old(self)@, event_type).0,
            final(self)@ == spec_dispatch(old(self)@, event_type).1,
    {
        let ghost orig = self.entries@;
        proof {
            assert(orig == old(self)@);
        }
        let n = self.entries.len();
        let mut i: usize = 0;
        while i < n
            invariant
                orig == old(self)@,
                n == self.entries@.len(),
                i <= n,
                self.entries@ == orig,
                forall|k: int| 0 <= k < i ==> orig[k].expected_type != event_type,
            decreases n - i,
        {
            if self.entries[i].expected_type == event_type {
                let id = self.entries[i].id;
                proof {
                    assert(orig[i as int].expected_type == event_type);
                    assert(orig[i as int].id == id);
                    assert(matches_at(orig, event_type, i as int));
                    assert(has_waiter(orig, event_type));
                    let w = choose|w: int| matches_at(orig, event_type, w);
                    lemma_matches_at_unique(orig, event_type, w, i as int);
                    assert(spec_dispatch(orig, event_type).0 == Some(id));
                    assert(spec_dispatch(orig, event_type).1 == orig.remove(i as int));
                }
                self.entries.remove(i);
                return Some(id);
            }
            i += 1;
        }
        proof {
            assert(!has_waiter(orig, event_type));
        }
        None
    }
}

/// The dispatch task's whole decision for one event: drop what has no
/// handler, wake the earliest matching waiter otherwise.
pub fn dispatch_event(table: &mut PendingTable, event: &ClientEvent) -> (r: Option<u128>)
    ensures
        event matches ClientEvent::Other { .. } ==> r is None && final(table)@ == old(table)@,
        !(event matches ClientEvent::Other { .. }) ==> r == spec_dispatch(
            old(table)@,
            event.spec_event_type(),
        ).0 && final(table)@ == spec_dispatch(old(table)@, event.spec_event_type()).1,
{
    match event {
        ClientEvent::Other { .. } => None,
        _ => table.match_event(event.get_event_type()),
    }
}

/// Relies on `rand::random`: draws a random subscription id. Nothing is
/// assumed of the value: ids can collide, with vanishing probability, and
/// removal then drops both entries.
#[verifier::external_body]
fn fresh_sub_id() -> u128 {
    rand::random::<u128>()
}

proof fn lemma_without_id_empty(s: Seq<PendingSubscription>, id: u128)
    requires
        s.len() == 0,
    ensures
        spec_without_id(s, id) == Seq::<PendingSubscription>::empty(),
{
    reveal(Seq::filter);
    assert(s =~= Seq::<PendingSubscription>::empty());
}

proof fn lemma_without_id_push(s: Seq<PendingSubscription>, id: u128, e: PendingSubscription)
    ensures
        spec_without_id(s.push(e), id) == if e.id != id {
            spec_without_id(s, id).push(e)
        } else {
            spec_without_id(s, id)
        },
{
    reveal(Seq::filter);
    assert(s.push(e).drop_last() =~= s);
    assert(s.push(e).last() == e);
}

proof fn lemma_without_id_all(s: Seq<PendingSubscription>, id: u128)
    requires
        forall|i: int| 0 <= i < s.len() ==> (#[trigger] s[i]).id != id,
    ensures
        spec_without_id(s, id) == s,
    decreases s.len(),
{
    reveal(Seq::filter);
    if s.len() > 0 {
        lemma_without_id_all(s.drop_last(), id);
        assert(s.drop_last().push(s.last()) =~= s);
    }
}

/// Law (timeout cleanup): a call of type `t` subscribes as `e1` into a table
/// that holds no other entry of its id or type, then times out and removes
/// its id. Afterwards no entry carries that id, the table is exactly what it
/// was, and a second wait `e2` of the same type is the one matched by the
/// next arriving event of that type.
pub proof fn lemma_timeout_cleanup(
    s: Seq<PendingSubscription>,
    e1: PendingSubscription,
    e2: PendingSubscription,
)
    requires
        forall|i: int| 0 <= i < s.len() ==> (#[trigger] s[i]).id != e1.id,
        forall|i: int| 0 <= i < s.len() ==> (#[trigger] s[i]).expected_type != e1.expected_type,
        e2.expected_type == e1.expected_type,
    ensures
        ({
            let after_timeout = spec_without_id(s.push(e1), e1.id);
            &&& forall|i: int|
                0 <= i < after_timeout.len() ==> (#[trigger] after_timeout[i]).id != e1.id
            &&& after_timeout == s
            &&& spec_dispatch(after_timeout.push(e2), e2.expected_type).0 == Some(e2.id)
        }),
{
    lemma_without_id_push(s, e1.id, e1);
    lemma_without_id_all(s, e1.id);
    let s2 = s.push(e2);
    let n = s.len() as int;
    assert(matches_at(s2, e2.expected_type, n));
    let w = choose|w: int| matches_at(s2, e2.expected_type, w);
    lemma_matches_at_unique(s2, e2.expected_type, w, n);
}

/// Law (concurrent same-type race): with exactly two subscriptions of type
/// `t` outstanding — registered at `i1` and later `i2` — two successive
/// events of that type wake first the earlier-registered id, then the other:
/// each of the two acknowledgements is delivered to exactly one of the two
/// waiters, whichever call it belonged to, and a third finds no waiter of
/// that type left.
pub proof fn lemma_same_type_race(s: Seq<PendingSubscription>, t: u8, i1: int, i2: int)
    requires
        0 <= i1 < i2 < s.len(),
        s[i1].expected_type == t,
        s[i2].expected_type == t,
        forall|k: int| 0 <= k < s.len() && k != i1 && k != i2 ==> (#[trigger] s[k]).expected_type
            != t,
    ensures
        ({
            let (r1, s1) = spec_dispatch(s, t);
            let (r2, s2) = spec_dispatch(s1, t);
            let (r3, _) = spec_dispatch(s2, t);
            &&& r1 == Some(s[i1].id)
            &&& r2 == Some(s[i2].id)
            &&& r3 is None
        }),
{
    assert(matches_at(s, t, i1));
    let w1 = choose|w: int| matches_at(s, t, w);
    lemma_matches_at_unique(s, t, w1, i1);
    let s1 = s.remove(i1);
    assert(s1[i2 - 1] == s[i2]);
    assert(matches_at(s1, t, i2 - 1)) by {
        assert forall|k: int| 0 <= k < i2 - 1 implies s1[k].expected_type != t by {
            if k < i1 {
                assert(s1[k] == s[k]);
            } else {
                assert(s1[k] == s[k + 1]);
            }
        }
    }
    let w2 = choose|w: int| matches_at(s1, t, w);
    lemma_matches_at_unique(s1, t, w2, i2 - 1);
    let s2 = s1.remove(i2 - 1);
    assert(!has_waiter(s2, t)) by {
        assert forall|k: int| 0 <= k < s2.len() implies s2[k].expected_type != t by {
            if k < i1 {
                assert(s2[k] == s[k]);
            } else if k < i2 - 1 {
                assert(s2[k] == s[k + 1]);
            } else {
                assert(s2[k] == s[k + 2]);
            }
        }
    }
}

} // verus!
