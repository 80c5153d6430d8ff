//! The server-side device registry.
//!
//! A mapping from global id to the textual `ip:port` address the id last
//! registered from. Every accepted hello overwrites the entry for its global
//! id — the last registration wins, also when it comes from a new address —
//! and nothing ever evicts an entry: the protocol has no heartbeat timeout.
//! The view of the registry is the map it represents.

use vstd::prelude::*;
use vstd::pervasive::VecAdditionalExecFns;

verus! {

/// Key uniqueness of the backing entry vector, at the character level.
spec fn uniq(s: Seq<(String, String)>) -> bool {
    forall|i: int, j: int| 0 <= i < j < s.len() ==> s[i].0@ != s[j].0@
}

/// The map an entry vector stands for.
spec fn map_of(s: Seq<(String, String)>) -> Map<Seq<char>, Seq<char>>
    decreases s.len(),
{
    if s.len() == 0 {
        Map::empty()
    } else {
        map_of(s.drop_last()).insert(s.last().0@, s.last().1@)
    }
}

proof fn lemma_map_of_entry(s: Seq<(String, String)>, i: int)
    requires
        uniq(s),
        0 <= i < s.len(),
    ensures
        map_of(s).contains_key(s[i].0@),
        map_of(s)[s[i].0@] == s[i].1@,
    decreases s.len(),
{
    if i < s.len() - 1 {
        assert(s.drop_last()[i] == s[i]);
        lemma_map_of_entry(s.drop_last(), i);
        assert(s.last().0@ != s[i].0@);
    }
}

proof fn lemma_map_of_absent(s: Seq<(String, String)>, k: Seq<char>)
    requires
        forall|i: int| 0 <= i < s.len() ==> s[i].0@ != k,
    ensures
        !map_of(s).contains_key(k),
    decreases s.len(),
{
    if s.len() > 0 {
        lemma_map_of_absent(s.drop_last(), k);
    }
}

proof fn lemma_map_of_update(s: Seq<(String, String)>, i: int, e: (String, String))
    requires
        uniq(s),
        0 <= i < s.len(),
        e.0@ == s[i].0@,
    ensures
        map_of(s.update(i, e)) == map_of(s).insert(e.0@, e.1@),
    decreases s.len(),
{
    let s2 = s.update(i, e);
    if i == s.len() - 1 {
        assert(s2.drop_last() =~= s.drop_last());
        assert(map_of(s2) =~= map_of(s).insert(e.0@, e.1@));
    } else {
        assert(s2.drop_last() =~= s.drop_last().update(i, e));
        assert(s.drop_last()[i] == s[i]);
        lemma_map_of_update(s.drop_last(), i, e);
        assert(s2.last() == s.last());
        assert(s.last().0@ != e.0@);
        assert(map_of(s2) =~= map_of(s).insert(e.0@, e.1@));
    }
}

/// The registry: global id to last registered address, under one lock held
/// by the caller around each call.
pub struct DeviceRegistry {
    entries: Vec<(String, String)>,
}

impl View for DeviceRegistry {
    type V = Map<Seq<char>, Seq<char>>;

    closed spec fn view(&self) -> Map<Seq<char>, Seq<char>> {
        map_of(self.entries@)
    }
}

impl DeviceRegistry {
    #[verifier::type_invariant]
    closed spec fn wf(self) -> bool {
        uniq(self.entries@)
    }

    /// The empty registry.
    pub fn new() -> (r: Self)
        ensures
            r@ == Map::<Seq<char>, Seq<char>>::empty(),
    {
        DeviceRegistry { entries: Vec::new() }
    }

    /// Registers `addr` under `global_id`, overwriting any earlier entry for
    /// the same global id: the last registration always wins.
    pub fn upsert(&mut self, global_id: String, addr: String)
        ensures
            final(self)@ == old(self)@.insert(global_id@, addr@),
    {
        proof {
            use_type_invariant(&*self);
        }
        let mut entries: Vec<(String, String)> = Vec::new();
        core::mem::swap(&mut entries, &mut self.entries);
        let ghost orig = entries@;
        let n = entries.len();
        let mut i: usize = 0;
        while i < n
            invariant
                n == entries@.len(),
                i <= n,
                entries@ == orig,
                uniq(orig),
                map_of(orig) == old(self)@,
                forall|k: int| 0 <= k < i ==> orig[k].0@ != global_id@,
            decreases n - i,
        {
            let found = entries[i].0 == global_id;
            if found {
                entries.set(i, (global_id, addr));
                proof {
                    lemma_map_of_update(orig, i as int, (entries@[i as int].0, entries@[i as int].1));
                    assert(uniq(entries@));
                }
                self.entries = entries;
                return ;
            }
            i += 1;
        }
        entries.push((global_id, addr));
        proof {
            assert(entries@.drop_last() =~= orig);
            lemma_map_of_absent(orig, global_id@);
            assert(uniq(entries@));
        }
        self.entries = entries;
    }

    /// Looks a global id up; returns the registered address exactly when one
    /// is registered.
    pub fn lookup(&self, global_id: &String) -> (r: Option<String>)
        ensures
            (r is Some) == self@.contains_key(global_id@),
            r matches Some(a) ==> self@[global_id@] == a@,
    {
        proof {
            use_type_invariant(&*self);
        }
        let n = self.entries.len();
        let mut i: usize = 0;
        while i < n
            invariant
                n == self.entries@.len(),
                i <= n,
                uniq(self.entries@),
                forall|k: int| 0 <= k < i ==> self.entries@[k].0@ != global_id@,
            decreases n - i,
        {
            let hit = self.entries[i].0 == *global_id;
            if hit {
                proof {
                    lemma_map_of_entry(self.entries@, i as int);
                }
                let a = self.entries[i].1.clone();
                return Some(a);
            }
            i += 1;
        }
        proof {
            lemma_map_of_absent(self.entries@, global_id@);
        }
        None
    }
}

/// Law: after registering address `a` under `gid`, a lookup of `gid` yields
/// `a`; a second registration of `b` under the same `gid` overwrites it —
/// the last write wins — and entries of other global ids are untouched.
pub proof fn lemma_registry_last_write_wins(
    m: Map<Seq<char>, Seq<char>>,
    gid: Seq<char>,
    a: Seq<char>,
    b: Seq<char>,
)
    ensures
        m.insert(gid, a).contains_key(gid) && m.insert(gid, a)[gid] == a,
        m.insert(gid, a).insert(gid, b) == m.insert(gid, b),
        forall|other: Seq<char>|
            other != gid ==> (#[trigger] m.insert(gid, a).contains_key(other))
                == m.contains_key(other),
        forall|other: Seq<char>|
            other != gid && m.contains_key(other) ==> #[trigger] m.insert(gid, a)[other]
                == m[other],
{
    assert(m.insert(gid, a).insert(gid, b) =~= m.insert(gid, b));
}

} // verus!
