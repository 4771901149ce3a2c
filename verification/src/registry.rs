//! The shared registry of live connections: a mapping from connection
//! identifier to the handle that can push a text frame to that connection.
//! Registration under an existing identifier silently supersedes the prior
//! handle; removal of an absent identifier is a no-op.

use vstd::prelude::*;

verus! {

/// One registry slot: a connection identifier and the handle of the
/// session currently registered under it.
pub struct Entry<H> {
    pub id: String,
    pub handle: H,
}

/// The mapping described by a sequence of entries, read left to right:
/// a later entry for the same identifier supersedes an earlier one.
pub open spec fn map_of<H>(s: Seq<Entry<H>>) -> Map<Seq<char>, H>
    decreases s.len(),
{
    if s.len() == 0 {
        Map::empty()
    } else {
        map_of(s.drop_last()).insert(s.last().id@, s.last().handle)
    }
}

/// No two entries share an identifier.
pub open spec fn unique_ids<H>(s: Seq<Entry<H>>) -> bool {
    forall|i: int, j: int| 0 <= i < j < s.len() ==> s[i].id@ != s[j].id@
}

/// The registry of live connections. Its abstract value (the view) is the
/// map from connection identifier to the most recently registered handle.
pub struct Registry<H> {
    entries: Vec<Entry<H>>,
}

impl<H> View for Registry<H> {
    type V = Map<Seq<char>, H>;

    closed spec fn view(&self) -> Map<Seq<char>, H> {
        map_of(self.entries@)
    }
}

proof fn lemma_map_of_contains<H>(s: Seq<Entry<H>>, k: Seq<char>)
    ensures
        map_of(s).contains_key(k) <==> exists|i: int| 0 <= i < s.len() && s[i].id@ == k,
    decreases s.len(),
{
    if s.len() > 0 {
        lemma_map_of_contains(s.drop_last(), k);
        if s.last().id@ == k {
            assert(s[s.len() - 1].id@ == k);
        } else if map_of(s).contains_key(k) {
            let i = choose|i: int| 0 <= i < s.drop_last().len() && s.drop_last()[i].id@ == k;
            assert(s[i].id@ == k);
        } else if exists|i: int| 0 <= i < s.len() && s[i].id@ == k {
            let i = choose|i: int| 0 <= i < s.len() && s[i].id@ == k;
            assert(s.drop_last()[i].id@ == k);
        }
    }
}

proof fn lemma_map_of_index<H>(s: Seq<Entry<H>>, i: int)
    requires
        unique_ids(s),
        0 <= i < s.len(),
    ensures
        map_of(s).contains_key(s[i].id@),
        map_of(s)[s[i].id@] == s[i].handle,
    decreases s.len(),
{
    if i < s.len() - 1 {
        assert(unique_ids(s.drop_last())) by {
            assert(forall|a: int, b: int|
                0 <= a < b < s.drop_last().len() ==> s.drop_last()[a].id@ != s.drop_last()[b].id@);
        }
        lemma_map_of_index(s.drop_last(), i);
        assert(s.drop_last()[i] == s[i]);
        assert(s[i].id@ != s.last().id@);
    }
}

proof fn lemma_map_of_remove<H>(s: Seq<Entry<H>>, i: int)
    requires
        unique_ids(s),
        0 <= i < s.len(),
    ensures
        map_of(s.remove(i)) =~= map_of(s).remove(s[i].id@),
    decreases s.len(),
{
    let k = s[i].id@;
    if i == s.len() - 1 {
        assert(s.remove(i) =~= s.drop_last());
        lemma_map_of_contains(s.drop_last(), k);
        assert(forall|j: int| 0 <= j < s.drop_last().len() ==> s.drop_last()[j].id@ != k);
        assert(map_of(s.drop_last()).remove(k) =~= map_of(s.drop_last()));
        assert(map_of(s).remove(k) =~= map_of(s.drop_last()).insert(k, s[i].handle).remove(k));
    } else {
        assert(unique_ids(s.drop_last())) by {
            assert(forall|a: int, b: int|
                0 <= a < b < s.drop_last().len() ==> s.drop_last()[a].id@ != s.drop_last()[b].id@);
        }
        lemma_map_of_remove(s.drop_last(), i);
        assert(s.remove(i).drop_last() =~= s.drop_last().remove(i));
        assert(s.remove(i).last() == s.last());
        assert(s.remove(i).len() > 0);
        assert(map_of(s.remove(i)) == map_of(s.remove(i).drop_last()).insert(
            s.last().id@,
            s.last().handle,
        ));
        assert(s.drop_last()[i] == s[i]);
        assert(k != s.last().id@);
        assert(map_of(s.drop_last()).remove(k).insert(s.last().id@, s.last().handle) =~= map_of(
            s.drop_last(),
        ).insert(s.last().id@, s.last().handle).remove(k));
    }
}

impl<H> Registry<H> {
    /// All entries carry distinct identifiers, so the view determines the
    /// contents exactly.
    pub closed spec fn wf(&self) -> bool {
        unique_ids(self.entries@)
    }

    /// Creates an empty registry: no identifier is registered.
    pub fn new() -> (r: Registry<H>)
        ensures
            r.wf(),
            r@ == Map::<Seq<char>, H>::empty(),
    {
        Registry { entries: Vec::new() }
    }

    fn find_index(&self, id: &String) -> (r: Option<usize>)
        ensures
            match r {
                Some(i) => i < self.entries@.len() && self.entries@[i as int].id@ == id@,
                None => forall|j: int|
                    0 <= j < self.entries@.len() ==> self.entries@[j].id@ != id@,
            },
    {
        let n = self.entries.len();
        let mut i: usize = 0;
        while i < n
            invariant
                n == self.entries@.len(),
                i <= n,
                forall|j: int| 0 <= j < i ==> self.entries@[j].id@ != id@,
            decreases n - i,
        {
            let e = &self.entries[i];
            if e.id == *id {
                return Some(i);
            }
            i = i + 1;
        }
        None
    }

    /// Inserts or overwrites the handle registered under `id`. Always
    /// succeeds; a previously registered handle for `id` becomes
    /// unreachable through `lookup`, and every other identifier keeps its
    /// handle unchanged.
    pub fn register(&mut self, id: String, handle: H)
        requires
            old(self).wf(),
        ensures
            final(self).wf(),
            final(self)@ == old(self)@.insert(id@, handle),
    {
        let ghost s0 = self.entries@;
        let ghost k = id@;
        let ghost h = handle;
        let found = self.find_index(&id);
        match found {
            Some(i) => {
                proof {
                    lemma_map_of_remove(s0, i as int);
                    s0.remove_ensures(i as int);
                    assert(forall|j: int| 0 <= j < s0.len() && j != i ==> s0[j].id@ != k);
                }
                self.entries.remove(i);
            },
            None => {},
        }
        let ghost s1 = self.entries@;
        proof {
            assert(unique_ids(s1));
            assert(forall|j: int| 0 <= j < s1.len() ==> s1[j].id@ != k);
            assert(map_of(s1).insert(k, h) =~= map_of(s0).insert(k, h));
        }
        self.entries.push(Entry { id, handle });
        proof {
            let s2 = self.entries@;
            assert(s2.drop_last() =~= s1);
            assert(s2.last().id@ == k && s2.last().handle == h);
            assert(map_of(s2) == map_of(s1).insert(k, h));
            assert(unique_ids(s2));
        }
    }

    /// Removes the entry for `id` if one is present; a no-op when `id` is
    /// not registered. Every other identifier keeps its handle unchanged.
    pub fn unregister(&mut self, id: &String)
        requires
            old(self).wf(),
        ensures
            final(self).wf(),
            final(self)@ == old(self)@.remove(id@),
    {
        let ghost s0 = self.entries@;
        let found = self.find_index(id);
        match found {
            Some(i) => {
                proof {
                    lemma_map_of_remove(s0, i as int);
                    assert(forall|a: int, b: int|
                        0 <= a < b < s0.remove(i as int).len() ==> s0.remove(i as int)[a].id@ != s0.remove(
                            i as int,
                        )[b].id@);
                }
                self.entries.remove(i);
                proof {
                    assert(map_of(self.entries@) =~= map_of(s0).remove(id@));
                }
            },
            None => {
                proof {
                    lemma_map_of_contains(s0, id@);
                    assert(!map_of(s0).contains_key(id@));
                    assert(map_of(s0) =~= map_of(s0).remove(id@));
                }
            },
        }
    }

    /// Returns the handle currently registered under `id`, or none. The
    /// result is exactly the view's value at `id`.
    pub fn lookup(&self, id: &String) -> (r: Option<&H>)
        requires
            self.wf(),
        ensures
            match r {
                Some(h) => self@.contains_key(id@) && *h == self@[id@],
                None => !self@.contains_key(id@),
            },
    {
        match self.find_index(id) {
            Some(i) => {
                proof {
                    lemma_map_of_index(self.entries@, i as int);
                }
                Some(&self.entries[i].handle)
            },
            None => {
                proof {
                    lemma_map_of_contains(self.entries@, id@);
                }
                None
            },
        }
    }
}

/// Registering the same identifier twice leaves only the second handle
/// reachable: the later registration supersedes the earlier one entirely,
/// and the earlier handle is no longer the value at that identifier.
pub proof fn lemma_reregister_supersedes<H>(m: Map<Seq<char>, H>, k: Seq<char>, h1: H, h2: H)
    ensures
        m.insert(k, h1).insert(k, h2) == m.insert(k, h2),
        m.insert(k, h1).insert(k, h2)[k] == h2,
{
    assert(m.insert(k, h1).insert(k, h2) =~= m.insert(k, h2));
}

/// After an identifier is unregistered it is absent, and it stays absent
/// under registrations and removals of any other identifier, until it is
/// registered anew.
pub proof fn lemma_unregister_clears<H>(m: Map<Seq<char>, H>, k: Seq<char>, k2: Seq<char>, h2: H)
    requires
        k2 != k,
    ensures
        !m.remove(k).contains_key(k),
        !m.remove(k).insert(k2, h2).contains_key(k),
        !m.remove(k).remove(k2).contains_key(k),
{
}

/// A registration or removal under one identifier never disturbs the
/// entry of a different identifier: no lost updates and no
/// cross-contamination between unrelated keys.
pub proof fn lemma_distinct_keys_independent<H>(
    m: Map<Seq<char>, H>,
    k: Seq<char>,
    h: H,
    k2: Seq<char>,
)
    requires
        k2 != k,
    ensures
        m.insert(k, h).contains_key(k2) == m.contains_key(k2),
        m.contains_key(k2) ==> m.insert(k, h)[k2] == m[k2],
        m.remove(k).contains_key(k2) == m.contains_key(k2),
        m.contains_key(k2) ==> m.remove(k)[k2] == m[k2],
{
}

} // verus!
