//! Maps from connection ids to the endpoint's connections.

use crate::connection::{Entity, InitialId, Key, LocalId};
use vstd::prelude::*;

verus! {

/// A connection of the endpoint, by its entity.
#[derive(Copy, Clone, Debug, PartialEq, Eq, Hash, Structural)]
pub struct Connection(pub Entity);

impl View for Connection {
    type V = Entity;

    open spec fn view(&self) -> Entity {
        self.0
    }
}

impl Key for Connection {
    open spec fn key_wf(&self) -> bool {
        true
    }

    fn same_key(&self, other: &Self) -> (r: bool) {
        self.0 == other.0
    }
}

/// The format of the connection ids that the endpoint issues.
#[derive(Debug)]
pub struct Format<P>(pub P);

/// The index of an entry with key `k` in a list of entries.
pub open spec fn key_index<K: View, V>(entries: Seq<(K, V)>, k: K::V) -> int {
    choose|i: int| 0 <= i < entries.len() && entries[i].0@ == k
}

/// The map that a list of entries with distinct keys stands for.
pub open spec fn entries_map<K: View, V>(entries: Seq<(K, V)>) -> Map<K::V, V> {
    Map::new(
        |k: K::V| exists|i: int| 0 <= i < entries.len() && entries[i].0@ == k,
        |k: K::V| entries[key_index(entries, k)].1,
    )
}

/// No two entries share a key, and every key is well formed.
pub open spec fn entries_wf<K: Key, V>(entries: Seq<(K, V)>) -> bool {
    &&& forall|i: int| 0 <= i < entries.len() ==> (#[trigger] entries[i]).0.key_wf()
    &&& forall|i: int, j: int|
        0 <= i < j < entries.len() ==> (#[trigger] entries[i]).0@ != (#[trigger] entries[j]).0@
}

/// A map with keys compared by their views, held as a list of entries.
struct AssocMap<K, V> {
    entries: Vec<(K, V)>,
}

impl<K: Key, V: Copy> AssocMap<K, V> {
    closed spec fn map(&self) -> Map<K::V, V> {
        entries_map(self.entries@)
    }

    closed spec fn wf(&self) -> bool {
        entries_wf(self.entries@)
    }

    fn new() -> (m: Self)
        ensures
            m.wf(),
            m.map() == Map::<K::V, V>::empty(),
    {
        let m = AssocMap { entries: Vec::new() };
        proof {
            assert(m.map() =~= Map::<K::V, V>::empty());
        }
        m
    }

    /// The position of the entry with this key.
    fn find(&self, key: &K) -> (r: Option<usize>)
        requires
            self.wf(),
            key.key_wf(),
        ensures
            r matches Some(i) ==> i < self.entries@.len() && self.entries@[i as int].0@ == key@,
            r is None ==> !self.map().contains_key(key@),
    {
        let mut i: usize = 0;
        while i < self.entries.len()
            invariant
                self.wf(),
                key.key_wf(),
                i <= self.entries@.len(),
                forall|j: int| 0 <= j < i ==> (#[trigger] self.entries@[j]).0@ != key@,
            decreases self.entries@.len() - i,
        {
            if self.entries[i].0.same_key(key) {
                return Some(i);
            }
            i = i + 1;
        }
        None
    }

    proof fn lemma_value_at(&self, i: int)
        requires
            self.wf(),
            0 <= i < self.entries@.len(),
        ensures
            self.map().contains_key(self.entries@[i].0@),
            self.map()[self.entries@[i].0@] == self.entries@[i].1,
    {
        let k = self.entries@[i].0@;
        let j = key_index(self.entries@, k);
        assert(self.entries@[i].0@ == k);
        if j != i {
            if j < i {
                assert(self.entries@[j].0@ != self.entries@[i].0@);
            } else {
                assert(self.entries@[i].0@ != self.entries@[j].0@);
            }
        }
    }

    fn get(&self, key: &K) -> (r: Option<V>)
        requires
            self.wf(),
            key.key_wf(),
        ensures
            r == (if self.map().contains_key(key@) {
                Some(self.map()[key@])
            } else {
                None
            }),
    {
        match self.find(key) {
            Some(i) => {
                proof {
                    self.lemma_value_at(i as int);
                }
                Some(self.entries[i].1)
            },
            None => None,
        }
    }

    /// Adds an entry for a key that is not in the map.
    fn insert_new(&mut self, key: K, value: V)
        requires
            old(self).wf(),
            key.key_wf(),
            !old(self).map().contains_key(key@),
        ensures
            final(self).wf(),
            final(self).map() == old(self).map().insert(key@, value),
    {
        let ghost old_entries = self.entries@;
        self.entries.push((key, value));
        proof {
            let s = self.entries@;
            assert forall|i: int| 0 <= i < old_entries.len() implies (#[trigger] old_entries[i]).0@
                != key@ by {
                if old_entries[i].0@ == key@ {
                    assert(entries_map(old_entries).contains_key(key@));
                }
            }
            assert(entries_wf(s));
            assert forall|k: K::V| #[trigger] self.map().contains_key(k) <==> old(self).map().insert(key@, value).contains_key(k) by {
                if k != key@ && self.map().contains_key(k) {
                    let i = choose|i: int| 0 <= i < s.len() && s[i].0@ == k;
                    assert(old_entries[i].0@ == k);
                }
                if k == key@ {
                    assert(s[s.len() - 1].0@ == k);
                }
                if k != key@ && old(self).map().contains_key(k) {
                    let i = choose|i: int| 0 <= i < old_entries.len() && old_entries[i].0@ == k;
                    assert(s[i].0@ == k);
                }
            }
            assert forall|k: K::V| #[trigger] self.map().contains_key(k) implies self.map()[k]
                == old(self).map().insert(key@, value)[k] by {
                let i = choose|i: int| 0 <= i < s.len() && s[i].0@ == k;
                self.lemma_value_at(i);
                if k != key@ {
                    assert(i < old_entries.len());
                    assert(old_entries[i] == s[i]);
                    old(self).lemma_value_at(i);
                }
            }
            assert(self.map() =~= old(self).map().insert(key@, value));
        }
    }

    /// Removes the entry with this key and returns its value.
    fn remove(&mut self, key: &K) -> (r: Option<V>)
        requires
            old(self).wf(),
            key.key_wf(),
        ensures
            final(self).wf(),
            final(self).map() == old(self).map().remove(key@),
            r == (if old(self).map().contains_key(key@) {
                Some(old(self).map()[key@])
            } else {
                None
            }),
    {
        match self.find(key) {
            None => {
                proof {
                    assert(self.map().remove(key@) =~= self.map());
                }
                None
            },
            Some(i) => {
                proof {
                    self.lemma_value_at(i as int);
                }
                let ghost old_entries = self.entries@;
                let (_, value) = self.entries.remove(i);
                proof {
                    let s = self.entries@;
                    assert(s =~= old_entries.remove(i as int));
                    assert(entries_wf(s)) by {
                        assert forall|a: int, b: int| 0 <= a < b < s.len() implies (#[trigger] s[a]).0@
                            != (#[trigger] s[b]).0@ by {
                            let oa = if a < i { a } else { a + 1 };
                            let ob = if b < i { b } else { b + 1 };
                            assert(old_entries[oa] == s[a]);
                            assert(old_entries[ob] == s[b]);
                        }
                        assert forall|a: int| 0 <= a < s.len() implies (#[trigger] s[a]).0.key_wf() by {
                            let oa = if a < i { a } else { a + 1 };
                            assert(old_entries[oa] == s[a]);
                        }
                    }
                    assert forall|k: K::V| #[trigger] self.map().contains_key(k) <==> old(self).map().remove(key@).contains_key(k) by {
                        if self.map().contains_key(k) {
                            let a = choose|a: int| 0 <= a < s.len() && s[a].0@ == k;
                            let oa = if a < i { a } else { a + 1 };
                            assert(old_entries[oa] == s[a]);
                            assert(oa != i);
                            if k == key@ {
                                if oa < i {
                                    assert(old_entries[oa].0@ != old_entries[i as int].0@);
                                } else {
                                    assert(old_entries[i as int].0@ != old_entries[oa].0@);
                                }
                            }
                        }
                        if old(self).map().remove(key@).contains_key(k) {
                            let oa = choose|oa: int|
                                0 <= oa < old_entries.len() && old_entries[oa].0@ == k;
                            assert(oa != i);
                            let a = if oa < i { oa } else { oa - 1 };
                            assert(s[a] == old_entries[oa]);
                        }
                    }
                    assert forall|k: K::V| #[trigger] self.map().contains_key(k) implies self.map()[k]
                        == old(self).map().remove(key@)[k] by {
                        let a = choose|a: int| 0 <= a < s.len() && s[a].0@ == k;
                        self.lemma_value_at(a);
                        let oa = if a < i { a } else { a + 1 };
                        assert(old_entries[oa] == s[a]);
                        old(self).lemma_value_at(oa);
                    }
                    assert(self.map() =~= old(self).map().remove(key@));
                }
                Some(value)
            },
        }
    }
}

/// The connections by the ids that this endpoint issued.
pub struct LocalIdMap {
    mapping: AssocMap<LocalId, Connection>,
}

impl View for LocalIdMap {
    type V = Map<Seq<u8>, Connection>;

    closed spec fn view(&self) -> Map<Seq<u8>, Connection> {
        self.mapping.map()
    }
}

impl LocalIdMap {
    /// The map's entries are consistent.
    pub closed spec fn wf(&self) -> bool {
        self.mapping.wf()
    }

    /// An empty map.
    pub fn new() -> (m: Self)
        ensures
            m.wf(),
            m@ == Map::<Seq<u8>, Connection>::empty(),
    {
        LocalIdMap { mapping: AssocMap::new() }
    }

    /// The connection with this id.
    pub fn get(&self, local_id: &LocalId) -> (r: Option<Connection>)
        requires
            self.wf(),
            local_id.wf(),
        ensures
            r == (if self@.contains_key(local_id@) {
                Some(self@[local_id@])
            } else {
                None
            }),
    {
        self.mapping.get(local_id)
    }

    /// Maps the id to the connection; `Err` when the id is already mapped,
    /// which leaves the map as it was.
    pub fn try_insert(&mut self, local_id: LocalId, connection: Connection) -> (r: Result<(), ()>)
        requires
            old(self).wf(),
            local_id.wf(),
        ensures
            final(self).wf(),
            r is Err <==> old(self)@.contains_key(local_id@),
            r is Err ==> final(self)@ == old(self)@,
            r is Ok ==> final(self)@ == old(self)@.insert(local_id@, connection),
    {
        if self.mapping.find(&local_id).is_some() {
            proof {
                let i = choose|i: int|
                    0 <= i < self.mapping.entries@.len() && self.mapping.entries@[i].0@
                        == local_id@;
                self.mapping.lemma_value_at(i);
            }
            return Err(());
        }
        self.mapping.insert_new(local_id, connection);
        Ok(())
    }

    /// Removes the id and returns its connection.
    pub fn remove(&mut self, local_id: &LocalId) -> (r: Option<Connection>)
        requires
            old(self).wf(),
            local_id.wf(),
        ensures
            final(self).wf(),
            final(self)@ == old(self)@.remove(local_id@),
            r == (if old(self)@.contains_key(local_id@) {
                Some(old(self)@[local_id@])
            } else {
                None
            }),
    {
        self.mapping.remove(local_id)
    }
}

/// The connections by the Initial ids that clients chose, and back.
pub struct InitialIdMap {
    /// Maps from initial id to internal connection ID
    initial_to_internal_id_map: AssocMap<InitialId, Connection>,
    /// Maps from internal connection ID to initial ID
    internal_to_initial_id_map: AssocMap<Connection, InitialId>,
}

impl InitialIdMap {
    /// The map from Initial ids to connections.
    pub closed spec fn forward(&self) -> Map<Seq<u8>, Connection> {
        self.initial_to_internal_id_map.map()
    }

    /// The map from connections to Initial ids.
    pub closed spec fn backward(&self) -> Map<Entity, InitialId> {
        self.internal_to_initial_id_map.map()
    }

    /// The two maps are each other's inverse.
    pub closed spec fn wf(&self) -> bool {
        &&& self.initial_to_internal_id_map.wf()
        &&& self.internal_to_initial_id_map.wf()
        &&& inverse_maps(self.forward(), self.backward())
    }

    /// An empty map.
    pub fn new() -> (m: Self)
        ensures
            m.wf(),
            m.forward() == Map::<Seq<u8>, Connection>::empty(),
            m.backward() == Map::<Entity, InitialId>::empty(),
    {
        InitialIdMap {
            initial_to_internal_id_map: AssocMap::new(),
            internal_to_initial_id_map: AssocMap::new(),
        }
    }

    /// Gets the connection (if any) associated with the given Initial id.
    pub fn get(&self, initial_id: &InitialId) -> (r: Option<Connection>)
        requires
            self.wf(),
            initial_id.wf(),
        ensures
            r == (if self.forward().contains_key(initial_id@) {
                Some(self.forward()[initial_id@])
            } else {
                None
            }),
    {
        self.initial_to_internal_id_map.get(initial_id)
    }

    /// Maps the Initial id and the connection to each other, if neither is
    /// mapped yet; otherwise returns `Err` and leaves the maps as they were.
    pub fn try_insert(&mut self, initial_id: InitialId, internal_id: Connection) -> (r: Result<(), ()>)
        requires
            old(self).wf(),
            initial_id.wf(),
        ensures
            final(self).wf(),
            r is Err <==> (old(self).forward().contains_key(initial_id@) || old(self).backward().contains_key(internal_id@)),
            r is Err ==> final(self).forward() == old(self).forward() && final(self).backward()
                == old(self).backward(),
            r is Ok ==> final(self).forward() == old(self).forward().insert(
                initial_id@,
                internal_id,
            ) && final(self).backward() == old(self).backward().insert(
                internal_id@,
                initial_id,
            ),
    {
        let a = self.initial_to_internal_id_map.find(&initial_id);
        let b = self.internal_to_initial_id_map.find(&internal_id);
        if a.is_some() || b.is_some() {
            proof {
                if a is Some {
                    self.initial_to_internal_id_map.lemma_value_at(a->Some_0 as int);
                }
                if b is Some {
                    self.internal_to_initial_id_map.lemma_value_at(b->Some_0 as int);
                }
            }
            return Err(());
        }
        self.initial_to_internal_id_map.insert_new(initial_id, internal_id);
        self.internal_to_initial_id_map.insert_new(internal_id, initial_id);
        proof {
            lemma_inverse_insert(old(self).forward(), old(self).backward(), initial_id, internal_id);
        }
        Ok(())
    }

    /// Removes the Initial id associated with the given connection from the
    /// map, and returns it.
    pub fn remove(&mut self, internal_id: &Connection) -> (r: Option<InitialId>)
        requires
            old(self).wf(),
        ensures
            final(self).wf(),
            r == (if old(self).backward().contains_key(internal_id@) {
                Some(old(self).backward()[internal_id@])
            } else {
                None
            }),
            r matches Some(id) ==> id.wf(),
            r matches Some(id) ==> final(self).forward() == old(self).forward().remove(id@)
                && final(self).backward() == old(self).backward().remove(internal_id@),
            r is None ==> final(self).forward() == old(self).forward() && final(self).backward()
                == old(self).backward(),
    {
        let initial_id = match self.internal_to_initial_id_map.remove(internal_id) {
            Some(id) => id,
            None => {
                proof {
                    assert(old(self).backward().remove(internal_id@) =~= old(self).backward());
                }
                return None;
            },
        };
        proof {
            assert(initial_id.wf());
        }
        let _ = self.initial_to_internal_id_map.remove(&initial_id);
        proof {
            lemma_inverse_remove(old(self).forward(), old(self).backward(), internal_id@);
        }
        Some(initial_id)
    }
}

/// `forward` and `backward` map Initial ids and connections to each other.
pub open spec fn inverse_maps(forward: Map<Seq<u8>, Connection>, backward: Map<Entity, InitialId>) -> bool {
    &&& forall|k: Seq<u8>|
        #[trigger] forward.contains_key(k) ==> backward.contains_key(forward[k]@) && backward[forward[k]@]@ == k
    &&& forall|c: Entity|
        #[trigger] backward.contains_key(c) ==> backward[c].wf() && forward.contains_key(backward[c]@) && forward[backward[c]@]@ == c
}

/// Inserting a fresh pair on both sides keeps the maps inverse.
pub proof fn lemma_inverse_insert(
    forward: Map<Seq<u8>, Connection>,
    backward: Map<Entity, InitialId>,
    id: InitialId,
    conn: Connection,
)
    requires
        inverse_maps(forward, backward),
        id.wf(),
        !forward.contains_key(id@),
        !backward.contains_key(conn@),
    ensures
        inverse_maps(forward.insert(id@, conn), backward.insert(conn@, id)),
{
}

/// Removing a connection and its Initial id on both sides keeps the maps
/// inverse.
pub proof fn lemma_inverse_remove(
    forward: Map<Seq<u8>, Connection>,
    backward: Map<Entity, InitialId>,
    conn: Entity,
)
    requires
        inverse_maps(forward, backward),
        backward.contains_key(conn),
    ensures
        inverse_maps(forward.remove(backward[conn]@), backward.remove(conn)),
{
    let f2 = forward.remove(backward[conn]@);
    let b2 = backward.remove(conn);
    assert forall|k: Seq<u8>| #[trigger] f2.contains_key(k) implies b2.contains_key(f2[k]@)
        && b2[f2[k]@]@ == k by {
        assert(forward.contains_key(k));
        if f2[k]@ == conn {
            assert(backward[conn]@ == k);
        }
    }
    assert forall|c: Entity| #[trigger] b2.contains_key(c) implies b2[c].wf() && f2.contains_key(
        b2[c]@,
    ) && f2[b2[c]@]@ == c by {
        assert(backward.contains_key(c));
        if b2[c]@ == backward[conn]@ {
            assert(forward[backward[c]@]@ == c);
        }
    }
}

/// Removing a connection right after it was mapped to a new Initial id gives
/// the id back and leaves both maps as they were before the insert.
pub proof fn law_remove_undoes_insert(
    forward: Map<Seq<u8>, Connection>,
    backward: Map<Entity, InitialId>,
    id: InitialId,
    c: Connection,
)
    requires
        !forward.contains_key(id@),
        !backward.contains_key(c@),
    ensures
        backward.insert(c@, id).contains_key(c@),
        backward.insert(c@, id)[c@] == id,
        forward.insert(id@, c).remove(id@) == forward,
        backward.insert(c@, id).remove(c@) == backward,
{
    assert(forward.insert(id@, c).remove(id@) =~= forward);
    assert(backward.insert(c@, id).remove(c@) =~= backward);
}

/// Removing a local id right after it was mapped gives its connection back
/// and leaves the map as it was.
pub proof fn law_local_remove_undoes_insert(map: Map<Seq<u8>, Connection>, id: Seq<u8>, c: Connection)
    requires
        !map.contains_key(id),
    ensures
        map.insert(id, c)[id] == c,
        map.insert(id, c).remove(id) == map,
{
    assert(map.insert(id, c).remove(id) =~= map);
}

} // verus!
