//! A registry of shared values, one slot per type identity and one per name.
//! Merging two registries yields a new one in which the second's slots win.
use vstd::prelude::*;
use vstd::pervasive::cloned;
use std::any::TypeId;

verus! {

/// `std::any::TypeId`, the key of the typed slots, held opaque.
#[verifier::external_type_specification]
#[verifier::external_body]
pub struct ExTypeId(std::any::TypeId);

/// Relies on `TypeId`'s `==`: two identities are equal exactly when they are the same.
pub assume_specification[ <std::any::TypeId as PartialEq>::eq ](a: &TypeId, b: &TypeId) -> (r: bool)
    ensures
        r == (*a == *b),
;

/// The values of an association list keyed by type identity.
pub open spec fn typed_map<V>(s: Seq<(TypeId, V)>) -> Map<TypeId, V> {
    Map::new(
        |k: TypeId| exists|i: int| 0 <= i < s.len() && s[i].0 == k,
        |k: TypeId| s[choose|i: int| 0 <= i < s.len() && s[i].0 == k].1,
    )
}

/// The values of an association list keyed by name.
pub open spec fn named_map<V>(s: Seq<(String, V)>) -> Map<Seq<char>, V> {
    Map::new(
        |k: Seq<char>| exists|i: int| 0 <= i < s.len() && s[i].0@ == k,
        |k: Seq<char>| s[choose|i: int| 0 <= i < s.len() && s[i].0@ == k].1,
    )
}

/// Whether each type identity has at most one slot.
pub open spec fn typed_unique<V>(s: Seq<(TypeId, V)>) -> bool {
    forall|i: int, j: int| 0 <= i < s.len() && 0 <= j < s.len() && s[i].0 == s[j].0 ==> i == j
}

/// Whether each name has at most one slot.
pub open spec fn named_unique<V>(s: Seq<(String, V)>) -> bool {
    forall|i: int, j: int| 0 <= i < s.len() && 0 <= j < s.len() && s[i].0@ == s[j].0@ ==> i == j
}

/// Shared values for tool handlers, looked up by type identity or by name.
pub struct DependencyMap<V> {
    typed: Vec<(TypeId, V)>,
    named: Vec<(String, V)>,
}

/// A value `w` is `m`'s value at `k`, as a clone.
pub open spec fn holds_clone<K, V: Clone>(m: Map<K, V>, k: K, w: V) -> bool {
    m.contains_key(k) && cloned(m[k], w)
}

/// The slots of a merge: the keys of both, with a clone of the override's value
/// where it has one, else a clone of the base's.
pub open spec fn merged_slots<K, V: Clone>(base: Map<K, V>, over: Map<K, V>, r: Map<K, V>) -> bool {
    &&& forall|k: K| #[trigger] r.contains_key(k) <==> base.contains_key(k) || over.contains_key(k)
    &&& forall|k: K| #[trigger] over.contains_key(k) ==> cloned(over[k], r[k])
    &&& forall|k: K|
        !over.contains_key(k) && #[trigger] base.contains_key(k) ==> cloned(base[k], r[k])
}

fn find_typed<V>(s: &Vec<(TypeId, V)>, key: &TypeId) -> (r: Option<usize>)
    ensures
        r matches Some(i) ==> i < s@.len() && s@[i as int].0 == *key,
        r is None ==> !typed_map(s@).contains_key(*key),
{
    let mut i: usize = 0;
    while i < s.len()
        invariant
            0 <= i <= s@.len(),
            forall|j: int| 0 <= j < i ==> s@[j].0 != *key,
        decreases s.len() - i,
    {
        if s[i].0 == *key {
            return Some(i);
        }
        i = i + 1;
    }
    None
}

fn find_named<V>(s: &Vec<(String, V)>, key: &str) -> (r: Option<usize>)
    ensures
        r matches Some(i) ==> i < s@.len() && s@[i as int].0@ == key@,
        r is None ==> !named_map(s@).contains_key(key@),
{
    let mut i: usize = 0;
    while i < s.len()
        invariant
            0 <= i <= s@.len(),
            forall|j: int| 0 <= j < i ==> s@[j].0@ != key@,
        decreases s.len() - i,
    {
        if crate::text::str_eq(s[i].0.as_str(), key) {
            return Some(i);
        }
        i = i + 1;
    }
    None
}

proof fn lemma_typed_at<V>(s: Seq<(TypeId, V)>, i: int)
    requires
        typed_unique(s),
        0 <= i < s.len(),
    ensures
        typed_map(s).contains_key(s[i].0),
        typed_map(s)[s[i].0] == s[i].1,
{
    let k = s[i].0;
    assert(exists|j: int| 0 <= j < s.len() && s[j].0 == k);
    let j = choose|j: int| 0 <= j < s.len() && s[j].0 == k;
    assert(i == j);
}

proof fn lemma_named_at<V>(s: Seq<(String, V)>, i: int)
    requires
        named_unique(s),
        0 <= i < s.len(),
    ensures
        named_map(s).contains_key(s[i].0@),
        named_map(s)[s[i].0@] == s[i].1,
{
    let k = s[i].0@;
    assert(exists|j: int| 0 <= j < s.len() && s[j].0@ == k);
    let j = choose|j: int| 0 <= j < s.len() && s[j].0@ == k;
    assert(i == j);
}

/// Writing `(key, value)` at position `p`, over the old slot of `key` or
/// appended after the old slots, inserts `key` into the map.
proof fn lemma_put_typed<V>(old: Seq<(TypeId, V)>, t: Seq<(TypeId, V)>, key: TypeId, value: V, p: int)
    requires
        typed_unique(old),
        typed_unique(t),
        0 <= p < t.len(),
        t[p] == (key, value),
        t.len() == old.len() || (t.len() == old.len() + 1 && p == old.len() && !typed_map(old).contains_key(key)),
        p < old.len() ==> old[p].0 == key,
        forall|j: int| 0 <= j < old.len() && j != p ==> t[j] == old[j],
    ensures
        typed_map(t) == typed_map(old).insert(key, value),
{
    let m0 = typed_map(old);
    assert forall|k: TypeId| #[trigger] typed_map(t).contains_key(k) == m0.insert(key, value).contains_key(k) by {
        if k != key && m0.contains_key(k) {
            let j = choose|j: int| 0 <= j < old.len() && old[j].0 == k;
            assert(t[j].0 == k);
        }
        if k != key && typed_map(t).contains_key(k) {
            let j = choose|j: int| 0 <= j < t.len() && t[j].0 == k;
            assert(old[j].0 == k);
        }
        if k == key {
            assert(t[p].0 == k);
        }
    }
    assert forall|k: TypeId| #[trigger] typed_map(t).contains_key(k) implies typed_map(t)[k] == m0.insert(key, value)[k] by {
        let j = choose|j: int| 0 <= j < t.len() && t[j].0 == k;
        lemma_typed_at(t, j);
        if k != key {
            assert(old[j] == t[j]);
            lemma_typed_at(old, j);
        }
    }
    assert(typed_map(t) =~= m0.insert(key, value));
}

fn put_typed<V>(s: &mut Vec<(TypeId, V)>, key: TypeId, value: V)
    requires
        typed_unique(old(s)@),
    ensures
        typed_unique(final(s)@),
        typed_map(final(s)@) == typed_map(old(s)@).insert(key, value),
{
    match find_typed(s, &key) {
        Some(i) => {
            s.set(i, (key, value));
            proof {
                lemma_put_typed(old(s)@, s@, key, value, i as int);
            }
        },
        None => {
            s.push((key, value));
            proof {
                lemma_put_typed(old(s)@, s@, key, value, old(s)@.len() as int);
            }
        },
    }
}

/// Writing `(key, value)` at position `p`, over the old slot of `key` or
/// appended after the old slots, inserts `key` into the map.
proof fn lemma_put_named<V>(old: Seq<(String, V)>, t: Seq<(String, V)>, key: String, value: V, p: int)
    requires
        named_unique(old),
        named_unique(t),
        0 <= p < t.len(),
        t[p] == (key, value),
        t.len() == old.len() || (t.len() == old.len() + 1 && p == old.len() && !named_map(old).contains_key(key@)),
        p < old.len() ==> old[p].0@ == key@,
        forall|j: int| 0 <= j < old.len() && j != p ==> t[j] == old[j],
    ensures
        named_map(t) == named_map(old).insert(key@, value),
{
    let m0 = named_map(old);
    assert forall|k: Seq<char>| #[trigger] named_map(t).contains_key(k) == m0.insert(key@, value).contains_key(k) by {
        if k != key@ && m0.contains_key(k) {
            let j = choose|j: int| 0 <= j < old.len() && old[j].0@ == k;
            assert(t[j].0@ == k);
        }
        if k != key@ && named_map(t).contains_key(k) {
            let j = choose|j: int| 0 <= j < t.len() && t[j].0@ == k;
            assert(old[j].0@ == k);
        }
        if k == key@ {
            assert(t[p].0@ == k);
        }
    }
    assert forall|k: Seq<char>| #[trigger] named_map(t).contains_key(k) implies named_map(t)[k] == m0.insert(key@, value)[k] by {
        let j = choose|j: int| 0 <= j < t.len() && t[j].0@ == k;
        lemma_named_at(t, j);
        if k != key@ {
            assert(old[j] == t[j]);
            lemma_named_at(old, j);
        }
    }
    assert(named_map(t) =~= m0.insert(key@, value));
}

fn put_named<V>(s: &mut Vec<(String, V)>, key: String, value: V)
    requires
        named_unique(old(s)@),
    ensures
        named_unique(final(s)@),
        named_map(final(s)@) == named_map(old(s)@).insert(key@, value),
{
    match find_named(s, key.as_str()) {
        Some(i) => {
            s.set(i, (key, value));
            proof {
                lemma_put_named(old(s)@, s@, s@[i as int].0, s@[i as int].1, i as int);
            }
        },
        None => {
            s.push((key, value));
            proof {
                lemma_put_named(old(s)@, s@, s@[old(s)@.len() as int].0, s@[old(s)@.len() as int].1, old(s)@.len() as int);
            }
        },
    }
}


fn merge_typed<V: Clone>(base: &Vec<(TypeId, V)>, over: &Vec<(TypeId, V)>) -> (r: Vec<(TypeId, V)>)
    requires
        typed_unique(base@),
        typed_unique(over@),
    ensures
        typed_unique(r@),
        merged_slots(typed_map(base@), typed_map(over@), typed_map(r@)),
{
        let mut typed: Vec<(TypeId, V)> = Vec::new();
        let mut i: usize = 0;
        while i < base.len()
            invariant
                typed_unique(base@),
                typed_unique(typed@),
                0 <= i <= base@.len(),
                forall|k: TypeId| #[trigger] typed_map(typed@).contains_key(k) <==> exists|j: int| 0 <= j < i && base@[j].0 == k,
                forall|j: int| 0 <= j < i ==> cloned(base@[j].1, #[trigger] typed_map(typed@)[base@[j].0]),
            decreases base.len() - i,
        {
            let k = base[i].0;
            let v = base[i].1.clone();
            let ghost before = typed_map(typed@);
            put_typed(&mut typed, k, v);
            proof {
                assert forall|kk: TypeId| #[trigger] typed_map(typed@).contains_key(kk) <==> exists|j: int| 0 <= j < i + 1 && base@[j].0 == kk by {
                    if kk == k {
                        assert(base@[i as int].0 == kk);
                    }
                    if exists|j: int| 0 <= j < i + 1 && base@[j].0 == kk {
                        let j = choose|j: int| 0 <= j < i + 1 && base@[j].0 == kk;
                        if j < i {
                            assert(before.contains_key(kk));
                        }
                    }
                }
                assert forall|j: int| 0 <= j < i + 1 implies cloned(base@[j].1, #[trigger] typed_map(typed@)[base@[j].0]) by {
                    if j < i {
                        assert(base@[j].0 != k);
                    }
                }
            }
            i = i + 1;
        }
        let ghost from_base = typed_map(typed@);
        let mut i: usize = 0;
        while i < over.len()
            invariant
                typed_unique(base@),
                typed_unique(over@),
                typed_unique(typed@),
                0 <= i <= over@.len(),
                forall|k: TypeId| #[trigger] from_base.contains_key(k) <==> typed_map(base@).contains_key(k),
                forall|k: TypeId| typed_map(base@).contains_key(k) ==> cloned(typed_map(base@)[k], #[trigger] from_base[k]),
                forall|k: TypeId| #[trigger] typed_map(typed@).contains_key(k) <==> from_base.contains_key(k) || exists|j: int| 0 <= j < i && over@[j].0 == k,
                forall|j: int| 0 <= j < i ==> cloned(over@[j].1, #[trigger] typed_map(typed@)[over@[j].0]),
                forall|k: TypeId| (forall|j: int| 0 <= j < i ==> over@[j].0 != k) && #[trigger] from_base.contains_key(k) ==> typed_map(typed@)[k] == from_base[k],
            decreases over.len() - i,
        {
            let k = over[i].0;
            let v = over[i].1.clone();
            let ghost before = typed_map(typed@);
            put_typed(&mut typed, k, v);
            proof {
                assert forall|kk: TypeId| #[trigger] typed_map(typed@).contains_key(kk) <==> from_base.contains_key(kk) || exists|j: int| 0 <= j < i + 1 && over@[j].0 == kk by {
                    if kk == k {
                        assert(over@[i as int].0 == kk);
                    }
                    if exists|j: int| 0 <= j < i + 1 && over@[j].0 == kk {
                        let j = choose|j: int| 0 <= j < i + 1 && over@[j].0 == kk;
                        if j < i {
                            assert(before.contains_key(kk));
                        }
                    }
                }
                assert forall|j: int| 0 <= j < i + 1 implies cloned(over@[j].1, #[trigger] typed_map(typed@)[over@[j].0]) by {
                    if j < i {
                        assert(over@[j].0 != k);
                    }
                }
                assert forall|kk: TypeId| (forall|j: int| 0 <= j < i + 1 ==> over@[j].0 != kk) && #[trigger] from_base.contains_key(kk) implies typed_map(typed@)[kk] == from_base[kk] by {
                    assert(over@[i as int].0 != kk);
                }
            }
            i = i + 1;
        }
        proof {
            let bm = typed_map(base@);
            let om = typed_map(over@);
            let rm = typed_map(typed@);
            assert forall|k: TypeId| #[trigger] rm.contains_key(k) <==> bm.contains_key(k) || om.contains_key(k) by {
                if exists|j: int| 0 <= j < over@.len() && over@[j].0 == k {
                    assert(om.contains_key(k));
                }
            }
            assert forall|k: TypeId| #[trigger] om.contains_key(k) implies cloned(om[k], rm[k]) by {
                let j = choose|j: int| 0 <= j < over@.len() && over@[j].0 == k;
                lemma_typed_at(over@, j);
            }
            assert forall|k: TypeId| !om.contains_key(k) && #[trigger] bm.contains_key(k) implies cloned(bm[k], rm[k]) by {
                assert forall|j: int| 0 <= j < over@.len() implies over@[j].0 != k by {
                    if over@[j].0 == k {
                        assert(om.contains_key(k));
                    }
                }
                assert(from_base.contains_key(k));
            }
        }
        typed
}

fn merge_named<V: Clone>(base: &Vec<(String, V)>, over: &Vec<(String, V)>) -> (r: Vec<(String, V)>)
    requires
        named_unique(base@),
        named_unique(over@),
    ensures
        named_unique(r@),
        merged_slots(named_map(base@), named_map(over@), named_map(r@)),
{
        let mut typed: Vec<(String, V)> = Vec::new();
        let mut i: usize = 0;
        while i < base.len()
            invariant
                named_unique(base@),
                named_unique(typed@),
                0 <= i <= base@.len(),
                forall|k: Seq<char>| #[trigger] named_map(typed@).contains_key(k) <==> exists|j: int| 0 <= j < i && base@[j].0@ == k,
                forall|j: int| 0 <= j < i ==> cloned(base@[j].1, #[trigger] named_map(typed@)[base@[j].0@]),
            decreases base.len() - i,
        {
            let k = base[i].0.clone();
            let v = base[i].1.clone();
            let ghost before = named_map(typed@);
            put_named(&mut typed, k, v);
            proof {
                assert forall|kk: Seq<char>| #[trigger] named_map(typed@).contains_key(kk) <==> exists|j: int| 0 <= j < i + 1 && base@[j].0@ == kk by {
                    if kk == k@ {
                        assert(base@[i as int].0@ == kk);
                    }
                    if exists|j: int| 0 <= j < i + 1 && base@[j].0@ == kk {
                        let j = choose|j: int| 0 <= j < i + 1 && base@[j].0@ == kk;
                        if j < i {
                            assert(before.contains_key(kk));
                        }
                    }
                }
                assert forall|j: int| 0 <= j < i + 1 implies cloned(base@[j].1, #[trigger] named_map(typed@)[base@[j].0@]) by {
                    if j < i {
                        assert(base@[j].0@ != k@);
                    }
                }
            }
            i = i + 1;
        }
        let ghost from_base = named_map(typed@);
        let mut i: usize = 0;
        while i < over.len()
            invariant
                named_unique(base@),
                named_unique(over@),
                named_unique(typed@),
                0 <= i <= over@.len(),
                forall|k: Seq<char>| #[trigger] from_base.contains_key(k) <==> named_map(base@).contains_key(k),
                forall|k: Seq<char>| named_map(base@).contains_key(k) ==> cloned(named_map(base@)[k], #[trigger] from_base[k]),
                forall|k: Seq<char>| #[trigger] named_map(typed@).contains_key(k) <==> from_base.contains_key(k) || exists|j: int| 0 <= j < i && over@[j].0@ == k,
                forall|j: int| 0 <= j < i ==> cloned(over@[j].1, #[trigger] named_map(typed@)[over@[j].0@]),
                forall|k: Seq<char>| (forall|j: int| 0 <= j < i ==> over@[j].0@ != k) && #[trigger] from_base.contains_key(k) ==> named_map(typed@)[k] == from_base[k],
            decreases over.len() - i,
        {
            let k = over[i].0.clone();
            let v = over[i].1.clone();
            let ghost before = named_map(typed@);
            put_named(&mut typed, k, v);
            proof {
                assert forall|kk: Seq<char>| #[trigger] named_map(typed@).contains_key(kk) <==> from_base.contains_key(kk) || exists|j: int| 0 <= j < i + 1 && over@[j].0@ == kk by {
                    if kk == k@ {
                        assert(over@[i as int].0@ == kk);
                    }
                    if exists|j: int| 0 <= j < i + 1 && over@[j].0@ == kk {
                        let j = choose|j: int| 0 <= j < i + 1 && over@[j].0@ == kk;
                        if j < i {
                            assert(before.contains_key(kk));
                        }
                    }
                }
                assert forall|j: int| 0 <= j < i + 1 implies cloned(over@[j].1, #[trigger] named_map(typed@)[over@[j].0@]) by {
                    if j < i {
                        assert(over@[j].0@ != k@);
                    }
                }
                assert forall|kk: Seq<char>| (forall|j: int| 0 <= j < i + 1 ==> over@[j].0@ != kk) && #[trigger] from_base.contains_key(kk) implies named_map(typed@)[kk] == from_base[kk] by {
                    assert(over@[i as int].0@ != kk);
                }
            }
            i = i + 1;
        }
        proof {
            let bm = named_map(base@);
            let om = named_map(over@);
            let rm = named_map(typed@);
            assert forall|k: Seq<char>| #[trigger] rm.contains_key(k) <==> bm.contains_key(k) || om.contains_key(k) by {
                if exists|j: int| 0 <= j < over@.len() && over@[j].0@ == k {
                    assert(om.contains_key(k));
                }
            }
            assert forall|k: Seq<char>| #[trigger] om.contains_key(k) implies cloned(om[k], rm[k]) by {
                let j = choose|j: int| 0 <= j < over@.len() && over@[j].0@ == k;
                lemma_named_at(over@, j);
            }
            assert forall|k: Seq<char>| !om.contains_key(k) && #[trigger] bm.contains_key(k) implies cloned(bm[k], rm[k]) by {
                assert forall|j: int| 0 <= j < over@.len() implies over@[j].0@ != k by {
                    if over@[j].0@ == k {
                        assert(om.contains_key(k));
                    }
                }
                assert(from_base.contains_key(k));
            }
        }
        typed
}

impl<V> DependencyMap<V> {
    /// Each type identity and each name has at most one slot.
    pub closed spec fn wf(&self) -> bool {
        typed_unique(self.typed@) && named_unique(self.named@)
    }

    /// The values by type identity.
    pub closed spec fn typed_view(&self) -> Map<TypeId, V> {
        typed_map(self.typed@)
    }

    /// The values by name.
    pub closed spec fn named_view(&self) -> Map<Seq<char>, V> {
        named_map(self.named@)
    }
}

impl<V: Clone> DependencyMap<V> {
    /// An empty registry.
    pub fn new() -> (r: Self)
        ensures
            r.wf(),
            r.typed_view() == Map::<TypeId, V>::empty(),
            r.named_view() == Map::<Seq<char>, V>::empty(),
    {
        let r = DependencyMap { typed: Vec::new(), named: Vec::new() };
        assert(r.typed_view() =~= Map::<TypeId, V>::empty());
        assert(r.named_view() =~= Map::<Seq<char>, V>::empty());
        r
    }

    /// Stores `value` in the slot of the type identity `key`, replacing what was there.
    pub fn insert(&mut self, key: TypeId, value: V)
        requires
            old(self).wf(),
        ensures
            final(self).wf(),
            final(self).typed_view() == old(self).typed_view().insert(key, value),
            final(self).named_view() == old(self).named_view(),
    {
        put_typed(&mut self.typed, key, value);
    }

    /// Stores `value` in the slot named `key`, replacing what was there.
    pub fn insert_named(&mut self, key: String, value: V)
        requires
            old(self).wf(),
        ensures
            final(self).wf(),
            final(self).named_view() == old(self).named_view().insert(key@, value),
            final(self).typed_view() == old(self).typed_view(),
    {
        put_named(&mut self.named, key, value);
    }

    /// The value in the slot of the type identity `key`, if any.
    pub fn get(&self, key: &TypeId) -> (r: Option<&V>)
        requires
            self.wf(),
        ensures
            r matches Some(v) ==> self.typed_view().contains_key(*key) && *v == self.typed_view()[*key],
            r is None ==> !self.typed_view().contains_key(*key),
    {
        match find_typed(&self.typed, key) {
            Some(i) => {
                proof {
                    lemma_typed_at(self.typed@, i as int);
                }
                Some(&self.typed[i].1)
            },
            None => None,
        }
    }

    /// The value in the slot named `key`, if any.
    pub fn get_named(&self, key: &str) -> (r: Option<&V>)
        requires
            self.wf(),
        ensures
            r matches Some(v) ==> self.named_view().contains_key(key@) && *v == self.named_view()[key@],
            r is None ==> !self.named_view().contains_key(key@),
    {
        match find_named(&self.named, key) {
            Some(i) => {
                proof {
                    lemma_named_at(self.named@, i as int);
                }
                Some(&self.named[i].1)
            },
            None => None,
        }
    }

    /// A new registry holding the slots of both, where those of `overrides`
    /// replace those of `self` under the same key. Neither input changes.
    pub fn merged_with(&self, overrides: &DependencyMap<V>) -> (r: DependencyMap<V>)
        requires
            self.wf(),
            overrides.wf(),
        ensures
            r.wf(),
            merged_slots(self.typed_view(), overrides.typed_view(), r.typed_view()),
            merged_slots(self.named_view(), overrides.named_view(), r.named_view()),
    {
        let typed = merge_typed(&self.typed, &overrides.typed);
        let named = merge_named(&self.named, &overrides.named);
        DependencyMap { typed, named }
    }
}

/// A value inserted as an override for a type identity, over a base that holds
/// another value for it, is what the merged registry holds there (as a clone):
/// the base value is never seen through that slot.
pub proof fn lemma_override_wins<V: Clone>(
    base0: DependencyMap<V>,
    base: DependencyMap<V>,
    over0: DependencyMap<V>,
    over: DependencyMap<V>,
    merged: DependencyMap<V>,
    key: TypeId,
    v: V,
    v2: V,
)
    requires
        base.typed_view() == base0.typed_view().insert(key, v),
        over.typed_view() == over0.typed_view().insert(key, v2),
        merged_slots(base.typed_view(), over.typed_view(), merged.typed_view()),
    ensures
        merged.typed_view().contains_key(key),
        cloned(v2, merged.typed_view()[key]),
{
    assert(over.typed_view().contains_key(key));
}

/// The same law for named slots.
pub proof fn lemma_named_override_wins<V: Clone>(
    base0: DependencyMap<V>,
    base: DependencyMap<V>,
    over0: DependencyMap<V>,
    over: DependencyMap<V>,
    merged: DependencyMap<V>,
    key: Seq<char>,
    v: V,
    v2: V,
)
    requires
        base.named_view() == base0.named_view().insert(key, v),
        over.named_view() == over0.named_view().insert(key, v2),
        merged_slots(base.named_view(), over.named_view(), merged.named_view()),
    ensures
        merged.named_view().contains_key(key),
        cloned(v2, merged.named_view()[key]),
{
    assert(over.named_view().contains_key(key));
}

} // verus!
