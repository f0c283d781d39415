//! The entities of a diagram, each under its id.
use vstd::prelude::*;
use crate::model::Entity;
use crate::model::EntityView;

verus! {

/// An id with the entity that stands under it.
#[derive(Debug)]
struct Entry {
    key: String,
    entity: Entity,
}

/// A map from id to entity. No id stands in it twice. It remembers the
/// order in which the ids came, but what it stands for is the map alone.
#[derive(Debug)]
pub struct EntityMap {
    entries: Vec<Entry>,
}

impl View for EntityMap {
    type V = Map<Seq<char>, EntityView>;

    closed spec fn view(&self) -> Map<Seq<char>, EntityView> {
        Map::new(
            |k: Seq<char>| self.position(k) < self.entries.len(),
            |k: Seq<char>| self.entries[self.position(k)].entity@,
        )
    }
}

impl Clone for EntityMap {
    fn clone(&self) -> (copy: Self)
        ensures
            copy@ == self@,
            copy.keys() == self.keys(),
            copy.values() == self.values(),
    {
        proof {
            use_type_invariant(self);
        }
        let mut entries: Vec<Entry> = Vec::new();
        let mut i: usize = 0;
        while i < self.entries.len()
            invariant
                i <= self.entries.len(),
                entries@.len() == i,
                forall|j: int|
                    0 <= j < i ==> (#[trigger] entries@[j]).key@ == self.entries@[j].key@
                        && entries@[j].entity@ == self.entries@[j].entity@,
            decreases self.entries.len() - i,
        {
            entries.push(
                Entry { key: self.entries[i].key.clone(), entity: self.entries[i].entity.clone() },
            );
            i = i + 1;
        }
        let copy = EntityMap { entries };
        proof {
            assert(copy.keys() =~= self.keys());
            assert(copy.values() =~= self.values());
            self.lemma_listed();
            copy.lemma_view_is(self@);
        }
        copy
    }
}

impl EntityMap {
    #[verifier::type_invariant]
    spec fn distinct(&self) -> bool {
        forall|i: int, j: int|
            0 <= i < j < self.entries.len() ==> (#[trigger] self.entries[i]).key@
                != (#[trigger] self.entries[j]).key@
    }

    /// The first place at which `key` stands, or the number of entries where
    /// it stands nowhere.
    spec fn position(&self, key: Seq<char>) -> int {
        Self::first_of(self.entries@, key, 0)
    }

    spec fn first_of(entries: Seq<Entry>, key: Seq<char>, from: int) -> int
        decreases entries.len() - from,
    {
        if from >= entries.len() {
            entries.len() as int
        } else if entries[from].key@ == key {
            from
        } else {
            Self::first_of(entries, key, from + 1)
        }
    }

    /// The ids in the order in which they came.
    pub closed spec fn keys(&self) -> Seq<Seq<char>> {
        Seq::new(self.entries@.len(), |i: int| self.entries[i].key@)
    }

    /// The entities in the order in which their ids came.
    pub closed spec fn values(&self) -> Seq<EntityView> {
        Seq::new(self.entries@.len(), |i: int| self.entries[i].entity@)
    }

    /// `keys` and `values` list the map: each id once, beside its entity.
    pub open spec fn is_listed(&self) -> bool {
        &&& self.keys().len() == self.values().len()
        &&& self.keys().no_duplicates()
        &&& forall|i: int|
            0 <= i < self.keys().len() ==> self@.dom().contains(#[trigger] self.keys()[i])
                && self@[self.keys()[i]] == self.values()[i]
        &&& forall|k: Seq<char>| self@.dom().contains(k) ==> self.keys().contains(k)
    }

    /// The map without entries.
    pub fn new() -> (m: EntityMap)
        ensures
            m@ == Map::<Seq<char>, EntityView>::empty(),
            m.keys().len() == 0,
    {
        let m = EntityMap { entries: Vec::new() };
        assert(m@ =~= Map::<Seq<char>, EntityView>::empty());
        m
    }

    proof fn lemma_first_of(entries: Seq<Entry>, key: Seq<char>, from: int)
        requires
            0 <= from <= entries.len(),
        ensures
            from <= Self::first_of(entries, key, from) <= entries.len(),
            Self::first_of(entries, key, from) < entries.len() ==> entries[Self::first_of(
                entries,
                key,
                from,
            )].key@ == key,
            forall|j: int|
                from <= j < Self::first_of(entries, key, from) ==> (#[trigger] entries[j]).key@
                    != key,
        decreases entries.len() - from,
    {
        if from < entries.len() && entries[from].key@ != key {
            Self::lemma_first_of(entries, key, from + 1);
        }
    }

    proof fn lemma_listed(&self)
        requires
            self.distinct(),
        ensures
            self.is_listed(),
            forall|i: int|
                0 <= i < self.entries.len() ==> self.position(#[trigger] self.keys()[i]) == i,
            forall|k: Seq<char>|
                self@.dom().contains(k) <==> 0 <= self.position(k) < self.entries.len(),
            forall|k: Seq<char>|
                0 <= self.position(k) < self.entries.len() ==> self.keys()[self.position(k)]
                    == k,
    {
        assert forall|i: int| 0 <= i < self.entries.len() implies self.position(
            #[trigger] self.keys()[i],
        ) == i by {
            Self::lemma_first_of(self.entries@, self.keys()[i], 0);
        }
        assert forall|k: Seq<char>| 0 <= self.position(k) < self.entries.len() implies self.keys()[self.position(k)]
            == k by {
            Self::lemma_first_of(self.entries@, k, 0);
        }
        assert forall|k: Seq<char>| self@.dom().contains(k) implies self.keys().contains(k) by {
            Self::lemma_first_of(self.entries@, k, 0);
            assert(self.keys()[self.position(k)] == k);
        }
        assert forall|k: Seq<char>|
            self@.dom().contains(k) <==> 0 <= self.position(k) < self.entries.len() by {
            Self::lemma_first_of(self.entries@, k, 0);
        }
    }

    proof fn lemma_view_is(&self, m: Map<Seq<char>, EntityView>)
        requires
            self.distinct(),
            forall|i: int|
                0 <= i < self.entries.len() ==> m.dom().contains(#[trigger] self.keys()[i])
                    && m[self.keys()[i]] == self.values()[i],
            forall|k: Seq<char>| m.dom().contains(k) ==> self.keys().contains(k),
        ensures
            self@ == m,
    {
        self.lemma_listed();
        assert forall|k: Seq<char>| self@.dom().contains(k) implies m.dom().contains(k) by {
            let p = self.position(k);
            assert(self.keys()[p] == k);
        }
        assert forall|k: Seq<char>| m.dom().contains(k) implies self@.dom().contains(k)
            && self@[k] == m[k] by {
            let i = choose|i: int| 0 <= i < self.keys().len() && self.keys()[i] == k;
            assert(self@.dom().contains(self.keys()[i]));
        }
        assert(self@ =~= m);
    }

    proof fn lemma_counted(&self)
        requires
            self.distinct(),
        ensures
            self@.dom().finite(),
            self@.dom().len() == self.keys().len(),
    {
        self.lemma_listed();
        let keys = self.keys();
        assert(keys.to_set() =~= self@.dom()) by {
            assert forall|k: Seq<char>| keys.to_set().contains(k) implies self@.dom().contains(
                k,
            ) by {
                let i = choose|i: int| 0 <= i < keys.len() && keys[i] == k;
                assert(self@.dom().contains(keys[i]));
            }
        }
        keys.unique_seq_to_set();
        vstd::seq_lib::seq_to_set_is_finite(keys);
    }

    /// How many entities the map holds.
    pub fn len(&self) -> (n: usize)
        ensures
            n == self.keys().len(),
            self@.dom().finite(),
            n == self@.dom().len(),
            self.is_listed(),
    {
        proof {
            use_type_invariant(self);
            self.lemma_listed();
            self.lemma_counted();
        }
        self.entries.len()
    }

    /// Whether the map holds no entity.
    pub fn is_empty(&self) -> (empty: bool)
        ensures
            empty == (self.keys().len() == 0),
            empty == (self@.dom().len() == 0),
            self.is_listed(),
    {
        self.len() == 0
    }

    /// The id at place `i` of the listing.
    pub fn key_at(&self, i: usize) -> (key: &String)
        requires
            i < self.keys().len(),
        ensures
            key@ == self.keys()[i as int],
    {
        &self.entries[i].key
    }

    /// The entity at place `i` of the listing.
    pub fn entity_at(&self, i: usize) -> (entity: &Entity)
        requires
            i < self.keys().len(),
        ensures
            entity@ == self.values()[i as int],
    {
        &self.entries[i].entity
    }

    /// The place of `key` in the listing, if it stands there.
    pub fn index_of(&self, key: &String) -> (found: Option<usize>)
        ensures
            self.is_listed(),
            match found {
                Some(i) => i < self.keys().len() && self.keys()[i as int] == key@,
                None => !self@.dom().contains(key@),
            },
    {
        proof {
            use_type_invariant(self);
            self.lemma_listed();
        }
        let mut i: usize = 0;
        while i < self.entries.len()
            invariant
                i <= self.entries.len(),
                self.is_listed(),
                forall|j: int| 0 <= j < i ==> (#[trigger] self.entries[j]).key@ != key@,
            decreases self.entries.len() - i,
        {
            if self.entries[i].key == *key {
                return Some(i);
            }
            i = i + 1;
        }
        proof {
            if self@.dom().contains(key@) {
                let p = self.position(key@);
                assert(self.keys()[p] == key@);
                assert(self.entries[p].key@ == key@);
            }
        }
        None
    }

    /// The entity under `key`, if there is one.
    pub fn get(&self, key: &String) -> (found: Option<&Entity>)
        ensures
            match found {
                Some(entity) => self@.dom().contains(key@) && entity@ == self@[key@],
                None => !self@.dom().contains(key@),
            },
    {
        match self.index_of(key) {
            Some(i) => Some(&self.entries[i].entity),
            None => None,
        }
    }

    /// Whether an entity stands under `key`.
    pub fn contains_key(&self, key: &String) -> (found: bool)
        ensures
            found == self@.dom().contains(key@),
    {
        self.index_of(key).is_some()
    }

    /// Puts `entity` under `key`. What stood there before comes back; a new
    /// id goes to the end of the listing.
    pub fn insert(&mut self, key: String, entity: Entity) -> (before: Option<Entity>)
        ensures
            final(self)@ == old(self)@.insert(key@, entity@),
            final(self).is_listed(),
            match before {
                Some(e) => old(self)@.dom().contains(key@) && e@ == old(self)@[key@]
                    && final(self).keys() == old(self).keys(),
                None => !old(self)@.dom().contains(key@) && final(self).keys() == old(
                    self,
                ).keys().push(key@),
            },
    {
        match self.index_of(&key) {
            Some(i) => {
                proof {
                    use_type_invariant(&*self);
                    self.lemma_listed();
                }
                let before = self.replace_at(i, entity);
                Some(before)
            },
            None => {
                proof {
                    use_type_invariant(&*self);
                    self.lemma_listed();
                    assert forall|j: int| 0 <= j < self.entries.len() implies (
                    #[trigger] self.entries[j]).key@ != key@ by {
                        assert(self@.dom().contains(self.keys()[j]));
                    }
                }
                let mut entries: Vec<Entry> = Vec::new();
                core::mem::swap(&mut self.entries, &mut entries);
                entries.push(Entry { key, entity });
                core::mem::swap(&mut self.entries, &mut entries);
                proof {
                    assert(self.keys() =~= old(self).keys().push(key@));
                    assert(self.values() =~= old(self).values().push(entity@));
                    let m = old(self)@.insert(key@, entity@);
                    assert forall|k: Seq<char>| m.dom().contains(k) implies self.keys().contains(
                        k,
                    ) by {
                        if k == key@ {
                            assert(self.keys()[old(self).keys().len() as int] == k);
                        } else {
                            let i = choose|i: int|
                                0 <= i < old(self).keys().len() && old(self).keys()[i] == k;
                            assert(self.keys()[i] == k);
                        }
                    }
                    self.lemma_view_is(m);
                    self.lemma_listed();
                }
                None
            },
        }
    }

    /// Puts `entity` at place `i` of the listing, under the id that stands
    /// there. What stood there before comes back.
    pub fn replace_at(&mut self, i: usize, entity: Entity) -> (before: Entity)
        requires
            i < old(self).keys().len(),
        ensures
            before@ == old(self).values()[i as int],
            final(self).keys() == old(self).keys(),
            final(self).values() == old(self).values().update(i as int, entity@),
            final(self)@ == old(self)@.insert(old(self).keys()[i as int], entity@),
            final(self).is_listed(),
    {
        proof {
            use_type_invariant(&*self);
        }
        let mut entries: Vec<Entry> = Vec::new();
        core::mem::swap(&mut self.entries, &mut entries);
        let mut held = entity;
        core::mem::swap(&mut entries[i].entity, &mut held);
        core::mem::swap(&mut self.entries, &mut entries);
        proof {
            assert(self.keys() =~= old(self).keys());
            assert(self.values() =~= old(self).values().update(i as int, entity@));
            old(self).lemma_listed();
            let m = old(self)@.insert(old(self).keys()[i as int], entity@);
            assert forall|k: Seq<char>| m.dom().contains(k) implies self.keys().contains(k) by {
                if k == old(self).keys()[i as int] {
                    assert(self.keys()[i as int] == k);
                } else {
                    let j = choose|j: int|
                        0 <= j < old(self).keys().len() && old(self).keys()[j] == k;
                    assert(self.keys()[j] == k);
                }
            }
            self.lemma_view_is(m);
            self.lemma_listed();
        }
        held
    }
}

} // verus!
