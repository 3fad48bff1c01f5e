//! The entity-component store: components of each kind are kept in a
//! [`ComponentStore`], indexed by entity, with a bitset recording which
//! entities carry the component.
use vstd::prelude::*;

use crate::bitset::{EntitiesBitset, BIT_CAPACITY};
use crate::query::{
    lemma_matching_list, QueryIterator, QueryIteratorByIds,
    entity_matches, fetch_result, fetch_safe, fetched, matching_list, opt_deref, slot,
    stops_before_stored, ComponentTypeId,
};
use crate::EntityIndex;
use std::collections::HashSet;

verus! {

/// The components of one kind, one slot per entity.
pub struct ComponentStore<V> {
    component_data: Vec<Option<V>>,
    entities_bitset: EntitiesBitset,
}

impl<V> ComponentStore<V> {
    /// The slots, one per entity.
    pub closed spec fn data(&self) -> Seq<Option<V>> {
        self.component_data@
    }

    /// The bitset marks exactly the occupied slots.
    pub closed spec fn wf(&self) -> bool {
        &&& self.entities_bitset.wf()
        &&& forall|i: int|
            #![trigger self.entities_bitset.has(i)]
            self.entities_bitset.has(i) <==> (0 <= i < self.component_data@.len()
                && self.component_data@[i] is Some)
    }

    /// A store with `size + 1` empty slots.
    pub fn with_size(size: usize) -> (s: Self)
        requires
            size < usize::MAX,
        ensures
            s.wf(),
            s.data() == Seq::new((size + 1) as nat, |i: int| None::<V>),
    {
        let mut component_data: Vec<Option<V>> = Vec::new();
        component_data.push(None);
        let mut k: usize = 0;
        while k < size
            invariant
                k <= size,
                component_data@.len() == k + 1,
                forall|j: int| 0 <= j < component_data@.len() ==> component_data@[j] is None,
            decreases size - k,
        {
            component_data.push(None);
            k = k + 1;
        }
        let s = ComponentStore { component_data, entities_bitset: EntitiesBitset::new() };
        assert(s.data() =~= Seq::new((size + 1) as nat, |i: int| None::<V>));
        s
    }

    /// Clears the slot of `entity_index`.
    pub fn remove_from_entity(&mut self, entity_index: EntityIndex)
        requires
            old(self).wf(),
            entity_index < old(self).data().len(),
            entity_index < BIT_CAPACITY,
        ensures
            final(self).wf(),
            final(self).data() == old(self).data().update(entity_index as int, None),
    {
        self.entities_bitset.unset_bit(entity_index);
        self.component_data.set(entity_index, None);
        assert forall|i: int| #![trigger self.entities_bitset.has(i)]
            self.entities_bitset.has(i) <==> (0 <= i < self.component_data@.len()
                && self.component_data@[i] is Some) by {
            assert(old(self).entities_bitset.has(i) <==> (0 <= i < old(self).component_data@.len()
                && old(self).component_data@[i] is Some));
        }
    }

    /// Puts `component` in the slot of `entity_index`.
    pub fn add_to_entity(&mut self, component: V, entity_index: EntityIndex)
        requires
            old(self).wf(),
            entity_index < old(self).data().len(),
            entity_index < BIT_CAPACITY,
        ensures
            final(self).wf(),
            final(self).data() == old(self).data().update(entity_index as int, Some(component)),
    {
        self.entities_bitset.set_bit(entity_index);
        self.component_data.set(entity_index, Some(component));
        assert forall|i: int| #![trigger self.entities_bitset.has(i)]
            self.entities_bitset.has(i) <==> (0 <= i < self.component_data@.len()
                && self.component_data@[i] is Some) by {
            assert(old(self).entities_bitset.has(i) <==> (0 <= i < old(self).component_data@.len()
                && old(self).component_data@[i] is Some));
        }
    }

    /// Appends an empty slot.
    fn push_empty(&mut self)
        requires
            old(self).wf(),
        ensures
            final(self).wf(),
            final(self).data() == old(self).data().push(None),
    {
        self.component_data.push(None);
        assert forall|i: int| #![trigger self.entities_bitset.has(i)]
            self.entities_bitset.has(i) <==> (0 <= i < self.component_data@.len()
                && self.component_data@[i] is Some) by {
            assert(old(self).entities_bitset.has(i) <==> (0 <= i < old(self).component_data@.len()
                && old(self).component_data@[i] is Some));
        }
    }

    /// Whether entity `i` has the component, read from the bitset.
    pub fn has_entity(&self, i: EntityIndex) -> (b: bool)
        requires
            self.wf(),
            i < BIT_CAPACITY,
        ensures
            b == (i < self.data().len() && self.data()[i as int] is Some),
    {
        let b = self.entities_bitset.bit(i);
        assert(self.entities_bitset.has(i as int) <==> (0 <= i < self.component_data@.len()
            && self.component_data@[i as int] is Some));
        b
    }

    /// The component of entity `i`, if any.
    pub fn get(&self, i: EntityIndex) -> (r: Option<&V>)
        requires
            i < self.data().len(),
        ensures
            match r {
                Some(v) => self.data()[i as int] == Some(*v),
                None => self.data()[i as int] is None,
            },
    {
        match &self.component_data[i] {
            Some(v) => Some(v),
            None => None,
        }
    }
}

impl<V> Default for ComponentStore<V> {
    fn default() -> (s: Self)
        ensures
            s.wf(),
            s.data() == seq![None::<V>],
    {
        let mut component_data: Vec<Option<V>> = Vec::new();
        component_data.push(None);
        let s = ComponentStore { component_data, entities_bitset: EntitiesBitset::new() };
        assert(s.data() =~= seq![None::<V>]);
        s
    }
}


/// The value that an entity definition gives to component kind `k`:
/// the last pair with key `k`, if any.
pub open spec fn entity_value<V>(def: Seq<(u64, V)>, k: u64) -> Option<V>
    decreases def.len(),
{
    if def.len() == 0 {
        None
    } else if def.last().0 == k {
        Some(def.last().1)
    } else {
        entity_value(def.drop_last(), k)
    }
}

/// Whether an entity definition names component kind `k`.
pub open spec fn defines_key<V>(def: Seq<(u64, V)>, k: u64) -> bool {
    exists|j: int| 0 <= j < def.len() && #[trigger] def[j].0 == k
}

/// The component slots after appending an entity with definition `def`
/// to stores that hold `n` entities each.
pub open spec fn inserted_components<V>(
    old: Map<u64, Seq<Option<V>>>,
    n: nat,
    def: Seq<(u64, V)>,
) -> Map<u64, Seq<Option<V>>> {
    Map::new(
        |k: u64| old.contains_key(k) || defines_key(def, k),
        |k: u64|
            (if old.contains_key(k) {
                old[k]
            } else {
                Seq::new(n, |i: int| None::<V>)
            }).push(entity_value(def, k)),
    )
}

/// The slots of kind `k` before an entity is appended: the existing slots,
/// or `n` empty ones for a kind not stored yet.
pub open spec fn base_slots<V>(old: Map<u64, Seq<Option<V>>>, n: nat, k: u64) -> Seq<Option<V>> {
    if old.contains_key(k) {
        old[k]
    } else {
        Seq::new(n, |i: int| None::<V>)
    }
}

proof fn lemma_insert_step<V>(old: Map<u64, Seq<Option<V>>>, n: nat, d: Seq<(u64, V)>, k: u64, v: V)
    ensures
        inserted_components(old, n, d.push((k, v))) == inserted_components(old, n, d).insert(
            k,
            base_slots(old, n, k).push(Some(v)),
        ),
{
    let d2 = d.push((k, v));
    assert(d2.drop_last() =~= d);
    assert(d2[d.len() as int].0 == k);
    assert forall|q: u64| defines_key(d2, q) == (q == k || defines_key(d, q)) by {
        if defines_key(d, q) {
            let j = choose|j: int| 0 <= j < d.len() && #[trigger] d[j].0 == q;
            assert(d2[j].0 == q);
        }
        if defines_key(d2, q) && q != k {
            let j = choose|j: int| 0 <= j < d2.len() && #[trigger] d2[j].0 == q;
            assert(d[j].0 == q);
        }
    }
    assert(inserted_components(old, n, d2) =~= inserted_components(old, n, d).insert(
        k,
        base_slots(old, n, k).push(Some(v)),
    ));
}

/// The slots `s` with the slots of the entities in `ids` cleared.
pub open spec fn cleared<V>(s: Seq<Option<V>>, ids: Set<int>) -> Seq<Option<V>> {
    Seq::new(s.len(), |i: int| if ids.contains(i) { None } else { s[i] })
}

/// Component slots with the slots of the entities in `ids` cleared.
pub open spec fn deleted_components<V>(
    old: Map<u64, Seq<Option<V>>>,
    ids: Set<int>,
) -> Map<u64, Seq<Option<V>>> {
    Map::new(|k: u64| old.contains_key(k), |k: u64| cleared(old[k], ids))
}

/// The entity indices listed in `ids`.
pub open spec fn id_set(ids: Seq<usize>) -> Set<int> {
    Set::new(|i: int| exists|j: int| 0 <= j < ids.len() && #[trigger] ids[j] as int == i)
}

proof fn lemma_entity_value_some<V>(def: Seq<(u64, V)>, k: u64)
    ensures
        entity_value(def, k) is Some <==> defines_key(def, k),
    decreases def.len(),
{
    if def.len() > 0 {
        lemma_entity_value_some(def.drop_last(), k);
        if defines_key(def, k) && def.last().0 != k {
            let j = choose|j: int| 0 <= j < def.len() && #[trigger] def[j].0 == k;
            assert(def.drop_last()[j].0 == k);
        }
        if defines_key(def.drop_last(), k) {
            let j = choose|j: int| 0 <= j < def.drop_last().len() && #[trigger] def.drop_last()[j].0 == k;
            assert(def[j].0 == k);
        }
        if def.last().0 == k {
            assert(def[def.len() - 1].0 == k);
        }
    }
}

/// The map that parallel key and value sequences describe.
pub open spec fn resource_map<V>(keys: Seq<u64>, values: Seq<V>) -> Map<u64, V> {
    Map::new(|k: u64| keys.contains(k), |k: u64| values[keys.index_of(k)])
}

proof fn lemma_resource_map_update<V>(keys: Seq<u64>, values: Seq<V>, i: int)
    requires
        keys.len() == values.len(),
        keys.no_duplicates(),
        0 <= i < keys.len(),
    ensures
        forall|x: V| #[trigger] resource_map(keys, values.update(i, x))
            == resource_map(keys, values).insert(keys[i], x),
{
    assert forall|x: V| #[trigger] resource_map(keys, values.update(i, x))
        == resource_map(keys, values).insert(keys[i], x) by {
        assert(keys.contains(keys[i]));
        assert forall|k: u64| keys.contains(k) implies resource_map(keys, values.update(i, x))[k]
            == resource_map(keys, values).insert(keys[i], x)[k] by {
            let j = keys.index_of(k);
            assert(keys[j] == k);
        }
        assert(resource_map(keys, values.update(i, x)) =~= resource_map(keys, values).insert(keys[i], x));
    }
}

proof fn lemma_matching_list_empty<V>(comps: Map<u64, Seq<Option<V>>>, q: Seq<ComponentTypeId>, n: nat)
    requires
        forall|e: int| 0 <= e < n ==> !entity_matches(comps, q, e),
    ensures
        matching_list(comps, q, n) == Seq::<usize>::empty(),
    decreases n,
{
    if n > 0 {
        lemma_matching_list_empty(comps, q, (n - 1) as nat);
    }
}

/// The entity-component store.
pub struct Ecs<V> {
    component_keys: Vec<u64>,
    component_stores: Vec<ComponentStore<V>>,
    resource_keys: Vec<u64>,
    resource_values: Vec<V>,
    next_index: EntityIndex,
    model: Ghost<Map<u64, Seq<Option<V>>>>,
}

impl<V> Ecs<V> {
    /// Number of entities ever inserted.
    pub closed spec fn count(&self) -> nat {
        self.next_index as nat
    }

    /// The component slots of each component kind.
    pub closed spec fn components(&self) -> Map<u64, Seq<Option<V>>> {
        self.model@
    }

    /// The shared resources by key.
    pub closed spec fn resources(&self) -> Map<u64, V> {
        resource_map(self.resource_keys@, self.resource_values@)
    }

    /// The stores agree with the model and each holds `len` slots.
    closed spec fn stores_wf(&self, len: nat) -> bool {
        &&& self.component_keys@.len() == self.component_stores@.len()
        &&& self.component_keys@.no_duplicates()
        &&& self.model@.dom() =~= self.component_keys@.to_set()
        &&& forall|i: int|
            #![trigger self.component_stores@[i]]
            0 <= i < self.component_stores@.len() ==> {
                &&& self.component_stores@[i].wf()
                &&& self.component_stores@[i].data().len() == len
                &&& self.model@[self.component_keys@[i]] == self.component_stores@[i].data()
            }
    }

    /// Well-formedness of the whole store.
    pub closed spec fn wf(&self) -> bool {
        &&& self.stores_wf(self.next_index as nat)
        &&& self.next_index <= BIT_CAPACITY
        &&& self.resource_keys@.len() == self.resource_values@.len()
        &&& self.resource_keys@.no_duplicates()
    }

    proof fn lemma_resource_at(&self, i: int)
        requires
            self.wf(),
            0 <= i < self.resource_keys@.len(),
        ensures
            self.resources().contains_key(self.resource_keys@[i]),
            self.resources()[self.resource_keys@[i]] == self.resource_values@[i],
    {
        let k = self.resource_keys@[i];
        assert(self.resource_keys@.contains(k));
        let j = self.resource_keys@.index_of(k);
        assert(self.resource_keys@[j] == k);
    }

    /// An empty store.
    pub fn new() -> (ecs: Self)
        ensures
            ecs.wf(),
            ecs.count() == 0,
            ecs.components() == Map::<u64, Seq<Option<V>>>::empty(),
            ecs.resources() == Map::<u64, V>::empty(),
    {
        let ecs = Ecs {
            component_keys: Vec::new(),
            component_stores: Vec::new(),
            resource_keys: Vec::new(),
            resource_values: Vec::new(),
            next_index: 0,
            model: Ghost(Map::empty()),
        };
        assert(ecs.resources() =~= Map::<u64, V>::empty());
        assert(ecs.component_keys@.to_set() =~= Set::<u64>::empty());
        ecs
    }

    /// Every component kind has one slot per entity.
    pub proof fn lemma_slot_counts(&self)
        requires
            self.wf(),
        ensures
            forall|k: u64| #[trigger] self.components().contains_key(k) ==> self.components()[k].len() == self.count(),
    {
        assert forall|k: u64| #[trigger] self.components().contains_key(k) implies self.components()[k].len() == self.count() by {
            assert(self.component_keys@.to_set().contains(k));
            let t = choose|t: int| 0 <= t < self.component_keys@.len() && self.component_keys@[t] == k;
            self.lemma_component_at(self.next_index as nat, t);
        }
    }

    /// A well-formed store holds at most [`BIT_CAPACITY`] entities.
    pub proof fn lemma_count_bound(&self)
        requires
            self.wf(),
        ensures
            self.count() <= BIT_CAPACITY,
    {
    }

    /// Returns the entity count of the store.
    pub fn entity_count(&self) -> (n: usize)
        ensures
            n == self.count(),
    {
        self.next_index
    }

    fn find_resource(&self, key: u64) -> (r: Option<usize>)
        requires
            self.wf(),
        ensures
            match r {
                Some(i) => i < self.resource_keys@.len() && self.resource_keys@[i as int] == key,
                None => !self.resource_keys@.contains(key),
            },
    {
        let mut i: usize = 0;
        while i < self.resource_keys.len()
            invariant
                i <= self.resource_keys@.len(),
                forall|j: int| 0 <= j < i ==> self.resource_keys@[j] != key,
            decreases self.resource_keys@.len() - i,
        {
            if self.resource_keys[i] == key {
                return Some(i);
            }
            i = i + 1;
        }
        None
    }

    /// Stores `resource` under `key`, replacing any resource stored there.
    pub fn insert_shared_resource(&mut self, key: u64, resource: V)
        requires
            old(self).wf(),
        ensures
            final(self).wf(),
            final(self).count() == old(self).count(),
            final(self).components() == old(self).components(),
            final(self).resources() == old(self).resources().insert(key, resource),
    {
        let found = self.find_resource(key);
        match found {
            Some(i) => {
                self.resource_values.set(i, resource);
            },
            None => {
                self.resource_keys.push(key);
                self.resource_values.push(resource);
                proof {
                    assert forall|a: int, b: int|
                        0 <= a < b < self.resource_keys@.len() implies self.resource_keys@[a]
                        != self.resource_keys@[b] by {
                        if b == self.resource_keys@.len() - 1 {
                            assert(old(self).resource_keys@.contains(self.resource_keys@[a]));
                        }
                    }
                }
            },
        }
        proof {
            assert forall|k: u64| #[trigger] self.resources().contains_key(k)
                == old(self).resources().insert(key, resource).contains_key(k) by {
                if self.resource_keys@.contains(k) && k != key {
                    let j = self.resource_keys@.index_of(k);
                    assert(old(self).resource_keys@.contains(k)) by {
                        assert(old(self).resource_keys@[j] == k);
                    }
                }
                if old(self).resource_keys@.contains(k) {
                    let j = old(self).resource_keys@.index_of(k);
                    assert(self.resource_keys@[j] == k);
                }
                if k == key {
                    match found {
                        Some(i) => { assert(self.resource_keys@[i as int] == key); },
                        None => { assert(self.resource_keys@[self.resource_keys@.len() - 1] == key); },
                    }
                }
            }
            assert forall|k: u64| #[trigger] self.resources().contains_key(k) implies
                self.resources()[k] == old(self).resources().insert(key, resource)[k] by {
                let j = self.resource_keys@.index_of(k);
                self.lemma_resource_at(j);
                if k != key {
                    old(self).lemma_resource_at(j);
                }
            }
            assert(self.resources() =~= old(self).resources().insert(key, resource));
        }
    }

    /// The resource stored under `key`, if any.
    pub fn shared_resource(&self, key: u64) -> (r: Option<&V>)
        requires
            self.wf(),
        ensures
            match r {
                Some(v) => self.resources().contains_key(key) && self.resources()[key] == *v,
                None => !self.resources().contains_key(key),
            },
    {
        match self.find_resource(key) {
            Some(i) => {
                proof { self.lemma_resource_at(i as int); }
                Some(&self.resource_values[i])
            },
            None => None,
        }
    }

    /// Mutable access to the resource stored under `key`, if any.
    pub fn shared_resource_mut(&mut self, key: u64) -> (r: Option<&mut V>)
        requires
            old(self).wf(),
        ensures
            old(self).resources().contains_key(key) == r is Some,
            match r {
                Some(v) => {
                    &&& *v == old(self).resources()[key]
                    &&& final(self).wf()
                    &&& final(self).count() == old(self).count()
                    &&& final(self).components() == old(self).components()
                    &&& final(self).resources() == old(self).resources().insert(key, *final(v))
                },
                None => *final(self) == *old(self),
            },
    {
        match self.find_resource(key) {
            Some(i) => {
                proof {
                    self.lemma_resource_at(i as int);
                    assert(self.resources().contains_key(key));
                }
                proof { lemma_resource_map_update(self.resource_keys@, self.resource_values@, i as int); }
                let r = &mut self.resource_values[i];
                Some(r)
            },
            None => None,
        }
    }

    fn find_component(&self, key: u64) -> (r: Option<usize>)
        requires
            self.component_keys@.len() == self.component_stores@.len(),
        ensures
            match r {
                Some(i) => i < self.component_keys@.len() && self.component_keys@[i as int] == key,
                None => !self.component_keys@.contains(key),
            },
    {
        let mut i: usize = 0;
        while i < self.component_keys.len()
            invariant
                i <= self.component_keys@.len(),
                forall|j: int| 0 <= j < i ==> self.component_keys@[j] != key,
            decreases self.component_keys@.len() - i,
        {
            if self.component_keys[i] == key {
                return Some(i);
            }
            i = i + 1;
        }
        None
    }

    proof fn lemma_component_at(&self, len: nat, i: int)
        requires
            self.stores_wf(len),
            0 <= i < self.component_keys@.len(),
        ensures
            self.model@.contains_key(self.component_keys@[i]),
            self.model@[self.component_keys@[i]] == self.component_stores@[i].data(),
            self.component_stores@[i].wf(),
            self.component_stores@[i].data().len() == len,
    {
        assert(self.component_keys@.to_set().contains(self.component_keys@[i]));
        assert(self.component_stores@[i].wf());
    }

    /// Inserts an entity whose components are the pairs of `entity_definition`,
    /// each a component kind and a value; where a kind occurs twice the later
    /// value is kept. Returns the index of the new entity.
    pub fn insert(&mut self, entity_definition: Vec<(u64, V)>) -> (index: EntityIndex)
        requires
            old(self).wf(),
            old(self).count() < BIT_CAPACITY,
        ensures
            final(self).wf(),
            index == old(self).count(),
            final(self).count() == old(self).count() + 1,
            final(self).components() == inserted_components(
                old(self).components(),
                old(self).count(),
                entity_definition@,
            ),
            final(self).resources() == old(self).resources(),
    {
        let index = self.next_index;
        let ghost old_model = self.model@;
        let ghost old_stores = self.component_stores@;
        let mut j: usize = 0;
        while j < self.component_stores.len()
            invariant
                self.component_keys@ == old(self).component_keys@,
                self.resource_keys@ == old(self).resource_keys@,
                self.resource_values@ == old(self).resource_values@,
                self.next_index == index,
                self.model@ == old_model,
                old(self).stores_wf(index as nat),
                old_stores == old(self).component_stores@,
                self.component_stores@.len() == old_stores.len(),
                j <= old_stores.len(),
                forall|t: int|
                    #![trigger self.component_stores@[t]]
                    0 <= t < j ==> self.component_stores@[t].wf()
                        && self.component_stores@[t].data() == old_stores[t].data().push(None),
                forall|t: int|
                    #![trigger self.component_stores@[t]]
                    j <= t < old_stores.len() ==> self.component_stores@[t] == old_stores[t],
            decreases old_stores.len() - j,
        {
            assert(old_stores[j as int].wf());
            self.component_stores[j].push_empty();
            j = j + 1;
        }
        self.model = Ghost(inserted_components(old_model, index as nat, Seq::empty()));
        proof {
            assert forall|t: int|
                #![trigger self.component_stores@[t]]
                0 <= t < self.component_stores@.len() implies {
                    &&& self.component_stores@[t].wf()
                    &&& self.component_stores@[t].data().len() == index + 1
                    &&& self.model@[self.component_keys@[t]] == self.component_stores@[t].data()
                } by {
                old(self).lemma_component_at(index as nat, t);
            }
            assert forall|q: u64| !defines_key(Seq::<(u64, V)>::empty(), q) by {}
            assert(self.model@.dom() =~= self.component_keys@.to_set());
            assert(self.stores_wf((index + 1) as nat));
        }
        proof {
            assert forall|q: u64| old_model.contains_key(q) implies old_model[q].len() == index by {
                assert(old(self).component_keys@.to_set().contains(q));
                let t = choose|t: int| 0 <= t < old(self).component_keys@.len()
                    && old(self).component_keys@[t] == q;
                old(self).lemma_component_at(index as nat, t);
            }
        }
        let ghost full = entity_definition@;
        let mut def = entity_definition;
        let n = def.len();
        let mut i: usize = 0;
        assert(full.take(0) =~= Seq::<(u64, V)>::empty());
        assert(full.skip(0) =~= full);
        while i < n
            invariant
                n == full.len(),
                i <= n,
                def@ == full.skip(i as int),
                index == old(self).next_index,
                self.next_index == index,
                index < BIT_CAPACITY,
                self.stores_wf((index + 1) as nat),
                self.model@ == inserted_components(old_model, index as nat, full.take(i as int)),
                old_model == old(self).components(),
                forall|q: u64| old_model.contains_key(q) ==> old_model[q].len() == index,
                self.resource_keys@ == old(self).resource_keys@,
                self.resource_values@ == old(self).resource_values@,
            decreases n - i,
        {
            let (k, v) = def.remove(0);
            let ghost gv = v;
            assert(full[i as int] == (k, v)) by {
                assert(full.skip(i as int)[0] == full[i as int]);
            }
            let ghost m0 = self.model@;
            let pos = match self.find_component(k) {
                Some(p) => p,
                None => {
                    let store = ComponentStore::<V>::with_size(index);
                    let ghost sd = store.data();
                    let ghost prev_keys = self.component_keys@;
                    self.component_keys.push(k);
                    self.component_stores.push(store);
                    self.model = Ghost(self.model@.insert(k, sd));
                    proof {
                        let last = self.component_keys@.len() - 1;
                        assert forall|a: int, b: int|
                            0 <= a < b < self.component_keys@.len() implies self.component_keys@[a]
                            != self.component_keys@[b] by {
                            if b == last {
                                assert(self.component_keys@[a] == prev_keys[a]);
                                assert(prev_keys.contains(prev_keys[a]));
                            }
                        }
                        assert forall|x: u64| self.component_keys@.contains(x) <==> (prev_keys.contains(x) || x == k) by {
                            if prev_keys.contains(x) {
                                let t = choose|t: int| 0 <= t < prev_keys.len() && prev_keys[t] == x;
                                assert(self.component_keys@[t] == x);
                            }
                            if x == k {
                                assert(self.component_keys@[last] == k);
                            }
                            if self.component_keys@.contains(x) {
                                let t = choose|t: int| 0 <= t < self.component_keys@.len() && self.component_keys@[t] == x;
                                if t < last {
                                    assert(prev_keys[t] == x);
                                }
                            }
                        }
                        assert(self.model@.dom() =~= self.component_keys@.to_set());
                        assert forall|t: int|
                            #![trigger self.component_stores@[t]]
                            0 <= t < self.component_stores@.len() implies {
                                &&& self.component_stores@[t].wf()
                                &&& self.component_stores@[t].data().len() == index + 1
                                &&& self.model@[self.component_keys@[t]] == self.component_stores@[t].data()
                            } by {
                            if t < last {
                                assert(self.component_keys@[t] != k);
                            }
                        }
                    }
                    self.component_keys.len() - 1
                },
            };
            let ghost before = self.model@[k];
            proof {
                self.lemma_component_at((index + 1) as nat, pos as int);
                lemma_insert_step(old_model, index as nat, full.take(i as int), k, gv);
                lemma_entity_value_some(full.take(i as int), k);
                if m0.contains_key(k) {
                    assert(before == m0[k]);
                } else {
                    assert(!old_model.contains_key(k));
                    assert(!defines_key(full.take(i as int), k));
                }
                assert(before =~= base_slots(old_model, index as nat, k).push(
                    entity_value(full.take(i as int), k)));
            }
            self.component_stores[pos].add_to_entity(v, index);
            self.model = Ghost(self.model@.insert(k, before.update(index as int, Some(gv))));
            proof {
                assert(before.update(index as int, Some(gv)) =~= base_slots(old_model, index as nat, k).push(Some(gv)));
                assert(full.take(i + 1) =~= full.take(i as int).push((k, gv)));
                assert(self.model@ =~= inserted_components(old_model, index as nat, full.take(i as int)).insert(
                    k, base_slots(old_model, index as nat, k).push(Some(gv))));
                assert(def@ =~= full.skip(i + 1));
                assert forall|t: int|
                    #![trigger self.component_stores@[t]]
                    0 <= t < self.component_stores@.len() implies {
                        &&& self.component_stores@[t].wf()
                        &&& self.component_stores@[t].data().len() == index + 1
                        &&& self.model@[self.component_keys@[t]] == self.component_stores@[t].data()
                    } by {
                    if t != pos {
                        assert(self.component_keys@[t] != k);
                    }
                }
                assert(self.model@.dom() =~= self.component_keys@.to_set());
            }
            i = i + 1;
        }
        assert(full.take(n as int) =~= full);
        self.next_index = index + 1;
        index
    }

    /// Removes the component of kind `key` from entity `entity_index`; does
    /// nothing when no component of that kind was ever stored.
    pub fn remove_component(&mut self, key: u64, entity_index: EntityIndex)
        requires
            old(self).wf(),
            old(self).components().contains_key(key) ==> entity_index < old(self).count(),
        ensures
            final(self).wf(),
            final(self).count() == old(self).count(),
            final(self).resources() == old(self).resources(),
            final(self).components() == (if old(self).components().contains_key(key) {
                old(self).components().insert(
                    key,
                    old(self).components()[key].update(entity_index as int, None),
                )
            } else {
                old(self).components()
            }),
    {
        match self.find_component(key) {
            Some(p) => {
                proof {
                    self.lemma_component_at(self.next_index as nat, p as int);
                }
                let ghost before = self.model@[key];
                self.component_stores[p].remove_from_entity(entity_index);
                self.model = Ghost(self.model@.insert(key, before.update(entity_index as int, None)));
                proof { self.lemma_update_store_keeps_wf(old(self), p as int); }
            },
            None => {
                proof {
                    if self.model@.contains_key(key) {
                        assert(self.component_keys@.to_set().contains(key));
                    }
                }
            },
        }
    }

    /// Puts `component` as the component of kind `key` of entity
    /// `entity_index`; does nothing when no component of that kind was ever
    /// stored.
    pub fn add_component(&mut self, key: u64, component: V, entity_index: EntityIndex)
        requires
            old(self).wf(),
            old(self).components().contains_key(key) ==> entity_index < old(self).count(),
        ensures
            final(self).wf(),
            final(self).count() == old(self).count(),
            final(self).resources() == old(self).resources(),
            final(self).components() == (if old(self).components().contains_key(key) {
                old(self).components().insert(
                    key,
                    old(self).components()[key].update(entity_index as int, Some(component)),
                )
            } else {
                old(self).components()
            }),
    {
        match self.find_component(key) {
            Some(p) => {
                proof {
                    self.lemma_component_at(self.next_index as nat, p as int);
                }
                let ghost before = self.model@[key];
                self.component_stores[p].add_to_entity(component, entity_index);
                self.model = Ghost(self.model@.insert(key, before.update(entity_index as int, Some(component))));
                proof { self.lemma_update_store_keeps_wf(old(self), p as int); }
            },
            None => {
                proof {
                    if self.model@.contains_key(key) {
                        assert(self.component_keys@.to_set().contains(key));
                    }
                }
            },
        }
    }

    proof fn lemma_update_store_keeps_wf(&self, prev: &Self, p: int)
        requires
            prev.wf(),
            0 <= p < prev.component_stores@.len(),
            self.component_keys@ == prev.component_keys@,
            self.component_stores@.len() == prev.component_stores@.len(),
            self.resource_keys@ == prev.resource_keys@,
            self.resource_values@ == prev.resource_values@,
            self.next_index == prev.next_index,
            forall|t: int| 0 <= t < self.component_stores@.len() && t != p
                ==> #[trigger] self.component_stores@[t] == prev.component_stores@[t],
            self.component_stores@[p].wf(),
            self.component_stores@[p].data().len() == prev.next_index,
            self.model@ == prev.model@.insert(prev.component_keys@[p], self.component_stores@[p].data()),
        ensures
            self.wf(),
    {
        prev.lemma_component_at(prev.next_index as nat, p);
        assert(self.model@.dom() =~= self.component_keys@.to_set());
        assert forall|t: int|
            #![trigger self.component_stores@[t]]
            0 <= t < self.component_stores@.len() implies {
                &&& self.component_stores@[t].wf()
                &&& self.component_stores@[t].data().len() == self.next_index
                &&& self.model@[self.component_keys@[t]] == self.component_stores@[t].data()
            } by {
            if t != p {
                prev.lemma_component_at(prev.next_index as nat, t);
                assert(self.component_keys@[t] != self.component_keys@[p]);
            }
        }
    }

    /// Clears every component of the entities listed in `to_delete`.
    pub fn delete_by_ids(&mut self, to_delete: &[usize])
        requires
            old(self).wf(),
            old(self).components().dom().len() > 0 ==> forall|j: int|
                0 <= j < to_delete@.len() ==> #[trigger] to_delete@[j] < old(self).count(),
        ensures
            final(self).wf(),
            final(self).count() == old(self).count(),
            final(self).resources() == old(self).resources(),
            final(self).components() == deleted_components(old(self).components(), id_set(to_delete@)),
    {
        let ghost old_stores = self.component_stores@;
        let ghost old_model = self.model@;
        let ghost count = self.next_index;
        let ghost ids = to_delete@;
        proof {
            if self.component_keys@.len() > 0 {
                assert(self.component_keys@.to_set().contains(self.component_keys@[0]));
                assert(self.model@.dom().len() > 0);
            }
            assert forall|t: int| 0 <= t < old_stores.len() implies
                cleared(old_stores[t].data(), id_set(ids.take(0))) == old_stores[t].data() by {
                assert(cleared(old_stores[t].data(), id_set(ids.take(0))) =~= old_stores[t].data());
            }
        }
        let mut a: usize = 0;
        while a < to_delete.len()
            invariant
                a <= to_delete@.len(),
                ids == to_delete@,
                old(self).wf(),
                old_stores == old(self).component_stores@,
                old_model == old(self).model@,
                count == old(self).next_index,
                self.component_keys@ == old(self).component_keys@,
                self.resource_keys@ == old(self).resource_keys@,
                self.resource_values@ == old(self).resource_values@,
                self.next_index == count,
                self.model@ == old_model,
                self.component_stores@.len() == old_stores.len(),
                old_stores.len() > 0 ==> forall|j: int| 0 <= j < ids.len() ==> #[trigger] ids[j] < count,
                forall|t: int|
                    #![trigger self.component_stores@[t]]
                    0 <= t < old_stores.len() ==> self.component_stores@[t].wf()
                        && self.component_stores@[t].data() == cleared(old_stores[t].data(), id_set(ids.take(a as int))),
            decreases to_delete@.len() - a,
        {
            let entity_index = to_delete[a];
            let mut j: usize = 0;
            while j < self.component_stores.len()
                invariant
                    a < ids.len(),
                    ids == to_delete@,
                    entity_index == ids[a as int],
                    old(self).wf(),
                    old_stores == old(self).component_stores@,
                    count == old(self).next_index,
                    self.component_keys@ == old(self).component_keys@,
                    self.resource_keys@ == old(self).resource_keys@,
                    self.resource_values@ == old(self).resource_values@,
                    self.next_index == count,
                    self.model@ == old_model,
                    self.component_stores@.len() == old_stores.len(),
                    j <= old_stores.len(),
                    old_stores.len() > 0 ==> entity_index < count,
                    forall|t: int|
                        #![trigger self.component_stores@[t]]
                        0 <= t < j ==> self.component_stores@[t].wf()
                            && self.component_stores@[t].data() == cleared(old_stores[t].data(), id_set(ids.take(a + 1))),
                    forall|t: int|
                        #![trigger self.component_stores@[t]]
                        j <= t < old_stores.len() ==> self.component_stores@[t].wf()
                            && self.component_stores@[t].data() == cleared(old_stores[t].data(), id_set(ids.take(a as int))),
                decreases old_stores.len() - j,
            {
                proof {
                    old(self).lemma_component_at(count as nat, j as int);
                }
                let ghost before = self.component_stores@[j as int].data();
                self.component_stores[j].remove_from_entity(entity_index);
                proof {
                    let t = j as int;
                    assert forall|x: int| #[trigger] id_set(ids.take(a + 1)).contains(x) <==> (id_set(ids.take(a as int)).contains(x) || x == entity_index) by {
                        if x == entity_index {
                            assert(ids.take(a + 1)[a as int] as int == x);
                        }
                        if id_set(ids.take(a as int)).contains(x) {
                            let w = choose|w: int| 0 <= w < ids.take(a as int).len() && #[trigger] ids.take(a as int)[w] as int == x;
                            assert(ids.take(a + 1)[w] as int == x);
                        }
                        if id_set(ids.take(a + 1)).contains(x) {
                            let w = choose|w: int| 0 <= w < ids.take(a + 1).len() && #[trigger] ids.take(a + 1)[w] as int == x;
                            if w < a {
                                assert(ids.take(a as int)[w] as int == x);
                            }
                        }
                    }
                    assert(self.component_stores@[t].data() =~= cleared(old_stores[t].data(), id_set(ids.take(a + 1))));
                }
                j = j + 1;
            }
            a = a + 1;
        }
        self.model = Ghost(deleted_components(old_model, id_set(ids)));
        proof {
            assert(ids.take(ids.len() as int) =~= ids);
            assert(self.model@.dom() =~= self.component_keys@.to_set());
            assert forall|t: int|
                #![trigger self.component_stores@[t]]
                0 <= t < self.component_stores@.len() implies {
                    &&& self.component_stores@[t].wf()
                    &&& self.component_stores@[t].data().len() == self.next_index
                    &&& self.model@[self.component_keys@[t]] == self.component_stores@[t].data()
                } by {
                old(self).lemma_component_at(count as nat, t);
            }
        }
    }

    /// For each required query element, the position of its store.
    closed spec fn positions_ok(&self, q: Seq<ComponentTypeId>, pos: Seq<Option<usize>>) -> bool {
        &&& pos.len() == q.len()
        &&& forall|j: int|
            #![trigger pos[j]]
            0 <= j < q.len() && q[j] is RequiredComponentTypeId ==> {
                &&& pos[j] is Some
                &&& pos[j]->0 < self.component_keys@.len()
                &&& self.component_keys@[pos[j]->0 as int] == q[j].key()
            }
    }

    fn required_positions(&self, query: &[ComponentTypeId]) -> (r: Option<Vec<Option<usize>>>)
        requires
            self.wf(),
        ensures
            match r {
                Some(pos) => self.positions_ok(query@, pos@),
                None => forall|e: int| !entity_matches(self.components(), query@, e),
            },
    {
        let mut pos: Vec<Option<usize>> = Vec::new();
        let mut j: usize = 0;
        while j < query.len()
            invariant
                self.wf(),
                j <= query@.len(),
                pos@.len() == j,
                forall|t: int|
                    #![trigger pos@[t]]
                    0 <= t < j && query@[t] is RequiredComponentTypeId ==> {
                        &&& pos@[t] is Some
                        &&& pos@[t]->0 < self.component_keys@.len()
                        &&& self.component_keys@[pos@[t]->0 as int] == query@[t].key()
                    },
            decreases query@.len() - j,
        {
            let t = query[j];
            if t.is_required() {
                match self.find_component(t.type_key()) {
                    Some(p) => {
                        pos.push(Some(p));
                    },
                    None => {
                        proof {
                            assert forall|e: int| !entity_matches(self.components(), query@, e) by {
                                assert(!self.model@.contains_key(t.key())) by {
                                    if self.model@.contains_key(t.key()) {
                                        assert(self.component_keys@.to_set().contains(t.key()));
                                    }
                                }
                                assert(slot(self.components(), query@[j as int], e) is None);
                            }
                        }
                        return None;
                    },
                }
            } else {
                pos.push(None);
            }
            j = j + 1;
        }
        Some(pos)
    }

    fn matches_at(&self, query: &[ComponentTypeId], pos: &Vec<Option<usize>>, i: EntityIndex) -> (b: bool)
        requires
            self.wf(),
            self.positions_ok(query@, pos@),
            i < self.count(),
        ensures
            b == entity_matches(self.components(), query@, i as int),
    {
        let mut j: usize = 0;
        while j < query.len()
            invariant
                self.wf(),
                self.positions_ok(query@, pos@),
                i < self.count(),
                j <= query@.len(),
                forall|t: int|
                    0 <= t < j && query@[t] is RequiredComponentTypeId ==> (#[trigger] slot(
                        self.components(),
                        query@[t],
                        i as int,
                    )) is Some,
            decreases query@.len() - j,
        {
            if query[j].is_required() {
                let p = pos[j].unwrap();
                proof {
                    assert(pos@[j as int] is Some);
                    self.lemma_component_at(self.next_index as nat, p as int);
                }
                if !self.component_stores[p].has_entity(i) {
                    assert(slot(self.components(), query@[j as int], i as int) is None);
                    return false;
                }
            }
            j = j + 1;
        }
        true
    }

    /// The entities that match `query`, in increasing order.
    pub fn matching_entities(&self, query: &[ComponentTypeId]) -> (r: Vec<EntityIndex>)
        requires
            self.wf(),
        ensures
            r@ == matching_list(self.components(), query@, self.count()),
    {
        let mut result: Vec<EntityIndex> = Vec::new();
        match self.required_positions(query) {
            None => {
                proof { lemma_matching_list_empty(self.components(), query@, self.count()); }
                result
            },
            Some(pos) => {
                let mut i: usize = 0;
                while i < self.next_index
                    invariant
                        self.wf(),
                        self.positions_ok(query@, pos@),
                        i <= self.next_index,
                        result@ == matching_list(self.components(), query@, i as nat),
                    decreases self.next_index - i,
                {
                    if self.matches_at(query, &pos, i) {
                        result.push(i);
                    }
                    i = i + 1;
                }
                result
            },
        }
    }

    fn has_component_kind(&self, key: u64) -> (b: bool)
        requires
            self.wf(),
        ensures
            b == self.components().contains_key(key),
    {
        match self.find_component(key) {
            Some(p) => {
                proof {
                    self.lemma_component_at(self.next_index as nat, p as int);
                }
                true
            },
            None => {
                proof {
                    if self.model@.contains_key(key) {
                        assert(self.component_keys@.to_set().contains(key));
                    }
                }
                false
            },
        }
    }

    fn component_at(&self, key: u64, e: EntityIndex) -> (r: Option<&V>)
        requires
            self.wf(),
            self.components().contains_key(key),
            e < self.count(),
        ensures
            match r {
                Some(v) => self.components()[key][e as int] == Some(*v),
                None => self.components()[key][e as int] is None,
            },
    {
        match self.find_component(key) {
            Some(p) => {
                proof {
                    self.lemma_component_at(self.next_index as nat, p as int);
                }
                self.component_stores[p].get(e)
            },
            None => {
                proof {
                    assert(self.component_keys@.to_set().contains(key));
                }
                None
            },
        }
    }

    /// Changes, through the query `query`, the components of kind `key`:
    /// each entity that matches the query and carries a component of that
    /// kind gets in its place what `update` makes of it; every other slot,
    /// kind and resource stays as it was.
    pub fn update_components<F: Fn(&V) -> V>(&mut self, query: &[ComponentTypeId], key: u64, update: F)
        requires
            old(self).wf(),
            forall|v: &V| #[trigger] call_requires(update, (v,)),
        ensures
            final(self).wf(),
            final(self).count() == old(self).count(),
            final(self).resources() == old(self).resources(),
            final(self).components().dom() == old(self).components().dom(),
            forall|k: u64| #[trigger] old(self).components().contains_key(k) && k != key
                ==> final(self).components()[k] == old(self).components()[k],
            old(self).components().contains_key(key) ==> {
                &&& final(self).components()[key].len() == old(self).components()[key].len()
                &&& forall|e: int|
                    0 <= e < old(self).components()[key].len() ==> #[trigger] updated_slot(
                        update,
                        old(self).components()[key][e],
                        final(self).components()[key][e],
                        entity_matches(old(self).components(), query@, e),
                    )
            },
    {
        let ids = self.matching_entities(query);
        let ghost comps0 = self.components();
        let ghost n = self.count();
        proof {
            lemma_matching_list(comps0, query@, n);
            self.lemma_slot_counts();
        }
        if !self.has_component_kind(key) {
            return;
        }
        let mut j: usize = 0;
        while j < ids.len()
            invariant
                self.wf(),
                self.count() == n,
                self.resources() == old(self).resources(),
                comps0 == old(self).components(),
                ids@ == matching_list(comps0, query@, n),
                j <= ids@.len(),
                n <= usize::MAX,
                comps0.contains_key(key),
                comps0[key].len() == n,
                self.components().dom() == comps0.dom(),
                forall|k: u64| #[trigger] comps0.contains_key(k) && k != key ==> self.components()[k] == comps0[k],
                self.components()[key].len() == n,
                forall|i: int| 0 <= i < ids@.len() ==> #[trigger] ids@[i] < n && entity_matches(comps0, query@, ids@[i] as int),
                forall|a: int, b: int| 0 <= a < b < ids@.len() ==> ids@[a] < ids@[b],
                forall|e: int|
                    0 <= e < n ==> #[trigger] updated_slot(
                        update,
                        comps0[key][e],
                        self.components()[key][e],
                        ids@.take(j as int).contains(e as usize),
                    ),
                forall|v: &V| #[trigger] call_requires(update, (v,)),
            decreases ids@.len() - j,
        {
            let e = ids[j];
            let ghost before_all = self.components();
            proof {
                assert(!ids@.take(j as int).contains(e)) by {
                    if ids@.take(j as int).contains(e) {
                        let a = choose|a: int| 0 <= a < j && ids@.take(j as int)[a] == e;
                        assert(ids@[a] < ids@[j as int]);
                    }
                }
                assert(updated_slot(
                    update,
                    comps0[key][e as int],
                    self.components()[key][e as int],
                    ids@.take(j as int).contains(e as usize),
                ));
                assert(self.components()[key][e as int] == comps0[key][e as int]);
            }
            let current = self.component_at(key, e);
            match current {
                Some(v) => {
                    let w = update(v);
                    let ghost before = self.components();
                    self.add_component(key, w, e);
                    proof {
                        assert(self.components() == before.insert(key, before[key].update(e as int, Some(w))));
                    }
                },
                None => {},
            }
            proof {
                assert(ids@.take(j + 1) =~= ids@.take(j as int).push(e));
                assert forall|e2: int|
                    0 <= e2 < n implies #[trigger] updated_slot(
                        update,
                        comps0[key][e2],
                        self.components()[key][e2],
                        ids@.take(j + 1).contains(e2 as usize),
                    ) by {
                    assert(updated_slot(
                        update,
                        comps0[key][e2],
                        before_all[key][e2],
                        ids@.take(j as int).contains(e2 as usize),
                    ));
                    if e2 != e as int {
                        assert(ids@.take(j + 1).contains(e2 as usize) == ids@.take(j as int).contains(e2 as usize));
                        assert(self.components()[key][e2] == before_all[key][e2]);
                    } else {
                        assert(ids@.take(j + 1)[j as int] == e);
                        assert(ids@.take(j + 1).contains(e2 as usize));
                    }
                }
            }
            j = j + 1;
        }
        proof {
            assert(ids@.take(ids@.len() as int) =~= ids@);
            lemma_matching_list(comps0, query@, n);
            assert forall|e: int|
                0 <= e < n implies #[trigger] updated_slot(
                    update,
                    comps0[key][e],
                    self.components()[key][e],
                    entity_matches(comps0, query@, e),
                ) by {
                assert(updated_slot(
                    update,
                    comps0[key][e],
                    self.components()[key][e],
                    ids@.take(j as int).contains(e as usize),
                ));
                assert(ids@.take(ids@.len() as int).contains(e as usize) == entity_matches(comps0, query@, e)) by {
                    if entity_matches(comps0, query@, e) {
                        assert(matching_list(comps0, query@, n).contains(e as usize));
                    }
                    if ids@.contains(e as usize) {
                        let a = choose|a: int| 0 <= a < ids@.len() && ids@[a] == e as usize;
                        assert(entity_matches(comps0, query@, ids@[a] as int));
                    }
                }
            }
        }
    }

    /// The components of entity `index` named by `query`, or `None` when the
    /// entity lacks a required one.
    pub fn query_one_by_id(&self, query: &[ComponentTypeId], index: EntityIndex) -> (r: Option<(EntityIndex, Vec<Option<&V>>)>)
        requires
            self.wf(),
            fetch_safe(self.components(), self.count(), query@, index as int),
        ensures
            fetch_result(self.components(), query@, index as int, r),
    {
        let mut out: Vec<Option<&V>> = Vec::new();
        let mut j: usize = 0;
        assert(query@.skip(0) =~= query@);
        while j < query.len()
            invariant
                self.wf(),
                j <= query@.len(),
                out@.len() == j,
                index < self.count() || stops_before_stored(self.components(), query@.skip(j as int)),
                forall|t: int| 0 <= t < j ==> opt_deref(#[trigger] out@[t]) == slot(self.components(), query@[t], index as int),
                forall|t: int|
                    0 <= t < j && query@[t] is RequiredComponentTypeId ==> (#[trigger] slot(
                        self.components(),
                        query@[t],
                        index as int,
                    )) is Some,
            decreases query@.len() - j,
        {
            let t = query[j];
            let k = t.type_key();
            proof {
                if !(index < self.count()) {
                    assert(query@.skip(j as int)[0] == t);
                    assert(query@.skip(j as int).drop_first() =~= query@.skip(j + 1));
                }
            }
            match self.find_component(k) {
                None => {
                    proof {
                        if self.model@.contains_key(k) {
                            assert(self.component_keys@.to_set().contains(k));
                        }
                        assert(slot(self.components(), query@[j as int], index as int) is None);
                    }
                    if t.is_required() {
                        return None;
                    }
                    out.push(None);
                },
                Some(p) => {
                    proof {
                        self.lemma_component_at(self.next_index as nat, p as int);
                        assert(self.model@.contains_key(k));
                        assert(index < self.count());
                    }
                    match self.component_stores[p].get(index) {
                        None => {
                            if t.is_required() {
                                return None;
                            }
                            out.push(None);
                        },
                        Some(v) => {
                            out.push(Some(v));
                        },
                    }
                },
            }
            j = j + 1;
        }
        Some((index, out))
    }

    /// The first entity that matches `query`, with its components.
    pub fn query_one(&self, query: &[ComponentTypeId]) -> (r: Option<(EntityIndex, Vec<Option<&V>>)>)
        requires
            self.wf(),
        ensures
            match r {
                Some(t) => {
                    &&& t.0 < self.count()
                    &&& fetch_result(self.components(), query@, t.0 as int, r)
                    &&& forall|e: int| 0 <= e < t.0 ==> !entity_matches(self.components(), query@, e)
                },
                None => forall|e: int| 0 <= e < self.count() ==> !entity_matches(self.components(), query@, e),
            },
    {
        match self.required_positions(query) {
            None => None,
            Some(pos) => {
                let mut i: usize = 0;
                while i < self.next_index
                    invariant
                        self.wf(),
                        self.positions_ok(query@, pos@),
                        i <= self.next_index,
                        forall|e: int| 0 <= e < i ==> !entity_matches(self.components(), query@, e),
                    decreases self.next_index - i,
                {
                    if self.matches_at(query, &pos, i) {
                        return self.query_one_by_id(query, i);
                    }
                    i = i + 1;
                }
                None
            },
        }
    }

    /// The entities that match `query`, as a set.
    pub fn matching_ids(&self, query: &[ComponentTypeId]) -> (r: HashSet<EntityIndex>)
        requires
            self.wf(),
        ensures
            r@ == Set::new(|e: usize| e < self.count() && entity_matches(self.components(), query@, e as int)),
    {
        broadcast use vstd::std_specs::hash::group_hash_axioms;
        let list = self.matching_entities(query);
        proof { lemma_matching_list(self.components(), query@, self.count()); }
        let mut result: HashSet<EntityIndex> = HashSet::new();
        let mut i: usize = 0;
        while i < list.len()
            invariant
                i <= list@.len(),
                result@ == Set::new(|e: usize| exists|j: int| 0 <= j < i && list@[j] == e),
            decreases list@.len() - i,
        {
            result.insert(list[i]);
            proof {
                assert(result@ =~= Set::new(|e: usize| exists|j: int| 0 <= j < i + 1 && list@[j] == e));
            }
            i = i + 1;
        }
        proof {
            assert forall|e: usize| #[trigger] result@.contains(e) == (e < self.count()
                && entity_matches(self.components(), query@, e as int)) by {
                if e < self.count() && entity_matches(self.components(), query@, e as int) {
                    assert(list@.contains(e as int as usize));
                }
            }
            assert(result@ =~= Set::new(|e: usize| e < self.count() && entity_matches(self.components(), query@, e as int)));
        }
        result
    }

    /// Clears every component of the entities that match `query`.
    pub fn delete_by_query(&mut self, query: &[ComponentTypeId])
        requires
            old(self).wf(),
        ensures
            final(self).wf(),
            final(self).count() == old(self).count(),
            final(self).resources() == old(self).resources(),
            final(self).components() == deleted_components(
                old(self).components(),
                Set::new(|e: int| 0 <= e < old(self).count() && entity_matches(old(self).components(), query@, e)),
            ),
    {
        let to_delete = self.matching_entities(query);
        proof {
            self.lemma_count_bound();
            lemma_matching_list(self.components(), query@, self.count());
            let target = Set::new(|e: int| 0 <= e < self.count() && entity_matches(self.components(), query@, e));
            assert forall|e: int| #[trigger] id_set(to_delete@).contains(e) == target.contains(e) by {
                if target.contains(e) {
                    assert(to_delete@.contains(e as usize));
                    let w = choose|w: int| 0 <= w < to_delete@.len() && to_delete@[w] == e as usize;
                    assert(to_delete@[w] as int == e);
                }
            }
            assert(id_set(to_delete@) =~= target);
        }
        self.delete_by_ids(to_delete.as_slice());
    }

    /// Iterates over the entities that match `query`.
    pub fn query(&self, query: Vec<ComponentTypeId>) -> (it: QueryIterator<'_, V>)
        requires
            self.wf(),
        ensures
            it.wf(),
            it.source() == *self,
            it.query_spec() == query@,
            it.remaining() == matching_list(self.components(), query@, self.count()),
    {
        QueryIterator::new(self, query)
    }

    /// Iterates over the entities listed in `ids` that match `query`.
    pub fn query_by_ids<'a>(&'a self, query: Vec<ComponentTypeId>, ids: &'a HashSet<usize>) -> (it: QueryIteratorByIds<'a, V>)
        requires
            self.wf(),
        ensures
            it.wf(),
            it.source() == *self,
            it.query_spec() == query@,
            it.ids_spec() == ids@,
            it.remaining() == matching_list(self.components(), query@, self.count()),
    {
        QueryIteratorByIds::new(self, query, ids)
    }
}

impl<V> Default for Ecs<V> {
    fn default() -> (ecs: Self)
        ensures
            ecs.wf(),
            ecs.count() == 0,
            ecs.components() == Map::<u64, Seq<Option<V>>>::empty(),
            ecs.resources() == Map::<u64, V>::empty(),
    {
        Ecs::new()
    }
}

/// An inserted entity carries exactly the components of its definition (the
/// last value given for each kind), it matches every query whose required
/// kinds its definition names, and the entities inserted before keep their
/// components.
pub proof fn law_insert_then_read<V>(before: Ecs<V>, after: Ecs<V>, def: Seq<(u64, V)>, index: EntityIndex)
    requires
        before.wf(),
        index == before.count(),
        after.components() == inserted_components(before.components(), before.count(), def),
    ensures
        forall|k: u64| #[trigger] defines_key(def, k) ==> after.components().contains_key(k)
            && after.components()[k][index as int] == entity_value(def, k) && entity_value(def, k) is Some,
        forall|k: u64| #[trigger] after.components().contains_key(k) && !defines_key(def, k)
            ==> after.components()[k][index as int] is None,
        forall|k: u64, e: int| #[trigger] before.components().contains_key(k) && 0 <= e < index
            ==> after.components()[k][e] == #[trigger] before.components()[k][e],
        forall|q: Seq<ComponentTypeId>|
            (forall|j: int| 0 <= j < q.len() && q[j] is RequiredComponentTypeId ==> defines_key(def, #[trigger] q[j].key()))
            ==> #[trigger] entity_matches(after.components(), q, index as int),
{
    before.lemma_slot_counts();
    assert forall|k: u64| #[trigger] defines_key(def, k) implies after.components().contains_key(k)
        && after.components()[k][index as int] == entity_value(def, k) && entity_value(def, k) is Some by {
        lemma_entity_value_some(def, k);
    }
    assert forall|k: u64| #[trigger] after.components().contains_key(k) && !defines_key(def, k)
        implies after.components()[k][index as int] is None by {
        lemma_entity_value_some(def, k);
    }
    assert forall|q: Seq<ComponentTypeId>|
        (forall|j: int| 0 <= j < q.len() && q[j] is RequiredComponentTypeId ==> defines_key(def, #[trigger] q[j].key()))
        implies #[trigger] entity_matches(after.components(), q, index as int) by {
        assert forall|j: int| 0 <= j < q.len() && q[j] is RequiredComponentTypeId implies
            (#[trigger] slot(after.components(), q[j], index as int)) is Some by {
            assert(defines_key(def, q[j].key()));
            lemma_entity_value_some(def, q[j].key());
        }
    }
}

/// After deleting entities, none of them carries a component or matches a
/// query with a required kind, and every other entity keeps its components.
pub proof fn law_delete_clears<V>(before: Ecs<V>, after: Ecs<V>, ids: Set<int>)
    requires
        before.wf(),
        after.components() == deleted_components(before.components(), ids),
    ensures
        after.components().dom() == before.components().dom(),
        forall|k: u64, e: int| #[trigger] after.components().contains_key(k) && ids.contains(e) && 0 <= e < before.count()
            ==> (#[trigger] after.components()[k][e]) is None,
        forall|k: u64, e: int| #[trigger] after.components().contains_key(k) && !ids.contains(e) && 0 <= e < before.count()
            ==> #[trigger] after.components()[k][e] == before.components()[k][e],
        forall|q: Seq<ComponentTypeId>, e: int|
            ids.contains(e) && (exists|j: int| 0 <= j < q.len() && #[trigger] q[j] is RequiredComponentTypeId)
            ==> !#[trigger] entity_matches(after.components(), q, e),
{
    before.lemma_slot_counts();
    assert(after.components().dom() =~= before.components().dom());
    assert forall|q: Seq<ComponentTypeId>, e: int|
        ids.contains(e) && (exists|j: int| 0 <= j < q.len() && #[trigger] q[j] is RequiredComponentTypeId)
        implies !#[trigger] entity_matches(after.components(), q, e) by {
        let j = choose|j: int| 0 <= j < q.len() && #[trigger] q[j] is RequiredComponentTypeId;
        assert(slot(after.components(), q[j], e) is None);
    }
}

/// After the entities that match a query with a required kind are deleted
/// (what `delete_by_query` leaves), that query matches no entity at all.
pub proof fn law_deleted_query_matches_nothing<V>(before: Ecs<V>, after: Ecs<V>, q: Seq<ComponentTypeId>)
    requires
        before.wf(),
        exists|j: int| 0 <= j < q.len() && #[trigger] q[j] is RequiredComponentTypeId,
        after.count() == before.count(),
        after.components() == deleted_components(
            before.components(),
            Set::new(|e: int| 0 <= e < before.count() && entity_matches(before.components(), q, e)),
        ),
    ensures
        matching_list(after.components(), q, after.count()) == Seq::<usize>::empty(),
{
    let ids = Set::new(|e: int| 0 <= e < before.count() && entity_matches(before.components(), q, e));
    before.lemma_slot_counts();
    law_delete_clears(before, after, ids);
    assert forall|e: int| 0 <= e < after.count() implies !entity_matches(after.components(), q, e) by {
        if !ids.contains(e) {
            assert(!entity_matches(before.components(), q, e));
            let j = choose|j: int| 0 <= j < q.len() && q[j] is RequiredComponentTypeId && !(#[trigger] slot(
                before.components(),
                q[j],
                e,
            ) is Some);
            assert(slot(after.components(), q[j], e) == slot(before.components(), q[j], e));
        }
    }
    lemma_matching_list_empty(after.components(), q, after.count());
}

/// A component written to an entity is what a query of that kind reads back
/// for it; a removed one reads back as absent.
pub proof fn law_component_write_then_read<V>(before: Ecs<V>, k: u64, e: EntityIndex, c: Option<V>)
    requires
        before.wf(),
        before.components().contains_key(k),
        e < before.count(),
    ensures
        slot(before.components().insert(k, before.components()[k].update(e as int, c)),
            ComponentTypeId::RequiredComponentTypeId(k), e as int) == c,
        slot(before.components().insert(k, before.components()[k].update(e as int, c)),
            ComponentTypeId::OptionalComponentTypeId(k), e as int) == c,
{
    before.lemma_slot_counts();
}

/// A shared resource reads back as the last value written under its key,
/// and writing it leaves the other resources alone.
pub proof fn law_resource_read_after_write<V>(before: Ecs<V>, after: Ecs<V>, k: u64, v: V)
    requires
        after.resources() == before.resources().insert(k, v),
    ensures
        after.resources().contains_key(k),
        after.resources()[k] == v,
        forall|o: u64| o != k ==> (#[trigger] after.resources().contains_key(o) == before.resources().contains_key(o)
            && (before.resources().contains_key(o) ==> after.resources()[o] == before.resources()[o])),
{
}

/// Whether slot `after` is what an update through a query makes of slot
/// `before`: where the update applies to a component, something `update`
/// returns for it; elsewhere the slot as it was.
pub open spec fn updated_slot<V, F: Fn(&V) -> V>(update: F, before: Option<V>, after: Option<V>, applies: bool) -> bool {
    if applies && before is Some {
        after is Some && call_ensures(update, (&before->0,), after->0)
    } else {
        after == before
    }
}

} // verus!
