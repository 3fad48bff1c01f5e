//! Queries over the entity-component store: which component kinds an entity
//! must (or may) carry, which entities match, and iteration over the matches.
use vstd::prelude::*;

use std::collections::HashSet;

use crate::ecs::Ecs;
use crate::EntityIndex;

verus! {

/// One element of a query: a component kind that a matching entity must
/// carry, or one whose component is fetched when present.
#[derive(Clone, Copy, Debug, PartialEq, Eq, Structural)]
pub enum ComponentTypeId {
    RequiredComponentTypeId(u64),
    OptionalComponentTypeId(u64),
}

impl ComponentTypeId {
    /// The component kind named.
    pub open spec fn key(self) -> u64 {
        match self {
            ComponentTypeId::RequiredComponentTypeId(k) => k,
            ComponentTypeId::OptionalComponentTypeId(k) => k,
        }
    }

    /// Whether a matching entity must carry the component.
    pub fn is_required(&self) -> (b: bool)
        ensures
            b == (*self is RequiredComponentTypeId),
    {
        match self {
            ComponentTypeId::RequiredComponentTypeId(_) => true,
            ComponentTypeId::OptionalComponentTypeId(_) => false,
        }
    }

    /// The component kind named.
    pub fn type_key(&self) -> (k: u64)
        ensures
            k == self.key(),
    {
        match self {
            ComponentTypeId::RequiredComponentTypeId(k) => *k,
            ComponentTypeId::OptionalComponentTypeId(k) => *k,
        }
    }
}

/// The slot of entity `e` for the kind named by `t`; empty when the kind was
/// never stored or `e` is past the stored slots.
pub open spec fn slot<V>(comps: Map<u64, Seq<Option<V>>>, t: ComponentTypeId, e: int) -> Option<V> {
    if comps.contains_key(t.key()) && 0 <= e < comps[t.key()].len() {
        comps[t.key()][e]
    } else {
        None
    }
}

/// Entity `e` carries every required component of query `q`.
pub open spec fn entity_matches<V>(
    comps: Map<u64, Seq<Option<V>>>,
    q: Seq<ComponentTypeId>,
    e: int,
) -> bool {
    forall|j: int|
        0 <= j < q.len() && q[j] is RequiredComponentTypeId ==> (#[trigger] slot(comps, q[j], e)) is Some
}

/// The slots fetched for entity `e`, one per query element.
pub open spec fn fetched<V>(comps: Map<u64, Seq<Option<V>>>, q: Seq<ComponentTypeId>, e: int) -> Seq<
    Option<V>,
> {
    Seq::new(q.len(), |j: int| slot(comps, q[j], e))
}

/// The entities below `n` that match query `q`, in increasing order.
pub open spec fn matching_list<V>(comps: Map<u64, Seq<Option<V>>>, q: Seq<ComponentTypeId>, n: nat) -> Seq<
    usize,
>
    decreases n,
{
    if n == 0 {
        Seq::empty()
    } else {
        let rest = matching_list(comps, q, (n - 1) as nat);
        if entity_matches(comps, q, n - 1) {
            rest.push((n - 1) as usize)
        } else {
            rest
        }
    }
}

/// Fetching the slots of entity `e` for query `q` reads no slot past the
/// stored ones: either `e` is a stored entity, or the query stops (at a
/// required kind never stored) before it reaches a kind that is stored.
pub open spec fn fetch_safe<V>(comps: Map<u64, Seq<Option<V>>>, count: nat, q: Seq<ComponentTypeId>, e: int) -> bool {
    e < count || stops_before_stored(comps, q)
}

/// The first query element whose kind is stored comes after a required
/// element whose kind is not stored, or no element's kind is stored.
pub open spec fn stops_before_stored<V>(comps: Map<u64, Seq<Option<V>>>, q: Seq<ComponentTypeId>) -> bool
    decreases q.len(),
{
    if q.len() == 0 {
        true
    } else {
        !comps.contains_key(q[0].key()) && (q[0] is RequiredComponentTypeId || stops_before_stored(
            comps,
            q.drop_first(),
        ))
    }
}

/// The value behind an optional reference.
pub open spec fn opt_deref<V>(o: Option<&V>) -> Option<V> {
    match o {
        Some(v) => Some(*v),
        None => None,
    }
}

/// The result of fetching: the entity and, per query element, its component.
pub open spec fn fetch_result<V>(
    comps: Map<u64, Seq<Option<V>>>,
    q: Seq<ComponentTypeId>,
    e: int,
    r: Option<(EntityIndex, Vec<Option<&V>>)>,
) -> bool {
    match r {
        Some(t) => {
            &&& entity_matches(comps, q, e)
            &&& t.0 == e
            &&& t.1@.len() == q.len()
            &&& forall|j: int| 0 <= j < q.len() ==> opt_deref(#[trigger] t.1@[j]) == slot(comps, q[j], e)
        },
        None => !entity_matches(comps, q, e),
    }
}


/// Every element of `matching_list(comps, q, n)` is an entity below `n`
/// that matches, every such entity is listed, and the list increases.
pub proof fn lemma_matching_list<V>(comps: Map<u64, Seq<Option<V>>>, q: Seq<ComponentTypeId>, n: nat)
    requires
        n <= usize::MAX,
    ensures
        forall|j: int|
            0 <= j < matching_list(comps, q, n).len() ==> {
                &&& #[trigger] matching_list(comps, q, n)[j] < n
                &&& entity_matches(comps, q, matching_list(comps, q, n)[j] as int)
            },
        forall|e: int|
            0 <= e < n && entity_matches(comps, q, e) ==> #[trigger] matching_list(comps, q, n).contains(
                e as usize,
            ),
        forall|a: int, b: int|
            0 <= a < b < matching_list(comps, q, n).len() ==> matching_list(comps, q, n)[a]
                < matching_list(comps, q, n)[b],
    decreases n,
{
    if n > 0 {
        lemma_matching_list(comps, q, (n - 1) as nat);
        let rest = matching_list(comps, q, (n - 1) as nat);
        let m = matching_list(comps, q, n);
        if entity_matches(comps, q, n - 1) {
            assert(m == rest.push((n - 1) as usize));
            assert forall|j: int| 0 <= j < m.len() implies {
                &&& #[trigger] m[j] < n
                &&& entity_matches(comps, q, m[j] as int)
            } by {
                if j < rest.len() {
                    assert(m[j] == rest[j]);
                }
            }
            assert forall|a: int, b: int| 0 <= a < b < m.len() implies m[a] < m[b] by {
                assert(m[a] == rest[a]);
                if b < rest.len() {
                    assert(m[b] == rest[b]);
                }
            }
        } else {
            assert(m == rest);
        }
        assert forall|e: int| 0 <= e < n && entity_matches(comps, q, e) implies #[trigger] m.contains(
            e as usize,
        ) by {
            if e < n - 1 {
                assert(rest.contains(e as usize));
                let w = choose|w: int| 0 <= w < rest.len() && rest[w] == e as usize;
                assert(m[w] == e as usize);
            } else {
                assert(m[rest.len() as int] == e as usize);
            }
        }
    }
}

/// Position of the last entity of `r` listed in `ids`, or -1.
pub open spec fn last_listed(r: Seq<EntityIndex>, ids: Set<usize>) -> int
    decreases r.len(),
{
    if r.len() == 0 {
        -1
    } else if ids.contains(r.last()) {
        r.len() - 1
    } else {
        last_listed(r.drop_last(), ids)
    }
}

proof fn lemma_last_listed(r: Seq<EntityIndex>, ids: Set<usize>)
    ensures
        -1 <= last_listed(r, ids) < r.len(),
        last_listed(r, ids) >= 0 ==> ids.contains(r[last_listed(r, ids)]),
        forall|j: int| last_listed(r, ids) < j < r.len() ==> !ids.contains(#[trigger] r[j]),
    decreases r.len(),
{
    if r.len() > 0 && !ids.contains(r.last()) {
        lemma_last_listed(r.drop_last(), ids);
        assert forall|j: int| last_listed(r, ids) < j < r.len() implies !ids.contains(#[trigger] r[j]) by {
            if j < r.len() - 1 {
                assert(r[j] == r.drop_last()[j]);
            }
        }
    }
}

/// Iterates over the entities that match a query, from the highest index
/// down, yielding each with its components.
pub struct QueryIterator<'a, V> {
    index: EntityIndex,
    ecs: &'a Ecs<V>,
    matching_entities: Vec<EntityIndex>,
    query: Vec<ComponentTypeId>,
}

impl<'a, V> QueryIterator<'a, V> {
    /// The entities not yet yielded, in increasing order; the last comes next.
    pub closed spec fn remaining(&self) -> Seq<EntityIndex> {
        self.matching_entities@
    }

    /// The store iterated over.
    pub closed spec fn source(&self) -> Ecs<V> {
        *self.ecs
    }

    /// The entity yielded last (0 before the first).
    pub closed spec fn current(&self) -> EntityIndex {
        self.index
    }

    /// The query.
    pub closed spec fn query_spec(&self) -> Seq<ComponentTypeId> {
        self.query@
    }

    /// The remaining entities are stored entities that match, in increasing order.
    pub closed spec fn wf(&self) -> bool {
        &&& self.ecs.wf()
        &&& forall|j: int|
            0 <= j < self.matching_entities@.len() ==> {
                &&& #[trigger] self.matching_entities@[j] < self.ecs.count()
                &&& entity_matches(self.ecs.components(), self.query@, self.matching_entities@[j] as int)
            }
        &&& forall|a: int, b: int|
            0 <= a < b < self.matching_entities@.len() ==> self.matching_entities@[a]
                < self.matching_entities@[b]
    }

    /// An iterator over the entities of `ecs` that match `query`.
    pub fn new(ecs: &'a Ecs<V>, query: Vec<ComponentTypeId>) -> (it: Self)
        requires
            ecs.wf(),
        ensures
            it.wf(),
            it.source() == *ecs,
            it.query_spec() == query@,
            it.remaining() == matching_list(ecs.components(), query@, ecs.count()),
    {
        let matching_entities = ecs.matching_entities(query.as_slice());
        proof {
            ecs.lemma_count_bound();
            lemma_matching_list(ecs.components(), query@, ecs.count());
        }
        QueryIterator { index: 0, ecs, matching_entities, query }
    }

    /// The next matching entity (the highest not yet yielded) with its
    /// components, or `None` when all were yielded.
    pub fn next(&mut self) -> (r: Option<(EntityIndex, Vec<Option<&'a V>>)>)
        requires
            old(self).wf(),
        ensures
            final(self).wf(),
            final(self).source() == old(self).source(),
            final(self).query_spec() == old(self).query_spec(),
            old(self).remaining().len() == 0 ==> r is None && final(self).remaining() == old(self).remaining()
                && final(self).current() == old(self).current(),
            old(self).remaining().len() > 0 ==> {
                &&& r is Some
                &&& final(self).current() == old(self).remaining().last()
                &&& final(self).remaining() == old(self).remaining().drop_last()
                &&& fetch_result(
                    old(self).source().components(),
                    old(self).query_spec(),
                    old(self).remaining().last() as int,
                    r,
                )
            },
    {
        match self.matching_entities.pop() {
            None => None,
            Some(e) => {
                self.index = e;
                assert(self.matching_entities@ =~= old(self).matching_entities@.drop_last());
                assert(old(self).matching_entities@[old(self).matching_entities@.len() - 1] == e);
                self.ecs.query_one_by_id(self.query.as_slice(), e)
            },
        }
    }
}

/// Iterates over the entities that match a query and are listed in a set of
/// entity indices, from the highest index down.
pub struct QueryIteratorByIds<'a, V> {
    inner_iterator: QueryIterator<'a, V>,
    ids: &'a HashSet<usize>,
}

impl<'a, V> QueryIteratorByIds<'a, V> {
    /// The matching entities not yet looked at, in increasing order.
    pub closed spec fn remaining(&self) -> Seq<EntityIndex> {
        self.inner_iterator.remaining()
    }

    /// The entities let through.
    pub closed spec fn ids_spec(&self) -> Set<usize> {
        self.ids@
    }

    /// The store iterated over.
    pub closed spec fn source(&self) -> Ecs<V> {
        self.inner_iterator.source()
    }

    /// The query.
    pub closed spec fn query_spec(&self) -> Seq<ComponentTypeId> {
        self.inner_iterator.query_spec()
    }

    /// The inner iterator is well formed.
    pub closed spec fn wf(&self) -> bool {
        self.inner_iterator.wf()
    }

    /// An iterator over the entities of `ecs` in `ids` that match `query`.
    pub fn new(ecs: &'a Ecs<V>, query: Vec<ComponentTypeId>, ids: &'a HashSet<usize>) -> (it: Self)
        requires
            ecs.wf(),
        ensures
            it.wf(),
            it.source() == *ecs,
            it.query_spec() == query@,
            it.ids_spec() == ids@,
            it.remaining() == matching_list(ecs.components(), query@, ecs.count()),
    {
        QueryIteratorByIds { inner_iterator: QueryIterator::new(ecs, query), ids }
    }

    /// The next matching entity listed in the id set (the highest not yet
    /// looked at) with its components, or `None` when there is none left.
    pub fn next(&mut self) -> (r: Option<(EntityIndex, Vec<Option<&'a V>>)>)
        requires
            old(self).wf(),
        ensures
            final(self).wf(),
            final(self).source() == old(self).source(),
            final(self).query_spec() == old(self).query_spec(),
            final(self).ids_spec() == old(self).ids_spec(),
            ({
                let rem = old(self).remaining();
                let j = last_listed(rem, old(self).ids_spec());
                if j < 0 {
                    r is None && final(self).remaining() == Seq::<EntityIndex>::empty()
                } else {
                    &&& r is Some
                    &&& final(self).remaining() == rem.take(j)
                    &&& fetch_result(old(self).source().components(), old(self).query_spec(), rem[j] as int, r)
                }
            }),
    {
        broadcast use vstd::std_specs::hash::group_hash_axioms;
        let ghost rem = old(self).remaining();
        let ghost ids = self.ids@;
        proof { lemma_last_listed(rem, ids); }
        let mut next = self.inner_iterator.next();
        while !self.ids.contains(&self.inner_iterator.index) && next.is_some()
            invariant
                self.inner_iterator.wf(),
                self.ids@ == ids,
                self.inner_iterator.source() == old(self).inner_iterator.source(),
                self.inner_iterator.query_spec() == old(self).inner_iterator.query_spec(),
                rem.len() == 0 ==> next is None && self.inner_iterator.remaining() == rem,
                rem.len() > 0 ==> {
                    let n = self.inner_iterator.remaining().len();
                    &&& n < rem.len()
                    &&& self.inner_iterator.remaining() == rem.take(n as int)
                    &&& (next is Some ==> self.inner_iterator.current() == rem[n as int]
                        && fetch_result(self.inner_iterator.source().components(),
                            self.inner_iterator.query_spec(), rem[n as int] as int, next))
                    &&& (next is None ==> n == 0 && forall|j: int| 0 <= j < rem.len() ==> !ids.contains(#[trigger] rem[j]))
                    &&& forall|j: int| n < j < rem.len() ==> !ids.contains(#[trigger] rem[j])
                },
            decreases self.inner_iterator.remaining().len() + (if next is Some { 1int } else { 0int }),
        {
            let ghost n0 = self.inner_iterator.remaining().len();
            proof {
                assert(!ids.contains(rem[n0 as int]));
            }
            next = self.inner_iterator.next();
            proof {
                if n0 > 0 {
                    assert(rem.take(n0 as int).drop_last() =~= rem.take(n0 - 1));
                    assert(rem.take(n0 as int).last() == rem[n0 - 1]);
                }
            }
        }
        proof {
            if rem.len() > 0 && next is Some {
                let n = self.inner_iterator.remaining().len();
                assert(ids.contains(rem[n as int]));
                if last_listed(rem, ids) < n {
                    assert(!ids.contains(rem[n as int]));
                }
                if last_listed(rem, ids) > n {
                    assert(ids.contains(rem[last_listed(rem, ids)]));
                }
            }
            if rem.len() > 0 && next is None {
                if last_listed(rem, ids) >= 0 {
                    assert(ids.contains(rem[last_listed(rem, ids)]));
                }
                assert(rem.take(0) =~= Seq::<EntityIndex>::empty());
            }
        }
        next
    }
}

} // verus!
