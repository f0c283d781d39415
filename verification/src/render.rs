//! What the two renderers share: how pieces of text are put together, how
//! the type of an attribute is written, in which order the entities of a
//! diagram are listed, and which relations are listed at all.
use vstd::prelude::*;
use vstd::string::*;
use crate::entity_map::EntityMap;
use crate::model::Attribute;
use crate::model::AttributeView;
use crate::model::Entity;
use crate::model::EntityView;
use crate::model::Relation;
use crate::model::RelationView;
use crate::model::relation_views;
use crate::model::resolves;
use crate::order::SortKey;
use crate::order::SortKeyView;
use crate::order::key_lt;
use crate::order::key_lt_asymmetric;
use crate::order::key_lt_total;
use crate::order::key_views;
use crate::order::places;
use crate::order::precedes;
use crate::order::sort_stably;
use crate::order::strictly_sorted_is_unique;
use crate::text::chars_of;
use crate::text::lowercase_chars;
use crate::text::lowercase_of;

verus! {

/// The pieces one after the other.
pub open spec fn concat(parts: Seq<Seq<char>>) -> Seq<char>
    decreases parts.len(),
{
    if parts.len() == 0 {
        Seq::empty()
    } else {
        concat(parts.drop_last()) + parts.last()
    }
}

/// The first `i + 1` pieces are the first `i` pieces and the next one.
pub proof fn concat_step(parts: Seq<Seq<char>>, i: int)
    requires
        0 <= i < parts.len(),
    ensures
        concat(parts.take(i + 1)) == concat(parts.take(i)) + parts[i],
        concat(parts.take(0)) == Seq::<char>::empty(),
        concat(parts.take(parts.len() as int)) == concat(parts),
{
    assert(parts.take(i + 1).drop_last() =~= parts.take(i));
    assert(parts.take(parts.len() as int) =~= parts);
}

/// The type of an attribute as it is written: the data type alone, or with
/// the length in brackets behind it.
pub open spec fn type_text(a: AttributeView) -> Seq<char> {
    match a.length {
        Some(length) => a.data_type + "("@ + length + ")"@,
        None => a.data_type,
    }
}

/// Writes the type of `a` at the end of `out`.
pub fn append_type(out: &mut String, a: &Attribute)
    ensures
        final(out)@ == old(out)@ + type_text(a@),
{
    out.append(a.data_type.as_str());
    match &a.length {
        Some(length) => {
            out.append("(");
            out.append(length.as_str());
            out.append(")");
            proof {
                assert(out@ =~= old(out)@ + (a.data_type@ + "("@ + length@ + ")"@));
            }
        },
        None => {},
    }
}

/// By what the entities of a diagram are listed.
#[derive(Clone, Copy, Debug, PartialEq, Eq)]
pub enum EntityOrder {
    /// By the id under which an entity stands.
    ById,
    /// By the logical name in lower case, and by the id among equal names.
    ByName,
}

/// The key of the entity `e` that stands under `id`.
pub open spec fn entity_sort_key(by: EntityOrder, id: Seq<char>, e: EntityView) -> SortKeyView {
    match by {
        EntityOrder::ById => SortKeyView {
            rank: 0,
            first: id,
            second: Seq::empty(),
            third: Seq::empty(),
        },
        EntityOrder::ByName => SortKeyView {
            rank: 0,
            first: lowercase_of(e.logical_name),
            second: id,
            third: Seq::empty(),
        },
    }
}

/// The entity under `a` is listed before the entity under `b`.
pub open spec fn entity_lt(
    entities: Map<Seq<char>, EntityView>,
    by: EntityOrder,
    a: Seq<char>,
    b: Seq<char>,
) -> bool {
    key_lt(entity_sort_key(by, a, entities[a]), entity_sort_key(by, b, entities[b]))
}

/// `ids` lists the ids of the map, each once, in rising order of the keys.
pub open spec fn is_entity_listing(
    entities: Map<Seq<char>, EntityView>,
    by: EntityOrder,
    ids: Seq<Seq<char>>,
) -> bool {
    &&& forall|k: Seq<char>| ids.contains(k) <==> entities.dom().contains(k)
    &&& forall|p: int, q: int|
        0 <= p < q < ids.len() ==> entity_lt(entities, by, #[trigger] ids[p], #[trigger] ids[q])
}

/// The map fixes the listing: in whatever order the entities were put in,
/// there is one listing and no other.
pub proof fn entity_listing_is_unique(
    entities: Map<Seq<char>, EntityView>,
    by: EntityOrder,
    a: Seq<Seq<char>>,
    b: Seq<Seq<char>>,
)
    requires
        is_entity_listing(entities, by, a),
        is_entity_listing(entities, by, b),
    ensures
        a == b,
{
    let lt = |x: Seq<char>, y: Seq<char>| entity_lt(entities, by, x, y);
    assert forall|x: Seq<char>, y: Seq<char>| !(#[trigger] lt(x, y) && lt(y, x)) by {
        key_lt_asymmetric(
            entity_sort_key(by, x, entities[x]),
            entity_sort_key(by, y, entities[y]),
        );
    }
    strictly_sorted_is_unique(a, b, lt);
}

/// The ids of the map in the order in which its entities are listed.
pub open spec fn entity_listing(entities: Map<Seq<char>, EntityView>, by: EntityOrder) -> Seq<
    Seq<char>,
> {
    choose|ids: Seq<Seq<char>>| is_entity_listing(entities, by, ids)
}

/// The items at the given places, in the order of the places.
pub open spec fn picked<T>(items: Seq<T>, order: Seq<usize>) -> Seq<T> {
    Seq::new(order.len(), |p: int| items[order[p] as int])
}

fn entity_key(by: EntityOrder, id: &String, e: &Entity) -> (key: SortKey)
    ensures
        key@ == entity_sort_key(by, id@, e@),
{
    match by {
        EntityOrder::ById => SortKey {
            rank: 0,
            first: chars_of(id.as_str()),
            second: Vec::new(),
            third: Vec::new(),
        },
        EntityOrder::ByName => SortKey {
            rank: 0,
            first: lowercase_chars(e.logical_name.as_str()),
            second: chars_of(id.as_str()),
            third: Vec::new(),
        },
    }
}

/// The places of the entities in `map`, in the order in which the entities
/// are listed.
pub fn list_entities(map: &EntityMap, by: EntityOrder) -> (order: Vec<usize>)
    ensures
        map.is_listed(),
        order@.len() == map.keys().len(),
        forall|p: int| 0 <= p < order@.len() ==> #[trigger] order@[p] < map.keys().len(),
        picked(map.keys(), order@) == entity_listing(map@, by),
        is_entity_listing(map@, by, entity_listing(map@, by)),
{
    let n: usize = map.len();
    let mut keys: Vec<SortKey> = Vec::new();
    let mut i: usize = 0;
    while i < n
        invariant
            i <= n,
            n == map.keys().len(),
            map.is_listed(),
            keys@.len() == i,
            forall|j: int|
                0 <= j < i ==> (#[trigger] keys@[j])@ == entity_sort_key(
                    by,
                    map.keys()[j],
                    map.values()[j],
                ),
        decreases n - i,
    {
        keys.push(entity_key(by, map.key_at(i), map.entity_at(i)));
        i = i + 1;
    }
    let order = sort_stably(&keys);
    proof {
        let kv = key_views(keys@);
        let o = places(order@);
        let ids = picked(map.keys(), order@);
        let m = map@;
        assert forall|p: int| 0 <= p < order@.len() implies #[trigger] order@[p]
            < map.keys().len() by {
            assert(0 <= o[p] < kv.len());
        }
        assert forall|j: int| 0 <= j < n implies #[trigger] kv[j] == entity_sort_key(
            by,
            map.keys()[j],
            m[map.keys()[j]],
        ) by {
            assert(keys@[j]@ == entity_sort_key(by, map.keys()[j], map.values()[j]));
            assert(m.dom().contains(map.keys()[j]));
        }
        assert forall|k: Seq<char>| ids.contains(k) <==> m.dom().contains(k) by {
            if ids.contains(k) {
                let p = choose|p: int| 0 <= p < ids.len() && ids[p] == k;
                assert(0 <= o[p] < kv.len());
                assert(m.dom().contains(map.keys()[o[p]]));
            }
            if m.dom().contains(k) {
                assert(map.keys().contains(k));
                let j = choose|j: int| 0 <= j < map.keys().len() && map.keys()[j] == k;
                assert(o.contains(j));
                let p = choose|p: int| 0 <= p < o.len() && o[p] == j;
                assert(ids[p] == k);
            }
        }
        assert forall|p: int, q: int| 0 <= p < q < ids.len() implies entity_lt(
            m,
            by,
            #[trigger] ids[p],
            #[trigger] ids[q],
        ) by {
            let a = o[p];
            let b = o[q];
            assert(0 <= a < kv.len());
            assert(0 <= b < kv.len());
            assert(precedes(kv, a, b));
            key_lt_total(kv[a], kv[b]);
            key_lt_asymmetric(kv[a], kv[a]);
            if kv[a] == kv[b] {
                assert(map.keys()[a] == map.keys()[b]);
            }
        }
        assert(is_entity_listing(m, by, ids));
        entity_listing_is_unique(m, by, ids, entity_listing(m, by));
    }
    order
}

/// The relations of which both ends are entities of the map, in the order
/// in which they stand.
pub open spec fn live_relations(
    entities: Map<Seq<char>, EntityView>,
    relations: Seq<RelationView>,
) -> Seq<RelationView>
    decreases relations.len(),
{
    if relations.len() == 0 {
        Seq::empty()
    } else {
        let head = live_relations(entities, relations.drop_last());
        if resolves(entities, relations.last()) {
            head.push(relations.last())
        } else {
            head
        }
    }
}

/// Every live relation has both its ends in the map.
pub proof fn live_relations_resolve(
    entities: Map<Seq<char>, EntityView>,
    relations: Seq<RelationView>,
)
    ensures
        forall|i: int|
            0 <= i < live_relations(entities, relations).len() ==> resolves(
                entities,
                #[trigger] live_relations(entities, relations)[i],
            ),
        (forall|i: int| 0 <= i < relations.len() ==> resolves(entities, #[trigger] relations[i]))
            ==> live_relations(entities, relations) == relations,
    decreases relations.len(),
{
    if relations.len() > 0 {
        let init = relations.drop_last();
        live_relations_resolve(entities, init);
        let head = live_relations(entities, init);
        let live = live_relations(entities, relations);
        assert forall|i: int| 0 <= i < live.len() implies resolves(entities, #[trigger] live[i]) by {
            if i < head.len() {
                assert(live[i] == head[i]);
            }
        }
        if forall|i: int| 0 <= i < relations.len() ==> resolves(entities, #[trigger] relations[i]) {
            assert forall|i: int| 0 <= i < init.len() implies resolves(
                entities,
                #[trigger] init[i],
            ) by {
                assert(init[i] == relations[i]);
            }
            assert(resolves(entities, relations[relations.len() - 1]));
            assert(init.push(relations.last()) =~= relations);
        }
    } else {
        assert(live_relations(entities, relations) =~= relations);
    }
}

/// The live relations of two lists, one behind the other, are the live
/// relations of the first and behind them those of the second.
pub proof fn live_relations_of_both(
    entities: Map<Seq<char>, EntityView>,
    front: Seq<RelationView>,
    back: Seq<RelationView>,
)
    ensures
        live_relations(entities, front + back) == live_relations(entities, front) + live_relations(
            entities,
            back,
        ),
    decreases back.len(),
{
    if back.len() == 0 {
        assert(front + back =~= front);
        assert(live_relations(entities, front) + live_relations(entities, back)
            =~= live_relations(entities, front));
    } else {
        let all = front + back;
        assert(all.drop_last() =~= front + back.drop_last());
        assert(all.last() == back.last());
        live_relations_of_both(entities, front, back.drop_last());
        assert(live_relations(entities, all) =~= live_relations(entities, front) + live_relations(
            entities,
            back,
        ));
    }
}

/// A relation with an end that is no entity of the map is not among the
/// live relations: with it or without it they are the same.
pub proof fn dangling_relation_is_not_live(
    entities: Map<Seq<char>, EntityView>,
    relations: Seq<RelationView>,
    i: int,
)
    requires
        0 <= i < relations.len(),
        !resolves(entities, relations[i]),
    ensures
        live_relations(entities, relations) == live_relations(entities, relations.remove(i)),
{
    let front = relations.take(i);
    let one = seq![relations[i]];
    let back = relations.skip(i + 1);
    assert(relations =~= front + one + back);
    assert(relations.remove(i) =~= front + back);
    live_relations_of_both(entities, front + one, back);
    live_relations_of_both(entities, front, one);
    live_relations_of_both(entities, front, back);
    assert(one.drop_last() =~= Seq::<RelationView>::empty());
    assert(live_relations(entities, Seq::<RelationView>::empty()).len() == 0);
    assert(one.last() == relations[i]);
    assert(live_relations(entities, one) =~= Seq::<RelationView>::empty());
    assert(live_relations(entities, front) + Seq::<RelationView>::empty() =~= live_relations(
        entities,
        front,
    ));
}

/// A live relation by its places: where it stands among the relations, and
/// where its two ends stand in the listing of the map.
#[derive(Clone, Copy, Debug, PartialEq, Eq)]
pub struct LivePlace {
    pub relation: usize,
    pub from: usize,
    pub to: usize,
}

/// Where the live relations stand among the relations.
pub open spec fn relation_places(live: Seq<LivePlace>) -> Seq<usize> {
    Seq::new(live.len(), |p: int| live[p].relation)
}

/// The place is one of a relation of the list, and of its two ends in the
/// listing of the map.
pub open spec fn is_live_place(
    entities: &EntityMap,
    relations: Seq<RelationView>,
    place: LivePlace,
) -> bool {
    &&& place.relation < relations.len()
    &&& place.from < entities.keys().len()
    &&& place.to < entities.keys().len()
    &&& entities.keys()[place.from as int] == relations[place.relation as int].from_entity_id
    &&& entities.keys()[place.to as int] == relations[place.relation as int].to_entity_id
}

/// The places of the live relations, in the order in which they stand.
pub fn live_relation_places(entities: &EntityMap, relations: &Vec<Relation>) -> (live: Vec<
    LivePlace,
>)
    ensures
        entities.is_listed(),
        forall|p: int|
            0 <= p < live@.len() ==> is_live_place(
                entities,
                relation_views(relations@),
                #[trigger] live@[p],
            ),
        picked(relation_views(relations@), relation_places(live@)) == live_relations(
            entities@,
            relation_views(relations@),
        ),
{
    let ghost all = relation_views(relations@);
    let n: usize = entities.len();
    let mut live: Vec<LivePlace> = Vec::new();
    let mut i: usize = 0;
    while i < relations.len()
        invariant
            i <= relations.len(),
            all == relation_views(relations@),
            entities.is_listed(),
            forall|p: int| 0 <= p < live@.len() ==> is_live_place(entities, all, #[trigger] live@[p]),
            picked(all, relation_places(live@)) == live_relations(entities@, all.take(i as int)),
        decreases relations.len() - i,
    {
        let r = &relations[i];
        let ghost before = live@;
        proof {
            assert(all.take(i + 1).drop_last() =~= all.take(i as int));
            assert(all.take(i + 1).last() == r@);
        }
        match (entities.index_of(&r.from_entity_id), entities.index_of(&r.to_entity_id)) {
            (Some(from), Some(to)) => {
                live.push(LivePlace { relation: i, from, to });
                proof {
                    assert(entities@.dom().contains(entities.keys()[from as int]));
                    assert(entities@.dom().contains(entities.keys()[to as int]));
                    assert(picked(all, relation_places(live@)) =~= picked(
                        all,
                        relation_places(before),
                    ).push(r@));
                }
            },
            _ => {},
        }
        i = i + 1;
    }
    proof {
        assert(all.take(relations@.len() as int) =~= all);
    }
    live
}

} // verus!
