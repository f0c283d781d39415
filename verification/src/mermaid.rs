//! The Mermaid renderer: an ER diagram in a fenced block, the same text
//! for the same diagram whatever the order in which its parts were put in.
//! Entities come in the order of their logical names, letter case set
//! aside; within an entity the primary keys come first, then the foreign
//! keys, then the rest, each group in the order of the logical names; the
//! relations come in the order of the names of their two ends and then of
//! their own.
use vstd::prelude::*;
use vstd::string::*;
use crate::model::Attribute;
use crate::model::AttributeView;
use crate::model::Cardinality;
use crate::model::DiagramView;
use crate::model::Entity;
use crate::model::EntityView;
use crate::model::ErdDiagram;
use crate::model::Relation;
use crate::model::RelationView;
use crate::model::resolves;
use crate::order::SortKey;
use crate::order::SortKeyView;
use crate::order::key_views;
use crate::order::places;
use crate::order::sort_stably;
use crate::order::stable_order;
use crate::order::is_stable_order;
use crate::render::EntityOrder;
use crate::render::append_type;
use crate::render::concat;
use crate::render::concat_step;
use crate::render::entity_listing;
use crate::render::list_entities;
use crate::render::live_relation_places;
use crate::render::live_relations;
use crate::render::dangling_relation_is_not_live;
use crate::render::is_live_place;
use crate::render::relation_places;
use crate::render::picked;
use crate::render::type_text;
use crate::sanitize::export_token;
use crate::sanitize::sanitize_name;
use crate::text::lowercase_chars;
use crate::text::lowercase_of;

verus! {

/// The group of an attribute: 0 for a primary key, 1 for a foreign key that
/// is no primary key, 2 for the rest.
pub open spec fn attribute_rank(a: AttributeView) -> u8 {
    if a.is_primary_key {
        0
    } else if a.is_foreign_key {
        1
    } else {
        2
    }
}

/// What an attribute is ordered by: its group, then its logical name in
/// lower case.
pub open spec fn attribute_sort_key(a: AttributeView) -> SortKeyView {
    SortKeyView {
        rank: attribute_rank(a),
        first: lowercase_of(a.logical_name),
        second: Seq::empty(),
        third: Seq::empty(),
    }
}

/// The keys of the attributes.
pub open spec fn attribute_sort_keys(attributes: Seq<AttributeView>) -> Seq<SortKeyView> {
    Seq::new(attributes.len(), |i: int| attribute_sort_key(attributes[i]))
}

/// What stands behind the type of an attribute: `PK`, `FK`, and `UK` for a
/// unique attribute that is no primary key.
pub open spec fn mermaid_suffixes(a: AttributeView) -> Seq<char> {
    (if a.is_primary_key {
        " PK"@
    } else {
        Seq::empty()
    }) + (if a.is_foreign_key {
        " FK"@
    } else {
        Seq::empty()
    }) + (if a.is_unique && !a.is_primary_key {
        " UK"@
    } else {
        Seq::empty()
    })
}

/// The line of an attribute: the export token of its physical name, its
/// type, and its suffixes. Neither a default value nor auto-increment shows.
pub open spec fn mermaid_attribute_line(a: AttributeView) -> Seq<char> {
    "        "@ + export_token(a.physical_name) + " "@ + type_text(a) + mermaid_suffixes(a) + "\n"@
}

/// The lines of the attributes at the given places.
pub open spec fn mermaid_attribute_pieces(attributes: Seq<AttributeView>, order: Seq<int>) -> Seq<
    Seq<char>,
> {
    Seq::new(order.len(), |p: int| mermaid_attribute_line(attributes[order[p]]))
}

/// The block of an entity: the export token of its logical name, and its
/// attributes in their order between braces.
pub open spec fn mermaid_entity_block(e: EntityView) -> Seq<char> {
    "    "@ + export_token(e.logical_name) + " {\n"@ + concat(
        mermaid_attribute_pieces(e.attributes, stable_order(attribute_sort_keys(e.attributes))),
    ) + "    }\n"@
}

/// The blocks of the entities under the given ids.
pub open spec fn mermaid_block_pieces(
    entities: Map<Seq<char>, EntityView>,
    ids: Seq<Seq<char>>,
) -> Seq<Seq<char>> {
    Seq::new(ids.len(), |i: int| mermaid_entity_block(entities[ids[i]]))
}

/// The blocks of all entities, in the order of their logical names.
pub open spec fn mermaid_entities(entities: Map<Seq<char>, EntityView>) -> Seq<char> {
    concat(mermaid_block_pieces(entities, entity_listing(entities, EntityOrder::ByName)))
}

/// What a relation is ordered by: the logical name of its source, that of
/// its target, and its own name, all in lower case.
pub open spec fn relation_sort_key(
    entities: Map<Seq<char>, EntityView>,
    r: RelationView,
) -> SortKeyView {
    SortKeyView {
        rank: 0,
        first: lowercase_of(entities[r.from_entity_id].logical_name),
        second: lowercase_of(entities[r.to_entity_id].logical_name),
        third: lowercase_of(r.name),
    }
}

/// The keys of the relations.
pub open spec fn relation_sort_keys(
    entities: Map<Seq<char>, EntityView>,
    relations: Seq<RelationView>,
) -> Seq<SortKeyView> {
    Seq::new(relations.len(), |i: int| relation_sort_key(entities, relations[i]))
}

/// How a cardinality is written in Mermaid.
pub open spec fn mermaid_symbol(c: Cardinality) -> Seq<char> {
    match c {
        Cardinality::OneToOne => "||--||"@,
        Cardinality::OneToMany => "||--o{"@,
        Cardinality::ManyToMany => "}o--o{"@,
    }
}

/// The line of a relation both ends of which are entities of the map: the
/// export tokens of the logical names of its ends around the symbol, and
/// the export token of its name as the label.
pub open spec fn mermaid_relation_line(
    entities: Map<Seq<char>, EntityView>,
    r: RelationView,
) -> Seq<char> {
    "    "@ + export_token(entities[r.from_entity_id].logical_name) + " "@ + mermaid_symbol(
        r.cardinality,
    ) + " "@ + export_token(entities[r.to_entity_id].logical_name) + " : "@ + export_token(r.name)
        + "\n"@
}

/// The lines of the relations at the given places.
pub open spec fn mermaid_relation_pieces(
    entities: Map<Seq<char>, EntityView>,
    relations: Seq<RelationView>,
    order: Seq<int>,
) -> Seq<Seq<char>> {
    Seq::new(order.len(), |p: int| mermaid_relation_line(entities, relations[order[p]]))
}

/// The lines of the live relations in their order. A relation with an end
/// that is no entity of the diagram is set aside before anything else.
pub open spec fn mermaid_relations(
    entities: Map<Seq<char>, EntityView>,
    relations: Seq<RelationView>,
) -> Seq<char> {
    let live = live_relations(entities, relations);
    concat(mermaid_relation_pieces(entities, live, stable_order(relation_sort_keys(entities, live))))
}

/// The Mermaid text of a diagram.
pub open spec fn mermaid_text(d: DiagramView) -> Seq<char> {
    "```mermaid\nerDiagram\n"@ + mermaid_entities(d.entities) + mermaid_relations(
        d.entities,
        d.relations,
    ) + "```\n"@
}

/// The key by which `a` is ordered.
pub fn attribute_key(a: &Attribute) -> (key: SortKey)
    ensures
        key@ == attribute_sort_key(a@),
{
    let rank: u8 = if a.is_primary_key {
        0
    } else if a.is_foreign_key {
        1
    } else {
        2
    };
    SortKey {
        rank,
        first: lowercase_chars(a.logical_name.as_str()),
        second: Vec::new(),
        third: Vec::new(),
    }
}

/// Writes the line of `a` at the end of `out`.
pub fn append_mermaid_attribute(out: &mut String, a: &Attribute)
    ensures
        final(out)@ == old(out)@ + mermaid_attribute_line(a@),
{
    let name = sanitize_name(a.physical_name.as_str());
    out.append("        ");
    out.append(name.as_str());
    out.append(" ");
    append_type(out, a);
    let ghost typed = out@;
    if a.is_primary_key {
        out.append(" PK");
    }
    if a.is_foreign_key {
        out.append(" FK");
    }
    if a.is_unique && !a.is_primary_key {
        out.append(" UK");
    }
    proof {
        assert(out@ =~= typed + mermaid_suffixes(a@));
    }
    out.append("\n");
    proof {
        assert(out@ =~= old(out)@ + mermaid_attribute_line(a@));
    }
}

/// Writes the block of `e` at the end of `out`.
pub fn append_mermaid_entity(out: &mut String, e: &Entity)
    ensures
        final(out)@ == old(out)@ + mermaid_entity_block(e@),
{
    let name = sanitize_name(e.logical_name.as_str());
    out.append("    ");
    out.append(name.as_str());
    out.append(" {\n");
    let ghost attributes = e@.attributes;
    let mut keys: Vec<SortKey> = Vec::new();
    let mut i: usize = 0;
    while i < e.attributes.len()
        invariant
            i <= e.attributes.len(),
            attributes == e@.attributes,
            keys@.len() == i,
            forall|j: int| 0 <= j < i ==> (#[trigger] keys@[j])@ == attribute_sort_key(attributes[j]),
        decreases e.attributes.len() - i,
    {
        keys.push(attribute_key(&e.attributes[i]));
        i = i + 1;
    }
    let order = sort_stably(&keys);
    let ghost o = places(order@);
    let ghost lines = mermaid_attribute_pieces(attributes, o);
    let ghost top = out@;
    proof {
        assert(key_views(keys@) =~= attribute_sort_keys(attributes));
    }
    let mut p: usize = 0;
    while p < order.len()
        invariant
            p <= order.len(),
            attributes == e@.attributes,
            o == places(order@),
            is_stable_order(attribute_sort_keys(attributes), o),
            lines == mermaid_attribute_pieces(attributes, o),
            out@ == top + concat(lines.take(p as int)),
        decreases order.len() - p,
    {
        proof {
            concat_step(lines, p as int);
            assert(0 <= o[p as int] < attributes.len());
        }
        append_mermaid_attribute(out, &e.attributes[order[p]]);
        proof {
            assert(out@ =~= top + concat(lines.take(p + 1)));
        }
        p = p + 1;
    }
    out.append("    }\n");
    proof {
        if lines.len() > 0 {
            concat_step(lines, 0);
        } else {
            assert(lines.take(0) =~= lines);
        }
        assert(out@ =~= old(out)@ + mermaid_entity_block(e@));
    }
}

/// Writes how `c` is written in Mermaid at the end of `out`.
pub fn append_mermaid_symbol(out: &mut String, c: Cardinality)
    ensures
        final(out)@ == old(out)@ + mermaid_symbol(c),
{
    match c {
        Cardinality::OneToOne => out.append("||--||"),
        Cardinality::OneToMany => out.append("||--o{"),
        Cardinality::ManyToMany => out.append("}o--o{"),
    }
}

/// The key by which the relation `r` from `from` to `to` is ordered.
pub fn relation_key(from: &Entity, to: &Entity, r: &Relation) -> (key: SortKey)
    ensures
        key@ == (SortKeyView {
            rank: 0,
            first: lowercase_of(from@.logical_name),
            second: lowercase_of(to@.logical_name),
            third: lowercase_of(r@.name),
        }),
{
    SortKey {
        rank: 0,
        first: lowercase_chars(from.logical_name.as_str()),
        second: lowercase_chars(to.logical_name.as_str()),
        third: lowercase_chars(r.name.as_str()),
    }
}

/// Writes the line of the relation `r` from `from` to `to` at the end of `out`.
pub fn append_mermaid_relation(out: &mut String, from: &Entity, to: &Entity, r: &Relation)
    ensures
        final(out)@ == old(out)@ + ("    "@ + export_token(from@.logical_name) + " "@
            + mermaid_symbol(r@.cardinality) + " "@ + export_token(to@.logical_name) + " : "@
            + export_token(r@.name) + "\n"@),
{
    let from_name = sanitize_name(from.logical_name.as_str());
    let to_name = sanitize_name(to.logical_name.as_str());
    let label = sanitize_name(r.name.as_str());
    out.append("    ");
    out.append(from_name.as_str());
    out.append(" ");
    append_mermaid_symbol(out, r.cardinality);
    out.append(" ");
    out.append(to_name.as_str());
    out.append(" : ");
    out.append(label.as_str());
    out.append("\n");
    proof {
        assert(out@ =~= old(out)@ + ("    "@ + export_token(from@.logical_name) + " "@
            + mermaid_symbol(r@.cardinality) + " "@ + export_token(to@.logical_name) + " : "@
            + export_token(r@.name) + "\n"@));
    }
}

impl ErdDiagram {
    /// The Mermaid text of the diagram. The diagram stays as it is.
    pub fn to_mermaid(&self) -> (out: String)
        ensures
            out@ == mermaid_text(self@),
            forall|i: int|
                0 <= i < self@.relations.len() && !resolves(
                    self@.entities,
                    #[trigger] self@.relations[i],
                ) ==> out@ == mermaid_text(
                    DiagramView { relations: self@.relations.remove(i), ..self@ },
                ),
    {
        let mut out = String::new();
        out.append("```mermaid\nerDiagram\n");
        let ghost d = self@;
        let ghost head = out@;
        let order = list_entities(&self.entities, EntityOrder::ByName);
        let ghost ids = entity_listing(d.entities, EntityOrder::ByName);
        let ghost blocks = mermaid_block_pieces(d.entities, ids);
        let mut p: usize = 0;
        while p < order.len()
            invariant
                p <= order.len(),
                d == self@,
                self.entities.is_listed(),
                order@.len() == self.entities.keys().len(),
                forall|q: int|
                    0 <= q < order@.len() ==> #[trigger] order@[q] < self.entities.keys().len(),
                ids == picked(self.entities.keys(), order@),
                blocks == mermaid_block_pieces(d.entities, ids),
                out@ == head + concat(blocks.take(p as int)),
            decreases order.len() - p,
        {
            proof {
                concat_step(blocks, p as int);
                assert(d.entities.dom().contains(self.entities.keys()[order@[p as int] as int]));
            }
            append_mermaid_entity(&mut out, self.entities.entity_at(order[p]));
            proof {
                assert(out@ =~= head + concat(blocks.take(p + 1)));
            }
            p = p + 1;
        }
        proof {
            if blocks.len() > 0 {
                concat_step(blocks, 0);
            } else {
                assert(blocks.take(0) =~= blocks);
            }
            assert(out@ =~= head + mermaid_entities(d.entities));
        }
        let ghost middle = out@;
        let live = live_relation_places(&self.entities, &self.relations);
        let ghost shown = live_relations(d.entities, d.relations);
        let mut keys: Vec<SortKey> = Vec::new();
        let mut i: usize = 0;
        while i < live.len()
            invariant
                i <= live.len(),
                d == self@,
                self.entities.is_listed(),
                forall|q: int|
                    0 <= q < live@.len() ==> is_live_place(
                        &self.entities,
                        d.relations,
                        #[trigger] live@[q],
                    ),
                shown == picked(d.relations, relation_places(live@)),
                keys@.len() == i,
                forall|j: int|
                    0 <= j < i ==> (#[trigger] keys@[j])@ == relation_sort_key(d.entities, shown[j]),
            decreases live.len() - i,
        {
            let place = live[i];
            let r = &self.relations[place.relation];
            proof {
                assert(shown[i as int] == r@);
                assert(d.entities.dom().contains(self.entities.keys()[place.from as int]));
                assert(d.entities.dom().contains(self.entities.keys()[place.to as int]));
            }
            keys.push(
                relation_key(
                    self.entities.entity_at(place.from),
                    self.entities.entity_at(place.to),
                    r,
                ),
            );
            i = i + 1;
        }
        let order = sort_stably(&keys);
        let ghost o = places(order@);
        let ghost lines = mermaid_relation_pieces(d.entities, shown, o);
        proof {
            assert(key_views(keys@) =~= relation_sort_keys(d.entities, shown));
        }
        let mut p: usize = 0;
        while p < order.len()
            invariant
                p <= order.len(),
                d == self@,
                self.entities.is_listed(),
                forall|q: int|
                    0 <= q < live@.len() ==> is_live_place(
                        &self.entities,
                        d.relations,
                        #[trigger] live@[q],
                    ),
                shown == picked(d.relations, relation_places(live@)),
                o == places(order@),
                is_stable_order(relation_sort_keys(d.entities, shown), o),
                lines == mermaid_relation_pieces(d.entities, shown, o),
                out@ == middle + concat(lines.take(p as int)),
            decreases order.len() - p,
        {
            proof {
                concat_step(lines, p as int);
                assert(0 <= o[p as int] < shown.len());
            }
            let place = live[order[p]];
            let r = &self.relations[place.relation];
            proof {
                assert(shown[o[p as int]] == r@);
                assert(d.entities.dom().contains(self.entities.keys()[place.from as int]));
                assert(d.entities.dom().contains(self.entities.keys()[place.to as int]));
            }
            append_mermaid_relation(
                &mut out,
                self.entities.entity_at(place.from),
                self.entities.entity_at(place.to),
                r,
            );
            proof {
                assert(out@ =~= middle + concat(lines.take(p + 1)));
            }
            p = p + 1;
        }
        proof {
            if lines.len() > 0 {
                concat_step(lines, 0);
            } else {
                assert(lines.take(0) =~= lines);
            }
            assert(out@ =~= middle + mermaid_relations(d.entities, d.relations));
        }
        out.append("```\n");
        proof {
            assert(out@ =~= mermaid_text(d));
            assert forall|i: int|
                0 <= i < d.relations.len() && !resolves(
                    d.entities,
                    #[trigger] d.relations[i],
                ) implies out@ == mermaid_text(
                DiagramView { relations: d.relations.remove(i), ..d },
            ) by {
                dangling_relation_is_not_live(d.entities, d.relations, i);
            }
        }
        out
    }
}

} // verus!
