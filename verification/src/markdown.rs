//! The Markdown renderer: a document with one section for each entity, in
//! the order of the ids, and a list of the relations.
use vstd::prelude::*;
use vstd::string::*;
use crate::model::Attribute;
use crate::model::AttributeView;
use crate::model::Cardinality;
use crate::model::DiagramView;
use crate::model::Entity;
use crate::model::EntityView;
use crate::model::ErdDiagram;
use crate::model::Relation;
use crate::model::RelationView;
use crate::model::resolves;
use crate::render::EntityOrder;
use crate::render::append_type;
use crate::render::concat;
use crate::render::concat_step;
use crate::render::entity_listing;
use crate::render::list_entities;
use crate::render::live_relation_places;
use crate::render::live_relations;
use crate::render::dangling_relation_is_not_live;
use crate::render::is_live_place;
use crate::render::relation_places;
use crate::render::picked;
use crate::render::type_text;

verus! {

/// The default value of an attribute as it is written: a dash where there
/// is none.
pub open spec fn default_text(a: AttributeView) -> Seq<char> {
    match a.default_value {
        Some(value) => value,
        None => "-"@,
    }
}

/// The constraints that hold of an attribute, in the order in which they
/// are written.
pub open spec fn constraint_labels(a: AttributeView) -> Seq<Seq<char>> {
    let none = Seq::<Seq<char>>::empty();
    let key = with_label(none, a.is_primary_key, "PK"@);
    let foreign = with_label(key, a.is_foreign_key, "FK"@);
    let unique = with_label(foreign, a.is_unique, "UNIQUE"@);
    let counted = with_label(unique, a.is_auto_increment, "AUTO_INCREMENT"@);
    with_label(counted, !a.is_nullable, "NOT NULL"@)
}

/// The parts one after the other, with `sep` between each two.
pub open spec fn joined_with(parts: Seq<Seq<char>>, sep: Seq<char>) -> Seq<char>
    decreases parts.len(),
{
    if parts.len() == 0 {
        Seq::empty()
    } else if parts.len() == 1 {
        parts[0]
    } else {
        joined_with(parts.drop_last(), sep) + sep + parts.last()
    }
}

/// One more part goes behind the others, after a separator if there are others.
pub proof fn joined_with_push(parts: Seq<Seq<char>>, sep: Seq<char>, part: Seq<char>)
    ensures
        joined_with(parts.push(part), sep) == if parts.len() == 0 {
            part
        } else {
            joined_with(parts, sep) + sep + part
        },
{
    assert(parts.push(part).drop_last() =~= parts);
}

/// The constraints of an attribute as they are written: the labels with a
/// comma between each two, or nothing.
pub open spec fn constraints_text(a: AttributeView) -> Seq<char> {
    joined_with(constraint_labels(a), ", "@)
}

/// The row of the table for an attribute.
pub open spec fn markdown_row(a: AttributeView) -> Seq<char> {
    "| "@ + a.logical_name + " | "@ + a.logical_name + " | "@ + a.physical_name + " | "@
        + type_text(a) + " | "@ + default_text(a) + " | "@ + constraints_text(a) + " |\n"@
}

/// The rows of the table, one for each attribute.
pub open spec fn markdown_row_pieces(attributes: Seq<AttributeView>) -> Seq<Seq<char>> {
    Seq::new(attributes.len(), |i: int| markdown_row(attributes[i]))
}

/// The table of the attributes in their stored order, or nothing where
/// there are none.
pub open spec fn markdown_table(attributes: Seq<AttributeView>) -> Seq<char> {
    if attributes.len() == 0 {
        Seq::empty()
    } else {
        "| Attribute | Logical Name | Physical Name | Type | Default | Constraints |\n"@
            + "|-----------|--------------|---------------|------|---------|-------------|\n"@
            + concat(markdown_row_pieces(attributes)) + "\n"@
    }
}

/// The section of an entity: a heading with both names, a line with both
/// names, and the table.
pub open spec fn markdown_section(e: EntityView) -> Seq<char> {
    "### "@ + e.logical_name + " ("@ + e.physical_name + ")\n"@ + "**논리명**: "@ + e.logical_name
        + " | **물리명**: "@ + e.physical_name + "\n\n"@ + markdown_table(e.attributes)
}

/// The sections of the entities under the given ids.
pub open spec fn markdown_section_pieces(
    entities: Map<Seq<char>, EntityView>,
    ids: Seq<Seq<char>>,
) -> Seq<Seq<char>> {
    Seq::new(ids.len(), |i: int| markdown_section(entities[ids[i]]))
}

/// The part on the entities: a heading and the sections in the order of
/// the ids, or nothing where there is no entity.
pub open spec fn markdown_entities(entities: Map<Seq<char>, EntityView>) -> Seq<char> {
    if entities.dom().is_empty() {
        Seq::empty()
    } else {
        "## Entities\n\n"@ + concat(
            markdown_section_pieces(entities, entity_listing(entities, EntityOrder::ById)),
        )
    }
}

/// How a cardinality is written in Markdown.
pub open spec fn markdown_symbol(c: Cardinality) -> Seq<char> {
    match c {
        Cardinality::OneToOne => "1:1"@,
        Cardinality::OneToMany => "1:N"@,
        Cardinality::ManyToMany => "N:M"@,
    }
}

/// The line of a relation both ends of which are entities of the map.
pub open spec fn markdown_relation_line(
    entities: Map<Seq<char>, EntityView>,
    r: RelationView,
) -> Seq<char> {
    "- "@ + entities[r.from_entity_id].logical_name + " ("@ + markdown_symbol(r.cardinality)
        + ") → "@ + entities[r.to_entity_id].logical_name + " ("@ + r.name + ")\n"@
}

/// The lines of the given relations.
pub open spec fn markdown_relation_pieces(
    entities: Map<Seq<char>, EntityView>,
    relations: Seq<RelationView>,
) -> Seq<Seq<char>> {
    Seq::new(relations.len(), |i: int| markdown_relation_line(entities, relations[i]))
}

/// The part on the relations: a heading and one line for each live relation
/// in stored order, or nothing where the diagram has no relation at all. A
/// relation with an end that is no entity of the diagram leaves no line.
pub open spec fn markdown_relations(d: DiagramView) -> Seq<char> {
    if d.relations.len() == 0 {
        Seq::empty()
    } else {
        "## Relations\n\n"@ + concat(
            markdown_relation_pieces(d.entities, live_relations(d.entities, d.relations)),
        )
    }
}

/// The Markdown document of a diagram.
pub open spec fn markdown_text(d: DiagramView) -> Seq<char> {
    "# ERD Diagram\n\n"@ + markdown_entities(d.entities) + markdown_relations(d)
}

/// The labels with `label` behind them if `on`.
pub open spec fn with_label(labels: Seq<Seq<char>>, on: bool, label: Seq<char>) -> Seq<Seq<char>> {
    if on {
        labels.push(label)
    } else {
        labels
    }
}

fn append_label(
    out: &mut String,
    on: bool,
    label: &str,
    first: bool,
    Ghost(start): Ghost<Seq<char>>,
    Ghost(labels): Ghost<Seq<Seq<char>>>,
) -> (still_first: bool)
    requires
        old(out)@ == start + joined_with(labels, ", "@),
        first == (labels.len() == 0),
    ensures
        final(out)@ == start + joined_with(with_label(labels, on, label@), ", "@),
        still_first == (with_label(labels, on, label@).len() == 0),
{
    if on {
        if !first {
            out.append(", ");
        }
        out.append(label);
        proof {
            joined_with_push(labels, ", "@, label@);
            assert(out@ =~= start + joined_with(labels.push(label@), ", "@));
        }
        false
    } else {
        first
    }
}

/// Writes the constraints of `a` at the end of `out`.
pub fn append_constraints(out: &mut String, a: &Attribute)
    ensures
        final(out)@ == old(out)@ + constraints_text(a@),
{
    let ghost start = out@;
    let ghost none = Seq::<Seq<char>>::empty();
    let ghost key = with_label(none, a.is_primary_key, "PK"@);
    let ghost foreign = with_label(key, a.is_foreign_key, "FK"@);
    let ghost unique = with_label(foreign, a.is_unique, "UNIQUE"@);
    let ghost counted = with_label(unique, a.is_auto_increment, "AUTO_INCREMENT"@);
    proof {
        assert(out@ =~= start + joined_with(none, ", "@));
    }
    let first = append_label(out, a.is_primary_key, "PK", true, Ghost(start), Ghost(none));
    let first = append_label(out, a.is_foreign_key, "FK", first, Ghost(start), Ghost(key));
    let first = append_label(out, a.is_unique, "UNIQUE", first, Ghost(start), Ghost(foreign));
    let first = append_label(
        out,
        a.is_auto_increment,
        "AUTO_INCREMENT",
        first,
        Ghost(start),
        Ghost(unique),
    );
    let _ = append_label(out, !a.is_nullable, "NOT NULL", first, Ghost(start), Ghost(counted));
    proof {
        assert(with_label(counted, !a.is_nullable, "NOT NULL"@) == constraint_labels(a@));
    }
}

/// Writes the row of `a` at the end of `out`.
pub fn append_markdown_row(out: &mut String, a: &Attribute)
    ensures
        final(out)@ == old(out)@ + markdown_row(a@),
{
    out.append("| ");
    out.append(a.logical_name.as_str());
    out.append(" | ");
    out.append(a.logical_name.as_str());
    out.append(" | ");
    out.append(a.physical_name.as_str());
    out.append(" | ");
    append_type(out, a);
    out.append(" | ");
    match &a.default_value {
        Some(value) => {
            out.append(value.as_str());
        },
        None => {
            out.append("-");
        },
    }
    out.append(" | ");
    append_constraints(out, a);
    out.append(" |\n");
    proof {
        assert(out@ =~= old(out)@ + markdown_row(a@));
    }
}

/// Writes the section of `e` at the end of `out`.
pub fn append_markdown_section(out: &mut String, e: &Entity)
    ensures
        final(out)@ == old(out)@ + markdown_section(e@),
{
    out.append("### ");
    out.append(e.logical_name.as_str());
    out.append(" (");
    out.append(e.physical_name.as_str());
    out.append(")\n");
    out.append("**논리명**: ");
    out.append(e.logical_name.as_str());
    out.append(" | **물리명**: ");
    out.append(e.physical_name.as_str());
    out.append("\n\n");
    let ghost head = out@;
    let ghost attributes = e@.attributes;
    let ghost rows = markdown_row_pieces(attributes);
    if e.attributes.len() > 0 {
        out.append("| Attribute | Logical Name | Physical Name | Type | Default | Constraints |\n");
        out.append("|-----------|--------------|---------------|------|---------|-------------|\n");
        let ghost top = out@;
        let mut i: usize = 0;
        while i < e.attributes.len()
            invariant
                i <= e.attributes.len(),
                attributes == e@.attributes,
                rows == markdown_row_pieces(attributes),
                out@ == top + concat(rows.take(i as int)),
            decreases e.attributes.len() - i,
        {
            proof {
                concat_step(rows, i as int);
            }
            append_markdown_row(out, &e.attributes[i]);
            proof {
                assert(out@ =~= top + concat(rows.take(i + 1)));
            }
            i = i + 1;
        }
        out.append("\n");
        proof {
            concat_step(rows, 0);
            assert(out@ =~= head + markdown_table(attributes));
        }
    }
    proof {
        assert(out@ =~= old(out)@ + markdown_section(e@));
    }
}

/// Writes how `c` is written in Markdown at the end of `out`.
pub fn append_markdown_symbol(out: &mut String, c: Cardinality)
    ensures
        final(out)@ == old(out)@ + markdown_symbol(c),
{
    match c {
        Cardinality::OneToOne => out.append("1:1"),
        Cardinality::OneToMany => out.append("1:N"),
        Cardinality::ManyToMany => out.append("N:M"),
    }
}

/// Writes the line of the relation `r` from `from` to `to` at the end of `out`.
pub fn append_markdown_relation(out: &mut String, from: &Entity, to: &Entity, r: &Relation)
    ensures
        final(out)@ == old(out)@ + ("- "@ + from@.logical_name + " ("@ + markdown_symbol(
            r@.cardinality,
        ) + ") → "@ + to@.logical_name + " ("@ + r@.name + ")\n"@),
{
    out.append("- ");
    out.append(from.logical_name.as_str());
    out.append(" (");
    append_markdown_symbol(out, r.cardinality);
    out.append(") → ");
    out.append(to.logical_name.as_str());
    out.append(" (");
    out.append(r.name.as_str());
    out.append(")\n");
    proof {
        assert(out@ =~= old(out)@ + ("- "@ + from@.logical_name + " ("@ + markdown_symbol(
            r@.cardinality,
        ) + ") → "@ + to@.logical_name + " ("@ + r@.name + ")\n"@));
    }
}

impl ErdDiagram {
    /// The Markdown document of the diagram. The diagram stays as it is.
    pub fn to_markdown(&self) -> (out: String)
        ensures
            out@ == markdown_text(self@),
            forall|i: int|
                0 <= i < self@.relations.len() && self@.relations.len() >= 2 && !resolves(
                    self@.entities,
                    #[trigger] self@.relations[i],
                ) ==> out@ == markdown_text(
                    DiagramView { relations: self@.relations.remove(i), ..self@ },
                ),
    {
        let mut out = String::new();
        out.append("# ERD Diagram\n\n");
        let ghost d = self@;
        let order = list_entities(&self.entities, EntityOrder::ById);
        let ghost ids = entity_listing(d.entities, EntityOrder::ById);
        let ghost sections = markdown_section_pieces(d.entities, ids);
        let ghost head = out@;
        if order.len() > 0 {
            out.append("## Entities\n\n");
            let ghost top = out@;
            let mut p: usize = 0;
            while p < order.len()
                invariant
                    p <= order.len(),
                    d == self@,
                    self.entities.is_listed(),
                    order@.len() == self.entities.keys().len(),
                    forall|q: int|
                        0 <= q < order@.len() ==> #[trigger] order@[q] < self.entities.keys().len(),
                    ids == picked(self.entities.keys(), order@),
                    sections == markdown_section_pieces(d.entities, ids),
                    out@ == top + concat(sections.take(p as int)),
                decreases order.len() - p,
            {
                proof {
                    concat_step(sections, p as int);
                    assert(d.entities.dom().contains(self.entities.keys()[order@[p as int] as int]));
                }
                append_markdown_section(&mut out, self.entities.entity_at(order[p]));
                proof {
                    assert(out@ =~= top + concat(sections.take(p + 1)));
                }
                p = p + 1;
            }
            proof {
                concat_step(sections, 0);
                assert(d.entities.dom().contains(self.entities.keys()[0]));
                assert(out@ =~= head + markdown_entities(d.entities));
            }
        } else {
            proof {
                assert(d.entities.dom() =~= Set::<Seq<char>>::empty()) by {
                    assert forall|k: Seq<char>| !d.entities.dom().contains(k) by {
                        if d.entities.dom().contains(k) {
                            assert(self.entities.keys().contains(k));
                        }
                    }
                }
                assert(out@ =~= head + markdown_entities(d.entities));
            }
        }
        let ghost middle = out@;
        if self.relations.len() > 0 {
            out.append("## Relations\n\n");
            let live = live_relation_places(&self.entities, &self.relations);
            let ghost shown = live_relations(d.entities, d.relations);
            let ghost lines = markdown_relation_pieces(d.entities, shown);
            let ghost top = out@;
            let mut p: usize = 0;
            while p < live.len()
                invariant
                    p <= live.len(),
                    d == self@,
                    self.entities.is_listed(),
                    forall|q: int|
                        0 <= q < live@.len() ==> is_live_place(
                            &self.entities,
                            d.relations,
                            #[trigger] live@[q],
                        ),
                    shown == picked(d.relations, relation_places(live@)),
                    lines == markdown_relation_pieces(d.entities, shown),
                    out@ == top + concat(lines.take(p as int)),
                decreases live.len() - p,
            {
                let place = live[p];
                let r = &self.relations[place.relation];
                let from = self.entities.entity_at(place.from);
                let to = self.entities.entity_at(place.to);
                proof {
                    concat_step(lines, p as int);
                    assert(shown[p as int] == r@);
                    assert(d.entities.dom().contains(self.entities.keys()[place.from as int]));
                    assert(d.entities.dom().contains(self.entities.keys()[place.to as int]));
                }
                append_markdown_relation(&mut out, from, to, r);
                proof {
                    assert(out@ =~= top + concat(lines.take(p + 1)));
                }
                p = p + 1;
            }
            proof {
                if lines.len() > 0 {
                    concat_step(lines, 0);
                } else {
                    assert(lines.take(0) =~= lines);
                }
                assert(out@ =~= middle + markdown_relations(d));
            }
        } else {
            proof {
                assert(out@ =~= middle + markdown_relations(d));
            }
        }
        proof {
            assert(out@ =~= markdown_text(d));
            assert forall|i: int|
                0 <= i < d.relations.len() && d.relations.len() >= 2 && !resolves(
                    d.entities,
                    #[trigger] d.relations[i],
                ) implies out@ == markdown_text(
                DiagramView { relations: d.relations.remove(i), ..d },
            ) by {
                dangling_relation_is_not_live(d.entities, d.relations, i);
            }
        }
        out
    }
}

} // verus!
