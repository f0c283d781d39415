//! What holds of the renderers whatever the diagram.
use vstd::prelude::*;
use crate::markdown::markdown_relation_pieces;
use crate::markdown::markdown_text;
use crate::mermaid::mermaid_text;
use crate::model::DiagramView;
use crate::model::EntityView;
use crate::model::ErdDiagram;
use crate::model::resolves;
use crate::render::concat;
use crate::render::live_relations;
use crate::render::dangling_relation_is_not_live;
use crate::render::live_relations_resolve;

verus! {

/// In which order two entities are put into a map makes no difference to
/// the map.
pub proof fn insertion_order_is_no_part_of_the_map(
    entities: Map<Seq<char>, EntityView>,
    first_id: Seq<char>,
    first: EntityView,
    second_id: Seq<char>,
    second: EntityView,
)
    requires
        first_id != second_id,
    ensures
        entities.insert(first_id, first).insert(second_id, second) == entities.insert(
            second_id,
            second,
        ).insert(first_id, first),
{
    assert(entities.insert(first_id, first).insert(second_id, second) =~= entities.insert(
        second_id,
        second,
    ).insert(first_id, first));
}

/// Two diagrams that hold the same entities under the same ids and the same
/// relations give the same Mermaid text, character for character, in
/// whatever order the entities were put into each.
pub proof fn mermaid_ignores_insertion_order(a: ErdDiagram, b: ErdDiagram)
    requires
        a@.entities == b@.entities,
        a@.relations == b@.relations,
    ensures
        mermaid_text(a@) == mermaid_text(b@),
{
}

/// Two diagrams that hold the same entities under the same ids and the same
/// relations give the same Markdown document, in whatever order the
/// entities were put into each.
pub proof fn markdown_ignores_insertion_order(a: ErdDiagram, b: ErdDiagram)
    requires
        a@.entities == b@.entities,
        a@.relations == b@.relations,
    ensures
        markdown_text(a@) == markdown_text(b@),
{
}

/// A relation with an end that is no entity of the diagram leaves no trace
/// in the Mermaid text: with it or without it the text is the same.
pub proof fn mermaid_drops_dangling_relation(d: DiagramView, i: int)
    requires
        0 <= i < d.relations.len(),
        !resolves(d.entities, d.relations[i]),
    ensures
        mermaid_text(d) == mermaid_text(DiagramView { relations: d.relations.remove(i), ..d }),
{
    dangling_relation_is_not_live(d.entities, d.relations, i);
}

/// The Mermaid text shows the live relations and no others.
pub proof fn mermaid_shows_live_relations_only(d: DiagramView)
    ensures
        mermaid_text(d) == mermaid_text(
            DiagramView { relations: live_relations(d.entities, d.relations), ..d },
        ),
{
    let live = live_relations(d.entities, d.relations);
    live_relations_resolve(d.entities, d.relations);
    live_relations_resolve(d.entities, live);
}

/// A relation with an end that is no entity of the diagram leaves no line
/// in the Markdown document: with it or without it the lines are the same,
/// and so is the document as long as another relation is left to keep the
/// heading of the list.
pub proof fn markdown_drops_dangling_relation(d: DiagramView, i: int)
    requires
        0 <= i < d.relations.len(),
        !resolves(d.entities, d.relations[i]),
    ensures
        concat(markdown_relation_pieces(d.entities, live_relations(d.entities, d.relations)))
            == concat(
            markdown_relation_pieces(d.entities, live_relations(d.entities, d.relations.remove(i))),
        ),
        d.relations.len() >= 2 ==> markdown_text(d) == markdown_text(
            DiagramView { relations: d.relations.remove(i), ..d },
        ),
{
    dangling_relation_is_not_live(d.entities, d.relations, i);
}

} // verus!
