//! The repair pass.
//!
//! A diagram that was saved under an older layout may lack physical names
//! or carry sizes and positions that cannot be drawn. `normalize` fills
//! those gaps and changes nothing else. It never fails, and a diagram that
//! went through it once goes through it unchanged.
use vstd::prelude::*;
use crate::measure::Measure;
use crate::measure::default_canvas_height;
use crate::measure::default_canvas_width;
use crate::measure::default_height;
use crate::measure::default_pos_x;
use crate::measure::default_pos_y;
use crate::measure::default_width;
use crate::measure::DEFAULT_CANVAS_HEIGHT_BITS;
use crate::measure::DEFAULT_CANVAS_WIDTH_BITS;
use crate::measure::DEFAULT_HEIGHT_BITS;
use crate::measure::DEFAULT_POS_X_BITS;
use crate::measure::DEFAULT_POS_Y_BITS;
use crate::measure::DEFAULT_WIDTH_BITS;
use crate::model::Attribute;
use crate::model::AttributeView;
use crate::model::DiagramView;
use crate::model::Entity;
use crate::model::EntityView;
use crate::model::ErdDiagram;
use crate::model::attribute_views;
use crate::sanitize::Policy;
use crate::sanitize::is_token;
use crate::sanitize::physical_token;
use crate::sanitize::physical_token_is_token;
use crate::sanitize::sanitize_physical;
use crate::text::blank;
use crate::text::is_blank;
use crate::text::lowercase_of;

verus! {

/// The physical name unless it is blank, and the storage identifier of the
/// logical name in its place then.
pub open spec fn repaired_name(physical: Seq<char>, logical: Seq<char>) -> Seq<char> {
    if is_blank(physical) {
        physical_token(lowercase_of(logical))
    } else {
        physical
    }
}

/// The attribute with its physical name repaired.
pub open spec fn normalized_attribute(a: AttributeView) -> AttributeView {
    AttributeView { physical_name: repaired_name(a.physical_name, a.logical_name), ..a }
}

/// The attributes, each with its physical name repaired.
pub open spec fn normalized_attributes(attributes: Seq<AttributeView>) -> Seq<AttributeView> {
    Seq::new(attributes.len(), |i: int| normalized_attribute(attributes[i]))
}

/// The entity with its physical name, its size, its position and its
/// attributes repaired.
pub open spec fn normalized_entity(e: EntityView) -> EntityView {
    EntityView {
        physical_name: repaired_name(e.physical_name, e.logical_name),
        x: e.x.repaired_position(Measure { bits: DEFAULT_POS_X_BITS }),
        y: e.y.repaired_position(Measure { bits: DEFAULT_POS_Y_BITS }),
        width: e.width.repaired_size(Measure { bits: DEFAULT_WIDTH_BITS }),
        height: e.height.repaired_size(Measure { bits: DEFAULT_HEIGHT_BITS }),
        attributes: normalized_attributes(e.attributes),
        ..e
    }
}

/// The diagram with every entity and the size of the canvas repaired. The
/// ids and the relations stay as they are.
pub open spec fn normalized(d: DiagramView) -> DiagramView {
    DiagramView {
        entities: Map::new(
            |k: Seq<char>| d.entities.dom().contains(k),
            |k: Seq<char>| normalized_entity(d.entities[k]),
        ),
        canvas_width: d.canvas_width.repaired_size(Measure { bits: DEFAULT_CANVAS_WIDTH_BITS }),
        canvas_height: d.canvas_height.repaired_size(Measure { bits: DEFAULT_CANVAS_HEIGHT_BITS }),
        ..d
    }
}

/// What holds of an entity after the repair, whatever it was before: no
/// physical name is blank, no size is zero or below, no position is
/// not-a-number.
pub open spec fn is_repaired(e: EntityView) -> bool {
    &&& !is_blank(e.physical_name)
    &&& e.physical_name.len() > 0
    &&& !e.width.at_most_zero()
    &&& !e.height.at_most_zero()
    &&& !e.x.is_nan()
    &&& !e.y.is_nan()
    &&& forall|i: int|
        0 <= i < e.attributes.len() ==> !is_blank((#[trigger] e.attributes[i]).physical_name)
            && e.attributes[i].physical_name.len() > 0
}

/// An entity that can be drawn: it has a physical name, a width and a
/// height above zero, and a finite position.
pub open spec fn is_drawable(e: EntityView) -> bool {
    &&& e.physical_name.len() > 0
    &&& e.width.is_positive()
    &&& e.height.is_positive()
    &&& e.x.is_finite()
    &&& e.y.is_finite()
}

/// A repaired name is not blank: a storage identifier starts with a letter
/// or a digit.
pub proof fn repaired_name_is_not_blank(physical: Seq<char>, logical: Seq<char>)
    ensures
        !is_blank(repaired_name(physical, logical)),
        repaired_name(physical, logical).len() > 0,
        repaired_name(repaired_name(physical, logical), logical) == repaired_name(
            physical,
            logical,
        ),
{
    let name = repaired_name(physical, logical);
    if is_blank(physical) {
        physical_token_is_token(lowercase_of(logical));
        assert(is_token(Policy::Physical, name));
        assert(!crate::text::is_whitespace(name[0]));
    } else {
        assert(physical.len() > 0);
    }
}

/// After the repair every entity is repaired.
pub proof fn normalized_entity_is_repaired(e: EntityView)
    ensures
        is_repaired(normalized_entity(e)),
{
    let n = normalized_entity(e);
    repaired_name_is_not_blank(e.physical_name, e.logical_name);
    assert forall|i: int| 0 <= i < n.attributes.len() implies !is_blank(
        (#[trigger] n.attributes[i]).physical_name,
    ) && n.attributes[i].physical_name.len() > 0 by {
        repaired_name_is_not_blank(e.attributes[i].physical_name, e.attributes[i].logical_name);
    }
}

/// After the repair an entity can be drawn, unless its width or height was
/// not-a-number or its position infinite: the repair leaves those as they are.
pub proof fn normalized_entity_is_drawable(e: EntityView)
    requires
        !e.width.is_nan(),
        !e.height.is_nan(),
        e.x.is_finite() || e.x.is_nan(),
        e.y.is_finite() || e.y.is_nan(),
    ensures
        is_drawable(normalized_entity(e)),
{
    repaired_name_is_not_blank(e.physical_name, e.logical_name);
}

/// After the repair of a diagram every entity of it is repaired, and can be
/// drawn if no width or height was not-a-number and no position infinite;
/// the canvas is not zero or below in width or height.
pub proof fn normalized_is_repaired(d: DiagramView)
    ensures
        normalized(d).entities.dom() == d.entities.dom(),
        normalized(d).relations == d.relations,
        !normalized(d).canvas_width.at_most_zero(),
        !normalized(d).canvas_height.at_most_zero(),
        forall|k: Seq<char>| #[trigger]
            d.entities.dom().contains(k) ==> is_repaired(normalized(d).entities[k]),
        forall|k: Seq<char>| #[trigger]
            d.entities.dom().contains(k) && !d.entities[k].width.is_nan()
                && !d.entities[k].height.is_nan() && (d.entities[k].x.is_finite()
                || d.entities[k].x.is_nan()) && (d.entities[k].y.is_finite()
                || d.entities[k].y.is_nan()) ==> is_drawable(normalized(d).entities[k]),
{
    assert(normalized(d).entities.dom() =~= d.entities.dom());
    assert forall|k: Seq<char>| #[trigger] d.entities.dom().contains(k) implies is_repaired(
        normalized(d).entities[k],
    ) by {
        normalized_entity_is_repaired(d.entities[k]);
    }
    assert forall|k: Seq<char>| #[trigger]
        d.entities.dom().contains(k) && !d.entities[k].width.is_nan()
            && !d.entities[k].height.is_nan() && (d.entities[k].x.is_finite()
            || d.entities[k].x.is_nan()) && (d.entities[k].y.is_finite()
            || d.entities[k].y.is_nan()) implies is_drawable(normalized(d).entities[k]) by {
        normalized_entity_is_drawable(d.entities[k]);
    }
}

/// To repair an entity twice is to repair it once.
pub proof fn normalized_entity_is_idempotent(e: EntityView)
    ensures
        normalized_entity(normalized_entity(e)) == normalized_entity(e),
{
    let once = normalized_entity(e);
    let twice = normalized_entity(once);
    repaired_name_is_not_blank(e.physical_name, e.logical_name);
    assert forall|i: int| 0 <= i < once.attributes.len() implies twice.attributes[i]
        == once.attributes[i] by {
        repaired_name_is_not_blank(e.attributes[i].physical_name, e.attributes[i].logical_name);
    }
    assert(twice.attributes =~= once.attributes);
}

/// To repair a diagram twice is to repair it once.
pub proof fn normalize_is_idempotent(d: DiagramView)
    ensures
        normalized(normalized(d)) == normalized(d),
{
    let once = normalized(d);
    let twice = normalized(once);
    assert forall|k: Seq<char>| once.entities.dom().contains(k) implies twice.entities[k]
        == once.entities[k] by {
        normalized_entity_is_idempotent(d.entities[k]);
    }
    assert(twice.entities =~= once.entities);
}

/// Repairs the physical name of an attribute.
pub fn normalize_attribute(a: &mut Attribute)
    ensures
        final(a)@ == normalized_attribute(old(a)@),
{
    if blank(a.physical_name.as_str()) {
        a.physical_name = sanitize_physical(a.logical_name.as_str());
    }
}

/// Repairs an entity: its physical name, its size, its position, and the
/// physical name of each of its attributes.
pub fn normalize_entity(e: &mut Entity)
    ensures
        final(e)@ == normalized_entity(old(e)@),
{
    if blank(e.physical_name.as_str()) {
        e.physical_name = sanitize_physical(e.logical_name.as_str());
    }
    if e.width.at_most_zero() {
        e.width = default_width();
    }
    if e.height.at_most_zero() {
        e.height = default_height();
    }
    if e.x.is_nan() {
        e.x = default_pos_x();
    }
    if e.y.is_nan() {
        e.y = default_pos_y();
    }
    let n: usize = e.attributes.len();
    let mut i: usize = 0;
    let ghost named = e@;
    while i < n
        invariant
            i <= n,
            n == e.attributes.len(),
            n == old(e).attributes.len(),
            e@ == (EntityView { attributes: e@.attributes, ..named }),
            forall|j: int|
                0 <= j < i ==> (#[trigger] e.attributes[j])@ == normalized_attribute(
                    old(e).attributes[j]@,
                ),
            forall|j: int| i <= j < n ==> (#[trigger] e.attributes[j]) == old(e).attributes[j],
        decreases n - i,
    {
        normalize_attribute(&mut e.attributes[i]);
        i = i + 1;
    }
    proof {
        assert(attribute_views(e.attributes@) =~= normalized_attributes(
            attribute_views(old(e).attributes@),
        ));
    }
}

impl ErdDiagram {
    /// Repairs the diagram where it stands: every entity, and the size of
    /// the canvas. The listing of the ids stays as it is.
    pub fn normalize(&mut self)
        ensures
            final(self)@ == normalized(old(self)@),
            final(self).entities.keys() == old(self).entities.keys(),
            final(self)@.entities.dom() == old(self)@.entities.dom(),
            forall|k: Seq<char>| #[trigger]
                final(self)@.entities.dom().contains(k) ==> is_repaired(final(self)@.entities[k]),
            forall|k: Seq<char>| #[trigger]
                final(self)@.entities.dom().contains(k) && !old(self)@.entities[k].width.is_nan()
                    && !old(self)@.entities[k].height.is_nan() && (old(
                    self,
                )@.entities[k].x.is_finite() || old(self)@.entities[k].x.is_nan()) && (old(
                    self,
                )@.entities[k].y.is_finite() || old(self)@.entities[k].y.is_nan())
                    ==> is_drawable(final(self)@.entities[k]),
            !final(self).canvas_width.at_most_zero(),
            !final(self).canvas_height.at_most_zero(),
    {
        let n: usize = self.entities.len();
        let mut i: usize = 0;
        while i < n
            invariant
                i <= n,
                n == self.entities.keys().len(),
                self.entities.keys() == old(self).entities.keys(),
                self.entities.is_listed(),
                old(self).entities.is_listed(),
                self.entities.values().len() == n,
                old(self).entities.values().len() == n,
                self.relations == old(self).relations,
                self.canvas_width == old(self).canvas_width,
                self.canvas_height == old(self).canvas_height,
                forall|j: int|
                    0 <= j < i ==> (#[trigger] self.entities.values()[j]) == normalized_entity(
                        old(self).entities.values()[j],
                    ),
                forall|j: int|
                    i <= j < n ==> (#[trigger] self.entities.values()[j]) == old(
                        self,
                    ).entities.values()[j],
            decreases n - i,
        {
            let mut entity = self.entities.replace_at(i, Entity::new(String::new(), String::new()));
            normalize_entity(&mut entity);
            let _ = self.entities.replace_at(i, entity);
            i = i + 1;
        }
        if self.canvas_width.at_most_zero() {
            self.canvas_width = default_canvas_width();
        }
        if self.canvas_height.at_most_zero() {
            self.canvas_height = default_canvas_height();
        }
        proof {
            assert(self@.entities =~= normalized(old(self)@).entities) by {
                assert forall|k: Seq<char>| #[trigger]
                    self@.entities.dom().contains(k) implies old(
                    self,
                )@.entities.dom().contains(k) && self@.entities[k] == normalized_entity(
                    old(self)@.entities[k],
                ) by {
                    assert(self.entities.keys().contains(k));
                    let j = choose|j: int|
                        0 <= j < self.entities.keys().len() && self.entities.keys()[j] == k;
                    assert(self@.entities[self.entities.keys()[j]] == self.entities.values()[j]);
                    assert(old(self)@.entities.dom().contains(old(self).entities.keys()[j]));
                }
                assert forall|k: Seq<char>| #[trigger]
                    old(self)@.entities.dom().contains(k) implies self@.entities.dom().contains(
                    k,
                ) by {
                    assert(old(self).entities.keys().contains(k));
                    let j = choose|j: int|
                        0 <= j < self.entities.keys().len() && self.entities.keys()[j] == k;
                    assert(self@.entities.dom().contains(self.entities.keys()[j]));
                }
            }
            normalized_is_repaired(old(self)@);
        }
    }
}

} // verus!
