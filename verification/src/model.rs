//! The schema types of a diagram and what each of them stands for.
//!
//! Every type has a view: the same record with its texts as sequences of
//! characters and its lists as sequences. The contracts of the library are
//! stated over the views.
use vstd::prelude::*;
use crate::entity_map::EntityMap;
use crate::measure::Measure;
use crate::measure::default_canvas_height;
use crate::measure::default_canvas_width;
use crate::measure::default_height;
use crate::measure::default_pos_x;
use crate::measure::default_pos_y;
use crate::measure::default_true;
use crate::measure::default_width;
use crate::measure::DEFAULT_CANVAS_HEIGHT_BITS;
use crate::measure::DEFAULT_CANVAS_WIDTH_BITS;
use crate::measure::DEFAULT_HEIGHT_BITS;
use crate::measure::DEFAULT_POS_X_BITS;
use crate::measure::DEFAULT_POS_Y_BITS;
use crate::measure::DEFAULT_WIDTH_BITS;

verus! {

/// What an optional text stands for.
pub open spec fn text_view(t: Option<String>) -> Option<Seq<char>> {
    match t {
        Some(s) => Some(s@),
        None => None,
    }
}

/// A copy of an optional text.
pub fn clone_text(t: &Option<String>) -> (copy: Option<String>)
    ensures
        text_view(copy) == text_view(*t),
{
    match t {
        Some(s) => Some(s.clone()),
        None => None,
    }
}

/// A column-like field of an entity.
#[derive(Debug, PartialEq)]
pub struct Attribute {
    /// The display name, in any script.
    pub logical_name: String,
    /// The storage identifier. A diagram of an older layout may lack it.
    pub physical_name: String,
    pub data_type: String,
    pub length: Option<String>,
    pub default_value: Option<String>,
    pub is_primary_key: bool,
    pub is_nullable: bool,
    pub is_foreign_key: bool,
    pub is_unique: bool,
    pub is_auto_increment: bool,
    /// What the foreign key refers to, as free text.
    pub foreign_key_reference: Option<String>,
    pub remark: Option<String>,
}

/// What an `Attribute` stands for.
pub struct AttributeView {
    pub logical_name: Seq<char>,
    pub physical_name: Seq<char>,
    pub data_type: Seq<char>,
    pub length: Option<Seq<char>>,
    pub default_value: Option<Seq<char>>,
    pub is_primary_key: bool,
    pub is_nullable: bool,
    pub is_foreign_key: bool,
    pub is_unique: bool,
    pub is_auto_increment: bool,
    pub foreign_key_reference: Option<Seq<char>>,
    pub remark: Option<Seq<char>>,
}

impl View for Attribute {
    type V = AttributeView;

    open spec fn view(&self) -> AttributeView {
        AttributeView {
            logical_name: self.logical_name@,
            physical_name: self.physical_name@,
            data_type: self.data_type@,
            length: text_view(self.length),
            default_value: text_view(self.default_value),
            is_primary_key: self.is_primary_key,
            is_nullable: self.is_nullable,
            is_foreign_key: self.is_foreign_key,
            is_unique: self.is_unique,
            is_auto_increment: self.is_auto_increment,
            foreign_key_reference: text_view(self.foreign_key_reference),
            remark: text_view(self.remark),
        }
    }
}

impl Attribute {
    /// An attribute with a name and a type and nothing else: it may be
    /// empty, and is no key.
    pub fn new(logical_name: String, data_type: String) -> (a: Attribute)
        ensures
            a.logical_name == logical_name,
            a.data_type == data_type,
            a.physical_name@.len() == 0,
            a.length is None,
            a.default_value is None,
            !a.is_primary_key,
            a.is_nullable,
            !a.is_foreign_key,
            !a.is_unique,
            !a.is_auto_increment,
            a.foreign_key_reference is None,
            a.remark is None,
    {
        Attribute {
            logical_name,
            physical_name: String::new(),
            data_type,
            length: None,
            default_value: None,
            is_primary_key: false,
            is_nullable: default_true(),
            is_foreign_key: false,
            is_unique: false,
            is_auto_increment: false,
            foreign_key_reference: None,
            remark: None,
        }
    }
}

impl Clone for Attribute {
    fn clone(&self) -> (copy: Self)
        ensures
            copy@ == self@,
    {
        Attribute {
            logical_name: self.logical_name.clone(),
            physical_name: self.physical_name.clone(),
            data_type: self.data_type.clone(),
            length: clone_text(&self.length),
            default_value: clone_text(&self.default_value),
            is_primary_key: self.is_primary_key,
            is_nullable: self.is_nullable,
            is_foreign_key: self.is_foreign_key,
            is_unique: self.is_unique,
            is_auto_increment: self.is_auto_increment,
            foreign_key_reference: clone_text(&self.foreign_key_reference),
            remark: clone_text(&self.remark),
        }
    }
}

/// What a list of attributes stands for.
pub open spec fn attribute_views(attributes: Seq<Attribute>) -> Seq<AttributeView> {
    Seq::new(attributes.len(), |i: int| attributes[i]@)
}

/// A table-like node of the diagram.
#[derive(Debug, PartialEq)]
pub struct Entity {
    pub id: String,
    /// The display name, in any script.
    pub logical_name: String,
    /// The storage identifier. A diagram of an older layout may lack it.
    pub physical_name: String,
    pub x: Measure,
    pub y: Measure,
    pub width: Measure,
    pub height: Measure,
    /// The attributes, in the order in which they are edited.
    pub attributes: Vec<Attribute>,
}

/// What an `Entity` stands for.
pub struct EntityView {
    pub id: Seq<char>,
    pub logical_name: Seq<char>,
    pub physical_name: Seq<char>,
    pub x: Measure,
    pub y: Measure,
    pub width: Measure,
    pub height: Measure,
    pub attributes: Seq<AttributeView>,
}

impl View for Entity {
    type V = EntityView;

    open spec fn view(&self) -> EntityView {
        EntityView {
            id: self.id@,
            logical_name: self.logical_name@,
            physical_name: self.physical_name@,
            x: self.x,
            y: self.y,
            width: self.width,
            height: self.height,
            attributes: attribute_views(self.attributes@),
        }
    }
}

impl Entity {
    /// An entity with an id and a name and nothing else: at the default
    /// position, of the default size, without attributes.
    pub fn new(id: String, logical_name: String) -> (e: Entity)
        ensures
            e.id == id,
            e.logical_name == logical_name,
            e.physical_name@.len() == 0,
            e.x.bits == DEFAULT_POS_X_BITS,
            e.y.bits == DEFAULT_POS_Y_BITS,
            e.width.bits == DEFAULT_WIDTH_BITS,
            e.height.bits == DEFAULT_HEIGHT_BITS,
            e.attributes@.len() == 0,
    {
        Entity {
            id,
            logical_name,
            physical_name: String::new(),
            x: default_pos_x(),
            y: default_pos_y(),
            width: default_width(),
            height: default_height(),
            attributes: Vec::new(),
        }
    }
}

impl Clone for Entity {
    fn clone(&self) -> (copy: Self)
        ensures
            copy@ == self@,
    {
        let mut attributes: Vec<Attribute> = Vec::new();
        let mut i: usize = 0;
        while i < self.attributes.len()
            invariant
                i <= self.attributes.len(),
                attributes@.len() == i,
                forall|j: int| 0 <= j < i ==> (#[trigger] attributes@[j])@ == self.attributes@[j]@,
            decreases self.attributes.len() - i,
        {
            attributes.push(self.attributes[i].clone());
            i = i + 1;
        }
        proof {
            assert(attribute_views(attributes@) =~= attribute_views(self.attributes@));
        }
        Entity {
            id: self.id.clone(),
            logical_name: self.logical_name.clone(),
            physical_name: self.physical_name.clone(),
            x: self.x,
            y: self.y,
            width: self.width,
            height: self.height,
            attributes,
        }
    }
}

/// How many of the one side go with how many of the other.
#[derive(Clone, Copy, Debug, PartialEq, Eq)]
pub enum Cardinality {
    OneToOne,
    OneToMany,
    ManyToMany,
}

/// A directed edge between two entities, which it names by their ids.
/// Nothing forces an id to name an entity of the diagram.
#[derive(Debug, PartialEq)]
pub struct Relation {
    pub id: String,
    pub from_entity_id: String,
    pub from_attribute: String,
    pub to_entity_id: String,
    pub to_attribute: Option<String>,
    pub cardinality: Cardinality,
    pub name: String,
}

/// What a `Relation` stands for.
pub struct RelationView {
    pub id: Seq<char>,
    pub from_entity_id: Seq<char>,
    pub from_attribute: Seq<char>,
    pub to_entity_id: Seq<char>,
    pub to_attribute: Option<Seq<char>>,
    pub cardinality: Cardinality,
    pub name: Seq<char>,
}

impl View for Relation {
    type V = RelationView;

    open spec fn view(&self) -> RelationView {
        RelationView {
            id: self.id@,
            from_entity_id: self.from_entity_id@,
            from_attribute: self.from_attribute@,
            to_entity_id: self.to_entity_id@,
            to_attribute: text_view(self.to_attribute),
            cardinality: self.cardinality,
            name: self.name@,
        }
    }
}

impl Clone for Relation {
    fn clone(&self) -> (copy: Self)
        ensures
            copy@ == self@,
    {
        Relation {
            id: self.id.clone(),
            from_entity_id: self.from_entity_id.clone(),
            from_attribute: self.from_attribute.clone(),
            to_entity_id: self.to_entity_id.clone(),
            to_attribute: clone_text(&self.to_attribute),
            cardinality: self.cardinality,
            name: self.name.clone(),
        }
    }
}

/// What a list of relations stands for.
pub open spec fn relation_views(relations: Seq<Relation>) -> Seq<RelationView> {
    Seq::new(relations.len(), |i: int| relations[i]@)
}

/// The diagram: its entities by id, its relations, and the size of its canvas.
#[derive(Debug)]
pub struct ErdDiagram {
    pub entities: EntityMap,
    pub relations: Vec<Relation>,
    pub canvas_width: Measure,
    pub canvas_height: Measure,
}

/// What an `ErdDiagram` stands for. The entities are a map: in which order
/// they were put in is no part of it.
pub struct DiagramView {
    pub entities: Map<Seq<char>, EntityView>,
    pub relations: Seq<RelationView>,
    pub canvas_width: Measure,
    pub canvas_height: Measure,
}

impl View for ErdDiagram {
    type V = DiagramView;

    open spec fn view(&self) -> DiagramView {
        DiagramView {
            entities: self.entities@,
            relations: relation_views(self.relations@),
            canvas_width: self.canvas_width,
            canvas_height: self.canvas_height,
        }
    }
}

impl ErdDiagram {
    /// The empty diagram on a canvas of the default size.
    pub fn new() -> (d: ErdDiagram)
        ensures
            d@.entities == Map::<Seq<char>, EntityView>::empty(),
            d@.relations.len() == 0,
            d.canvas_width.bits == DEFAULT_CANVAS_WIDTH_BITS,
            d.canvas_height.bits == DEFAULT_CANVAS_HEIGHT_BITS,
    {
        ErdDiagram {
            entities: EntityMap::new(),
            relations: Vec::new(),
            canvas_width: default_canvas_width(),
            canvas_height: default_canvas_height(),
        }
    }
}

impl Clone for ErdDiagram {
    fn clone(&self) -> (copy: Self)
        ensures
            copy@ == self@,
            copy.entities.keys() == self.entities.keys(),
    {
        let mut relations: Vec<Relation> = Vec::new();
        let mut i: usize = 0;
        while i < self.relations.len()
            invariant
                i <= self.relations.len(),
                relations@.len() == i,
                forall|j: int| 0 <= j < i ==> (#[trigger] relations@[j])@ == self.relations@[j]@,
            decreases self.relations.len() - i,
        {
            relations.push(self.relations[i].clone());
            i = i + 1;
        }
        proof {
            assert(relation_views(relations@) =~= relation_views(self.relations@));
        }
        ErdDiagram {
            entities: self.entities.clone(),
            relations,
            canvas_width: self.canvas_width,
            canvas_height: self.canvas_height,
        }
    }
}

/// Both ends of the relation are entities of the map.
pub open spec fn resolves(entities: Map<Seq<char>, EntityView>, r: RelationView) -> bool {
    entities.dom().contains(r.from_entity_id) && entities.dom().contains(r.to_entity_id)
}

} // verus!
