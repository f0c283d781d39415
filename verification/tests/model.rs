use erd_core::model::clone_text;
use erd_core::model::Attribute;
use erd_core::model::Cardinality;
use erd_core::model::Entity;
use erd_core::model::ErdDiagram;
use erd_core::model::Relation;
use erd_core::render::list_entities;
use erd_core::render::live_relation_places;
use erd_core::render::EntityOrder;
use erd_core::render::LivePlace;

fn relation(from: &str, to: &str) -> Relation {
    Relation {
        id: "r".to_string(),
        from_entity_id: from.to_string(),
        from_attribute: "a".to_string(),
        to_entity_id: to.to_string(),
        to_attribute: Some("b".to_string()),
        cardinality: Cardinality::OneToMany,
        name: "n".to_string(),
    }
}

#[test]
fn a_new_attribute_has_the_defaults() {
    let a = Attribute::new("Name".to_string(), "TEXT".to_string());
    assert_eq!(a.logical_name, "Name");
    assert_eq!(a.data_type, "TEXT");
    assert_eq!(a.physical_name, "");
    assert!(a.is_nullable);
    assert!(!a.is_primary_key && !a.is_foreign_key && !a.is_unique && !a.is_auto_increment);
    assert!(a.length.is_none() && a.default_value.is_none());
    assert!(a.foreign_key_reference.is_none() && a.remark.is_none());
}

#[test]
fn a_new_entity_has_the_defaults() {
    let e = Entity::new("e1".to_string(), "Customer".to_string());
    assert_eq!(e.id, "e1");
    assert_eq!(e.logical_name, "Customer");
    assert_eq!(e.physical_name, "");
    assert_eq!(f64::from_bits(e.x.to_bits()), 50.0);
    assert_eq!(f64::from_bits(e.y.to_bits()), 50.0);
    assert_eq!(f64::from_bits(e.width.to_bits()), 150.0);
    assert_eq!(f64::from_bits(e.height.to_bits()), 100.0);
    assert!(e.attributes.is_empty());
}

#[test]
fn a_new_diagram_is_empty() {
    let d = ErdDiagram::new();
    assert!(d.entities.is_empty());
    assert!(d.relations.is_empty());
    assert_eq!(f64::from_bits(d.canvas_width.to_bits()), 1200.0);
    assert_eq!(f64::from_bits(d.canvas_height.to_bits()), 800.0);
}

#[test]
fn clones_are_equal() {
    let mut a = Attribute::new("Name".to_string(), "TEXT".to_string());
    a.length = Some("5".to_string());
    a.remark = Some("r".to_string());
    a.foreign_key_reference = Some("t.c".to_string());
    a.is_unique = true;
    assert_eq!(a.clone(), a);
    let mut e = Entity::new("e1".to_string(), "Customer".to_string());
    e.attributes.push(a);
    e.attributes.push(Attribute::new("Id".to_string(), "INT".to_string()));
    assert_eq!(e.clone(), e);
    let r = relation("e1", "e2");
    assert_eq!(r.clone(), r);
    assert_eq!(clone_text(&Some("x".to_string())), Some("x".to_string()));
    assert_eq!(clone_text(&None), None);
    let mut d = ErdDiagram::new();
    d.entities.insert("e1".to_string(), e);
    d.relations.push(r);
    let c = d.clone();
    assert_eq!(c.entities.len(), 1);
    assert_eq!(c.entities.key_at(0), "e1");
    assert_eq!(c.entities.entity_at(0), d.entities.entity_at(0));
    assert_eq!(c.relations, d.relations);
    assert_eq!(c.canvas_width, d.canvas_width);
    assert_eq!(c.canvas_height, d.canvas_height);
}

#[test]
fn entities_are_listed_by_id_or_by_name() {
    let mut d = ErdDiagram::new();
    d.entities.insert("c".to_string(), Entity::new("c".to_string(), "apple".to_string()));
    d.entities.insert("a".to_string(), Entity::new("a".to_string(), "Zebra".to_string()));
    d.entities.insert("b".to_string(), Entity::new("b".to_string(), "Mango".to_string()));
    d.entities.insert("B".to_string(), Entity::new("B".to_string(), "mango".to_string()));
    assert_eq!(list_entities(&d.entities, EntityOrder::ById), vec![3, 1, 2, 0]);
    assert_eq!(list_entities(&d.entities, EntityOrder::ByName), vec![0, 3, 2, 1]);
}

#[test]
fn live_relations_have_both_ends() {
    let mut d = ErdDiagram::new();
    d.entities.insert("e1".to_string(), Entity::new("e1".to_string(), "A".to_string()));
    d.entities.insert("e2".to_string(), Entity::new("e2".to_string(), "B".to_string()));
    d.relations.push(relation("e1", "e3"));
    d.relations.push(relation("e2", "e1"));
    d.relations.push(relation("e0", "e1"));
    d.relations.push(relation("e1", "e1"));
    d.relations.push(relation("", ""));
    assert_eq!(
        live_relation_places(&d.entities, &d.relations),
        vec![LivePlace { relation: 1, from: 1, to: 0 }, LivePlace { relation: 3, from: 0, to: 0 }]
    );
    assert_eq!(live_relation_places(&d.entities, &Vec::new()), Vec::<LivePlace>::new());
}
