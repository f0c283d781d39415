use erd_core::measure::Measure;
use erd_core::model::Attribute;
use erd_core::model::Cardinality;
use erd_core::model::Entity;
use erd_core::model::ErdDiagram;
use erd_core::model::Relation;
use erd_core::normalize::normalize_attribute;
use erd_core::normalize::normalize_entity;

fn measure(value: f64) -> Measure {
    Measure::from_bits(value.to_bits())
}

fn number(m: Measure) -> f64 {
    f64::from_bits(m.to_bits())
}

fn legacy_diagram() -> ErdDiagram {
    let mut attribute = Attribute::new("아이디".to_string(), "INT".to_string());
    attribute.is_primary_key = true;
    attribute.is_nullable = false;
    let mut entity = Entity::new("e1".to_string(), "고객".to_string());
    entity.x = measure(f64::NAN);
    entity.width = measure(0.0);
    entity.attributes.push(attribute);
    let mut d = ErdDiagram::new();
    d.entities.insert("e1".to_string(), entity);
    d
}

fn same(a: &ErdDiagram, b: &ErdDiagram) -> bool {
    if a.entities.len() != b.entities.len() || a.relations != b.relations {
        return false;
    }
    if a.canvas_width != b.canvas_width || a.canvas_height != b.canvas_height {
        return false;
    }
    (0..a.entities.len()).all(|i| {
        a.entities.key_at(i) == b.entities.key_at(i) && a.entities.entity_at(i) == b.entities.entity_at(i)
    })
}

#[test]
fn a_legacy_diagram_is_repaired() {
    let mut d = legacy_diagram();
    d.normalize();
    let e1 = d.entities.get(&"e1".to_string()).unwrap();
    assert!(!e1.physical_name.is_empty());
    assert!(e1.physical_name.is_ascii());
    assert_eq!(e1.physical_name, "unnamed");
    assert_eq!(number(e1.width), 150.0);
    assert_eq!(number(e1.x), 50.0);
    assert_eq!(number(e1.y), 50.0);
    assert_eq!(number(e1.height), 100.0);
    assert!(!e1.attributes[0].physical_name.is_empty());
    assert!(e1.attributes[0].physical_name.is_ascii());
    assert_eq!(e1.attributes[0].physical_name, "unnamed");
    assert_eq!(e1.logical_name, "고객");
    assert_eq!(e1.attributes[0].logical_name, "아이디");
}

#[test]
fn a_legacy_diagram_renders_after_repair() {
    let mut d = legacy_diagram();
    d.normalize();
    let text = d.to_mermaid();
    assert!(text.contains("        unnamed INT PK\n"));
    assert_eq!(text, "```mermaid\nerDiagram\n    고객 {\n        unnamed INT PK\n    }\n```\n");
}

#[test]
fn physical_names_come_from_logical_names() {
    let mut e = Entity::new("e1".to_string(), "Order Item".to_string());
    e.attributes.push(Attribute::new("Unit Price".to_string(), "DECIMAL".to_string()));
    let mut kept = Attribute::new("Quantity".to_string(), "INT".to_string());
    kept.physical_name = "qty".to_string();
    e.attributes.push(kept);
    let mut blank = Attribute::new("Note".to_string(), "TEXT".to_string());
    blank.physical_name = " \t ".to_string();
    e.attributes.push(blank);
    normalize_entity(&mut e);
    assert_eq!(e.physical_name, "order_item");
    assert_eq!(e.attributes[0].physical_name, "unit_price");
    assert_eq!(e.attributes[1].physical_name, "qty");
    assert_eq!(e.attributes[2].physical_name, "note");
}

#[test]
fn a_physical_name_that_is_there_stays() {
    let mut e = Entity::new("e1".to_string(), "Order".to_string());
    e.physical_name = "TBL Orders".to_string();
    normalize_entity(&mut e);
    assert_eq!(e.physical_name, "TBL Orders");
    let mut a = Attribute::new("Name".to_string(), "TEXT".to_string());
    a.physical_name = "한글".to_string();
    normalize_attribute(&mut a);
    assert_eq!(a.physical_name, "한글");
}

#[test]
fn sizes_at_most_zero_are_reset() {
    for bad in [0.0, -0.0, -1.0, -1e300, f64::NEG_INFINITY] {
        let mut e = Entity::new("e".to_string(), "E".to_string());
        e.width = measure(bad);
        e.height = measure(bad);
        normalize_entity(&mut e);
        assert_eq!(number(e.width), 150.0);
        assert_eq!(number(e.height), 100.0);
    }
    for good in [1.0, 0.001, 5e-324, 1e300, f64::INFINITY] {
        let mut e = Entity::new("e".to_string(), "E".to_string());
        e.width = measure(good);
        e.height = measure(good);
        normalize_entity(&mut e);
        assert_eq!(e.width, measure(good));
        assert_eq!(e.height, measure(good));
    }
}

#[test]
fn a_size_that_is_no_number_stays() {
    let mut e = Entity::new("e".to_string(), "E".to_string());
    e.width = measure(f64::NAN);
    e.height = measure(f64::NAN);
    normalize_entity(&mut e);
    assert!(number(e.width).is_nan());
    assert!(number(e.height).is_nan());
}

#[test]
fn positions_that_are_no_number_are_reset() {
    let mut e = Entity::new("e".to_string(), "E".to_string());
    e.x = measure(f64::NAN);
    e.y = measure(-f64::NAN);
    normalize_entity(&mut e);
    assert_eq!(number(e.x), 50.0);
    assert_eq!(number(e.y), 50.0);
    for kept in [0.0, -0.0, -20.5, 1e10, f64::INFINITY, f64::NEG_INFINITY] {
        let mut e = Entity::new("e".to_string(), "E".to_string());
        e.x = measure(kept);
        e.y = measure(kept);
        normalize_entity(&mut e);
        assert_eq!(e.x, measure(kept));
        assert_eq!(e.y, measure(kept));
    }
}

#[test]
fn the_canvas_is_reset() {
    let mut d = ErdDiagram::new();
    d.canvas_width = measure(0.0);
    d.canvas_height = measure(-5.0);
    d.normalize();
    assert_eq!(number(d.canvas_width), 1200.0);
    assert_eq!(number(d.canvas_height), 800.0);
    d.canvas_width = measure(640.0);
    d.canvas_height = measure(480.0);
    d.normalize();
    assert_eq!(number(d.canvas_width), 640.0);
    assert_eq!(number(d.canvas_height), 480.0);
}

#[test]
fn relations_and_ids_stay() {
    let mut d = legacy_diagram();
    d.entities.insert("e0".to_string(), Entity::new("e0".to_string(), "Zero".to_string()));
    d.relations.push(Relation {
        id: "r1".to_string(),
        from_entity_id: "e1".to_string(),
        from_attribute: "아이디".to_string(),
        to_entity_id: "nowhere".to_string(),
        to_attribute: None,
        cardinality: Cardinality::ManyToMany,
        name: "".to_string(),
    });
    let before = d.clone();
    d.normalize();
    assert_eq!(d.relations, before.relations);
    assert_eq!(d.entities.len(), 2);
    assert_eq!(d.entities.key_at(0), "e1");
    assert_eq!(d.entities.key_at(1), "e0");
    assert_eq!(d.entities.entity_at(1).id, "e0");
}

#[test]
fn normalize_twice_is_normalize_once() {
    let mut once = legacy_diagram();
    once.entities.insert("e2".to_string(), Entity::new("e2".to_string(), "Order Item".to_string()));
    once.canvas_width = measure(-1.0);
    once.normalize();
    let mut twice = once.clone();
    twice.normalize();
    assert!(same(&once, &twice));
}

#[test]
fn after_normalize_every_entity_can_be_drawn() {
    let mut d = legacy_diagram();
    let mut e = Entity::new("e2".to_string(), "".to_string());
    e.width = measure(-3.0);
    e.height = measure(0.0);
    e.y = measure(f64::NAN);
    e.attributes.push(Attribute::new("".to_string(), "INT".to_string()));
    d.entities.insert("e2".to_string(), e);
    d.normalize();
    for i in 0..d.entities.len() {
        let e = d.entities.entity_at(i);
        assert!(!e.physical_name.is_empty());
        assert!(number(e.width) > 0.0);
        assert!(number(e.height) > 0.0);
        assert!(number(e.x).is_finite());
        assert!(number(e.y).is_finite());
        assert!(e.width.is_positive() && e.height.is_positive());
        assert!(e.x.is_finite() && e.y.is_finite());
        for a in &e.attributes {
            assert!(!a.physical_name.is_empty());
        }
    }
}
