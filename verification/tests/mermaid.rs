use erd_core::mermaid::append_mermaid_attribute;
use erd_core::mermaid::append_mermaid_entity;
use erd_core::model::Attribute;
use erd_core::model::Cardinality;
use erd_core::model::Entity;
use erd_core::model::ErdDiagram;
use erd_core::model::Relation;

fn attribute(logical: &str, physical: &str, data_type: &str) -> Attribute {
    let mut a = Attribute::new(logical.to_string(), data_type.to_string());
    a.physical_name = physical.to_string();
    a
}

fn entity(id: &str, logical: &str, physical: &str) -> Entity {
    let mut e = Entity::new(id.to_string(), logical.to_string());
    e.physical_name = physical.to_string();
    e
}

fn relation(id: &str, from: &str, to: &str, cardinality: Cardinality, name: &str) -> Relation {
    Relation {
        id: id.to_string(),
        from_entity_id: from.to_string(),
        from_attribute: "id".to_string(),
        to_entity_id: to.to_string(),
        to_attribute: None,
        cardinality,
        name: name.to_string(),
    }
}

fn shop() -> ErdDiagram {
    let mut id = attribute("Id", "id", "INT");
    id.is_primary_key = true;
    id.is_nullable = false;
    id.is_auto_increment = true;
    let mut name = attribute("Name", "name", "VARCHAR");
    name.length = Some("50".to_string());
    name.default_value = Some("''".to_string());
    name.is_unique = true;
    let mut customer = entity("e1", "Customer", "customer");
    customer.attributes.push(name);
    customer.attributes.push(id);
    let order = entity("e2", "Order", "orders");
    let mut d = ErdDiagram::new();
    d.entities.insert("e2".to_string(), order);
    d.entities.insert("e1".to_string(), customer);
    d.relations.push(relation("r1", "e1", "e2", Cardinality::OneToMany, "places"));
    d
}

const SHOP: &str = "```mermaid\nerDiagram\n    Customer {\n        id INT PK\n        name VARCHAR(50) UK\n    }\n    Order {\n    }\n    Customer ||--o{ Order : places\n```\n";

#[test]
fn mermaid_of_an_empty_diagram() {
    assert_eq!(ErdDiagram::new().to_mermaid(), "```mermaid\nerDiagram\n```\n");
}

#[test]
fn mermaid_of_a_small_diagram() {
    assert_eq!(shop().to_mermaid(), SHOP);
}

#[test]
fn mermaid_lists_apple_before_zebra() {
    let mut d = ErdDiagram::new();
    d.entities.insert("e1".to_string(), entity("e1", "Zebra", "zebra"));
    d.entities.insert("e2".to_string(), entity("e2", "apple", "apple"));
    d.relations.push(relation("r1", "e1", "e2", Cardinality::OneToOne, "eats"));
    let text = d.to_mermaid();
    assert!(text.find("    apple {").unwrap() < text.find("    Zebra {").unwrap());
    assert_eq!(
        text,
        "```mermaid\nerDiagram\n    apple {\n    }\n    Zebra {\n    }\n    Zebra ||--|| apple : eats\n```\n"
    );
}

#[test]
fn mermaid_does_not_depend_on_the_order_of_insertion() {
    let names = [("k1", "delta"), ("k2", "Alpha"), ("k3", "charlie"), ("k4", "Bravo"), ("k5", "alpha")];
    let orders: [[usize; 5]; 4] = [[0, 1, 2, 3, 4], [4, 3, 2, 1, 0], [2, 0, 4, 1, 3], [1, 4, 0, 3, 2]];
    let mut texts = Vec::new();
    for order in orders {
        let mut d = ErdDiagram::new();
        for i in order {
            let (id, name) = names[i];
            d.entities.insert(id.to_string(), entity(id, name, name));
        }
        d.relations.push(relation("r1", "k1", "k2", Cardinality::OneToMany, "has"));
        texts.push(d.to_mermaid());
    }
    for t in &texts {
        assert_eq!(t, &texts[0]);
    }
    assert_eq!(
        texts[0],
        "```mermaid\nerDiagram\n    Alpha {\n    }\n    alpha {\n    }\n    Bravo {\n    }\n    charlie {\n    }\n    delta {\n    }\n    delta ||--o{ Alpha : has\n```\n"
    );
}

#[test]
fn mermaid_renders_the_same_twice() {
    let d = shop();
    assert_eq!(d.to_mermaid(), d.to_mermaid());
}

#[test]
fn mermaid_orders_attributes_by_group_and_name() {
    let mut e = entity("e1", "T", "t");
    e.attributes.push(attribute("zeta", "zeta", "INT"));
    let mut beta = attribute("beta", "beta", "INT");
    beta.is_foreign_key = true;
    e.attributes.push(beta);
    let mut omega = attribute("Omega", "omega", "INT");
    omega.is_primary_key = true;
    e.attributes.push(omega);
    let mut alpha = attribute("alpha", "alpha", "INT");
    alpha.is_primary_key = true;
    e.attributes.push(alpha);
    let mut mid = attribute("mid", "mid", "INT");
    mid.is_primary_key = true;
    mid.is_foreign_key = true;
    mid.is_unique = true;
    e.attributes.push(mid);
    let mut last = attribute("Alpha", "other", "INT");
    last.is_unique = true;
    e.attributes.push(last);
    let mut out = String::new();
    append_mermaid_entity(&mut out, &e);
    assert_eq!(
        out,
        "    T {\n        alpha INT PK\n        mid INT PK FK\n        omega INT PK\n        beta INT FK\n        other INT UK\n        zeta INT\n    }\n"
    );
}

#[test]
fn mermaid_keeps_equal_attributes_in_stored_order() {
    let mut e = entity("e1", "T", "t");
    e.attributes.push(attribute("Name", "second", "INT"));
    e.attributes.push(attribute("name", "first", "INT"));
    e.attributes.push(attribute("NAME", "third", "INT"));
    let mut out = String::new();
    append_mermaid_entity(&mut out, &e);
    assert_eq!(out, "    T {\n        second INT\n        first INT\n        third INT\n    }\n");
}

#[test]
fn mermaid_attribute_lines() {
    let mut a = attribute("이름", "user name", "VARCHAR");
    a.length = Some("20".to_string());
    a.default_value = Some("x".to_string());
    a.is_auto_increment = true;
    let mut out = String::new();
    append_mermaid_attribute(&mut out, &a);
    assert_eq!(out, "        user_name VARCHAR(20)\n");
    a.is_unique = true;
    a.is_foreign_key = true;
    let mut out = String::new();
    append_mermaid_attribute(&mut out, &a);
    assert_eq!(out, "        user_name VARCHAR(20) FK UK\n");
    a.physical_name = "".to_string();
    a.length = None;
    let mut out = String::from(">");
    append_mermaid_attribute(&mut out, &a);
    assert_eq!(out, ">        entity VARCHAR FK UK\n");
}

#[test]
fn mermaid_uses_the_physical_name_of_an_attribute_and_the_logical_name_of_an_entity() {
    let mut e = entity("e1", "고객 정보", "customer_info");
    e.attributes.push(attribute("아이디", "고객 id", "INT"));
    let mut out = String::new();
    append_mermaid_entity(&mut out, &e);
    assert_eq!(out, "    고객_정보 {\n        고객_id INT\n    }\n");
}

#[test]
fn mermaid_orders_relations_by_their_ends_and_name() {
    let mut d = ErdDiagram::new();
    d.entities.insert("1".to_string(), entity("1", "b", "b"));
    d.entities.insert("2".to_string(), entity("2", "A", "a"));
    d.relations.push(relation("r1", "1", "2", Cardinality::OneToOne, "x"));
    d.relations.push(relation("r2", "2", "1", Cardinality::OneToMany, "z"));
    d.relations.push(relation("r3", "2", "1", Cardinality::ManyToMany, "Y"));
    d.relations.push(relation("r4", "2", "2", Cardinality::OneToOne, "zz"));
    assert_eq!(
        d.to_mermaid(),
        "```mermaid\nerDiagram\n    A {\n    }\n    b {\n    }\n    A ||--|| A : zz\n    A }o--o{ b : Y\n    A ||--o{ b : z\n    b ||--|| A : x\n```\n"
    );
}

#[test]
fn mermaid_keeps_equal_relations_in_stored_order() {
    let mut d = ErdDiagram::new();
    d.entities.insert("1".to_string(), entity("1", "a", "a"));
    d.relations.push(relation("r1", "1", "1", Cardinality::OneToMany, "Same"));
    d.relations.push(relation("r2", "1", "1", Cardinality::OneToOne, "same"));
    d.relations.push(relation("r3", "1", "1", Cardinality::ManyToMany, "SAME"));
    assert_eq!(
        d.to_mermaid(),
        "```mermaid\nerDiagram\n    a {\n    }\n    a ||--o{ a : Same\n    a ||--|| a : same\n    a }o--o{ a : SAME\n```\n"
    );
}

#[test]
fn mermaid_skips_dangling_relations() {
    let mut d = shop();
    d.relations.insert(0, relation("r0", "e1", "ghost", Cardinality::OneToOne, "haunts"));
    d.relations.push(relation("r2", "ghost", "e2", Cardinality::ManyToMany, "rattles"));
    d.relations.push(relation("r3", "", "", Cardinality::ManyToMany, ""));
    let text = d.to_mermaid();
    assert_eq!(text, SHOP);
    assert!(!text.contains("haunts") && !text.contains("rattles"));
}

#[test]
fn mermaid_resolves_by_the_id_of_the_map() {
    let mut d = ErdDiagram::new();
    d.entities.insert("key".to_string(), entity("inner", "A", "a"));
    d.relations.push(relation("r1", "inner", "inner", Cardinality::OneToOne, "none"));
    d.relations.push(relation("r2", "key", "key", Cardinality::OneToOne, "self"));
    assert_eq!(d.to_mermaid(), "```mermaid\nerDiagram\n    A {\n    }\n    A ||--|| A : self\n```\n");
}

#[test]
fn mermaid_renders_names_that_are_missing() {
    let mut d = ErdDiagram::new();
    let mut e = entity("e1", "", "");
    e.attributes.push(attribute("", "", ""));
    d.entities.insert("e1".to_string(), e);
    d.relations.push(relation("r1", "e1", "e1", Cardinality::ManyToMany, "!!"));
    assert_eq!(
        d.to_mermaid(),
        "```mermaid\nerDiagram\n    entity {\n        entity \n    }\n    entity }o--o{ entity : entity\n```\n"
    );
}

#[test]
fn mermaid_leaves_the_diagram_as_it_is() {
    let d = shop();
    let before = d.clone();
    let _ = d.to_mermaid();
    assert_eq!(d.entities.key_at(0), "e2");
    assert_eq!(d.entities.entity_at(1), before.entities.entity_at(1));
    assert_eq!(d.entities.entity_at(1).attributes[0].logical_name, "Name");
    assert_eq!(d.relations, before.relations);
}
