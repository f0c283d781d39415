use erd_core::load::accept_diagram;
use erd_core::load::accept_parsed;
use erd_core::load::check_bytes;
use erd_core::load::check_file;
use erd_core::load::check_lowered_extension;
use erd_core::load::check_text;
use erd_core::load::classify_json_failure;
use erd_core::load::classify_parse_failure;
use erd_core::load::validate_basic_diagram;
use erd_core::load::FileKind;
use erd_core::load::LoadError;
use erd_core::load::MAX_FILE_SIZE;
use erd_core::measure::Measure;
use erd_core::model::Cardinality;
use erd_core::model::Entity;
use erd_core::model::ErdDiagram;
use erd_core::model::Relation;

fn diagram(entities: usize, relations: usize) -> ErdDiagram {
    let mut d = ErdDiagram::new();
    for i in 0..entities {
        let id = format!("e{}", i);
        d.entities.insert(id.clone(), Entity::new(id, format!("Entity {}", i)));
    }
    for i in 0..relations {
        d.relations.push(Relation {
            id: format!("r{}", i),
            from_entity_id: "e0".to_string(),
            from_attribute: "id".to_string(),
            to_entity_id: "e0".to_string(),
            to_attribute: None,
            cardinality: Cardinality::OneToOne,
            name: "r".to_string(),
        });
    }
    d
}

#[test]
fn the_size_of_a_file_is_bounded() {
    assert_eq!(MAX_FILE_SIZE, 10 * 1024 * 1024);
    assert_eq!(check_file(FileKind::Json, 0, Some("json")), Ok(()));
    assert_eq!(check_file(FileKind::Json, MAX_FILE_SIZE, Some("json")), Ok(()));
    assert_eq!(check_file(FileKind::Json, MAX_FILE_SIZE + 1, Some("json")), Err(LoadError::FileTooLarge));
    assert_eq!(check_file(FileKind::Xlsx, u64::MAX, Some("xlsx")), Err(LoadError::FileTooLarge));
}

#[test]
fn the_size_is_looked_at_before_the_extension() {
    assert_eq!(check_file(FileKind::Json, MAX_FILE_SIZE + 1, None), Err(LoadError::FileTooLarge));
    assert_eq!(check_file(FileKind::Json, MAX_FILE_SIZE + 1, Some("txt")), Err(LoadError::FileTooLarge));
}

#[test]
fn the_extension_must_be_that_of_the_kind() {
    assert_eq!(check_file(FileKind::Json, 1, None), Err(LoadError::MissingExtension(FileKind::Json)));
    assert_eq!(check_file(FileKind::Xlsx, 1, None), Err(LoadError::MissingExtension(FileKind::Xlsx)));
    assert_eq!(check_file(FileKind::Json, 1, Some("txt")), Err(LoadError::WrongExtension(FileKind::Json)));
    assert_eq!(check_file(FileKind::Json, 1, Some("xlsx")), Err(LoadError::WrongExtension(FileKind::Json)));
    assert_eq!(check_file(FileKind::Xlsx, 1, Some("json")), Err(LoadError::WrongExtension(FileKind::Xlsx)));
    assert_eq!(check_file(FileKind::Json, 1, Some("")), Err(LoadError::WrongExtension(FileKind::Json)));
    assert_eq!(check_file(FileKind::Json, 1, Some("jso")), Err(LoadError::WrongExtension(FileKind::Json)));
    assert_eq!(check_file(FileKind::Json, 1, Some("jsonx")), Err(LoadError::WrongExtension(FileKind::Json)));
    assert_eq!(check_file(FileKind::Xlsx, 1, Some("xlsx")), Ok(()));
}

#[test]
fn the_case_of_the_extension_is_set_aside() {
    assert_eq!(check_file(FileKind::Json, 1, Some("JSON")), Ok(()));
    assert_eq!(check_file(FileKind::Json, 1, Some("Json")), Ok(()));
    assert_eq!(check_file(FileKind::Xlsx, 1, Some("XlsX")), Ok(()));
}

#[test]
fn a_lowered_extension_is_taken_as_it_is() {
    let json: Vec<char> = "json".chars().collect();
    let upper: Vec<char> = "JSON".chars().collect();
    assert_eq!(check_lowered_extension(FileKind::Json, &json), Ok(()));
    assert_eq!(check_lowered_extension(FileKind::Json, &upper), Err(LoadError::WrongExtension(FileKind::Json)));
    assert_eq!(check_lowered_extension(FileKind::Xlsx, &json), Err(LoadError::WrongExtension(FileKind::Xlsx)));
}

#[test]
fn an_empty_file_is_refused() {
    assert_eq!(check_text(""), Err(LoadError::EmptyFile));
    assert_eq!(check_text("  \n\t "), Err(LoadError::EmptyFile));
    assert_eq!(check_text("{}"), Ok(()));
    assert_eq!(check_text(" x "), Ok(()));
    assert_eq!(check_bytes(&Vec::new()), Err(LoadError::EmptyFile));
    assert_eq!(check_bytes(&vec![0]), Ok(()));
    assert_eq!(check_bytes(&vec![b' ']), Ok(()));
}

#[test]
fn a_failure_of_the_parser_gets_its_name() {
    assert_eq!(
        classify_parse_failure("recursion limit exceeded at line 1 column 129".to_string()),
        LoadError::TooComplex
    );
    assert_eq!(
        classify_parse_failure("expected value at line 1 column 1".to_string()),
        LoadError::Malformed("expected value at line 1 column 1".to_string())
    );
    assert_eq!(classify_parse_failure("".to_string()), LoadError::Malformed("".to_string()));
}

#[test]
fn the_size_of_a_diagram_is_bounded() {
    assert_eq!(validate_basic_diagram(&diagram(0, 0)), Ok(()));
    assert_eq!(validate_basic_diagram(&diagram(1000, 5000)), Ok(()));
    assert_eq!(validate_basic_diagram(&diagram(1001, 0)), Err(LoadError::TooManyEntities));
    assert_eq!(validate_basic_diagram(&diagram(1, 5001)), Err(LoadError::TooManyRelations));
}

#[test]
fn the_entities_are_counted_before_the_relations() {
    assert_eq!(validate_basic_diagram(&diagram(1001, 5001)), Err(LoadError::TooManyEntities));
}

fn parse_failure(text: &str) -> serde_json::Error {
    serde_json::from_str::<serde_json::Value>(text).unwrap_err()
}

#[test]
fn the_parser_speaks_of_its_limit_of_depth() {
    let deep = "[".repeat(1000);
    let e = parse_failure(&deep);
    assert!(e.to_string().contains("recursion limit"));
    assert_eq!(classify_json_failure(&e), LoadError::TooComplex);
}

#[test]
fn other_failures_of_the_parser_keep_its_words() {
    for text in ["nope", "{", "[1,", "{\"a\" 1}", "\"open", "{\"a\":01}"] {
        let e = parse_failure(text);
        assert_eq!(classify_json_failure(&e), LoadError::Malformed(e.to_string()));
        assert!(!e.to_string().is_empty());
    }
    let e = parse_failure("nope");
    assert_eq!(
        classify_json_failure(&e).message(),
        "다이어그램 파일을 파싱할 수 없습니다: expected ident at line 1 column 2"
    );
}

#[test]
fn what_was_parsed_is_repaired_and_handed_on() {
    let mut d = diagram(2, 1);
    d.canvas_width = Measure::from_bits((-1.0f64).to_bits());
    let loaded = accept_parsed(Ok(d), "/tmp/shop.json".to_string()).unwrap();
    assert_eq!(loaded.file_path, "/tmp/shop.json");
    assert_eq!(f64::from_bits(loaded.diagram.canvas_width.to_bits()), 1200.0);
    assert_eq!(loaded.diagram.entities.entity_at(0).physical_name, "entity_0");
    assert_eq!(loaded.diagram.entities.len(), 2);
    assert_eq!(loaded.diagram.relations.len(), 1);
    let loaded = accept_diagram(diagram(1, 0), "a.json".to_string()).unwrap();
    assert_eq!(loaded.file_path, "a.json");
    assert_eq!(loaded.diagram.entities.entity_at(0).physical_name, "entity_0");
}

#[test]
fn what_was_parsed_may_be_too_large() {
    let e = accept_parsed(Ok(diagram(1001, 0)), "a.json".to_string()).unwrap_err();
    assert_eq!(e, LoadError::TooManyEntities);
    let e = accept_parsed(Ok(diagram(0, 5001)), "a.json".to_string()).unwrap_err();
    assert_eq!(e, LoadError::TooManyRelations);
    let e = accept_diagram(diagram(1001, 5001), "a.json".to_string()).unwrap_err();
    assert_eq!(e, LoadError::TooManyEntities);
    assert!(accept_diagram(diagram(1000, 5000), "a.json".to_string()).is_ok());
}

#[test]
fn what_was_not_parsed_is_an_error() {
    let deep = "[".repeat(1000);
    let e = accept_parsed(Err(parse_failure(&deep)), "a.json".to_string()).unwrap_err();
    assert_eq!(e, LoadError::TooComplex);
    let failure = parse_failure("{");
    let words = failure.to_string();
    let e = accept_parsed(Err(failure), "a.json".to_string()).unwrap_err();
    assert_eq!(e, LoadError::Malformed(words));
}

#[test]
fn every_error_has_its_message() {
    assert_eq!(LoadError::FileTooLarge.message(), "파일이 너무 큽니다. 최대 10MB까지 지원합니다.");
    assert_eq!(
        LoadError::MissingExtension(FileKind::Json).message(),
        "파일 확장자가 필요합니다. JSON 파일을 선택해주세요."
    );
    assert_eq!(
        LoadError::MissingExtension(FileKind::Xlsx).message(),
        "파일 확장자가 필요합니다. XLSX 파일을 선택해주세요."
    );
    assert_eq!(LoadError::WrongExtension(FileKind::Json).message(), "JSON 파일만 지원합니다.");
    assert_eq!(LoadError::WrongExtension(FileKind::Xlsx).message(), "XLSX 파일만 지원합니다.");
    assert_eq!(LoadError::EmptyFile.message(), "파일이 비어있습니다.");
    assert_eq!(LoadError::TooComplex.message(), "JSON 구조가 너무 복잡합니다.");
    assert_eq!(
        LoadError::Malformed("expected value".to_string()).message(),
        "다이어그램 파일을 파싱할 수 없습니다: expected value"
    );
    assert_eq!(LoadError::TooManyEntities.message(), "엔티티가 너무 많습니다.");
    assert_eq!(LoadError::TooManyRelations.message(), "관계가 너무 많습니다.");
}

#[test]
fn an_error_is_copied_whole() {
    let errors = [
        LoadError::FileTooLarge,
        LoadError::MissingExtension(FileKind::Xlsx),
        LoadError::WrongExtension(FileKind::Json),
        LoadError::EmptyFile,
        LoadError::TooComplex,
        LoadError::Malformed("expected value".to_string()),
        LoadError::TooManyEntities,
        LoadError::TooManyRelations,
    ];
    for e in &errors {
        assert_eq!(&e.clone(), e);
    }
}
