use relay_hub::models::ApiError;
use relay_hub::yaml_service::{schema_base_name, YamlService};

fn service_with_schema(name: &str, schema: &str) -> YamlService {
    let mut s = YamlService::new("/app/shared/schemas".to_string(), "/app/shared/data".to_string());
    s.add_schema(name, schema).unwrap();
    s
}

const NAV_SCHEMA: &str = "{\"type\":\"object\",\"required\":[\"items\"],\"properties\":{\"items\":{\"type\":\"array\"}}}";

#[test]
fn new_service_stores_directories_and_no_schemas() {
    let s = YamlService::new("/schemas".to_string(), "/data".to_string());
    assert_eq!(s.schema_dir, "/schemas");
    assert_eq!(s.data_dir, "/data");
    assert!(s.list_available_schemas().is_empty());
}

#[test]
fn schema_base_name_strips_schema_suffix() {
    assert_eq!(schema_base_name("navigation.schema"), "navigation");
    assert_eq!(schema_base_name("navigation"), "navigation");
    assert_eq!(schema_base_name(".schema"), "");
    assert_eq!(schema_base_name("x.schema.schema"), "x.schema");
    assert_eq!(schema_base_name("short"), "short");
}

#[test]
fn resolve_yaml_path_default_and_explicit() {
    let s = YamlService::new("/schemas".to_string(), "/data".to_string());
    assert_eq!(s.resolve_yaml_path("navigation", None), "/data/navigation.yaml");
    assert_eq!(s.resolve_yaml_path("navigation", Some("custom/nav.yaml")), "/data/custom/nav.yaml");
}

#[test]
fn add_schema_lists_and_replaces() {
    let mut s = service_with_schema("navigation", NAV_SCHEMA);
    assert_eq!(s.list_available_schemas(), vec!["navigation".to_string()]);
    // loading the same name again replaces, not duplicates
    s.add_schema("navigation", "{\"type\":\"object\"}").unwrap();
    assert_eq!(s.list_available_schemas(), vec!["navigation".to_string()]);
    s.add_schema("settings", "{\"type\":\"object\"}").unwrap();
    assert_eq!(
        s.list_available_schemas(),
        vec!["navigation".to_string(), "settings".to_string()]
    );
}

#[test]
fn add_schema_rejects_bad_json() {
    let mut s = YamlService::new("a".to_string(), "b".to_string());
    let e = s.add_schema("broken", "{not json").unwrap_err();
    match e {
        ApiError::ValidationError(m) => assert!(m.starts_with("Invalid JSON schema: ")),
        other => panic!("unexpected error: {:?}", other),
    }
    assert!(s.list_available_schemas().is_empty());
}

#[test]
fn add_schema_rejects_unusable_schema() {
    let mut s = YamlService::new("a".to_string(), "b".to_string());
    let e = s.add_schema("broken", "{\"type\":\"no-such-type\"}").unwrap_err();
    match e {
        ApiError::ValidationError(m) => assert!(m.starts_with("Schema compilation failed: ")),
        other => panic!("unexpected error: {:?}", other),
    }
}

#[test]
fn get_yaml_data_parses_and_validates() {
    let s = service_with_schema("navigation", NAV_SCHEMA);
    let doc = s.get_yaml_data("navigation", "items:\n  - id: home\n  - id: backup\n").unwrap();
    assert_eq!(doc.get("items").unwrap().as_array().unwrap().len(), 2);
}

#[test]
fn get_yaml_data_rejects_bad_yaml() {
    let s = service_with_schema("navigation", NAV_SCHEMA);
    let e = s.get_yaml_data("navigation", "items: [unclosed").unwrap_err();
    assert!(matches!(e, ApiError::YamlParseError(_)));
}

#[test]
fn get_yaml_data_rejects_schema_violations() {
    let s = service_with_schema("navigation", NAV_SCHEMA);
    let e = s.get_yaml_data("navigation", "not_items: 3\n").unwrap_err();
    match e {
        ApiError::ValidationError(m) => assert!(m.starts_with("Schema validation failed: ")),
        other => panic!("unexpected error: {:?}", other),
    }
}

#[test]
fn get_yaml_data_without_schema_skips_validation() {
    let s = YamlService::new("a".to_string(), "b".to_string());
    let doc = s.get_yaml_data("unknown", "anything: true\n").unwrap();
    assert_eq!(doc.get("anything").unwrap().as_bool(), Some(true));
}

#[test]
fn validate_yaml_data_requires_a_known_schema() {
    let s = YamlService::new("a".to_string(), "b".to_string());
    let e = s.validate_yaml_data("missing", "x: 1\n").unwrap_err();
    match e {
        ApiError::NotFound(m) => assert_eq!(m, "Schema 'missing' not found"),
        other => panic!("unexpected error: {:?}", other),
    }
}

#[test]
fn validate_yaml_data_confirms_valid_documents() {
    let s = service_with_schema("navigation", NAV_SCHEMA);
    let v = s.validate_yaml_data("navigation", "items: []\n").unwrap();
    assert!(v.valid);
    assert!(v.document.get("items").unwrap().as_array().unwrap().is_empty());
}

#[test]
fn unusable_schema_text_placed_by_hand_is_an_error_not_a_panic() {
    // `schemas` is a public field; a text that never went through
    // `add_schema` must surface as a validation error, never abort.
    let mut s = YamlService::new("a".to_string(), "b".to_string());
    s.schemas.push(("broken".to_string(), "{\"type\":12}".to_string()));
    let e = s.get_yaml_data("broken", "x: 1\n").unwrap_err();
    assert!(matches!(e, ApiError::ValidationError(_)));
    let e = s.validate_yaml_data("broken", "x: 1\n").unwrap_err();
    assert!(matches!(e, ApiError::ValidationError(_)));
}

#[test]
fn health_answer_is_ok() {
    assert_eq!(relay_hub::health_check(), "OK");
}
