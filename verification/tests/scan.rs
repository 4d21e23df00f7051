use shepherd::document::Yaml;
use shepherd::errors::{ScanError, SchemaIssue};
use shepherd::extract::{extract_services, parse_yaml_text};
use shepherd::loader::load_document;
use shepherd::walk::{plan_scan, scan_files, FileInput, WalkEntry};

fn walk_entry(path: &str, depth: usize) -> WalkEntry {
    WalkEntry { path: path.to_string(), depth }
}

fn file_input(path: &str, content: &str) -> FileInput {
    FileInput { path: path.to_string(), content: Some(content.to_string()) }
}

#[test]
fn test_scan_filesystem() {
    let yaml_content = r#"
services:
  web:
    image: nginx:latest
  db:
    image: postgres:alpine
"#;

    let entries = vec![walk_entry("docker-compose.yaml", 1)];
    let selected = plan_scan(&entries);
    let inputs: Vec<FileInput> =
        selected.iter().map(|p| file_input(p, yaml_content)).collect();
    let results = scan_files(&inputs).unwrap();
    assert_eq!(results.len(), 2);

    let web_service = results.iter().find(|s| s.service == "web").unwrap();
    assert_eq!(web_service.image, "nginx:latest");

    let db_service = results.iter().find(|s| s.service == "db").unwrap();
    assert_eq!(db_service.image, "postgres:alpine");
}

#[test]
fn test_parse_yaml_file_invalid() {
    let invalid_yaml_content = r#"
services:
  web
    image: nginx:latest
"#;

    let result = parse_yaml_text("invalid.yaml", invalid_yaml_content);
    assert!(result.is_err());
}

#[test]
fn test_parse_yaml_file_no_services() {
    let yaml_content = r#"
app:
  name: myapp
"#;

    let result = parse_yaml_text("no_services.yaml", yaml_content);
    assert!(result.is_err());
}

#[test]
fn test_parse_yaml_file_valid() {
    let yaml_content = r#"
services:
  api:
    image: myapi:1.0
  cache:
    image: redis:latest
"#;

    let result = parse_yaml_text("valid.yaml", yaml_content).unwrap();
    assert_eq!(result.len(), 2);

    let api_service = result.iter().find(|s| s.service == "api").unwrap();
    assert_eq!(api_service.image, "myapi:1.0");

    let cache_service = result.iter().find(|s| s.service == "cache").unwrap();
    assert_eq!(cache_service.image, "redis:latest");
}

#[test]
fn two_services_in_document_order() {
    let text = "services:\n  web:\n    image: nginx:latest\n  db:\n    image: postgres:alpine\n";
    let entries = parse_yaml_text("stack/docker-compose.yaml", text).unwrap();
    assert_eq!(entries.len(), 2);
    assert_eq!(entries[0].path, "stack/docker-compose.yaml");
    assert_eq!(entries[0].service, "web");
    assert_eq!(entries[0].image, "nginx:latest");
    assert_eq!(entries[1].path, "stack/docker-compose.yaml");
    assert_eq!(entries[1].service, "db");
    assert_eq!(entries[1].image, "postgres:alpine");
}

#[test]
fn missing_services_is_schema_error() {
    let err = parse_yaml_text("a.yaml", "app:\n  name: myapp\n").unwrap_err();
    assert!(matches!(
        err,
        ScanError::Schema { issue: SchemaIssue::MissingServices, .. }
    ));
    match err {
        ScanError::Schema { path, .. } => assert_eq!(path, "a.yaml"),
        _ => unreachable!(),
    }
}

#[test]
fn services_not_a_mapping_is_schema_error() {
    let err = parse_yaml_text("b.yaml", "services: just a string\n").unwrap_err();
    assert!(matches!(
        err,
        ScanError::Schema { issue: SchemaIssue::MissingServices, .. }
    ));
}

#[test]
fn invalid_syntax_is_parse_error() {
    let err = parse_yaml_text("bad.yaml", "services:\n  web\n    image: x\n").unwrap_err();
    assert!(matches!(err, ScanError::Parse { .. }));
    match err {
        ScanError::Parse { path } => assert_eq!(path, "bad.yaml"),
        _ => unreachable!(),
    }
}

#[test]
fn non_string_service_key_is_schema_error() {
    let err = parse_yaml_text("c.yaml", "services:\n  1:\n    image: x\n").unwrap_err();
    assert!(matches!(
        err,
        ScanError::Schema { issue: SchemaIssue::NonStringName, .. }
    ));
}

#[test]
fn service_without_image_is_omitted() {
    let text = "services:\n  a:\n    image: one:1\n  b:\n    build: .\n  c: plain\n";
    let entries = parse_yaml_text("d.yaml", text).unwrap();
    assert_eq!(entries.len(), 1);
    assert_eq!(entries[0].service, "a");
    assert_eq!(entries[0].image, "one:1");
}

#[test]
fn non_string_image_is_omitted() {
    let text = "services:\n  a:\n    image:\n      - x\n  b:\n    image: 7\n";
    let entries = parse_yaml_text("e.yaml", text).unwrap();
    assert_eq!(entries.len(), 0);
}

#[test]
fn empty_services_mapping_yields_no_entries() {
    let entries = parse_yaml_text("f.yaml", "services: {}\n").unwrap();
    assert_eq!(entries.len(), 0);
}

#[test]
fn unreadable_selected_file_is_io_error() {
    let inputs = vec![FileInput { path: "gone.yaml".to_string(), content: None }];
    let err = scan_files(&inputs).unwrap_err();
    assert_eq!(err.path().as_str(), "gone.yaml");
    match err {
        ScanError::Io { path } => assert_eq!(path, "gone.yaml"),
        _ => unreachable!(),
    }
}

#[test]
fn first_failing_file_aborts_the_scan() {
    let good = "services:\n  a:\n    image: x:1\n";
    let inputs = vec![
        file_input("one.yaml", good),
        file_input("two.yaml", "app: {}\n"),
        file_input("three.yaml", good),
    ];
    let err = scan_files(&inputs).unwrap_err();
    match err {
        ScanError::Schema { path, issue } => {
            assert_eq!(path, "two.yaml");
            assert_eq!(issue, SchemaIssue::MissingServices);
        }
        _ => unreachable!(),
    }
}

#[test]
fn scan_aggregates_across_files_in_order() {
    let inputs = vec![
        file_input("a/compose.yaml", "services:\n  one:\n    image: img:1\n"),
        file_input("b/compose.yml", "services:\n  two:\n    image: img:2\n  three:\n    image: img:3\n"),
    ];
    let entries = scan_files(&inputs).unwrap();
    assert_eq!(entries.len(), 3);
    assert_eq!(entries[0].path, "a/compose.yaml");
    assert_eq!(entries[0].service, "one");
    assert_eq!(entries[1].path, "b/compose.yml");
    assert_eq!(entries[1].service, "two");
    assert_eq!(entries[2].service, "three");
    assert_eq!(entries[2].image, "img:3");
}

#[test]
fn tagged_values_are_looked_through() {
    let text = "services: !custom\n  a: !svc\n    image: !ref one:1\n";
    let entries = parse_yaml_text("t.yaml", text).unwrap();
    assert_eq!(entries.len(), 1);
    assert_eq!(entries[0].service, "a");
    assert_eq!(entries[0].image, "one:1");
}

#[test]
fn extract_services_on_a_handwritten_document() {
    let doc = Yaml::Dict(vec![(
        Yaml::Str("services".to_string()),
        Yaml::Dict(vec![
            (
                Yaml::Str("a".to_string()),
                Yaml::Dict(vec![(Yaml::Str("image".to_string()), Yaml::Str("x:1".to_string()))]),
            ),
            (Yaml::Str("b".to_string()), Yaml::Null),
        ]),
    )]);
    let entries = extract_services(&doc, "h.yaml").unwrap();
    assert_eq!(entries.len(), 1);
    assert_eq!(entries[0].path, "h.yaml");
    assert_eq!(entries[0].service, "a");
    assert_eq!(entries[0].image, "x:1");
}

#[test]
fn load_document_accepts_any_valid_shape() {
    assert!(load_document("x.yaml", "just a scalar").is_ok());
    assert!(load_document("x.yaml", "- a\n- b\n").is_ok());
    let err = load_document("x.yaml", "a: [1, 2\n").unwrap_err();
    assert!(matches!(err, ScanError::Parse { .. }));
}

#[test]
fn scanning_twice_yields_identical_results() {
    let inputs = vec![
        file_input("x.yaml", "services:\n  a:\n    image: i:1\n  b:\n    image: i:2\n"),
        file_input("y.yml", "services:\n  c:\n    image: i:3\n"),
    ];
    let first = scan_files(&inputs).unwrap();
    let second = scan_files(&inputs).unwrap();
    assert_eq!(first.len(), second.len());
    for (a, b) in first.iter().zip(second.iter()) {
        assert_eq!(a.path, b.path);
        assert_eq!(a.service, b.service);
        assert_eq!(a.image, b.image);
    }
}
