use intentdiff::{ResourceRef, Snapshot, SnapshotDocument, SnapshotParseError, YamlEntry, YamlParseFailure, YamlValue};

fn snapshot_new(source: &str, raw_content: &str) -> Result<Snapshot, SnapshotParseError> {
    Snapshot::new(source.into(), raw_content.into())
}

fn snapshot_with(content: &str) -> Snapshot {
    snapshot_new("test.yaml", content).expect("snapshot should parse")
}

#[test]
fn parses_multiple_yaml_documents() {
    let snapshot = snapshot_with("---\nkind: Service\n---\nkind: Deployment\n");

    assert_eq!(snapshot.documents().len(), 2);
}

#[test]
fn recursively_finds_keys() {
    let snapshot = snapshot_with("spec:\n  template:\n    spec:\n      volumes:\n        - emptyDir: {}\n");

    assert!(snapshot.any_key_named("emptyDir"));
}

#[test]
fn recursively_matches_bool_values() {
    let snapshot = snapshot_with("ingress:\n  tls: true\n");

    assert!(snapshot.any_bool_value_for_key("tls", true));
    assert!(!snapshot.any_bool_value_for_key("tls", false));
}

#[test]
fn invalid_yaml_returns_contextual_error() {
    let error = snapshot_new("broken.yaml", "tls: [").expect_err("snapshot parsing should fail");

    assert!(error.to_string().contains("broken.yaml"));
    assert!(error.to_string().contains("document 0"));
}

#[test]
fn parse_error_keeps_path_index_and_message() {
    let failure = YamlParseFailure { document_index: 3, message: "bad indent".into() };
    let error = Snapshot::from_parsed("x.yaml".into(), "raw".into(), Err(failure)).expect_err("should fail");

    assert_eq!(error.to_string(), "failed to parse YAML document 3 in x.yaml: bad indent");
    match error {
        SnapshotParseError::InvalidYaml { path, document_index, message } => {
            assert_eq!(path, "x.yaml");
            assert_eq!(document_index, 3);
            assert_eq!(message, "bad indent");
        }
    }
}

#[test]
fn snapshot_keeps_source_and_numbers_documents() {
    let snapshot = snapshot_new("env.yaml", "---\nkind: Service\n---\nkind: Deployment\n").expect("snapshot should parse");

    assert_eq!(snapshot.source_path(), "env.yaml");
    assert_eq!(snapshot.source, "env.yaml");
    assert_eq!(snapshot.raw_content, "---\nkind: Service\n---\nkind: Deployment\n");
    assert_eq!(snapshot.documents()[1].document_index(), 1);
    assert_eq!(snapshot.documents()[1].kind().map(|k| k.as_str()), Some("Deployment"));
    assert!(snapshot.documents()[0].is_kind("Service"));
}

#[test]
fn document_paths_and_resource_refs() {
    let snapshot = snapshot_with(
        "kind: Deployment\nmetadata:\n  name: web\n  namespace: prod\nspec:\n  replicas: 2\n  paused: false\n  strategy: Recreate\n  list: [1, 2]\n",
    );
    let document = &snapshot.documents()[0];

    assert_eq!(document.integer_at_path(&["spec", "replicas"]), Some(2));
    assert_eq!(document.bool_at_path(&["spec", "paused"]), Some(false));
    assert_eq!(document.string_at_path(&["spec", "strategy"]).map(|s| s.as_str()), Some("Recreate"));
    assert_eq!(document.sequence_at_path(&["spec", "list"]).map(|s| s.len()), Some(2));
    assert!(document.value_at_path(&["spec", "missing"]).is_none());
    assert!(document.contains_key("replicas"));
    assert!(document.key_has_bool_value("paused", false));
    assert_eq!(
        document.resource_ref(),
        ResourceRef {
            document_index: 0,
            kind: Some("Deployment".into()),
            name: Some("web".into()),
            namespace: Some("prod".into()),
        }
    );
    assert_eq!(document.display_name(), "Deployment/web");
}

#[test]
fn unnamed_documents_are_labelled_by_position() {
    let document = SnapshotDocument::new(4, YamlValue::Mapping(vec![YamlEntry {
        key: YamlValue::String("kind".into()),
        value: YamlValue::String("ConfigMap".into()),
    }]));

    assert_eq!(document.display_name(), "ConfigMap #4");
    assert!(matches!(document.root(), YamlValue::Mapping(_)));
    let bare = SnapshotDocument::new(0, YamlValue::Null);
    assert_eq!(bare.display_name(), "document #0");
}

#[test]
fn tags_are_seen_through_on_leaves_only() {
    let snapshot = snapshot_with("spec: !custom\n  tls: true\nflag: !mark true\n");
    let document = &snapshot.documents()[0];

    assert_eq!(document.bool_at_path(&["flag"]), Some(true));
    assert_eq!(document.bool_at_path(&["spec", "tls"]), None);
    assert!(document.contains_key("spec"));
    assert!(!document.contains_key("tls"));
}

#[test]
fn parsed_documents_hold_the_yaml_trees() {
    let snapshot = snapshot_with("kind: Service\nport: 80\nratio: 0.5\nlist: [true, ~]\n---\n!tag x\n");
    let documents = snapshot.documents();

    assert_eq!(documents.len(), 2);
    assert_eq!(
        documents[0].root(),
        &YamlValue::Mapping(vec![
            YamlEntry { key: YamlValue::String("kind".into()), value: YamlValue::String("Service".into()) },
            YamlEntry { key: YamlValue::String("port".into()), value: YamlValue::Number(Some(80)) },
            YamlEntry { key: YamlValue::String("ratio".into()), value: YamlValue::Number(None) },
            YamlEntry {
                key: YamlValue::String("list".into()),
                value: YamlValue::Sequence(vec![YamlValue::Bool(true), YamlValue::Null]),
            },
        ])
    );
    assert_eq!(
        documents[1].root(),
        &YamlValue::Tagged("!tag".into(), Box::new(YamlValue::String("x".into())))
    );
}

#[test]
fn repeated_keys_are_refused_with_the_document_position() {
    let error = snapshot_new("dup.yaml", "---\na: 1\n---\nb: 1\nb: 2\n").expect_err("duplicate key should fail");

    match &error {
        SnapshotParseError::InvalidYaml { path, document_index, message } => {
            assert_eq!(path, "dup.yaml");
            assert_eq!(*document_index, 1);
            assert!(message.contains("duplicate"));
        }
    }
}

#[test]
fn from_parsed_numbers_given_trees() {
    let snapshot = Snapshot::from_parsed("given.yaml".into(), "".into(), Ok(vec![YamlValue::Null, YamlValue::Bool(true)]))
        .expect("trees should build a snapshot");

    assert_eq!(snapshot.documents().len(), 2);
    assert_eq!(snapshot.documents()[1].document_index(), 1);
    assert_eq!(snapshot.documents()[1].root(), &YamlValue::Bool(true));
}
