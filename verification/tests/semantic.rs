use intentdiff::{
    BasicAnalyzer, BuiltinRule, Engine, Profile, RuleId, SemanticAnalyzer, SignalCategory, Snapshot,
    SnapshotParseError,
};

fn snapshot_new(source: &str, raw_content: &str) -> Result<Snapshot, SnapshotParseError> {
    Snapshot::new(source.into(), raw_content.into())
}

fn snapshot_with(content: &str) -> Snapshot {
    snapshot_new("test.yaml", content).expect("snapshot should parse")
}

#[test]
fn analyzer_emits_multiple_signals_when_multiple_rules_trigger() {
    let analyzer = BasicAnalyzer::new(vec![BuiltinRule::EmptyDir, BuiltinRule::TlsEnabled]);

    let snapshot = snapshot_with(
        r#"
            volumes:
              - emptyDir: {}
            tls: true
            "#,
    );

    let signals = analyzer.analyze(&snapshot);

    assert_eq!(signals.len(), 2);
    let tls_signal = signals
        .iter()
        .find(|s| s.rule_id == RuleId::TRANSPORT_TLS_ENABLED())
        .expect("TLS signal missing");

    assert_eq!(tls_signal.category, SignalCategory::Transport);
    assert_eq!(tls_signal.resource.document_index, 0);
}

#[test]
fn analyzer_emits_only_relevant_signals() {
    let analyzer = BasicAnalyzer::new(vec![BuiltinRule::EmptyDir, BuiltinRule::TlsEnabled]);

    let snapshot = snapshot_with("tls: true");

    let signals = analyzer.analyze(&snapshot);

    assert_eq!(signals.len(), 1);
    assert_eq!(signals[0].rule_id, RuleId::TRANSPORT_TLS_ENABLED());
}

#[test]
fn analyzer_emits_one_signal_per_matching_document() {
    let analyzer = BasicAnalyzer::new(vec![BuiltinRule::TlsEnabled]);

    let snapshot = snapshot_with(
        "---\nkind: Service\nmetadata:\n  name: api\nspec:\n  tls: true\n---\nkind: Service\nmetadata:\n  name: admin\nspec:\n  tls: true\n",
    );

    let signals = analyzer.analyze(&snapshot);

    assert_eq!(signals.len(), 2);
    assert_eq!(signals[0].resource.name.as_deref(), Some("api"));
    assert_eq!(signals[1].resource.name.as_deref(), Some("admin"));
}

#[test]
fn analyzer_stamps_source_and_rule_order() {
    let analyzer = BasicAnalyzer::new(vec![BuiltinRule::TlsEnabled, BuiltinRule::PublicExposure]);
    let snapshot = snapshot_new("prod.yaml", "kind: Service\nmetadata:\n  name: api\nspec:\n  tls: true\n")
        .expect("snapshot should parse");

    let signals = analyzer.analyze(&snapshot);

    assert_eq!(signals.len(), 2);
    assert_eq!(signals[0].rule_id, RuleId::TRANSPORT_TLS_ENABLED());
    assert_eq!(signals[1].rule_id, RuleId::NETWORK_EXPOSURE_PUBLIC());
    assert_eq!(signals[0].source_path, "prod.yaml");
    assert_eq!(signals[0].description, "Service/api enables TLS");
}

#[test]
fn k8s_web_profile_contains_expected_rules() {
    let profile = Profile::k8s_web();
    assert_eq!(profile.rules().len(), 2);
}

#[test]
fn profiles_are_found_by_name() {
    let profile = Profile::from_name("k8s-web").expect("profile should exist");
    assert_eq!(profile.name, "k8s-web");
    assert_eq!(profile.rules(), &vec![BuiltinRule::EmptyDir, BuiltinRule::TlsEnabled]);
    assert!(Profile::from_name("api-gateway").is_none());
}

#[test]
fn engine_diff_detects_rule_difference() {
    let analyzer = BasicAnalyzer::new(vec![BuiltinRule::EmptyDir, BuiltinRule::TlsEnabled]);

    let engine = Engine::new(analyzer);

    let left = snapshot_new("left.yaml", "volumes:\n  - emptyDir: {}\n").expect("left snapshot should parse");
    let right = snapshot_new("right.yaml", "tls: true").expect("right snapshot should parse");

    let result = engine.run(left, right);

    assert_eq!(result.diff.removed[0].rule_id, RuleId::PERSISTENCE_EMPTYDIR());
    assert_eq!(result.diff.added[0].rule_id, RuleId::TRANSPORT_TLS_ENABLED());

    assert!(result.diff.changed.is_empty());
    assert_eq!(result.policy.findings.len(), 2);
}

#[test]
fn same_snapshot_on_both_sides_reports_nothing() {
    let engine = Profile::k8s_web().build_engine();
    let text = "kind: Ingress\nmetadata:\n  name: edge\nspec:\n  tls:\n    - secretName: cert\n";
    let left = snapshot_new("dev.yaml", text).expect("snapshot should parse");
    let right = snapshot_new("prod.yaml", text).expect("snapshot should parse");

    let result = engine.run(left, right);

    assert!(result.diff.added.is_empty());
    assert!(result.diff.removed.is_empty());
    assert!(result.diff.changed.is_empty());
    assert!(result.policy.findings.is_empty());
}

#[test]
fn profile_engine_reports_tls_drift_as_critical() {
    let engine = Profile::k8s_web().build_engine();
    let left = snapshot_new("dev.yaml", "kind: Service\nmetadata:\n  name: api\nspec:\n  tls: false\n")
        .expect("snapshot should parse");
    let right = snapshot_new("prod.yaml", "kind: Service\nmetadata:\n  name: api\nspec:\n  tls: true\n")
        .expect("snapshot should parse");

    let result = engine.run(left, right);

    assert_eq!(result.diff.changed.len(), 1);
    assert_eq!(result.policy.findings.len(), 1);
    assert_eq!(result.policy.findings[0].message, "TLS behavior differs for Service/api: false -> true");
    assert!(result.policy.meets_or_exceeds(intentdiff::Severity::Critical));
}

#[test]
fn analyzer_runs_any_rule_type() {
    let analyzer = BasicAnalyzer::new(vec![intentdiff::semantic::rules::transport::TlsEnabledRule]);
    let snapshot = snapshot_with("tls: false");

    let signals = analyzer.analyze(&snapshot);

    assert_eq!(signals.len(), 1);
    assert_eq!(signals[0].value, intentdiff::ObservationValue::Bool(false));
}
