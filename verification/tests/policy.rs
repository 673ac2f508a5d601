use intentdiff::policy::{rule_label, severity_for_rule};
use intentdiff::{
    diff_observations, DefaultPolicyEvaluator, IntentObservation, ObservationValue, PolicyEvaluator,
    PolicyFinding, PolicyReport, ResourceRef, RuleId, Severity, SignalCategory, SignalStrength,
};

fn observation(rule_id: RuleId, source_path: &str, value: ObservationValue) -> IntentObservation {
    IntentObservation {
        rule_id,
        resource: ResourceRef {
            document_index: 0,
            kind: Some("Service".into()),
            name: Some("api".into()),
            namespace: Some("default".into()),
        },
        category: SignalCategory::Transport,
        value,
        description: "test".into(),
        source_path: source_path.into(),
    }
}

fn finding(rule_id: RuleId, severity: Severity) -> PolicyFinding {
    PolicyFinding { rule_id, severity, message: "test".into(), rationale: "" }
}

#[test]
fn changed_tls_observation_is_classified_as_critical() {
    let left = vec![observation(
        RuleId::TRANSPORT_TLS_ENABLED(),
        "dev.yaml",
        ObservationValue::Bool(false),
    )];
    let right = vec![observation(
        RuleId::TRANSPORT_TLS_ENABLED(),
        "prod.yaml",
        ObservationValue::Bool(true),
    )];

    let diff = diff_observations(&left, &right);
    let report = DefaultPolicyEvaluator.evaluate(&diff);

    assert_eq!(report.findings.len(), 1);
    assert_eq!(report.findings[0].severity, SignalStrength::Critical);
    assert!(report.findings[0].message.contains("false -> true"));
}

#[test]
fn highest_severity_respects_thresholds() {
    let report = PolicyReport {
        findings: vec![PolicyFinding {
            rule_id: RuleId::PERSISTENCE_EMPTYDIR(),
            severity: SignalStrength::Warning,
            message: "test".into(),
            rationale: "",
        }],
    };

    assert!(report.meets_or_exceeds(SignalStrength::Informational));
    assert!(report.meets_or_exceeds(SignalStrength::Warning));
    assert!(!report.meets_or_exceeds(SignalStrength::Critical));
}

#[test]
fn change_message_names_rule_resource_and_values() {
    let left = vec![observation(RuleId::TRANSPORT_TLS_ENABLED(), "dev.yaml", ObservationValue::Bool(false))];
    let right = vec![observation(RuleId::TRANSPORT_TLS_ENABLED(), "prod.yaml", ObservationValue::Bool(true))];

    let report = DefaultPolicyEvaluator.evaluate(&diff_observations(&left, &right));

    assert_eq!(report.findings[0].message, "TLS behavior differs for Service/api: false -> true");
    assert_eq!(report.findings[0].rule_id, RuleId::TRANSPORT_TLS_ENABLED());
    assert_eq!(
        report.findings[0].rationale,
        "TLS drift changes whether edge traffic is encrypted in transit."
    );
}

#[test]
fn presence_message_names_the_snapshot() {
    let left = vec![];
    let right = vec![observation(
        RuleId::PERSISTENCE_EMPTYDIR(),
        "prod.yaml",
        ObservationValue::Keyword("empty_dir"),
    )];

    let report = DefaultPolicyEvaluator.evaluate(&diff_observations(&left, &right));

    assert_eq!(report.findings.len(), 1);
    assert_eq!(report.findings[0].severity, Severity::Warning);
    assert_eq!(
        report.findings[0].message,
        "emptyDir usage is only present in prod.yaml for Service/api: empty_dir"
    );
}

#[test]
fn findings_are_ranked_most_severe_first() {
    let left = vec![observation(RuleId::NETWORK_EXPOSURE_PUBLIC(), "dev.yaml", ObservationValue::Keyword("public"))];
    let right = vec![
        observation(RuleId::PERSISTENCE_EMPTYDIR(), "prod.yaml", ObservationValue::Bool(true)),
        observation(RuleId::TRANSPORT_TLS_ENABLED(), "prod.yaml", ObservationValue::Bool(true)),
    ];

    let report = DefaultPolicyEvaluator.evaluate(&diff_observations(&left, &right));

    assert_eq!(report.findings.len(), 3);
    assert_eq!(report.findings[0].severity, Severity::Critical);
    assert_eq!(report.findings[1].severity, Severity::Warning);
    assert_eq!(report.findings[2].severity, Severity::Informational);
    assert_eq!(report.findings[2].rule_id, RuleId::NETWORK_EXPOSURE_PUBLIC());
    assert_eq!(report.highest_severity(), Some(Severity::Critical));
}

#[test]
fn empty_report_has_no_highest_severity() {
    let report = PolicyReport { findings: vec![] };

    assert_eq!(report.highest_severity(), None);
    assert!(!report.meets_or_exceeds(Severity::Informational));
}

#[test]
fn highest_severity_is_the_maximum() {
    let report = PolicyReport {
        findings: vec![
            finding(RuleId::AUTH_MODE(), Severity::Informational),
            finding(RuleId::TRANSPORT_TLS_ENABLED(), Severity::Critical),
            finding(RuleId::PERSISTENCE_EMPTYDIR(), Severity::Warning),
        ],
    };

    assert_eq!(report.highest_severity(), Some(Severity::Critical));
    assert!(report.meets_or_exceeds(Severity::Critical));
}

#[test]
fn severities_and_labels_by_rule() {
    assert_eq!(severity_for_rule(RuleId::TRANSPORT_TLS_ENABLED()), Severity::Critical);
    assert_eq!(severity_for_rule(RuleId::PERSISTENCE_EMPTYDIR()), Severity::Warning);
    assert_eq!(severity_for_rule(RuleId::AUTH_MODE()), Severity::Critical);
    assert_eq!(severity_for_rule(RuleId::NETWORK_EXPOSURE_PUBLIC()), Severity::Informational);
    assert_eq!(rule_label(RuleId::TRANSPORT_TLS_ENABLED()), "TLS behavior");
    assert_eq!(rule_label(RuleId::PERSISTENCE_EMPTYDIR()), "emptyDir usage");
    assert_eq!(rule_label(RuleId::AUTH_MODE()), "auth.mode");
}

#[test]
fn authentication_drift_is_critical() {
    let left = vec![observation(RuleId::AUTH_MODE(), "dev.yaml", ObservationValue::Keyword("none"))];
    let right = vec![observation(RuleId::AUTH_MODE(), "prod.yaml", ObservationValue::Keyword("oidc"))];

    let report = DefaultPolicyEvaluator.evaluate(&diff_observations(&left, &right));

    assert_eq!(report.findings.len(), 1);
    assert_eq!(report.findings[0].severity, Severity::Critical);
    assert_eq!(report.findings[0].message, "auth.mode differs for Service/api: none -> oidc");
}
