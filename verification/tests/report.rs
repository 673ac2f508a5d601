use intentdiff::report::append_findings;
use intentdiff::{
    render_markdown, render_terminal, AnalysisResult, DiffResult, PolicyFinding, PolicyReport, RuleId,
    Severity,
};

fn result_with(severity: Severity) -> AnalysisResult {
    AnalysisResult {
        diff: DiffResult { added: vec![], removed: vec![], changed: vec![] },
        policy: PolicyReport {
            findings: vec![PolicyFinding {
                rule_id: RuleId::TRANSPORT_TLS_ENABLED(),
                severity,
                message: "TLS differs".into(),
                rationale: "TLS drift changes whether edge traffic is encrypted in transit.",
            }],
        },
    }
}

#[test]
fn terminal_renderer_groups_findings_by_severity() {
    let rendered = render_terminal(&result_with(Severity::Critical));

    assert!(rendered.contains("Intent drift detected"));
    assert!(rendered.contains("CRITICAL:"));
    assert!(rendered.contains("TLS differs"));
    assert!(rendered.contains("why: TLS drift"));
}

#[test]
fn markdown_renderer_uses_markdown_headings() {
    let rendered = render_markdown(&result_with(Severity::Warning));

    assert!(rendered.contains("## Intent Drift Detected"));
    assert!(rendered.contains("### WARNING"));
    assert!(rendered.contains("Why: TLS drift"));
}

#[test]
fn empty_report_renders_fixed_sentence() {
    let result = AnalysisResult {
        diff: DiffResult { added: vec![], removed: vec![], changed: vec![] },
        policy: PolicyReport { findings: vec![] },
    };

    assert_eq!(render_terminal(&result), "No intent drift detected");
    assert_eq!(render_markdown(&result), "No intent drift detected");
}

#[test]
fn terminal_rendering_is_exact() {
    let rendered = render_terminal(&result_with(Severity::Critical));

    assert_eq!(
        rendered,
        "Intent drift detected\n\nCRITICAL:\n- TLS differs\n  why: TLS drift changes whether edge traffic is encrypted in transit.\n"
    );
}

#[test]
fn groups_appear_from_critical_to_informational() {
    let report = PolicyReport {
        findings: vec![
            PolicyFinding { rule_id: RuleId::AUTH_MODE(), severity: Severity::Informational, message: "a".into(), rationale: "ra" },
            PolicyFinding { rule_id: RuleId::TRANSPORT_TLS_ENABLED(), severity: Severity::Critical, message: "b".into(), rationale: "rb" },
        ],
    };
    let mut output = String::new();
    append_findings(&mut output, &report, true);

    assert_eq!(output, "\n### CRITICAL\n- b\n  Why: rb\n\n### INFORMATIONAL\n- a\n  Why: ra\n");
}
