use intentdiff::cli::{exit_code_for_report, exit_code_for_threshold, Cli, Format, OutputFormat, ProfileArg, SeverityArg};
use intentdiff::{PolicyFinding, PolicyReport, RuleId, Severity};

fn report(severity: Severity) -> PolicyReport {
    PolicyReport {
        findings: vec![PolicyFinding {
            rule_id: RuleId::PERSISTENCE_EMPTYDIR(),
            severity,
            message: "m".into(),
            rationale: "",
        }],
    }
}

#[test]
fn cli_accessors_return_the_choices() {
    let cli = Cli::new(
        "dev.yaml".into(),
        "prod.yaml".into(),
        ProfileArg::K8sWeb,
        Some(SeverityArg::Critical),
        OutputFormat::Markdown,
    );

    assert_eq!(cli.left(), "dev.yaml");
    assert_eq!(cli.right(), "prod.yaml");
    assert_eq!(cli.profile(), "k8s-web");
    assert_eq!(cli.fail_on(), Some(Severity::Critical));
    assert!(matches!(cli.format(), Format::Markdown));
}

#[test]
fn cli_without_threshold_and_terminal_format() {
    let cli = Cli::new("a".into(), "b".into(), ProfileArg::K8sWeb, None, OutputFormat::Terminal);

    assert_eq!(cli.fail_on(), None);
    assert!(matches!(cli.format(), Format::Terminal));
}

#[test]
fn severity_arguments_convert() {
    assert_eq!(Severity::from(SeverityArg::Informational), Severity::Informational);
    assert_eq!(Severity::from(SeverityArg::Warning), Severity::Warning);
    assert_eq!(Format::from(OutputFormat::Markdown), Format::Markdown);
    assert_eq!(ProfileArg::K8sWeb.as_str(), "k8s-web");
}

#[test]
fn exit_code_is_two_when_threshold_is_reached() {
    assert_eq!(exit_code_for_threshold(Severity::Warning), 2);
    assert_eq!(exit_code_for_report(&report(Severity::Critical), Some(Severity::Warning)), Some(2));
    assert_eq!(exit_code_for_report(&report(Severity::Warning), Some(Severity::Critical)), None);
    assert_eq!(exit_code_for_report(&report(Severity::Critical), None), None);
}
