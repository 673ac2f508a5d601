use intentdiff::{ObservationValue, Severity};

#[test]
fn severity_ordering_is_correct() {
    assert!(Severity::Warning > Severity::Informational);
    assert!(Severity::Critical > Severity::Warning);
    assert!(Severity::Critical > Severity::Informational);
    assert!(Severity::Informational < Severity::Warning);
    assert!(Severity::Warning < Severity::Critical);
}

#[test]
fn display_formats_uppercase_labels() {
    assert_eq!(Severity::Critical.to_string(), "CRITICAL");
    assert_eq!(Severity::Warning.to_string(), "WARNING");
    assert_eq!(Severity::Informational.to_string(), "INFORMATIONAL");
}

#[test]
fn observation_value_display_is_human_readable() {
    assert_eq!(ObservationValue::Bool(true).to_string(), "true");
    assert_eq!(ObservationValue::String("empty_dir".into()).to_string(), "empty_dir");
}

#[test]
fn keyword_and_false_display() {
    assert_eq!(ObservationValue::Bool(false).to_string(), "false");
    assert_eq!(ObservationValue::Keyword("mixed").to_string(), "mixed");
}

#[test]
fn severity_ranks_follow_the_order() {
    assert_eq!(Severity::Informational.rank(), 0);
    assert_eq!(Severity::Warning.rank(), 1);
    assert_eq!(Severity::Critical.rank(), 2);
    assert!(Severity::Critical.at_least(&Severity::Warning));
    assert!(!Severity::Informational.at_least(&Severity::Warning));
}
