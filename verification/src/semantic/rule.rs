//! Rules detect facts. They inspect a document, emit an observation value, and
//! provide metadata that later layers can use for reporting.

use vstd::prelude::*;
use crate::semantic::observation::{ObservationValue, ObservationValueView};
use crate::semantic::rule_id::RuleId;
use crate::semantic::signal::SignalCategory;
use crate::snapshot::SnapshotDocument;

verus! {

/// What a rule says about itself.
pub struct RuleMeta {
    pub id: RuleId,
    pub category: SignalCategory,
    pub title: &'static str,
    pub rationale: &'static str,
}

/// What a rule observed in one document.
#[derive(Debug)]
pub struct RuleObservation {
    pub value: ObservationValue,
    pub description: String,
}

/// The mathematical content of a `RuleObservation`.
pub struct RuleObservationView {
    pub value: ObservationValueView,
    pub description: Seq<char>,
}

impl View for RuleObservation {
    type V = RuleObservationView;

    open spec fn view(&self) -> RuleObservationView {
        RuleObservationView { value: self.value@, description: self.description@ }
    }
}

/// The content of an optional observation.
pub open spec fn opt_observation_view(o: Option<RuleObservation>) -> Option<RuleObservationView> {
    match o {
        Some(obs) => Some(obs@),
        None => None,
    }
}

/// A rule: metadata, and an observation (or none) for each document.
pub trait Rule {
    spec fn spec_meta(&self) -> RuleMeta;

    spec fn spec_evaluate(&self, document: SnapshotDocument) -> Option<RuleObservationView>;

    fn meta(&self) -> (r: RuleMeta)
        ensures
            r == self.spec_meta(),
    ;

    fn evaluate(&self, document: &SnapshotDocument) -> (r: Option<RuleObservation>)
        ensures
            opt_observation_view(r) == self.spec_evaluate(*document),
    ;
}

} // verus!
