//! The pipeline: analyze both snapshots, diff the observations, rank the drift.

use vstd::prelude::*;
use crate::diff::{DiffResult, diff_holds, diff_observations, lemma_identical_observations_have_empty_diff};
use crate::policy::{DefaultPolicyEvaluator, PolicyEvaluator, PolicyReport, finding_views,
    lemma_empty_diff_has_no_findings};
use crate::semantic::SemanticAnalyzer;
use crate::semantic::observation::IntentObservationView;
use crate::snapshot::Snapshot;

verus! {

/// An analyzer and a policy.
pub struct Engine<A, P> {
    analyzer: A,
    policy: P,
}

/// What comparing two snapshots found.
pub struct AnalysisResult {
    pub diff: DiffResult,
    pub policy: PolicyReport,
}

impl<A: SemanticAnalyzer> Engine<A, DefaultPolicyEvaluator> {
    /// An engine with the default policy.
    pub fn new(analyzer: A) -> (r: Self)
        ensures
            r.spec_analyzer() == analyzer,
    {
        Self::with_policy(analyzer, DefaultPolicyEvaluator)
    }
}

impl<A: SemanticAnalyzer, P: PolicyEvaluator> Engine<A, P> {
    pub closed spec fn spec_analyzer(&self) -> A {
        self.analyzer
    }

    pub closed spec fn spec_policy(&self) -> P {
        self.policy
    }

    /// An engine with the given analyzer and policy.
    pub fn with_policy(analyzer: A, policy: P) -> (r: Self)
        ensures
            r.spec_analyzer() == analyzer,
            r.spec_policy() == policy,
    {
        Engine { analyzer, policy }
    }

    /// Analyzes both snapshots, diffs what they show, and evaluates the diff.
    pub fn run(&self, left: Snapshot, right: Snapshot) -> (r: AnalysisResult)
        ensures
            diff_holds(self.spec_analyzer().spec_analyze(left), self.spec_analyzer().spec_analyze(right), r.diff@),
            finding_views(r.policy.findings@) == self.spec_policy().spec_evaluate(r.diff@),
    {
        let left_observations = self.analyzer.analyze(&left);
        let right_observations = self.analyzer.analyze(&right);
        let diff = diff_observations(left_observations.as_slice(), right_observations.as_slice());
        let policy = self.policy.evaluate(&diff);
        AnalysisResult { diff, policy }
    }
}

/// Two environments that show the same observations have no drift, and the
/// default policy reports nothing about them.
pub proof fn lemma_same_observations_no_findings(observations: Seq<IntentObservationView>, result: AnalysisResult)
    requires
        diff_holds(observations, observations, result.diff@),
        finding_views(result.policy.findings@) == DefaultPolicyEvaluator.spec_evaluate(result.diff@),
    ensures
        result.diff@.added.len() == 0,
        result.diff@.removed.len() == 0,
        result.diff@.changed.len() == 0,
        result.policy.findings@.len() == 0,
{
    lemma_identical_observations_have_empty_diff(observations, result.diff@);
    lemma_empty_diff_has_no_findings(result.diff@);
}

} // verus!
