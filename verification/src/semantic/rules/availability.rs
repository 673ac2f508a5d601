//! How many replicas a workload asks for.

use vstd::prelude::*;
use vstd::string::StringExecFns;
use crate::semantic::observation::{ObservationValue, ObservationValueView};
use crate::semantic::rule::{Rule, RuleMeta, RuleObservation, RuleObservationView};
use crate::semantic::rule_id::{RuleId, availability_replica_posture_id};
use crate::semantic::signal::SignalCategory;
use crate::snapshot::{SnapshotDocument, spec_display_name, spec_kind};
use crate::text::string_is;
use crate::yaml::{spec_integer_at_path, path_view};

verus! {

/// Observes whether a replicated workload is scaled to zero, single or replicated.
pub struct ReplicaPostureRule;

/// The kinds that carry `spec.replicas`.
pub open spec fn is_replicated_kind(kind: Seq<char>) -> bool {
    kind == "Deployment"@ || kind == "StatefulSet"@ || kind == "ReplicaSet"@
}

/// The replica count a workload asks for: `spec.replicas`, 1 when absent.
pub open spec fn spec_replicas(d: SnapshotDocument) -> i64 {
    match spec_integer_at_path(d.spec_value(), seq!["spec"@, "replicas"@]) {
        Some(n) => n,
        None => 1,
    }
}

/// The posture word for a replica count.
pub open spec fn spec_replica_posture(replicas: i64) -> Seq<char> {
    if replicas <= 0 {
        "scaled_to_zero"@
    } else if replicas == 1 {
        "single_replica"@
    } else {
        "replicated"@
    }
}

/// What the replica rule says about itself.
pub open spec fn spec_replica_meta() -> RuleMeta {
    RuleMeta {
        id: availability_replica_posture_id(),
        category: SignalCategory::Availability,
        title: "Replica posture",
        rationale: "Replica drift changes baseline availability and failure tolerance.",
    }
}

/// What the replica rule observes of a document.
pub open spec fn spec_replica_observation(d: SnapshotDocument) -> Option<RuleObservationView> {
    if spec_kind(d) matches Some(k) && is_replicated_kind(k) {
        let posture = spec_replica_posture(spec_replicas(d));
        Some(RuleObservationView {
            value: ObservationValueView::Keyword(posture),
            description: spec_display_name(d) + " has a "@ + posture + " posture"@,
        })
    } else {
        None
    }
}

fn replica_posture(replicas: i64) -> (r: &'static str)
    ensures
        r@ == spec_replica_posture(replicas),
{
    if replicas <= 0 {
        "scaled_to_zero"
    } else if replicas == 1 {
        "single_replica"
    } else {
        "replicated"
    }
}

impl Rule for ReplicaPostureRule {
    open spec fn spec_meta(&self) -> RuleMeta {
        spec_replica_meta()
    }

    open spec fn spec_evaluate(&self, document: SnapshotDocument) -> Option<RuleObservationView> {
        spec_replica_observation(document)
    }

    fn meta(&self) -> (r: RuleMeta) {
        RuleMeta {
            id: RuleId::AVAILABILITY_REPLICA_POSTURE(),
            category: SignalCategory::Availability,
            title: "Replica posture",
            rationale: "Replica drift changes baseline availability and failure tolerance.",
        }
    }

    fn evaluate(&self, document: &SnapshotDocument) -> (r: Option<RuleObservation>) {
        let replicated = match document.kind() {
            Some(kind) => string_is(kind, "Deployment") || string_is(kind, "StatefulSet")
                || string_is(kind, "ReplicaSet"),
            None => false,
        };
        if !replicated {
            return None;
        }
        let path = ["spec", "replicas"];
        assert(path_view(path@) == seq!["spec"@, "replicas"@]);
        let replicas = match document.integer_at_path(&path) {
            Some(n) => n,
            None => 1,
        };
        let posture = replica_posture(replicas);
        let mut description = document.display_name();
        description.append(" has a ");
        description.append(posture);
        description.append(" posture");
        Some(RuleObservation { value: ObservationValue::Keyword(posture), description })
    }
}

/// Only Deployments, StatefulSets and ReplicaSets are observed, by the replica
/// count they ask for (`spec.replicas`, one when it is not an integer):
/// `scaled_to_zero` for a count of zero or less, `single_replica` for one,
/// `replicated` for more.
pub proof fn lemma_replica_posture_follows_count(d: SnapshotDocument)
    ensures
        ({
            let replicated_kind = spec_kind(d) == Some("Deployment"@) || spec_kind(d) == Some("StatefulSet"@)
                || spec_kind(d) == Some("ReplicaSet"@);
            let count: int = match spec_integer_at_path(d.spec_value(), seq!["spec"@, "replicas"@]) {
                Some(n) => n as int,
                None => 1,
            };
            &&& ReplicaPostureRule.spec_evaluate(d) is Some <==> replicated_kind
            &&& replicated_kind ==> ReplicaPostureRule.spec_evaluate(d)->Some_0.value
                == ObservationValueView::Keyword(
                    if count <= 0 { "scaled_to_zero"@ } else if count == 1 { "single_replica"@ } else { "replicated"@ })
        }),
{
}

} // verus!
