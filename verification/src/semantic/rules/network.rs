//! Whether a resource is reachable from outside the cluster.

use vstd::prelude::*;
use vstd::string::StringExecFns;
use crate::semantic::observation::{ObservationValue, ObservationValueView};
use crate::semantic::rule::{Rule, RuleMeta, RuleObservation, RuleObservationView};
use crate::semantic::rule_id::{RuleId, network_exposure_public_id};
use crate::semantic::signal::SignalCategory;
use crate::snapshot::{SnapshotDocument, spec_display_name, spec_is_kind, spec_kind};
use crate::text::string_is;
use crate::yaml::{spec_string_at_path, path_view};

verus! {

/// Observes whether an Ingress or Service is public or internal.
pub struct PublicExposureRule;

/// The service types that expose a Service outside the cluster.
pub open spec fn is_public_service_type(t: Seq<char>) -> bool {
    t == "NodePort"@ || t == "LoadBalancer"@ || t == "ExternalName"@
}

/// `Some(true)` for public, `Some(false)` for internal, `None` when the rule
/// does not apply: an Ingress is public; a Service is public when its
/// `spec.type` (ClusterIP when absent) is a public type.
pub open spec fn spec_exposure(d: SnapshotDocument) -> Option<bool> {
    if spec_is_kind(d, "Ingress"@) {
        Some(true)
    } else if spec_is_kind(d, "Service"@) {
        let service_type = match spec_string_at_path(d.spec_value(), seq!["spec"@, "type"@]) {
            Some(t) => t,
            None => "ClusterIP"@,
        };
        Some(is_public_service_type(service_type))
    } else {
        None
    }
}

/// What the exposure rule says about itself.
pub open spec fn spec_exposure_meta() -> RuleMeta {
    RuleMeta {
        id: network_exposure_public_id(),
        category: SignalCategory::NetworkExposure,
        title: "Public exposure",
        rationale: "Exposure drift changes whether a workload is reachable from outside the cluster boundary.",
    }
}

/// What the exposure rule observes of a document.
pub open spec fn spec_exposure_observation(d: SnapshotDocument) -> Option<RuleObservationView> {
    match spec_exposure(d) {
        Some(true) => Some(RuleObservationView {
            value: ObservationValueView::Keyword("public"@),
            description: spec_display_name(d) + " is publicly exposed"@,
        }),
        Some(false) => Some(RuleObservationView {
            value: ObservationValueView::Keyword("internal"@),
            description: spec_display_name(d) + " is only internally exposed"@,
        }),
        None => None,
    }
}

fn exposure(document: &SnapshotDocument) -> (r: Option<bool>)
    ensures
        r == spec_exposure(*document),
{
    if document.is_kind("Ingress") {
        Some(true)
    } else if document.is_kind("Service") {
        let path = ["spec", "type"];
        assert(path_view(path@) == seq!["spec"@, "type"@]);
        match document.string_at_path(&path) {
            Some(t) => Some(string_is(t, "NodePort") || string_is(t, "LoadBalancer")
                || string_is(t, "ExternalName")),
            None => {
                proof {
                    reveal_strlit("ClusterIP");
                    reveal_strlit("NodePort");
                    reveal_strlit("LoadBalancer");
                    reveal_strlit("ExternalName");
                    assert("ClusterIP"@[0] != "NodePort"@[0]);
                    assert("ClusterIP"@[0] != "LoadBalancer"@[0]);
                    assert("ClusterIP"@[0] != "ExternalName"@[0]);
                }
                Some(false)
            },
        }
    } else {
        None
    }
}

impl Rule for PublicExposureRule {
    open spec fn spec_meta(&self) -> RuleMeta {
        spec_exposure_meta()
    }

    open spec fn spec_evaluate(&self, document: SnapshotDocument) -> Option<RuleObservationView> {
        spec_exposure_observation(document)
    }

    fn meta(&self) -> (r: RuleMeta) {
        RuleMeta {
            id: RuleId::NETWORK_EXPOSURE_PUBLIC(),
            category: SignalCategory::NetworkExposure,
            title: "Public exposure",
            rationale: "Exposure drift changes whether a workload is reachable from outside the cluster boundary.",
        }
    }

    fn evaluate(&self, document: &SnapshotDocument) -> (r: Option<RuleObservation>) {
        match exposure(document) {
            Some(true) => {
                let mut description = document.display_name();
                description.append(" is publicly exposed");
                Some(RuleObservation { value: ObservationValue::Keyword("public"), description })
            },
            Some(false) => {
                let mut description = document.display_name();
                description.append(" is only internally exposed");
                Some(RuleObservation { value: ObservationValue::Keyword("internal"), description })
            },
            None => None,
        }
    }
}

/// Exposure follows the resource's kind and service type: an Ingress is
/// observed as public; a Service as public exactly when `spec.type` is
/// `NodePort`, `LoadBalancer` or `ExternalName`, and as internal otherwise
/// (a Service without a type is a ClusterIP service); nothing else is observed.
/// The description says the same.
pub proof fn lemma_exposure_follows_service_type(d: SnapshotDocument)
    ensures
        spec_kind(d) == Some("Ingress"@) ==> PublicExposureRule.spec_evaluate(d) == Some(RuleObservationView {
            value: ObservationValueView::Keyword("public"@),
            description: spec_display_name(d) + " is publicly exposed"@,
        }),
        spec_kind(d) == Some("Service"@) ==> {
            let public = spec_string_at_path(d.spec_value(), seq!["spec"@, "type"@]) matches Some(t)
                && (t == "NodePort"@ || t == "LoadBalancer"@ || t == "ExternalName"@);
            PublicExposureRule.spec_evaluate(d) == Some(if public {
                RuleObservationView {
                    value: ObservationValueView::Keyword("public"@),
                    description: spec_display_name(d) + " is publicly exposed"@,
                }
            } else {
                RuleObservationView {
                    value: ObservationValueView::Keyword("internal"@),
                    description: spec_display_name(d) + " is only internally exposed"@,
                }
            })
        },
        spec_kind(d) != Some("Ingress"@) && spec_kind(d) != Some("Service"@)
            ==> PublicExposureRule.spec_evaluate(d) is None,
{
    reveal_strlit("Ingress");
    reveal_strlit("Service");
    reveal_strlit("ClusterIP");
    reveal_strlit("NodePort");
    reveal_strlit("LoadBalancer");
    reveal_strlit("ExternalName");
    assert("Ingress"@[0] != "Service"@[0]);
    assert("ClusterIP"@[0] != "NodePort"@[0]);
    assert("ClusterIP"@[0] != "LoadBalancer"@[0]);
    assert("ClusterIP"@[0] != "ExternalName"@[0]);
}

} // verus!
