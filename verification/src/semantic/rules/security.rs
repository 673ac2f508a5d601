//! Whether containers are required to run as a non-root user.

use vstd::prelude::*;
use vstd::string::StringExecFns;
use crate::semantic::observation::{ObservationValue, ObservationValueView};
use crate::semantic::rule::{Rule, RuleMeta, RuleObservation, RuleObservationView};
use crate::semantic::rule_id::{RuleId, security_run_as_non_root_id};
use crate::semantic::rules::persistence::{is_templated_workload_kind, templated_workload_kind};
use crate::semantic::signal::SignalCategory;
use crate::snapshot::{SnapshotDocument, spec_display_name, spec_is_kind, spec_kind};
use crate::text::string_is;
use crate::yaml::{YamlValue, spec_value_at_path, spec_bool_at_path, spec_sequence_at_path,
    path_view, bool_at_path, sequence_at_path};

verus! {

/// Observes whether a workload enforces `runAsNonRoot`.
pub struct RunAsNonRootRule;

/// The pod spec of a workload: a Pod's `spec`, a templated workload's
/// `spec.template.spec`, a CronJob's job template pod spec.
pub open spec fn spec_workload_pod_spec(d: SnapshotDocument) -> Option<YamlValue> {
    if spec_is_kind(d, "Pod"@) {
        spec_value_at_path(d.spec_value(), seq!["spec"@])
    } else if spec_kind(d) matches Some(k) && is_templated_workload_kind(k) {
        spec_value_at_path(d.spec_value(), seq!["spec"@, "template"@, "spec"@])
    } else if spec_kind(d) == Some("CronJob"@) {
        spec_value_at_path(d.spec_value(), seq!["spec"@, "jobTemplate"@, "spec"@, "template"@, "spec"@])
    } else {
        None
    }
}

/// The path of the run-as-non-root setting inside a security context.
pub open spec fn non_root_path() -> Seq<Seq<char>> {
    seq!["securityContext"@, "runAsNonRoot"@]
}

/// Some container sets `runAsNonRoot` to `setting` (`None`: leaves it unset).
pub open spec fn some_container_has(containers: Seq<YamlValue>, setting: Option<bool>) -> bool {
    exists|i: int| 0 <= i < containers.len()
        && spec_bool_at_path(#[trigger] containers[i], non_root_path()) == setting
}

/// The posture word: `enforced` when the pod sets `runAsNonRoot: true`;
/// `unknown` without a container list; otherwise from the containers'
/// settings: all true `enforced`, all false `not_enforced`, all unset
/// `unknown`, anything else (an empty list too) `partial`.
pub open spec fn spec_non_root_posture(pod_spec: YamlValue) -> Seq<char> {
    if spec_bool_at_path(pod_spec, non_root_path()) == Some(true) {
        "enforced"@
    } else if let Some(containers) = spec_sequence_at_path(pod_spec, seq!["containers"@]) {
        let t = some_container_has(containers, Some(true));
        let f = some_container_has(containers, Some(false));
        let m = some_container_has(containers, None);
        if t && !f && !m {
            "enforced"@
        } else if !t && f && !m {
            "not_enforced"@
        } else if !t && !f && m {
            "unknown"@
        } else {
            "partial"@
        }
    } else {
        "unknown"@
    }
}

/// What the run-as-non-root rule says about itself. Its rationale is this
/// library's own wording.
pub open spec fn spec_non_root_meta() -> RuleMeta {
    RuleMeta {
        id: security_run_as_non_root_id(),
        category: SignalCategory::Security,
        title: "Run as non-root posture",
        rationale: "Root execution drift changes what a compromised container can do on its node.",
    }
}

/// What the run-as-non-root rule observes of a document.
pub open spec fn spec_non_root_observation(d: SnapshotDocument) -> Option<RuleObservationView> {
    match spec_workload_pod_spec(d) {
        Some(pod_spec) => {
            let posture = spec_non_root_posture(pod_spec);
            Some(RuleObservationView {
                value: ObservationValueView::Keyword(posture),
                description: spec_display_name(d) + " has a "@ + posture + " run-as-non-root posture"@,
            })
        },
        None => None,
    }
}

fn workload_pod_spec(document: &SnapshotDocument) -> (r: Option<&YamlValue>)
    ensures
        r matches Some(v) ==> spec_workload_pod_spec(*document) == Some(*v),
        r is None ==> spec_workload_pod_spec(*document) is None,
{
    if document.is_kind("Pod") {
        let path = ["spec"];
        assert(path_view(path@) == seq!["spec"@]);
        return document.value_at_path(&path);
    }
    match document.kind() {
        Some(kind) => {
            if templated_workload_kind(kind) {
                let path = ["spec", "template", "spec"];
                assert(path_view(path@) == seq!["spec"@, "template"@, "spec"@]);
                return document.value_at_path(&path);
            }
            if string_is(kind, "CronJob") {
                let path = ["spec", "jobTemplate", "spec", "template", "spec"];
                assert(path_view(path@) == seq!["spec"@, "jobTemplate"@, "spec"@, "template"@, "spec"@]);
                return document.value_at_path(&path);
            }
            None
        },
        None => None,
    }
}

fn non_root_posture(pod_spec: &YamlValue) -> (r: &'static str)
    ensures
        r@ == spec_non_root_posture(*pod_spec),
{
    let setting_path = ["securityContext", "runAsNonRoot"];
    assert(path_view(setting_path@) == non_root_path());
    if bool_at_path(pod_spec, &setting_path) == Some(true) {
        return "enforced";
    }
    let containers_path = ["containers"];
    assert(path_view(containers_path@) == seq!["containers"@]);
    let containers = match sequence_at_path(pod_spec, &containers_path) {
        Some(items) => items,
        None => {
            return "unknown";
        },
    };
    let mut has_true = false;
    let mut has_false = false;
    let mut has_missing = false;
    let mut i: usize = 0;
    while i < containers.len()
        invariant
            i <= containers@.len(),
            path_view(setting_path@) == non_root_path(),
            has_true == exists|j: int| 0 <= j < i
                && spec_bool_at_path(#[trigger] containers@[j], non_root_path()) == Some(true),
            has_false == exists|j: int| 0 <= j < i
                && spec_bool_at_path(#[trigger] containers@[j], non_root_path()) == Some(false),
            has_missing == exists|j: int| 0 <= j < i
                && spec_bool_at_path(#[trigger] containers@[j], non_root_path()) is None,
        decreases containers@.len() - i,
    {
        match bool_at_path(&containers[i], &setting_path) {
            Some(true) => {
                has_true = true;
            },
            Some(false) => {
                has_false = true;
            },
            None => {
                has_missing = true;
            },
        }
        i += 1;
    }
    if has_true && !has_false && !has_missing {
        "enforced"
    } else if !has_true && has_false && !has_missing {
        "not_enforced"
    } else if !has_true && !has_false && has_missing {
        "unknown"
    } else {
        "partial"
    }
}

impl Rule for RunAsNonRootRule {
    open spec fn spec_meta(&self) -> RuleMeta {
        spec_non_root_meta()
    }

    open spec fn spec_evaluate(&self, document: SnapshotDocument) -> Option<RuleObservationView> {
        spec_non_root_observation(document)
    }

    fn meta(&self) -> (r: RuleMeta) {
        RuleMeta {
            id: RuleId::SECURITY_RUN_AS_NON_ROOT(),
            category: SignalCategory::Security,
            title: "Run as non-root posture",
            rationale: "Root execution drift changes what a compromised container can do on its node.",
        }
    }

    fn evaluate(&self, document: &SnapshotDocument) -> (r: Option<RuleObservation>) {
        let pod_spec = match workload_pod_spec(document) {
            Some(pod_spec) => pod_spec,
            None => {
                return None;
            },
        };
        let posture = non_root_posture(pod_spec);
        let mut description = document.display_name();
        description.append(" has a ");
        description.append(posture);
        description.append(" run-as-non-root posture");
        Some(RuleObservation { value: ObservationValue::Keyword(posture), description })
    }
}

/// For a workload with a pod spec (see `lemma_pod_spec_paths`), the
/// run-as-non-root posture observed is: `enforced`
/// when the pod's `securityContext.runAsNonRoot` is true. Otherwise, for a
/// non-empty container list, it follows the containers' own
/// `securityContext.runAsNonRoot`: `enforced` when every container sets it
/// true, `not_enforced` when every container sets it false, `unknown` when
/// none sets it, and `partial` when the containers differ. Without a
/// container list it is `unknown`.
pub proof fn lemma_non_root_posture_follows_settings(d: SnapshotDocument)
    requires
        spec_workload_pod_spec(d) is Some,
    ensures
        ({
            let pod = spec_workload_pod_spec(d)->Some_0;
            let setting = |c: YamlValue| spec_bool_at_path(c, seq!["securityContext"@, "runAsNonRoot"@]);
            let containers = spec_sequence_at_path(pod, seq!["containers"@]);
            let posture = |word: Seq<char>| RunAsNonRootRule.spec_evaluate(d) matches Some(o)
                && o.value == ObservationValueView::Keyword(word);
            &&& setting(pod) == Some(true) ==> posture("enforced"@)
            &&& setting(pod) != Some(true) && containers is None ==> posture("unknown"@)
            &&& setting(pod) != Some(true) ==> (containers matches Some(cs) ==> cs.len() > 0 ==> {
                &&& (forall|i: int| 0 <= i < cs.len() ==> setting(#[trigger] cs[i]) == Some(true))
                    ==> posture("enforced"@)
                &&& (forall|i: int| 0 <= i < cs.len() ==> setting(#[trigger] cs[i]) == Some(false))
                    ==> posture("not_enforced"@)
                &&& (forall|i: int| 0 <= i < cs.len() ==> setting(#[trigger] cs[i]) is None)
                    ==> posture("unknown"@)
                &&& (exists|i: int, j: int| 0 <= i < cs.len() && 0 <= j < cs.len()
                    && setting(#[trigger] cs[i]) != setting(#[trigger] cs[j])) ==> posture("partial"@)
            })
        }),
{
    let pod = spec_workload_pod_spec(d)->Some_0;
    assert(non_root_path() == seq!["securityContext"@, "runAsNonRoot"@]);
    if let Some(cs) = spec_sequence_at_path(pod, seq!["containers"@]) {
        if cs.len() > 0 {
            assert(some_container_has(cs, spec_bool_at_path(cs[0], non_root_path())));
            if exists|i: int, j: int| 0 <= i < cs.len() && 0 <= j < cs.len()
                && spec_bool_at_path(#[trigger] cs[i], non_root_path()) != spec_bool_at_path(#[trigger] cs[j], non_root_path()) {
                let (i, j) = choose|i: int, j: int| 0 <= i < cs.len() && 0 <= j < cs.len()
                    && spec_bool_at_path(#[trigger] cs[i], non_root_path()) != spec_bool_at_path(#[trigger] cs[j], non_root_path());
                assert(some_container_has(cs, spec_bool_at_path(cs[i], non_root_path())));
                assert(some_container_has(cs, spec_bool_at_path(cs[j], non_root_path())));
            }
        }
    }
}

/// Where the run-as-non-root rule finds the pod spec: a Pod's `spec`; a
/// Deployment's, StatefulSet's, DaemonSet's, ReplicaSet's or Job's
/// `spec.template.spec`; a CronJob's `spec.jobTemplate.spec.template.spec`.
/// Any other document is not observed, and a document is observed exactly
/// when its pod spec is found.
pub proof fn lemma_pod_spec_paths(d: SnapshotDocument)
    ensures
        spec_kind(d) == Some("Pod"@) ==> spec_workload_pod_spec(d)
            == spec_value_at_path(d.spec_value(), seq!["spec"@]),
        (spec_kind(d) == Some("Deployment"@) || spec_kind(d) == Some("StatefulSet"@)
            || spec_kind(d) == Some("DaemonSet"@) || spec_kind(d) == Some("ReplicaSet"@)
            || spec_kind(d) == Some("Job"@)) ==> spec_workload_pod_spec(d)
            == spec_value_at_path(d.spec_value(), seq!["spec"@, "template"@, "spec"@]),
        spec_kind(d) == Some("CronJob"@) ==> spec_workload_pod_spec(d)
            == spec_value_at_path(d.spec_value(), seq!["spec"@, "jobTemplate"@, "spec"@, "template"@, "spec"@]),
        !(spec_kind(d) matches Some(k) && (k == "Pod"@ || k == "CronJob"@ || k == "Deployment"@
            || k == "StatefulSet"@ || k == "DaemonSet"@ || k == "ReplicaSet"@ || k == "Job"@))
            ==> spec_workload_pod_spec(d) is None,
        RunAsNonRootRule.spec_evaluate(d) is Some <==> spec_workload_pod_spec(d) is Some,
{
    reveal_strlit("CronJob");
    reveal_strlit("Pod");
    reveal_strlit("Deployment");
    reveal_strlit("StatefulSet");
    reveal_strlit("DaemonSet");
    reveal_strlit("ReplicaSet");
    reveal_strlit("Job");
    assert("Pod"@[0] != "Deployment"@[0]);
    assert("Pod"@[0] != "StatefulSet"@[0]);
    assert("Pod"@[0] != "DaemonSet"@[0]);
    assert("Pod"@[0] != "ReplicaSet"@[0]);
    assert("Pod"@[0] != "Job"@[0]);
    assert("CronJob"@[0] != "Pod"@[0]);
    assert("CronJob"@[0] != "Deployment"@[0]);
    assert("CronJob"@[0] != "StatefulSet"@[0]);
    assert("CronJob"@[0] != "DaemonSet"@[0]);
    assert("CronJob"@[0] != "ReplicaSet"@[0]);
    assert("CronJob"@.len() != "Job"@.len());
}

} // verus!
