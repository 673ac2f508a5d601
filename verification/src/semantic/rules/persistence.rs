//! Whether a workload's storage outlives its pods.

use vstd::prelude::*;
use vstd::string::StringExecFns;
use crate::semantic::observation::{ObservationValue, ObservationValueView};
use crate::semantic::rule::{Rule, RuleMeta, RuleObservation, RuleObservationView};
use crate::semantic::rule_id::{RuleId, persistence_emptydir_id, persistence_storage_mode_id};
use crate::semantic::signal::SignalCategory;
use crate::snapshot::{SnapshotDocument, spec_display_name, spec_is_kind, spec_kind};
use crate::text::string_is;
use crate::yaml::{YamlValue, spec_contains_key, spec_mapping_get, spec_sequence_at_path,
    path_view, mapping_get};

verus! {

/// Observes whether a workload mounts an `emptyDir` volume.
pub struct EmptyDirRule;

/// Observes whether a workload's volumes are ephemeral, claimed, both or neither.
pub struct StorageModeRule;

/// The kinds whose pod template sits at `spec.template.spec`.
pub open spec fn is_templated_workload_kind(kind: Seq<char>) -> bool {
    kind == "Deployment"@ || kind == "StatefulSet"@ || kind == "DaemonSet"@
        || kind == "ReplicaSet"@ || kind == "Job"@
}

/// Whether `kind` is one of the workloads with a pod template.
pub fn templated_workload_kind(kind: &String) -> (r: bool)
    ensures
        r == is_templated_workload_kind(kind@),
{
    string_is(kind, "Deployment") || string_is(kind, "StatefulSet") || string_is(kind, "DaemonSet")
        || string_is(kind, "ReplicaSet") || string_is(kind, "Job")
}

/// The volumes of a workload: a Pod's `spec.volumes`, a templated workload's
/// `spec.template.spec.volumes`, a CronJob's job template volumes; for any
/// other document that names `volumes` somewhere, its root-level `volumes`.
pub open spec fn spec_workload_volumes(d: SnapshotDocument) -> Option<Seq<YamlValue>> {
    if spec_is_kind(d, "Pod"@) {
        spec_sequence_at_path(d.spec_value(), seq!["spec"@, "volumes"@])
    } else if spec_kind(d) matches Some(k) && is_templated_workload_kind(k) {
        spec_sequence_at_path(d.spec_value(), seq!["spec"@, "template"@, "spec"@, "volumes"@])
    } else if spec_kind(d) == Some("CronJob"@) {
        spec_sequence_at_path(d.spec_value(),
            seq!["spec"@, "jobTemplate"@, "spec"@, "template"@, "spec"@, "volumes"@])
    } else if spec_contains_key(d.spec_value(), "volumes"@) {
        spec_sequence_at_path(d.spec_value(), seq!["volumes"@])
    } else {
        None
    }
}

/// A volume is a mapping with the key `name`.
pub open spec fn volume_has(volume: YamlValue, name: Seq<char>) -> bool {
    volume matches YamlValue::Mapping(entries) && spec_mapping_get(entries@, name) is Some
}

/// Some volume of `volumes` has a source called `name`.
pub open spec fn any_volume_has(volumes: Seq<YamlValue>, name: Seq<char>) -> bool {
    exists|i: int| 0 <= i < volumes.len() && volume_has(#[trigger] volumes[i], name)
}

fn volume_uses(volume: &YamlValue, name: &str) -> (r: bool)
    ensures
        r == volume_has(*volume, name@),
{
    match volume {
        YamlValue::Mapping(entries) => mapping_get(entries, name).is_some(),
        _ => false,
    }
}

fn any_volume_uses(volumes: &Vec<YamlValue>, name: &str) -> (r: bool)
    ensures
        r == any_volume_has(volumes@, name@),
{
    let mut i: usize = 0;
    while i < volumes.len()
        invariant
            i <= volumes@.len(),
            forall|j: int| 0 <= j < i ==> !volume_has(#[trigger] volumes@[j], name@),
        decreases volumes@.len() - i,
    {
        if volume_uses(&volumes[i], name) {
            return true;
        }
        i += 1;
    }
    false
}

fn workload_volumes(document: &SnapshotDocument) -> (r: Option<&Vec<YamlValue>>)
    ensures
        r is Some <==> spec_workload_volumes(*document) is Some,
        r matches Some(items) ==> spec_workload_volumes(*document) == Some(items@),
{
    if document.is_kind("Pod") {
        let path = ["spec", "volumes"];
        assert(path_view(path@) == seq!["spec"@, "volumes"@]);
        return document.sequence_at_path(&path);
    }
    match document.kind() {
        Some(kind) => {
            if templated_workload_kind(kind) {
                let path = ["spec", "template", "spec", "volumes"];
                assert(path_view(path@) == seq!["spec"@, "template"@, "spec"@, "volumes"@]);
                return document.sequence_at_path(&path);
            }
            if string_is(kind, "CronJob") {
                let path = ["spec", "jobTemplate", "spec", "template", "spec", "volumes"];
                assert(path_view(path@)
                    == seq!["spec"@, "jobTemplate"@, "spec"@, "template"@, "spec"@, "volumes"@]);
                return document.sequence_at_path(&path);
            }
        },
        None => {},
    }
    if document.contains_key("volumes") {
        let path = ["volumes"];
        assert(path_view(path@) == seq!["volumes"@]);
        document.sequence_at_path(&path)
    } else {
        None
    }
}

/// What the emptyDir rule says about itself.
pub open spec fn spec_emptydir_meta() -> RuleMeta {
    RuleMeta {
        id: persistence_emptydir_id(),
        category: SignalCategory::Persistence,
        title: "emptyDir usage",
        rationale: "Ephemeral storage changes durability guarantees and restart behavior.",
    }
}

/// What the emptyDir rule observes of a document.
pub open spec fn spec_emptydir_observation(d: SnapshotDocument) -> Option<RuleObservationView> {
    match spec_workload_volumes(d) {
        Some(volumes) => {
            let uses = any_volume_has(volumes, "emptyDir"@);
            Some(RuleObservationView {
                value: ObservationValueView::Bool(uses),
                description: if uses {
                    spec_display_name(d) + " uses emptyDir storage"@
                } else {
                    spec_display_name(d) + " does not use emptyDir storage"@
                },
            })
        },
        None => None,
    }
}

impl Rule for EmptyDirRule {
    open spec fn spec_meta(&self) -> RuleMeta {
        spec_emptydir_meta()
    }

    open spec fn spec_evaluate(&self, document: SnapshotDocument) -> Option<RuleObservationView> {
        spec_emptydir_observation(document)
    }

    fn meta(&self) -> (r: RuleMeta) {
        RuleMeta {
            id: RuleId::PERSISTENCE_EMPTYDIR(),
            category: SignalCategory::Persistence,
            title: "emptyDir usage",
            rationale: "Ephemeral storage changes durability guarantees and restart behavior.",
        }
    }

    fn evaluate(&self, document: &SnapshotDocument) -> (r: Option<RuleObservation>) {
        let volumes = match workload_volumes(document) {
            Some(volumes) => volumes,
            None => {
                return None;
            },
        };
        let uses_empty_dir = any_volume_uses(volumes, "emptyDir");
        let mut description = document.display_name();
        if uses_empty_dir {
            description.append(" uses emptyDir storage");
        } else {
            description.append(" does not use emptyDir storage");
        }
        Some(RuleObservation { value: ObservationValue::Bool(uses_empty_dir), description })
    }
}

/// The storage mode word: `mixed`, `empty_dir`, `persistent_volume_claim` or `none`.
pub open spec fn spec_storage_mode(has_empty_dir: bool, has_pvc: bool) -> Seq<char> {
    if has_empty_dir && has_pvc {
        "mixed"@
    } else if has_empty_dir {
        "empty_dir"@
    } else if has_pvc {
        "persistent_volume_claim"@
    } else {
        "none"@
    }
}

/// What the storage-mode rule says about itself.
pub open spec fn spec_storage_meta() -> RuleMeta {
    RuleMeta {
        id: persistence_storage_mode_id(),
        category: SignalCategory::Persistence,
        title: "Storage mode",
        rationale: "Storage mode drift changes whether data is ephemeral, durable, or mixed.",
    }
}

/// What the storage-mode rule observes of a document.
pub open spec fn spec_storage_observation(d: SnapshotDocument) -> Option<RuleObservationView> {
    match spec_workload_volumes(d) {
        Some(volumes) => {
            let mode = spec_storage_mode(
                any_volume_has(volumes, "emptyDir"@),
                any_volume_has(volumes, "persistentVolumeClaim"@),
            );
            Some(RuleObservationView {
                value: ObservationValueView::Keyword(mode),
                description: spec_display_name(d) + " uses "@ + mode + " storage mode"@,
            })
        },
        None => None,
    }
}

fn storage_mode(has_empty_dir: bool, has_pvc: bool) -> (r: &'static str)
    ensures
        r@ == spec_storage_mode(has_empty_dir, has_pvc),
{
    if has_empty_dir && has_pvc {
        "mixed"
    } else if has_empty_dir {
        "empty_dir"
    } else if has_pvc {
        "persistent_volume_claim"
    } else {
        "none"
    }
}

impl Rule for StorageModeRule {
    open spec fn spec_meta(&self) -> RuleMeta {
        spec_storage_meta()
    }

    open spec fn spec_evaluate(&self, document: SnapshotDocument) -> Option<RuleObservationView> {
        spec_storage_observation(document)
    }

    fn meta(&self) -> (r: RuleMeta) {
        RuleMeta {
            id: RuleId::PERSISTENCE_STORAGE_MODE(),
            category: SignalCategory::Persistence,
            title: "Storage mode",
            rationale: "Storage mode drift changes whether data is ephemeral, durable, or mixed.",
        }
    }

    fn evaluate(&self, document: &SnapshotDocument) -> (r: Option<RuleObservation>) {
        let volumes = match workload_volumes(document) {
            Some(volumes) => volumes,
            None => {
                return None;
            },
        };
        let has_empty_dir = any_volume_uses(volumes, "emptyDir");
        let has_pvc = any_volume_uses(volumes, "persistentVolumeClaim");
        let mode = storage_mode(has_empty_dir, has_pvc);
        let mut description = document.display_name();
        description.append(" uses ");
        description.append(mode);
        description.append(" storage mode");
        Some(RuleObservation { value: ObservationValue::Keyword(mode), description })
    }
}

/// The two storage rules agree: they observe the same documents, and a
/// document uses `emptyDir` exactly when its storage mode is `empty_dir` or
/// `mixed`.
pub proof fn lemma_storage_rules_agree(d: SnapshotDocument)
    ensures
        spec_emptydir_observation(d) is Some <==> spec_storage_observation(d) is Some,
        spec_emptydir_observation(d) matches Some(e) ==> (e.value == ObservationValueView::Bool(true)
            <==> (spec_storage_observation(d)->0.value == ObservationValueView::Keyword("empty_dir"@)
                || spec_storage_observation(d)->0.value == ObservationValueView::Keyword("mixed"@))),
{
    if let Some(volumes) = spec_workload_volumes(d) {
        let e = any_volume_has(volumes, "emptyDir"@);
        let p = any_volume_has(volumes, "persistentVolumeClaim"@);
        reveal_strlit("empty_dir");
        reveal_strlit("mixed");
        reveal_strlit("persistent_volume_claim");
        reveal_strlit("none");
        assert("empty_dir"@[0] != "mixed"@[0]);
        assert("persistent_volume_claim"@[0] != "mixed"@[0]);
        assert("persistent_volume_claim"@ != "empty_dir"@);
        assert("none"@ != "mixed"@);
        assert("none"@ != "empty_dir"@);
    }
}

/// The emptyDir and storage-mode rules read a workload's pod template: for a
/// Deployment, StatefulSet, DaemonSet, ReplicaSet or Job, both observe
/// something exactly when `spec.template.spec.volumes` is a list, and then the
/// emptyDir rule observes whether some volume there is a mapping with an
/// `emptyDir` entry, and the storage-mode rule names the mix of `emptyDir` and
/// `persistentVolumeClaim` volumes found there.
pub proof fn lemma_workloads_read_template_volumes(d: SnapshotDocument)
    requires
        spec_kind(d) == Some("Deployment"@) || spec_kind(d) == Some("StatefulSet"@)
            || spec_kind(d) == Some("DaemonSet"@) || spec_kind(d) == Some("ReplicaSet"@)
            || spec_kind(d) == Some("Job"@),
    ensures
        ({
            let volumes = spec_sequence_at_path(d.spec_value(),
                seq!["spec"@, "template"@, "spec"@, "volumes"@]);
            let has = |source: Seq<char>| volumes matches Some(vs) && exists|i: int| 0 <= i < vs.len()
                && (#[trigger] vs[i] matches YamlValue::Mapping(entries)
                    && spec_mapping_get(entries@, source) is Some);
            &&& EmptyDirRule.spec_evaluate(d) is Some <==> volumes is Some
            &&& StorageModeRule.spec_evaluate(d) is Some <==> volumes is Some
            &&& volumes is Some ==> EmptyDirRule.spec_evaluate(d)->Some_0.value
                == ObservationValueView::Bool(has("emptyDir"@))
            &&& volumes is Some ==> StorageModeRule.spec_evaluate(d)->Some_0.value
                == ObservationValueView::Keyword(
                    if has("emptyDir"@) && has("persistentVolumeClaim"@) { "mixed"@ }
                    else if has("emptyDir"@) { "empty_dir"@ }
                    else if has("persistentVolumeClaim"@) { "persistent_volume_claim"@ }
                    else { "none"@ })
        }),
{
    reveal_strlit("Pod");
    reveal_strlit("Deployment");
    reveal_strlit("StatefulSet");
    reveal_strlit("DaemonSet");
    reveal_strlit("ReplicaSet");
    reveal_strlit("Job");
    assert("Pod"@[0] != "Deployment"@[0]);
    assert("Pod"@[0] != "StatefulSet"@[0]);
    assert("Pod"@[0] != "DaemonSet"@[0]);
    assert("Pod"@[0] != "ReplicaSet"@[0]);
    assert("Pod"@[0] != "Job"@[0]);
}

/// Where the volume rules look for volumes in the other documents: a Pod's
/// `spec.volumes`; a CronJob's `spec.jobTemplate.spec.template.spec.volumes`;
/// any other document that is not a templated workload, its root-level
/// `volumes` when it names `volumes` somewhere, otherwise nothing is observed.
pub proof fn lemma_other_documents_volume_paths(d: SnapshotDocument)
    ensures
        spec_kind(d) == Some("Pod"@) ==> (EmptyDirRule.spec_evaluate(d) is Some
            <==> spec_sequence_at_path(d.spec_value(), seq!["spec"@, "volumes"@]) is Some),
        spec_kind(d) == Some("CronJob"@) ==> (EmptyDirRule.spec_evaluate(d) is Some
            <==> spec_sequence_at_path(d.spec_value(),
                seq!["spec"@, "jobTemplate"@, "spec"@, "template"@, "spec"@, "volumes"@]) is Some),
        !(spec_kind(d) matches Some(k) && (k == "Pod"@ || k == "CronJob"@ || k == "Deployment"@
            || k == "StatefulSet"@ || k == "DaemonSet"@ || k == "ReplicaSet"@ || k == "Job"@))
            ==> (EmptyDirRule.spec_evaluate(d) is Some <==> (spec_contains_key(d.spec_value(), "volumes"@)
                && spec_sequence_at_path(d.spec_value(), seq!["volumes"@]) is Some)),
{
    reveal_strlit("CronJob");
    reveal_strlit("Pod");
    reveal_strlit("Deployment");
    reveal_strlit("StatefulSet");
    reveal_strlit("DaemonSet");
    reveal_strlit("ReplicaSet");
    reveal_strlit("Job");
    assert("CronJob"@[0] != "Pod"@[0]);
    assert("CronJob"@[0] != "Deployment"@[0]);
    assert("CronJob"@[0] != "StatefulSet"@[0]);
    assert("CronJob"@[0] != "DaemonSet"@[0]);
    assert("CronJob"@[0] != "ReplicaSet"@[0]);
    assert("CronJob"@.len() != "Job"@.len());
}

} // verus!
