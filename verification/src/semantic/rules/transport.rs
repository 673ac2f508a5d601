//! Whether traffic to a resource is encrypted.

use vstd::prelude::*;
use vstd::string::StringExecFns;
use crate::semantic::observation::{ObservationValue, ObservationValueView};
use crate::semantic::rule::{Rule, RuleMeta, RuleObservation, RuleObservationView};
use crate::semantic::rule_id::{RuleId, transport_tls_enabled_id};
use crate::semantic::signal::SignalCategory;
use crate::snapshot::{SnapshotDocument, spec_display_name, spec_is_kind, spec_kind};
use crate::yaml::{spec_bool_at_path, spec_key_has_bool_value, spec_sequence_at_path, path_view};

verus! {

/// Observes whether a resource enables TLS.
pub struct TlsEnabledRule;

/// The TLS setting the document states: `tls` at the root, then `spec.tls`,
/// then any `tls: true`, then any `tls: false`.
pub open spec fn spec_explicit_tls_state(d: SnapshotDocument) -> Option<bool> {
    if spec_bool_at_path(d.spec_value(), seq!["tls"@]) is Some {
        spec_bool_at_path(d.spec_value(), seq!["tls"@])
    } else if spec_bool_at_path(d.spec_value(), seq!["spec"@, "tls"@]) is Some {
        spec_bool_at_path(d.spec_value(), seq!["spec"@, "tls"@])
    } else if spec_key_has_bool_value(d.spec_value(), "tls"@, true) {
        Some(true)
    } else if spec_key_has_bool_value(d.spec_value(), "tls"@, false) {
        Some(false)
    } else {
        None
    }
}

/// The TLS setting an Ingress implies: enabled when `spec.tls` is a non-empty list.
pub open spec fn spec_inferred_tls_state(d: SnapshotDocument) -> Option<bool> {
    if spec_is_kind(d, "Ingress"@) {
        Some(spec_sequence_at_path(d.spec_value(), seq!["spec"@, "tls"@]) matches Some(entries)
            && entries.len() > 0)
    } else {
        None
    }
}

/// The TLS setting of a document: what it states, else what its kind implies.
pub open spec fn spec_tls_state(d: SnapshotDocument) -> Option<bool> {
    if spec_explicit_tls_state(d) is Some {
        spec_explicit_tls_state(d)
    } else {
        spec_inferred_tls_state(d)
    }
}

/// What the TLS rule says about itself.
pub open spec fn spec_tls_meta() -> RuleMeta {
    RuleMeta {
        id: transport_tls_enabled_id(),
        category: SignalCategory::Transport,
        title: "TLS behavior",
        rationale: "TLS drift changes whether edge traffic is encrypted in transit.",
    }
}

/// What the TLS rule observes of a document.
pub open spec fn spec_tls_observation(d: SnapshotDocument) -> Option<RuleObservationView> {
    match spec_tls_state(d) {
        Some(true) => Some(RuleObservationView {
            value: ObservationValueView::Bool(true),
            description: spec_display_name(d) + " enables TLS"@,
        }),
        Some(false) => Some(RuleObservationView {
            value: ObservationValueView::Bool(false),
            description: spec_display_name(d) + " disables TLS"@,
        }),
        None => None,
    }
}

fn explicit_tls_state(document: &SnapshotDocument) -> (r: Option<bool>)
    ensures
        r == spec_explicit_tls_state(*document),
{
    let root_path = ["tls"];
    let spec_path = ["spec", "tls"];
    assert(path_view(root_path@) == seq!["tls"@]);
    assert(path_view(spec_path@) == seq!["spec"@, "tls"@]);
    if let Some(value) = document.bool_at_path(&root_path) {
        return Some(value);
    }
    if let Some(value) = document.bool_at_path(&spec_path) {
        return Some(value);
    }
    if document.key_has_bool_value("tls", true) {
        Some(true)
    } else if document.key_has_bool_value("tls", false) {
        Some(false)
    } else {
        None
    }
}

fn inferred_tls_state(document: &SnapshotDocument) -> (r: Option<bool>)
    ensures
        r == spec_inferred_tls_state(*document),
{
    if document.is_kind("Ingress") {
        let path = ["spec", "tls"];
        assert(path_view(path@) == seq!["spec"@, "tls"@]);
        return Some(match document.sequence_at_path(&path) {
            Some(entries) => entries.len() > 0,
            None => false,
        });
    }
    None
}

impl Rule for TlsEnabledRule {
    open spec fn spec_meta(&self) -> RuleMeta {
        spec_tls_meta()
    }

    open spec fn spec_evaluate(&self, document: SnapshotDocument) -> Option<RuleObservationView> {
        spec_tls_observation(document)
    }

    fn meta(&self) -> (r: RuleMeta) {
        RuleMeta {
            id: RuleId::TRANSPORT_TLS_ENABLED(),
            category: SignalCategory::Transport,
            title: "TLS behavior",
            rationale: "TLS drift changes whether edge traffic is encrypted in transit.",
        }
    }

    fn evaluate(&self, document: &SnapshotDocument) -> (r: Option<RuleObservation>) {
        let state = match explicit_tls_state(document) {
            Some(state) => Some(state),
            None => inferred_tls_state(document),
        };
        match state {
            Some(true) => {
                let mut description = document.display_name();
                description.append(" enables TLS");
                Some(RuleObservation { value: ObservationValue::Bool(true), description })
            },
            Some(false) => {
                let mut description = document.display_name();
                description.append(" disables TLS");
                Some(RuleObservation { value: ObservationValue::Bool(false), description })
            },
            None => None,
        }
    }
}

/// The TLS rule observes `Bool(b)` with the description "enables TLS" or
/// "disables TLS" to match. It takes `b` from the first of these that holds:
/// a boolean `tls` at the root; a boolean `spec.tls`; some `tls: true` entry
/// anywhere in the document (then `b` is true); some `tls: false` entry
/// anywhere (then `b` is false). A document with none of these is observed
/// only when it is an Ingress, as enabling TLS exactly when `spec.tls` is a
/// non-empty list.
pub proof fn lemma_tls_precedence(d: SnapshotDocument)
    ensures
        ({
            let v = d.spec_value();
            let root = spec_bool_at_path(v, seq!["tls"@]);
            let nested = spec_bool_at_path(v, seq!["spec"@, "tls"@]);
            let any_true = spec_key_has_bool_value(v, "tls"@, true);
            let any_false = spec_key_has_bool_value(v, "tls"@, false);
            let observed = |b: bool| Some(RuleObservationView {
                value: ObservationValueView::Bool(b),
                description: spec_display_name(d) + if b { " enables TLS"@ } else { " disables TLS"@ },
            });
            &&& root matches Some(b) ==> TlsEnabledRule.spec_evaluate(d) == observed(b)
            &&& root is None ==> (nested matches Some(b) ==> TlsEnabledRule.spec_evaluate(d) == observed(b))
            &&& root is None && nested is None && any_true ==> TlsEnabledRule.spec_evaluate(d) == observed(true)
            &&& root is None && nested is None && !any_true && any_false
                ==> TlsEnabledRule.spec_evaluate(d) == observed(false)
            &&& root is None && nested is None && !any_true && !any_false ==> {
                &&& TlsEnabledRule.spec_evaluate(d) is Some <==> spec_kind(d) == Some("Ingress"@)
                &&& spec_kind(d) == Some("Ingress"@) ==> TlsEnabledRule.spec_evaluate(d) == observed(
                    spec_sequence_at_path(v, seq!["spec"@, "tls"@]) matches Some(entries) && entries.len() > 0)
            }
        }),
{
}

} // verus!
