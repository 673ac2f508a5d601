//! The semantic layer: rules that observe facts, and the analyzer that runs
//! them over every document of a snapshot.

pub mod observation;
pub mod profile;
pub mod rule;
pub mod rule_id;
pub mod rules;
pub mod signal;

use vstd::prelude::*;
use crate::semantic::observation::{IntentObservation, IntentObservationView, ObservationValue,
    observation_views};
use crate::semantic::rule::{Rule, RuleMeta, RuleObservation, RuleObservationView};
use crate::semantic::rules::auth::AuthModeRule;
use crate::semantic::rules::availability::ReplicaPostureRule;
use crate::semantic::rules::network::PublicExposureRule;
use crate::semantic::rules::persistence::{EmptyDirRule, StorageModeRule};
use crate::semantic::rules::security::RunAsNonRootRule;
use crate::semantic::rules::transport::TlsEnabledRule;
use crate::snapshot::{Snapshot, SnapshotDocument, spec_resource_ref};

verus! {

/// The rules this library ships, as one type an analyzer can hold a list of.
#[derive(Debug, Clone, Copy, PartialEq, Eq)]
pub enum BuiltinRule {
    AuthMode,
    ReplicaPosture,
    PublicExposure,
    EmptyDir,
    StorageMode,
    RunAsNonRoot,
    TlsEnabled,
}

impl Rule for BuiltinRule {
    open spec fn spec_meta(&self) -> RuleMeta {
        match self {
            BuiltinRule::AuthMode => AuthModeRule.spec_meta(),
            BuiltinRule::ReplicaPosture => ReplicaPostureRule.spec_meta(),
            BuiltinRule::PublicExposure => PublicExposureRule.spec_meta(),
            BuiltinRule::EmptyDir => EmptyDirRule.spec_meta(),
            BuiltinRule::StorageMode => StorageModeRule.spec_meta(),
            BuiltinRule::RunAsNonRoot => RunAsNonRootRule.spec_meta(),
            BuiltinRule::TlsEnabled => TlsEnabledRule.spec_meta(),
        }
    }

    open spec fn spec_evaluate(&self, document: SnapshotDocument) -> Option<RuleObservationView> {
        match self {
            BuiltinRule::AuthMode => AuthModeRule.spec_evaluate(document),
            BuiltinRule::ReplicaPosture => ReplicaPostureRule.spec_evaluate(document),
            BuiltinRule::PublicExposure => PublicExposureRule.spec_evaluate(document),
            BuiltinRule::EmptyDir => EmptyDirRule.spec_evaluate(document),
            BuiltinRule::StorageMode => StorageModeRule.spec_evaluate(document),
            BuiltinRule::RunAsNonRoot => RunAsNonRootRule.spec_evaluate(document),
            BuiltinRule::TlsEnabled => TlsEnabledRule.spec_evaluate(document),
        }
    }

    fn meta(&self) -> (r: RuleMeta) {
        match self {
            BuiltinRule::AuthMode => AuthModeRule.meta(),
            BuiltinRule::ReplicaPosture => ReplicaPostureRule.meta(),
            BuiltinRule::PublicExposure => PublicExposureRule.meta(),
            BuiltinRule::EmptyDir => EmptyDirRule.meta(),
            BuiltinRule::StorageMode => StorageModeRule.meta(),
            BuiltinRule::RunAsNonRoot => RunAsNonRootRule.meta(),
            BuiltinRule::TlsEnabled => TlsEnabledRule.meta(),
        }
    }

    fn evaluate(&self, document: &SnapshotDocument) -> (r: Option<RuleObservation>) {
        match self {
            BuiltinRule::AuthMode => AuthModeRule.evaluate(document),
            BuiltinRule::ReplicaPosture => ReplicaPostureRule.evaluate(document),
            BuiltinRule::PublicExposure => PublicExposureRule.evaluate(document),
            BuiltinRule::EmptyDir => EmptyDirRule.evaluate(document),
            BuiltinRule::StorageMode => StorageModeRule.evaluate(document),
            BuiltinRule::RunAsNonRoot => RunAsNonRootRule.evaluate(document),
            BuiltinRule::TlsEnabled => TlsEnabledRule.evaluate(document),
        }
    }
}

/// Turns snapshots into observations.
pub trait SemanticAnalyzer {
    spec fn spec_analyze(&self, snapshot: Snapshot) -> Seq<IntentObservationView>;

    fn analyze(&self, snapshot: &Snapshot) -> (r: Vec<IntentObservation>)
        ensures
            observation_views(r@) == self.spec_analyze(*snapshot),
    ;
}

/// The observation a rule makes of a document, stamped with the rule's
/// identity, the document's resource and the snapshot's path.
pub open spec fn spec_signal<R: Rule>(rule: R, d: SnapshotDocument, source: Seq<char>) -> Option<IntentObservationView> {
    match rule.spec_evaluate(d) {
        Some(o) => Some(IntentObservationView {
            rule_id: rule.spec_meta().id.0@,
            resource: spec_resource_ref(d),
            category: rule.spec_meta().category,
            value: o.value,
            description: o.description,
            source_path: source,
        }),
        None => None,
    }
}

/// The observations the first `n` rules make of one document, in rule order.
pub open spec fn document_signals<R: Rule>(rules: Seq<R>, d: SnapshotDocument, source: Seq<char>, n: int)
    -> Seq<IntentObservationView>
    decreases n,
{
    if n <= 0 {
        Seq::empty()
    } else {
        document_signals(rules, d, source, n - 1) + match spec_signal(rules[n - 1], d, source) {
            Some(o) => seq![o],
            None => Seq::empty(),
        }
    }
}

/// The observations of the first `n` documents, document by document.
pub open spec fn snapshot_signals<R: Rule>(rules: Seq<R>, docs: Seq<SnapshotDocument>, source: Seq<char>, n: int)
    -> Seq<IntentObservationView>
    decreases n,
{
    if n <= 0 {
        Seq::empty()
    } else {
        snapshot_signals(rules, docs, source, n - 1)
            + document_signals(rules, docs[n - 1], source, rules.len() as int)
    }
}

/// Runs a list of rules over every document. The rules may be the built-in
/// ones (`BuiltinRule`) or any other type that implements `Rule`.
pub struct BasicAnalyzer<R> {
    rules: Vec<R>,
}

impl<R: Rule> BasicAnalyzer<R> {
    pub closed spec fn spec_rules(&self) -> Seq<R> {
        self.rules@
    }

    /// An analyzer that runs `rules`, in that order.
    pub fn new(rules: Vec<R>) -> (r: BasicAnalyzer<R>)
        ensures
            r.spec_rules() == rules@,
    {
        BasicAnalyzer { rules }
    }

    /// The rules, in the order they run.
    pub fn rules(&self) -> (r: &Vec<R>)
        ensures
            r@ == self.spec_rules(),
    {
        &self.rules
    }
}

impl<R: Rule> SemanticAnalyzer for BasicAnalyzer<R> {
    open spec fn spec_analyze(&self, snapshot: Snapshot) -> Seq<IntentObservationView> {
        snapshot_signals(self.spec_rules(), snapshot.spec_documents(), snapshot.spec_source()@,
            snapshot.spec_documents().len() as int)
    }

    fn analyze(&self, snapshot: &Snapshot) -> (r: Vec<IntentObservation>) {
        let mut signals: Vec<IntentObservation> = Vec::new();
        let documents = snapshot.documents();
        let source = snapshot.source_path();
        let ghost rules = self.rules@;
        let ghost docs = documents@;
        let ghost src = source@;
        let mut i: usize = 0;
        while i < documents.len()
            invariant
                i <= docs.len(),
                docs == snapshot.spec_documents(),
                documents@ == docs,
                rules == self.rules@,
                src == snapshot.spec_source()@,
                source@ == src,
                observation_views(signals@) == snapshot_signals(rules, docs, src, i as int),
            decreases docs.len() - i,
        {
            let document = &documents[i];
            let mut k: usize = 0;
            while k < self.rules.len()
                invariant
                    i < docs.len(),
                    *document == docs[i as int],
                    k <= rules.len(),
                    rules == self.rules@,
                    source@ == src,
                    observation_views(signals@) == snapshot_signals(rules, docs, src, i as int)
                        + document_signals(rules, docs[i as int], src, k as int),
                decreases rules.len() - k,
            {
                let rule = &self.rules[k];
                let ghost before = signals@;
                if let Some(found) = rule.evaluate(document) {
                    let meta = rule.meta();
                    signals.push(IntentObservation {
                        rule_id: meta.id,
                        resource: document.resource_ref(),
                        category: meta.category,
                        value: found.value,
                        description: found.description,
                        source_path: source.clone(),
                    });
                    assert(observation_views(signals@) == observation_views(before).push(signals@.last()@));
                }
                else {
                    assert(signals@ == before);
                }
                k += 1;
            }
            i += 1;
        }
        signals
    }
}

} // verus!
