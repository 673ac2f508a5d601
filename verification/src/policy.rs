//! Policy: how serious each difference is, and the message that reports it.

use vstd::prelude::*;
use vstd::string::StringExecFns;
use crate::diff::{DiffResult, DiffResultView, ObservationChange, ObservationChangeView};
use crate::semantic::observation::{IntentObservation, IntentObservationView, spec_value_text};
use crate::semantic::rule_id::RuleId;
use crate::semantic::rules::auth::spec_auth_meta;
use crate::semantic::rules::availability::spec_replica_meta;
use crate::semantic::rules::network::spec_exposure_meta;
use crate::semantic::rules::persistence::{spec_emptydir_meta, spec_storage_meta};
use crate::semantic::rules::security::spec_non_root_meta;
use crate::semantic::rules::transport::spec_tls_meta;
use crate::semantic::signal::{Severity, severity_rank};
use crate::snapshot::spec_resource_label;

verus! {

/// One difference, ranked and explained.
#[derive(Debug)]
pub struct PolicyFinding {
    pub rule_id: RuleId,
    pub severity: Severity,
    pub message: String,
    pub rationale: &'static str,
}

/// The mathematical content of a `PolicyFinding`.
pub struct PolicyFindingView {
    pub rule_id: Seq<char>,
    pub severity: Severity,
    pub message: Seq<char>,
    pub rationale: Seq<char>,
}

impl View for PolicyFinding {
    type V = PolicyFindingView;

    open spec fn view(&self) -> PolicyFindingView {
        PolicyFindingView {
            rule_id: self.rule_id.0@,
            severity: self.severity,
            message: self.message@,
            rationale: self.rationale@,
        }
    }
}

/// The contents of a list of findings.
pub open spec fn finding_views(s: Seq<PolicyFinding>) -> Seq<PolicyFindingView> {
    s.map_values(|f: PolicyFinding| f@)
}

/// The findings of a diff.
#[derive(Debug)]
pub struct PolicyReport {
    pub findings: Vec<PolicyFinding>,
}

/// The severity of a drift of each rule: TLS and authentication mode are
/// critical, emptyDir a warning, everything else informational.
pub open spec fn spec_severity_for_rule(rule_id: Seq<char>) -> Severity {
    if rule_id == "transport.tls_enabled"@ || rule_id == "auth.mode"@ {
        Severity::Critical
    } else if rule_id == "persistence.emptydir"@ {
        Severity::Warning
    } else {
        Severity::Informational
    }
}

/// How a rule is named in messages.
pub open spec fn spec_rule_label(rule_id: Seq<char>) -> Seq<char> {
    if rule_id == "transport.tls_enabled"@ {
        "TLS behavior"@
    } else if rule_id == "persistence.emptydir"@ {
        "emptyDir usage"@
    } else {
        rule_id
    }
}

/// Why a drift of a rule matters: the rationale of the built-in rule with
/// that identifier, empty for any other identifier.
pub open spec fn spec_rationale_for_rule(rule_id: Seq<char>) -> Seq<char> {
    if rule_id == spec_tls_meta().id.0@ {
        spec_tls_meta().rationale@
    } else if rule_id == spec_emptydir_meta().id.0@ {
        spec_emptydir_meta().rationale@
    } else if rule_id == spec_storage_meta().id.0@ {
        spec_storage_meta().rationale@
    } else if rule_id == spec_auth_meta().id.0@ {
        spec_auth_meta().rationale@
    } else if rule_id == spec_replica_meta().id.0@ {
        spec_replica_meta().rationale@
    } else if rule_id == spec_exposure_meta().id.0@ {
        spec_exposure_meta().rationale@
    } else if rule_id == spec_non_root_meta().id.0@ {
        spec_non_root_meta().rationale@
    } else {
        ""@
    }
}

/// How severe a drift of the rule is.
pub fn severity_for_rule(rule_id: RuleId) -> (r: Severity)
    ensures
        r == spec_severity_for_rule(rule_id.0@),
{
    if rule_id.same(&RuleId::TRANSPORT_TLS_ENABLED()) || rule_id.same(&RuleId::AUTH_MODE()) {
        Severity::Critical
    } else if rule_id.same(&RuleId::PERSISTENCE_EMPTYDIR()) {
        Severity::Warning
    } else {
        Severity::Informational
    }
}

/// How the rule is named in messages.
pub fn rule_label(rule_id: RuleId) -> (r: &'static str)
    ensures
        r@ == spec_rule_label(rule_id.0@),
{
    if rule_id.same(&RuleId::TRANSPORT_TLS_ENABLED()) {
        "TLS behavior"
    } else if rule_id.same(&RuleId::PERSISTENCE_EMPTYDIR()) {
        "emptyDir usage"
    } else {
        rule_id.0
    }
}

/// Why a drift of the rule matters.
pub fn rationale_for_rule(rule_id: RuleId) -> (r: &'static str)
    ensures
        r@ == spec_rationale_for_rule(rule_id.0@),
{
    if rule_id.same(&RuleId::TRANSPORT_TLS_ENABLED()) {
        "TLS drift changes whether edge traffic is encrypted in transit."
    } else if rule_id.same(&RuleId::PERSISTENCE_EMPTYDIR()) {
        "Ephemeral storage changes durability guarantees and restart behavior."
    } else if rule_id.same(&RuleId::PERSISTENCE_STORAGE_MODE()) {
        "Storage mode drift changes whether data is ephemeral, durable, or mixed."
    } else if rule_id.same(&RuleId::AUTH_MODE()) {
        "Authentication drift changes who can access the workload and how identity is enforced."
    } else if rule_id.same(&RuleId::AVAILABILITY_REPLICA_POSTURE()) {
        "Replica drift changes baseline availability and failure tolerance."
    } else if rule_id.same(&RuleId::NETWORK_EXPOSURE_PUBLIC()) {
        "Exposure drift changes whether a workload is reachable from outside the cluster boundary."
    } else if rule_id.same(&RuleId::SECURITY_RUN_AS_NON_ROOT()) {
        "Root execution drift changes what a compromised container can do on its node."
    } else {
        ""
    }
}

/// The finding for a change: `{label} differs for {resource}: {left} -> {right}`.
pub open spec fn spec_change_finding(c: ObservationChangeView) -> PolicyFindingView {
    PolicyFindingView {
        rule_id: c.right.rule_id,
        severity: spec_severity_for_rule(c.right.rule_id),
        message: spec_rule_label(c.right.rule_id) + " differs for "@ + spec_resource_label(c.right.resource)
            + ": "@ + spec_value_text(c.left.value) + " -> "@ + spec_value_text(c.right.value),
        rationale: spec_rationale_for_rule(c.right.rule_id),
    }
}

/// The finding for an observation only one side has:
/// `{label} is only present in {path} for {resource}: {value}`.
pub open spec fn spec_presence_finding(o: IntentObservationView) -> PolicyFindingView {
    PolicyFindingView {
        rule_id: o.rule_id,
        severity: spec_severity_for_rule(o.rule_id),
        message: spec_rule_label(o.rule_id) + " is only present in "@ + o.source_path + " for "@
            + spec_resource_label(o.resource) + ": "@ + spec_value_text(o.value),
        rationale: spec_rationale_for_rule(o.rule_id),
    }
}

/// The findings of a diff before ranking: the changes, then what was added,
/// then what was removed.
pub open spec fn spec_unranked_findings(d: DiffResultView) -> Seq<PolicyFindingView> {
    d.changed.map_values(|c: ObservationChangeView| spec_change_finding(c))
        + d.added.map_values(|o: IntentObservationView| spec_presence_finding(o))
        + d.removed.map_values(|o: IntentObservationView| spec_presence_finding(o))
}

/// The findings of `s` with severity `severity`, in their order.
pub open spec fn with_severity(s: Seq<PolicyFindingView>, severity: Severity) -> Seq<PolicyFindingView>
    decreases s.len(),
{
    if s.len() == 0 {
        Seq::empty()
    } else {
        with_severity(s.drop_last(), severity) + if s.last().severity == severity {
            seq![s.last()]
        } else {
            Seq::empty()
        }
    }
}

/// The findings ranked from most to least severe; equally severe findings
/// keep their order.
pub open spec fn ranked(s: Seq<PolicyFindingView>) -> Seq<PolicyFindingView> {
    with_severity(s, Severity::Critical) + with_severity(s, Severity::Warning)
        + with_severity(s, Severity::Informational)
}

/// Ranks the differences of a diff.
pub trait PolicyEvaluator {
    spec fn spec_evaluate(&self, diff: DiffResultView) -> Seq<PolicyFindingView>;

    fn evaluate(&self, diff: &DiffResult) -> (r: PolicyReport)
        ensures
            finding_views(r.findings@) == self.spec_evaluate(diff@),
    ;
}

/// The policy of this library: severities by rule, ranked most severe first.
pub struct DefaultPolicyEvaluator;

impl PolicyFinding {
    /// A copy of this finding.
    pub fn copy(&self) -> (r: PolicyFinding)
        ensures
            r@ == self@,
    {
        PolicyFinding {
            rule_id: self.rule_id,
            severity: self.severity,
            message: self.message.clone(),
            rationale: self.rationale,
        }
    }
}

fn change_finding(change: &ObservationChange) -> (r: PolicyFinding)
    ensures
        r@ == spec_change_finding(change@),
{
    let rule_id = change.right.rule_id;
    let mut message = String::from_str(rule_label(rule_id));
    message.append(" differs for ");
    message.append(change.right.resource.label().as_str());
    message.append(": ");
    message.append(change.left.value.to_string().as_str());
    message.append(" -> ");
    message.append(change.right.value.to_string().as_str());
    PolicyFinding {
        rule_id,
        severity: severity_for_rule(rule_id),
        message,
        rationale: rationale_for_rule(rule_id),
    }
}

fn presence_finding(observation: &IntentObservation) -> (r: PolicyFinding)
    ensures
        r@ == spec_presence_finding(observation@),
{
    let rule_id = observation.rule_id;
    let mut message = String::from_str(rule_label(rule_id));
    message.append(" is only present in ");
    message.append(observation.source_path.as_str());
    message.append(" for ");
    message.append(observation.resource.label().as_str());
    message.append(": ");
    message.append(observation.value.to_string().as_str());
    PolicyFinding {
        rule_id,
        severity: severity_for_rule(rule_id),
        message,
        rationale: rationale_for_rule(rule_id),
    }
}

/// Appends the findings of `all` with severity `severity` to `out`.
fn push_with_severity(out: &mut Vec<PolicyFinding>, all: &Vec<PolicyFinding>, severity: Severity)
    ensures
        finding_views(final(out)@) == finding_views(old(out)@) + with_severity(finding_views(all@), severity),
{
    let ghost start = finding_views(out@);
    let mut i: usize = 0;
    while i < all.len()
        invariant
            i <= all@.len(),
            finding_views(out@) == start + with_severity(finding_views(all@).take(i as int), severity),
        decreases all@.len() - i,
    {
        let ghost before = finding_views(out@);
        assert(finding_views(all@).take(i + 1).drop_last() == finding_views(all@).take(i as int));
        if all[i].severity == severity {
            out.push(all[i].copy());
            assert(finding_views(out@) == before.push(all@[i as int]@));
        }
        i += 1;
    }
    assert(finding_views(all@).take(all@.len() as int) == finding_views(all@));
}

impl PolicyEvaluator for DefaultPolicyEvaluator {
    open spec fn spec_evaluate(&self, diff: DiffResultView) -> Seq<PolicyFindingView> {
        ranked(spec_unranked_findings(diff))
    }

    fn evaluate(&self, diff: &DiffResult) -> (r: PolicyReport) {
        let mut unranked: Vec<PolicyFinding> = Vec::new();
        let ghost changed = diff@.changed;
        let ghost added = diff@.added;
        let ghost removed = diff@.removed;
        let mut i: usize = 0;
        while i < diff.changed.len()
            invariant
                i <= diff.changed@.len(),
                changed == diff@.changed,
                finding_views(unranked@)
                    == changed.take(i as int).map_values(|c: ObservationChangeView| spec_change_finding(c)),
            decreases diff.changed@.len() - i,
        {
            let ghost before = finding_views(unranked@);
            unranked.push(change_finding(&diff.changed[i]));
            assert(changed[i as int] == diff.changed@[i as int]@);
            assert(finding_views(unranked@) == before.push(spec_change_finding(changed[i as int])));
            assert(changed.take(i + 1) == changed.take(i as int).push(changed[i as int]));
            assert(finding_views(unranked@)
                =~= changed.take(i + 1).map_values(|c: ObservationChangeView| spec_change_finding(c)));
            i += 1;
        }
        assert(changed.take(changed.len() as int) == changed);
        let ghost after_changes = finding_views(unranked@);
        let mut i: usize = 0;
        while i < diff.added.len()
            invariant
                i <= diff.added@.len(),
                added == diff@.added,
                finding_views(unranked@) == after_changes
                    + added.take(i as int).map_values(|o: IntentObservationView| spec_presence_finding(o)),
            decreases diff.added@.len() - i,
        {
            let ghost before = finding_views(unranked@);
            unranked.push(presence_finding(&diff.added[i]));
            assert(added[i as int] == diff.added@[i as int]@);
            assert(finding_views(unranked@) == before.push(spec_presence_finding(added[i as int])));
            assert(added.take(i + 1) == added.take(i as int).push(added[i as int]));
            assert(finding_views(unranked@) =~= after_changes
                + added.take(i + 1).map_values(|o: IntentObservationView| spec_presence_finding(o)));
            i += 1;
        }
        assert(added.take(added.len() as int) == added);
        let ghost after_added = finding_views(unranked@);
        let mut i: usize = 0;
        while i < diff.removed.len()
            invariant
                i <= diff.removed@.len(),
                removed == diff@.removed,
                finding_views(unranked@) == after_added
                    + removed.take(i as int).map_values(|o: IntentObservationView| spec_presence_finding(o)),
            decreases diff.removed@.len() - i,
        {
            let ghost before = finding_views(unranked@);
            unranked.push(presence_finding(&diff.removed[i]));
            assert(removed[i as int] == diff.removed@[i as int]@);
            assert(finding_views(unranked@) == before.push(spec_presence_finding(removed[i as int])));
            assert(removed.take(i + 1) == removed.take(i as int).push(removed[i as int]));
            assert(finding_views(unranked@) =~= after_added
                + removed.take(i + 1).map_values(|o: IntentObservationView| spec_presence_finding(o)));
            i += 1;
        }
        assert(removed.take(removed.len() as int) == removed);
        assert(finding_views(unranked@) == spec_unranked_findings(diff@));
        let mut findings: Vec<PolicyFinding> = Vec::new();
        push_with_severity(&mut findings, &unranked, Severity::Critical);
        push_with_severity(&mut findings, &unranked, Severity::Warning);
        push_with_severity(&mut findings, &unranked, Severity::Informational);
        assert(finding_views(findings@) == ranked(finding_views(unranked@)));
        PolicyReport { findings }
    }
}


/// The most severe severity among the findings, `None` when there are none.
pub open spec fn spec_highest(fs: Seq<PolicyFindingView>) -> Option<Severity>
    decreases fs.len(),
{
    if fs.len() == 0 {
        None
    } else {
        match spec_highest(fs.drop_last()) {
            None => Some(fs.last().severity),
            Some(h) => if severity_rank(fs.last().severity) > severity_rank(h) {
                Some(fs.last().severity)
            } else {
                Some(h)
            },
        }
    }
}

/// Some finding is at least as severe as `threshold`.
pub open spec fn spec_meets(fs: Seq<PolicyFindingView>, threshold: Severity) -> bool {
    exists|i: int| 0 <= i < fs.len() && severity_rank((#[trigger] fs[i]).severity) >= severity_rank(threshold)
}

/// The highest severity is one of the findings' and at least each of them.
pub proof fn lemma_highest(fs: Seq<PolicyFindingView>)
    ensures
        spec_highest(fs) is None <==> fs.len() == 0,
        spec_highest(fs) matches Some(h) ==> (exists|i: int| 0 <= i < fs.len() && (#[trigger] fs[i]).severity == h),
        spec_highest(fs) matches Some(h) ==> (forall|i: int| 0 <= i < fs.len()
            ==> severity_rank((#[trigger] fs[i]).severity) <= severity_rank(h)),
    decreases fs.len(),
{
    if fs.len() > 0 {
        let init = fs.drop_last();
        lemma_highest(init);
        assert forall|i: int| 0 <= i < init.len() implies init[i] == fs[i] by {}
        if let Some(h) = spec_highest(fs) {
            if spec_highest(init) is Some && h == spec_highest(init)->0 {
                let k = choose|k: int| 0 <= k < init.len() && (#[trigger] init[k]).severity == h;
                assert(fs[k].severity == h);
            } else {
                assert(fs[fs.len() - 1].severity == h);
            }
            assert forall|i: int| 0 <= i < fs.len()
                implies severity_rank((#[trigger] fs[i]).severity) <= severity_rank(h) by {
                if i < fs.len() - 1 {
                    assert(init[i] == fs[i]);
                }
            }
        }
    }
}

/// Reaching a threshold is monotone: a report that meets a threshold meets
/// every lower one.
pub proof fn lemma_meets_is_monotone(fs: Seq<PolicyFindingView>, lower: Severity, higher: Severity)
    requires
        severity_rank(lower) <= severity_rank(higher),
        spec_meets(fs, higher),
    ensures
        spec_meets(fs, lower),
{
    let i = choose|i: int| 0 <= i < fs.len() && severity_rank((#[trigger] fs[i]).severity) >= severity_rank(higher);
    assert(severity_rank(fs[i].severity) >= severity_rank(lower));
}

impl PolicyReport {
    /// The most severe finding's severity, `None` for an empty report.
    pub fn highest_severity(&self) -> (r: Option<Severity>)
        ensures
            r == spec_highest(finding_views(self.findings@)),
    {
        let ghost fs = finding_views(self.findings@);
        let mut highest: Option<Severity> = None;
        let mut i: usize = 0;
        while i < self.findings.len()
            invariant
                i <= self.findings@.len(),
                fs == finding_views(self.findings@),
                highest == spec_highest(fs.take(i as int)),
            decreases self.findings@.len() - i,
        {
            assert(fs.take(i + 1).drop_last() == fs.take(i as int));
            assert(fs.take(i + 1).last() == self.findings@[i as int]@);
            let severity = self.findings[i].severity;
            highest = match highest {
                None => Some(severity),
                Some(h) => if severity.rank() > h.rank() { Some(severity) } else { Some(h) },
            };
            i += 1;
        }
        assert(fs.take(self.findings@.len() as int) == fs);
        highest
    }

    /// Whether some finding is at least as severe as `threshold`.
    pub fn meets_or_exceeds(&self, threshold: Severity) -> (r: bool)
        ensures
            r == spec_meets(finding_views(self.findings@), threshold),
    {
        let highest = self.highest_severity();
        proof {
            lemma_highest(finding_views(self.findings@));
        }
        match highest {
            Some(severity) => severity.at_least(&threshold),
            None => false,
        }
    }
}


proof fn lemma_with_severity_len(s: Seq<PolicyFindingView>)
    ensures
        with_severity(s, Severity::Critical).len() + with_severity(s, Severity::Warning).len()
            + with_severity(s, Severity::Informational).len() == s.len(),
    decreases s.len(),
{
    if s.len() > 0 {
        lemma_with_severity_len(s.drop_last());
    }
}

/// Ranking keeps every finding: the report has one finding per difference.
pub proof fn lemma_one_finding_per_difference(d: DiffResultView)
    ensures
        ranked(spec_unranked_findings(d)).len() == d.changed.len() + d.added.len() + d.removed.len(),
{
    lemma_with_severity_len(spec_unranked_findings(d));
}

/// Where the diff is empty there is nothing to report.
pub proof fn lemma_empty_diff_has_no_findings(d: DiffResultView)
    requires
        d.changed.len() == 0,
        d.added.len() == 0,
        d.removed.len() == 0,
    ensures
        ranked(spec_unranked_findings(d)).len() == 0,
{
    lemma_one_finding_per_difference(d);
}

proof fn lemma_with_severity_members(s: Seq<PolicyFindingView>, severity: Severity)
    ensures
        forall|i: int| 0 <= i < with_severity(s, severity).len()
            ==> (#[trigger] with_severity(s, severity)[i]).severity == severity,
    decreases s.len(),
{
    if s.len() > 0 {
        lemma_with_severity_members(s.drop_last(), severity);
    }
}

/// Ranked findings run from most to least severe, so the first finding of a
/// non-empty report carries its highest severity.
pub proof fn lemma_ranked_is_descending(s: Seq<PolicyFindingView>)
    ensures
        forall|i: int, j: int| 0 <= i < j < ranked(s).len()
            ==> severity_rank((#[trigger] ranked(s)[i]).severity) >= severity_rank((#[trigger] ranked(s)[j]).severity),
        ranked(s).len() > 0 ==> spec_highest(ranked(s)) == Some(ranked(s)[0].severity),
{
    let c = with_severity(s, Severity::Critical);
    let w = with_severity(s, Severity::Warning);
    let n = with_severity(s, Severity::Informational);
    lemma_with_severity_members(s, Severity::Critical);
    lemma_with_severity_members(s, Severity::Warning);
    lemma_with_severity_members(s, Severity::Informational);
    let r = ranked(s);
    assert(r == c + w + n);
    assert forall|i: int| 0 <= i < r.len() implies
        severity_rank((#[trigger] r[i]).severity) == (if i < c.len() { 2int } else if i < c.len() + w.len() { 1int } else { 0int }) by {
        if i < c.len() {
            assert(r[i] == c[i]);
        } else if i < c.len() + w.len() {
            assert(r[i] == w[i - c.len()]);
        } else {
            assert(r[i] == n[i - c.len() - w.len()]);
        }
    }
    if r.len() > 0 {
        lemma_highest(r);
        let h = spec_highest(r)->0;
        let k = choose|k: int| 0 <= k < r.len() && (#[trigger] r[k]).severity == h;
        assert(severity_rank(r[0].severity) >= severity_rank(r[k].severity));
        assert(severity_rank(r[0].severity) <= severity_rank(h));
        crate::semantic::signal::lemma_severity_order(r[0].severity, h);
    }
}

} // verus!
