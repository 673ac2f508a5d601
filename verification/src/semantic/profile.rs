//! Profiles bundle rules and policy for a concrete use case.

use vstd::prelude::*;
use crate::engine::Engine;
use crate::policy::DefaultPolicyEvaluator;
use crate::semantic::{BasicAnalyzer, BuiltinRule};
use crate::text::text_order;

verus! {

/// A named set of rules with a policy.
pub struct Profile {
    pub name: &'static str,
    rules: Vec<BuiltinRule>,
    policy: DefaultPolicyEvaluator,
}

/// The rules of the `k8s-web` profile: emptyDir usage and TLS behavior.
pub open spec fn k8s_web_rules() -> Seq<BuiltinRule> {
    seq![BuiltinRule::EmptyDir, BuiltinRule::TlsEnabled]
}

impl Profile {
    pub closed spec fn spec_rules(&self) -> Seq<BuiltinRule> {
        self.rules@
    }

    pub closed spec fn spec_name(&self) -> Seq<char> {
        self.name@
    }

    /// The profile for Kubernetes web workloads.
    pub fn k8s_web() -> (r: Profile)
        ensures
            r.spec_name() == "k8s-web"@,
            r.spec_rules() == k8s_web_rules(),
    {
        Profile {
            name: "k8s-web",
            rules: vec![BuiltinRule::EmptyDir, BuiltinRule::TlsEnabled],
            policy: DefaultPolicyEvaluator,
        }
    }

    /// The profile called `name`, if there is one.
    pub fn from_name(name: &str) -> (r: Option<Profile>)
        ensures
            r is Some <==> name@ == "k8s-web"@,
            r matches Some(p) ==> p.spec_name() == "k8s-web"@ && p.spec_rules() == k8s_web_rules(),
    {
        let o = text_order(name, "k8s-web");
        proof {
            crate::text::lemma_seq_order_antisymmetric(name@, "k8s-web"@);
        }
        if o == 0 {
            Some(Self::k8s_web())
        } else {
            None
        }
    }

    /// The rules of the profile, in the order they run.
    pub fn rules(&self) -> (r: &Vec<BuiltinRule>)
        ensures
            r@ == self.spec_rules(),
    {
        &self.rules
    }

    /// An analyzer running the profile's rules.
    pub fn build_analyzer(self) -> (r: BasicAnalyzer<BuiltinRule>)
        ensures
            r.spec_rules() == self.spec_rules(),
    {
        BasicAnalyzer::new(self.rules)
    }

    /// An engine running the profile's rules under its policy.
    pub fn build_engine(self) -> (r: Engine<BasicAnalyzer<BuiltinRule>, DefaultPolicyEvaluator>)
        ensures
            r.spec_analyzer().spec_rules() == self.spec_rules(),
    {
        let analyzer = BasicAnalyzer::new(self.rules);
        Engine::with_policy(analyzer, self.policy)
    }
}

} // verus!
