//! Shared semantic types. Rules emit observations categorized by domain, while
//! policy assigns a severity to the resulting drift.

use vstd::prelude::*;

verus! {

/// How serious a drift is. Variants are declared in increasing order.
#[derive(Debug, Clone, Copy, PartialEq, Eq, Structural, Hash, PartialOrd, Ord)]
pub enum Severity {
    Informational,
    Warning,
    Critical,
}

/// The name the policy layer uses for a severity.
pub type SignalStrength = Severity;

/// The domain an observation belongs to.
#[derive(Debug, Clone, Copy, PartialEq, Eq, Structural, Hash)]
pub enum SignalCategory {
    Security,
    Authentication,
    Transport,
    Persistence,
    NetworkExposure,
    Runtime,
    Availability,
}

/// The position of a severity in the order Informational < Warning < Critical.
pub open spec fn severity_rank(s: Severity) -> int {
    match s {
        Severity::Informational => 0,
        Severity::Warning => 1,
        Severity::Critical => 2,
    }
}

/// The upper-case label a severity is displayed with.
pub open spec fn spec_severity_label(s: Severity) -> Seq<char> {
    match s {
        Severity::Critical => "CRITICAL"@,
        Severity::Warning => "WARNING"@,
        Severity::Informational => "INFORMATIONAL"@,
    }
}

impl Severity {
    /// The rank of this severity: 0, 1 or 2.
    pub fn rank(&self) -> (r: u8)
        ensures
            r as int == severity_rank(*self),
    {
        match self {
            Severity::Informational => 0,
            Severity::Warning => 1,
            Severity::Critical => 2,
        }
    }

    /// Whether this severity is at least `other`.
    pub fn at_least(&self, other: &Severity) -> (r: bool)
        ensures
            r == (severity_rank(*self) >= severity_rank(*other)),
    {
        self.rank() >= other.rank()
    }

    /// The upper-case label a severity is shown with.
    pub fn label(&self) -> (r: &'static str)
        ensures
            r@ == spec_severity_label(*self),
    {
        match self {
            Severity::Critical => "CRITICAL",
            Severity::Warning => "WARNING",
            Severity::Informational => "INFORMATIONAL",
        }
    }

    /// The upper-case label as an owned string.
    pub fn to_string(&self) -> (r: String)
        ensures
            r@ == spec_severity_label(*self),
    {
        String::from_str(self.label())
    }
}

/// Severities are totally ordered, and distinct severities have distinct ranks.
pub proof fn lemma_severity_order(a: Severity, b: Severity)
    ensures
        severity_rank(a) == severity_rank(b) <==> a == b,
        0 <= severity_rank(a) <= 2,
        severity_rank(Severity::Informational) < severity_rank(Severity::Warning),
        severity_rank(Severity::Warning) < severity_rank(Severity::Critical),
{
}

} // verus!
