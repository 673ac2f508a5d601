//! The command line of the tool: two snapshot paths, a profile, an optional
//! failure threshold and an output format.

use vstd::prelude::*;
use crate::policy::{PolicyReport, finding_views, spec_meets};
use crate::semantic::signal::{Severity, SignalStrength};

verus! {

/// The output formats the tool can render a result in.
#[derive(Debug, Clone, Copy, PartialEq, Eq, Structural)]
pub enum Format {
    Terminal,
    Markdown,
}

/// The `--format` choice as given on the command line.
#[derive(Debug, Clone, Copy, PartialEq, Eq, Structural)]
pub enum OutputFormat {
    Terminal,
    Markdown,
}

/// The `--profile` choice as given on the command line.
#[derive(Debug, Clone, Copy, PartialEq, Eq, Structural)]
pub enum ProfileArg {
    K8sWeb,
}

/// The `--fail-on` choice as given on the command line.
#[derive(Debug, Clone, Copy, PartialEq, Eq, Structural)]
pub enum SeverityArg {
    Informational,
    Warning,
    Critical,
}

/// The output format an `--format` choice selects.
pub open spec fn spec_format_of(f: OutputFormat) -> Format {
    match f {
        OutputFormat::Terminal => Format::Terminal,
        OutputFormat::Markdown => Format::Markdown,
    }
}

/// The severity an `--fail-on` choice names.
pub open spec fn spec_severity_of(s: SeverityArg) -> Severity {
    match s {
        SeverityArg::Informational => Severity::Informational,
        SeverityArg::Warning => Severity::Warning,
        SeverityArg::Critical => Severity::Critical,
    }
}

/// The name of the profile an `--profile` choice selects.
pub open spec fn spec_profile_name(p: ProfileArg) -> Seq<char> {
    match p {
        ProfileArg::K8sWeb => "k8s-web"@,
    }
}

impl From<OutputFormat> for Format {
    fn from(value: OutputFormat) -> (r: Format) {
        match value {
            OutputFormat::Terminal => Format::Terminal,
            OutputFormat::Markdown => Format::Markdown,
        }
    }
}

impl vstd::std_specs::convert::FromSpecImpl<OutputFormat> for Format {
    open spec fn obeys_from_spec() -> bool {
        true
    }

    open spec fn from_spec(v: OutputFormat) -> Format {
        spec_format_of(v)
    }
}

impl From<SeverityArg> for Severity {
    fn from(value: SeverityArg) -> (r: Severity) {
        match value {
            SeverityArg::Informational => Severity::Informational,
            SeverityArg::Warning => Severity::Warning,
            SeverityArg::Critical => Severity::Critical,
        }
    }
}

impl vstd::std_specs::convert::FromSpecImpl<SeverityArg> for Severity {
    open spec fn obeys_from_spec() -> bool {
        true
    }

    open spec fn from_spec(v: SeverityArg) -> Severity {
        spec_severity_of(v)
    }
}

impl ProfileArg {
    /// The profile name this choice stands for.
    pub fn as_str(&self) -> (r: &'static str)
        ensures
            r@ == spec_profile_name(*self),
    {
        match self {
            ProfileArg::K8sWeb => "k8s-web",
        }
    }
}

/// The parsed command line.
pub struct Cli {
    left: String,
    right: String,
    profile: ProfileArg,
    fail_on: Option<SeverityArg>,
    format: OutputFormat,
}

impl Cli {
    pub closed spec fn spec_left(&self) -> Seq<char> {
        self.left@
    }

    pub closed spec fn spec_right(&self) -> Seq<char> {
        self.right@
    }

    pub closed spec fn spec_profile(&self) -> ProfileArg {
        self.profile
    }

    pub closed spec fn spec_fail_on(&self) -> Option<SeverityArg> {
        self.fail_on
    }

    pub closed spec fn spec_format(&self) -> OutputFormat {
        self.format
    }

    /// A command line with the given paths and choices.
    pub fn new(
        left: String,
        right: String,
        profile: ProfileArg,
        fail_on: Option<SeverityArg>,
        format: OutputFormat,
    ) -> (r: Cli)
        ensures
            r.spec_left() == left@,
            r.spec_right() == right@,
            r.spec_profile() == profile,
            r.spec_fail_on() == fail_on,
            r.spec_format() == format,
    {
        Cli { left, right, profile, fail_on, format }
    }

    /// The path of the left snapshot.
    pub fn left(&self) -> (r: &String)
        ensures
            r@ == self.spec_left(),
    {
        &self.left
    }

    /// The path of the right snapshot.
    pub fn right(&self) -> (r: &String)
        ensures
            r@ == self.spec_right(),
    {
        &self.right
    }

    /// The name of the chosen profile.
    pub fn profile(&self) -> (r: &'static str)
        ensures
            r@ == spec_profile_name(self.spec_profile()),
    {
        self.profile.as_str()
    }

    /// The severity at which the run fails, if one was chosen.
    pub fn fail_on(&self) -> (r: Option<Severity>)
        ensures
            r == (match self.spec_fail_on() {
                Some(s) => Some(spec_severity_of(s)),
                None => None,
            }),
    {
        match self.fail_on {
            Some(s) => Some(Severity::from(s)),
            None => None,
        }
    }

    /// The chosen output format.
    pub fn format(&self) -> (r: Format)
        ensures
            r == spec_format_of(self.spec_format()),
    {
        Format::from(self.format)
    }
}

/// The process exit code for a run whose findings reach the threshold.
pub fn exit_code_for_threshold(threshold: SignalStrength) -> (r: i32)
    ensures
        r == 2,
{
    2
}

/// How a finished run ends: with the exit code of the threshold when one was
/// chosen and some finding reaches it, otherwise normally (`None`).
pub fn exit_code_for_report(report: &PolicyReport, fail_on: Option<Severity>) -> (r: Option<i32>)
    ensures
        r == (match fail_on {
            Some(t) => if spec_meets(finding_views(report.findings@), t) { Some(2i32) } else { None },
            None => None,
        }),
{
    match fail_on {
        Some(threshold) => if report.meets_or_exceeds(threshold) {
            Some(exit_code_for_threshold(threshold))
        } else {
            None
        },
        None => None,
    }
}

} // verus!
