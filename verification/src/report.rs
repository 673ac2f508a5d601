//! Rendering a report as terminal text or Markdown.

use vstd::prelude::*;
use vstd::string::StringExecFns;
use crate::engine::AnalysisResult;
use crate::policy::{PolicyFinding, PolicyFindingView, PolicyReport, finding_views, with_severity};
use crate::semantic::signal::{Severity, spec_severity_label};

verus! {

/// The two lines of one finding: `- {message}` and `  why: {rationale}`
/// (`  Why:` in Markdown).
pub open spec fn finding_text(f: PolicyFindingView, markdown: bool) -> Seq<char> {
    "- "@ + f.message + "\n"@ + (if markdown { "  Why: "@ } else { "  why: "@ }) + f.rationale + "\n"@
}

/// The lines of a list of findings, in order.
pub open spec fn findings_text(fs: Seq<PolicyFindingView>, markdown: bool) -> Seq<char>
    decreases fs.len(),
{
    if fs.len() == 0 {
        Seq::empty()
    } else {
        findings_text(fs.drop_last(), markdown) + finding_text(fs.last(), markdown)
    }
}

/// The heading of a severity group: `### {LABEL}` in Markdown, `{LABEL}:` otherwise.
pub open spec fn heading_text(severity: Severity, markdown: bool) -> Seq<char> {
    if markdown {
        "\n"@ + "### "@ + spec_severity_label(severity) + "\n"@
    } else {
        "\n"@ + spec_severity_label(severity) + ":\n"@
    }
}

/// The group of findings with one severity, or nothing when there are none.
pub open spec fn section_text(fs: Seq<PolicyFindingView>, severity: Severity, markdown: bool) -> Seq<char> {
    if with_severity(fs, severity).len() == 0 {
        Seq::empty()
    } else {
        heading_text(severity, markdown) + findings_text(with_severity(fs, severity), markdown)
    }
}

/// A rendered report: a fixed sentence when nothing drifted; otherwise a
/// title and the findings grouped from critical to informational.
pub open spec fn spec_render(fs: Seq<PolicyFindingView>, markdown: bool) -> Seq<char> {
    if fs.len() == 0 {
        "No intent drift detected"@
    } else {
        (if markdown { "## Intent Drift Detected\n"@ } else { "Intent drift detected\n"@ })
            + section_text(fs, Severity::Critical, markdown)
            + section_text(fs, Severity::Warning, markdown)
            + section_text(fs, Severity::Informational, markdown)
    }
}

/// Renders the findings for a terminal.
pub fn render_terminal(result: &AnalysisResult) -> (r: String)
    ensures
        r@ == spec_render(finding_views(result.policy.findings@), false),
{
    render(&result.policy, false)
}

/// Renders the findings as Markdown.
pub fn render_markdown(result: &AnalysisResult) -> (r: String)
    ensures
        r@ == spec_render(finding_views(result.policy.findings@), true),
{
    render(&result.policy, true)
}

fn render(report: &PolicyReport, markdown: bool) -> (r: String)
    ensures
        r@ == spec_render(finding_views(report.findings@), markdown),
{
    if report.findings.len() == 0 {
        return String::from_str("No intent drift detected");
    }
    let mut output = if markdown {
        String::from_str("## Intent Drift Detected\n")
    } else {
        String::from_str("Intent drift detected\n")
    };
    append_findings(&mut output, report, markdown);
    output
}

/// Appends the findings grouped by severity, from critical to informational, each group under its heading.
pub fn append_findings(output: &mut String, report: &PolicyReport, markdown: bool)
    ensures
        final(output)@ == old(output)@
            + section_text(finding_views(report.findings@), Severity::Critical, markdown)
            + section_text(finding_views(report.findings@), Severity::Warning, markdown)
            + section_text(finding_views(report.findings@), Severity::Informational, markdown),
{
    append_section(output, report, Severity::Critical, markdown);
    append_section(output, report, Severity::Warning, markdown);
    append_section(output, report, Severity::Informational, markdown);
}

fn append_section(output: &mut String, report: &PolicyReport, severity: Severity, markdown: bool)
    ensures
        final(output)@ == old(output)@ + section_text(finding_views(report.findings@), severity, markdown),
{
    let ghost fs = finding_views(report.findings@);
    let mut lines = String::new();
    let mut any = false;
    let mut i: usize = 0;
    while i < report.findings.len()
        invariant
            i <= report.findings@.len(),
            fs == finding_views(report.findings@),
            any == (with_severity(fs.take(i as int), severity).len() > 0),
            lines@ == findings_text(with_severity(fs.take(i as int), severity), markdown),
        decreases report.findings@.len() - i,
    {
        let finding = &report.findings[i];
        assert(fs.take(i + 1).drop_last() == fs.take(i as int));
        assert(fs.take(i + 1).last() == finding@);
        if finding.severity == severity {
            let ghost selected = with_severity(fs.take(i as int), severity);
            assert(with_severity(fs.take(i + 1), severity) == selected.push(finding@));
            assert(selected.push(finding@).drop_last() == selected);
            lines.append("- ");
            lines.append(finding.message.as_str());
            lines.append("\n");
            if markdown {
                lines.append("  Why: ");
            } else {
                lines.append("  why: ");
            }
            lines.append(finding.rationale);
            lines.append("\n");
            any = true;
        } else {
            assert(with_severity(fs.take(i + 1), severity) == with_severity(fs.take(i as int), severity));
        }
        i += 1;
    }
    assert(fs.take(report.findings@.len() as int) == fs);
    if any {
        output.append("\n");
        if markdown {
            output.append("### ");
            output.append(severity.label());
            output.append("\n");
        } else {
            output.append(severity.label());
            output.append(":\n");
        }
        output.append(lines.as_str());
        assert(output@ == old(output)@ + (heading_text(severity, markdown) + lines@));
    }
}

} // verus!
