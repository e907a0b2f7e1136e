use vstd::prelude::*;
use vstd::string::StringExecFns;
use crate::report::{findings_view, ids_ascending, Finding, FindingView, Severity};

verus! {

/// The name of a severity as a report prints it.
pub open spec fn display_name(s: Severity) -> Seq<char> {
    match s {
        Severity::Critical => "Critical"@,
        Severity::Major => "Major"@,
        Severity::Minor => "Minor"@,
        Severity::Informational => "Informational"@,
    }
}

/// The name of a severity in a section marker.
pub open spec fn marker_name(s: Severity) -> Seq<char> {
    match s {
        Severity::Critical => "critical"@,
        Severity::Major => "major"@,
        Severity::Minor => "minor"@,
        Severity::Informational => "informational"@,
    }
}

/// The image that stands before every finding's title.
pub open spec fn icon() -> Seq<char> {
    "![](https://svgshare.com/i/QKR.svg)"@
}

/// The section that a classified finding becomes.
pub open spec fn finding_text(f: FindingView, s: Severity) -> Seq<char> {
    "---\n\n<section id=\""@ + marker_name(s) + "\">\n\n### "@ + icon() + f.title
        + "\n\n| Type | Severity | Location | Status |\n|-|-|-|-|\n| "@ + f.class + " | "@
        + display_name(s) + " | "@ + f.location + " | |\n\n#### Description:\n\n"@
        + f.description + "\n\n#### Recommendation:\n\n"@ + f.recommendation
        + "\n\n#### Alleviation:\n\n"@ + f.alleviation + "\n\n</section>\n\n"@
}

/// The report that a list of classified findings becomes: their sections in order.
pub open spec fn report_text(fs: Seq<FindingView>) -> Seq<char>
    decreases fs.len(),
{
    if fs.len() == 0 {
        Seq::empty()
    } else {
        report_text(fs.drop_last()) + finding_text(fs.last(), fs.last().severity->0)
    }
}

/// Every finding has a severity.
pub open spec fn all_classified(fs: Seq<FindingView>) -> bool {
    forall|i: int| 0 <= i < fs.len() ==> (#[trigger] fs[i]).severity is Some
}

impl Severity {
    /// The name of the severity as a report prints it.
    pub fn display_name(&self) -> (r: &'static str)
        ensures
            r@ == display_name(*self),
    {
        match self {
            Severity::Critical => "Critical",
            Severity::Major => "Major",
            Severity::Minor => "Minor",
            Severity::Informational => "Informational",
        }
    }

    /// The name of the severity in a section marker.
    pub fn marker_name(&self) -> (r: &'static str)
        ensures
            r@ == marker_name(*self),
    {
        match self {
            Severity::Critical => "critical",
            Severity::Major => "major",
            Severity::Minor => "minor",
            Severity::Informational => "informational",
        }
    }
}

/// Writes the section of a classified finding at the end of `md`.
fn write_finding(md: &mut String, f: &Finding, s: Severity)
    ensures
        final(md)@ == old(md)@ + finding_text(f@, s),
{
    let mut t = "---\n\n<section id=\"".to_owned();
    t.append(s.marker_name());
    t.append("\">\n\n### ");
    t.append("![](https://svgshare.com/i/QKR.svg)");
    t.append(f.title.as_str());
    t.append("\n\n| Type | Severity | Location | Status |\n|-|-|-|-|\n| ");
    t.append(f.class.as_str());
    t.append(" | ");
    t.append(s.display_name());
    t.append(" | ");
    t.append(f.location.as_str());
    t.append(" | |\n\n#### Description:\n\n");
    t.append(f.description.as_str());
    t.append("\n\n#### Recommendation:\n\n");
    t.append(f.recommendation.as_str());
    t.append("\n\n#### Alleviation:\n\n");
    t.append(f.alleviation.as_str());
    t.append("\n\n</section>\n\n");
    md.append(t.as_str());
}

/// The Markdown report of classified findings given in ascending id order:
/// one section each, in that order.
pub fn export_markdown(findings: &Vec<Finding>) -> (r: String)
    requires
        all_classified(findings_view(findings@)),
        ids_ascending(findings_view(findings@)),
    ensures
        r@ == report_text(findings_view(findings@)),
{
    let ghost fs = findings_view(findings@);
    let mut md = String::new();
    let mut i: usize = 0;
    while i < findings.len()
        invariant
            i <= findings.len(),
            fs == findings_view(findings@),
            all_classified(fs),
            md@ == report_text(fs.subrange(0, i as int)),
        decreases findings.len() - i,
    {
        let f = &findings[i];
        assert(fs[i as int] == f@);
        write_finding(&mut md, f, f.severity.unwrap());
        proof {
            assert(fs.subrange(0, i + 1).drop_last() =~= fs.subrange(0, i as int));
        }
        i = i + 1;
    }
    proof {
        assert(fs.subrange(0, i as int) =~= fs);
    }
    md
}

} // verus!
