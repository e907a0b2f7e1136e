use vstd::prelude::*;

verus! {

/// How serious a finding is.
#[derive(Copy, Clone, Debug, PartialEq, Eq, Structural)]
pub enum Severity {
    Minor,
    Major,
    Critical,
    Informational,
}

/// A place in the audited code base: a file and some of its lines.
#[derive(Clone, Debug)]
pub struct Location {
    pub file: String,
    pub lines: Vec<usize>,
}

/// Someone who took part in an audit.
#[derive(Clone, Debug)]
pub struct Auditor {
    pub name: String,
    pub email: String,
}

/// One audit observation.
#[derive(Clone, Debug, PartialEq)]
pub struct Finding {
    pub id: usize,
    pub title: String,
    pub class: String,
    pub severity: Option<Severity>,
    pub location: String,
    pub description: String,
    pub recommendation: String,
    pub alleviation: String,
}

/// The mathematical value of a [`Finding`]: every text as a sequence of characters.
pub struct FindingView {
    pub id: nat,
    pub title: Seq<char>,
    pub class: Seq<char>,
    pub severity: Option<Severity>,
    pub location: Seq<char>,
    pub description: Seq<char>,
    pub recommendation: Seq<char>,
    pub alleviation: Seq<char>,
}

impl View for Finding {
    type V = FindingView;

    open spec fn view(&self) -> FindingView {
        FindingView {
            id: self.id as nat,
            title: self.title@,
            class: self.class@,
            severity: self.severity,
            location: self.location@,
            description: self.description@,
            recommendation: self.recommendation@,
            alleviation: self.alleviation@,
        }
    }
}

/// The persisted workbook: a report's envelope and its findings.
#[derive(Clone, Debug)]
pub struct Report {
    pub title: String,
    pub auditors: Vec<Auditor>,
    pub start_time: String,
    pub delivery_time: String,
    pub repository: String,
    pub commit_hashes: Vec<String>,
    pub checklist: Vec<(bool, String)>,
    pub overview: String,
    pub findings: Vec<Finding>,
}

/// The views of a list of findings, in order.
pub open spec fn findings_view(v: Seq<Finding>) -> Seq<FindingView> {
    v.map_values(|f: Finding| f@)
}

/// The ids go up from each finding to the next.
pub open spec fn ids_ascending(fs: Seq<FindingView>) -> bool {
    forall|i: int, j: int| 0 <= i < j < fs.len() ==> fs[i].id < fs[j].id
}

impl Finding {
    /// A copy of the finding.
    pub fn duplicate(&self) -> (r: Finding)
        ensures
            r@ == self@,
    {
        Finding {
            id: self.id,
            title: self.title.clone(),
            class: self.class.clone(),
            severity: self.severity,
            location: self.location.clone(),
            description: self.description.clone(),
            recommendation: self.recommendation.clone(),
            alleviation: self.alleviation.clone(),
        }
    }

    /// A finding with the given id and severity and every text empty.
    pub fn blank(id: usize, severity: Option<Severity>) -> (r: Finding)
        ensures
            r@ == blank_finding(id as nat, severity),
    {
        Finding {
            id,
            title: String::new(),
            class: String::new(),
            severity,
            location: String::new(),
            description: String::new(),
            recommendation: String::new(),
            alleviation: String::new(),
        }
    }
}

/// The value of [`Finding::blank`].
pub open spec fn blank_finding(id: nat, severity: Option<Severity>) -> FindingView {
    FindingView {
        id,
        title: Seq::empty(),
        class: Seq::empty(),
        severity,
        location: Seq::empty(),
        description: Seq::empty(),
        recommendation: Seq::empty(),
        alleviation: Seq::empty(),
    }
}

} // verus!
