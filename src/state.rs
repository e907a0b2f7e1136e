use vstd::prelude::*;
use vstd::string::StringExecFns;
use crate::report::{blank_finding, ids_ascending, findings_view, Finding, FindingView, Severity};
use crate::text::{decimal, decimal_text, same_text};
use crate::markdown::{imported, markdown_nodes, section_count};
use crate::export::{all_classified, export_markdown, report_text};
use std::collections::HashMap;

verus! {

broadcast use vstd::std_specs::hash::group_hash_axioms;

/// The title that a new finding gets.
pub open spec fn default_title(id: nat) -> Seq<char> {
    "Finding"@ + decimal(id)
}

/// A text field of a finding that the user edits.
#[derive(Clone, Copy, Debug, PartialEq, Eq, Structural)]
pub enum FindingField {
    Title,
    Type,
    Location,
    Description,
    Recommendation,
    Alleviation,
}

/// `f` with field `field` set to `t`.
pub open spec fn with_field(f: FindingView, field: FindingField, t: Seq<char>) -> FindingView {
    match field {
        FindingField::Title => FindingView { title: t, ..f },
        FindingField::Type => FindingView { class: t, ..f },
        FindingField::Location => FindingView { location: t, ..f },
        FindingField::Description => FindingView { description: t, ..f },
        FindingField::Recommendation => FindingView { recommendation: t, ..f },
        FindingField::Alleviation => FindingView { alleviation: t, ..f },
    }
}

/// The severity that the user interface selects by name; any other name clears it.
pub open spec fn selected_severity(name: Seq<char>) -> Option<Severity> {
    if name == "critical"@ {
        Some(Severity::Critical)
    } else if name == "major"@ {
        Some(Severity::Major)
    } else if name == "minor"@ {
        Some(Severity::Minor)
    } else if name == "informational"@ {
        Some(Severity::Informational)
    } else {
        None
    }
}

/// Ids that findings can be kept under: none is zero, none comes twice.
pub open spec fn ids_loadable(fs: Seq<FindingView>) -> bool {
    &&& forall|i: int| 0 <= i < fs.len() ==> fs[i].id >= 1
    &&& forall|i: int, j: int| 0 <= i < j < fs.len() ==> fs[i].id != fs[j].id
}

/// An editing session: the checklist, the findings by id, the id counter and
/// the finding copied last.
#[derive(Debug)]
pub struct StateData {
    pub initialized: bool,
    pub current_finding_id: usize,
    pub checklist: Vec<(bool, String)>,
    pub findings: HashMap<usize, Finding>,
    pub copied_finding: Option<Finding>,
}

impl StateData {
    /// Each finding is kept under its own id, and the ids run from one up to
    /// the counter, so that the counter's next value is a fresh id.
    pub open spec fn wf(&self) -> bool {
        forall|k: usize|
            #[trigger] self.findings@.contains_key(k) ==> self.findings@[k].id == k && 1 <= k
                <= self.current_finding_id
    }

    /// The findings as views, by id.
    pub open spec fn finding_map(&self) -> Map<usize, FindingView> {
        self.findings@.map_values(|f: Finding| f@)
    }

    /// A session with nothing in it.
    pub fn new() -> (r: Self)
        ensures
            r.wf(),
            !r.initialized,
            r.current_finding_id == 0,
            r.checklist@.len() == 0,
            r.findings@.is_empty(),
            r.copied_finding is None,
    {
        StateData {
            initialized: false,
            current_finding_id: 0,
            checklist: Vec::new(),
            findings: HashMap::new(),
            copied_finding: None,
        }
    }

    /// Adds an empty, unchecked checklist entry at the end and returns its index.
    pub fn create_checklist_entry(&mut self) -> (r: usize)
        ensures
            r == old(self).checklist@.len(),
            final(self).checklist@.len() == old(self).checklist@.len() + 1,
            final(self).checklist@.subrange(0, r as int) == old(self).checklist@,
            final(self).checklist@[r as int].0 == false,
            final(self).checklist@[r as int].1@ == Seq::<char>::empty(),
            final(self).findings == old(self).findings,
            final(self).current_finding_id == old(self).current_finding_id,
    {
        let r = self.checklist.len();
        self.checklist.push((false, String::new()));
        assert(self.checklist@.subrange(0, r as int) =~= old(self).checklist@);
        r
    }

    /// Removes the checklist entry at the index; `false` where there is none.
    pub fn remove_checklist_entry(&mut self, id: usize) -> (r: bool)
        ensures
            r == (id < old(self).checklist@.len()),
            r ==> final(self).checklist@ == old(self).checklist@.remove(id as int),
            !r ==> final(self).checklist@ == old(self).checklist@,
            final(self).findings == old(self).findings,
            final(self).current_finding_id == old(self).current_finding_id,
    {
        if id < self.checklist.len() {
            self.checklist.remove(id);
            true
        } else {
            false
        }
    }

    /// Removes every checklist entry.
    pub fn clear_checklist_entries(&mut self)
        ensures
            final(self).checklist@.len() == 0,
            final(self).findings == old(self).findings,
            final(self).current_finding_id == old(self).current_finding_id,
    {
        self.checklist = Vec::new();
    }

    /// Checks or unchecks the checklist entry at the index; `false` where
    /// there is none.
    pub fn set_checklist_entry_checked(&mut self, id: usize, checked: bool) -> (r: bool)
        ensures
            r == (id < old(self).checklist@.len()),
            final(self).checklist@.len() == old(self).checklist@.len(),
            forall|i: int| 0 <= i < old(self).checklist@.len() && i != id ==>
                #[trigger] final(self).checklist@[i] == old(self).checklist@[i],
            r ==> final(self).checklist@[id as int].0 == checked && final(self).checklist@[id as int].1
                == old(self).checklist@[id as int].1,
            final(self).findings == old(self).findings,
            final(self).current_finding_id == old(self).current_finding_id,
    {
        if id < self.checklist.len() {
            self.checklist[id].0 = checked;
            true
        } else {
            false
        }
    }

    /// Sets the text of the checklist entry at the index; `false` where there
    /// is none.
    pub fn set_checklist_entry_text(&mut self, id: usize, text: &str) -> (r: bool)
        ensures
            r == (id < old(self).checklist@.len()),
            final(self).checklist@.len() == old(self).checklist@.len(),
            forall|i: int| 0 <= i < old(self).checklist@.len() && i != id ==>
                #[trigger] final(self).checklist@[i] == old(self).checklist@[i],
            r ==> final(self).checklist@[id as int].0 == old(self).checklist@[id as int].0
                && final(self).checklist@[id as int].1@ == text@,
            final(self).findings == old(self).findings,
            final(self).current_finding_id == old(self).current_finding_id,
    {
        if id < self.checklist.len() {
            self.checklist[id].1 = text.to_owned();
            true
        } else {
            false
        }
    }

    /// Replaces the findings by those given, each kept under its own id, with
    /// the counter at the largest id, so that new findings get fresh ids.
    /// `false`, with the session left as it was, where an id is zero or two
    /// findings share one.
    pub fn load_findings(&mut self, findings: Vec<Finding>) -> (r: bool)
        requires
            old(self).wf(),
        ensures
            final(self).wf(),
            r == ids_loadable(findings_view(findings@)),
            r ==> {
                &&& forall|i: int| 0 <= i < findings@.len() ==> {
                    &&& final(self).findings@.contains_key(#[trigger] findings@[i].id)
                    &&& final(self).findings@[findings@[i].id]@ == findings@[i]@
                }
                &&& forall|k: usize| #[trigger] final(self).findings@.contains_key(k) ==>
                    exists|i: int| 0 <= i < findings@.len() && findings@[i].id == k
                &&& forall|i: int| 0 <= i < findings@.len() ==> findings@[i].id <= final(self).current_finding_id
                &&& (final(self).current_finding_id == 0 || exists|i: int| 0 <= i < findings@.len()
                    && findings@[i].id == final(self).current_finding_id)
            },
            !r ==> final(self).findings@ == old(self).findings@ && final(self).current_finding_id
                == old(self).current_finding_id,
            final(self).checklist@ == old(self).checklist@,
    {
        let ghost fv = findings_view(findings@);
        let mut map: HashMap<usize, Finding> = HashMap::new();
        let mut top: usize = 0;
        let mut i: usize = 0;
        while i < findings.len()
            invariant
                i <= findings@.len(),
                fv == findings_view(findings@),
                *self == *old(self),
                self.wf(),
                ids_loadable(fv.subrange(0, i as int)),
                forall|j: int| 0 <= j < i ==> {
                    &&& map@.contains_key(#[trigger] findings@[j].id)
                    &&& map@[findings@[j].id]@ == findings@[j]@
                    &&& findings@[j].id <= top
                },
                forall|k: usize| #[trigger] map@.contains_key(k) ==> {
                    &&& exists|j: int| 0 <= j < i && findings@[j].id == k
                    &&& map@[k].id == k
                    &&& 1 <= k <= top
                },
                top == 0 || exists|j: int| 0 <= j < i && findings@[j].id == top,
            decreases findings@.len() - i,
        {
            let id = findings[i].id;
            if id == 0 || map.contains_key(&id) {
                proof {
                    if id != 0 {
                        let j = choose|j: int| 0 <= j < i && findings@[j].id == id;
                        assert(fv[j].id == fv[i as int].id);
                    }
                    assert(!ids_loadable(fv)) by {
                        if id == 0 {
                            assert(fv[i as int].id == 0);
                        } else {
                            let j = choose|j: int| 0 <= j < i && findings@[j].id == id;
                            assert(0 <= j < i < fv.len() && fv[j].id == fv[i as int].id);
                        }
                    }
                }
                return false;
            }
            map.insert(id, findings[i].duplicate());
            if id > top {
                top = id;
            }
            proof {
                let next = fv.subrange(0, i + 1);
                assert forall|a: int, b: int| 0 <= a < b < next.len() implies next[a].id != next[b].id by {
                    if b == i {
                        assert(map@.contains_key(findings@[a].id));
                    } else {
                        assert(fv.subrange(0, i as int)[a] == next[a]);
                        assert(fv.subrange(0, i as int)[b] == next[b]);
                    }
                }
                assert forall|a: int| 0 <= a < next.len() implies next[a].id >= 1 by {
                    if a < i {
                        assert(fv.subrange(0, i as int)[a] == next[a]);
                    }
                }
            }
            i = i + 1;
        }
        assert(fv.subrange(0, i as int) =~= fv);
        self.findings = map;
        self.current_finding_id = top;
        true
    }

    /// Reads the findings of a Markdown report into the session under fresh
    /// ids, as [`crate::markdown::import_markdown`] reads them, and returns
    /// them. `None`, with the session left as it was, where the ids would run
    /// past the counter's range.
    pub fn import_markdown(&mut self, text: &str) -> (r: Option<Vec<Finding>>)
        requires
            old(self).wf(),
        ensures
            final(self).wf(),
            final(self).checklist@ == old(self).checklist@,
            r is None ==> {
                &&& old(self).current_finding_id + section_count(markdown_nodes(text@)) > usize::MAX
                &&& final(self).findings@ == old(self).findings@
                &&& final(self).current_finding_id == old(self).current_finding_id
            },
            r is Some ==> findings_view(r->0@) == imported(
                markdown_nodes(text@),
                old(self).current_finding_id as nat,
            ),
            r is Some ==> final(self).current_finding_id == old(self).current_finding_id
                + section_count(markdown_nodes(text@)),
            r is Some ==> forall|k: usize| #[trigger] old(self).findings@.contains_key(k)
                ==> final(self).findings@.contains_key(k) && final(self).findings@[k] == old(
                self,
            ).findings@[k],
            r is Some ==> forall|i: int| 0 <= i < r->0@.len() ==> {
                &&& !old(self).findings@.contains_key(#[trigger] r->0@[i].id)
                &&& final(self).findings@.contains_key(r->0@[i].id)
                &&& final(self).findings@[r->0@[i].id]@ == r->0@[i]@
            },
            r is Some ==> forall|k: usize| #[trigger] final(self).findings@.contains_key(k)
                ==> old(self).findings@.contains_key(k) || exists|i: int|
                0 <= i < r->0@.len() && r->0@[i].id == k,
    {
        let old_counter = self.current_finding_id;
        let found = match crate::markdown::import_markdown(text, &mut self.current_finding_id) {
            None => {
                assert(self.current_finding_id == old_counter);
                return None;
            },
            Some(v) => v,
        };
        let mut i: usize = 0;
        while i < found.len()
            invariant
                i <= found@.len(),
                self.checklist@ == old(self).checklist@,
                old_counter == old(self).current_finding_id,
                self.current_finding_id == old(self).current_finding_id + section_count(markdown_nodes(text@)),
                ids_ascending(findings_view(found@)),
                forall|k: int| 0 <= k < found@.len() ==> old_counter < #[trigger] found@[k].id
                    <= self.current_finding_id,
                forall|k: usize| #[trigger] self.findings@.contains_key(k) ==> self.findings@[k].id == k && 1
                    <= k <= self.current_finding_id,
                forall|k: usize| #[trigger] old(self).findings@.contains_key(k) ==> k <= old_counter && self.findings@.contains_key(k)
                    && self.findings@[k] == old(self).findings@[k],
                forall|j: int| 0 <= j < i ==> {
                    &&& self.findings@.contains_key(#[trigger] found@[j].id)
                    &&& self.findings@[found@[j].id]@ == found@[j]@
                },
                forall|k: usize| #[trigger] self.findings@.contains_key(k) ==>
                    old(self).findings@.contains_key(k) || exists|j: int| 0 <= j < i && found@[j].id == k,
                forall|k: usize| #[trigger] self.findings@.contains_key(k) && k > old_counter ==>
                    exists|j: int| 0 <= j < i && found@[j].id == k,
            decreases found@.len() - i,
        {
            let f = found[i].duplicate();
            let id = f.id;
            proof {
                assert forall|j: int| 0 <= j < i implies found@[j].id < id by {
                    assert(findings_view(found@)[j].id < findings_view(found@)[i as int].id);
                }
            }
            self.findings.insert(id, f);
            i = i + 1;
        }
        proof {
            assert forall|i: int| 0 <= i < found@.len() implies !old(self).findings@.contains_key(
                #[trigger] found@[i].id,
            ) by {
                if old(self).findings@.contains_key(found@[i].id) {
                    assert(found@[i].id <= old_counter);
                }
            }
        }
        Some(found)
    }

    /// The Markdown report of all findings, in ascending id order; `None`
    /// where a finding has no severity yet.
    pub fn export_markdown(&self) -> (r: Option<String>)
        requires
            self.wf(),
        ensures
            match r {
                Some(md) => exists|v: Seq<Finding>| {
                    &&& ids_ascending(findings_view(v))
                    &&& all_classified(findings_view(v))
                    &&& (forall|i: int| 0 <= i < v.len() ==> {
                        &&& self.findings@.contains_key(#[trigger] v[i].id)
                        &&& self.findings@[v[i].id]@ == v[i]@
                    })
                    &&& (forall|k: usize| #[trigger] self.findings@.contains_key(k) ==>
                        exists|i: int| 0 <= i < v.len() && v[i].id == k)
                    &&& md@ == report_text(findings_view(v))
                },
                None => exists|k: usize| #[trigger] self.findings@.contains_key(k) && self.findings@[k].severity is None,
            },
    {
        let v = self.findings_in_order();
        let mut i: usize = 0;
        while i < v.len()
            invariant
                i <= v@.len(),
                forall|j: int| 0 <= j < v@.len() ==> {
                    &&& self.findings@.contains_key(#[trigger] v@[j].id)
                    &&& self.findings@[v@[j].id]@ == v@[j]@
                },
                forall|j: int| 0 <= j < i ==> (#[trigger] v@[j]).severity is Some,
            decreases v@.len() - i,
        {
            if v[i].severity.is_none() {
                assert(self.findings@.contains_key(v@[i as int].id));
                return None;
            }
            i = i + 1;
        }
        assert(all_classified(findings_view(v@))) by {
            assert forall|j: int| 0 <= j < findings_view(v@).len() implies (#[trigger] findings_view(v@)[j]).severity is Some by {
                assert(v@[j].severity is Some);
            }
        }
        let md = export_markdown(&v);
        Some(md)
    }

    /// Copies of all findings, in ascending id order.
    pub fn findings_in_order(&self) -> (r: Vec<Finding>)
        requires
            self.wf(),
        ensures
            ids_ascending(findings_view(r@)),
            forall|i: int| 0 <= i < r@.len() ==> {
                &&& self.findings@.contains_key(#[trigger] r@[i].id)
                &&& self.findings@[r@[i].id]@ == r@[i]@
            },
            forall|k: usize| #[trigger] self.findings@.contains_key(k) ==>
                exists|i: int| 0 <= i < r@.len() && r@[i].id == k,
    {
        let mut r: Vec<Finding> = Vec::new();
        let mut id: usize = 0;
        while id < self.current_finding_id
            invariant
                self.wf(),
                id <= self.current_finding_id,
                forall|i: int, j: int| 0 <= i < j < r@.len() ==> r@[i].id < r@[j].id,
                forall|i: int| 0 <= i < r@.len() ==> (#[trigger] r@[i]).id <= id,
                forall|i: int| 0 <= i < r@.len() ==> {
                    &&& self.findings@.contains_key(#[trigger] r@[i].id)
                    &&& self.findings@[r@[i].id]@ == r@[i]@
                },
                forall|k: usize| #[trigger] self.findings@.contains_key(k) && k <= id ==>
                    exists|i: int| 0 <= i < r@.len() && r@[i].id == k,
            decreases self.current_finding_id - id,
        {
            id = id + 1;
            match self.findings.get(&id) {
                Some(f) => {
                    let ghost before = r@;
                    r.push(f.duplicate());
                    assert forall|k: usize| #[trigger] self.findings@.contains_key(k) && k <= id
                        implies exists|i: int| 0 <= i < r@.len() && r@[i].id == k by {
                        if k == id {
                            assert(r@[r@.len() - 1].id == k);
                        } else {
                            let i = choose|i: int| 0 <= i < before.len() && before[i].id == k;
                            assert(r@[i] == before[i]);
                        }
                    }
                },
                None => {},
            }
        }
        assert(findings_view(r@).len() == r@.len());
        r
    }

    /// Starts a new finding under the next id, titled after it, and returns it.
    pub fn create_finding(&mut self) -> (r: Finding)
        requires
            old(self).wf(),
            old(self).current_finding_id < usize::MAX,
        ensures
            final(self).wf(),
            final(self).current_finding_id == old(self).current_finding_id + 1,
            r@ == (FindingView {
                title: default_title(r.id as nat),
                ..blank_finding(final(self).current_finding_id as nat, None)
            }),
            final(self).findings@ == old(self).findings@.insert(r.id, final(self).findings@[r.id]),
            final(self).findings@[r.id]@ == r@,
            !old(self).findings@.contains_key(r.id),
            final(self).checklist@ == old(self).checklist@,
            final(self).copied_finding == old(self).copied_finding,
    {
        self.current_finding_id = self.current_finding_id + 1;
        let id = self.current_finding_id;
        let mut f = Finding::blank(id, None);
        let mut title = "Finding".to_owned();
        let number = decimal_text(id);
        title.append(number.as_str());
        f.title = title;
        let r = f.duplicate();
        self.findings.insert(id, f);
        r
    }

    /// Keeps a copy of the finding with the given id for pasting; `false`
    /// where there is none.
    pub fn copy_finding(&mut self, id: usize) -> (r: bool)
        ensures
            r == old(self).findings@.contains_key(id),
            r ==> final(self).copied_finding is Some && final(self).copied_finding->0@
                == old(self).findings@[id]@,
            !r ==> final(self).copied_finding == old(self).copied_finding,
            final(self).findings == old(self).findings,
            final(self).current_finding_id == old(self).current_finding_id,
            final(self).checklist == old(self).checklist,
    {
        match self.findings.get(&id) {
            Some(f) => {
                self.copied_finding = Some(f.duplicate());
                true
            },
            None => false,
        }
    }

    /// Adds a copy of the copied finding under the next id and returns it;
    /// `None` where nothing was copied.
    pub fn paste_finding(&mut self) -> (r: Option<Finding>)
        requires
            old(self).wf(),
            old(self).current_finding_id < usize::MAX,
        ensures
            final(self).wf(),
            final(self).checklist@ == old(self).checklist@,
            match r {
                None => old(self).copied_finding is None && final(self).findings@ == old(
                    self,
                ).findings@ && final(self).current_finding_id == old(self).current_finding_id,
                Some(f) => {
                    &&& old(self).copied_finding is Some
                    &&& final(self).current_finding_id == old(self).current_finding_id + 1
                    &&& f.id == final(self).current_finding_id
                    &&& f@ == (FindingView { id: f.id as nat, ..old(self).copied_finding->0@ })
                    &&& !old(self).findings@.contains_key(f.id)
                    &&& final(self).findings@ == old(self).findings@.insert(f.id, final(self).findings@[f.id])
                    &&& final(self).findings@[f.id]@ == f@
                },
            },
    {
        match &self.copied_finding {
            None => None,
            Some(c) => {
                let mut f = c.duplicate();
                self.current_finding_id = self.current_finding_id + 1;
                f.id = self.current_finding_id;
                let r = f.duplicate();
                self.findings.insert(f.id, f);
                Some(r)
            },
        }
    }

    /// Removes the finding with the given id; `false` where there is none.
    pub fn remove_finding(&mut self, id: usize) -> (r: bool)
        requires
            old(self).wf(),
        ensures
            final(self).wf(),
            r == old(self).findings@.contains_key(id),
            final(self).findings@ == old(self).findings@.remove(id),
            final(self).current_finding_id == old(self).current_finding_id,
            final(self).checklist@ == old(self).checklist@,
    {
        self.findings.remove(&id).is_some()
    }

    /// Removes every finding and starts the ids again from one.
    pub fn clear_findings(&mut self)
        ensures
            final(self).wf(),
            final(self).findings@.is_empty(),
            final(self).current_finding_id == 0,
            final(self).checklist@ == old(self).checklist@,
    {
        self.findings.clear();
        self.current_finding_id = 0;
    }

    /// Sets a text field of the finding with the given id; `false` where there
    /// is none.
    pub fn set_finding_field(&mut self, id: usize, field: FindingField, text: &str) -> (r: bool)
        requires
            old(self).wf(),
        ensures
            final(self).wf(),
            r == old(self).findings@.contains_key(id),
            r ==> final(self).findings@ == old(self).findings@.insert(id, final(self).findings@[id])
                && final(self).findings@[id]@ == with_field(old(self).findings@[id]@, field, text@),
            !r ==> final(self).findings@ == old(self).findings@,
            final(self).current_finding_id == old(self).current_finding_id,
            final(self).checklist@ == old(self).checklist@,
    {
        match self.findings.remove(&id) {
            None => false,
            Some(mut f) => {
                let t = text.to_owned();
                match field {
                    FindingField::Title => f.title = t,
                    FindingField::Type => f.class = t,
                    FindingField::Location => f.location = t,
                    FindingField::Description => f.description = t,
                    FindingField::Recommendation => f.recommendation = t,
                    FindingField::Alleviation => f.alleviation = t,
                }
                self.findings.insert(id, f);
                assert(self.findings@ =~= old(self).findings@.insert(id, self.findings@[id]));
                true
            },
        }
    }

    /// Sets the severity of the finding with the given id from its name in
    /// the user interface (`critical`, `major`, `minor`, `informational`; any
    /// other name clears it); `false` where there is no such finding.
    pub fn set_finding_severity(&mut self, id: usize, name: &str) -> (r: bool)
        requires
            old(self).wf(),
        ensures
            final(self).wf(),
            r == old(self).findings@.contains_key(id),
            r ==> final(self).findings@ == old(self).findings@.insert(id, final(self).findings@[id])
                && final(self).findings@[id]@ == (FindingView {
                severity: selected_severity(name@),
                ..old(self).findings@[id]@
            }),
            !r ==> final(self).findings@ == old(self).findings@,
            final(self).current_finding_id == old(self).current_finding_id,
            final(self).checklist@ == old(self).checklist@,
    {
        match self.findings.remove(&id) {
            None => false,
            Some(mut f) => {
                f.severity = if same_text(name, "critical") {
                    Some(Severity::Critical)
                } else if same_text(name, "major") {
                    Some(Severity::Major)
                } else if same_text(name, "minor") {
                    Some(Severity::Minor)
                } else if same_text(name, "informational") {
                    Some(Severity::Informational)
                } else {
                    None
                };
                self.findings.insert(id, f);
                assert(self.findings@ =~= old(self).findings@.insert(id, self.findings@[id]));
                true
            },
        }
    }
}

} // verus!
