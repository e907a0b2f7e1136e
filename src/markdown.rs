use vstd::prelude::*;
use vstd::string::StrSliceExecFns;
use vstd::string::StringExecFns;
use crate::report::{blank_finding, findings_view, ids_ascending, Finding, FindingView, Severity};
use crate::laws::lemma_walk_ids;
use crate::text::{same_text, seq_starts_with, starts_with};
use comrak::nodes::NodeValue as Value;
use comrak::{parse_document, Arena, ComrakOptions};
use self::MarkdownNode::{Code, CodeBlock, Heading, Html, Other, Table, TableRow, Text};

verus! {

/// A node of a parsed Markdown document, as far as the finding reader looks at it.
/// A document is handed over as its nodes in pre-order: a parent before its children.
#[derive(Clone, Debug)]
pub enum MarkdownNode {
    /// A raw HTML block and its text.
    Html(String),
    /// A heading and its level.
    Heading(u32),
    /// An inline code span and its text.
    Code(String),
    /// A code block and its literal text.
    CodeBlock(String),
    /// A table.
    Table,
    /// A table row; `true` for the header row.
    TableRow(bool),
    /// A run of plain text.
    Text(String),
    /// Any other node.
    Other,
}

/// The body of a finding that prose goes to.
#[derive(Clone, Copy, Debug, PartialEq, Eq, Structural)]
pub enum MarkdownHeader {
    Description,
    Recommendation,
    Alleviation,
}

/// The nodes of the document that comrak parses from `text`, in pre-order.
pub uninterp spec fn markdown_nodes(text: Seq<char>) -> Seq<MarkdownNode>;

/// The text that opens a section, up to the start of its id.
pub open spec fn open_prefix() -> Seq<char> {
    "<section id=\""@
}

/// The text that closes a section.
pub open spec fn close_prefix() -> Seq<char> {
    "</section>"@
}

pub open spec fn is_open_marker(t: Seq<char>) -> bool {
    seq_starts_with(t, open_prefix())
}

pub open spec fn is_close_marker(t: Seq<char>) -> bool {
    !is_open_marker(t) && seq_starts_with(t, close_prefix())
}

/// Whether the node opens a section.
pub open spec fn opens_section(n: MarkdownNode) -> bool {
    match n {
        MarkdownNode::Html(t) => is_open_marker(t@),
        _ => false,
    }
}

/// Whether the node closes a section.
pub open spec fn closes_section(n: MarkdownNode) -> bool {
    match n {
        MarkdownNode::Html(t) => is_close_marker(t@),
        _ => false,
    }
}

/// The index of the first `"` in `t` at or after `i`, or the length of `t`.
pub open spec fn quote_from(t: Seq<char>, i: int) -> int
    decreases t.len() - i,
{
    if i < 0 || i >= t.len() {
        t.len() as int
    } else if t[i] == '"' {
        i
    } else {
        quote_from(t, i + 1)
    }
}

/// The id of a section marker: what stands between the first two quotes.
pub open spec fn marker_id(t: Seq<char>) -> Seq<char> {
    t.subrange(open_prefix().len() as int, quote_from(t, open_prefix().len() as int))
}

/// `c` is `l` once lower-cased, for a lower-case ASCII letter `l`.
pub open spec fn char_folds_to(c: char, l: char) -> bool {
    c == l || ('A' <= c && c <= 'Z' && c as u32 + 32 == l as u32)
}

/// `s` is `lower` once ASCII letters are lower-cased.
pub open spec fn folds_to(s: Seq<char>, lower: Seq<char>) -> bool {
    s.len() == lower.len() && forall|i: int| 0 <= i < s.len() ==> char_folds_to(#[trigger] s[i], lower[i])
}

/// The severity that a section id names, whatever its letter case.
pub open spec fn severity_named(s: Seq<char>) -> Option<Severity> {
    if folds_to(s, "critical"@) {
        Some(Severity::Critical)
    } else if folds_to(s, "major"@) {
        Some(Severity::Major)
    } else if folds_to(s, "minor"@) {
        Some(Severity::Minor)
    } else if folds_to(s, "informational"@) {
        Some(Severity::Informational)
    } else {
        None
    }
}

/// The body that a level-four heading's text selects.
pub open spec fn header_named(t: Seq<char>) -> Option<MarkdownHeader> {
    if t == "Description:"@ {
        Some(MarkdownHeader::Description)
    } else if t == "Recommendation:"@ {
        Some(MarkdownHeader::Recommendation)
    } else if t == "Alleviation:"@ {
        Some(MarkdownHeader::Alleviation)
    } else {
        None
    }
}

/// Inline code as it is written into a body.
pub open spec fn code_span(t: Seq<char>) -> Seq<char> {
    "`"@ + t + "`"@
}

/// Inline code, or a code block, as it is written into a title.
pub open spec fn title_code(t: Seq<char>) -> Seq<char> {
    " `"@ + t + "` "@
}

/// A code block as it is written into a body.
pub open spec fn code_block(t: Seq<char>) -> Seq<char> {
    "\n```\n"@ + t + "```\n"@
}

/// The state of the finding reader between two nodes.
pub struct ReaderState {
    pub findings: Seq<FindingView>,
    pub current_finding: Option<FindingView>,
    pub current_header: Option<MarkdownHeader>,
    pub current_header_level: Option<u32>,
    pub current_table_cell: Option<u32>,
}

pub open spec fn initial_state() -> ReaderState {
    ReaderState {
        findings: Seq::empty(),
        current_finding: None,
        current_header: None,
        current_header_level: None,
        current_table_cell: None,
    }
}

/// `f` with `t` added to the end of body `h`.
pub open spec fn append_body(f: FindingView, h: MarkdownHeader, t: Seq<char>) -> FindingView {
    match h {
        MarkdownHeader::Description => FindingView { description: f.description + t, ..f },
        MarkdownHeader::Recommendation => FindingView { recommendation: f.recommendation + t, ..f },
        MarkdownHeader::Alleviation => FindingView { alleviation: f.alleviation + t, ..f },
    }
}

/// Code goes to the title under a level-three heading, else to the open body.
pub open spec fn add_code(s: ReaderState, f: FindingView, in_title: Seq<char>, in_body: Seq<char>) -> ReaderState {
    if s.current_header_level == Some(3u32) {
        ReaderState { current_finding: Some(FindingView { title: f.title + in_title, ..f }), ..s }
    } else {
        match s.current_header {
            Some(h) => ReaderState { current_finding: Some(append_body(f, h, in_body)), ..s },
            None => s,
        }
    }
}

/// What a text run does: fill a cell of the header table, the title, select a
/// body, or go to the open body.
pub open spec fn add_text(s: ReaderState, f: FindingView, t: Seq<char>) -> ReaderState {
    match s.current_table_cell {
        Some(c) => if c == 0 {
            ReaderState {
                current_finding: Some(FindingView { class: f.class + t, ..f }),
                current_table_cell: Some(1u32),
                ..s
            }
        } else if c == 1 {
            ReaderState { current_table_cell: Some(2u32), ..s }
        } else if c == 2 {
            ReaderState {
                current_finding: Some(FindingView { location: f.location + t, ..f }),
                current_table_cell: None,
                ..s
            }
        } else {
            s
        },
        None => if s.current_header_level == Some(3u32) {
            ReaderState { current_finding: Some(FindingView { title: f.title + t, ..f }), ..s }
        } else if s.current_header_level == Some(4u32) {
            match header_named(t) {
                Some(h) => ReaderState {
                    current_header: Some(h),
                    current_header_level: None,
                    ..s
                },
                None => s,
            }
        } else {
            match s.current_header {
                Some(h) => ReaderState { current_finding: Some(append_body(f, h, t)), ..s },
                None => s,
            }
        },
    }
}

/// What a node other than raw HTML does inside the open finding `f`.
pub open spec fn step_inside(s: ReaderState, f: FindingView, n: MarkdownNode) -> ReaderState {
    match n {
        MarkdownNode::Heading(l) => ReaderState { current_header_level: Some(l), ..s },
        MarkdownNode::Code(t) => add_code(s, f, title_code(t@), code_span(t@)),
        MarkdownNode::CodeBlock(t) => add_code(s, f, title_code(t@), code_block(t@)),
        MarkdownNode::Table => ReaderState { current_header_level: None, ..s },
        MarkdownNode::TableRow(header) => if header {
            s
        } else {
            ReaderState { current_table_cell: Some(0u32), ..s }
        },
        MarkdownNode::Text(t) => add_text(s, f, t@),
        _ => s,
    }
}

/// One node read in state `s` with the id counter at `c`: the next state and counter.
pub open spec fn step(s: ReaderState, c: nat, n: MarkdownNode) -> (ReaderState, nat) {
    match n {
        MarkdownNode::Html(t) => if is_open_marker(t@) {
            (
                ReaderState {
                    current_finding: Some(blank_finding(c + 1, severity_named(marker_id(t@)))),
                    ..s
                },
                c + 1,
            )
        } else if is_close_marker(t@) {
            (
                ReaderState {
                    findings: match s.current_finding {
                        Some(f) => s.findings.push(f),
                        None => s.findings,
                    },
                    current_finding: None,
                    current_header: None,
                    current_header_level: None,
                    current_table_cell: None,
                },
                c,
            )
        } else {
            (s, c)
        },
        _ => match s.current_finding {
            Some(f) => (step_inside(s, f, n), c),
            None => (s, c),
        },
    }
}

/// The nodes read one after another, from the first.
pub open spec fn walk(s: ReaderState, c: nat, nodes: Seq<MarkdownNode>) -> (ReaderState, nat)
    decreases nodes.len(),
{
    if nodes.len() == 0 {
        (s, c)
    } else {
        let (s1, c1) = walk(s, c, nodes.drop_last());
        step(s1, c1, nodes.last())
    }
}

/// The number of section openings among the nodes.
pub open spec fn section_count(nodes: Seq<MarkdownNode>) -> nat
    decreases nodes.len(),
{
    if nodes.len() == 0 {
        0
    } else {
        section_count(nodes.drop_last()) + if opens_section(nodes.last()) { 1nat } else { 0nat }
    }
}

/// The findings read from `nodes` with the id counter at `c`.
pub open spec fn imported(nodes: Seq<MarkdownNode>, c: nat) -> Seq<FindingView> {
    walk(initial_state(), c, nodes).0.findings
}

/// The reader of findings out of a Markdown report: what it has found so far,
/// and where in a section it stands.
#[derive(Clone, Debug)]
pub struct MarkdownParser {
    pub findings: Vec<Finding>,
    pub current_finding: Option<Finding>,
    pub current_header: Option<MarkdownHeader>,
    pub current_header_level: Option<u32>,
    pub current_table_cell: Option<u32>,
}

impl View for MarkdownParser {
    type V = ReaderState;

    open spec fn view(&self) -> ReaderState {
        ReaderState {
            findings: findings_view(self.findings@),
            current_finding: match self.current_finding {
                Some(f) => Some(f@),
                None => None,
            },
            current_header: self.current_header,
            current_header_level: self.current_header_level,
            current_table_cell: self.current_table_cell,
        }
    }
}

/// Whether `s` is `lower` once its ASCII letters are lower-cased; `lower` is
/// meant to be lower case.
pub fn folds_to_lower(s: &str, lower: &str) -> (r: bool)
    ensures
        r == folds_to(s@, lower@),
{
    let n = s.unicode_len();
    if n != lower.unicode_len() {
        return false;
    }
    let mut i: usize = 0;
    while i < n
        invariant
            i <= n,
            n == s@.len(),
            n == lower@.len(),
            forall|k: int| 0 <= k < i ==> char_folds_to(#[trigger] s@[k], lower@[k]),
        decreases n - i,
    {
        let c = s.get_char(i);
        let l = lower.get_char(i);
        let ok = c == l || ('A' <= c && c <= 'Z' && (c as u32) + 32 == (l as u32));
        if !ok {
            assert(!char_folds_to(s@[i as int], lower@[i as int]));
            return false;
        }
        i = i + 1;
    }
    true
}

/// The id of a section marker that begins with the opening prefix.
fn marker_id_of(t: &str) -> (r: &str)
    requires
        is_open_marker(t@),
    ensures
        r@ == marker_id(t@),
{
    let start = "<section id=\"".unicode_len();
    let n = t.unicode_len();
    let mut j = start;
    while j < n && t.get_char(j) != '"'
        invariant
            start <= j <= n,
            n == t@.len(),
            start == open_prefix().len(),
            quote_from(t@, start as int) == quote_from(t@, j as int),
        decreases n - j,
    {
        j = j + 1;
    }
    t.substring_char(start, j)
}

impl MarkdownParser {
    /// A reader that has read nothing.
    pub fn new() -> (r: Self)
        ensures
            r@ == initial_state(),
    {
        let r = MarkdownParser {
            findings: Vec::new(),
            current_finding: None,
            current_header: None,
            current_header_level: None,
            current_table_cell: None,
        };
        assert(r@.findings =~= Seq::<FindingView>::empty());
        r
    }

    /// The severity that a section id names, whatever its letter case; `None`
    /// for any other id.
    pub fn parse_severity(input: &str) -> (r: Option<Severity>)
        ensures
            r == severity_named(input@),
    {
        if folds_to_lower(input, "critical") {
            Some(Severity::Critical)
        } else if folds_to_lower(input, "major") {
            Some(Severity::Major)
        } else if folds_to_lower(input, "minor") {
            Some(Severity::Minor)
        } else if folds_to_lower(input, "informational") {
            Some(Severity::Informational)
        } else {
            None
        }
    }
}

/// `t` added to the end of body `h` of `f`.
fn append_to_body(f: &mut Finding, h: MarkdownHeader, t: &str)
    ensures
        final(f)@ == append_body(old(f)@, h, t@),
{
    match h {
        MarkdownHeader::Description => f.description.append(t),
        MarkdownHeader::Recommendation => f.recommendation.append(t),
        MarkdownHeader::Alleviation => f.alleviation.append(t),
    }
}

/// `left`, then `t`, then `right`.
fn enclose(left: &str, t: &str, right: &str) -> (r: String)
    ensures
        r@ == left@ + t@ + right@,
{
    let mut r = left.to_owned();
    r.append(t);
    r.append(right);
    r
}

/// Whether a heading level is set and equals `n`.
fn is_level(level: Option<u32>, n: u32) -> (r: bool)
    ensures
        r == (level == Some(n)),
{
    match level {
        Some(l) => l == n,
        None => false,
    }
}

impl MarkdownParser {
    /// Code read inside the open finding.
    fn add_code(&mut self, in_title: &str, in_body: &str)
        requires
            old(self).current_finding is Some,
        ensures
            final(self)@ == add_code(old(self)@, old(self)@.current_finding->0, in_title@, in_body@),
    {
        let mut f = self.current_finding.take().unwrap();
        if is_level(self.current_header_level, 3) {
            f.title.append(in_title);
        } else {
            match self.current_header {
                Some(h) => append_to_body(&mut f, h, in_body),
                None => {},
            }
        }
        self.current_finding = Some(f);
    }

    /// A text run read inside the open finding.
    fn add_text(&mut self, t: &str)
        requires
            old(self).current_finding is Some,
        ensures
            final(self)@ == add_text(old(self)@, old(self)@.current_finding->0, t@),
    {
        let mut f = self.current_finding.take().unwrap();
        match self.current_table_cell {
            Some(c) => {
                if c == 0 {
                    f.class.append(t);
                    self.current_table_cell = Some(1);
                } else if c == 1 {
                    self.current_table_cell = Some(2);
                } else if c == 2 {
                    f.location.append(t);
                    self.current_table_cell = None;
                }
            },
            None => {
                if is_level(self.current_header_level, 3) {
                    f.title.append(t);
                } else if is_level(self.current_header_level, 4) {
                    let h = if same_text(t, "Description:") {
                        Some(MarkdownHeader::Description)
                    } else if same_text(t, "Recommendation:") {
                        Some(MarkdownHeader::Recommendation)
                    } else if same_text(t, "Alleviation:") {
                        Some(MarkdownHeader::Alleviation)
                    } else {
                        None
                    };
                    if h.is_some() {
                        self.current_header = h;
                        self.current_header_level = None;
                    }
                } else {
                    match self.current_header {
                        Some(h) => append_to_body(&mut f, h, t),
                        None => {},
                    }
                }
            },
        }
        self.current_finding = Some(f);
    }

    /// A node other than raw HTML read inside the open finding.
    fn step_inside(&mut self, node: &MarkdownNode)
        requires
            old(self).current_finding is Some,
            !(node is Html),
        ensures
            final(self)@ == step_inside(old(self)@, old(self)@.current_finding->0, *node),
    {
        match node {
            MarkdownNode::Heading(l) => {
                self.current_header_level = Some(*l);
            },
            MarkdownNode::Code(t) => {
                let in_title = enclose(" `", t.as_str(), "` ");
                let in_body = enclose("`", t.as_str(), "`");
                self.add_code(in_title.as_str(), in_body.as_str());
            },
            MarkdownNode::CodeBlock(t) => {
                let in_title = enclose(" `", t.as_str(), "` ");
                let in_body = enclose("\n```\n", t.as_str(), "```\n");
                self.add_code(in_title.as_str(), in_body.as_str());
            },
            MarkdownNode::Table => {
                self.current_header_level = None;
            },
            MarkdownNode::TableRow(header) => {
                if !*header {
                    self.current_table_cell = Some(0);
                }
            },
            MarkdownNode::Text(t) => {
                self.add_text(t.as_str());
            },
            _ => {},
        }
    }

    /// Reads one node of the document, taking a new id from `counter` for a
    /// section that opens. A finding is recorded when its section closes.
    pub fn parse_ast_node(&mut self, counter: &mut usize, node: &MarkdownNode)
        requires
            opens_section(*node) ==> *old(counter) < usize::MAX,
        ensures
            final(self)@ == step(old(self)@, *old(counter) as nat, *node).0,
            *final(counter) as nat == step(old(self)@, *old(counter) as nat, *node).1,
    {
        match node {
            MarkdownNode::Html(t) => {
                if starts_with(t.as_str(), "<section id=\"") {
                    let severity = Self::parse_severity(marker_id_of(t.as_str()));
                    *counter = *counter + 1;
                    self.current_finding = Some(Finding::blank(*counter, severity));
                } else if starts_with(t.as_str(), "</section>") {
                    let ghost before = self.findings@;
                    match self.current_finding.take() {
                        Some(f) => {
                            self.findings.push(f);
                            assert(findings_view(self.findings@) =~= findings_view(before).push(f@));
                        },
                        None => {},
                    }
                    self.current_header = None;
                    self.current_header_level = None;
                    self.current_table_cell = None;
                }
            },
            _ => {
                if self.current_finding.is_some() {
                    self.step_inside(node);
                }
            },
        }
    }
}

/// Reading nodes moves the counter on by one for each section that opens.
pub proof fn lemma_walk_counter(s: ReaderState, c: nat, nodes: Seq<MarkdownNode>)
    ensures
        walk(s, c, nodes).1 == c + section_count(nodes),
    decreases nodes.len(),
{
    if nodes.len() > 0 {
        lemma_walk_counter(s, c, nodes.drop_last());
    }
}

/// A prefix holds no more section openings than the whole.
proof fn lemma_section_count_prefix(nodes: Seq<MarkdownNode>, i: int)
    requires
        0 <= i <= nodes.len(),
    ensures
        section_count(nodes.subrange(0, i)) <= section_count(nodes),
    decreases nodes.len() - i,
{
    if i < nodes.len() {
        lemma_section_count_prefix(nodes, i + 1);
        assert(nodes.subrange(0, i + 1).drop_last() =~= nodes.subrange(0, i));
    } else {
        assert(nodes.subrange(0, i) =~= nodes);
    }
}

impl MarkdownParser {
    /// Reads the nodes one after another.
    pub fn parse_nodes(&mut self, counter: &mut usize, nodes: &Vec<MarkdownNode>)
        requires
            *old(counter) + section_count(nodes@) <= usize::MAX,
        ensures
            final(self)@ == walk(old(self)@, *old(counter) as nat, nodes@).0,
            *final(counter) as nat == walk(old(self)@, *old(counter) as nat, nodes@).1,
            *final(counter) == *old(counter) + section_count(nodes@),
    {
        let ghost s0 = self@;
        let ghost c0 = *counter as nat;
        let mut i: usize = 0;
        while i < nodes.len()
            invariant
                i <= nodes.len(),
                c0 + section_count(nodes@) <= usize::MAX,
                self@ == walk(s0, c0, nodes@.subrange(0, i as int)).0,
                *counter as nat == walk(s0, c0, nodes@.subrange(0, i as int)).1,
                *counter as nat == c0 + section_count(nodes@.subrange(0, i as int)),
            decreases nodes.len() - i,
        {
            proof {
                lemma_section_count_prefix(nodes@, i + 1);
                assert(nodes@.subrange(0, i + 1).drop_last() =~= nodes@.subrange(0, i as int));
                lemma_walk_counter(s0, c0, nodes@.subrange(0, i + 1));
            }
            self.parse_ast_node(counter, &nodes[i]);
            i = i + 1;
        }
        proof {
            assert(nodes@.subrange(0, i as int) =~= nodes@);
        }
    }
}

/// The number of section openings among the nodes.
pub fn count_sections(nodes: &Vec<MarkdownNode>) -> (r: usize)
    ensures
        r == section_count(nodes@),
{
    let mut r: usize = 0;
    let mut i: usize = 0;
    while i < nodes.len()
        invariant
            i <= nodes.len(),
            r <= i,
            r == section_count(nodes@.subrange(0, i as int)),
        decreases nodes.len() - i,
    {
        proof {
            assert(nodes@.subrange(0, i + 1).drop_last() =~= nodes@.subrange(0, i as int));
        }
        match &nodes[i] {
            MarkdownNode::Html(t) => {
                if starts_with(t.as_str(), "<section id=\"") {
                    r = r + 1;
                }
            },
            _ => {},
        }
        i = i + 1;
    }
    proof {
        assert(nodes@.subrange(0, i as int) =~= nodes@);
    }
    r
}

/// The findings of a document given as its nodes in pre-order, in document
/// order. Each section that opens takes the next id from `counter`; a finding
/// is produced when its section closes.
pub fn import_nodes(nodes: &Vec<MarkdownNode>, counter: &mut usize) -> (r: Vec<Finding>)
    requires
        *old(counter) + section_count(nodes@) <= usize::MAX,
    ensures
        findings_view(r@) == imported(nodes@, *old(counter) as nat),
        ids_ascending(findings_view(r@)),
        forall|k: int| 0 <= k < r@.len() ==> *old(counter) < #[trigger] r@[k].id <= *final(counter),
        *final(counter) == *old(counter) + section_count(nodes@),
{
    let mut parser = MarkdownParser::new();
    parser.parse_nodes(counter, nodes);
    proof {
        lemma_walk_ids(*old(counter) as nat, nodes@);
        let st = walk(initial_state(), *old(counter) as nat, nodes@).0;
        assert(findings_view(parser.findings@) == st.findings);
        assert forall|k: int| 0 <= k < parser.findings@.len() implies *old(counter) < #[trigger] parser.findings@[k].id
            <= *counter by {
            assert(st.findings[k] == parser.findings@[k]@);
            assert(*old(counter) < st.findings[k].id <= *counter);
        }
    }
    parser.findings
}

/// The findings of a Markdown report, in document order, read as
/// [`import_nodes`] reads the document's nodes. `None`, with the counter left
/// as it was, where the ids would run past the counter's range.
pub fn import_markdown(text: &str, counter: &mut usize) -> (r: Option<Vec<Finding>>)
    ensures
        match r {
            Some(v) => {
                &&& *old(counter) + section_count(markdown_nodes(text@)) <= usize::MAX
                &&& findings_view(v@) == imported(markdown_nodes(text@), *old(counter) as nat)
                &&& ids_ascending(findings_view(v@))
                &&& forall|k: int| 0 <= k < v@.len() ==> *old(counter) < #[trigger] v@[k].id <= *final(counter)
                &&& *final(counter) == *old(counter) + section_count(markdown_nodes(text@))
            },
            None => {
                &&& *old(counter) + section_count(markdown_nodes(text@)) > usize::MAX
                &&& *final(counter) == *old(counter)
            },
        },
{
    let nodes = parse_tree(text);
    let n = count_sections(&nodes);
    if n > usize::MAX - *counter {
        None
    } else {
        Some(import_nodes(&nodes, counter))
    }
}

/// Relies on comrak::parse_document, with the table extension on, for the tree
/// of `text`, and on comrak's Node::descendants for its nodes in pre-order. Each
/// node is handed over with the kind and text that the reader looks at.
#[verifier::external_body]
fn parse_tree(text: &str) -> (r: Vec<MarkdownNode>)
    ensures
        r@ == markdown_nodes(text@),
{
    let arena = Arena::new();
    let mut options = ComrakOptions::default();
    options.extension.table = true;
    let s = |b: &Vec<u8>| String::from_utf8_lossy(b).into_owned();
    parse_document(&arena, text, &options).descendants().map(|n| match &n.data.borrow().value {
        Value::HtmlBlock(b) => Html(s(&b.literal)),
        Value::Heading(h) => Heading(h.level),
        Value::Code(t) => Code(s(t)),
        Value::CodeBlock(b) => CodeBlock(s(&b.literal)),
        Value::Table(_) => Table,
        Value::TableRow(h) => TableRow(*h),
        Value::Text(t) => Text(s(t)),
        _ => Other,
    }).collect()
}

} // verus!
