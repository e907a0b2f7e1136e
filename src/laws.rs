use vstd::prelude::*;
use crate::markdown::{
    closes_section, initial_state, is_open_marker, lemma_walk_counter, marker_id, open_prefix,
    opens_section, quote_from, section_count, severity_named, step, walk, MarkdownNode,
    ReaderState,
};
use crate::report::{blank_finding, ids_ascending};

verus! {

/// The section markers among the nodes, in order: `true` for one that opens,
/// `false` for one that closes.
pub open spec fn marker_seq(nodes: Seq<MarkdownNode>) -> Seq<bool>
    decreases nodes.len(),
{
    if nodes.len() == 0 {
        Seq::empty()
    } else if opens_section(nodes.last()) {
        marker_seq(nodes.drop_last()).push(true)
    } else if closes_section(nodes.last()) {
        marker_seq(nodes.drop_last()).push(false)
    } else {
        marker_seq(nodes.drop_last())
    }
}

/// Markers that open and close in turn, beginning with one that opens.
pub open spec fn alternating(m: Seq<bool>) -> bool {
    forall|k: int| 0 <= k < m.len() ==> #[trigger] m[k] == (k % 2 == 0)
}

/// Every section that opens closes before the next one opens, and the last one closes.
pub open spec fn sections_balanced(nodes: Seq<MarkdownNode>) -> bool {
    alternating(marker_seq(nodes)) && marker_seq(nodes).len() % 2 == 0
}

/// What holds after reading any nodes from the start with the counter at `c`.
pub proof fn lemma_walk_ids(c: nat, nodes: Seq<MarkdownNode>)
    ensures
        ({
            let (st, n) = walk(initial_state(), c, nodes);
            let m = marker_seq(nodes);
            &&& n == c + section_count(nodes)
            &&& forall|k: int| 0 <= k < st.findings.len() ==> c < #[trigger] st.findings[k].id <= n
            &&& ids_ascending(st.findings)
            &&& st.current_finding is Some ==> {
                &&& st.current_finding->0.id == n
                &&& c < n
                &&& forall|k: int| 0 <= k < st.findings.len() ==> #[trigger] st.findings[k].id < n
            }
            &&& alternating(m) ==> {
                &&& section_count(nodes) == (m.len() + 1) / 2
                &&& st.findings.len() == m.len() / 2
                &&& (st.current_finding is Some <==> m.len() % 2 == 1)
                &&& forall|k: int| 0 <= k < st.findings.len() ==> #[trigger] st.findings[k].id == c + k + 1
            }
        }),
    decreases nodes.len(),
{
    lemma_walk_counter(initial_state(), c, nodes);
    if nodes.len() > 0 {
        let prev = nodes.drop_last();
        lemma_walk_ids(c, prev);
        lemma_walk_counter(initial_state(), c, prev);
        let m0 = marker_seq(prev);
        let m = marker_seq(nodes);
        if alternating(m) {
            assert forall|k: int| 0 <= k < m0.len() implies #[trigger] m0[k] == (k % 2 == 0) by {
                assert(m[k] == m0[k]);
            }
            assert(alternating(m0));
            if m.len() > m0.len() {
                assert(m[m0.len() as int] == (m0.len() % 2 == 0));
            }
        }
    }
}

/// Id monotonicity: reading a document with the counter at `c` moves the
/// counter to `c` plus the number of sections that open, and the findings
/// come out with ids above `c`, up to the new counter, in ascending order.
/// Where every section closes before the next opens, there is one finding for
/// each section and their ids are `c + 1`, `c + 2`, … in document order.
pub proof fn lemma_import_ids(c: nat, nodes: Seq<MarkdownNode>)
    ensures
        ({
            let (st, n) = walk(initial_state(), c, nodes);
            &&& n == c + section_count(nodes)
            &&& forall|k: int| 0 <= k < st.findings.len() ==> c < #[trigger] st.findings[k].id <= n
            &&& ids_ascending(st.findings)
            &&& sections_balanced(nodes) ==> {
                &&& st.findings.len() == section_count(nodes)
                &&& forall|k: int| 0 <= k < st.findings.len() ==> #[trigger] st.findings[k].id == c + k + 1
            }
        }),
{
    lemma_walk_ids(c, nodes);
}

/// Dangling sections: where no section closes, reading the document yields no
/// finding, and the counter still moves on by one for each section that opens.
pub proof fn lemma_dangling_sections_dropped(c: nat, nodes: Seq<MarkdownNode>)
    requires
        forall|i: int| 0 <= i < nodes.len() ==> !closes_section(#[trigger] nodes[i]),
    ensures
        walk(initial_state(), c, nodes).0.findings.len() == 0,
        walk(initial_state(), c, nodes).1 == c + section_count(nodes),
    decreases nodes.len(),
{
    lemma_walk_counter(initial_state(), c, nodes);
    if nodes.len() > 0 {
        let prev = nodes.drop_last();
        assert forall|i: int| 0 <= i < prev.len() implies !closes_section(#[trigger] prev[i]) by {
            assert(prev[i] == nodes[i]);
        }
        lemma_dangling_sections_dropped(c, prev);
        assert(!closes_section(nodes[nodes.len() - 1]));
    }
}

/// Unknown severity tolerance: the marker `<section id="unknown">` opens a
/// finding, under the next id, with no severity, and keeps what was found
/// before; reading goes on from there like after any other marker.
pub proof fn lemma_unknown_severity(s: ReaderState, c: nat, n: MarkdownNode)
    requires
        n is Html,
        n->Html_0@ == "<section id=\"unknown\">\n"@,
    ensures
        step(s, c, n).0.current_finding == Some(blank_finding(c + 1, None)),
        step(s, c, n).0.findings == s.findings,
        step(s, c, n).1 == c + 1,
{
    reveal_strlit("<section id=\"unknown\">\n");
    reveal_strlit("<section id=\"");
    reveal_strlit("critical");
    reveal_strlit("major");
    reveal_strlit("minor");
    reveal_strlit("informational");
    let t = n->Html_0@;
    assert(t.subrange(0, open_prefix().len() as int) =~= open_prefix());
    assert(is_open_marker(t));
    reveal_with_fuel(quote_from, 9);
    assert(quote_from(t, 13) == 20);
    assert(marker_id(t).len() == 7);
    assert(severity_named(marker_id(t)) is None);
}

} // verus!
