use workbook::export::export_markdown;
use workbook::markdown::{count_sections, import_markdown, import_nodes, MarkdownNode, MarkdownParser};
use workbook::report::{Finding, Severity};

fn html(s: &str) -> MarkdownNode {
    MarkdownNode::Html(s.to_string())
}

fn text(s: &str) -> MarkdownNode {
    MarkdownNode::Text(s.to_string())
}

fn code(s: &str) -> MarkdownNode {
    MarkdownNode::Code(s.to_string())
}

fn finding(id: usize, title: &str, class: &str, severity: Severity, location: &str, d: &str, r: &str, a: &str) -> Finding {
    Finding {
        id,
        title: title.to_string(),
        class: class.to_string(),
        severity: Some(severity),
        location: location.to_string(),
        description: d.to_string(),
        recommendation: r.to_string(),
        alleviation: a.to_string(),
    }
}

#[test]
fn title_inline_code_gets_spaces() {
    let nodes = vec![
        html("<section id=\"critical\">\n"),
        MarkdownNode::Heading(3),
        text("Foo"),
        code("bar"),
        text("Baz"),
        html("</section>\n"),
    ];
    let mut counter = 0usize;
    let found = import_nodes(&nodes, &mut counter);
    assert_eq!(found.len(), 1);
    assert_eq!(found[0].title, "Foo `bar` Baz");
    assert_eq!(found[0].description, "");
}

#[test]
fn body_inline_code_has_no_spaces() {
    let nodes = vec![
        html("<section id=\"major\">\n"),
        MarkdownNode::Heading(4),
        text("Description:"),
        MarkdownNode::Other,
        text("Foo"),
        code("bar"),
        text("Baz"),
        html("</section>\n"),
    ];
    let mut counter = 0usize;
    let found = import_nodes(&nodes, &mut counter);
    assert_eq!(found.len(), 1);
    assert_eq!(found[0].description, "Foo`bar`Baz");
    assert_eq!(found[0].title, "");
    assert_eq!(found[0].severity, Some(Severity::Major));
}

#[test]
fn table_row_fills_type_and_location() {
    let nodes = vec![
        html("<section id=\"critical\">\n"),
        MarkdownNode::Table,
        MarkdownNode::TableRow(true),
        text("Type"),
        text("Severity"),
        text("Location"),
        text("Status"),
        MarkdownNode::TableRow(false),
        text("Reentrancy"),
        text("Critical"),
        text("contracts/Vault.sol:42"),
        html("</section>\n"),
    ];
    let mut counter = 0usize;
    let found = import_nodes(&nodes, &mut counter);
    assert_eq!(found.len(), 1);
    assert_eq!(found[0].class, "Reentrancy");
    assert_eq!(found[0].location, "contracts/Vault.sol:42");
    assert_eq!(found[0].severity, Some(Severity::Critical));
    assert_eq!(found[0].title, "");
}

#[test]
fn code_block_goes_to_body_fenced() {
    let nodes = vec![
        html("<section id=\"minor\">\n"),
        MarkdownNode::Heading(4),
        text("Recommendation:"),
        text("Use"),
        MarkdownNode::CodeBlock("let x = 1;\n".to_string()),
        MarkdownNode::Heading(4),
        text("Alleviation:"),
        text("Done"),
        html("</section>\n"),
    ];
    let mut counter = 0usize;
    let found = import_nodes(&nodes, &mut counter);
    assert_eq!(found[0].recommendation, "Use\n```\nlet x = 1;\n```\n");
    assert_eq!(found[0].alleviation, "Done");
}

#[test]
fn unmatched_level_four_heading_drops_body() {
    let nodes = vec![
        html("<section id=\"minor\">\n"),
        MarkdownNode::Heading(4),
        text("Notes:"),
        text("lost"),
        html("</section>\n"),
    ];
    let mut counter = 0usize;
    let found = import_nodes(&nodes, &mut counter);
    assert_eq!(found.len(), 1);
    assert_eq!(found[0].description, "");
    assert_eq!(found[0].title, "");
}

#[test]
fn text_outside_sections_is_dropped() {
    let nodes = vec![
        MarkdownNode::Heading(3),
        text("Preamble"),
        html("<div>\n"),
        html("</section>\n"),
        html("<section id=\"informational\">\n"),
        MarkdownNode::Heading(3),
        text("Kept"),
        html("</section>\n"),
    ];
    let mut counter = 0usize;
    let found = import_nodes(&nodes, &mut counter);
    assert_eq!(found.len(), 1);
    assert_eq!(found[0].title, "Kept");
    assert_eq!(found[0].id, 1);
    assert_eq!(found[0].severity, Some(Severity::Informational));
}

#[test]
fn ids_follow_the_counter() {
    let md = "<section id=\"critical\">\n\n### A\n\n</section>\n\n<section id=\"major\">\n\n### B\n\n</section>\n\n<section id=\"minor\">\n\n### C\n\n</section>\n";
    let mut counter = 5usize;
    let found = import_markdown(md, &mut counter).unwrap();
    assert_eq!(counter, 8);
    let ids: Vec<usize> = found.iter().map(|f| f.id).collect();
    assert_eq!(ids, vec![6, 7, 8]);
    let titles: Vec<&str> = found.iter().map(|f| f.title.as_str()).collect();
    assert_eq!(titles, vec!["A", "B", "C"]);
}

#[test]
fn unknown_severity_is_absent_and_import_goes_on() {
    let md = "<section id=\"unknown\">\n\n### First\n\n</section>\n\n<section id=\"Critical\">\n\n### Second\n\n</section>\n";
    let mut counter = 0usize;
    let found = import_markdown(md, &mut counter).unwrap();
    assert_eq!(found.len(), 2);
    assert_eq!(found[0].severity, None);
    assert_eq!(found[0].title, "First");
    assert_eq!(found[1].severity, Some(Severity::Critical));
    assert_eq!(found[1].title, "Second");
}

#[test]
fn dangling_section_is_dropped() {
    let md = "<section id=\"critical\">\n\n### Lost\n\n| Type | Severity | Location | Status |\n|-|-|-|-|\n| Logic | Critical | a.sol | |\n\n#### Description:\n\nNever closed.\n";
    let mut counter = 0usize;
    let found = import_markdown(md, &mut counter).unwrap();
    assert_eq!(found.len(), 0);
    assert_eq!(counter, 1);
}

#[test]
fn counter_overflow_is_refused() {
    let md = "<section id=\"critical\">\n\n### A\n\n</section>\n";
    let mut counter = usize::MAX;
    assert!(import_markdown(md, &mut counter).is_none());
    assert_eq!(counter, usize::MAX);
}

#[test]
fn sections_are_counted() {
    let nodes = vec![html("<section id=\"x\">"), html("</section>"), html("<section id=\"y\">"), text("t")];
    assert_eq!(count_sections(&nodes), 2);
}

#[test]
fn severity_names_ignore_case() {
    assert_eq!(MarkdownParser::parse_severity("Critical"), Some(Severity::Critical));
    assert_eq!(MarkdownParser::parse_severity("MAJOR"), Some(Severity::Major));
    assert_eq!(MarkdownParser::parse_severity("minor"), Some(Severity::Minor));
    assert_eq!(MarkdownParser::parse_severity("InFoRmAtIoNaL"), Some(Severity::Informational));
    assert_eq!(MarkdownParser::parse_severity("unknown"), None);
    assert_eq!(MarkdownParser::parse_severity(""), None);
}

#[test]
fn export_writes_the_section_template() {
    let f = finding(1, "Title", "Logic", Severity::Major, "a.sol:3", "Desc", "Rec", "All");
    let md = export_markdown(&vec![f]);
    let expected = "---\n\n<section id=\"major\">\n\n### ![](https://svgshare.com/i/QKR.svg)Title\n\n| Type | Severity | Location | Status |\n|-|-|-|-|\n| Logic | Major | a.sol:3 | |\n\n#### Description:\n\nDesc\n\n#### Recommendation:\n\nRec\n\n#### Alleviation:\n\nAll\n\n</section>\n\n";
    assert_eq!(md, expected);
}

#[test]
fn export_of_nothing_is_empty() {
    assert_eq!(export_markdown(&vec![]), "");
}

#[test]
fn export_then_import_gives_the_findings_back() {
    let findings = vec![
        finding(1, "Reentrancy in withdraw", "Logical Issue", Severity::Critical, "contracts/Vault.sol:42",
            "The withdraw function sends before it updates.", "Update the balance first.", "Fixed in a later commit."),
        finding(2, "Unused variable", "Coding Style", Severity::Informational, "contracts/Token.sol:7",
            "A variable is never read.", "Remove it.", "None."),
        finding(3, "Missing event", "Volatile Code", Severity::Minor, "contracts/Owner.sol:12",
            "Ownership changes emit nothing.", "Emit an event.", ""),
    ];
    let md = export_markdown(&findings);
    let mut counter = 0usize;
    let back = import_markdown(&md, &mut counter).unwrap();
    assert_eq!(counter, 3);
    assert_eq!(back, findings);
}

#[test]
fn parsed_code_spans_and_blocks_reach_the_bodies() {
    let md = "<section id=\"minor\">\n\n### Use `call` safely\n\n#### Description:\n\nUse `x` now\n\n```\nlet y = 2;\n```\n\n</section>\n";
    let mut counter = 0usize;
    let found = import_markdown(md, &mut counter).unwrap();
    assert_eq!(found.len(), 1);
    assert_eq!(found[0].title, "Use  `call`  safely");
    assert_eq!(found[0].description, "Use `x` now\n```\nlet y = 2;\n```\n");
}
