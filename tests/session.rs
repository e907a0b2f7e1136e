use workbook::command::{tokenize_command_string, Command, DataKind, Parameter};
use workbook::report::{Finding, Severity};
use workbook::state::{FindingField, StateData};
use workbook::text::decimal_text;

#[test]
fn tokens_split_at_white_space_outside_quotes() {
    let t = tokenize_command_string("set_finding_title 3 \"Hello  world\"");
    assert_eq!(t, vec!["set_finding_title", "3", "Hello  world"]);
}

#[test]
fn tokens_turn_doubled_apostrophes_into_quotes() {
    let t = tokenize_command_string("  say \"a ''b'' c\"\t");
    assert_eq!(t, vec!["say", "a \"b\" c"]);
    assert_eq!(tokenize_command_string(""), Vec::<String>::new());
    assert_eq!(tokenize_command_string("   "), Vec::<String>::new());
    assert_eq!(tokenize_command_string("'''x"), vec!["\"'x"]);
}

#[test]
fn parameters_and_commands_keep_their_values() {
    let p = Parameter::new("id", DataKind::Int);
    assert_eq!(p.name, "id");
    assert_eq!(p.kind, DataKind::Int);
    let c = Command::new("remove_finding", &[p, Parameter::new("text", DataKind::String)]);
    assert_eq!(c.name, "remove_finding");
    assert_eq!(c.parameters.len(), 2);
    assert_eq!(c.parameters[1].name, "text");
    assert_eq!(c.parameters[1].kind, DataKind::String);
}

#[test]
fn numbers_are_written_in_decimal() {
    assert_eq!(decimal_text(0), "0");
    assert_eq!(decimal_text(7), "7");
    assert_eq!(decimal_text(10), "10");
    assert_eq!(decimal_text(40213), "40213");
}

#[test]
fn new_session_is_empty() {
    let s = StateData::new();
    assert!(!s.initialized);
    assert_eq!(s.current_finding_id, 0);
    assert!(s.checklist.is_empty());
    assert!(s.findings.is_empty());
    assert!(s.copied_finding.is_none());
}

#[test]
fn created_findings_take_the_next_id() {
    let mut s = StateData::new();
    let a = s.create_finding();
    let b = s.create_finding();
    assert_eq!(a.id, 1);
    assert_eq!(a.title, "Finding1");
    assert_eq!(b.id, 2);
    assert_eq!(b.title, "Finding2");
    assert_eq!(b.severity, None);
    assert_eq!(s.current_finding_id, 2);
    assert_eq!(s.findings.len(), 2);
}

#[test]
fn copy_and_paste_gives_a_new_id() {
    let mut s = StateData::new();
    assert!(s.paste_finding().is_none());
    let a = s.create_finding();
    assert!(s.set_finding_field(a.id, FindingField::Description, "text"));
    assert!(!s.copy_finding(9));
    assert!(s.copy_finding(a.id));
    let p = s.paste_finding().unwrap();
    assert_eq!(p.id, 2);
    assert_eq!(p.description, "text");
    assert_eq!(p.title, "Finding1");
    assert_eq!(s.findings[&2].description, "text");
}

#[test]
fn fields_and_severity_are_set_by_id() {
    let mut s = StateData::new();
    let a = s.create_finding();
    assert!(s.set_finding_field(a.id, FindingField::Title, "Overflow"));
    assert!(s.set_finding_field(a.id, FindingField::Type, "Math"));
    assert!(s.set_finding_field(a.id, FindingField::Location, "a.sol"));
    assert!(s.set_finding_field(a.id, FindingField::Recommendation, "Check"));
    assert!(s.set_finding_field(a.id, FindingField::Alleviation, "Done"));
    assert!(s.set_finding_severity(a.id, "major"));
    let f = &s.findings[&1];
    assert_eq!(f.title, "Overflow");
    assert_eq!(f.class, "Math");
    assert_eq!(f.location, "a.sol");
    assert_eq!(f.recommendation, "Check");
    assert_eq!(f.alleviation, "Done");
    assert_eq!(f.severity, Some(Severity::Major));
    assert!(s.set_finding_severity(a.id, "none"));
    assert_eq!(s.findings[&1].severity, None);
    assert!(!s.set_finding_field(5, FindingField::Title, "x"));
    assert!(!s.set_finding_severity(5, "major"));
}

#[test]
fn removing_and_clearing_findings() {
    let mut s = StateData::new();
    s.create_finding();
    s.create_finding();
    s.create_finding();
    assert!(s.remove_finding(2));
    assert!(!s.remove_finding(2));
    let ids: Vec<usize> = s.findings_in_order().iter().map(|f| f.id).collect();
    assert_eq!(ids, vec![1, 3]);
    s.clear_findings();
    assert!(s.findings.is_empty());
    assert_eq!(s.current_finding_id, 0);
    assert_eq!(s.create_finding().id, 1);
}

#[test]
fn checklist_entries_by_index() {
    let mut s = StateData::new();
    assert_eq!(s.create_checklist_entry(), 0);
    assert_eq!(s.create_checklist_entry(), 1);
    assert!(s.set_checklist_entry_checked(1, true));
    assert!(s.set_checklist_entry_text(1, "Review access control"));
    assert!(!s.set_checklist_entry_text(2, "x"));
    assert!(!s.set_checklist_entry_checked(2, true));
    assert_eq!(s.checklist[1], (true, "Review access control".to_string()));
    assert_eq!(s.checklist[0], (false, String::new()));
    assert!(s.remove_checklist_entry(0));
    assert!(!s.remove_checklist_entry(1));
    assert_eq!(s.checklist.len(), 1);
    s.clear_checklist_entries();
    assert!(s.checklist.is_empty());
}

fn classified(id: usize, title: &str, severity: Severity) -> Finding {
    Finding {
        id,
        title: title.to_string(),
        class: "Logic".to_string(),
        severity: Some(severity),
        location: "a.sol".to_string(),
        description: "d".to_string(),
        recommendation: "r".to_string(),
        alleviation: "a".to_string(),
    }
}

#[test]
fn loading_keeps_findings_by_id_and_moves_the_counter() {
    let mut s = StateData::new();
    assert!(s.load_findings(vec![classified(4, "D", Severity::Minor), classified(2, "B", Severity::Major)]));
    assert_eq!(s.current_finding_id, 4);
    assert_eq!(s.findings[&2].title, "B");
    let ids: Vec<usize> = s.findings_in_order().iter().map(|f| f.id).collect();
    assert_eq!(ids, vec![2, 4]);
    assert_eq!(s.create_finding().id, 5);
}

#[test]
fn loading_refuses_zero_and_repeated_ids() {
    let mut s = StateData::new();
    s.create_finding();
    assert!(!s.load_findings(vec![classified(0, "Z", Severity::Minor)]));
    assert!(!s.load_findings(vec![classified(3, "A", Severity::Minor), classified(3, "B", Severity::Minor)]));
    assert_eq!(s.current_finding_id, 1);
    assert_eq!(s.findings.len(), 1);
    assert_eq!(s.findings[&1].title, "Finding1");
}

#[test]
fn session_import_adds_under_fresh_ids() {
    let mut s = StateData::new();
    s.create_finding();
    let md = "<section id=\"major\">\n\n### Imported\n\n</section>\n";
    let found = s.import_markdown(md).unwrap();
    assert_eq!(found.len(), 1);
    assert_eq!(found[0].id, 2);
    assert_eq!(s.current_finding_id, 2);
    assert_eq!(s.findings[&2].title, "Imported");
    assert_eq!(s.findings[&1].title, "Finding1");
}

#[test]
fn session_export_needs_every_severity() {
    let mut s = StateData::new();
    assert_eq!(s.export_markdown(), Some(String::new()));
    s.create_finding();
    assert_eq!(s.export_markdown(), None);
    assert!(s.set_finding_severity(1, "critical"));
    let md = s.export_markdown().unwrap();
    assert!(md.starts_with("---\n\n<section id=\"critical\">\n\n### ![](https://svgshare.com/i/QKR.svg)Finding1\n"));
    let mut t = StateData::new();
    let back = t.import_markdown(md.as_str()).unwrap();
    assert_eq!(back.len(), 1);
    assert_eq!(back[0].title, "Finding1");
    assert_eq!(back[0].severity, Some(Severity::Critical));
}
