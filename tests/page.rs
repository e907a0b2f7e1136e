use workbook::html::{escape_js, severity_style, HtmlElement};
use workbook::report::Severity;
use workbook::text::replace_text;

#[test]
fn new_element_has_nothing_set() {
    let e = HtmlElement::new("table", "t");
    assert_eq!(e.class, "table");
    assert_eq!(e.name, "t");
    assert!(!e.get && !e.remove);
    assert!(e.attrs.is_empty() && e.children.is_empty());
    let g = HtmlElement::get("paste_button");
    assert!(g.get);
    assert_eq!(g.class, "");
    assert_eq!(g.name, "paste_button");
}

#[test]
fn attributes_are_set_once_by_name() {
    let mut e = HtmlElement::new("input", "i");
    e.set_attribute("type", "text");
    e.set_attribute("id", "finding1_title");
    e.set_attribute("type", "checkbox");
    assert_eq!(e.attrs, vec![("type".to_string(), "checkbox".to_string()), ("id".to_string(), "finding1_title".to_string())]);
    e.set_field("style.resize", "vertical");
    assert_eq!(e.fields, vec![("style.resize".to_string(), "vertical".to_string())]);
}

#[test]
fn setters_record_values() {
    let mut e = HtmlElement::new("select", "s");
    e.set_inner_html("<b>x</b>");
    e.set_text("t");
    e.set_value("v");
    e.set_disabled(true);
    e.set_selected(false);
    e.set_selected_index(Some(2));
    e.remove();
    assert_eq!(e.inner.as_deref(), Some("<b>x</b>"));
    assert_eq!(e.text.as_deref(), Some("t"));
    assert_eq!(e.value.as_deref(), Some("v"));
    assert_eq!(e.disabled, Some(true));
    assert_eq!(e.selected, Some(false));
    assert_eq!(e.selected_index, Some(2));
    assert!(e.remove);
}

#[test]
fn rows_cells_and_children_are_placed() {
    let mut t = HtmlElement::new("table", "t");
    {
        let r = t.insert_row(0, "r1");
        let c = r.insert_cell(0, "c1");
        c.append_child(HtmlElement::new("img", "i"));
    }
    t.insert_row(0, "r0");
    assert_eq!(t.rows.len(), 2);
    assert_eq!(t.rows[0].name, "r0");
    assert_eq!(t.rows[1].name, "r1");
    assert_eq!(t.rows[1].class, "tr");
    assert_eq!(t.rows[1].cells[0].class, "td");
    assert_eq!(t.rows[1].cells[0].children[0].name, "i");
}

#[test]
fn escaping_for_javascript_strings() {
    assert_eq!(escape_js("it's\r\nnext\nline"), "it\\'s\\nnext\\nline");
    assert_eq!(escape_js(""), "");
    assert_eq!(replace_text("aaa", "aa", "b"), "ba");
    assert_eq!(replace_text("abc", "", "x"), "abc");
    assert_eq!(replace_text("x.y.z", ".", "::"), "x::y::z");
}

#[test]
fn element_lookup_and_removal_scripts() {
    let mut e = HtmlElement::get("finding3");
    e.remove();
    let mut js = String::new();
    e.build_js(&mut js);
    assert_eq!(js, "var finding3 = document.getElementById('finding3');finding3.remove();");
}

#[test]
fn element_script_sets_values_then_builds_rows_and_children() {
    let mut t = HtmlElement::new("table", "t");
    t.set_attribute("id", "o'k");
    t.set_field("style.resize", "vertical");
    t.set_inner_html("a\nb");
    t.set_disabled(false);
    t.set_selected(true);
    {
        let r = t.insert_row(0, "r");
        let c = r.insert_cell(0, "c");
        c.set_text("x");
    }
    t.append_child(HtmlElement::new("p", "p"));
    let mut js = String::new();
    t.build_js(&mut js);
    let expected = "var t = document.createElement('table');\
t.innerHTML = 'a\\nb';\
t.selected = true;\
t.disabled = false;\
t.setAttribute('id', 'o\\'k');\
t.style.resize = 'vertical';\
var r = t.insertRow(0);\
var c = r.insertCell(0);\
c.text = 'x';\
var p = document.createElement('p');\
t.appendChild(p);";
    assert_eq!(js, expected);
}

#[test]
fn severities_have_colours() {
    assert_eq!(severity_style(Some(Severity::Critical)), "color: red");
    assert_eq!(severity_style(Some(Severity::Major)), "color: orange");
    assert_eq!(severity_style(Some(Severity::Minor)), "color: yellow");
    assert_eq!(severity_style(Some(Severity::Informational)), "color: green");
    assert_eq!(severity_style(None), "color: inherit");
}
