use vstd::prelude::*;
use vstd::string::StringExecFns;
use crate::report::Severity;
use crate::text::{decimal, decimal_text, replace_all, replace_text, same_text};

verus! {

/// A description of a change to one element of the user interface's page:
/// an element to create (or to look up by id), what to set on it, and the
/// elements to add under it. Named values keep the order in which they were
/// first set, and a name is set once.
#[derive(Debug)]
pub struct HtmlElement {
    pub get: bool,
    pub remove: bool,
    pub disabled: Option<bool>,
    pub class: String,
    pub name: String,
    pub inner: Option<String>,
    pub text: Option<String>,
    pub value: Option<String>,
    pub selected: Option<bool>,
    pub selected_index: Option<usize>,
    pub attrs: Vec<(String, String)>,
    pub fields: Vec<(String, String)>,
    pub rows: Vec<HtmlElement>,
    pub cells: Vec<HtmlElement>,
    pub children: Vec<HtmlElement>,
}

/// The views of a list of named values.
pub open spec fn pairs_view(v: Seq<(String, String)>) -> Seq<(Seq<char>, Seq<char>)> {
    v.map_values(|p: (String, String)| (p.0@, p.1@))
}

/// No name occurs twice.
pub open spec fn names_unique(v: Seq<(Seq<char>, Seq<char>)>) -> bool {
    forall|i: int, j: int| 0 <= i < j < v.len() ==> v[i].0 != v[j].0
}

/// The named values with `name` set to `value`: in place where the name is
/// there, else at the end.
pub open spec fn set_pair(v: Seq<(Seq<char>, Seq<char>)>, name: Seq<char>, value: Seq<char>) -> Seq<
    (Seq<char>, Seq<char>),
> {
    if exists|i: int| 0 <= i < v.len() && v[i].0 == name {
        let i = choose|i: int| 0 <= i < v.len() && v[i].0 == name;
        v.update(i, (name, value))
    } else {
        v.push((name, value))
    }
}

/// `s` as it stands inside a single-quoted JavaScript string: apostrophes
/// escaped, line breaks written as `\n`.
pub open spec fn escaped(s: Seq<char>) -> Seq<char> {
    replace_all(replace_all(replace_all(s, "'"@, "\\'"@), "\r\n"@, "\n"@), "\n"@, "\\n"@)
}

/// `s` as it stands inside a single-quoted JavaScript string.
pub fn escape_js(s: &str) -> (r: String)
    ensures
        r@ == escaped(s@),
{
    let a = replace_text(s, "'", "\\'");
    let b = replace_text(a.as_str(), "\r\n", "\n");
    replace_text(b.as_str(), "\n", "\\n")
}

/// The statement that makes the variable of an element: it looks the element
/// up, or creates it; none for a table row or cell, whose variable the
/// statement that inserts it makes.
pub open spec fn head_js(e: HtmlElement) -> Seq<char> {
    if e.class@ != "tr"@ && e.class@ != "td"@ {
        if e.get {
            "var "@ + e.name@ + " = "@ + "document.getElementById('"@ + escaped(e.name@) + "')"@ + ";"@
        } else {
            "var "@ + e.name@ + " = "@ + "document.createElement('"@ + escaped(e.class@) + "')"@ + ";"@
        }
    } else {
        Seq::empty()
    }
}

/// The statement that sets a string property, where one is to be set.
pub open spec fn string_prop_js(name: Seq<char>, prop: Seq<char>, v: Option<String>) -> Seq<char> {
    match v {
        Some(s) => name + prop + escaped(s@) + "';"@,
        None => Seq::empty(),
    }
}

/// The statements that set the element's own properties.
pub open spec fn props_js(e: HtmlElement) -> Seq<char> {
    string_prop_js(e.name@, ".innerHTML = '"@, e.inner) + string_prop_js(e.name@, ".text = '"@, e.text)
        + string_prop_js(e.name@, ".value = '"@, e.value) + (if e.selected == Some(true) {
        e.name@ + ".selected = true;"@
    } else {
        Seq::empty()
    }) + match e.disabled {
        Some(true) => e.name@ + ".disabled = true;"@,
        Some(false) => e.name@ + ".disabled = false;"@,
        None => Seq::empty(),
    }
}

/// The statements that set named values: attributes, or properties.
pub open spec fn pairs_js(name: Seq<char>, v: Seq<(Seq<char>, Seq<char>)>, attribute: bool) -> Seq<char>
    decreases v.len(),
{
    if v.len() == 0 {
        Seq::empty()
    } else {
        pairs_js(name, v.drop_last(), attribute) + if attribute {
            name + ".setAttribute('"@ + escaped(v.last().0) + "', '"@ + escaped(v.last().1) + "');"@
        } else {
            name + "."@ + v.last().0 + " = '"@ + escaped(v.last().1) + "';"@
        }
    }
}

/// How elements hang under their parent.
#[derive(Clone, Copy, Debug, PartialEq, Eq, Structural)]
pub enum Placement {
    Row,
    Cell,
    Child,
}

/// The statements that build the element `e`, the `k`-th of its kind under
/// the element `name`.
pub open spec fn item_js(name: Seq<char>, e: HtmlElement, k: nat, how: Placement) -> Seq<char>
    decreases e, 1int,
{
    match how {
        Placement::Row => "var "@ + e.name@ + " = "@ + name + ".insertRow("@ + decimal(k) + ");"@
            + js_of(e),
        Placement::Cell => "var "@ + e.name@ + " = "@ + name + ".insertCell("@ + decimal(k) + ");"@
            + js_of(e),
        Placement::Child => js_of(e) + name + ".appendChild("@ + e.name@ + ");"@,
    }
}

/// The statements that build the first `k` of `items` under the element `name`.
pub open spec fn list_js(name: Seq<char>, items: Seq<HtmlElement>, k: int, how: Placement) -> Seq<char>
    decreases items, k,
{
    if k <= 0 || k > items.len() {
        Seq::empty()
    } else {
        list_js(name, items, k - 1, how) + item_js(name, items[k - 1], (k - 1) as nat, how)
    }
}

/// The JavaScript that carries out what an element describes: its own
/// statements, then its attributes and properties, rows, cells and children,
/// each in order; only the removal where the element is to be removed.
pub open spec fn js_of(e: HtmlElement) -> Seq<char>
    decreases e, 0int,
{
    if e.remove {
        head_js(e) + e.name@ + ".remove();"@
    } else {
        head_js(e) + props_js(e) + pairs_js(e.name@, pairs_view(e.attrs@), true) + pairs_js(
            e.name@,
            pairs_view(e.fields@),
            false,
        ) + list_js(e.name@, e.rows@, e.rows@.len() as int, Placement::Row) + list_js(
            e.name@,
            e.cells@,
            e.cells@.len() as int,
            Placement::Cell,
        ) + list_js(e.name@, e.children@, e.children@.len() as int, Placement::Child)
    }
}

/// What [`js_of`] is.
proof fn lemma_js_of(e: HtmlElement)
    ensures
        js_of(e) == if e.remove {
            head_js(e) + e.name@ + ".remove();"@
        } else {
            head_js(e) + props_js(e) + pairs_js(e.name@, pairs_view(e.attrs@), true) + pairs_js(
                e.name@,
                pairs_view(e.fields@),
                false,
            ) + list_js(e.name@, e.rows@, e.rows@.len() as int, Placement::Row) + list_js(
                e.name@,
                e.cells@,
                e.cells@.len() as int,
                Placement::Cell,
            ) + list_js(e.name@, e.children@, e.children@.len() as int, Placement::Child)
        },
{
}

impl HtmlElement {
    /// An element as it is made: of the given class and name, with nothing set.
    pub open spec fn is_fresh(&self, get: bool, class: Seq<char>, name: Seq<char>) -> bool {
        &&& self.get == get
        &&& !self.remove
        &&& self.disabled is None
        &&& self.class@ == class
        &&& self.name@ == name
        &&& self.inner is None
        &&& self.text is None
        &&& self.value is None
        &&& self.selected is None
        &&& self.selected_index is None
        &&& self.attrs@.len() == 0
        &&& self.fields@.len() == 0
        &&& self.rows@.len() == 0
        &&& self.cells@.len() == 0
        &&& self.children@.len() == 0
    }

    /// Each attribute and each field is set once.
    pub open spec fn wf(&self) -> bool {
        names_unique(pairs_view(self.attrs@)) && names_unique(pairs_view(self.fields@))
    }

    /// A new element of the given class (its tag), to be known by `name`.
    pub fn new(class: &str, name: &str) -> (r: Self)
        ensures
            r.is_fresh(false, class@, name@),
            r.wf(),
    {
        HtmlElement {
            get: false,
            remove: false,
            disabled: None,
            class: class.to_owned(),
            name: name.to_owned(),
            inner: None,
            text: None,
            value: None,
            selected: None,
            selected_index: None,
            attrs: Vec::new(),
            fields: Vec::new(),
            rows: Vec::new(),
            cells: Vec::new(),
            children: Vec::new(),
        }
    }

    /// The element of the page whose id is `name`.
    pub fn get(name: &str) -> (r: Self)
        ensures
            r.is_fresh(true, Seq::empty(), name@),
            r.wf(),
    {
        HtmlElement {
            get: true,
            remove: false,
            disabled: None,
            class: String::new(),
            name: name.to_owned(),
            inner: None,
            text: None,
            value: None,
            selected: None,
            selected_index: None,
            attrs: Vec::new(),
            fields: Vec::new(),
            rows: Vec::new(),
            cells: Vec::new(),
            children: Vec::new(),
        }
    }

    /// Marks the element to be removed from the page.
    pub fn remove(&mut self)
        ensures
            *final(self) == (HtmlElement { remove: true, ..*old(self) }),
    {
        self.remove = true;
    }

    /// Sets an attribute of the element.
    pub fn set_attribute(&mut self, name: &str, value: &str)
        requires
            old(self).wf(),
        ensures
            final(self).wf(),
            pairs_view(final(self).attrs@) == set_pair(pairs_view(old(self).attrs@), name@, value@),
            *final(self) == (HtmlElement { attrs: final(self).attrs, ..*old(self) }),
    {
        set_named(&mut self.attrs, name, value);
    }

    /// Sets a property of the element, such as `style.resize`.
    pub fn set_field(&mut self, name: &str, value: &str)
        requires
            old(self).wf(),
        ensures
            final(self).wf(),
            pairs_view(final(self).fields@) == set_pair(pairs_view(old(self).fields@), name@, value@),
            *final(self) == (HtmlElement { fields: final(self).fields, ..*old(self) }),
    {
        set_named(&mut self.fields, name, value);
    }

    /// Sets the inner HTML of the element.
    pub fn set_inner_html(&mut self, html: &str)
        ensures
            final(self).inner is Some && final(self).inner->0@ == html@,
            *final(self) == (HtmlElement { inner: final(self).inner, ..*old(self) }),
    {
        self.inner = Some(html.to_owned());
    }

    /// Sets the text of the element.
    pub fn set_text(&mut self, text: &str)
        ensures
            final(self).text is Some && final(self).text->0@ == text@,
            *final(self) == (HtmlElement { text: final(self).text, ..*old(self) }),
    {
        self.text = Some(text.to_owned());
    }

    /// Sets the value of the element.
    pub fn set_value(&mut self, value: &str)
        ensures
            final(self).value is Some && final(self).value->0@ == value@,
            *final(self) == (HtmlElement { value: final(self).value, ..*old(self) }),
    {
        self.value = Some(value.to_owned());
    }

    /// Enables or disables the element.
    pub fn set_disabled(&mut self, disabled: bool)
        ensures
            *final(self) == (HtmlElement { disabled: Some(disabled), ..*old(self) }),
    {
        self.disabled = Some(disabled);
    }

    /// Selects the element, or leaves it as the page has it.
    pub fn set_selected(&mut self, selected: bool)
        ensures
            *final(self) == (HtmlElement { selected: Some(selected), ..*old(self) }),
    {
        self.selected = Some(selected);
    }

    /// Sets which option of the element is selected.
    pub fn set_selected_index(&mut self, index: Option<usize>)
        ensures
            *final(self) == (HtmlElement { selected_index: index, ..*old(self) }),
    {
        self.selected_index = index;
    }

    /// Adds an element under this one, after those added before.
    pub fn append_child(&mut self, child: HtmlElement)
        ensures
            final(self).children@ == old(self).children@.push(child),
            *final(self) == (HtmlElement { children: final(self).children, ..*old(self) }),
    {
        self.children.push(child);
    }

    /// Inserts a new table row named `name` at `index` and hands it out.
    pub fn insert_row(&mut self, index: usize, name: &str) -> (r: &mut HtmlElement)
        requires
            index <= old(self).rows@.len(),
        ensures
            r.is_fresh(false, "tr"@, name@),
            r.wf(),
            final(self).rows@ == old(self).rows@.insert(index as int, *final(r)),
            *final(self) == (HtmlElement { rows: final(self).rows, ..*old(self) }),
    {
        self.rows.insert(index, HtmlElement::new("tr", name));
        &mut self.rows[index]
    }

    /// Inserts a new table cell named `name` at `index` and hands it out.
    pub fn insert_cell(&mut self, index: usize, name: &str) -> (r: &mut HtmlElement)
        requires
            index <= old(self).cells@.len(),
        ensures
            r.is_fresh(false, "td"@, name@),
            r.wf(),
            final(self).cells@ == old(self).cells@.insert(index as int, *final(r)),
            *final(self) == (HtmlElement { cells: final(self).cells, ..*old(self) }),
    {
        self.cells.insert(index, HtmlElement::new("td", name));
        &mut self.cells[index]
    }
}

/// Appends the statement that sets a string property, where one is to be set.
fn append_string_prop(js: &mut String, name: &str, prop: &str, v: &Option<String>)
    ensures
        final(js)@ == old(js)@ + string_prop_js(name@, prop@, *v),
{
    match v {
        Some(s) => {
            let e = escape_js(s.as_str());
            let mut t = name.to_owned();
            t.append(prop);
            t.append(e.as_str());
            t.append("';");
            js.append(t.as_str());
        },
        None => {
            assert(old(js)@ + Seq::<char>::empty() =~= old(js)@);
        },
    }
}

/// Appends the statements that set named values.
fn append_pairs(js: &mut String, name: &str, v: &Vec<(String, String)>, attribute: bool)
    ensures
        final(js)@ == old(js)@ + pairs_js(name@, pairs_view(v@), attribute),
{
    let ghost pv = pairs_view(v@);
    let ghost start = js@;
    let mut i: usize = 0;
    assert(pv.subrange(0, 0) =~= Seq::<(Seq<char>, Seq<char>)>::empty());
    assert(start + Seq::<char>::empty() =~= start);
    while i < v.len()
        invariant
            i <= v@.len(),
            pv == pairs_view(v@),
            js@ == start + pairs_js(name@, pv.subrange(0, i as int), attribute),
        decreases v@.len() - i,
    {
        let (k, val) = (&v[i].0, &v[i].1);
        let mut t = name.to_owned();
        if attribute {
            let ek = escape_js(k.as_str());
            let ev = escape_js(val.as_str());
            t.append(".setAttribute('");
            t.append(ek.as_str());
            t.append("', '");
            t.append(ev.as_str());
            t.append("');");
        } else {
            let ev = escape_js(val.as_str());
            t.append(".");
            t.append(k.as_str());
            t.append(" = '");
            t.append(ev.as_str());
            t.append("';");
        }
        let ghost before = js@;
        js.append(t.as_str());
        proof {
            let next = pv.subrange(0, i + 1);
            assert(next.drop_last() =~= pv.subrange(0, i as int));
            assert(next.last() == pv[i as int]);
            assert(js@ =~= start + pairs_js(name@, next, attribute));
        }
        i = i + 1;
    }
    assert(pv.subrange(0, i as int) =~= pv);
}

impl HtmlElement {
    /// Appends the statement that makes the element's variable.
    fn append_head(&self, js: &mut String)
        ensures
            final(js)@ == old(js)@ + head_js(*self),
    {
        let row_or_cell = same_text(self.class.as_str(), "tr") || same_text(self.class.as_str(), "td");
        if !row_or_cell {
            let mut t = "var ".to_owned();
            t.append(self.name.as_str());
            t.append(" = ");
            if self.get {
                let e = escape_js(self.name.as_str());
                t.append("document.getElementById('");
                t.append(e.as_str());
                t.append("')");
            } else {
                let e = escape_js(self.class.as_str());
                t.append("document.createElement('");
                t.append(e.as_str());
                t.append("')");
            }
            t.append(";");
            js.append(t.as_str());
        } else {
            assert(old(js)@ + Seq::<char>::empty() =~= old(js)@);
        }
    }

    /// Appends the statements that set the element's own properties.
    fn append_props(&self, js: &mut String)
        ensures
            final(js)@ == old(js)@ + props_js(*self),
    {
        let ghost start = js@;
        let name = self.name.as_str();
        append_string_prop(js, name, ".innerHTML = '", &self.inner);
        append_string_prop(js, name, ".text = '", &self.text);
        append_string_prop(js, name, ".value = '", &self.value);
        let ghost mid = js@;
        let mut t = String::new();
        match self.selected {
            Some(true) => {
                t.append(name);
                t.append(".selected = true;");
            },
            _ => {},
        }
        match self.disabled {
            Some(true) => {
                t.append(name);
                t.append(".disabled = true;");
            },
            Some(false) => {
                t.append(name);
                t.append(".disabled = false;");
            },
            None => {},
        }
        js.append(t.as_str());
        assert(js@ =~= start + props_js(*self));
    }

    /// Appends the JavaScript that carries out what the element describes.
    #[verifier::spinoff_prover]
    #[verifier::rlimit(50)]
    pub fn build_js(&self, js: &mut String)
        ensures
            final(js)@ == old(js)@ + js_of(*self),
        decreases self, 0int,
    {
        let ghost start = js@;
        let name = self.name.as_str();
        self.append_head(js);
        if self.remove {
            let mut t = name.to_owned();
            t.append(".remove();");
            js.append(t.as_str());
                assert(js@ =~= start + js_of(*self));
            return;
        }
        let ghost hd = head_js(*self);
        let ghost pr = props_js(*self);
        let ghost at = pairs_js(self.name@, pairs_view(self.attrs@), true);
        let ghost fl = pairs_js(self.name@, pairs_view(self.fields@), false);
        let ghost rw = list_js(self.name@, self.rows@, self.rows@.len() as int, Placement::Row);
        let ghost cl = list_js(self.name@, self.cells@, self.cells@.len() as int, Placement::Cell);
        let ghost ch = list_js(self.name@, self.children@, self.children@.len() as int, Placement::Child);
        self.append_props(js);
        assert(js@ =~= start + (hd + pr));
        append_pairs(js, name, &self.attrs, true);
        assert(js@ =~= start + (hd + pr + at));
        append_pairs(js, name, &self.fields, false);
        assert(js@ =~= start + (hd + pr + at + fl));
        proof {
            assert(decreases_to!(self => self.rows));
            assert(decreases_to!(self => self.cells));
            assert(decreases_to!(self => self.children));
        }
        append_list(js, name, &self.rows, Placement::Row);
        assert(js@ =~= start + (hd + pr + at + fl + rw));
        append_list(js, name, &self.cells, Placement::Cell);
        assert(js@ =~= start + (hd + pr + at + fl + rw + cl));
        append_list(js, name, &self.children, Placement::Child);
        assert(js@ =~= start + (hd + pr + at + fl + rw + cl + ch));
        assert(js_of(*self) == hd + pr + at + fl + rw + cl + ch);
        assert(js@ =~= start + js_of(*self));
    }
}

/// Appends the statements that build `items` under the element `name`.
#[verifier::spinoff_prover]
#[verifier::rlimit(50)]
fn append_list(js: &mut String, name: &str, items: &Vec<HtmlElement>, how: Placement)
    ensures
        final(js)@ == old(js)@ + list_js(name@, items@, items@.len() as int, how),
    decreases items@, 1int,
{
    let ghost start = js@;
    let mut i: usize = 0;
    assert(start + Seq::<char>::empty() =~= start);
    while i < items.len()
        invariant
            i <= items@.len(),
            js@ == start + list_js(name@, items@, i as int, how),
        decreases items@.len() - i,
    {
        let e = &items[i];
        let ghost before = js@;
        proof {
            assert(decreases_to!(items@ => items@[i as int]));
        }
        assert(list_js(name@, items@, i + 1, how) == list_js(name@, items@, i as int, how) + item_js(
            name@,
            items@[i as int],
            i as nat,
            how,
        ));
        match how {
            Placement::Child => {
                e.build_js(js);
                let mut t = name.to_owned();
                t.append(".appendChild(");
                t.append(e.name.as_str());
                t.append(");");
                js.append(t.as_str());
                assert(t@ == name@ + ".appendChild("@ + e.name@ + ");"@);
                assert(js@ =~= before + (js_of(*e) + name@ + ".appendChild("@ + e.name@ + ");"@));
            },
            _ => {
                let mut t = "var ".to_owned();
                t.append(e.name.as_str());
                t.append(" = ");
                t.append(name);
                if how == Placement::Row {
                    t.append(".insertRow(");
                } else {
                    t.append(".insertCell(");
                }
                let d = decimal_text(i);
                t.append(d.as_str());
                t.append(");");
                js.append(t.as_str());
                e.build_js(js);
                assert(js@ =~= before + (t@ + js_of(*e)));
                if how == Placement::Row {
                    assert(t@ == "var "@ + e.name@ + " = "@ + name@ + ".insertRow("@ + decimal(i as nat) + ");"@);
                } else {
                    assert(t@ == "var "@ + e.name@ + " = "@ + name@ + ".insertCell("@ + decimal(i as nat) + ");"@);
                }
            },
        }
        assert(js@ =~= before + item_js(name@, items@[i as int], i as nat, how));
        assert(js@ =~= start + list_js(name@, items@, i + 1, how));
        i = i + 1;
    }
}

/// The text colour that marks a severity on the page.
pub open spec fn style_of(severity: Option<Severity>) -> Seq<char> {
    match severity {
        Some(Severity::Critical) => "color: red"@,
        Some(Severity::Major) => "color: orange"@,
        Some(Severity::Minor) => "color: yellow"@,
        Some(Severity::Informational) => "color: green"@,
        None => "color: inherit"@,
    }
}

/// The text colour that marks a severity on the page.
pub fn severity_style(severity: Option<Severity>) -> (r: &'static str)
    ensures
        r@ == style_of(severity),
{
    match severity {
        Some(Severity::Critical) => "color: red",
        Some(Severity::Major) => "color: orange",
        Some(Severity::Minor) => "color: yellow",
        Some(Severity::Informational) => "color: green",
        None => "color: inherit",
    }
}

/// Sets `name` to `value` among named values: in place where the name is
/// there, else at the end.
fn set_named(v: &mut Vec<(String, String)>, name: &str, value: &str)
    requires
        names_unique(pairs_view(old(v)@)),
    ensures
        names_unique(pairs_view(final(v)@)),
        pairs_view(final(v)@) == set_pair(pairs_view(old(v)@), name@, value@),
{
    let ghost pv = pairs_view(v@);
    let mut i: usize = 0;
    while i < v.len()
        invariant
            i <= v@.len(),
            v@ == old(v)@,
            pv == pairs_view(v@),
            names_unique(pv),
            forall|k: int| 0 <= k < i ==> pv[k].0 != name@,
        decreases v@.len() - i,
    {
        if same_text(v[i].0.as_str(), name) {
            assert(pv[i as int].0 == name@);
            v.set(i, (name.to_owned(), value.to_owned()));
            proof {
                let j = choose|j: int| 0 <= j < pv.len() && pv[j].0 == name@;
                if j < i {
                    assert(pv[j].0 != pv[i as int].0);
                } else if j > i {
                    assert(pv[i as int].0 != pv[j].0);
                }
                assert(pairs_view(v@) =~= pv.update(i as int, (name@, value@)));
            }
            return;
        }
        i = i + 1;
    }
    v.push((name.to_owned(), value.to_owned()));
    assert(pairs_view(v@) =~= pv.push((name@, value@)));
}

} // verus!
