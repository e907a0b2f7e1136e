use vstd::prelude::*;
use vstd::string::StrSliceExecFns;
use crate::text::{push_char, replace_all, replace_text};

verus! {

/// The kind of value a command parameter takes.
#[derive(Clone, Copy, Debug, PartialEq, Eq, Structural)]
pub enum DataKind {
    Int,
    Float,
    String,
}

/// A named parameter of a command.
#[derive(Clone, Debug)]
pub struct Parameter {
    pub name: String,
    pub kind: DataKind,
}

/// A command that the user interface may send, with its parameters.
pub struct Command {
    pub name: String,
    pub parameters: Vec<Parameter>,
}

impl Parameter {
    pub fn new(name: &str, kind: DataKind) -> (r: Self)
        ensures
            r.name@ == name@,
            r.kind == kind,
    {
        Parameter { name: name.to_owned(), kind }
    }
}

impl Command {
    /// A command with copies of the given parameters, in order.
    pub fn new(name: &str, parameters: &[Parameter]) -> (r: Self)
        ensures
            r.name@ == name@,
            r.parameters@.len() == parameters@.len(),
            forall|i: int|
                0 <= i < parameters@.len() ==> {
                    &&& (#[trigger] r.parameters@[i]).name@ == parameters@[i].name@
                    &&& r.parameters@[i].kind == parameters@[i].kind
                },
    {
        let mut v: Vec<Parameter> = Vec::new();
        let mut i: usize = 0;
        while i < parameters.len()
            invariant
                i <= parameters@.len(),
                v@.len() == i,
                forall|k: int|
                    0 <= k < i ==> {
                        &&& (#[trigger] v@[k]).name@ == parameters@[k].name@
                        &&& v@[k].kind == parameters@[k].kind
                    },
            decreases parameters@.len() - i,
        {
            let p = &parameters[i];
            v.push(Parameter { name: p.name.clone(), kind: p.kind });
            i = i + 1;
        }
        Command { name: name.to_owned(), parameters: v }
    }
}

/// Whether `c` has Unicode's White_Space property.
pub open spec fn white_space(c: char) -> bool {
    ('\t' <= c && c <= '\r') || c == ' ' || c == '\u{85}' || c == '\u{a0}' || c == '\u{1680}'
        || ('\u{2000}' <= c && c <= '\u{200a}') || c == '\u{2028}' || c == '\u{2029}'
        || c == '\u{202f}' || c == '\u{205f}' || c == '\u{3000}'
}

/// A token as it is handed out: each `''`, from the left, read as `"`.
pub open spec fn unquote(t: Seq<char>) -> Seq<char> {
    replace_all(t, "''"@, "\""@)
}

/// Where the tokenizer stands: the tokens so far, the token being read, and
/// whether it is inside double quotes.
pub struct TokenizerState {
    pub tokens: Seq<Seq<char>>,
    pub token: Seq<char>,
    pub quoted: bool,
}

/// One character read.
pub open spec fn token_step(st: TokenizerState, c: char) -> TokenizerState {
    if white_space(c) {
        if st.quoted {
            TokenizerState { token: st.token.push(c), ..st }
        } else if st.token.len() != 0 {
            TokenizerState { tokens: st.tokens.push(unquote(st.token)), token: Seq::empty(), ..st }
        } else {
            st
        }
    } else if c == '"' {
        TokenizerState { quoted: !st.quoted, ..st }
    } else {
        TokenizerState { token: st.token.push(c), ..st }
    }
}

/// The characters read one after another.
pub open spec fn token_walk(s: Seq<char>) -> TokenizerState
    decreases s.len(),
{
    if s.len() == 0 {
        TokenizerState { tokens: Seq::empty(), token: Seq::empty(), quoted: false }
    } else {
        token_step(token_walk(s.drop_last()), s.last())
    }
}

/// The tokens of a command string: words split at white space outside double
/// quotes, the quotes dropped, and each `''` in a token read as `"`.
pub open spec fn tokens_of(s: Seq<char>) -> Seq<Seq<char>> {
    let st = token_walk(s);
    if st.token.len() != 0 {
        st.tokens.push(unquote(st.token))
    } else {
        st.tokens
    }
}

/// The views of a list of strings.
pub open spec fn strings_view(v: Seq<String>) -> Seq<Seq<char>> {
    v.map_values(|s: String| s@)
}

/// Whether `c` has Unicode's White_Space property.
pub fn is_white_space(c: char) -> (r: bool)
    ensures
        r == white_space(c),
{
    ('\t' <= c && c <= '\r') || c == ' ' || c == '\u{85}' || c == '\u{a0}' || c == '\u{1680}'
        || ('\u{2000}' <= c && c <= '\u{200a}') || c == '\u{2028}' || c == '\u{2029}'
        || c == '\u{202f}' || c == '\u{205f}' || c == '\u{3000}'
}

/// Splits a command string into its tokens: words at white space outside
/// double quotes, the quotes dropped, each `''` in a token read as `"`.
pub fn tokenize_command_string(string: &str) -> (r: Vec<String>)
    ensures
        strings_view(r@) == tokens_of(string@),
{
    let n = string.unicode_len();
    let mut quoted = false;
    let mut tokens: Vec<String> = Vec::new();
    let mut token = String::new();
    let mut i: usize = 0;
    while i < n
        invariant
            i <= n,
            n == string@.len(),
            ({
                let st = token_walk(string@.subrange(0, i as int));
                &&& strings_view(tokens@) == st.tokens
                &&& token@ == st.token
                &&& quoted == st.quoted
            }),
        decreases n - i,
    {
        proof {
            assert(string@.subrange(0, i + 1).drop_last() =~= string@.subrange(0, i as int));
        }
        let c = string.get_char(i);
        if is_white_space(c) {
            if quoted {
                push_char(&mut token, c);
            } else if token.unicode_len() != 0 {
                let u = replace_text(token.as_str(), "''", "\"");
                let ghost before = tokens@;
                tokens.push(u);
                assert(strings_view(tokens@) =~= strings_view(before).push(u@));
                token = String::new();
            }
        } else if c == '"' {
            quoted = !quoted;
        } else {
            push_char(&mut token, c);
        }
        i = i + 1;
    }
    proof {
        assert(string@.subrange(0, n as int) =~= string@);
    }
    if token.unicode_len() != 0 {
        let u = replace_text(token.as_str(), "''", "\"");
        let ghost before = tokens@;
        tokens.push(u);
        assert(strings_view(tokens@) =~= strings_view(before).push(u@));
    }
    tokens
}

} // verus!
