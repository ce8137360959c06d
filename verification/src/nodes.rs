//! Turning markup node trees into translatable strings: text and string
//! nodes contribute their cleaned text, interpolation containers
//! contribute `{{name}}` blocks or literal values, child elements are
//! wrapped in numbered pseudo-tags.

use vstd::prelude::*;

use crate::extract::ws_end;
use crate::text::{
    chars_to_string, copy_range, dec_str, is_whitespace_char, to_chars, trim, trim_vec, u64_to_dec,
};

verus! {

/// A node position, 1-based; the simplified tree carries no real spans.
#[derive(Clone, Copy, PartialEq, Eq, Structural, Debug)]
pub struct Location {
    pub line: u32,
    pub column: u32,
}

/// A markup syntax node, as the string builder understands it. The numeric
/// literal carries no payload: numbers are ignored when building strings.
pub enum AstNode {
    JSXText { value: String },
    StringLiteral { value: String },
    JSXExpressionContainer { expression: Box<AstNode> },
    NumericLiteral,
    ObjectExpression { properties: Vec<ObjectProperty> },
    TemplateLiteral { quasis: Vec<TemplateElement> },
    JSXElement { children: Vec<AstNode> },
    Other,
}

/// One `key: value` property of an object expression.
pub struct ObjectProperty {
    pub key: ObjectKey,
    pub value: Box<AstNode>,
}

/// An object property's key.
pub struct ObjectKey {
    pub name: String,
}

/// One literal chunk of a template literal.
pub struct TemplateElement {
    pub value: TemplateElementValue,
}

/// The raw text of a template chunk.
pub struct TemplateElementValue {
    pub raw: String,
}

// ------------------------------------------------------------------
// Text cleaning
// ------------------------------------------------------------------
/// A line-ending character.
pub open spec fn is_crlf(c: char) -> bool {
    c == '\r' || c == '\n'
}

/// The end of the line-ending run starting at `i`.
pub open spec fn crlf_end(s: Seq<char>, i: int) -> int
    decreases s.len() - i,
{
    if i < 0 || i >= s.len() {
        i
    } else if !is_crlf(s[i]) {
        i
    } else {
        crlf_end(s, i + 1)
    }
}

/// The end of a newline-led whitespace run: the line-ending run and any
/// whitespace after it.
pub open spec fn nl_run_end(s: Seq<char>, i: int) -> int {
    ws_end(s, crlf_end(s, i))
}

/// The start of the newline-led whitespace run that reaches the end of
/// the text, if any.
pub open spec fn tail_nl_start(s: Seq<char>, i: int) -> Option<int>
    decreases s.len() - i,
{
    if i < 0 || i >= s.len() {
        None
    } else if is_crlf(s[i]) && nl_run_end(s, i) >= s.len() {
        Some(i)
    } else {
        tail_nl_start(s, i + 1)
    }
}

/// Every newline-led whitespace run replaced by a single space.
pub open spec fn collapse_runs(s: Seq<char>, i: int) -> Seq<char>
    decreases s.len() - i,
{
    if i < 0 || i >= s.len() {
        Seq::empty()
    } else if is_crlf(s[i]) {
        let j = nl_run_end(s, i);
        seq![' '] + collapse_runs(
            s,
            if i + 1 < j && j <= s.len() {
                j
            } else {
                i + 1
            },
        )
    } else {
        seq![s[i]] + collapse_runs(s, i + 1)
    }
}

/// A leading newline-led whitespace run removed.
pub open spec fn strip_leading_nl(s: Seq<char>) -> Seq<char> {
    if s.len() > 0 && is_crlf(s[0]) {
        s.skip(nl_run_end(s, 0))
    } else {
        s
    }
}

/// A trailing newline-led whitespace run removed.
pub open spec fn strip_trailing_nl(s: Seq<char>) -> Seq<char> {
    match tail_nl_start(s, 0) {
        Some(i) => s.take(i),
        None => s,
    }
}

/// Text cleaned for the string builder: newline-led whitespace is dropped
/// at the edges and collapsed to single spaces inside, and the result is
/// trimmed.
pub open spec fn spec_process_text(s: Seq<char>) -> Seq<char> {
    trim(collapse_runs(strip_trailing_nl(strip_leading_nl(s)), 0))
}

fn crlf_end_exec(s: &Vec<char>, i: usize) -> (r: usize)
    requires
        i <= s@.len(),
    ensures
        i <= r <= s@.len(),
        r as int == crlf_end(s@, i as int),
{
    let mut j = i;
    while j < s.len() && (s[j] == '\r' || s[j] == '\n')
        invariant
            i <= j <= s@.len(),
            crlf_end(s@, i as int) == crlf_end(s@, j as int),
        decreases s@.len() - j,
    {
        j += 1;
    }
    j
}

fn nl_run_end_exec(s: &Vec<char>, i: usize) -> (r: usize)
    requires
        i <= s@.len(),
    ensures
        i <= r <= s@.len(),
        r as int == nl_run_end(s@, i as int),
{
    let a = crlf_end_exec(s, i);
    let mut j = a;
    while j < s.len() && is_whitespace_char(s[j])
        invariant
            a <= j <= s@.len(),
            ws_end(s@, a as int) == ws_end(s@, j as int),
        decreases s@.len() - j,
    {
        j += 1;
    }
    j
}

fn tail_nl_start_exec(s: &Vec<char>) -> (r: Option<usize>)
    ensures
        (match r {
            Some(i) => tail_nl_start(s@, 0) == Some(i as int) && i < s@.len(),
            None => tail_nl_start(s@, 0) is None,
        }),
{
    let mut i: usize = 0;
    while i < s.len()
        invariant
            i <= s@.len(),
            tail_nl_start(s@, 0) == tail_nl_start(s@, i as int),
        decreases s@.len() - i,
    {
        if s[i] == '\r' || s[i] == '\n' {
            let e = nl_run_end_exec(s, i);
            if e >= s.len() {
                return Some(i);
            }
        }
        i += 1;
    }
    None
}

/// Cleans a text chunk: strips newline-led whitespace at both edges,
/// collapses inner newline-led whitespace to single spaces, and trims.
pub fn process_text_value(value: &str) -> (r: String)
    ensures
        r@ == spec_process_text(value@),
{
    let v = to_chars(value);
    let start: usize = if v.len() > 0 && (v[0] == '\r' || v[0] == '\n') {
        nl_run_end_exec(&v, 0)
    } else {
        0
    };
    let v1 = copy_range(&v, start, v.len());
    proof {
        assert(v1@ =~= strip_leading_nl(value@));
    }
    let v2 = match tail_nl_start_exec(&v1) {
        Some(t) => {
            let w = copy_range(&v1, 0, t);
            proof {
                assert(w@ =~= strip_trailing_nl(v1@));
            }
            w
        },
        None => {
            let w = copy_range(&v1, 0, v1.len());
            proof {
                assert(w@ =~= strip_trailing_nl(v1@));
            }
            w
        },
    };
    let mut out: Vec<char> = Vec::new();
    let mut i: usize = 0;
    proof {
        assert(out@ + collapse_runs(v2@, 0) =~= collapse_runs(v2@, 0));
    }
    while i < v2.len()
        invariant
            i <= v2@.len(),
            out@ + collapse_runs(v2@, i as int) == collapse_runs(v2@, 0),
        decreases v2@.len() - i,
    {
        let ghost o0 = out@;
        if v2[i] == '\r' || v2[i] == '\n' {
            let j = nl_run_end_exec(&v2, i);
            out.push(' ');
            let next = if j > i + 1 {
                j
            } else {
                i + 1
            };
            proof {
                assert(out@ + collapse_runs(v2@, next as int) =~= o0 + (seq![' '] + collapse_runs(
                    v2@,
                    next as int,
                )));
            }
            i = next;
        } else {
            out.push(v2[i]);
            proof {
                assert(out@ + collapse_runs(v2@, i as int + 1) =~= o0 + (seq![v2@[i as int]]
                    + collapse_runs(v2@, i as int + 1)));
            }
            i += 1;
        }
    }
    proof {
        assert(out@ + collapse_runs(v2@, i as int) =~= out@);
    }
    let t = trim_vec(&out);
    chars_to_string(&t)
}

// ------------------------------------------------------------------
// Building the string
// ------------------------------------------------------------------
/// The concatenated raw chunks of the first `i` template elements.
pub open spec fn quasis_str(qs: Seq<TemplateElement>, i: int) -> Seq<char>
    decreases i,
{
    if i <= 0 {
        Seq::empty()
    } else {
        quasis_str(qs, i - 1) + qs[i - 1].value.raw@
    }
}

/// The text an interpolation container's inner expression contributes: a
/// numeric literal nothing, a string literal its raw value, an object
/// expression its first property name as a `{{name}}` block, a template
/// literal its chunks, anything else nothing.
pub open spec fn expr_str(e: AstNode) -> Seq<char> {
    match e {
        AstNode::StringLiteral { value } => value@,
        AstNode::ObjectExpression { properties } => if properties@.len() > 0 {
            seq!['{', '{'] + properties@[0].key.name@ + seq!['}', '}']
        } else {
            Seq::empty()
        },
        AstNode::TemplateLiteral { quasis } => quasis_str(quasis@, quasis@.len() as int),
        _ => Seq::empty(),
    }
}

/// The text one node contributes at position `idx`.
pub open spec fn node_piece(n: AstNode, idx: int) -> Seq<char>
    decreases n,
{
    match n {
        AstNode::JSXText { value } => spec_process_text(value@),
        AstNode::StringLiteral { value } => spec_process_text(value@),
        AstNode::JSXExpressionContainer { expression } => expr_str(*expression),
        AstNode::JSXElement { children } => seq!['<'] + dec_str(idx) + seq!['>'] + nodes_str(
            children@,
            0,
        ) + seq!['<', '/'] + dec_str(idx) + seq!['>'],
        _ => Seq::empty(),
    }
}

/// The text a node list contributes, from position `i`; child elements
/// are numbered by their position in their own list.
pub open spec fn nodes_str(nodes: Seq<AstNode>, i: int) -> Seq<char>
    decreases nodes, nodes.len() - i,
{
    if i < 0 || i >= nodes.len() {
        Seq::empty()
    } else {
        node_piece(nodes[i], i) + nodes_str(nodes, i + 1)
    }
}

fn quasis_str_exec(qs: &Vec<TemplateElement>) -> (r: Vec<char>)
    ensures
        r@ == quasis_str(qs@, qs@.len() as int),
{
    let mut out: Vec<char> = Vec::new();
    let mut i: usize = 0;
    while i < qs.len()
        invariant
            i <= qs@.len(),
            out@ == quasis_str(qs@, i as int),
        decreases qs@.len() - i,
    {
        let mut c = to_chars(qs[i].value.raw.as_str());
        out.append(&mut c);
        i += 1;
    }
    out
}

fn expr_str_exec(e: &AstNode) -> (r: Vec<char>)
    ensures
        r@ == expr_str(*e),
{
    match e {
        AstNode::StringLiteral { value } => to_chars(value.as_str()),
        AstNode::ObjectExpression { properties } => {
            if properties.len() > 0 {
                let mut out: Vec<char> = Vec::new();
                out.push('{');
                out.push('{');
                let mut nm = to_chars(properties[0].key.name.as_str());
                out.append(&mut nm);
                out.push('}');
                out.push('}');
                proof {
                    assert(out@ =~= seq!['{', '{'] + properties@[0].key.name@ + seq!['}', '}']);
                }
                out
            } else {
                Vec::new()
            }
        },
        AstNode::TemplateLiteral { quasis } => quasis_str_exec(quasis),
        _ => Vec::new(),
    }
}

fn node_piece_exec(n: &AstNode, idx: usize) -> (r: Vec<char>)
    ensures
        r@ == node_piece(*n, idx as int),
    decreases *n,
{
    match n {
        AstNode::JSXText { value } => {
            let s = process_text_value(value.as_str());
            to_chars(s.as_str())
        },
        AstNode::StringLiteral { value } => {
            let s = process_text_value(value.as_str());
            to_chars(s.as_str())
        },
        AstNode::JSXExpressionContainer { expression } => expr_str_exec(expression),
        AstNode::JSXElement { children } => {
            let mut out: Vec<char> = Vec::new();
            out.push('<');
            let mut d1 = u64_to_dec(idx as u64);
            out.append(&mut d1);
            out.push('>');
            let mut inner = nodes_str_exec(children, 0);
            out.append(&mut inner);
            out.push('<');
            out.push('/');
            let mut d2 = u64_to_dec(idx as u64);
            out.append(&mut d2);
            out.push('>');
            proof {
                assert(out@ =~= node_piece(*n, idx as int));
            }
            out
        },
        _ => Vec::new(),
    }
}

fn nodes_str_exec(nodes: &Vec<AstNode>, i: usize) -> (r: Vec<char>)
    requires
        i <= nodes@.len(),
    ensures
        r@ == nodes_str(nodes@, i as int),
    decreases nodes@, nodes@.len() - i,
{
    if i == nodes.len() {
        Vec::new()
    } else {
        let mut out = node_piece_exec(&nodes[i], i);
        let mut rest = nodes_str_exec(nodes, i + 1);
        out.append(&mut rest);
        out
    }
}

/// Builds the translatable string of a node list: cleaned text chunks,
/// `{{name}}` interpolation blocks, literal values, and numbered
/// pseudo-tags around child elements. The path is accepted for interface
/// compatibility (it named the file in diagnostics).
pub fn nodes_to_string(nodes: &Vec<AstNode>, filepath: &str) -> (r: String)
    ensures
        r@ == nodes_str(nodes@, 0),
{
    let v = nodes_str_exec(nodes, 0);
    chars_to_string(&v)
}

/// Builds the translatable string of a node list.
pub fn nodes_to_string_simple(nodes: &Vec<AstNode>, filepath: &str) -> (r: String)
    ensures
        r@ == nodes_str(nodes@, 0),
{
    nodes_to_string(nodes, filepath)
}

impl AstNode {
    /// The node's position; the simplified tree carries none, so the
    /// origin is reported.
    pub fn get_location(&self) -> (r: Location)
        ensures
            r == (Location { line: 1, column: 1 }),
    {
        Location { line: 1, column: 1 }
    }

    /// Whether this is a text node.
    pub fn is_jsx_text(&self) -> (r: bool)
        ensures
            r == (self is JSXText),
    {
        match self {
            AstNode::JSXText { .. } => true,
            _ => false,
        }
    }

    /// Whether this is a string literal.
    pub fn is_string_literal(&self) -> (r: bool)
        ensures
            r == (self is StringLiteral),
    {
        match self {
            AstNode::StringLiteral { .. } => true,
            _ => false,
        }
    }

    /// Whether this is an interpolation container.
    pub fn is_jsx_expression_container(&self) -> (r: bool)
        ensures
            r == (self is JSXExpressionContainer),
    {
        match self {
            AstNode::JSXExpressionContainer { .. } => true,
            _ => false,
        }
    }

    /// Whether this is a numeric literal.
    pub fn is_numeric_literal(&self) -> (r: bool)
        ensures
            r == (self is NumericLiteral),
    {
        match self {
            AstNode::NumericLiteral => true,
            _ => false,
        }
    }

    /// Whether this is an object expression.
    pub fn is_object_expression(&self) -> (r: bool)
        ensures
            r == (self is ObjectExpression),
    {
        match self {
            AstNode::ObjectExpression { .. } => true,
            _ => false,
        }
    }

    /// Whether this is a template literal.
    pub fn is_template_literal(&self) -> (r: bool)
        ensures
            r == (self is TemplateLiteral),
    {
        match self {
            AstNode::TemplateLiteral { .. } => true,
            _ => false,
        }
    }

    /// The text of a text or string-literal node.
    pub fn get_value(&self) -> (r: Option<&String>)
        ensures
            (match self {
                AstNode::JSXText { value } => r == Some(value),
                AstNode::StringLiteral { value } => r == Some(value),
                _ => r is None,
            }),
    {
        match self {
            AstNode::JSXText { value } => Some(value),
            AstNode::StringLiteral { value } => Some(value),
            _ => None,
        }
    }

    /// The inner expression of a container node.
    pub fn get_expression(&self) -> (r: Option<&AstNode>)
        ensures
            (match self {
                AstNode::JSXExpressionContainer { expression } => (match r {
                    Some(e) => *e == **expression,
                    None => false,
                }),
                _ => r is None,
            }),
    {
        match self {
            AstNode::JSXExpressionContainer { expression } => Some(expression),
            _ => None,
        }
    }

    /// The children of an element node.
    pub fn get_children(&self) -> (r: Option<&Vec<AstNode>>)
        ensures
            (match self {
                AstNode::JSXElement { children } => (match r {
                    Some(c) => *c == *children,
                    None => false,
                }),
                _ => r is None,
            }),
    {
        match self {
            AstNode::JSXElement { children } => Some(children),
            _ => None,
        }
    }

    /// The properties of an object expression.
    pub fn get_properties(&self) -> (r: Option<&Vec<ObjectProperty>>)
        ensures
            (match self {
                AstNode::ObjectExpression { properties } => (match r {
                    Some(p) => *p == *properties,
                    None => false,
                }),
                _ => r is None,
            }),
    {
        match self {
            AstNode::ObjectExpression { properties } => Some(properties),
            _ => None,
        }
    }

    /// The chunks of a template literal.
    pub fn get_quasis(&self) -> (r: Option<&Vec<TemplateElement>>)
        ensures
            (match self {
                AstNode::TemplateLiteral { quasis } => (match r {
                    Some(q) => *q == *quasis,
                    None => false,
                }),
                _ => r is None,
            }),
    {
        match self {
            AstNode::TemplateLiteral { quasis } => Some(quasis),
            _ => None,
        }
    }

    /// A text node.
    pub fn jsx_text(value: String) -> (r: AstNode)
        ensures
            r == (AstNode::JSXText { value }),
    {
        AstNode::JSXText { value }
    }

    /// A string-literal node.
    pub fn string_literal(value: String) -> (r: AstNode)
        ensures
            r == (AstNode::StringLiteral { value }),
    {
        AstNode::StringLiteral { value }
    }

    /// An interpolation container around an expression.
    pub fn jsx_expression_container(expression: AstNode) -> (r: AstNode)
        ensures
            r == (AstNode::JSXExpressionContainer { expression: Box::new(expression) }),
    {
        AstNode::JSXExpressionContainer { expression: Box::new(expression) }
    }

    /// A numeric literal; the string builder ignores its value, so none is
    /// carried.
    pub fn numeric_literal() -> (r: AstNode)
        ensures
            r == AstNode::NumericLiteral,
    {
        AstNode::NumericLiteral
    }

    /// An object expression.
    pub fn object_expression(properties: Vec<ObjectProperty>) -> (r: AstNode)
        ensures
            r == (AstNode::ObjectExpression { properties }),
    {
        AstNode::ObjectExpression { properties }
    }

    /// A template literal.
    pub fn template_literal(quasis: Vec<TemplateElement>) -> (r: AstNode)
        ensures
            r == (AstNode::TemplateLiteral { quasis }),
    {
        AstNode::TemplateLiteral { quasis }
    }

    /// An element with children.
    pub fn jsx_element(children: Vec<AstNode>) -> (r: AstNode)
        ensures
            r == (AstNode::JSXElement { children }),
    {
        AstNode::JSXElement { children }
    }
}

impl ObjectProperty {
    /// A property with the given key name and value node.
    pub fn new(key_name: String, value: AstNode) -> (r: ObjectProperty)
        ensures
            r == (ObjectProperty { key: ObjectKey { name: key_name }, value: Box::new(value) }),
    {
        ObjectProperty { key: ObjectKey { name: key_name }, value: Box::new(value) }
    }
}

impl TemplateElement {
    /// A chunk with the given raw text.
    pub fn new(raw: String) -> (r: TemplateElement)
        ensures
            r == (TemplateElement { value: TemplateElementValue { raw } }),
    {
        TemplateElement { value: TemplateElementValue { raw } }
    }
}

} // verus!
