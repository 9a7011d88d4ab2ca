//! The building-block node types: literal text, identifiers, indentation and
//! line terminators, and the sequence combinators that assemble children by
//! concatenation, newline-joining or an arbitrary separator, plus the braced
//! block body and the header-plus-body composite.

use vstd::prelude::*;
use crate::render::Name;
use crate::render::Node;
use crate::render::NodeV;
use crate::render::RenderError;
use crate::render::node_view;
use crate::render::nodes_view;
use crate::render::render_body_text;
use crate::render::render_text;
use crate::setup::CodeGenerate;
use crate::setup::CodeGenerationInfo;
use crate::text::copy_chars;
use crate::text::str_to_chars;

verus! {

impl CodeGenerate for Node {
    open spec fn as_node(&self) -> NodeV {
        node_view(*self)
    }

    fn generate(&self, info: CodeGenerationInfo) -> (r: Result<String, RenderError>) {
        render_text(self, info)
    }
}

impl CodeGenerate for Name {
    open spec fn as_node(&self) -> NodeV {
        NodeV::Ident(self.spec_parts(), self.spec_name_type())
    }

    fn generate(&self, info: CodeGenerationInfo) -> (r: Result<String, RenderError>) {
        let case_type = self.get_case_type(info);
        Ok(self.casify(case_type))
    }
}

impl CodeGenerate for String {
    open spec fn as_node(&self) -> NodeV {
        NodeV::Raw(self@)
    }

    fn generate(&self, info: CodeGenerationInfo) -> (r: Result<String, RenderError>) {
        let n = Node::Raw(str_to_chars(self.as_str()));
        render_text(&n, info)
    }
}

/// Renders as the indentation text of the current nesting level.
pub struct Indentation {}

impl Indentation {
    pub fn new() -> (r: Indentation)
        ensures
            r.as_node() == NodeV::Indent,
    {
        Indentation {  }
    }
}

impl CodeGenerate for Indentation {
    open spec fn as_node(&self) -> NodeV {
        NodeV::Indent
    }

    fn generate(&self, info: CodeGenerationInfo) -> (r: Result<String, RenderError>) {
        let n = Node::Indent;
        render_text(&n, info)
    }
}

/// Renders as the line terminator of the active newline style.
pub struct NewLine {}

impl NewLine {
    pub fn new() -> (r: NewLine)
        ensures
            r.as_node() == NodeV::Line,
    {
        NewLine {  }
    }
}

impl CodeGenerate for NewLine {
    open spec fn as_node(&self) -> NodeV {
        NodeV::Line
    }

    fn generate(&self, info: CodeGenerationInfo) -> (r: Result<String, RenderError>) {
        let n = Node::Line;
        render_text(&n, info)
    }
}

/// Literal, possibly multi-line text; when rendered, each embedded line break
/// re-emits the current indentation.
pub struct RawCode {
    text: Vec<char>,
}

impl RawCode {
    pub closed spec fn spec_text(&self) -> Seq<char> {
        self.text@
    }

    pub fn new(code: &str) -> (r: RawCode)
        ensures
            r.spec_text() == code@,
    {
        RawCode { text: str_to_chars(code) }
    }

    /// Concatenates two pieces of raw text.
    pub fn merge(self, other: RawCode) -> (r: RawCode)
        ensures
            r.spec_text() == self.spec_text() + other.spec_text(),
    {
        let mut text = self.text;
        let ghost base = text@;
        let mut i: usize = 0;
        while i < other.text.len()
            invariant
                i <= other.text@.len(),
                text@ == base + other.text@.subrange(0, i as int),
            decreases other.text@.len() - i,
        {
            text.push(other.text[i]);
            i = i + 1;
            proof {
                assert(text@ =~= base + other.text@.subrange(0, i as int));
            }
        }
        proof {
            assert(base + other.text@.subrange(0, other.text@.len() as int) =~= base
                + other.text@);
        }
        RawCode { text }
    }

    /// This text as a node, for use as a child of a composite.
    pub fn into_node(self) -> (n: Node)
        ensures
            n@ == self.as_node(),
    {
        Node::Raw(self.text)
    }
}

impl CodeGenerate for RawCode {
    open spec fn as_node(&self) -> NodeV {
        NodeV::Raw(self.spec_text())
    }

    fn generate(&self, info: CodeGenerationInfo) -> (r: Result<String, RenderError>) {
        let n = Node::Raw(copy_chars(&self.text));
        render_text(&n, info)
    }
}

/// Children joined by a newline and the current indentation.
pub struct CodeSet {
    node: Node,
}

impl CodeSet {
    pub fn new(set: Vec<Node>) -> (r: CodeSet)
        ensures
            r.as_node() == NodeV::Group(nodes_view(set@)),
    {
        CodeSet { node: Node::Group(set) }
    }

    /// This combinator as a node, for use as a child of a composite.
    pub fn into_node(self) -> (n: Node)
        ensures
            n@ == self.as_node(),
    {
        self.node
    }
}

impl CodeGenerate for CodeSet {
    closed spec fn as_node(&self) -> NodeV {
        node_view(self.node)
    }

    fn generate(&self, info: CodeGenerationInfo) -> (r: Result<String, RenderError>) {
        render_text(&self.node, info)
    }
}

/// Children concatenated with nothing between them.
pub struct JoinedCode {
    node: Node,
}

impl JoinedCode {
    pub fn new(set: Vec<Node>) -> (r: JoinedCode)
        ensures
            r.as_node() == NodeV::Joined(nodes_view(set@)),
    {
        JoinedCode { node: Node::Joined(set) }
    }

    /// This combinator as a node, for use as a child of a composite.
    pub fn into_node(self) -> (n: Node)
        ensures
            n@ == self.as_node(),
    {
        self.node
    }
}

impl CodeGenerate for JoinedCode {
    closed spec fn as_node(&self) -> NodeV {
        node_view(self.node)
    }

    fn generate(&self, info: CodeGenerationInfo) -> (r: Result<String, RenderError>) {
        render_text(&self.node, info)
    }
}

/// Children joined by a caller-supplied separator node.
pub struct SeparatedCode {
    node: Node,
}

impl SeparatedCode {
    pub fn new(items: Vec<Node>, separator: Node) -> (r: SeparatedCode)
        ensures
            r.as_node() == NodeV::Separated(
                nodes_view(items@),
                Box::new(node_view(separator)),
            ),
    {
        let ghost items_v = nodes_view(items@);
        let ghost sep_v = node_view(separator);
        let b = Box::new(separator);
        let r = SeparatedCode { node: Node::Separated(items, b) };
        proof {
            assert(node_view(r.node) == NodeV::Separated(items_v, Box::new(sep_v)));
        }
        r
    }

    /// This combinator as a node, for use as a child of a composite.
    pub fn into_node(self) -> (n: Node)
        ensures
            n@ == self.as_node(),
    {
        self.node
    }
}

impl CodeGenerate for SeparatedCode {
    closed spec fn as_node(&self) -> NodeV {
        node_view(self.node)
    }

    fn generate(&self, info: CodeGenerationInfo) -> (r: Result<String, RenderError>) {
        render_text(&self.node, info)
    }
}

/// A statement list that renders wrapped in braces, laid out by the active
/// brace style.
pub struct CodeBody {
    pub(crate) items: Vec<Node>,
}

impl CodeBody {
    pub closed spec fn spec_items(&self) -> Seq<NodeV> {
        nodes_view(self.items@)
    }

    pub fn new(code: Vec<Node>) -> (r: CodeBody)
        ensures
            r.spec_items() == nodes_view(code@),
    {
        CodeBody { items: code }
    }

    /// This body as a node, for use as a child of a composite.
    pub fn into_node(self) -> (n: Node)
        ensures
            n@ == self.as_node(),
    {
        Node::Body(self.items)
    }
}

impl CodeGenerate for CodeBody {
    open spec fn as_node(&self) -> NodeV {
        NodeV::Body(self.spec_items())
    }

    fn generate(&self, info: CodeGenerationInfo) -> (r: Result<String, RenderError>) {
        render_body_text(&self.items, info)
    }
}

/// A header node followed by a braced body; the glue between the two is the
/// active style's.
pub struct HeaderPlusBody {
    node: Node,
}

impl HeaderPlusBody {
    pub fn new(header: Node, body: CodeBody) -> (r: HeaderPlusBody)
        ensures
            r.as_node() == NodeV::Block(Box::new(node_view(header)), body.spec_items()),
    {
        let ghost header_v = node_view(header);
        let ghost items_v = nodes_view(body.items@);
        let b = Box::new(header);
        let r = HeaderPlusBody { node: Node::Block(b, body.items) };
        proof {
            assert(node_view(r.node) == NodeV::Block(Box::new(header_v), items_v));
        }
        r
    }

    /// This composite as a node, for use as a child of a composite.
    pub fn into_node(self) -> (n: Node)
        ensures
            n@ == self.as_node(),
    {
        self.node
    }
}

impl CodeGenerate for HeaderPlusBody {
    closed spec fn as_node(&self) -> NodeV {
        node_view(self.node)
    }

    fn generate(&self, info: CodeGenerationInfo) -> (r: Result<String, RenderError>) {
        render_text(&self.node, info)
    }
}

} // verus!

