//! Data-type and function node types: function signatures, declarations,
//! definitions and calls, header-file wrappers with include guards, enums,
//! structs, typedefs and constant defines. Each one only assembles literal
//! keywords, identifiers and bodies into nodes for the render core.

use vstd::prelude::*;
use crate::building_block_generators::CodeBody;
use crate::building_block_generators::CodeSet;
use crate::building_block_generators::HeaderPlusBody;
use crate::render::Name;
use crate::render::NameType;
use crate::render::Node;
use crate::render::NodeV;
use crate::render::RenderError;
use crate::render::int_to_chars;
use crate::render::lemma_nodes_view;
use crate::render::lemma_nodes_view_push;
use crate::render::node_view;
use crate::render::nodes_view;
use crate::render::raw_node;
use crate::render::render_text;
use crate::render::spec_int_text;
use crate::setup::CodeGenerate;
use crate::setup::CodeGenerationInfo;
use crate::setup::GeneratorContext;
use crate::text::push_onto;

verus! {

/// The node one `type name` parameter renders as.
pub open spec fn spec_param_node(param_type: Name, param_name: Name) -> NodeV {
    NodeV::Joined(
        seq![
            NodeV::Ident(param_type.spec_parts(), NameType::Type),
            NodeV::Raw(" "@),
            NodeV::Ident(param_name.spec_parts(), NameType::Member),
        ],
    )
}

/// The nodes of a parameter list.
pub open spec fn spec_params_nodes(params: Seq<(Name, Name)>) -> Seq<NodeV> {
    Seq::new(params.len(), |i: int| spec_param_node(params[i].0, params[i].1))
}

fn param_node(param: &(Name, Name)) -> (r: Node)
    ensures
        node_view(r) == spec_param_node(param.0, param.1),
{
    let t = param.0.duplicate().with_type(NameType::Type);
    let n = param.1.duplicate().with_type(NameType::Member);
    let ghost tv = NodeV::Ident(param.0.spec_parts(), NameType::Type);
    let ghost nv = NodeV::Ident(param.1.spec_parts(), NameType::Member);
    let mut items: Vec<Node> = Vec::new();
    items.push(Node::Ident(t));
    items.push(raw_node(" "));
    items.push(Node::Ident(n));
    proof {
        lemma_nodes_view(items@);
        assert(items@[0]@ == tv);
        assert(items@[1]@ == NodeV::Raw(" "@));
        assert(items@[2]@ == nv);
        assert(nodes_view(items@) =~= seq![tv, NodeV::Raw(" "@), nv]);
    }
    Node::Joined(items)
}

fn params_nodes(params: &Vec<(Name, Name)>) -> (r: Vec<Node>)
    ensures
        nodes_view(r@) == spec_params_nodes(params@),
{
    let ghost target = spec_params_nodes(params@);
    let mut r: Vec<Node> = Vec::new();
    let mut i: usize = 0;
    proof {
        assert(nodes_view(r@) =~= target.subrange(0, 0));
    }
    while i < params.len()
        invariant
            i <= params@.len(),
            target == spec_params_nodes(params@),
            target.len() == params@.len(),
            nodes_view(r@) == target.subrange(0, i as int),
        decreases params@.len() - i,
    {
        let ghost r0 = r@;
        let en = param_node(&params[i]);
        let ghost env = en;
        r.push(en);
        i = i + 1;
        proof {
            lemma_nodes_view_push(r0, env);
            assert(nodes_view(r@) =~= target.subrange(0, i as int));
        }
    }
    proof {
        assert(target.subrange(0, target.len() as int) =~= target);
    }
    r
}

/// The node a function signature renders as: return type, name and the
/// comma-separated parameter list in parentheses.
pub open spec fn spec_signature_node(
    return_type: Name,
    name: Name,
    params: Seq<(Name, Name)>,
) -> NodeV {
    NodeV::Joined(
        seq![
            NodeV::Ident(return_type.spec_parts(), NameType::Type),
            NodeV::Raw(" "@),
            NodeV::Ident(name.spec_parts(), NameType::Function),
            NodeV::Raw("("@),
            NodeV::Separated(spec_params_nodes(params), Box::new(NodeV::Raw(", "@))),
            NodeV::Raw(")"@),
        ],
    )
}

fn signature_node(return_type: Name, name: Name, parameters: &Vec<(Name, Name)>) -> (r: Node)
    ensures
        node_view(r) == spec_signature_node(return_type, name, parameters@),
{
    let ghost rtv = NodeV::Ident(return_type.spec_parts(), NameType::Type);
    let ghost nmv = NodeV::Ident(name.spec_parts(), NameType::Function);
    let plist = params_nodes(parameters);
    let sep = Node::Separated(plist, Box::new(raw_node(", ")));
    let ghost sepv = node_view(sep);
    proof {
        assert(sepv == NodeV::Separated(spec_params_nodes(parameters@), Box::new(
            NodeV::Raw(", "@),
        )));
    }
    let mut items: Vec<Node> = Vec::new();
    items.push(Node::Ident(return_type.with_type(NameType::Type)));
    items.push(raw_node(" "));
    items.push(Node::Ident(name.with_type(NameType::Function)));
    items.push(raw_node("("));
    items.push(sep);
    items.push(raw_node(")"));
    proof {
        lemma_nodes_view(items@);
        assert(items@[0]@ == rtv);
        assert(items@[1]@ == NodeV::Raw(" "@));
        assert(items@[2]@ == nmv);
        assert(items@[3]@ == NodeV::Raw("("@));
        assert(items@[4]@ == sepv);
        assert(items@[5]@ == NodeV::Raw(")"@));
        assert(nodes_view(items@) =~= seq![
            rtv,
            NodeV::Raw(" "@),
            nmv,
            NodeV::Raw("("@),
            sepv,
            NodeV::Raw(")"@),
        ]);
    }
    Node::Joined(items)
}

/// A function signature: return type, function name and typed parameters.
pub struct FunctionSignature {
    node: Node,
}

impl FunctionSignature {
    pub fn new(return_type: Name, name: Name, parameters: Vec<(Name, Name)>) -> (r:
        FunctionSignature)
        ensures
            r.as_node() == spec_signature_node(return_type, name, parameters@),
    {
        FunctionSignature { node: signature_node(return_type, name, &parameters) }
    }

    /// This signature as a node, for use as a child of a composite.
    pub fn into_node(self) -> (n: Node)
        ensures
            n@ == self.as_node(),
    {
        self.node
    }
}

impl CodeGenerate for FunctionSignature {
    closed spec fn as_node(&self) -> NodeV {
        node_view(self.node)
    }

    fn generate(&self, info: CodeGenerationInfo) -> (r: Result<String, RenderError>) {
        render_text(&self.node, info)
    }
}

/// A function declaration: a signature terminated by a semicolon.
pub struct FunctionDeclaration {
    node: Node,
}

impl FunctionDeclaration {
    pub fn new(return_type: Name, name: Name, parameters: Vec<(Name, Name)>) -> (r:
        FunctionDeclaration)
        ensures
            r.as_node() == NodeV::Joined(
                seq![
                    spec_signature_node(return_type, name, parameters@),
                    NodeV::Raw(";"@),
                ],
            ),
    {
        let ghost sv = spec_signature_node(return_type, name, parameters@);
        let sig = signature_node(return_type, name, &parameters);
        let mut items: Vec<Node> = Vec::new();
        items.push(sig);
        items.push(raw_node(";"));
        proof {
            lemma_nodes_view(items@);
            assert(items@[0]@ == sv);
            assert(items@[1]@ == NodeV::Raw(";"@));
            assert(nodes_view(items@) =~= seq![sv, NodeV::Raw(";"@)]);
        }
        FunctionDeclaration { node: Node::Joined(items) }
    }

    /// This declaration as a node, for use as a child of a composite.
    pub fn into_node(self) -> (n: Node)
        ensures
            n@ == self.as_node(),
    {
        self.node
    }
}

impl CodeGenerate for FunctionDeclaration {
    closed spec fn as_node(&self) -> NodeV {
        node_view(self.node)
    }

    fn generate(&self, info: CodeGenerationInfo) -> (r: Result<String, RenderError>) {
        render_text(&self.node, info)
    }
}

/// A function definition: a signature and a braced body, rendered under the
/// `Function` context so context-sensitive style rules apply.
pub struct Function {
    node: Node,
}

impl Function {
    pub fn new(signature: FunctionSignature, body: CodeBody) -> (r: Function)
        ensures
            r.as_node() == NodeV::Scoped(
                GeneratorContext::Function,
                Box::new(NodeV::Block(Box::new(signature.as_node()), body.spec_items())),
            ),
    {
        let ghost sv = signature.as_node();
        let ghost bv = body.spec_items();
        let block = HeaderPlusBody::new(signature.into_node(), body).into_node();
        let ghost kv = node_view(block);
        let r = Function { node: Node::Scoped(GeneratorContext::Function, Box::new(block)) };
        proof {
            assert(node_view(r.node) == NodeV::Scoped(GeneratorContext::Function, Box::new(kv)));
        }
        r
    }

    /// This definition as a node, for use as a child of a composite.
    pub fn into_node(self) -> (n: Node)
        ensures
            n@ == self.as_node(),
    {
        self.node
    }
}

impl CodeGenerate for Function {
    closed spec fn as_node(&self) -> NodeV {
        node_view(self.node)
    }

    fn generate(&self, info: CodeGenerationInfo) -> (r: Result<String, RenderError>) {
        render_text(&self.node, info)
    }
}

/// The node a function call renders as.
pub open spec fn spec_call_node(name: Name, params: Seq<(Name, Name)>, terminated: bool) -> NodeV {
    NodeV::Joined(
        (seq![
            NodeV::Ident(name.spec_parts(), NameType::Function),
            NodeV::Raw("("@),
            NodeV::Separated(spec_params_nodes(params), Box::new(NodeV::Raw(", "@))),
            NodeV::Raw(")"@),
        ] + (if terminated {
            seq![NodeV::Raw(";"@)]
        } else {
            Seq::<NodeV>::empty()
        })),
    )
}

/// A function call: a function name and its arguments, optionally terminated
/// by a semicolon.
pub struct FunctionCall {
    node: Node,
}

impl FunctionCall {
    fn build(name: Name, params: &Vec<(Name, Name)>, terminated: bool) -> (r: Node)
        ensures
            node_view(r) == spec_call_node(name, params@, terminated),
    {
        let ghost nmv = NodeV::Ident(name.spec_parts(), NameType::Function);
        let plist = params_nodes(params);
        let sep = Node::Separated(plist, Box::new(raw_node(", ")));
        let ghost sepv = node_view(sep);
        proof {
            assert(sepv == NodeV::Separated(spec_params_nodes(params@), Box::new(
                NodeV::Raw(", "@),
            )));
        }
        let mut items: Vec<Node> = Vec::new();
        items.push(Node::Ident(name.with_type(NameType::Function)));
        items.push(raw_node("("));
        items.push(sep);
        items.push(raw_node(")"));
        if terminated {
            items.push(raw_node(";"));
        }
        proof {
            lemma_nodes_view(items@);
            assert(items@[0]@ == nmv);
            assert(items@[1]@ == NodeV::Raw("("@));
            assert(items@[2]@ == sepv);
            assert(items@[3]@ == NodeV::Raw(")"@));
            if terminated {
                assert(items@[4]@ == NodeV::Raw(";"@));
            }
            assert(nodes_view(items@) =~= (seq![
                nmv,
                NodeV::Raw("("@),
                sepv,
                NodeV::Raw(")"@),
            ] + (if terminated {
                seq![NodeV::Raw(";"@)]
            } else {
                Seq::<NodeV>::empty()
            })));
        }
        Node::Joined(items)
    }

    pub fn new(name: Name, params: Vec<(Name, Name)>) -> (r: FunctionCall)
        ensures
            r.as_node() == spec_call_node(name, params@, false),
    {
        FunctionCall { node: FunctionCall::build(name, &params, false) }
    }

    /// A call terminated by a semicolon, for use as a statement.
    pub fn new_with_end(name: Name, params: Vec<(Name, Name)>) -> (r: FunctionCall)
        ensures
            r.as_node() == spec_call_node(name, params@, true),
    {
        FunctionCall { node: FunctionCall::build(name, &params, true) }
    }

    /// This call as a node, for use as a child of a composite.
    pub fn into_node(self) -> (n: Node)
        ensures
            n@ == self.as_node(),
    {
        self.node
    }
}

impl CodeGenerate for FunctionCall {
    closed spec fn as_node(&self) -> NodeV {
        node_view(self.node)
    }

    fn generate(&self, info: CodeGenerationInfo) -> (r: Result<String, RenderError>) {
        render_text(&self.node, info)
    }
}

/// The node a header file renders as: the include guard, rendered in the
/// constant-define casing whatever the configured default, around the
/// content, under the `File` context.
pub open spec fn spec_header_file_node(file_name: Name, content: NodeV) -> NodeV {
    NodeV::Scoped(
        GeneratorContext::File,
        Box::new(
            NodeV::Joined(
                seq![
                    NodeV::Raw("#ifndef "@),
                    NodeV::Ident(file_name.spec_parts(), NameType::ConstDefine),
                    NodeV::Raw("_H"@),
                    NodeV::Line,
                    NodeV::Raw("#define "@),
                    NodeV::Ident(file_name.spec_parts(), NameType::ConstDefine),
                    NodeV::Raw("_H"@),
                    NodeV::Line,
                    NodeV::Line,
                    content,
                    NodeV::Line,
                    NodeV::Line,
                    NodeV::Raw("#endif"@),
                    NodeV::Line,
                ],
            ),
        ),
    )
}

/// A header-file wrapper: an include guard named after the file around the
/// given content.
pub struct HeaderFile {
    node: Node,
}

impl HeaderFile {
    pub fn new(file_name: Name, content: CodeSet) -> (r: HeaderFile)
        ensures
            r.as_node() == spec_header_file_node(file_name, content.as_node()),
    {
        let ghost fv = NodeV::Ident(file_name.spec_parts(), NameType::ConstDefine);
        let ghost cv = content.as_node();
        let guard2 = file_name.duplicate().with_type(NameType::ConstDefine);
        let guard1 = file_name.with_type(NameType::ConstDefine);
        let mut items: Vec<Node> = Vec::new();
        items.push(raw_node("#ifndef "));
        items.push(Node::Ident(guard1));
        items.push(raw_node("_H"));
        items.push(Node::Line);
        items.push(raw_node("#define "));
        items.push(Node::Ident(guard2));
        items.push(raw_node("_H"));
        items.push(Node::Line);
        items.push(Node::Line);
        items.push(content.into_node());
        items.push(Node::Line);
        items.push(Node::Line);
        items.push(raw_node("#endif"));
        items.push(Node::Line);
        proof {
            lemma_nodes_view(items@);
            assert(items@[0]@ == NodeV::Raw("#ifndef "@));
            assert(items@[1]@ == fv);
            assert(items@[2]@ == NodeV::Raw("_H"@));
            assert(items@[3]@ == NodeV::Line);
            assert(items@[4]@ == NodeV::Raw("#define "@));
            assert(items@[5]@ == fv);
            assert(items@[6]@ == NodeV::Raw("_H"@));
            assert(items@[7]@ == NodeV::Line);
            assert(items@[8]@ == NodeV::Line);
            assert(items@[9]@ == cv);
            assert(items@[10]@ == NodeV::Line);
            assert(items@[11]@ == NodeV::Line);
            assert(items@[12]@ == NodeV::Raw("#endif"@));
            assert(items@[13]@ == NodeV::Line);
            assert(nodes_view(items@) =~= seq![
                NodeV::Raw("#ifndef "@),
                fv,
                NodeV::Raw("_H"@),
                NodeV::Line,
                NodeV::Raw("#define "@),
                fv,
                NodeV::Raw("_H"@),
                NodeV::Line,
                NodeV::Line,
                cv,
                NodeV::Line,
                NodeV::Line,
                NodeV::Raw("#endif"@),
                NodeV::Line,
            ]);
        }
        let joined = Node::Joined(items);
        let ghost jv = node_view(joined);
        let r = HeaderFile { node: Node::Scoped(GeneratorContext::File, Box::new(joined)) };
        proof {
            assert(node_view(r.node) == NodeV::Scoped(GeneratorContext::File, Box::new(jv)));
        }
        r
    }

    /// This wrapper as a node, for use as a child of a composite.
    pub fn into_node(self) -> (n: Node)
        ensures
            n@ == self.as_node(),
    {
        self.node
    }
}

impl CodeGenerate for HeaderFile {
    closed spec fn as_node(&self) -> NodeV {
        node_view(self.node)
    }

    fn generate(&self, info: CodeGenerationInfo) -> (r: Result<String, RenderError>) {
        render_text(&self.node, info)
    }
}

/// The node one enum entry renders as: the entry name in constant-define
/// casing, its explicit value if it has one, and a trailing comma.
pub open spec fn spec_enum_entry_node(name: Name, value: Option<i128>) -> NodeV {
    match value {
        Option::Some(v) => NodeV::Joined(
            seq![
                NodeV::Ident(name.spec_parts(), NameType::ConstDefine),
                NodeV::Raw(seq![' ', '=', ' '] + spec_int_text(v as int) + seq![',']),
            ],
        ),
        Option::None => NodeV::Joined(
            seq![
                NodeV::Ident(name.spec_parts(), NameType::ConstDefine),
                NodeV::Raw(seq![',']),
            ],
        ),
    }
}

pub open spec fn spec_enum_entries(values: Seq<(Name, Option<i128>)>) -> Seq<NodeV> {
    Seq::new(values.len(), |i: int| spec_enum_entry_node(values[i].0, values[i].1))
}

fn enum_entry_node(entry: &(Name, Option<i128>)) -> (r: Node)
    ensures
        node_view(r) == spec_enum_entry_node(entry.0, entry.1),
{
    let ghost nv = NodeV::Ident(entry.0.spec_parts(), NameType::ConstDefine);
    let name = entry.0.duplicate().with_type(NameType::ConstDefine);
    let mut text: Vec<char> = Vec::new();
    match entry.1 {
        Option::Some(v) => {
            text.push(' ');
            text.push('=');
            text.push(' ');
            let digits = int_to_chars(v);
            push_onto(&mut text, &digits);
            text.push(',');
            proof {
                assert(text@ =~= seq![' ', '=', ' '] + spec_int_text(v as int) + seq![',']);
            }
        },
        Option::None => {
            text.push(',');
            proof {
                assert(text@ =~= seq![',']);
            }
        },
    }
    let ghost tv = text@;
    let mut items: Vec<Node> = Vec::new();
    items.push(Node::Ident(name));
    items.push(Node::Raw(text));
    proof {
        lemma_nodes_view(items@);
        assert(items@[0]@ == nv);
        assert(items@[1]@ == NodeV::Raw(tv));
        assert(nodes_view(items@) =~= seq![nv, NodeV::Raw(tv)]);
    }
    Node::Joined(items)
}

/// The node an enum declaration renders as: `typedef enum`, the braced
/// entries, and the type name.
pub open spec fn spec_enum_node(name: Name, values: Seq<(Name, Option<i128>)>) -> NodeV {
    NodeV::Scoped(
        GeneratorContext::Enum,
        Box::new(
            NodeV::Joined(
                seq![
                    NodeV::Block(
                        Box::new(NodeV::Raw("typedef enum"@)),
                        spec_enum_entries(values),
                    ),
                    NodeV::Raw(" "@),
                    NodeV::Ident(name.spec_parts(), NameType::Type),
                    NodeV::Raw(";"@),
                ],
            ),
        ),
    )
}

/// An enum declaration: a type name and its entries, each with an optional
/// explicit value.
pub struct Enum {
    node: Node,
}

impl Enum {
    pub fn new(name: Name, values: Vec<(Name, Option<i128>)>) -> (r: Enum)
        ensures
            r.as_node() == spec_enum_node(name, values@),
    {
        let ghost target = spec_enum_entries(values@);
        let mut entries: Vec<Node> = Vec::new();
        let mut i: usize = 0;
        proof {
            assert(nodes_view(entries@) =~= target.subrange(0, 0));
        }
        while i < values.len()
            invariant
                i <= values@.len(),
                target == spec_enum_entries(values@),
                target.len() == values@.len(),
                nodes_view(entries@) == target.subrange(0, i as int),
            decreases values@.len() - i,
        {
            let ghost e0 = entries@;
            let en = enum_entry_node(&values[i]);
            let ghost env = en;
            entries.push(en);
            i = i + 1;
            proof {
                lemma_nodes_view_push(e0, env);
                assert(nodes_view(entries@) =~= target.subrange(0, i as int));
            }
        }
        proof {
            assert(target.subrange(0, target.len() as int) =~= target);
        }
        let block = HeaderPlusBody::new(raw_node("typedef enum"), CodeBody::new(entries))
            .into_node();
        let ghost kv = node_view(block);
        let mut items: Vec<Node> = Vec::new();
        let ghost nmv = NodeV::Ident(name.spec_parts(), NameType::Type);
        items.push(block);
        items.push(raw_node(" "));
        items.push(Node::Ident(name.with_type(NameType::Type)));
        items.push(raw_node(";"));
        proof {
            lemma_nodes_view(items@);
            assert(items@[0]@ == kv);
            assert(items@[1]@ == NodeV::Raw(" "@));
            assert(items@[2]@ == nmv);
            assert(items@[3]@ == NodeV::Raw(";"@));
            assert(nodes_view(items@) =~= seq![kv, NodeV::Raw(" "@), nmv, NodeV::Raw(";"@)]);
        }
        let joined = Node::Joined(items);
        let ghost jv = node_view(joined);
        let r = Enum { node: Node::Scoped(GeneratorContext::Enum, Box::new(joined)) };
        proof {
            assert(node_view(r.node) == NodeV::Scoped(GeneratorContext::Enum, Box::new(jv)));
        }
        r
    }

    /// This declaration as a node, for use as a child of a composite.
    pub fn into_node(self) -> (n: Node)
        ensures
            n@ == self.as_node(),
    {
        self.node
    }
}

impl CodeGenerate for Enum {
    closed spec fn as_node(&self) -> NodeV {
        node_view(self.node)
    }

    fn generate(&self, info: CodeGenerationInfo) -> (r: Result<String, RenderError>) {
        render_text(&self.node, info)
    }
}

/// The node one struct member renders as: `type name;`.
pub open spec fn spec_struct_entry_node(member_type: Name, member_name: Name) -> NodeV {
    NodeV::Joined(
        seq![
            NodeV::Ident(member_type.spec_parts(), NameType::Type),
            NodeV::Raw(" "@),
            NodeV::Ident(member_name.spec_parts(), NameType::Member),
            NodeV::Raw(";"@),
        ],
    )
}

pub open spec fn spec_struct_entries(values: Seq<(Name, Name)>) -> Seq<NodeV> {
    Seq::new(values.len(), |i: int| spec_struct_entry_node(values[i].0, values[i].1))
}

fn struct_entry_node(entry: &(Name, Name)) -> (r: Node)
    ensures
        node_view(r) == spec_struct_entry_node(entry.0, entry.1),
{
    let ghost tv = NodeV::Ident(entry.0.spec_parts(), NameType::Type);
    let ghost nv = NodeV::Ident(entry.1.spec_parts(), NameType::Member);
    let t = entry.0.duplicate().with_type(NameType::Type);
    let n = entry.1.duplicate().with_type(NameType::Member);
    let mut items: Vec<Node> = Vec::new();
    items.push(Node::Ident(t));
    items.push(raw_node(" "));
    items.push(Node::Ident(n));
    items.push(raw_node(";"));
    proof {
        lemma_nodes_view(items@);
        assert(items@[0]@ == tv);
        assert(items@[1]@ == NodeV::Raw(" "@));
        assert(items@[2]@ == nv);
        assert(items@[3]@ == NodeV::Raw(";"@));
        assert(nodes_view(items@) =~= seq![tv, NodeV::Raw(" "@), nv, NodeV::Raw(";"@)]);
    }
    Node::Joined(items)
}

/// The node a struct declaration renders as: `typedef struct`, the braced
/// members, and the type name.
pub open spec fn spec_struct_node(name: Name, values: Seq<(Name, Name)>) -> NodeV {
    NodeV::Scoped(
        GeneratorContext::Struct,
        Box::new(
            NodeV::Joined(
                seq![
                    NodeV::Block(
                        Box::new(NodeV::Raw("typedef struct"@)),
                        spec_struct_entries(values),
                    ),
                    NodeV::Raw(" "@),
                    NodeV::Ident(name.spec_parts(), NameType::Type),
                    NodeV::Raw(";"@),
                ],
            ),
        ),
    )
}

/// A struct declaration: a type name and its typed members.
pub struct Struct {
    node: Node,
}

impl Struct {
    pub fn new(name: Name, values: Vec<(Name, Name)>) -> (r: Struct)
        ensures
            r.as_node() == spec_struct_node(name, values@),
    {
        let ghost target = spec_struct_entries(values@);
        let mut entries: Vec<Node> = Vec::new();
        let mut i: usize = 0;
        proof {
            assert(nodes_view(entries@) =~= target.subrange(0, 0));
        }
        while i < values.len()
            invariant
                i <= values@.len(),
                target == spec_struct_entries(values@),
                target.len() == values@.len(),
                nodes_view(entries@) == target.subrange(0, i as int),
            decreases values@.len() - i,
        {
            let ghost e0 = entries@;
            let en = struct_entry_node(&values[i]);
            let ghost env = en;
            entries.push(en);
            i = i + 1;
            proof {
                lemma_nodes_view_push(e0, env);
                assert(nodes_view(entries@) =~= target.subrange(0, i as int));
            }
        }
        proof {
            assert(target.subrange(0, target.len() as int) =~= target);
        }
        let block = HeaderPlusBody::new(raw_node("typedef struct"), CodeBody::new(entries))
            .into_node();
        let ghost kv = node_view(block);
        let mut items: Vec<Node> = Vec::new();
        let ghost nmv = NodeV::Ident(name.spec_parts(), NameType::Type);
        items.push(block);
        items.push(raw_node(" "));
        items.push(Node::Ident(name.with_type(NameType::Type)));
        items.push(raw_node(";"));
        proof {
            lemma_nodes_view(items@);
            assert(items@[0]@ == kv);
            assert(items@[1]@ == NodeV::Raw(" "@));
            assert(items@[2]@ == nmv);
            assert(items@[3]@ == NodeV::Raw(";"@));
            assert(nodes_view(items@) =~= seq![kv, NodeV::Raw(" "@), nmv, NodeV::Raw(";"@)]);
        }
        let joined = Node::Joined(items);
        let ghost jv = node_view(joined);
        let r = Struct { node: Node::Scoped(GeneratorContext::Struct, Box::new(joined)) };
        proof {
            assert(node_view(r.node) == NodeV::Scoped(GeneratorContext::Struct, Box::new(jv)));
        }
        r
    }

    /// This declaration as a node, for use as a child of a composite.
    pub fn into_node(self) -> (n: Node)
        ensures
            n@ == self.as_node(),
    {
        self.node
    }
}

impl CodeGenerate for Struct {
    closed spec fn as_node(&self) -> NodeV {
        node_view(self.node)
    }

    fn generate(&self, info: CodeGenerationInfo) -> (r: Result<String, RenderError>) {
        render_text(&self.node, info)
    }
}

/// The node a typedef renders as.
pub open spec fn spec_typedef_node(name: Name, defined_type: Name) -> NodeV {
    NodeV::Scoped(
        GeneratorContext::Struct,
        Box::new(
            NodeV::Joined(
                seq![
                    NodeV::Raw("typedef "@),
                    NodeV::Ident(defined_type.spec_parts(), NameType::Type),
                    NodeV::Raw(" "@),
                    NodeV::Ident(name.spec_parts(), NameType::Type),
                    NodeV::Raw(";"@),
                ],
            ),
        ),
    )
}

/// A typedef: a new type name for an existing type.
pub struct TypeDef {
    node: Node,
}

impl TypeDef {
    pub fn new(name: Name, defined_type: Name) -> (r: TypeDef)
        ensures
            r.as_node() == spec_typedef_node(name, defined_type),
    {
        let ghost dv = NodeV::Ident(defined_type.spec_parts(), NameType::Type);
        let ghost nmv = NodeV::Ident(name.spec_parts(), NameType::Type);
        let mut items: Vec<Node> = Vec::new();
        items.push(raw_node("typedef "));
        items.push(Node::Ident(defined_type.with_type(NameType::Type)));
        items.push(raw_node(" "));
        items.push(Node::Ident(name.with_type(NameType::Type)));
        items.push(raw_node(";"));
        proof {
            lemma_nodes_view(items@);
            assert(items@[0]@ == NodeV::Raw("typedef "@));
            assert(items@[1]@ == dv);
            assert(items@[2]@ == NodeV::Raw(" "@));
            assert(items@[3]@ == nmv);
            assert(items@[4]@ == NodeV::Raw(";"@));
            assert(nodes_view(items@) =~= seq![
                NodeV::Raw("typedef "@),
                dv,
                NodeV::Raw(" "@),
                nmv,
                NodeV::Raw(";"@),
            ]);
        }
        let joined = Node::Joined(items);
        let ghost jv = node_view(joined);
        let r = TypeDef { node: Node::Scoped(GeneratorContext::Struct, Box::new(joined)) };
        proof {
            assert(node_view(r.node) == NodeV::Scoped(GeneratorContext::Struct, Box::new(jv)));
        }
        r
    }

    /// This typedef as a node, for use as a child of a composite.
    pub fn into_node(self) -> (n: Node)
        ensures
            n@ == self.as_node(),
    {
        self.node
    }
}

impl CodeGenerate for TypeDef {
    closed spec fn as_node(&self) -> NodeV {
        node_view(self.node)
    }

    fn generate(&self, info: CodeGenerationInfo) -> (r: Result<String, RenderError>) {
        render_text(&self.node, info)
    }
}

/// The node a constant define renders as: the name is forced into the
/// constant-define casing rule.
pub open spec fn spec_const_define_node(name: Name, value: NodeV) -> NodeV {
    NodeV::Joined(
        seq![
            NodeV::Raw("#define "@),
            NodeV::Ident(name.spec_parts(), NameType::ConstDefine),
            NodeV::Raw(" "@),
            value,
        ],
    )
}

/// A preprocessor constant definition.
pub struct ConstDefine {
    node: Node,
}

impl ConstDefine {
    pub fn new(name: Name, value: Node) -> (r: ConstDefine)
        ensures
            r.as_node() == spec_const_define_node(name, node_view(value)),
    {
        let ghost nmv = NodeV::Ident(name.spec_parts(), NameType::ConstDefine);
        let ghost vv = node_view(value);
        let mut items: Vec<Node> = Vec::new();
        items.push(raw_node("#define "));
        items.push(Node::Ident(name.with_type(NameType::ConstDefine)));
        items.push(raw_node(" "));
        items.push(value);
        proof {
            lemma_nodes_view(items@);
            assert(items@[0]@ == NodeV::Raw("#define "@));
            assert(items@[1]@ == nmv);
            assert(items@[2]@ == NodeV::Raw(" "@));
            assert(items@[3]@ == vv);
            assert(nodes_view(items@) =~= seq![
                NodeV::Raw("#define "@),
                nmv,
                NodeV::Raw(" "@),
                vv,
            ]);
        }
        ConstDefine { node: Node::Joined(items) }
    }

    /// This definition as a node, for use as a child of a composite.
    pub fn into_node(self) -> (n: Node)
        ensures
            n@ == self.as_node(),
    {
        self.node
    }
}

impl CodeGenerate for ConstDefine {
    closed spec fn as_node(&self) -> NodeV {
        node_view(self.node)
    }

    fn generate(&self, info: CodeGenerationInfo) -> (r: Result<String, RenderError>) {
        render_text(&self.node, info)
    }
}

} // verus!
