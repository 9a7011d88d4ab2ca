//! Flow-control node types: if-statements, while-loops and for-loops. Each
//! one only assembles a header from literal keywords and its condition nodes,
//! sets its syntactic context, and hands the body to the block layout.

use vstd::prelude::*;
use crate::building_block_generators::CodeBody;
use crate::building_block_generators::HeaderPlusBody;
use crate::render::Node;
use crate::render::NodeV;
use crate::render::RenderError;
use crate::render::lemma_nodes_view;
use crate::render::node_view;
use crate::render::nodes_view;
use crate::render::raw_node;
use crate::render::render_text;
use crate::setup::CodeGenerate;
use crate::setup::CodeGenerationInfo;
use crate::setup::GeneratorContext;

verus! {

/// The node an if-statement stands for: `if (`, the condition, `)`, and the
/// body, under the `If` context.
pub open spec fn spec_if_node(condition: NodeV, body: Seq<NodeV>) -> NodeV {
    NodeV::Scoped(
        GeneratorContext::If,
        Box::new(
            NodeV::Block(
                Box::new(
                    NodeV::Joined(seq![NodeV::Raw("if ("@), condition, NodeV::Raw(")"@)]),
                ),
                body,
            ),
        ),
    )
}

/// An if-statement: a condition and a braced body.
pub struct IfStatement {
    node: Node,
}

impl IfStatement {
    pub fn new(condition: Node, body: CodeBody) -> (r: IfStatement)
        ensures
            r.as_node() == spec_if_node(node_view(condition), body.spec_items()),
    {
        let ghost cv = node_view(condition);
        let mut header: Vec<Node> = Vec::new();
        header.push(raw_node("if ("));
        header.push(condition);
        header.push(raw_node(")"));
        proof {
            lemma_nodes_view(header@);
            assert(header@[0]@ == NodeV::Raw("if ("@));
            assert(header@[1]@ == cv);
            assert(header@[2]@ == NodeV::Raw(")"@));
            assert(nodes_view(header@) =~= seq![NodeV::Raw("if ("@), cv, NodeV::Raw(")"@)]);
        }
        let ghost bv = body.spec_items();
        let block = HeaderPlusBody::new(Node::Joined(header), body).into_node();
        let ghost kv = node_view(block);
        let r = IfStatement { node: Node::Scoped(GeneratorContext::If, Box::new(block)) };
        proof {
            assert(node_view(r.node) == NodeV::Scoped(GeneratorContext::If, Box::new(kv)));
        }
        r
    }

    /// This statement as a node, for use as a child of a composite.
    pub fn into_node(self) -> (n: Node)
        ensures
            n@ == self.as_node(),
    {
        self.node
    }
}

impl CodeGenerate for IfStatement {
    closed spec fn as_node(&self) -> NodeV {
        node_view(self.node)
    }

    fn generate(&self, info: CodeGenerationInfo) -> (r: Result<String, RenderError>) {
        render_text(&self.node, info)
    }
}

/// The node a while-statement stands for: `while (`, the condition, `)`, and
/// the body, under the `While` context.
pub open spec fn spec_while_node(condition: NodeV, body: Seq<NodeV>) -> NodeV {
    NodeV::Scoped(
        GeneratorContext::While,
        Box::new(
            NodeV::Block(
                Box::new(
                    NodeV::Joined(seq![NodeV::Raw("while ("@), condition, NodeV::Raw(")"@)]),
                ),
                body,
            ),
        ),
    )
}

/// A while-loop: a condition and a braced body.
pub struct WhileStatement {
    node: Node,
}

impl WhileStatement {
    pub fn new(condition: Node, body: CodeBody) -> (r: WhileStatement)
        ensures
            r.as_node() == spec_while_node(node_view(condition), body.spec_items()),
    {
        let ghost cv = node_view(condition);
        let mut header: Vec<Node> = Vec::new();
        header.push(raw_node("while ("));
        header.push(condition);
        header.push(raw_node(")"));
        proof {
            lemma_nodes_view(header@);
            assert(header@[0]@ == NodeV::Raw("while ("@));
            assert(header@[1]@ == cv);
            assert(header@[2]@ == NodeV::Raw(")"@));
            assert(nodes_view(header@) =~= seq![NodeV::Raw("while ("@), cv, NodeV::Raw(")"@)]);
        }
        let ghost bv = body.spec_items();
        let block = HeaderPlusBody::new(Node::Joined(header), body).into_node();
        let ghost kv = node_view(block);
        let r = WhileStatement { node: Node::Scoped(GeneratorContext::While, Box::new(block)) };
        proof {
            assert(node_view(r.node) == NodeV::Scoped(GeneratorContext::While, Box::new(kv)));
        }
        r
    }

    /// This statement as a node, for use as a child of a composite.
    pub fn into_node(self) -> (n: Node)
        ensures
            n@ == self.as_node(),
    {
        self.node
    }
}

impl CodeGenerate for WhileStatement {
    closed spec fn as_node(&self) -> NodeV {
        node_view(self.node)
    }

    fn generate(&self, info: CodeGenerationInfo) -> (r: Result<String, RenderError>) {
        render_text(&self.node, info)
    }
}

/// The node a for-loop stands for: `for (`, the three clauses separated by
/// `; `, `)`, and the body, under the `ForLoop` context.
pub open spec fn spec_for_node(
    init: NodeV,
    continuation: NodeV,
    update: NodeV,
    body: Seq<NodeV>,
) -> NodeV {
    NodeV::Scoped(
        GeneratorContext::ForLoop,
        Box::new(
            NodeV::Block(
                Box::new(
                    NodeV::Joined(
                        seq![
                            NodeV::Raw("for ("@),
                            init,
                            NodeV::Raw("; "@),
                            continuation,
                            NodeV::Raw("; "@),
                            update,
                            NodeV::Raw(")"@),
                        ],
                    ),
                ),
                body,
            ),
        ),
    )
}

/// A for-loop: an initialisation clause, a continuation condition, an update
/// clause, and a braced body.
pub struct ForLoop {
    node: Node,
}

impl ForLoop {
    pub fn new(init_code: Node, continuation_code: Node, update_code: Node, body: Vec<Node>) -> (r:
        ForLoop)
        ensures
            r.as_node() == spec_for_node(
                node_view(init_code),
                node_view(continuation_code),
                node_view(update_code),
                nodes_view(body@),
            ),
    {
        let ghost iv = node_view(init_code);
        let ghost cv = node_view(continuation_code);
        let ghost uv = node_view(update_code);
        let mut header: Vec<Node> = Vec::new();
        header.push(raw_node("for ("));
        header.push(init_code);
        header.push(raw_node("; "));
        header.push(continuation_code);
        header.push(raw_node("; "));
        header.push(update_code);
        header.push(raw_node(")"));
        proof {
            lemma_nodes_view(header@);
            assert(header@[0]@ == NodeV::Raw("for ("@));
            assert(header@[1]@ == iv);
            assert(header@[2]@ == NodeV::Raw("; "@));
            assert(header@[3]@ == cv);
            assert(header@[4]@ == NodeV::Raw("; "@));
            assert(header@[5]@ == uv);
            assert(header@[6]@ == NodeV::Raw(")"@));
            assert(nodes_view(header@) =~= seq![
                NodeV::Raw("for ("@),
                iv,
                NodeV::Raw("; "@),
                cv,
                NodeV::Raw("; "@),
                uv,
                NodeV::Raw(")"@),
            ]);
        }
        let ghost bv = nodes_view(body@);
        let block = HeaderPlusBody::new(Node::Joined(header), CodeBody::new(body)).into_node();
        let ghost kv = node_view(block);
        let r = ForLoop { node: Node::Scoped(GeneratorContext::ForLoop, Box::new(block)) };
        proof {
            assert(node_view(r.node) == NodeV::Scoped(GeneratorContext::ForLoop, Box::new(kv)));
        }
        r
    }

    /// This loop as a node, for use as a child of a composite.
    pub fn into_node(self) -> (n: Node)
        ensures
            n@ == self.as_node(),
    {
        self.node
    }
}

impl CodeGenerate for ForLoop {
    closed spec fn as_node(&self) -> NodeV {
        node_view(self.node)
    }

    fn generate(&self, info: CodeGenerationInfo) -> (r: Result<String, RenderError>) {
        render_text(&self.node, info)
    }
}

} // verus!
