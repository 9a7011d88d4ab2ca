//! The render core: the canonical identifier type, the tree of renderable
//! nodes, the mathematical model of what each node renders to, and the
//! executable renderer, verified against that model.
//!
//! A node renders to text under a [`CodeGenerationInfo`] configuration. The
//! model is [`spec_render`]: a recursive function from a node's view
//! ([`NodeV`]) and a configuration to either the rendered character sequence
//! or a [`RenderError`]. Rendering fails exactly when a block body is asked
//! to lay itself out under one of the reserved brace styles.

use vstd::prelude::*;
use crate::as_case::spec_canonical_fragments;
use crate::as_case::spec_cap_first;
use crate::as_case::spec_casify;
use crate::as_case::spec_casify_rest;
use crate::as_case::spec_frag_cased;
use crate::as_case::spec_is_ascii_upper;
use crate::as_case::spec_is_separator;
use crate::as_case::spec_joiner;
use crate::as_case::spec_split_rec;
use crate::as_case::spec_to_lower;
use crate::as_case::split_fragments;
use crate::as_case::to_upper;
use crate::setup::CaseType;
use crate::setup::CaseTypes;
use crate::setup::CodeGenerationInfo;
use crate::setup::GeneratorContext;
use crate::setup::IndentationStyle;
use crate::setup::IndentationType;
use crate::setup::NewLineType;
use crate::text::chars_to_string;
use crate::text::parts_view;
use crate::text::str_to_chars;

verus! {

/// Why a render call failed. Rendering is total for the supported brace
/// styles; the reserved ones fail loudly instead of guessing a layout.
#[derive(Clone, Copy, Debug, PartialEq, Eq, Structural)]
pub enum RenderError {
    UnsupportedStyle,
}

/// The identifier role: which configured casing rule applies, or a pinned
/// rule that ignores the configuration.
#[derive(Clone, Copy, Debug, PartialEq, Eq, Structural)]
pub enum NameType {
    Default,
    Type,
    Member,
    Function,
    ConstDefine,
    File,
    FixedCase(CaseType),
}

/// The casing rule a role selects under the given assignment.
pub open spec fn spec_case_for(name_type: NameType, case_types: CaseTypes) -> CaseType {
    match name_type {
        NameType::Default => case_types.default_case,
        NameType::Type => case_types.type_name_case,
        NameType::Member => case_types.member_name_case,
        NameType::Function => case_types.function_name_case,
        NameType::ConstDefine => case_types.const_define_case,
        NameType::File => case_types.file_name_case,
        NameType::FixedCase(case_type) => case_type,
    }
}

/// A canonical identifier: an ordered, never-empty sequence of non-empty
/// word fragments, plus the role that selects its casing rule. The role is
/// attached, not baked into the fragments: the same value can be re-rendered
/// under another role without re-splitting.
pub struct Name {
    parts: Vec<Vec<char>>,
    name_type: NameType,
}

impl Name {
    pub closed spec fn spec_parts(&self) -> Seq<Seq<char>> {
        parts_view(self.parts@)
    }

    pub closed spec fn spec_name_type(&self) -> NameType {
        self.name_type
    }

    /// The fragment list is never empty and never holds empty text.
    pub open spec fn wf(&self) -> bool {
        &&& self.spec_parts().len() > 0
        &&& forall|i: int|
            0 <= i < self.spec_parts().len() ==> (#[trigger] self.spec_parts()[i]).len() > 0
    }

    /// Builds an identifier from free-form input: the input is split into
    /// canonical fragments, and the fixed placeholder pair stands in when
    /// nothing remains, so the identifier never renders as empty text.
    pub fn new(screaming_snake_case_name: &str) -> (r: Name)
        ensures
            r.spec_parts() == spec_canonical_fragments(screaming_snake_case_name@),
            r.spec_name_type() == NameType::Default,
            r.wf(),
    {
        let chars = str_to_chars(screaming_snake_case_name);
        let parts = split_fragments(&chars);
        let r = Name { parts, name_type: NameType::Default };
        proof {
            lemma_canonical_fragments_wf(screaming_snake_case_name@);
        }
        r
    }

    /// `new`, with the role set in the same step.
    pub fn new_with_type(screaming_snake_case_name: &str, name_type: NameType) -> (r: Name)
        ensures
            r.spec_parts() == spec_canonical_fragments(screaming_snake_case_name@),
            r.spec_name_type() == name_type,
            r.wf(),
    {
        Name::new(screaming_snake_case_name).with_type(name_type)
    }

    /// The same identifier under another role.
    pub fn with_type(self, name_type: NameType) -> (r: Name)
        ensures
            r.spec_parts() == self.spec_parts(),
            r.spec_name_type() == name_type,
            self.wf() ==> r.wf(),
    {
        Name { parts: self.parts, name_type }
    }

    /// Capitalises just the first character of a fragment.
    pub fn caps_first_letter(string: &Vec<char>) -> (r: Vec<char>)
        ensures
            r@ == spec_cap_first(string@),
    {
        let mut r: Vec<char> = Vec::new();
        let mut i: usize = 0;
        proof {
            assert(spec_cap_first(string@).len() == string@.len());
        }
        while i < string.len()
            invariant
                i <= string@.len(),
                spec_cap_first(string@).len() == string@.len(),
                r@ == spec_cap_first(string@).subrange(0, i as int),
            decreases string@.len() - i,
        {
            if i == 0 {
                r.push(to_upper(string[0]));
            } else {
                r.push(string[i]);
            }
            i = i + 1;
            proof {
                assert(r@ =~= spec_cap_first(string@).subrange(0, i as int));
            }
        }
        proof {
            assert(spec_cap_first(string@).subrange(0, string@.len() as int) =~= spec_cap_first(
                string@,
            ));
        }
        r
    }

    /// The casing rule this identifier renders under, given a configuration.
    pub fn get_case_type(&self, info: CodeGenerationInfo) -> (r: CaseType)
        ensures
            r == spec_case_for(self.spec_name_type(), info.case_types),
    {
        match self.name_type {
            NameType::Default => info.case_types.default_case,
            NameType::Type => info.case_types.type_name_case,
            NameType::Member => info.case_types.member_name_case,
            NameType::Function => info.case_types.function_name_case,
            NameType::ConstDefine => info.case_types.const_define_case,
            NameType::File => info.case_types.file_name_case,
            NameType::FixedCase(case_type) => case_type,
        }
    }

    /// A copy of this identifier: same fragments, same role.
    pub fn duplicate(&self) -> (r: Name)
        ensures
            r.spec_parts() == self.spec_parts(),
            r.spec_name_type() == self.spec_name_type(),
    {
        let mut parts: Vec<Vec<char>> = Vec::new();
        let mut i: usize = 0;
        while i < self.parts.len()
            invariant
                i <= self.parts@.len(),
                parts_view(parts@) == parts_view(self.parts@).subrange(0, i as int),
            decreases self.parts@.len() - i,
        {
            let ghost p0 = parts@;
            parts.push(crate::text::copy_chars(&self.parts[i]));
            i = i + 1;
            proof {
                crate::text::lemma_parts_view(p0);
                crate::text::lemma_parts_view(parts@);
                crate::text::lemma_parts_view(self.parts@);
                let pv = parts_view(parts@);
                let tv = parts_view(self.parts@).subrange(0, i as int);
                assert(pv.len() == i);
                assert(tv.len() == i);
                assert forall|k: int| 0 <= k < i implies pv[k] == tv[k] by {
                    assert(pv[k] == parts@[k]@);
                    if k < i - 1 {
                        assert(parts@[k] == p0[k]);
                        assert(parts_view(p0)[k] == p0[k]@);
                        assert(parts_view(p0)[k] == parts_view(self.parts@).subrange(
                            0,
                            i - 1,
                        )[k]);
                    } else {
                        assert(parts@[k]@ == self.parts@[k]@);
                    }
                }
                assert(pv =~= tv);
            }
        }
        proof {
            assert(parts_view(parts@) =~= parts_view(self.parts@));
        }
        Name { parts, name_type: self.name_type }
    }

    /// The fragments under a casing rule, as characters.
    pub fn casify_chars(&self, case_type: CaseType) -> (r: Vec<char>)
        ensures
            r@ == spec_casify(self.spec_parts(), case_type),
    {
        let ghost parts = self.spec_parts();
        let mut out: Vec<char> = Vec::new();
        let n = self.parts.len();
        if n == 0 {
            return out;
        }
        proof {
            assert(parts[0] == self.parts@[0]@);
        }
        push_frag_cased(&mut out, &self.parts[0], case_type, true);
        proof {
            assert(out@ =~= spec_frag_cased(parts[0], case_type, true));
            assert(parts.drop_first() =~= parts.skip(1));
        }
        let mut j: usize = 1;
        while j < n
            invariant
                n == parts.len(),
                parts == self.spec_parts(),
                1 <= j <= n,
                spec_casify(parts, case_type) == out@ + spec_casify_rest(
                    parts.skip(j as int),
                    case_type,
                ),
            decreases n - j,
        {
            proof {
                assert(parts.skip(j as int)[0] == parts[j as int]);
                assert(parts[j as int] == self.parts@[j as int]@);
                assert(parts.skip(j as int).drop_first() =~= parts.skip(j as int + 1));
            }
            let ghost out0 = out@;
            push_joiner(&mut out, case_type);
            push_frag_cased(&mut out, &self.parts[j], case_type, false);
            j = j + 1;
            proof {
                assert(out@ + spec_casify_rest(parts.skip(j as int), case_type) =~= spec_casify(
                    parts,
                    case_type,
                ));
            }
        }
        proof {
            assert(parts.skip(n as int) =~= Seq::<Seq<char>>::empty());
            assert(out@ + spec_casify_rest(Seq::<Seq<char>>::empty(), case_type) =~= out@);
        }
        out
    }

    /// The rendered text of this identifier under a casing rule.
    pub fn casify(&self, case_type: CaseType) -> (r: String)
        ensures
            r@ == spec_casify(self.spec_parts(), case_type),
    {
        let chars = self.casify_chars(case_type);
        chars_to_string(&chars)
    }
}

/// Appends a rule's fragment joiner.
fn push_joiner(out: &mut Vec<char>, case_type: CaseType)
    ensures
        final(out)@ == old(out)@ + spec_joiner(case_type),
{
    let ghost base = out@;
    match case_type {
        CaseType::SnakeCase => out.push('_'),
        CaseType::ScreamingSnakeCase => out.push('_'),
        _ => (),
    }
    proof {
        assert(out@ =~= base + spec_joiner(case_type));
    }
}

/// Appends one fragment under its per-fragment transform.
fn push_frag_cased(out: &mut Vec<char>, w: &Vec<char>, case_type: CaseType, is_first: bool)
    ensures
        final(out)@ == old(out)@ + spec_frag_cased(w@, case_type, is_first),
{
    let ghost base = out@;
    let upper_all = match case_type {
        CaseType::ScreamingCase => true,
        CaseType::ScreamingSnakeCase => true,
        _ => false,
    };
    let cap_first = match case_type {
        CaseType::CamelCase => !is_first,
        CaseType::PascalCase => true,
        _ => false,
    };
    let ghost frag = spec_frag_cased(w@, case_type, is_first);
    proof {
        assert(frag.len() == w@.len());
        assert(out@ =~= base + frag.subrange(0, 0));
    }
    let mut i: usize = 0;
    while i < w.len()
        invariant
            i <= w@.len(),
            frag == spec_frag_cased(w@, case_type, is_first),
            frag.len() == w@.len(),
            upper_all == (case_type == CaseType::ScreamingCase || case_type
                == CaseType::ScreamingSnakeCase),
            cap_first == (case_type == CaseType::PascalCase || (case_type == CaseType::CamelCase
                && !is_first)),
            out@ == base + frag.subrange(0, i as int),
        decreases w@.len() - i,
    {
        let c = w[i];
        if upper_all {
            out.push(to_upper(c));
        } else if cap_first && i == 0 {
            out.push(to_upper(c));
        } else {
            out.push(c);
        }
        i = i + 1;
        proof {
            assert(out@ =~= base + frag.subrange(0, i as int));
        }
    }
    proof {
        assert(frag.subrange(0, w@.len() as int) =~= frag);
    }
}

/// Splitting yields only non-empty fragments, so the canonical fragments of
/// any input are a non-empty list of non-empty fragments.
pub proof fn lemma_canonical_fragments_wf(s: Seq<char>)
    ensures
        spec_canonical_fragments(s).len() > 0,
        forall|i: int|
            0 <= i < spec_canonical_fragments(s).len() ==> (#[trigger] spec_canonical_fragments(
                s,
            )[i]).len() > 0,
{
    lemma_split_rec_fragments_nonempty(s, seq![], false);
}

/// Prepending a non-empty fragment to a list of non-empty fragments gives a
/// list of non-empty fragments.
proof fn lemma_cons_nonempty(x: Seq<char>, rest: Seq<Seq<char>>)
    requires
        x.len() > 0,
        forall|i: int| 0 <= i < rest.len() ==> (#[trigger] rest[i]).len() > 0,
    ensures
        forall|i: int|
            0 <= i < (seq![x] + rest).len() ==> (#[trigger] (seq![x] + rest)[i]).len() > 0,
{
    assert forall|i: int| 0 <= i < (seq![x] + rest).len() implies (#[trigger] (seq![x]
        + rest)[i]).len() > 0 by {
        if i == 0 {
            assert((seq![x] + rest)[0] == x);
        } else {
            assert((seq![x] + rest)[i] == rest[i - 1]);
        }
    }
}

/// Every fragment `spec_split_rec` yields is non-empty: the pending fragment
/// is only emitted once it holds text.
proof fn lemma_split_rec_fragments_nonempty(s: Seq<char>, cur: Seq<char>, prev_upper: bool)
    ensures
        forall|i: int|
            0 <= i < spec_split_rec(s, cur, prev_upper).len() ==> (#[trigger] spec_split_rec(
                s,
                cur,
                prev_upper,
            )[i]).len() > 0,
    decreases s.len(),
{
    let r = spec_split_rec(s, cur, prev_upper);
    if s.len() == 0 {
        if cur.len() > 0 {
            assert(r == seq![cur]);
            assert(r[0] == cur);
            assert(forall|i: int| 0 <= i < r.len() ==> (#[trigger] r[i]).len() > 0);
        } else {
            assert(r.len() == 0);
        }
    } else {
        let c = s[0];
        if spec_is_separator(c) {
            let rest = spec_split_rec(s.drop_first(), seq![], false);
            lemma_split_rec_fragments_nonempty(s.drop_first(), seq![], false);
            if cur.len() > 0 {
                lemma_cons_nonempty(cur, rest);
                assert(r == seq![cur] + rest);
            } else {
                assert(r == rest);
            }
        } else if spec_is_ascii_upper(c) && !prev_upper {
            let rest = spec_split_rec(s.drop_first(), seq![spec_to_lower(c)], true);
            lemma_split_rec_fragments_nonempty(s.drop_first(), seq![spec_to_lower(c)], true);
            if cur.len() > 0 {
                lemma_cons_nonempty(cur, rest);
                assert(r == seq![cur] + rest);
            } else {
                assert(r == rest);
            }
        } else {
            lemma_split_rec_fragments_nonempty(
                s.drop_first(),
                cur.push(spec_to_lower(c)),
                spec_is_ascii_upper(c),
            );
            assert(r == spec_split_rec(
                s.drop_first(),
                cur.push(spec_to_lower(c)),
                spec_is_ascii_upper(c),
            ));
        }
    }
}

// ---------------------------------------------------------------------------
// The node tree and its mathematical model.
// ---------------------------------------------------------------------------

/// The model of a renderable node: what the renderer sees of a tree.
pub enum NodeV {
    /// Literal text; embedded line breaks re-emit the current indentation.
    Raw(Seq<char>),
    /// A canonical identifier: its fragments and its role.
    Ident(Seq<Seq<char>>, NameType),
    /// A line terminator in the current newline style.
    Line,
    /// The current indentation text.
    Indent,
    /// Children joined by newline-plus-indentation.
    Group(Seq<NodeV>),
    /// Children concatenated with nothing between them.
    Joined(Seq<NodeV>),
    /// Children joined by a separator node.
    Separated(Seq<NodeV>, Box<NodeV>),
    /// Statements wrapped in braces by the block layout of the active style.
    Body(Seq<NodeV>),
    /// A header followed by a braced body, glued per the active style.
    Block(Box<NodeV>, Seq<NodeV>),
    /// Renders its inner node under the given syntactic context.
    Scoped(GeneratorContext, Box<NodeV>),
}

/// A renderable node. Composite nodes own their children, so a tree is built
/// bottom-up and rendered from the root.
pub enum Node {
    Raw(Vec<char>),
    Ident(Name),
    Line,
    Indent,
    Group(Vec<Node>),
    Joined(Vec<Node>),
    Separated(Vec<Node>, Box<Node>),
    Body(Vec<Node>),
    Block(Box<Node>, Vec<Node>),
    Scoped(GeneratorContext, Box<Node>),
}

pub open spec fn nodes_view(nodes: Seq<Node>) -> Seq<NodeV>
    decreases nodes, 0int,
{
    if nodes.len() == 0 {
        seq![]
    } else {
        seq![node_view(nodes[0])] + nodes_view(nodes.drop_first())
    }
}

pub open spec fn node_view(n: Node) -> NodeV
    decreases n, 1int,
{
    match n {
            Node::Raw(text) => NodeV::Raw(text@),
            Node::Ident(name) => NodeV::Ident(name.spec_parts(), name.spec_name_type()),
            Node::Line => NodeV::Line,
            Node::Indent => NodeV::Indent,
            Node::Group(items) => NodeV::Group(nodes_view(items@)),
            Node::Joined(items) => NodeV::Joined(nodes_view(items@)),
            Node::Separated(items, separator) => NodeV::Separated(
                nodes_view(items@),
                Box::new(node_view(*separator)),
            ),
            Node::Body(items) => NodeV::Body(nodes_view(items@)),
            Node::Block(header, items) => NodeV::Block(
                Box::new(node_view(*header)),
                nodes_view(items@),
            ),
            Node::Scoped(context, inner) => NodeV::Scoped(context, Box::new(node_view(*inner))),
        }
}

impl View for Node {
    type V = NodeV;

    open spec fn view(&self) -> NodeV
        decreases self, 2int,
    {
        node_view(*self)
    }
}

/// The view of a node list is the list of views.
pub proof fn lemma_nodes_view(nodes: Seq<Node>)
    ensures
        nodes_view(nodes).len() == nodes.len(),
        forall|i: int| 0 <= i < nodes.len() ==> nodes_view(nodes)[i] == #[trigger] nodes[i]@,
    decreases nodes.len(),
{
    if nodes.len() > 0 {
        lemma_nodes_view(nodes.drop_first());
        assert forall|i: int| 0 <= i < nodes.len() implies nodes_view(nodes)[i]
            == #[trigger] nodes[i]@ by {
            if i == 0 {
                assert(nodes_view(nodes)[0] == node_view(nodes[0]));
            } else {
                assert(nodes_view(nodes)[i] == nodes_view(nodes.drop_first())[i - 1]);
                assert(nodes.drop_first()[i - 1] == nodes[i]);
            }
        }
    }
}

/// Pushing a node onto a list appends its view to the list's view.
pub proof fn lemma_nodes_view_push(nodes: Seq<Node>, x: Node)
    ensures
        nodes_view(nodes.push(x)) == nodes_view(nodes).push(node_view(x)),
{
    lemma_nodes_view(nodes);
    lemma_nodes_view(nodes.push(x));
    assert(nodes.push(x)[nodes.len() as int] == x);
    assert(x@ == node_view(x));
    assert forall|i: int|
        0 <= i < nodes.len() + 1 implies nodes_view(nodes.push(x))[i] == nodes_view(nodes).push(
        node_view(x),
    )[i] by {
        assert(nodes_view(nodes.push(x))[i] == nodes.push(x)[i]@);
        if i < nodes.len() {
            assert(nodes.push(x)[i] == nodes[i]);
            assert(nodes_view(nodes)[i] == nodes[i]@);
            assert(nodes_view(nodes).push(node_view(x))[i] == nodes_view(nodes)[i]);
        } else {
            assert(nodes.push(x)[i] == x);
            assert(nodes_view(nodes).push(node_view(x))[i] == node_view(x));
        }
    }
    assert(nodes_view(nodes.push(x)) =~= nodes_view(nodes).push(node_view(x)));
}

/// The structural height of a node, used as the termination measure of the
/// renderer and to bound how far the nesting level can grow.
pub open spec fn height(n: NodeV) -> nat
    decreases n, 1int,
{
    match n {
        NodeV::Raw(_) => 0,
        NodeV::Ident(_, _) => 0,
        NodeV::Line => 0,
        NodeV::Indent => 0,
        NodeV::Group(items) => 1 + height_list(items),
        NodeV::Joined(items) => 1 + height_list(items),
        NodeV::Separated(items, separator) => 1 + if height_list(items) >= height(*separator) {
            height_list(items)
        } else {
            height(*separator)
        },
        NodeV::Body(items) => 1 + height_list(items),
        NodeV::Block(header, items) => 1 + if height(*header) >= height_list(items) {
            height(*header)
        } else {
            height_list(items)
        },
        NodeV::Scoped(_, inner) => 1 + height(*inner),
    }
}

pub open spec fn height_list(items: Seq<NodeV>) -> nat
    decreases items, 0int,
{
    if items.len() == 0 {
        0
    } else if height(items[0]) >= height_list(items.drop_first()) {
        height(items[0])
    } else {
        height_list(items.drop_first())
    }
}

/// Every item of a list is at most as high as the list.
pub proof fn lemma_height_list_bound(items: Seq<NodeV>, i: int)
    requires
        0 <= i < items.len(),
    ensures
        height(items[i]) <= height_list(items),
    decreases items.len(),
{
    if i > 0 {
        lemma_height_list_bound(items.drop_first(), i - 1);
    }
}

// ---------------------------------------------------------------------------
// The style-dependent texts.
// ---------------------------------------------------------------------------

/// The literal line terminator of a newline style.
pub open spec fn spec_nl_text(new_line_type: NewLineType) -> Seq<char> {
    match new_line_type {
        NewLineType::Cr => seq!['\r'],
        NewLineType::Nl => seq!['\n'],
        NewLineType::CrNl => seq!['\r', '\n'],
        NewLineType::Empty => seq![],
    }
}

/// The character one level of indentation repeats.
pub open spec fn spec_indent_char(c: CodeGenerationInfo) -> char {
    match c.indent_type {
        IndentationType::Spaces => ' ',
        IndentationType::Tabs => '\t',
    }
}

/// How many characters one level of indentation holds: the width itself for
/// spaces; for tabs, the width rounded up to a multiple of four, divided by
/// four.
pub open spec fn spec_indent_unit(c: CodeGenerationInfo) -> int {
    match c.indent_type {
        IndentationType::Spaces => c.indent_amount as int,
        IndentationType::Tabs => (c.indent_amount + 3) as int / 4,
    }
}

/// The indentation text of the current nesting level.
pub open spec fn spec_indent_text(c: CodeGenerationInfo) -> Seq<char> {
    Seq::new((spec_indent_unit(c) * c.indent_level as int) as nat, |i: int| spec_indent_char(c))
}

/// The alignment text Horstmann and Pico place after the opening brace so the
/// first statement lines up under it: one indentation unit narrowed by the
/// single column the brace occupies. A width of zero stays zero rather than
/// wrapping around.
pub open spec fn spec_align_width(c: CodeGenerationInfo) -> int {
    if c.indent_amount == 0 {
        0
    } else {
        (c.indent_amount - 1) as int
    }
}

pub open spec fn spec_align_text(c: CodeGenerationInfo) -> Seq<char> {
    Seq::new(
        (match c.indent_type {
            IndentationType::Spaces => spec_align_width(c),
            IndentationType::Tabs => (spec_align_width(c) + 3) / 4,
        }) as nat,
        |i: int| spec_indent_char(c),
    )
}

/// The brace styles the block layout implements; the others are reserved.
pub open spec fn spec_style_supported(style: IndentationStyle) -> bool {
    match style {
        IndentationStyle::Allman => true,
        IndentationStyle::GNU => true,
        IndentationStyle::KnR => true,
        IndentationStyle::Horstmann => true,
        IndentationStyle::Pico => true,
        IndentationStyle::Compact => true,
        _ => false,
    }
}

/// The text a header-plus-body node places between header and body: a new
/// line for the styles whose brace opens a fresh line (GNU re-indents to the
/// header's level), a single space for K&R, nothing for the compact style.
pub open spec fn spec_glue_text(c: CodeGenerationInfo) -> Seq<char> {
    match c.indent_style {
        IndentationStyle::Allman => spec_nl_text(c.new_line_type),
        IndentationStyle::Horstmann => spec_nl_text(c.new_line_type),
        IndentationStyle::Pico => spec_nl_text(c.new_line_type),
        IndentationStyle::GNU => spec_nl_text(c.new_line_type) + spec_indent_text(c),
        IndentationStyle::KnR => seq![' '],
        _ => seq![],
    }
}

/// The configuration a block's statements render under: one level deeper,
/// except GNU's two (its braces occupy the intermediate level).
pub open spec fn spec_body_cfg(c: CodeGenerationInfo) -> CodeGenerationInfo {
    match c.indent_style {
        IndentationStyle::GNU => c.spec_indent().spec_indent(),
        _ => c.spec_indent(),
    }
}

/// The configuration whose indentation precedes a block's closing brace: the
/// header's own level, except GNU's one-level-in closer outside function
/// context.
pub open spec fn spec_close_cfg(c: CodeGenerationInfo) -> CodeGenerationInfo {
    match c.indent_style {
        IndentationStyle::GNU => if c.context == GeneratorContext::Function {
            c
        } else {
            c.spec_indent()
        },
        _ => c,
    }
}

/// The brace-and-indentation wrapping of a rendered block body. `bt` is the
/// text of the statements, already rendered under `spec_body_cfg(c)`; an
/// empty statement list collapses the inner line so the braces stand alone.
pub open spec fn spec_assemble_body(c: CodeGenerationInfo, empty: bool, bt: Seq<char>) -> Seq<
    char,
> {
    let nl = spec_nl_text(c.new_line_type);
    let ind = spec_indent_text(c);
    match c.indent_style {
        IndentationStyle::Allman => ind + seq!['{'] + nl + (if !empty {
            spec_indent_text(spec_body_cfg(c)) + bt + nl
        } else {
            seq![]
        }) + ind + seq!['}'],
        IndentationStyle::KnR => seq!['{'] + nl + (if !empty {
            spec_indent_text(spec_body_cfg(c)) + bt + nl
        } else {
            seq![]
        }) + ind + seq!['}'],
        IndentationStyle::GNU => seq!['{'] + nl + (if !empty {
            spec_indent_text(spec_body_cfg(c)) + bt + nl
        } else {
            seq![]
        }) + spec_indent_text(spec_close_cfg(c)) + seq!['}'],
        IndentationStyle::Horstmann => ind + seq!['{'] + (if !empty {
            spec_align_text(c) + bt
        } else {
            seq![]
        }) + nl + ind + seq!['}'],
        IndentationStyle::Pico => ind + seq!['{'] + (if !empty {
            spec_align_text(c) + bt
        } else {
            seq![]
        }) + seq![' ', '}'],
        IndentationStyle::Compact => seq!['{'] + bt + seq!['}'],
        _ => seq![],
    }
}

// ---------------------------------------------------------------------------
// The render model.
// ---------------------------------------------------------------------------

/// What a node renders to: its text, or the error that stops the render.
pub open spec fn spec_render(n: NodeV, c: CodeGenerationInfo) -> Result<Seq<char>, RenderError>
    decreases n, 3int,
{
    match n {
        NodeV::Raw(text) => Ok(spec_raw_text(text, c)),
        NodeV::Ident(parts, name_type) => Ok(
            spec_casify(parts, spec_case_for(name_type, c.case_types)),
        ),
        NodeV::Line => Ok(spec_nl_text(c.new_line_type)),
        NodeV::Indent => Ok(spec_indent_text(c)),
        NodeV::Group(items) => spec_render_group(items, c),
        NodeV::Joined(items) => spec_render_joined(items, c),
        NodeV::Separated(items, separator) => spec_render_separated(
            items,
            spec_render(*separator, c),
            c,
        ),
        NodeV::Body(items) => spec_render_body(items, c),
        NodeV::Block(header, items) => match spec_render(*header, c) {
            Err(e) => Err(e),
            Ok(ht) => match spec_render_body(items, c) {
                Err(e) => Err(e),
                Ok(bt) => Ok(ht + spec_glue_text(c) + bt),
            },
        },
        NodeV::Scoped(context, inner) => spec_render(*inner, c.spec_with_context(context)),
    }
}

/// Renders a statement list and wraps it in the active style's block layout;
/// a reserved style is the one source of render errors.
pub open spec fn spec_render_body(items: Seq<NodeV>, c: CodeGenerationInfo) -> Result<
    Seq<char>,
    RenderError,
>
    decreases items, 2int,
{
    if !spec_style_supported(c.indent_style) {
        Err(RenderError::UnsupportedStyle)
    } else {
        match spec_render_group(items, spec_body_cfg(c)) {
            Err(e) => Err(e),
            Ok(bt) => Ok(spec_assemble_body(c, items.len() == 0, bt)),
        }
    }
}

/// Children joined by newline-plus-indentation, stopping at the first
/// failing child.
pub open spec fn spec_render_group(items: Seq<NodeV>, c: CodeGenerationInfo) -> Result<
    Seq<char>,
    RenderError,
>
    decreases items, 1int,
{
    if items.len() == 0 {
        Ok(seq![])
    } else {
        match spec_render(items[0], c) {
            Err(e) => Err(e),
            Ok(t0) => match spec_render_group_rest(items.drop_first(), c) {
                Err(e) => Err(e),
                Ok(tr) => Ok(t0 + tr),
            },
        }
    }
}

pub open spec fn spec_render_group_rest(items: Seq<NodeV>, c: CodeGenerationInfo) -> Result<
    Seq<char>,
    RenderError,
>
    decreases items, 1int,
{
    if items.len() == 0 {
        Ok(seq![])
    } else {
        match spec_render(items[0], c) {
            Err(e) => Err(e),
            Ok(t0) => match spec_render_group_rest(items.drop_first(), c) {
                Err(e) => Err(e),
                Ok(tr) => Ok(spec_nl_text(c.new_line_type) + spec_indent_text(c) + t0 + tr),
            },
        }
    }
}

/// Children concatenated directly, stopping at the first failing child.
pub open spec fn spec_render_joined(items: Seq<NodeV>, c: CodeGenerationInfo) -> Result<
    Seq<char>,
    RenderError,
>
    decreases items, 1int,
{
    if items.len() == 0 {
        Ok(seq![])
    } else {
        match spec_render(items[0], c) {
            Err(e) => Err(e),
            Ok(t0) => match spec_render_joined(items.drop_first(), c) {
                Err(e) => Err(e),
                Ok(tr) => Ok(t0 + tr),
            },
        }
    }
}

/// Children joined by a separator's text; the separator is only rendered
/// where two children meet, so a failing separator is only reported once a
/// second child is reached.
pub open spec fn spec_render_separated(
    items: Seq<NodeV>,
    sep: Result<Seq<char>, RenderError>,
    c: CodeGenerationInfo,
) -> Result<Seq<char>, RenderError>
    decreases items, 1int,
{
    if items.len() == 0 {
        Ok(seq![])
    } else {
        match spec_render(items[0], c) {
            Err(e) => Err(e),
            Ok(t0) => if items.len() == 1 {
                Ok(t0)
            } else {
                match sep {
                    Err(e) => Err(e),
                    Ok(st) => match spec_render_separated(items.drop_first(), sep, c) {
                        Err(e) => Err(e),
                        Ok(tr) => Ok(t0 + st + tr),
                    },
                }
            },
        }
    }
}

/// Multi-line raw text: the first line as it stands, every further line
/// preceded by a newline and the current indentation. A line terminator at
/// the very end starts no new line, and a carriage return is taken together
/// with a following line feed.
pub open spec fn spec_raw_text(s: Seq<char>, c: CodeGenerationInfo) -> Seq<char>
    decreases s.len(),
{
    if s.len() == 0 {
        seq![]
    } else if s[0] == '\r' && s.len() >= 2 && s[1] == '\n' {
        if s.len() == 2 {
            seq![]
        } else {
            spec_nl_text(c.new_line_type) + spec_indent_text(c) + spec_raw_text(s.skip(2), c)
        }
    } else if s[0] == '\n' {
        if s.len() == 1 {
            seq![]
        } else {
            spec_nl_text(c.new_line_type) + spec_indent_text(c) + spec_raw_text(s.skip(1), c)
        }
    } else {
        seq![s[0]] + spec_raw_text(s.skip(1), c)
    }
}

// ---------------------------------------------------------------------------
// The executable renderer.
// ---------------------------------------------------------------------------

/// Appends one character.
pub(crate) fn push_char(out: &mut Vec<char>, ch: char)
    ensures
        final(out)@ == old(out)@ + seq![ch],
{
    let ghost base = out@;
    out.push(ch);
    proof {
        assert(out@ =~= base + seq![ch]);
    }
}

/// Appends a character vector.
pub(crate) fn push_chars(out: &mut Vec<char>, v: &Vec<char>)
    ensures
        final(out)@ == old(out)@ + v@,
{
    let ghost base = out@;
    let mut i: usize = 0;
    while i < v.len()
        invariant
            i <= v@.len(),
            out@ == base + v@.subrange(0, i as int),
        decreases v@.len() - i,
    {
        out.push(v[i]);
        i = i + 1;
        proof {
            assert(out@ =~= base + v@.subrange(0, i as int));
        }
    }
    proof {
        assert(base + v@.subrange(0, v@.len() as int) =~= base + v@);
    }
}

/// Appends the line terminator of the active newline style.
fn push_nl(out: &mut Vec<char>, c: CodeGenerationInfo)
    ensures
        final(out)@ == old(out)@ + spec_nl_text(c.new_line_type),
{
    let ghost base = out@;
    match c.new_line_type {
        NewLineType::Cr => out.push('\r'),
        NewLineType::Nl => out.push('\n'),
        NewLineType::CrNl => {
            out.push('\r');
            out.push('\n');
        },
        NewLineType::Empty => (),
    }
    proof {
        assert(out@ =~= base + spec_nl_text(c.new_line_type));
    }
}

/// Appends `count` copies of a character.
fn push_repeated(out: &mut Vec<char>, ch: char, count: usize)
    ensures
        final(out)@ == old(out)@ + Seq::new(count as nat, |i: int| ch),
{
    let ghost base = out@;
    let mut j: usize = 0;
    while j < count
        invariant
            j <= count,
            out@ == base + Seq::new(j as nat, |i: int| ch),
        decreases count - j,
    {
        out.push(ch);
        j = j + 1;
        proof {
            assert(out@ =~= base + Seq::new(j as nat, |i: int| ch));
        }
    }
}

/// The width of one indentation unit, in characters.
fn indent_unit_width(c: CodeGenerationInfo) -> (r: usize)
    ensures
        r as int == spec_indent_unit(c),
{
    match c.indent_type {
        IndentationType::Spaces => c.indent_amount,
        IndentationType::Tabs => {
            let q = c.indent_amount / 4;
            let rem = c.indent_amount % 4;
            let r: usize = if rem == 0 {
                q
            } else {
                q + 1
            };
            proof {
                assert(r as int == (c.indent_amount + 3) as int / 4) by (nonlinear_arith)
                    requires
                        q == c.indent_amount / 4,
                        rem == c.indent_amount % 4,
                        r as int == if rem == 0 {
                            q as int
                        } else {
                            q as int + 1
                        },
                ;
            }
            r
        },
    }
}

/// Appends the indentation text of the current nesting level.
fn push_indent(out: &mut Vec<char>, c: CodeGenerationInfo)
    ensures
        final(out)@ == old(out)@ + spec_indent_text(c),
{
    let ghost base = out@;
    let unit = indent_unit_width(c);
    let ch = match c.indent_type {
        IndentationType::Spaces => ' ',
        IndentationType::Tabs => '\t',
    };
    let mut level: usize = 0;
    while level < c.indent_level
        invariant
            level <= c.indent_level,
            unit as int == spec_indent_unit(c),
            ch == spec_indent_char(c),
            out@ == base + Seq::new((unit as int * level as int) as nat, |i: int| ch),
        decreases c.indent_level - level,
    {
        push_repeated(out, ch, unit);
        level = level + 1;
        proof {
            assert(unit as int * (level - 1) as int + unit as int == unit as int * level as int)
                by (nonlinear_arith);
            assert(out@ =~= base + Seq::new((unit as int * level as int) as nat, |i: int| ch));
        }
    }
    proof {
        assert(base + Seq::new((unit as int * c.indent_level as int) as nat, |i: int| ch) =~= base
            + spec_indent_text(c));
    }
}

/// Appends the Horstmann/Pico alignment text that stands in for the column
/// the opening brace occupies.
fn push_align(out: &mut Vec<char>, c: CodeGenerationInfo)
    ensures
        final(out)@ == old(out)@ + spec_align_text(c),
{
    let ghost base = out@;
    let width: usize = if c.indent_amount == 0 {
        0
    } else {
        c.indent_amount - 1
    };
    let ch = match c.indent_type {
        IndentationType::Spaces => ' ',
        IndentationType::Tabs => '\t',
    };
    let count: usize = match c.indent_type {
        IndentationType::Spaces => width,
        IndentationType::Tabs => {
            let q = width / 4;
            let rem = width % 4;
            let r: usize = if rem == 0 {
                q
            } else {
                q + 1
            };
            proof {
                assert(r as int == (width + 3) as int / 4) by (nonlinear_arith)
                    requires
                        q == width / 4,
                        rem == width % 4,
                        r as int == if rem == 0 {
                            q as int
                        } else {
                            q as int + 1
                        },
                ;
            }
            r
        },
    };
    push_repeated(out, ch, count);
    proof {
        assert(base + Seq::new(count as nat, |i: int| ch) =~= base + spec_align_text(c));
    }
}

/// Appends multi-line raw text, re-indenting each continuation line.
fn push_raw(out: &mut Vec<char>, text: &Vec<char>, c: CodeGenerationInfo)
    ensures
        final(out)@ == old(out)@ + spec_raw_text(text@, c),
{
    let ghost base = out@;
    let ghost mut acc: Seq<char> = seq![];
    let mut i: usize = 0;
    let n = text.len();
    proof {
        assert(text@.skip(0) =~= text@);
        assert(base + acc =~= base);
    }
    while i < n
        invariant
            i <= n,
            n == text@.len(),
            out@ == base + acc,
            spec_raw_text(text@, c) == acc + spec_raw_text(text@.skip(i as int), c),
        decreases n - i,
    {
        let ch = text[i];
        proof {
            assert(text@.skip(i as int)[0] == text@[i as int]);
            if i + 1 < n {
                assert(text@.skip(i as int)[1] == text@[i as int + 1]);
            }
            assert(text@.skip(i as int).skip(1) =~= text@.skip(i as int + 1));
            if i + 2 <= n {
                assert(text@.skip(i as int).skip(2) =~= text@.skip(i as int + 2));
            }
        }
        if ch == '\r' && i + 1 < n && text[i + 1] == '\n' {
            if i + 2 < n {
                push_nl(out, c);
                push_indent(out, c);
                proof {
                    acc = acc + spec_nl_text(c.new_line_type) + spec_indent_text(c);
                    assert(out@ =~= base + acc);
                }
            }
            i = i + 2;
        } else if ch == '\n' {
            if i + 1 < n {
                push_nl(out, c);
                push_indent(out, c);
                proof {
                    acc = acc + spec_nl_text(c.new_line_type) + spec_indent_text(c);
                    assert(out@ =~= base + acc);
                }
            }
            i = i + 1;
        } else {
            push_char(out, ch);
            proof {
                acc = acc + seq![ch];
                assert(out@ =~= base + acc);
            }
            i = i + 1;
        }
        proof {
            assert(acc + spec_raw_text(text@.skip(i as int), c) =~= spec_raw_text(text@, c));
        }
    }
    proof {
        assert(text@.skip(n as int) =~= Seq::<char>::empty());
        assert(acc + spec_raw_text(Seq::<char>::empty(), c) =~= acc);
    }
}

/// Prepending already-rendered text to a pending render result.
pub open spec fn spec_prepend(t: Seq<char>, r: Result<Seq<char>, RenderError>) -> Result<
    Seq<char>,
    RenderError,
> {
    match r {
        Ok(s) => Ok(t + s),
        Err(e) => Err(e),
    }
}

/// Splitting a prepended text: prepending `a + b` is prepending `b`, then
/// `a`.
proof fn lemma_prepend_assoc(a: Seq<char>, b: Seq<char>, r: Result<Seq<char>, RenderError>)
    ensures
        spec_prepend(a + b, r) == spec_prepend(a, spec_prepend(b, r)),
{
    match r {
        Ok(t) => {
            assert((a + b) + t =~= a + (b + t));
        },
        Err(e) => {},
    }
}

/// One nesting level deeper, total: the level saturates at the machine
/// limit instead of overflowing.
fn bump_cfg(c: CodeGenerationInfo) -> (r: CodeGenerationInfo)
    ensures
        r == c.spec_indent(),
{
    if c.indent_level < usize::MAX {
        c.indent()
    } else {
        c
    }
}

/// Renders one node, appending its text. On an error the text appended so
/// far is indeterminate and the caller discards the buffer.
#[verifier::rlimit(100)]
#[verifier::spinoff_prover]
fn render_node(n: &Node, c: CodeGenerationInfo, out: &mut Vec<char>) -> (r: Result<
    (),
    RenderError,
>)
    ensures
        r matches Ok(u) ==> (spec_render(n@, c) matches Ok(t) && final(out)@ == old(out)@ + t),
        r matches Err(e) ==> spec_render(n@, c) == Err::<Seq<char>, RenderError>(e),
    decreases height(n@), 0int,
{
    let ghost base = out@;
    match n {
        Node::Raw(text) => {
            push_raw(out, text, c);
            Ok(())
        },
        Node::Ident(name) => {
            let case_type = name.get_case_type(c);
            let chars = name.casify_chars(case_type);
            push_chars(out, &chars);
            Ok(())
        },
        Node::Line => {
            push_nl(out, c);
            Ok(())
        },
        Node::Indent => {
            push_indent(out, c);
            Ok(())
        },
        Node::Group(items) => {
            proof {
                assert(height(n@) == 1 + height_list(nodes_view(items@)));
            }
            render_group_items(items, c, out, Ghost((height(n@) - 1) as nat))
        },
        Node::Joined(items) => {
            proof {
                assert(height(n@) == 1 + height_list(nodes_view(items@)));
            }
            render_joined_items(items, c, out, Ghost((height(n@) - 1) as nat))
        },
        Node::Separated(items, separator) => {
            proof {
                assert(height(n@) >= 1 + height_list(nodes_view(items@)));
                assert(height(n@) >= 1 + height(separator@));
            }
            render_separated_items(items, separator, c, out, Ghost((height(n@) - 1) as nat))
        },
        Node::Body(items) => {
            proof {
                assert(height(n@) == 1 + height_list(nodes_view(items@)));
            }
            render_body_items(items, c, out, Ghost((height(n@) - 1) as nat))
        },
        Node::Block(header, items) => {
            proof {
                assert(height(n@) >= 1 + height(header@));
                assert(height(n@) >= 1 + height_list(nodes_view(items@)));
            }
            let rh = render_node(header, c, out);
            if let Err(e) = rh {
                return Err(e);
            }
            match c.indent_style {
                IndentationStyle::Allman => push_nl(out, c),
                IndentationStyle::Horstmann => push_nl(out, c),
                IndentationStyle::Pico => push_nl(out, c),
                IndentationStyle::GNU => {
                    push_nl(out, c);
                    push_indent(out, c);
                },
                IndentationStyle::KnR => push_char(out, ' '),
                _ => (),
            }
            let rb = render_body_items(items, c, out, Ghost((height(n@) - 1) as nat));
            if let Err(e) = rb {
                return Err(e);
            }
            proof {
                assert(out@ =~= base + (spec_render(header@, c).unwrap() + spec_glue_text(c)
                    + spec_render_body(nodes_view(items@), c).unwrap()));
            }
            Ok(())
        },
        Node::Scoped(context, inner) => {
            proof {
                assert(height(n@) == 1 + height(inner@));
            }
            render_node(inner, c.with_context(*context), out)
        },
    }
}

/// Renders a newline-and-indentation joined list.
fn render_group_items(
    items: &Vec<Node>,
    c: CodeGenerationInfo,
    out: &mut Vec<char>,
    m: Ghost<nat>,
) -> (r: Result<(), RenderError>)
    requires
        height_list(nodes_view(items@)) <= m@,
    ensures
        r matches Ok(u) ==> (spec_render_group(nodes_view(items@), c) matches Ok(t)
            && final(out)@ == old(out)@ + t),
        r matches Err(e) ==> spec_render_group(nodes_view(items@), c) == Err::<
            Seq<char>,
            RenderError,
        >(e),
    decreases m@, 1int,
{
    let ghost base = out@;
    let ghost vs = nodes_view(items@);
    proof {
        lemma_nodes_view(items@);
    }
    let n = items.len();
    if n == 0 {
        proof {
            assert(out@ =~= base + Seq::<char>::empty());
        }
        return Ok(());
    }
    proof {
        lemma_height_list_bound(vs, 0);
    }
    let r0 = render_node(&items[0], c, out);
    if let Err(e) = r0 {
        return Err(e);
    }
    let ghost mut acc: Seq<char> = spec_render(vs[0], c).unwrap();
    proof {
        assert(vs.drop_first() =~= vs.skip(1));
    }
    let mut j: usize = 1;
    while j < n
        invariant
            1 <= j <= n,
            n == items@.len(),
            vs == nodes_view(items@),
            vs.len() == n,
            forall|i: int| 0 <= i < n ==> vs[i] == #[trigger] items@[i]@,
            height_list(vs) <= m@,
            out@ == base + acc,
            spec_render_group(vs, c) == spec_prepend(acc, spec_render_group_rest(
                vs.skip(j as int),
                c,
            )),
        decreases n - j,
    {
        proof {
            assert(vs.skip(j as int)[0] == vs[j as int]);
            assert(vs.skip(j as int).drop_first() =~= vs.skip(j as int + 1));
            lemma_height_list_bound(vs, j as int);
        }
        push_nl(out, c);
        push_indent(out, c);
        let rj = render_node(&items[j], c, out);
        if let Err(e) = rj {
            return Err(e);
        }
        proof {
            let acc0 = acc;
            let piece = spec_nl_text(c.new_line_type) + spec_indent_text(c) + spec_render(
                vs[j as int],
                c,
            ).unwrap();
            let tail = spec_render_group_rest(vs.skip(j as int + 1), c);
            assert(spec_render_group_rest(vs.skip(j as int), c) == spec_prepend(piece, tail));
            lemma_prepend_assoc(acc0, piece, tail);
            acc = acc + spec_nl_text(c.new_line_type) + spec_indent_text(c) + spec_render(
                vs[j as int],
                c,
            ).unwrap();
            assert(acc =~= acc0 + piece);
            assert(out@ =~= base + acc);
            assert(spec_render_group(vs, c) == spec_prepend(acc, tail));
        }
        j = j + 1;
    }
    proof {
        assert(vs.skip(n as int) =~= Seq::<NodeV>::empty());
        assert(acc + Seq::<char>::empty() =~= acc);
    }
    Ok(())
}

/// Renders a plainly concatenated list.
fn render_joined_items(
    items: &Vec<Node>,
    c: CodeGenerationInfo,
    out: &mut Vec<char>,
    m: Ghost<nat>,
) -> (r: Result<(), RenderError>)
    requires
        height_list(nodes_view(items@)) <= m@,
    ensures
        r matches Ok(u) ==> (spec_render_joined(nodes_view(items@), c) matches Ok(t)
            && final(out)@ == old(out)@ + t),
        r matches Err(e) ==> spec_render_joined(nodes_view(items@), c) == Err::<
            Seq<char>,
            RenderError,
        >(e),
    decreases m@, 1int,
{
    let ghost base = out@;
    let ghost vs = nodes_view(items@);
    proof {
        lemma_nodes_view(items@);
        assert(vs.skip(0) =~= vs);
    }
    let n = items.len();
    let ghost mut acc: Seq<char> = seq![];
    let mut j: usize = 0;
    proof {
        assert(out@ =~= base + acc);
    }
    while j < n
        invariant
            j <= n,
            n == items@.len(),
            vs == nodes_view(items@),
            vs.len() == n,
            forall|i: int| 0 <= i < n ==> vs[i] == #[trigger] items@[i]@,
            height_list(vs) <= m@,
            out@ == base + acc,
            spec_render_joined(vs, c) == spec_prepend(acc, spec_render_joined(
                vs.skip(j as int),
                c,
            )),
        decreases n - j,
    {
        proof {
            assert(vs.skip(j as int)[0] == vs[j as int]);
            assert(vs.skip(j as int).drop_first() =~= vs.skip(j as int + 1));
            lemma_height_list_bound(vs, j as int);
        }
        let rj = render_node(&items[j], c, out);
        if let Err(e) = rj {
            return Err(e);
        }
        proof {
            let acc0 = acc;
            let piece = spec_render(vs[j as int], c).unwrap();
            let tail = spec_render_joined(vs.skip(j as int + 1), c);
            assert(spec_render_joined(vs.skip(j as int), c) == spec_prepend(piece, tail));
            lemma_prepend_assoc(acc0, piece, tail);
            acc = acc + spec_render(vs[j as int], c).unwrap();
            assert(out@ =~= base + acc);
            assert(spec_render_joined(vs, c) == spec_prepend(acc, tail));
        }
        j = j + 1;
    }
    proof {
        assert(vs.skip(n as int) =~= Seq::<NodeV>::empty());
        assert(acc + Seq::<char>::empty() =~= acc);
    }
    Ok(())
}

/// Renders a separator-joined list. The separator is rendered once, up
/// front, into a scratch buffer; it only counts once at least two children
/// meet, matching the model.
fn render_separated_items(
    items: &Vec<Node>,
    separator: &Node,
    c: CodeGenerationInfo,
    out: &mut Vec<char>,
    m: Ghost<nat>,
) -> (r: Result<(), RenderError>)
    requires
        height_list(nodes_view(items@)) <= m@,
        height(separator@) <= m@,
    ensures
        r matches Ok(u) ==> (spec_render_separated(
            nodes_view(items@),
            spec_render(separator@, c),
            c,
        ) matches Ok(t) && final(out)@ == old(out)@ + t),
        r matches Err(e) ==> spec_render_separated(
            nodes_view(items@),
            spec_render(separator@, c),
            c,
        ) == Err::<Seq<char>, RenderError>(e),
    decreases m@, 1int,
{
    let ghost base = out@;
    let ghost vs = nodes_view(items@);
    let ghost sep_r = spec_render(separator@, c);
    proof {
        lemma_nodes_view(items@);
    }
    let n = items.len();
    if n == 0 {
        proof {
            assert(out@ =~= base + Seq::<char>::empty());
        }
        return Ok(());
    }
    proof {
        lemma_height_list_bound(vs, 0);
    }
    let r0 = render_node(&items[0], c, out);
    if let Err(e) = r0 {
        return Err(e);
    }
    let ghost mut acc: Seq<char> = spec_render(vs[0], c).unwrap();
    if n == 1 {
        return Ok(());
    }
    let mut scratch: Vec<char> = Vec::new();
    let rs = render_node(separator, c, &mut scratch);
    if let Err(e) = rs {
        proof {
            assert(vs.len() > 1);
        }
        return Err(e);
    }
    let ghost st = sep_r.unwrap();
    proof {
        assert(scratch@ =~= st);
        assert(vs.drop_first() =~= vs.skip(1));
    }
    let mut j: usize = 1;
    while j < n
        invariant
            1 <= j <= n,
            n == items@.len(),
            n > 1,
            vs == nodes_view(items@),
            vs.len() == n,
            forall|i: int| 0 <= i < n ==> vs[i] == #[trigger] items@[i]@,
            height_list(vs) <= m@,
            out@ == base + acc,
            scratch@ == st,
            sep_r == Ok::<Seq<char>, RenderError>(st),
            sep_r == spec_render(separator@, c),
            j < n ==> spec_render_separated(vs, sep_r, c) == spec_prepend(
                acc + st,
                spec_render_separated(vs.skip(j as int), sep_r, c),
            ),
            j == n ==> spec_render_separated(vs, sep_r, c) == Ok::<Seq<char>, RenderError>(acc),
        decreases n - j,
    {
        proof {
            assert(vs.skip(j as int)[0] == vs[j as int]);
            assert(vs.skip(j as int).drop_first() =~= vs.skip(j as int + 1));
            lemma_height_list_bound(vs, j as int);
        }
        push_chars(out, &scratch);
        let rj = render_node(&items[j], c, out);
        if let Err(e) = rj {
            return Err(e);
        }
        proof {
            let acc0 = acc;
            let tj = spec_render(vs[j as int], c).unwrap();
            acc = acc + st + tj;
            assert(out@ =~= base + acc);
            if j + 1 < n {
                let tail = spec_render_separated(vs.skip(j as int + 1), sep_r, c);
                assert(vs.skip(j as int).len() > 1);
                assert(spec_render_separated(vs.skip(j as int), sep_r, c) == spec_prepend(
                    tj + st,
                    tail,
                ));
                lemma_prepend_assoc(acc0 + st, tj + st, tail);
                assert((acc0 + st) + (tj + st) =~= acc + st);
                assert(spec_render_separated(vs, sep_r, c) == spec_prepend(acc + st, tail));
            } else {
                assert(vs.skip(j as int).len() == 1);
                assert(spec_render_separated(vs.skip(j as int), sep_r, c) == Ok::<
                    Seq<char>,
                    RenderError,
                >(tj));
                assert((acc0 + st) + tj =~= acc);
                assert(spec_render_separated(vs, sep_r, c) == Ok::<Seq<char>, RenderError>(acc));
            }
        }
        j = j + 1;
    }
    Ok(())
}

/// Renders a brace-wrapped block body under the active style; a reserved
/// style is refused here, the one place renders fail.
/// The allman-style block layout.
#[verifier::rlimit(100)]
#[verifier::spinoff_prover]
fn render_body_allman(
    items: &Vec<Node>,
    c: CodeGenerationInfo,
    out: &mut Vec<char>,
    m: Ghost<nat>,
) -> (r: Result<(), RenderError>)
    requires
        c.indent_style == IndentationStyle::Allman,
        height_list(nodes_view(items@)) <= m@,
    ensures
        r matches Ok(u) ==> (spec_render_body(nodes_view(items@), c) matches Ok(t)
            && final(out)@ == old(out)@ + t),
        r matches Err(e) ==> spec_render_body(nodes_view(items@), c) == Err::<
            Seq<char>,
            RenderError,
        >(e),
    decreases m@, 2int,
{
    let ghost base = out@;
    let ghost vs = nodes_view(items@);
    proof {
        lemma_nodes_view(items@);
    }
    let c2 = bump_cfg(c);
    proof {
        assert(c2 == spec_body_cfg(c));
    }
    let empty = items.len() == 0;
    let ghost bt = spec_render_group(vs, c2);
    push_indent(out, c);
    push_char(out, '{');
    push_nl(out, c);
    if !empty {
        push_indent(out, c2);
        let rb = render_group_items(items, c2, out, m);
        if let Err(e) = rb {
            return Err(e);
        }
        push_nl(out, c);
    }
    push_indent(out, c);
    push_char(out, '}');
    proof {
        if empty {
            assert(bt == Ok::<Seq<char>, RenderError>(Seq::<char>::empty()));
        }
        assert(out@ =~= base + spec_assemble_body(c, vs.len() == 0, bt.unwrap()));
    }
    Ok(())
}

/// The knr-style block layout.
#[verifier::rlimit(100)]
#[verifier::spinoff_prover]
fn render_body_knr(
    items: &Vec<Node>,
    c: CodeGenerationInfo,
    out: &mut Vec<char>,
    m: Ghost<nat>,
) -> (r: Result<(), RenderError>)
    requires
        c.indent_style == IndentationStyle::KnR,
        height_list(nodes_view(items@)) <= m@,
    ensures
        r matches Ok(u) ==> (spec_render_body(nodes_view(items@), c) matches Ok(t)
            && final(out)@ == old(out)@ + t),
        r matches Err(e) ==> spec_render_body(nodes_view(items@), c) == Err::<
            Seq<char>,
            RenderError,
        >(e),
    decreases m@, 2int,
{
    let ghost base = out@;
    let ghost vs = nodes_view(items@);
    proof {
        lemma_nodes_view(items@);
    }
    let c2 = bump_cfg(c);
    proof {
        assert(c2 == spec_body_cfg(c));
    }
    let empty = items.len() == 0;
    let ghost bt = spec_render_group(vs, c2);
    push_char(out, '{');
    push_nl(out, c);
    if !empty {
        push_indent(out, c2);
        let rb = render_group_items(items, c2, out, m);
        if let Err(e) = rb {
            return Err(e);
        }
        push_nl(out, c);
    }
    push_indent(out, c);
    push_char(out, '}');
    proof {
        if empty {
            assert(bt == Ok::<Seq<char>, RenderError>(Seq::<char>::empty()));
        }
        assert(out@ =~= base + spec_assemble_body(c, vs.len() == 0, bt.unwrap()));
    }
    Ok(())
}

/// The gnu-style block layout.
#[verifier::rlimit(100)]
#[verifier::spinoff_prover]
fn render_body_gnu(
    items: &Vec<Node>,
    c: CodeGenerationInfo,
    out: &mut Vec<char>,
    m: Ghost<nat>,
) -> (r: Result<(), RenderError>)
    requires
        c.indent_style == IndentationStyle::GNU,
        height_list(nodes_view(items@)) <= m@,
    ensures
        r matches Ok(u) ==> (spec_render_body(nodes_view(items@), c) matches Ok(t)
            && final(out)@ == old(out)@ + t),
        r matches Err(e) ==> spec_render_body(nodes_view(items@), c) == Err::<
            Seq<char>,
            RenderError,
        >(e),
    decreases m@, 2int,
{
    let ghost base = out@;
    let ghost vs = nodes_view(items@);
    proof {
        lemma_nodes_view(items@);
    }
    let c2 = bump_cfg(bump_cfg(c));
    proof {
        assert(c2 == spec_body_cfg(c));
    }
    let empty = items.len() == 0;
    let ghost bt = spec_render_group(vs, c2);
    push_char(out, '{');
    push_nl(out, c);
    if !empty {
        push_indent(out, c2);
        let rb = render_group_items(items, c2, out, m);
        if let Err(e) = rb {
            return Err(e);
        }
        push_nl(out, c);
    }
    let close_cfg = if matches!(c.context, GeneratorContext::Function) {
        c
    } else {
        bump_cfg(c)
    };
    proof {
        assert(close_cfg == spec_close_cfg(c));
    }
    push_indent(out, close_cfg);
    push_char(out, '}');
    proof {
        if empty {
            assert(bt == Ok::<Seq<char>, RenderError>(Seq::<char>::empty()));
        }
        assert(out@ =~= base + spec_assemble_body(c, vs.len() == 0, bt.unwrap()));
    }
    Ok(())
}

/// The horstmann-style block layout.
#[verifier::rlimit(100)]
#[verifier::spinoff_prover]
fn render_body_horstmann(
    items: &Vec<Node>,
    c: CodeGenerationInfo,
    out: &mut Vec<char>,
    m: Ghost<nat>,
) -> (r: Result<(), RenderError>)
    requires
        c.indent_style == IndentationStyle::Horstmann,
        height_list(nodes_view(items@)) <= m@,
    ensures
        r matches Ok(u) ==> (spec_render_body(nodes_view(items@), c) matches Ok(t)
            && final(out)@ == old(out)@ + t),
        r matches Err(e) ==> spec_render_body(nodes_view(items@), c) == Err::<
            Seq<char>,
            RenderError,
        >(e),
    decreases m@, 2int,
{
    let ghost base = out@;
    let ghost vs = nodes_view(items@);
    proof {
        lemma_nodes_view(items@);
    }
    let c2 = bump_cfg(c);
    proof {
        assert(c2 == spec_body_cfg(c));
    }
    let empty = items.len() == 0;
    let ghost bt = spec_render_group(vs, c2);
    push_indent(out, c);
    push_char(out, '{');
    if !empty {
        push_align(out, c);
        let rb = render_group_items(items, c2, out, m);
        if let Err(e) = rb {
            return Err(e);
        }
    }
    push_nl(out, c);
    push_indent(out, c);
    push_char(out, '}');
    proof {
        if empty {
            assert(bt == Ok::<Seq<char>, RenderError>(Seq::<char>::empty()));
        }
        assert(out@ =~= base + spec_assemble_body(c, vs.len() == 0, bt.unwrap()));
    }
    Ok(())
}

/// The pico-style block layout.
#[verifier::rlimit(100)]
#[verifier::spinoff_prover]
fn render_body_pico(
    items: &Vec<Node>,
    c: CodeGenerationInfo,
    out: &mut Vec<char>,
    m: Ghost<nat>,
) -> (r: Result<(), RenderError>)
    requires
        c.indent_style == IndentationStyle::Pico,
        height_list(nodes_view(items@)) <= m@,
    ensures
        r matches Ok(u) ==> (spec_render_body(nodes_view(items@), c) matches Ok(t)
            && final(out)@ == old(out)@ + t),
        r matches Err(e) ==> spec_render_body(nodes_view(items@), c) == Err::<
            Seq<char>,
            RenderError,
        >(e),
    decreases m@, 2int,
{
    let ghost base = out@;
    let ghost vs = nodes_view(items@);
    proof {
        lemma_nodes_view(items@);
    }
    let c2 = bump_cfg(c);
    proof {
        assert(c2 == spec_body_cfg(c));
    }
    let empty = items.len() == 0;
    let ghost bt = spec_render_group(vs, c2);
    push_indent(out, c);
    push_char(out, '{');
    if !empty {
        push_align(out, c);
        let rb = render_group_items(items, c2, out, m);
        if let Err(e) = rb {
            return Err(e);
        }
    }
    push_char(out, ' ');
    push_char(out, '}');
    proof {
        if empty {
            assert(bt == Ok::<Seq<char>, RenderError>(Seq::<char>::empty()));
        }
        assert(out@ =~= base + spec_assemble_body(c, vs.len() == 0, bt.unwrap()));
    }
    Ok(())
}

/// The compact-style block layout.
#[verifier::rlimit(100)]
#[verifier::spinoff_prover]
fn render_body_compact(
    items: &Vec<Node>,
    c: CodeGenerationInfo,
    out: &mut Vec<char>,
    m: Ghost<nat>,
) -> (r: Result<(), RenderError>)
    requires
        c.indent_style == IndentationStyle::Compact,
        height_list(nodes_view(items@)) <= m@,
    ensures
        r matches Ok(u) ==> (spec_render_body(nodes_view(items@), c) matches Ok(t)
            && final(out)@ == old(out)@ + t),
        r matches Err(e) ==> spec_render_body(nodes_view(items@), c) == Err::<
            Seq<char>,
            RenderError,
        >(e),
    decreases m@, 2int,
{
    let ghost base = out@;
    let ghost vs = nodes_view(items@);
    proof {
        lemma_nodes_view(items@);
    }
    let c2 = bump_cfg(c);
    proof {
        assert(c2 == spec_body_cfg(c));
    }
    let empty = items.len() == 0;
    let ghost bt = spec_render_group(vs, c2);
    push_char(out, '{');
    let rb = render_group_items(items, c2, out, m);
    if let Err(e) = rb {
        return Err(e);
    }
    push_char(out, '}');
    proof {
        if empty {
            assert(bt == Ok::<Seq<char>, RenderError>(Seq::<char>::empty()));
        }
        assert(out@ =~= base + spec_assemble_body(c, vs.len() == 0, bt.unwrap()));
    }
    Ok(())
}

/// Renders a brace-wrapped block body under the active style; a reserved
/// style is refused here, the one place renders fail.
fn render_body_items(
    items: &Vec<Node>,
    c: CodeGenerationInfo,
    out: &mut Vec<char>,
    m: Ghost<nat>,
) -> (r: Result<(), RenderError>)
    requires
        height_list(nodes_view(items@)) <= m@,
    ensures
        r matches Ok(u) ==> (spec_render_body(nodes_view(items@), c) matches Ok(t)
            && final(out)@ == old(out)@ + t),
        r matches Err(e) ==> spec_render_body(nodes_view(items@), c) == Err::<
            Seq<char>,
            RenderError,
        >(e),
    decreases m@, 3int,
{
    match c.indent_style {
        IndentationStyle::Allman => render_body_allman(items, c, out, m),
        IndentationStyle::KnR => render_body_knr(items, c, out, m),
        IndentationStyle::GNU => render_body_gnu(items, c, out, m),
        IndentationStyle::Horstmann => render_body_horstmann(items, c, out, m),
        IndentationStyle::Pico => render_body_pico(items, c, out, m),
        IndentationStyle::Compact => render_body_compact(items, c, out, m),
        _ => Err(RenderError::UnsupportedStyle),
    }
}

/// Renders a node to a string: the library's render entry point.
pub fn render_text(n: &Node, info: CodeGenerationInfo) -> (r: Result<String, RenderError>)
    ensures
        r matches Ok(s) ==> (spec_render(n@, info) matches Ok(t) && s@ == t),
        r matches Err(e) ==> spec_render(n@, info) == Err::<Seq<char>, RenderError>(e),
{
    let mut out: Vec<char> = Vec::new();
    match render_node(n, info, &mut out) {
        Ok(u) => Ok(chars_to_string(&out)),
        Err(e) => Err(e),
    }
}

// ---------------------------------------------------------------------------
// Decimal text.
// ---------------------------------------------------------------------------

/// The decimal digit character of a value below ten.
pub open spec fn spec_digit_char(d: int) -> char {
    (48 + d) as char
}

/// The decimal text of a non-negative integer.
pub open spec fn spec_udec_text(n: nat) -> Seq<char>
    decreases n,
{
    if n < 10 {
        seq![spec_digit_char(n as int)]
    } else {
        spec_udec_text(n / 10) + seq![spec_digit_char((n % 10) as int)]
    }
}

/// The decimal text of an integer, with a leading minus sign if negative.
pub open spec fn spec_int_text(v: int) -> Seq<char> {
    if v < 0 {
        seq!['-'] + spec_udec_text((-v) as nat)
    } else {
        spec_udec_text(v as nat)
    }
}

fn digit_char(d: u128) -> (r: char)
    requires
        d < 10,
    ensures
        r == spec_digit_char(d as int),
{
    (48 + d as u8) as char
}

fn push_udec(out: &mut Vec<char>, n: u128)
    ensures
        final(out)@ == old(out)@ + spec_udec_text(n as nat),
    decreases n,
{
    if n < 10 {
        push_char(out, digit_char(n));
    } else {
        push_udec(out, n / 10);
        push_char(out, digit_char(n % 10));
        proof {
            assert(out@ =~= old(out)@ + spec_udec_text(n as nat));
        }
    }
}

/// The decimal text of an integer, as characters.
pub fn int_to_chars(v: i128) -> (r: Vec<char>)
    ensures
        r@ == spec_int_text(v as int),
{
    let mut out: Vec<char> = Vec::new();
    if v < 0 {
        push_char(&mut out, '-');
        let mag: u128 = if v == i128::MIN {
            proof {
                assert((170141183460469231731687303715884105728u128) as int == -(i128::MIN as int));
            }
            170141183460469231731687303715884105728u128
        } else {
            (-v) as u128
        };
        proof {
            assert(mag as int == -(v as int));
        }
        push_udec(&mut out, mag);
        proof {
            assert(out@ =~= spec_int_text(v as int));
        }
    } else {
        push_udec(&mut out, v as u128);
    }
    out
}

/// Renders a statement list as a braced block body, to a string.
pub fn render_body_text(items: &Vec<Node>, info: CodeGenerationInfo) -> (r: Result<
    String,
    RenderError,
>)
    ensures
        r matches Ok(s) ==> (spec_render_body(nodes_view(items@), info) matches Ok(t) && s@ == t),
        r matches Err(e) ==> spec_render_body(nodes_view(items@), info) == Err::<
            Seq<char>,
            RenderError,
        >(e),
{
    let mut out: Vec<char> = Vec::new();
    match render_body_items(items, info, &mut out, Ghost(height_list(nodes_view(items@)))) {
        Ok(u) => Ok(chars_to_string(&out)),
        Err(e) => Err(e),
    }
}

/// A raw-text leaf node.
pub fn raw_node(code: &str) -> (n: Node)
    ensures
        n@ == NodeV::Raw(code@),
{
    Node::Raw(str_to_chars(code))
}

// ---------------------------------------------------------------------------
// Laws of the renderer.
// ---------------------------------------------------------------------------

/// Rendering is deterministic: two renders of the same tree under the same
/// configuration yield the same result. The render functions return exactly
/// `spec_render`, so any two results of rendering `n` under `c` coincide.
pub proof fn lemma_render_deterministic(
    n: NodeV,
    c: CodeGenerationInfo,
    r1: Result<Seq<char>, RenderError>,
    r2: Result<Seq<char>, RenderError>,
)
    requires
        r1 == spec_render(n, c),
        r2 == spec_render(n, c),
    ensures
        r1 == r2,
{
}

/// The depth invariant of the block layout: entering a block raises the
/// body's nesting depth by exactly one before style-specific extra offsets
/// (GNU adds one more), changes nothing else in the configuration, and the
/// closing brace is emitted back at the header's own depth (GNU: one level
/// in, unless the context is a function body). Siblings after the block
/// continue under the unchanged configuration, since every node list is
/// rendered with one shared configuration value.
pub proof fn lemma_block_depth(c: CodeGenerationInfo)
    requires
        spec_style_supported(c.indent_style),
        c.indent_level + 2 <= usize::MAX,
    ensures
        c.indent_style != IndentationStyle::GNU ==> spec_body_cfg(c).indent_level
            == c.indent_level + 1,
        c.indent_style == IndentationStyle::GNU ==> spec_body_cfg(c).indent_level
            == c.indent_level + 2,
        spec_body_cfg(c) == (CodeGenerationInfo {
            indent_level: spec_body_cfg(c).indent_level,
            ..c
        }),
        spec_close_cfg(c).indent_level == (if c.indent_style == IndentationStyle::GNU
            && c.context != GeneratorContext::Function {
            c.indent_level + 1
        } else {
            c.indent_level as int
        }),
        spec_close_cfg(c) == (CodeGenerationInfo {
            indent_level: spec_close_cfg(c).indent_level,
            ..c
        }),
{
}

/// Each per-fragment casing transform keeps the fragment's length.
pub proof fn lemma_frag_cased_len(w: Seq<char>, case_type: CaseType, is_first: bool)
    ensures
        spec_frag_cased(w, case_type, is_first).len() == w.len(),
{
}

/// The non-empty identifier guarantee: for every input, including the empty
/// string and strings made only of separators, the canonical fragments
/// render as non-empty text under every casing rule.
pub proof fn lemma_identifier_nonempty(s: Seq<char>, case_type: CaseType)
    ensures
        spec_casify(spec_canonical_fragments(s), case_type).len() > 0,
{
    lemma_canonical_fragments_wf(s);
    let parts = spec_canonical_fragments(s);
    lemma_frag_cased_len(parts[0], case_type, true);
    assert(spec_casify(parts, case_type).len() >= spec_frag_cased(
        parts[0],
        case_type,
        true,
    ).len());
}

// ---------------------------------------------------------------------------
// Style independence.
// ---------------------------------------------------------------------------

/// Layout characters: whitespace and braces. Two brace styles may only
/// disagree about these.
pub open spec fn spec_is_layout_char(ch: char) -> bool {
    ch == ' ' || ch == '\t' || ch == '\r' || ch == '\n' || ch == '{' || ch == '}'
}

/// The token characters of rendered text: everything but layout.
pub open spec fn spec_tokens(s: Seq<char>) -> Seq<char> {
    s.filter(|ch: char| !spec_is_layout_char(ch))
}

proof fn lemma_tokens_empty()
    ensures
        spec_tokens(Seq::<char>::empty()) == Seq::<char>::empty(),
{
    reveal(Seq::filter);
}

proof fn lemma_tokens_add(a: Seq<char>, b: Seq<char>)
    ensures
        spec_tokens(a + b) == spec_tokens(a) + spec_tokens(b),
{
    broadcast use vstd::seq_lib::group_filter_ensures;

    Seq::filter_distributes_over_add(a, b, |ch: char| !spec_is_layout_char(ch));
}

proof fn lemma_tokens_all_layout(s: Seq<char>)
    requires
        forall|i: int| 0 <= i < s.len() ==> spec_is_layout_char(#[trigger] s[i]),
    ensures
        spec_tokens(s) == Seq::<char>::empty(),
    decreases s.len(),
{
    reveal(Seq::filter);
    if s.len() > 0 {
        lemma_tokens_all_layout(s.drop_last());
    }
}

proof fn lemma_tokens_single(c: char)
    ensures
        !spec_is_layout_char(c) ==> spec_tokens(seq![c]) == seq![c],
        spec_is_layout_char(c) ==> spec_tokens(seq![c]) == Seq::<char>::empty(),
{
    reveal_with_fuel(Seq::filter, 2);
    assert(seq![c].drop_last() =~= Seq::<char>::empty());
    assert(seq![c].last() == c);
    if !spec_is_layout_char(c) {
        assert(Seq::<char>::empty().push(c) =~= seq![c]);
        assert(spec_tokens(seq![c]) =~= seq![c]);
    }
}

proof fn lemma_tokens_nl(t: NewLineType)
    ensures
        spec_tokens(spec_nl_text(t)) == Seq::<char>::empty(),
{
    lemma_tokens_all_layout(spec_nl_text(t));
}

proof fn lemma_tokens_indent(c: CodeGenerationInfo)
    ensures
        spec_tokens(spec_indent_text(c)) == Seq::<char>::empty(),
{
    lemma_tokens_all_layout(spec_indent_text(c));
}

proof fn lemma_tokens_align(c: CodeGenerationInfo)
    ensures
        spec_tokens(spec_align_text(c)) == Seq::<char>::empty(),
{
    lemma_tokens_all_layout(spec_align_text(c));
}

/// Raw text renders with the same tokens it holds: the renderer only
/// replaces and inserts layout.
proof fn lemma_tokens_raw(s: Seq<char>, c: CodeGenerationInfo)
    ensures
        spec_tokens(spec_raw_text(s, c)) == spec_tokens(s),
    decreases s.len(),
{
    if s.len() == 0 {
    } else if s[0] == '\r' && s.len() >= 2 && s[1] == '\n' {
        if s.len() == 2 {
            lemma_tokens_all_layout(s);
            lemma_tokens_empty();
        } else {
            lemma_tokens_raw(s.skip(2), c);
            lemma_tokens_nl(c.new_line_type);
            lemma_tokens_indent(c);
            lemma_tokens_add(spec_nl_text(c.new_line_type), spec_indent_text(c));
            lemma_tokens_add(
                spec_nl_text(c.new_line_type) + spec_indent_text(c),
                spec_raw_text(s.skip(2), c),
            );
            assert(s =~= s.take(2) + s.skip(2));
            lemma_tokens_add(s.take(2), s.skip(2));
            lemma_tokens_all_layout(s.take(2));
        }
    } else if s[0] == '\n' {
        if s.len() == 1 {
            lemma_tokens_all_layout(s);
            lemma_tokens_empty();
        } else {
            lemma_tokens_raw(s.skip(1), c);
            lemma_tokens_nl(c.new_line_type);
            lemma_tokens_indent(c);
            lemma_tokens_add(spec_nl_text(c.new_line_type), spec_indent_text(c));
            lemma_tokens_add(
                spec_nl_text(c.new_line_type) + spec_indent_text(c),
                spec_raw_text(s.skip(1), c),
            );
            assert(s =~= s.take(1) + s.skip(1));
            lemma_tokens_add(s.take(1), s.skip(1));
            lemma_tokens_all_layout(s.take(1));
        }
    } else {
        lemma_tokens_raw(s.skip(1), c);
        lemma_tokens_add(seq![s[0]], spec_raw_text(s.skip(1), c));
        assert(s =~= seq![s[0]] + s.skip(1));
        lemma_tokens_add(seq![s[0]], s.skip(1));
    }
}

/// The glue between a header and its body holds no tokens.
proof fn lemma_tokens_glue(c: CodeGenerationInfo)
    ensures
        spec_tokens(spec_glue_text(c)) == Seq::<char>::empty(),
{
    lemma_tokens_all_layout(spec_glue_text(c));
}

/// Wrapping a body in braces and indentation adds no tokens.
proof fn lemma_tokens_assemble(c: CodeGenerationInfo, empty: bool, bt: Seq<char>)
    requires
        spec_style_supported(c.indent_style),
    ensures
        !empty ==> spec_tokens(spec_assemble_body(c, empty, bt)) == spec_tokens(bt),
        empty ==> spec_tokens(spec_assemble_body(c, empty, bt)) == (if c.indent_style
            == IndentationStyle::Compact {
            spec_tokens(bt)
        } else {
            Seq::<char>::empty()
        }),
{
    let nl = spec_nl_text(c.new_line_type);
    let ind = spec_indent_text(c);
    lemma_tokens_nl(c.new_line_type);
    lemma_tokens_indent(c);
    lemma_tokens_align(c);
    lemma_tokens_indent(spec_body_cfg(c));
    lemma_tokens_indent(spec_close_cfg(c));
    lemma_tokens_single('{');
    lemma_tokens_single('}');
    lemma_tokens_single(' ');
    lemma_tokens_empty();
    let mid = if !empty {
        spec_indent_text(spec_body_cfg(c)) + bt + nl
    } else {
        Seq::<char>::empty()
    };
    let hmid = if !empty {
        spec_align_text(c) + bt
    } else {
        Seq::<char>::empty()
    };
    if !empty {
        lemma_tokens_add(spec_indent_text(spec_body_cfg(c)), bt);
        lemma_tokens_add(spec_indent_text(spec_body_cfg(c)) + bt, nl);
        lemma_tokens_add(spec_align_text(c), bt);
        assert(spec_tokens(mid) == spec_tokens(bt));
        assert(spec_tokens(hmid) == spec_tokens(bt));
    } else {
        assert(spec_tokens(mid) == Seq::<char>::empty());
        assert(spec_tokens(hmid) == Seq::<char>::empty());
    }
    match c.indent_style {
        IndentationStyle::Allman => {
            lemma_tokens_add(ind, seq!['{']);
            lemma_tokens_add(ind + seq!['{'], nl);
            lemma_tokens_add(ind + seq!['{'] + nl, mid);
            lemma_tokens_add(ind + seq!['{'] + nl + mid, ind);
            lemma_tokens_add(ind + seq!['{'] + nl + mid + ind, seq!['}']);
            assert(spec_tokens(spec_assemble_body(c, empty, bt)) == spec_tokens(mid));
        },
        IndentationStyle::KnR => {
            lemma_tokens_add(seq!['{'], nl);
            lemma_tokens_add(seq!['{'] + nl, mid);
            lemma_tokens_add(seq!['{'] + nl + mid, ind);
            lemma_tokens_add(seq!['{'] + nl + mid + ind, seq!['}']);
            assert(spec_tokens(spec_assemble_body(c, empty, bt)) == spec_tokens(mid));
        },
        IndentationStyle::GNU => {
            lemma_tokens_add(seq!['{'], nl);
            lemma_tokens_add(seq!['{'] + nl, mid);
            lemma_tokens_add(seq!['{'] + nl + mid, spec_indent_text(spec_close_cfg(c)));
            lemma_tokens_add(
                seq!['{'] + nl + mid + spec_indent_text(spec_close_cfg(c)),
                seq!['}'],
            );
            assert(spec_tokens(spec_assemble_body(c, empty, bt)) == spec_tokens(mid));
        },
        IndentationStyle::Horstmann => {
            lemma_tokens_add(ind, seq!['{']);
            lemma_tokens_add(ind + seq!['{'], hmid);
            lemma_tokens_add(ind + seq!['{'] + hmid, nl);
            lemma_tokens_add(ind + seq!['{'] + hmid + nl, ind);
            lemma_tokens_add(ind + seq!['{'] + hmid + nl + ind, seq!['}']);
            assert(spec_tokens(spec_assemble_body(c, empty, bt)) == spec_tokens(hmid));
        },
        IndentationStyle::Pico => {
            lemma_tokens_all_layout(seq![' ', '}']);
            lemma_tokens_add(ind, seq!['{']);
            lemma_tokens_add(ind + seq!['{'], hmid);
            lemma_tokens_add(ind + seq!['{'] + hmid, seq![' ', '}']);
            assert(spec_tokens(spec_assemble_body(c, empty, bt)) == spec_tokens(hmid));
        },
        IndentationStyle::Compact => {
            lemma_tokens_add(seq!['{'], bt);
            lemma_tokens_add(seq!['{'] + bt, seq!['}']);
            assert(spec_tokens(spec_assemble_body(c, empty, bt)) == spec_tokens(bt));
        },
        _ => {
        },
    }
}

/// Two configurations whose rendered token streams must agree: both brace
/// styles implemented, same casing rules. Everything else is layout.
pub open spec fn spec_style_compatible(c1: CodeGenerationInfo, c2: CodeGenerationInfo) -> bool {
    &&& spec_style_supported(c1.indent_style)
    &&& spec_style_supported(c2.indent_style)
    &&& c1.case_types == c2.case_types
}

proof fn lemma_style_independence_group_rest(
    items: Seq<NodeV>,
    c1: CodeGenerationInfo,
    c2: CodeGenerationInfo,
)
    requires
        spec_style_compatible(c1, c2),
    ensures
        spec_render_group_rest(items, c1) is Ok,
        spec_render_group_rest(items, c2) is Ok,
        spec_tokens(spec_render_group_rest(items, c1).unwrap()) == spec_tokens(
            spec_render_group_rest(items, c2).unwrap(),
        ),
    decreases items, 1int,
{
    if items.len() == 0 {
        lemma_tokens_empty();
    } else {
        lemma_style_independence(items[0], c1, c2);
        lemma_style_independence_group_rest(items.drop_first(), c1, c2);
        let t1 = spec_render(items[0], c1).unwrap();
        let t2 = spec_render(items[0], c2).unwrap();
        let r1 = spec_render_group_rest(items.drop_first(), c1).unwrap();
        let r2 = spec_render_group_rest(items.drop_first(), c2).unwrap();
        lemma_tokens_nl(c1.new_line_type);
        lemma_tokens_nl(c2.new_line_type);
        lemma_tokens_indent(c1);
        lemma_tokens_indent(c2);
        lemma_tokens_add(spec_nl_text(c1.new_line_type), spec_indent_text(c1));
        lemma_tokens_add(spec_nl_text(c1.new_line_type) + spec_indent_text(c1), t1);
        lemma_tokens_add(spec_nl_text(c1.new_line_type) + spec_indent_text(c1) + t1, r1);
        lemma_tokens_add(spec_nl_text(c2.new_line_type), spec_indent_text(c2));
        lemma_tokens_add(spec_nl_text(c2.new_line_type) + spec_indent_text(c2), t2);
        lemma_tokens_add(spec_nl_text(c2.new_line_type) + spec_indent_text(c2) + t2, r2);
    }
}

proof fn lemma_style_independence_group(
    items: Seq<NodeV>,
    c1: CodeGenerationInfo,
    c2: CodeGenerationInfo,
)
    requires
        spec_style_compatible(c1, c2),
    ensures
        spec_render_group(items, c1) is Ok,
        spec_render_group(items, c2) is Ok,
        spec_tokens(spec_render_group(items, c1).unwrap()) == spec_tokens(
            spec_render_group(items, c2).unwrap(),
        ),
    decreases items, 1int,
{
    if items.len() == 0 {
        lemma_tokens_empty();
    } else {
        lemma_style_independence(items[0], c1, c2);
        lemma_style_independence_group_rest(items.drop_first(), c1, c2);
        lemma_tokens_add(
            spec_render(items[0], c1).unwrap(),
            spec_render_group_rest(items.drop_first(), c1).unwrap(),
        );
        lemma_tokens_add(
            spec_render(items[0], c2).unwrap(),
            spec_render_group_rest(items.drop_first(), c2).unwrap(),
        );
    }
}

proof fn lemma_style_independence_joined(
    items: Seq<NodeV>,
    c1: CodeGenerationInfo,
    c2: CodeGenerationInfo,
)
    requires
        spec_style_compatible(c1, c2),
    ensures
        spec_render_joined(items, c1) is Ok,
        spec_render_joined(items, c2) is Ok,
        spec_tokens(spec_render_joined(items, c1).unwrap()) == spec_tokens(
            spec_render_joined(items, c2).unwrap(),
        ),
    decreases items, 1int,
{
    if items.len() == 0 {
        lemma_tokens_empty();
    } else {
        lemma_style_independence(items[0], c1, c2);
        lemma_style_independence_joined(items.drop_first(), c1, c2);
        lemma_tokens_add(
            spec_render(items[0], c1).unwrap(),
            spec_render_joined(items.drop_first(), c1).unwrap(),
        );
        lemma_tokens_add(
            spec_render(items[0], c2).unwrap(),
            spec_render_joined(items.drop_first(), c2).unwrap(),
        );
    }
}

proof fn lemma_style_independence_sep(
    items: Seq<NodeV>,
    s1: Result<Seq<char>, RenderError>,
    s2: Result<Seq<char>, RenderError>,
    c1: CodeGenerationInfo,
    c2: CodeGenerationInfo,
)
    requires
        spec_style_compatible(c1, c2),
        s1 is Ok,
        s2 is Ok,
        spec_tokens(s1.unwrap()) == spec_tokens(s2.unwrap()),
    ensures
        spec_render_separated(items, s1, c1) is Ok,
        spec_render_separated(items, s2, c2) is Ok,
        spec_tokens(spec_render_separated(items, s1, c1).unwrap()) == spec_tokens(
            spec_render_separated(items, s2, c2).unwrap(),
        ),
    decreases items, 1int,
{
    if items.len() == 0 {
        lemma_tokens_empty();
    } else {
        lemma_style_independence(items[0], c1, c2);
        if items.len() > 1 {
            lemma_style_independence_sep(items.drop_first(), s1, s2, c1, c2);
            let t1 = spec_render(items[0], c1).unwrap();
            let t2 = spec_render(items[0], c2).unwrap();
            let r1 = spec_render_separated(items.drop_first(), s1, c1).unwrap();
            let r2 = spec_render_separated(items.drop_first(), s2, c2).unwrap();
            lemma_tokens_add(t1, s1.unwrap());
            lemma_tokens_add(t1 + s1.unwrap(), r1);
            lemma_tokens_add(t2, s2.unwrap());
            lemma_tokens_add(t2 + s2.unwrap(), r2);
        }
    }
}

/// A rendered block body holds exactly the tokens of its statements.
#[verifier::rlimit(100)]
#[verifier::spinoff_prover]
proof fn lemma_body_tokens(items: Seq<NodeV>, c: CodeGenerationInfo)
    requires
        spec_style_supported(c.indent_style),
        spec_render_group(items, spec_body_cfg(c)) is Ok,
    ensures
        spec_render_body(items, c) is Ok,
        spec_tokens(spec_render_body(items, c).unwrap()) == spec_tokens(
            spec_render_group(items, spec_body_cfg(c)).unwrap(),
        ),
{
    let e = items.len() == 0;
    let bt = spec_render_group(items, spec_body_cfg(c)).unwrap();
    assert(spec_render_body(items, c) == Ok::<Seq<char>, RenderError>(
        spec_assemble_body(c, e, bt),
    ));
    lemma_tokens_assemble(c, e, bt);
    if e {
        assert(bt == Seq::<char>::empty());
        lemma_tokens_empty();
    }
}

proof fn lemma_style_independence_body(
    items: Seq<NodeV>,
    c1: CodeGenerationInfo,
    c2: CodeGenerationInfo,
)
    requires
        spec_style_compatible(c1, c2),
    ensures
        spec_render_body(items, c1) is Ok,
        spec_render_body(items, c2) is Ok,
        spec_tokens(spec_render_body(items, c1).unwrap()) == spec_tokens(
            spec_render_body(items, c2).unwrap(),
        ),
    decreases items, 2int,
{
    let b1 = spec_body_cfg(c1);
    let b2 = spec_body_cfg(c2);
    assert(spec_style_compatible(b1, b2));
    lemma_style_independence_group(items, b1, b2);
    lemma_body_tokens(items, c1);
    lemma_body_tokens(items, c2);
}

/// Style independence: the same tree rendered under two implemented brace
/// styles with the same casing rules always renders, and the two texts agree
/// on every character outside whitespace and braces — styles move layout,
/// never tokens. In particular, rendering under one implemented style never
/// fails.
pub proof fn lemma_style_independence(n: NodeV, c1: CodeGenerationInfo, c2: CodeGenerationInfo)
    requires
        spec_style_compatible(c1, c2),
    ensures
        spec_render(n, c1) is Ok,
        spec_render(n, c2) is Ok,
        spec_tokens(spec_render(n, c1).unwrap()) == spec_tokens(spec_render(n, c2).unwrap()),
    decreases n, 3int,
{
    match n {
        NodeV::Raw(s) => {
            lemma_tokens_raw(s, c1);
            lemma_tokens_raw(s, c2);
        },
        NodeV::Ident(parts, name_type) => {
            assert(spec_case_for(name_type, c1.case_types) == spec_case_for(
                name_type,
                c2.case_types,
            ));
        },
        NodeV::Line => {
            lemma_tokens_nl(c1.new_line_type);
            lemma_tokens_nl(c2.new_line_type);
        },
        NodeV::Indent => {
            lemma_tokens_indent(c1);
            lemma_tokens_indent(c2);
        },
        NodeV::Group(items) => {
            lemma_style_independence_group(items, c1, c2);
        },
        NodeV::Joined(items) => {
            lemma_style_independence_joined(items, c1, c2);
        },
        NodeV::Separated(items, separator) => {
            lemma_style_independence(*separator, c1, c2);
            lemma_style_independence_sep(
                items,
                spec_render(*separator, c1),
                spec_render(*separator, c2),
                c1,
                c2,
            );
        },
        NodeV::Body(items) => {
            lemma_style_independence_body(items, c1, c2);
        },
        NodeV::Block(header, items) => {
            lemma_style_independence(*header, c1, c2);
            lemma_style_independence_body(items, c1, c2);
            let h1 = spec_render(*header, c1).unwrap();
            let h2 = spec_render(*header, c2).unwrap();
            let b1 = spec_render_body(items, c1).unwrap();
            let b2 = spec_render_body(items, c2).unwrap();
            lemma_tokens_glue(c1);
            lemma_tokens_glue(c2);
            lemma_tokens_add(h1, spec_glue_text(c1));
            lemma_tokens_add(h1 + spec_glue_text(c1), b1);
            lemma_tokens_add(h2, spec_glue_text(c2));
            lemma_tokens_add(h2 + spec_glue_text(c2), b2);
        },
        NodeV::Scoped(context, inner) => {
            lemma_style_independence(
                *inner,
                c1.spec_with_context(context),
                c2.spec_with_context(context),
            );
        },
    }
}

/// Under an implemented brace style a render never fails.
pub proof fn lemma_supported_style_renders(n: NodeV, c: CodeGenerationInfo)
    requires
        spec_style_supported(c.indent_style),
    ensures
        spec_render(n, c) is Ok,
{
    lemma_style_independence(n, c, c);
}

} // verus!
