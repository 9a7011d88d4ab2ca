//! Style configuration: indentation, brace placement, newline convention and
//! identifier casing, together with the named presets; and the render
//! capability every node type implements.

use vstd::prelude::*;
use crate::render::NodeV;
use crate::render::RenderError;
use crate::render::spec_render;

verus! {

/// Brace-placement styles. Only `Allman`, `GNU`, `Horstmann`, `KnR`, `Pico`
/// and `Compact` are implemented; requesting one of the reserved styles makes
/// a render call fail with `RenderError::UnsupportedStyle` rather than
/// silently emitting some other layout.
#[derive(Clone, Copy, Debug, PartialEq, Eq, Structural)]
pub enum IndentationStyle {
    Allman,
    GNU,
    Whitesmiths,
    KnR,
    Ratliff,
    Horstmann,
    Pico,
    Lisp,
    Compact,
}

/// Casing rules for rendered identifiers.
#[derive(Clone, Copy, Debug, PartialEq, Eq, Structural)]
pub enum CaseType {
    FlatCase,
    ScreamingCase,
    CamelCase,
    PascalCase,
    SnakeCase,
    ScreamingSnakeCase,
}

/// The character used to build indentation text.
#[derive(Clone, Copy, Debug, PartialEq, Eq, Structural)]
pub enum IndentationType {
    Spaces,
    Tabs,
}

/// The literal line terminator emitted wherever a new line is requested.
#[derive(Clone, Copy, Debug, PartialEq, Eq, Structural)]
pub enum NewLineType {
    Cr,
    Nl,
    CrNl,
    Empty,
}

/// Named configuration presets, one per brace style plus a compact style and
/// a default.
#[derive(Clone, Copy, Debug, PartialEq, Eq, Structural)]
pub enum CodeStyle {
    Allman,
    GNU,
    Whitesmiths,
    KnR,
    Ratliff,
    Horstmann,
    Pico,
    Lisp,
    Minimal,
    Default,
}

/// The kind of construct currently being rendered; some styles use it for
/// context-sensitive exceptions (GNU treats function bodies specially).
#[derive(Clone, Copy, Debug, PartialEq, Eq, Structural)]
pub enum GeneratorContext {
    If,
    While,
    ForLoop,
    Function,
    File,
    Struct,
    Enum,
    Other,
}

/// The casing rule applied to each identifier role.
#[derive(Clone, Copy, Debug, PartialEq, Eq, Structural)]
pub struct CaseTypes {
    pub const_define_case: CaseType,
    pub function_name_case: CaseType,
    pub member_name_case: CaseType,
    pub type_name_case: CaseType,
    pub file_name_case: CaseType,
    pub default_case: CaseType,
}

impl CaseTypes {
    /// The default role-to-rule assignment.
    pub fn new() -> (r: CaseTypes)
        ensures
            r == CaseTypes::spec_default(),
    {
        CaseTypes {
            const_define_case: CaseType::ScreamingSnakeCase,
            function_name_case: CaseType::SnakeCase,
            member_name_case: CaseType::SnakeCase,
            type_name_case: CaseType::PascalCase,
            file_name_case: CaseType::PascalCase,
            default_case: CaseType::SnakeCase,
        }
    }

    pub open spec fn spec_default() -> CaseTypes {
        CaseTypes {
            const_define_case: CaseType::ScreamingSnakeCase,
            function_name_case: CaseType::SnakeCase,
            member_name_case: CaseType::SnakeCase,
            type_name_case: CaseType::PascalCase,
            file_name_case: CaseType::PascalCase,
            default_case: CaseType::SnakeCase,
        }
    }

    pub fn with_const_define(self, case_type: CaseType) -> (r: Self)
        ensures
            r == (CaseTypes { const_define_case: case_type, ..self }),
    {
        CaseTypes { const_define_case: case_type, ..self }
    }

    pub fn with_function_name(self, case_type: CaseType) -> (r: Self)
        ensures
            r == (CaseTypes { function_name_case: case_type, ..self }),
    {
        CaseTypes { function_name_case: case_type, ..self }
    }

    pub fn with_member_name(self, case_type: CaseType) -> (r: Self)
        ensures
            r == (CaseTypes { member_name_case: case_type, ..self }),
    {
        CaseTypes { member_name_case: case_type, ..self }
    }

    pub fn with_type_name(self, case_type: CaseType) -> (r: Self)
        ensures
            r == (CaseTypes { type_name_case: case_type, ..self }),
    {
        CaseTypes { type_name_case: case_type, ..self }
    }

    pub fn with_file_name(self, case_type: CaseType) -> (r: Self)
        ensures
            r == (CaseTypes { file_name_case: case_type, ..self }),
    {
        CaseTypes { file_name_case: case_type, ..self }
    }

    pub fn with_default(self, case_type: CaseType) -> (r: Self)
        ensures
            r == (CaseTypes { default_case: case_type, ..self }),
    {
        CaseTypes { default_case: case_type, ..self }
    }
}

/// The formatting context propagated through a render call. It is a value
/// type: a node that needs an adjusted configuration for its children derives
/// a copy, so a configuration is never mutated under a sibling.
#[derive(Clone, Copy, Debug, PartialEq, Eq, Structural)]
pub struct CodeGenerationInfo {
    pub indent_level: usize,
    pub indent_type: IndentationType,
    pub indent_amount: usize,
    pub indent_style: IndentationStyle,
    pub new_line_type: NewLineType,
    pub context: GeneratorContext,
    pub case_types: CaseTypes,
}

impl CodeGenerationInfo {
    /// Allman braces, four-space indentation, CRLF newlines, default casing.
    pub fn new() -> (r: CodeGenerationInfo)
        ensures
            r == CodeGenerationInfo::spec_from_style(CodeStyle::Allman),
    {
        CodeGenerationInfo {
            indent_level: 0,
            indent_amount: 4,
            indent_type: IndentationType::Spaces,
            indent_style: IndentationStyle::Allman,
            new_line_type: NewLineType::CrNl,
            context: GeneratorContext::File,
            case_types: CaseTypes::new(),
        }
    }

    pub fn with_ident_style(self, style: IndentationStyle) -> (r: Self)
        ensures
            r == (CodeGenerationInfo { indent_style: style, ..self }),
    {
        CodeGenerationInfo { indent_style: style, ..self }
    }

    pub fn with_ident_amount(self, amount: usize) -> (r: Self)
        ensures
            r == (CodeGenerationInfo { indent_amount: amount, ..self }),
    {
        CodeGenerationInfo { indent_amount: amount, ..self }
    }

    pub fn with_indent_type(self, indent_type: IndentationType) -> (r: Self)
        ensures
            r == (CodeGenerationInfo { indent_type: indent_type, ..self }),
    {
        CodeGenerationInfo { indent_type: indent_type, ..self }
    }

    pub fn with_new_line_type(self, new_line_type: NewLineType) -> (r: Self)
        ensures
            r == (CodeGenerationInfo { new_line_type: new_line_type, ..self }),
    {
        CodeGenerationInfo { new_line_type: new_line_type, ..self }
    }

    pub fn with_case_types(self, case_types: CaseTypes) -> (r: Self)
        ensures
            r == (CodeGenerationInfo { case_types: case_types, ..self }),
    {
        CodeGenerationInfo { case_types: case_types, ..self }
    }

    /// The preset configuration for a named style.
    pub open spec fn spec_from_style(code_style: CodeStyle) -> CodeGenerationInfo {
        CodeGenerationInfo {
            indent_level: 0,
            indent_amount: match code_style {
                CodeStyle::GNU => 2,
                CodeStyle::Minimal => 0,
                _ => 4,
            },
            indent_type: match code_style {
                CodeStyle::Default => IndentationType::Tabs,
                _ => IndentationType::Spaces,
            },
            indent_style: match code_style {
                CodeStyle::Allman => IndentationStyle::Allman,
                CodeStyle::GNU => IndentationStyle::GNU,
                CodeStyle::Whitesmiths => IndentationStyle::Whitesmiths,
                CodeStyle::KnR => IndentationStyle::KnR,
                CodeStyle::Ratliff => IndentationStyle::Ratliff,
                CodeStyle::Horstmann => IndentationStyle::Horstmann,
                CodeStyle::Pico => IndentationStyle::Pico,
                CodeStyle::Lisp => IndentationStyle::Lisp,
                CodeStyle::Minimal => IndentationStyle::Compact,
                CodeStyle::Default => IndentationStyle::KnR,
            },
            new_line_type: match code_style {
                CodeStyle::Minimal => NewLineType::Empty,
                _ => NewLineType::CrNl,
            },
            context: GeneratorContext::File,
            case_types: CaseTypes::spec_default(),
        }
    }

    pub fn from_style(code_style: CodeStyle) -> (r: CodeGenerationInfo)
        ensures
            r == CodeGenerationInfo::spec_from_style(code_style),
    {
        let indent_amount: usize = match code_style {
            CodeStyle::GNU => 2,
            CodeStyle::Minimal => 0,
            _ => 4,
        };
        let indent_type = match code_style {
            CodeStyle::Default => IndentationType::Tabs,
            _ => IndentationType::Spaces,
        };
        let indent_style = match code_style {
            CodeStyle::Allman => IndentationStyle::Allman,
            CodeStyle::GNU => IndentationStyle::GNU,
            CodeStyle::Whitesmiths => IndentationStyle::Whitesmiths,
            CodeStyle::KnR => IndentationStyle::KnR,
            CodeStyle::Ratliff => IndentationStyle::Ratliff,
            CodeStyle::Horstmann => IndentationStyle::Horstmann,
            CodeStyle::Pico => IndentationStyle::Pico,
            CodeStyle::Lisp => IndentationStyle::Lisp,
            CodeStyle::Minimal => IndentationStyle::Compact,
            CodeStyle::Default => IndentationStyle::KnR,
        };
        let new_line_type = match code_style {
            CodeStyle::Minimal => NewLineType::Empty,
            _ => NewLineType::CrNl,
        };
        CodeGenerationInfo {
            indent_level: 0,
            indent_amount: indent_amount,
            indent_type: indent_type,
            indent_style: indent_style,
            new_line_type: new_line_type,
            context: GeneratorContext::File,
            case_types: CaseTypes::new(),
        }
    }

    /// The configuration one nesting level deeper. The level saturates at
    /// the machine limit rather than wrapping around; `indent` itself rules
    /// that case out and always adds exactly one.
    pub open spec fn spec_indent(self) -> CodeGenerationInfo {
        CodeGenerationInfo {
            indent_level: if self.indent_level < usize::MAX {
                (self.indent_level + 1) as usize
            } else {
                usize::MAX
            },
            ..self
        }
    }

    /// Derives the configuration used one block deeper: the nesting level
    /// grows by exactly one and nothing else changes.
    pub fn indent(&self) -> (r: CodeGenerationInfo)
        requires
            self.indent_level < usize::MAX,
        ensures
            r == self.spec_indent(),
    {
        CodeGenerationInfo { indent_level: self.indent_level + 1, ..*self }
    }

    pub open spec fn spec_with_context(self, context: GeneratorContext) -> CodeGenerationInfo {
        CodeGenerationInfo { context: context, ..self }
    }

    /// Derives a configuration with the given syntactic context.
    pub fn with_context(&self, context: GeneratorContext) -> (r: CodeGenerationInfo)
        ensures
            r == self.spec_with_context(context),
    {
        CodeGenerationInfo { context: context, ..*self }
    }

    pub fn set_new_line_type(&mut self, new_line_type: NewLineType)
        ensures
            *final(self) == (CodeGenerationInfo { new_line_type: new_line_type, ..*old(self) }),
    {
        self.new_line_type = new_line_type;
    }
}

/// The capability every renderable value implements: a view as a node of the
/// render model, and a render method whose text is exactly what the model
/// says.
pub trait CodeGenerate {
    /// The node this value stands for in the render model.
    spec fn as_node(&self) -> NodeV;

    /// The rendered text of this value under a configuration.
    fn generate(&self, info: CodeGenerationInfo) -> (r: Result<String, RenderError>)
        ensures
            r matches Ok(s) ==> (spec_render(self.as_node(), info) matches Ok(t) && s@ == t),
            r matches Err(e) ==> spec_render(self.as_node(), info) == Err::<
                Seq<char>,
                RenderError,
            >(e),
    ;
}

/// A renderable value paired with the configuration to render it under.
pub struct DisplayHandler<'a, T: CodeGenerate> {
    generator: &'a T,
    info: CodeGenerationInfo,
}

impl<'a, T: CodeGenerate> DisplayHandler<'a, T> {
    pub closed spec fn spec_generator(&self) -> &'a T {
        self.generator
    }

    pub closed spec fn spec_info(&self) -> CodeGenerationInfo {
        self.info
    }

    pub fn new(gen: &'a T, info: CodeGenerationInfo) -> (r: DisplayHandler<'a, T>)
        ensures
            r.spec_generator() == gen,
            r.spec_info() == info,
    {
        DisplayHandler { generator: gen, info: info }
    }

    /// The rendered text of the held value under the held configuration.
    pub fn to_text(&self) -> (r: Result<String, RenderError>)
        ensures
            r matches Ok(s) ==> (spec_render(self.spec_generator().as_node(), self.spec_info())
                matches Ok(t) && s@ == t),
            r matches Err(e) ==> spec_render(self.spec_generator().as_node(), self.spec_info())
                == Err::<Seq<char>, RenderError>(e),
    {
        self.generator.generate(self.info)
    }
}

/// Pairs any renderable value with a configuration.
pub trait DisplayExt where Self: core::marker::Sized + CodeGenerate {
    fn display<'a>(&'a self, info: CodeGenerationInfo) -> (r: DisplayHandler<'a, Self>)
        ensures
            r.spec_generator() == self,
            r.spec_info() == info,
    ;
}

impl<T> DisplayExt for T where T: CodeGenerate {
    fn display<'a>(&'a self, info: CodeGenerationInfo) -> (r: DisplayHandler<'a, T>) {
        DisplayHandler::new(self, info)
    }
}

} // verus!
