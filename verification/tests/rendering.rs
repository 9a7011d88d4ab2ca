use code_generator::CodeBody;
use code_generator::CodeGenerate;
use code_generator::CodeGenerationInfo;
use code_generator::CodeSet;
use code_generator::CodeStyle;
use code_generator::GeneratorContext;
use code_generator::HeaderPlusBody;
use code_generator::Indentation;
use code_generator::IndentationStyle;
use code_generator::IndentationType;
use code_generator::JoinedCode;
use code_generator::NewLine;
use code_generator::NewLineType;
use code_generator::RawCode;
use code_generator::RenderError;
use code_generator::SeparatedCode;
use code_generator::raw_node;

#[test]
fn empty_function_body_allman() {
    let header = raw_node("int add(int a, int b)");
    let block = HeaderPlusBody::new(header, CodeBody::new(vec![]));
    let info = CodeGenerationInfo::from_style(CodeStyle::Allman);
    assert_eq!(block.generate(info).unwrap(), "int add(int a, int b)\r\n{\r\n}");
}

#[test]
fn empty_function_body_knr() {
    let header = raw_node("int add(int a, int b)");
    let block = HeaderPlusBody::new(header, CodeBody::new(vec![]));
    let info = CodeGenerationInfo::from_style(CodeStyle::KnR);
    assert_eq!(block.generate(info).unwrap(), "int add(int a, int b) {\r\n}");
}

#[test]
fn block_layout_per_style() {
    let build = || {
        HeaderPlusBody::new(raw_node("if (x)"), CodeBody::new(vec![raw_node("y;")]))
    };
    let allman = CodeGenerationInfo::from_style(CodeStyle::Allman);
    assert_eq!(build().generate(allman).unwrap(), "if (x)\r\n{\r\n    y;\r\n}");
    let knr = CodeGenerationInfo::from_style(CodeStyle::KnR);
    assert_eq!(build().generate(knr).unwrap(), "if (x) {\r\n    y;\r\n}");
    let gnu = CodeGenerationInfo::from_style(CodeStyle::GNU);
    assert_eq!(build().generate(gnu).unwrap(), "if (x)\r\n{\r\n    y;\r\n  }");
    let horstmann = CodeGenerationInfo::from_style(CodeStyle::Horstmann);
    assert_eq!(build().generate(horstmann).unwrap(), "if (x)\r\n{   y;\r\n}");
    let pico = CodeGenerationInfo::from_style(CodeStyle::Pico);
    assert_eq!(build().generate(pico).unwrap(), "if (x)\r\n{   y; }");
    let minimal = CodeGenerationInfo::from_style(CodeStyle::Minimal);
    assert_eq!(build().generate(minimal).unwrap(), "if (x){y;}");
}

#[test]
fn reserved_styles_fail_loudly() {
    let body = CodeBody::new(vec![raw_node("y;")]);
    let base = CodeGenerationInfo::from_style(CodeStyle::Allman);
    let whitesmiths = base.with_ident_style(IndentationStyle::Whitesmiths);
    assert_eq!(body.generate(whitesmiths), Err(RenderError::UnsupportedStyle));
    let body = CodeBody::new(vec![]);
    let ratliff = base.with_ident_style(IndentationStyle::Ratliff);
    assert_eq!(body.generate(ratliff), Err(RenderError::UnsupportedStyle));
    let body = CodeBody::new(vec![]);
    let lisp = base.with_ident_style(IndentationStyle::Lisp);
    assert_eq!(body.generate(lisp), Err(RenderError::UnsupportedStyle));
}

#[test]
fn error_short_circuits_composites() {
    let bad = CodeBody::new(vec![raw_node("y;")]).into_node();
    let joined = JoinedCode::new(vec![raw_node("x"), bad]);
    let info = CodeGenerationInfo::from_style(CodeStyle::Allman).with_ident_style(
        IndentationStyle::Whitesmiths,
    );
    assert_eq!(joined.generate(info), Err(RenderError::UnsupportedStyle));
}

#[test]
fn rendering_is_deterministic() {
    let set = CodeSet::new(vec![
        raw_node("alpha"),
        HeaderPlusBody::new(raw_node("if (x)"), CodeBody::new(vec![raw_node("y;")])).into_node(),
    ]);
    let info = CodeGenerationInfo::from_style(CodeStyle::GNU);
    let first = set.generate(info).unwrap();
    let second = set.generate(info).unwrap();
    assert_eq!(first, second);
}

#[test]
fn styles_differ_only_in_layout() {
    let strip = |s: &str| {
        s.chars()
            .filter(|c| !matches!(c, ' ' | '\t' | '\r' | '\n' | '{' | '}'))
            .collect::<String>()
    };
    let build = || {
        CodeSet::new(vec![
            raw_node("int main(void)"),
            HeaderPlusBody::new(raw_node("if (x)"), CodeBody::new(vec![raw_node("y;")]))
                .into_node(),
        ])
    };
    let allman = build().generate(CodeGenerationInfo::from_style(CodeStyle::Allman)).unwrap();
    let knr = build().generate(CodeGenerationInfo::from_style(CodeStyle::KnR)).unwrap();
    let pico = build().generate(CodeGenerationInfo::from_style(CodeStyle::Pico)).unwrap();
    assert_ne!(allman, knr);
    assert_eq!(strip(&allman), strip(&knr));
    assert_eq!(strip(&allman), strip(&pico));
}

#[test]
fn new_line_types() {
    let info = CodeGenerationInfo::new();
    assert_eq!(NewLine::new().generate(info).unwrap(), "\r\n");
    assert_eq!(
        NewLine::new().generate(info.with_new_line_type(NewLineType::Cr)).unwrap(),
        "\r"
    );
    assert_eq!(
        NewLine::new().generate(info.with_new_line_type(NewLineType::Nl)).unwrap(),
        "\n"
    );
    assert_eq!(
        NewLine::new().generate(info.with_new_line_type(NewLineType::Empty)).unwrap(),
        ""
    );
    let mut info = CodeGenerationInfo::new();
    info.set_new_line_type(NewLineType::Nl);
    assert_eq!(NewLine::new().generate(info).unwrap(), "\n");
}

#[test]
fn indentation_text() {
    let info = CodeGenerationInfo::new();
    assert_eq!(Indentation::new().generate(info).unwrap(), "");
    assert_eq!(Indentation::new().generate(info.indent()).unwrap(), "    ");
    assert_eq!(Indentation::new().generate(info.indent().indent()).unwrap(), "        ");
    let three = info.with_ident_amount(3).indent();
    assert_eq!(Indentation::new().generate(three).unwrap(), "   ");
}

#[test]
fn tab_indentation_rounds_up_to_tab_stops() {
    let tabs = CodeGenerationInfo::new().with_indent_type(IndentationType::Tabs);
    assert_eq!(Indentation::new().generate(tabs.indent()).unwrap(), "\t");
    let wide = tabs.with_ident_amount(5);
    assert_eq!(Indentation::new().generate(wide.indent()).unwrap(), "\t\t");
    let block = HeaderPlusBody::new(raw_node("if (x)"), CodeBody::new(vec![raw_node("y;")]));
    assert_eq!(
        block.generate(tabs.with_ident_style(IndentationStyle::Allman)).unwrap(),
        "if (x)\r\n{\r\n\ty;\r\n}"
    );
}

#[test]
fn raw_code_reindents_continuation_lines() {
    let info = CodeGenerationInfo::new().indent();
    assert_eq!(RawCode::new("a\nb").generate(info).unwrap(), "a\r\n    b");
    assert_eq!(RawCode::new("a\r\nb").generate(info).unwrap(), "a\r\n    b");
    assert_eq!(RawCode::new("a\n").generate(info).unwrap(), "a");
    assert_eq!(RawCode::new("a\rb").generate(info).unwrap(), "a\rb");
    assert_eq!(String::from("x\ny").generate(info).unwrap(), "x\r\n    y");
}

#[test]
fn raw_code_merge_concatenates() {
    let merged = RawCode::new("one\n").merge(RawCode::new("two"));
    let info = CodeGenerationInfo::new();
    assert_eq!(merged.generate(info).unwrap(), "one\r\ntwo");
}

#[test]
fn sequence_combinators() {
    let info = CodeGenerationInfo::new();
    let joined = JoinedCode::new(vec![raw_node("a"), raw_node("b"), raw_node("c")]);
    assert_eq!(joined.generate(info).unwrap(), "abc");
    let set = CodeSet::new(vec![raw_node("a"), raw_node("b")]);
    assert_eq!(set.generate(info).unwrap(), "a\r\nb");
    let set = CodeSet::new(vec![raw_node("a"), raw_node("b")]);
    assert_eq!(set.generate(info.indent()).unwrap(), "a\r\n    b");
    let sep = SeparatedCode::new(
        vec![raw_node("a"), raw_node("b"), raw_node("c")],
        raw_node(", "),
    );
    assert_eq!(sep.generate(info).unwrap(), "a, b, c");
    let single = SeparatedCode::new(vec![raw_node("a")], raw_node(", "));
    assert_eq!(single.generate(info).unwrap(), "a");
    let empty = SeparatedCode::new(vec![], raw_node(", "));
    assert_eq!(empty.generate(info).unwrap(), "");
}

#[test]
fn configuration_is_derived_not_mutated() {
    let info = CodeGenerationInfo::from_style(CodeStyle::Allman);
    let deeper = info.indent();
    assert_eq!(info.indent_level, 0);
    assert_eq!(deeper.indent_level, 1);
    let scoped = info.with_context(GeneratorContext::Enum);
    assert_eq!(info.context, GeneratorContext::File);
    assert_eq!(scoped.context, GeneratorContext::Enum);
    assert_eq!(scoped.indent_style, info.indent_style);
}
