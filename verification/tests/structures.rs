use code_generator::CodeBody;
use code_generator::CodeGenerate;
use code_generator::CodeGenerationInfo;
use code_generator::CodeSet;
use code_generator::CodeStyle;
use code_generator::ConstDefine;
use code_generator::Enum;
use code_generator::ForLoop;
use code_generator::Function;
use code_generator::FunctionCall;
use code_generator::FunctionDeclaration;
use code_generator::FunctionSignature;
use code_generator::HeaderFile;
use code_generator::IfStatement;
use code_generator::Name;
use code_generator::NameType;
use code_generator::NewLineType;
use code_generator::Node;
use code_generator::Struct;
use code_generator::TypeDef;
use code_generator::WhileStatement;
use code_generator::raw_node;

#[test]
fn gnu_if_statement_indents_body_two_levels() {
    let body = CodeBody::new(vec![raw_node("return 1;")]);
    let statement = IfStatement::new(raw_node("x"), body);
    let info = CodeGenerationInfo::from_style(CodeStyle::GNU);
    assert_eq!(
        statement.generate(info).unwrap(),
        "if (x)\r\n{\r\n    return 1;\r\n  }"
    );
}

#[test]
fn while_statement_knr() {
    let body = CodeBody::new(vec![raw_node("tick();")]);
    let statement = WhileStatement::new(raw_node("running"), body);
    let info = CodeGenerationInfo::from_style(CodeStyle::KnR);
    assert_eq!(statement.generate(info).unwrap(), "while (running) {\r\n    tick();\r\n}");
}

#[test]
fn for_loop_header_clauses() {
    let looped = ForLoop::new(
        raw_node("int i = 0"),
        raw_node("i < n"),
        raw_node("i++"),
        vec![raw_node("work(i);")],
    );
    let info = CodeGenerationInfo::from_style(CodeStyle::KnR);
    assert_eq!(
        looped.generate(info).unwrap(),
        "for (int i = 0; i < n; i++) {\r\n    work(i);\r\n}"
    );
}

#[test]
fn function_signature_and_declaration() {
    let info = CodeGenerationInfo::from_style(CodeStyle::Minimal);
    let signature = FunctionSignature::new(
        Name::new("int"),
        Name::new("do_thing"),
        vec![(Name::new("int"), Name::new("first_arg")), (Name::new("char"), Name::new("second"))],
    );
    assert_eq!(signature.generate(info).unwrap(), "Int do_thing(Int first_arg, Char second)");
    let declaration = FunctionDeclaration::new(
        Name::new("int"),
        Name::new("do_thing"),
        vec![(Name::new("int"), Name::new("first_arg"))],
    );
    assert_eq!(declaration.generate(info).unwrap(), "Int do_thing(Int first_arg);");
}

#[test]
fn function_call_with_and_without_terminator() {
    let info = CodeGenerationInfo::from_style(CodeStyle::Minimal);
    let call = FunctionCall::new(Name::new("do_thing"), vec![(Name::new("int"), Name::new("x"))]);
    assert_eq!(call.generate(info).unwrap(), "do_thing(Int x)");
    let call = FunctionCall::new_with_end(
        Name::new("do_thing"),
        vec![(Name::new("int"), Name::new("x"))],
    );
    assert_eq!(call.generate(info).unwrap(), "do_thing(Int x);");
}

#[test]
fn header_file_forces_screaming_snake_guard() {
    let content = CodeSet::new(vec![raw_node("int x;")]);
    let mut info = CodeGenerationInfo::from_style(CodeStyle::KnR);
    info.set_new_line_type(NewLineType::Nl);
    let header = HeaderFile::new(Name::new("my header"), content);
    assert_eq!(
        header.generate(info).unwrap(),
        "#ifndef MY_HEADER_H\n#define MY_HEADER_H\n\nint x;\n\n#endif\n"
    );
}

#[test]
fn enum_entries_and_values() {
    let info = CodeGenerationInfo::from_style(CodeStyle::Minimal);
    let declaration = Enum::new(
        Name::new("my_enum"),
        vec![
            (Name::new("first"), None),
            (Name::new("second"), Some(3)),
            (Name::new("third"), Some(-5)),
        ],
    );
    assert_eq!(
        declaration.generate(info).unwrap(),
        "typedef enum{FIRST,SECOND = 3,THIRD = -5,} MyEnum;"
    );
}

#[test]
fn struct_members() {
    let info = CodeGenerationInfo::from_style(CodeStyle::Minimal);
    let declaration = Struct::new(
        Name::new("my_struct"),
        vec![
            (Name::new("int"), Name::new("field_one")),
            (Name::new("char"), Name::new("field_two")),
        ],
    );
    assert_eq!(
        declaration.generate(info).unwrap(),
        "typedef struct{Int field_one;Char field_two;} MyStruct;"
    );
}

#[test]
fn struct_allman_layout() {
    let info = CodeGenerationInfo::from_style(CodeStyle::Allman);
    let declaration = Struct::new(
        Name::new("point"),
        vec![(Name::new("int"), Name::new("x_pos"))],
    );
    assert_eq!(
        declaration.generate(info).unwrap(),
        "typedef struct\r\n{\r\n    Int x_pos;\r\n} Point;"
    );
}

#[test]
fn typedef_declaration() {
    let info = CodeGenerationInfo::from_style(CodeStyle::Minimal);
    let declaration = TypeDef::new(Name::new("my_type"), Name::new("base_type"));
    assert_eq!(declaration.generate(info).unwrap(), "typedef BaseType MyType;");
}

#[test]
fn const_define_uses_screaming_snake_by_default() {
    let define = ConstDefine::new(Name::new("name"), raw_node("2"));
    let info = CodeGenerationInfo::new();
    assert_eq!(define.generate(info).unwrap(), "#define NAME 2");
}

#[test]
fn same_tree_renders_under_two_styles() {
    let build = || -> Node {
        CodeSet::new(vec![
            raw_node("#include \"test.h\""),
            raw_node(""),
            raw_node(""),
            Function::new(
                FunctionSignature::new(
                    Name::new("MyReturnTypeOne"),
                    Name::new("MyFunctionNameOne"),
                    vec![
                        (Name::new("ParamTypeOne"), Name::new("ParamNameOne")),
                        (Name::new("ParamTypeTwo"), Name::new("ParamNameTwo")),
                        (Name::new("ParamTypeThree"), Name::new("ParamNameThree")),
                    ],
                ),
                CodeBody::new(vec![
                    IfStatement::new(
                        Node::Ident(Name::new_with_type("ParamNameThree", NameType::Member)),
                        CodeBody::new(vec![
                            ForLoop::new(
                                raw_node("ParamTypeTwo i = 0"),
                                raw_node("i < param_name_two"),
                                raw_node("i++"),
                                vec![raw_node("printf(\"ParamOne: {}\\n\", param_name_one);")],
                            )
                            .into_node(),
                        ]),
                    )
                    .into_node(),
                ]),
            )
            .into_node(),
            raw_node(""),
        ])
        .into_node()
    };

    let mut info = CodeGenerationInfo::from_style(CodeStyle::KnR);
    info.set_new_line_type(NewLineType::Nl);
    assert_eq!(
        "#include \"test.h\"


MyReturnTypeOne my_function_name_one(ParamTypeOne param_name_one, ParamTypeTwo param_name_two, ParamTypeThree param_name_three) {
    if (param_name_three) {
        for (ParamTypeTwo i = 0; i < param_name_two; i++) {
            printf(\"ParamOne: {}\\n\", param_name_one);
        }
    }
}
",
        build().generate(info).unwrap()
    );

    let mut info = CodeGenerationInfo::from_style(CodeStyle::Allman);
    info.set_new_line_type(NewLineType::Nl);
    assert_eq!(
        "#include \"test.h\"


MyReturnTypeOne my_function_name_one(ParamTypeOne param_name_one, ParamTypeTwo param_name_two, ParamTypeThree param_name_three)
{
    if (param_name_three)
    {
        for (ParamTypeTwo i = 0; i < param_name_two; i++)
        {
            printf(\"ParamOne: {}\\n\", param_name_one);
        }
    }
}
",
        build().generate(info).unwrap()
    );
}

#[test]
fn depth_returns_after_block() {
    let set = CodeSet::new(vec![
        IfStatement::new(raw_node("x"), CodeBody::new(vec![raw_node("y;")])).into_node(),
        raw_node("after;"),
    ]);
    let info = CodeGenerationInfo::from_style(CodeStyle::Allman);
    assert_eq!(
        set.generate(info).unwrap(),
        "if (x)\r\n{\r\n    y;\r\n}\r\nafter;"
    );
}

#[test]
fn gnu_function_body_suppresses_closing_indent() {
    let info = CodeGenerationInfo::from_style(CodeStyle::GNU);
    let function = Function::new(
        FunctionSignature::new(Name::new("int"), Name::new("f"), vec![]),
        CodeBody::new(vec![raw_node("return 0;")]),
    );
    assert_eq!(
        function.generate(info).unwrap(),
        "Int f()\r\n{\r\n    return 0;\r\n}"
    );
}
