use code_generator::AsCase;
use code_generator::CaseType;
use code_generator::CaseTypes;
use code_generator::CodeGenerationInfo;
use code_generator::CodeStyle;
use code_generator::DisplayExt;
use code_generator::Name;
use code_generator::NameType;

#[test]
fn name_camel_case() {
    let default_gen_info: CodeGenerationInfo = CodeGenerationInfo::from_style(CodeStyle::KnR);
    let case = NameType::FixedCase(CaseType::CamelCase);
    let name = Name::new_with_type("testName", case);
    let result = name.display(default_gen_info).to_text().unwrap();
    assert_eq!(result, "testName");
}

#[test]
fn casing_rules_of_canonical_identifier() {
    let name = Name::new("my_variable_name");
    assert_eq!(name.casify(CaseType::PascalCase), "MyVariableName");
    assert_eq!(name.casify(CaseType::CamelCase), "myVariableName");
    assert_eq!(name.casify(CaseType::ScreamingSnakeCase), "MY_VARIABLE_NAME");
    assert_eq!(name.casify(CaseType::SnakeCase), "my_variable_name");
    assert_eq!(name.casify(CaseType::FlatCase), "myvariablename");
    assert_eq!(name.casify(CaseType::ScreamingCase), "MYVARIABLENAME");
}

#[test]
fn splitting_recognises_capitals_separators_and_spaces() {
    assert_eq!(Name::new("testName").casify(CaseType::SnakeCase), "test_name");
    assert_eq!(Name::new("FOO_BAR").casify(CaseType::CamelCase), "fooBar");
    assert_eq!(Name::new("my header").casify(CaseType::ScreamingSnakeCase), "MY_HEADER");
    assert_eq!(Name::new("HTTPServer").casify(CaseType::SnakeCase), "httpserver");
}

#[test]
fn empty_identifier_gets_placeholder() {
    assert_eq!(Name::new("").casify(CaseType::SnakeCase), "invalid_name");
    assert_eq!(Name::new("___").casify(CaseType::CamelCase), "invalidName");
    assert_eq!(Name::new("  ").casify(CaseType::PascalCase), "InvalidName");
    assert!(!Name::new("").casify(CaseType::FlatCase).is_empty());
}

#[test]
fn casing_round_trip_is_idempotent() {
    let rules = [
        CaseType::FlatCase,
        CaseType::ScreamingCase,
        CaseType::CamelCase,
        CaseType::PascalCase,
        CaseType::SnakeCase,
        CaseType::ScreamingSnakeCase,
    ];
    for rule in rules {
        let once = Name::new("alpha_beta_gamma").casify(rule);
        let twice = Name::new(&once).casify(rule);
        assert_eq!(twice, once);
    }
}

#[test]
fn free_text_casing_follows_chunk_boundaries() {
    assert_eq!("testName".as_case(CaseType::CamelCase).to_text(), "testName");
    assert_eq!("testName".as_case(CaseType::PascalCase).to_text(), "TestName");
    assert_eq!("foo`bar".as_case(CaseType::CamelCase).to_text(), "fooBar");
    assert_eq!("foo`bar".as_case(CaseType::PascalCase).to_text(), "FooBar");
    assert_eq!(String::from("tame").as_case(CaseType::ScreamingCase).to_text(), "TAME");
}

#[test]
fn both_casing_paths_agree_without_boundary_hints() {
    let rules = [
        CaseType::FlatCase,
        CaseType::ScreamingCase,
        CaseType::CamelCase,
        CaseType::PascalCase,
        CaseType::SnakeCase,
        CaseType::ScreamingSnakeCase,
    ];
    for rule in rules {
        let structured = Name::new("word").casify(rule);
        let streamed = "word".as_case(rule).to_text();
        assert_eq!(structured, streamed);
    }
}

#[test]
fn role_selects_configured_rule() {
    let info = CodeGenerationInfo::from_style(CodeStyle::KnR);
    let type_ident = Name::new_with_type("my_type", NameType::Type);
    assert_eq!(type_ident.display(info).to_text().unwrap(), "MyType");
    let member = Name::new_with_type("my_member", NameType::Member);
    assert_eq!(member.display(info).to_text().unwrap(), "my_member");
    let function = Name::new_with_type("my_function", NameType::Function);
    assert_eq!(function.display(info).to_text().unwrap(), "my_function");
    let constant = Name::new_with_type("my_const", NameType::ConstDefine);
    assert_eq!(constant.display(info).to_text().unwrap(), "MY_CONST");
}

#[test]
fn case_types_builders_override_rules() {
    let cases = CaseTypes::new()
        .with_member_name(CaseType::CamelCase)
        .with_function_name(CaseType::PascalCase)
        .with_const_define(CaseType::FlatCase)
        .with_file_name(CaseType::SnakeCase)
        .with_default(CaseType::PascalCase);
    let info = CodeGenerationInfo::new().with_case_types(cases);
    assert_eq!(
        Name::new_with_type("two_words", NameType::Type).display(info).to_text().unwrap(),
        "TwoWords"
    );
    assert_eq!(
        Name::new_with_type("two_words", NameType::Member).display(info).to_text().unwrap(),
        "twoWords"
    );
    assert_eq!(
        Name::new_with_type("two_words", NameType::Function).display(info).to_text().unwrap(),
        "TwoWords"
    );
    assert_eq!(
        Name::new_with_type("two_words", NameType::ConstDefine).display(info).to_text().unwrap(),
        "twowords"
    );
    assert_eq!(
        Name::new_with_type("two_words", NameType::File).display(info).to_text().unwrap(),
        "two_words"
    );
    assert_eq!(Name::new("two_words").display(info).to_text().unwrap(), "TwoWords");
}

#[test]
fn with_type_re_renders_without_re_splitting() {
    let name = Name::new("some_name").with_type(NameType::Type);
    let info = CodeGenerationInfo::from_style(CodeStyle::KnR);
    assert_eq!(name.display(info).to_text().unwrap(), "SomeName");
    let name = Name::new("some_name").with_type(NameType::FixedCase(CaseType::ScreamingCase));
    assert_eq!(name.display(info).to_text().unwrap(), "SOMENAME");
}
