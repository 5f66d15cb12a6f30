use wasmer_wit::ast::{Adapter, Export, Forward, Import, Instruction, InterfaceType, Interfaces};
use wasmer_wit::binary::encode;
use wasmer_wit::text::{decimal, parse, text_to_binary, to_text, SyntaxReason, TextError};

fn s(x: &str) -> String {
    x.to_string()
}

fn empty() -> Interfaces {
    Interfaces { exports: vec![], types: vec![], imports: vec![], adapters: vec![], forwards: vec![] }
}

#[test]
fn test_foo() {
    let input = r#"(@interface export "foo" (param i32 i64) (result i32))"#;
    let output = Interfaces {
        exports: vec![Export {
            name: s("foo"),
            input_types: vec![InterfaceType::I32, InterfaceType::I64],
            output_types: vec![InterfaceType::I32],
        }],
        ..empty()
    };
    assert_eq!(parse(input).unwrap(), output);
}

#[test]
fn export_without_param_or_result() {
    let x = parse(r#"(@interface export "foo")"#).unwrap();
    assert_eq!(
        x.exports,
        vec![Export { name: s("foo"), input_types: vec![], output_types: vec![] }]
    );
}

#[test]
fn import_with_and_without_identifier() {
    let a = parse(r#"(@interface func $ns_foo (import "ns" "foo") (param string) (result i32 i32))"#)
        .unwrap();
    let b = parse(r#"(@interface func (import "ns" "foo") (param string) (result i32 i32))"#).unwrap();
    let expected = vec![Import {
        namespace: s("ns"),
        name: s("foo"),
        input_types: vec![InterfaceType::String],
        output_types: vec![InterfaceType::I32, InterfaceType::I32],
    }];
    assert_eq!(a.imports, expected);
    assert_eq!(b.imports, expected);
}

#[test]
fn adapters_of_each_kind() {
    let x = parse(
        r#"(@interface adapt (import "ns" "foo") (param i32 i32) (result i32))
           (@interface adapt (export "foo") (param i32 i32) (result i32) arg.get 1)
           (@interface adapt (helper "h") const i64 42 get-field string "f")"#,
    )
    .unwrap();
    assert_eq!(
        x.adapters,
        vec![
            Adapter::Import {
                namespace: s("ns"),
                name: s("foo"),
                input_types: vec![InterfaceType::I32, InterfaceType::I32],
                output_types: vec![InterfaceType::I32],
                instructions: vec![],
            },
            Adapter::Export {
                name: s("foo"),
                input_types: vec![InterfaceType::I32, InterfaceType::I32],
                output_types: vec![InterfaceType::I32],
                instructions: vec![Instruction::ArgumentGet { index: 1 }],
            },
            Adapter::HelperFunction {
                name: s("h"),
                input_types: vec![],
                output_types: vec![],
                instructions: vec![
                    Instruction::Const(InterfaceType::I64, 42),
                    Instruction::GetField(InterfaceType::String, s("f")),
                ],
            },
        ]
    );
}

#[test]
fn comments_and_whitespace_are_skipped() {
    let x = parse(";; a comment\n\t(@interface   forward\n \"main\" ) ;; trailing").unwrap();
    assert_eq!(x.forwards, vec![Forward { name: s("main") }]);
}

#[test]
fn all_type_spellings() {
    let x = parse(
        r#"(@interface export "f" (param int float any string seq i32 i64 f32 f64 anyref))"#,
    )
    .unwrap();
    assert_eq!(
        x.exports[0].input_types,
        vec![
            InterfaceType::Int,
            InterfaceType::Float,
            InterfaceType::Any,
            InterfaceType::String,
            InterfaceType::Sequence,
            InterfaceType::I32,
            InterfaceType::I64,
            InterfaceType::F32,
            InterfaceType::F64,
            InterfaceType::AnyRef,
        ]
    );
}

#[test]
fn print_then_parse_gives_the_description_back() {
    let x = Interfaces {
        exports: vec![Export {
            name: s("strlen"),
            input_types: vec![InterfaceType::I32],
            output_types: vec![InterfaceType::I32],
        }],
        types: vec![],
        imports: vec![Import {
            namespace: s("host"),
            name: s("log"),
            input_types: vec![InterfaceType::String],
            output_types: vec![],
        }],
        adapters: vec![Adapter::Export {
            name: s("e"),
            input_types: vec![],
            output_types: vec![InterfaceType::I64],
            instructions: vec![
                Instruction::Call { function_index: 18446744073709551615 },
                Instruction::CallExport { export_name: s("x") },
                Instruction::ReadUtf8,
                Instruction::WriteUtf8 { allocator_name: s("alloc") },
                Instruction::AsWasm(InterfaceType::I64),
                Instruction::AsInterface(InterfaceType::Int),
                Instruction::TableRefAdd,
                Instruction::TableRefGet,
                Instruction::CallMethod(s("m")),
                Instruction::MakeRecord(InterfaceType::Any),
                Instruction::FoldSeq(s("g")),
            ],
        }],
        forwards: vec![Forward { name: s("main") }],
    };
    let text = to_text(&x);
    assert_eq!(parse(&text).unwrap(), x);
}

#[test]
fn empty_description_prints_the_banner_only() {
    assert_eq!(to_text(&empty()), ";; Interfaces");
    assert_eq!(parse(";; Interfaces").unwrap(), empty());
}

#[test]
fn text_to_binary_is_the_encoding_of_the_parse() {
    let text = r#"(@interface export "foo" (param i32 i64) (result i32))"#;
    assert_eq!(text_to_binary(text).unwrap(), encode(&parse(text).unwrap()));
    assert_eq!(text_to_binary(text).unwrap(), vec![1, 3, b'f', b'o', b'o', 2, 5, 6, 1, 5, 0, 0, 0, 0]);
}

#[test]
fn unterminated_string_is_reported_at_its_quote() {
    assert_eq!(
        parse(r#"(@interface export "foo"#),
        Err(TextError::UnterminatedString { offset: 19 })
    );
}

#[test]
fn unknown_type_is_reported() {
    assert_eq!(
        parse(r#"(@interface export "foo" (param u8))"#),
        Err(TextError::Syntax { token_index: 6, reason: SyntaxReason::UnknownType })
    );
}

#[test]
fn unknown_instruction_is_reported() {
    assert_eq!(
        parse(r#"(@interface adapt (export "f") frobnicate)"#),
        Err(TextError::Syntax { token_index: 7, reason: SyntaxReason::UnknownInstruction })
    );
}

#[test]
fn number_too_large_is_reported() {
    assert_eq!(
        parse(r#"(@interface adapt (export "f") arg.get 18446744073709551616)"#),
        Err(TextError::Syntax { token_index: 8, reason: SyntaxReason::InvalidNumber })
    );
}

#[test]
fn missing_close_is_reported() {
    assert_eq!(
        parse(r#"(@interface forward "main""#),
        Err(TextError::Syntax { token_index: 4, reason: SyntaxReason::UnexpectedEnd })
    );
}

#[test]
fn unknown_clause_is_reported() {
    assert_eq!(
        parse(r#"(@interface type "t")"#),
        Err(TextError::Syntax { token_index: 2, reason: SyntaxReason::UnexpectedToken })
    );
}

#[test]
fn decimal_spelling() {
    assert_eq!(decimal(0), "0");
    assert_eq!(decimal(3221225501), "3221225501");
    assert_eq!(decimal(u64::MAX), "18446744073709551615");
}

#[test]
fn signature_groups_in_any_order_are_concatenated() {
    let x = parse(
        r#"(@interface export "f" (result i64) (param i32) (param) (result f32 f64) (param string))"#,
    )
    .unwrap();
    assert_eq!(
        x.exports,
        vec![Export {
            name: s("f"),
            input_types: vec![InterfaceType::I32, InterfaceType::String],
            output_types: vec![InterfaceType::I64, InterfaceType::F32, InterfaceType::F64],
        }]
    );
}

#[test]
fn unknown_group_is_reported() {
    assert_eq!(
        parse(r#"(@interface export "f" (param i32) (local i32))"#),
        Err(TextError::Syntax { token_index: 8, reason: SyntaxReason::UnexpectedToken })
    );
}
