use wasmer_wit::ast::{Adapter, Export, Forward, Import, Instruction, InterfaceType, Interfaces, Type};
use wasmer_wit::binary::{decode, encode, tag_to_type, type_to_tag};
use wasmer_wit::text::to_text;
use wasmer_wit::wire::{Malformed, Reason};

fn s(x: &str) -> String {
    x.to_string()
}

pub fn sample() -> Interfaces {
    Interfaces {
        exports: vec![
            Export {
                name: s("strlen"),
                input_types: vec![InterfaceType::I32],
                output_types: vec![InterfaceType::I32],
            },
            Export {
                name: s("write_null_byte"),
                input_types: vec![InterfaceType::I32, InterfaceType::I32],
                output_types: vec![InterfaceType::I32],
            },
        ],
        types: vec![],
        imports: vec![
            Import {
                namespace: s("host"),
                name: s("console_log"),
                input_types: vec![InterfaceType::String],
                output_types: vec![],
            },
            Import {
                namespace: s("host"),
                name: s("document_title"),
                input_types: vec![],
                output_types: vec![InterfaceType::String],
            },
        ],
        adapters: vec![
            Adapter::Import {
                namespace: s("host"),
                name: s("console_log"),
                input_types: vec![InterfaceType::I32],
                output_types: vec![],
                instructions: vec![
                    Instruction::ArgumentGet { index: 0 },
                    Instruction::ArgumentGet { index: 0 },
                    Instruction::CallExport { export_name: s("strlen") },
                    Instruction::ReadUtf8,
                    Instruction::Call { function_index: 0 },
                ],
            },
            Adapter::Import {
                namespace: s("host"),
                name: s("document_title"),
                input_types: vec![],
                output_types: vec![InterfaceType::I32],
                instructions: vec![
                    Instruction::Call { function_index: 1 },
                    Instruction::WriteUtf8 { allocator_name: s("alloc") },
                    Instruction::CallExport { export_name: s("write_null_byte") },
                ],
            },
        ],
        forwards: vec![Forward { name: s("main") }],
    }
}

/// The bytes of the sample, written out by hand from the format.
fn sample_bytes() -> Vec<u8> {
    let mut b: Vec<u8> = vec![2];
    b.push(6);
    b.extend_from_slice(b"strlen");
    b.extend_from_slice(&[1, 5, 1, 5]);
    b.push(15);
    b.extend_from_slice(b"write_null_byte");
    b.extend_from_slice(&[2, 5, 5, 1, 5]);
    b.push(0);
    b.push(2);
    b.push(4);
    b.extend_from_slice(b"host");
    b.push(11);
    b.extend_from_slice(b"console_log");
    b.extend_from_slice(&[1, 3, 0]);
    b.push(4);
    b.extend_from_slice(b"host");
    b.push(14);
    b.extend_from_slice(b"document_title");
    b.extend_from_slice(&[0, 1, 3]);
    b.push(2);
    b.push(0);
    b.push(4);
    b.extend_from_slice(b"host");
    b.push(11);
    b.extend_from_slice(b"console_log");
    b.extend_from_slice(&[1, 5, 0]);
    b.push(5);
    b.extend_from_slice(&[0, 0, 0, 0, 2, 6]);
    b.extend_from_slice(b"strlen");
    b.extend_from_slice(&[3, 1, 0]);
    b.push(0);
    b.push(4);
    b.extend_from_slice(b"host");
    b.push(14);
    b.extend_from_slice(b"document_title");
    b.extend_from_slice(&[0, 1, 5]);
    b.push(3);
    b.extend_from_slice(&[1, 1, 4, 5]);
    b.extend_from_slice(b"alloc");
    b.extend_from_slice(&[2, 15]);
    b.extend_from_slice(b"write_null_byte");
    b.push(1);
    b.push(4);
    b.extend_from_slice(b"main");
    b
}

const SAMPLE_TEXT: &str = r#";; Interfaces

;; Interface, Export strlen
(@interface export "strlen"
  (param i32)
  (result i32))

;; Interface, Export write_null_byte
(@interface export "write_null_byte"
  (param i32 i32)
  (result i32))

;; Interface, Imported function host.console_log
(@interface func $host_console_log (import "host" "console_log")
  (param string))

;; Interface, Imported function host.document_title
(@interface func $host_document_title (import "host" "document_title")
  (result string))

;; Interface, Adapter host.console_log
(@interface adapt (import "host" "console_log")
  (param i32)
  arg.get 0
  arg.get 0
  call-export "strlen"
  read-utf8
  call 0)

;; Interface, Adapter host.document_title
(@interface adapt (import "host" "document_title")
  (result i32)
  call 1
  write-utf8 "alloc"
  call-export "write_null_byte")

;; Interface, Forward main
(@interface forward "main")"#;

#[test]
fn test_parse_binary_from_custom_section() {
    let bytes = sample_bytes();
    let interfaces = decode(&bytes).unwrap();
    assert_eq!(interfaces, sample());
    assert_eq!(to_text(&interfaces), SAMPLE_TEXT);
}

#[test]
fn binary_round_trip_of_sample_bytes() {
    let bytes = sample_bytes();
    let interfaces = decode(&bytes).unwrap();
    assert_eq!(encode(&interfaces), bytes);
}

#[test]
fn encode_then_decode_gives_the_description() {
    let x = sample();
    assert_eq!(decode(&encode(&x)).unwrap(), x);
}

#[test]
fn round_trip_of_every_instruction_and_a_record_type() {
    let x = Interfaces {
        exports: vec![],
        types: vec![Type {
            name: s("point"),
            fields: vec![s("x"), s("y")],
            types: vec![InterfaceType::Int, InterfaceType::Float],
        }],
        imports: vec![],
        adapters: vec![Adapter::HelperFunction {
            name: s("helper"),
            input_types: vec![InterfaceType::Sequence, InterfaceType::AnyRef],
            output_types: vec![InterfaceType::F64, InterfaceType::F32, InterfaceType::I64],
            instructions: vec![
                Instruction::ArgumentGet { index: 300 },
                Instruction::Call { function_index: u64::MAX },
                Instruction::CallExport { export_name: s("é") },
                Instruction::ReadUtf8,
                Instruction::WriteUtf8 { allocator_name: s("a") },
                Instruction::AsWasm(InterfaceType::I32),
                Instruction::AsInterface(InterfaceType::Int),
                Instruction::TableRefAdd,
                Instruction::TableRefGet,
                Instruction::CallMethod(s("m")),
                Instruction::MakeRecord(InterfaceType::Any),
                Instruction::GetField(InterfaceType::String, s("f")),
                Instruction::Const(InterfaceType::I64, 1 << 40),
                Instruction::FoldSeq(s("g")),
            ],
        }],
        forwards: vec![],
    };
    assert_eq!(decode(&encode(&x)).unwrap(), x);
}

#[test]
fn leb128_encoding_of_large_numbers() {
    let x = Interfaces {
        exports: vec![],
        types: vec![],
        imports: vec![],
        adapters: vec![Adapter::Export {
            name: s("f"),
            input_types: vec![],
            output_types: vec![],
            instructions: vec![Instruction::ArgumentGet { index: 300 }],
        }],
        forwards: vec![],
    };
    let b = encode(&x);
    assert_eq!(b, vec![0, 0, 0, 1, 1, 1, b'f', 0, 0, 1, 0, 0xac, 0x02, 0]);
}

#[test]
fn empty_description_is_five_zero_counts() {
    let x = Interfaces { exports: vec![], types: vec![], imports: vec![], adapters: vec![], forwards: vec![] };
    assert_eq!(encode(&x), vec![0, 0, 0, 0, 0]);
    assert_eq!(decode(&[0, 0, 0, 0, 0]).unwrap(), x);
}

#[test]
fn truncated_section_is_malformed_at_the_truncation_point() {
    let mut bytes = sample_bytes();
    bytes.pop();
    let n = bytes.len();
    assert_eq!(decode(&bytes), Err(Malformed { offset: n, reason: Reason::UnexpectedEnd }));
}

#[test]
fn empty_input_is_malformed() {
    assert_eq!(decode(&[]), Err(Malformed { offset: 0, reason: Reason::UnexpectedEnd }));
}

#[test]
fn trailing_bytes_are_malformed() {
    assert_eq!(
        decode(&[0, 0, 0, 0, 0, 7]),
        Err(Malformed { offset: 5, reason: Reason::TrailingBytes })
    );
}

#[test]
fn unknown_type_tag_is_malformed() {
    // one export "f" whose single input type has tag 10
    assert_eq!(
        decode(&[1, 1, b'f', 1, 10, 0, 0, 0, 0, 0]),
        Err(Malformed { offset: 4, reason: Reason::UnknownTypeTag })
    );
}

#[test]
fn unknown_opcode_is_malformed() {
    // one export adapter "f" with one instruction of opcode 14
    assert_eq!(
        decode(&[0, 0, 0, 1, 1, 1, b'f', 0, 0, 1, 14, 0]),
        Err(Malformed { offset: 10, reason: Reason::UnknownOpcode })
    );
}

#[test]
fn unknown_adapter_kind_is_malformed() {
    assert_eq!(
        decode(&[0, 0, 0, 1, 3]),
        Err(Malformed { offset: 4, reason: Reason::UnknownAdapterKind })
    );
}

#[test]
fn invalid_utf8_is_malformed() {
    assert_eq!(
        decode(&[0, 0, 0, 0, 1, 1, 0xff]),
        Err(Malformed { offset: 6, reason: Reason::InvalidUtf8 })
    );
}

#[test]
fn overlong_integer_is_malformed() {
    let mut b = vec![0x80u8; 10];
    b.push(0);
    assert_eq!(decode(&b), Err(Malformed { offset: 9, reason: Reason::IntegerTooLarge }));
}

#[test]
fn integer_beyond_u64_is_malformed() {
    let mut b = vec![0xffu8; 9];
    b.push(0x02);
    assert_eq!(decode(&b), Err(Malformed { offset: 0, reason: Reason::IntegerTooLarge }));
}

#[test]
fn type_tags_follow_the_enumeration() {
    let all = [
        InterfaceType::Int,
        InterfaceType::Float,
        InterfaceType::Any,
        InterfaceType::String,
        InterfaceType::Sequence,
        InterfaceType::I32,
        InterfaceType::I64,
        InterfaceType::F32,
        InterfaceType::F64,
        InterfaceType::AnyRef,
    ];
    for (i, t) in all.iter().enumerate() {
        assert_eq!(type_to_tag(*t) as usize, i);
        assert_eq!(tag_to_type(i as u64), Some(*t));
    }
    assert_eq!(tag_to_type(10), None);
}
