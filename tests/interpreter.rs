use wasmer_wit::ast::{Instruction, InterfaceType};
use wasmer_wit::interpreter::{
    allocation, allocator_arguments, argument_get, execute, lift, lower, pop_arguments, read_utf8, run, Instance,
    InstructionError, InstructionErrorKind, Signature,
};
use wasmer_wit::values::{values_have_types, InterfaceValue};

/// A guest with `strlen`, `alloc` and `write_null_byte`, and a host with
/// `console_log` (index 0) and `document_title` (index 1).
struct Guest {
    memory: Vec<u8>,
    logged: Vec<String>,
    next_free: i32,
}

impl Guest {
    fn new() -> Guest {
        let mut memory = vec![0u8; 256];
        memory[7..14].copy_from_slice(b"hello!\0");
        Guest { memory, logged: vec![], next_free: 100 }
    }
}

fn sig(inputs: Vec<InterfaceType>, outputs: Vec<InterfaceType>) -> Signature {
    Signature { inputs, outputs }
}

impl Instance for Guest {
    fn export(&self, name: &String) -> Option<Signature> {
        match name.as_str() {
            "strlen" | "alloc" => Some(sig(vec![InterfaceType::I32], vec![InterfaceType::I32])),
            "write_null_byte" => Some(sig(
                vec![InterfaceType::I32, InterfaceType::I32],
                vec![InterfaceType::I32],
            )),
            _ => None,
        }
    }

    fn call_export(
        &mut self,
        name: &String,
        arguments: &Vec<InterfaceValue>,
    ) -> Result<Vec<InterfaceValue>, ()> {
        match (name.as_str(), arguments.as_slice()) {
            ("strlen", [InterfaceValue::I32(p)]) => {
                let start = *p as usize;
                let n = self.memory[start..].iter().position(|b| *b == 0).unwrap();
                Ok(vec![InterfaceValue::I32(n as i32)])
            }
            ("alloc", [InterfaceValue::I32(n)]) => {
                let p = self.next_free;
                self.next_free += *n + 1;
                Ok(vec![InterfaceValue::I32(p)])
            }
            ("write_null_byte", [InterfaceValue::I32(p), InterfaceValue::I32(n)]) => {
                self.memory[(*p + *n) as usize] = 0;
                Ok(vec![InterfaceValue::I32(*p)])
            }
            _ => Err(()),
        }
    }

    fn local_or_import(&mut self, index: u64) -> Option<Signature> {
        match index {
            0 => Some(sig(vec![InterfaceType::String], vec![])),
            1 => Some(sig(vec![], vec![InterfaceType::String])),
            _ => None,
        }
    }

    fn call_local_or_import(
        &mut self,
        index: u64,
        arguments: &Vec<InterfaceValue>,
    ) -> Result<Vec<InterfaceValue>, ()> {
        match (index, arguments.as_slice()) {
            (0, [InterfaceValue::String(s)]) => {
                self.logged.push(s.clone());
                Ok(vec![])
            }
            (1, []) => Ok(vec![InterfaceValue::String("Page".to_string())]),
            _ => Err(()),
        }
    }

    fn memory(&self, index: usize) -> Option<&Vec<u8>> {
        if index == 0 {
            Some(&self.memory)
        } else {
            None
        }
    }

    fn write_memory(&mut self, _index: usize, offset: usize, bytes: &[u8]) {
        self.memory[offset..offset + bytes.len()].copy_from_slice(bytes);
    }
}

#[test]
fn test_interpreter() {
    let mut guest = Guest::new();
    let instructions = vec![
        Instruction::ArgumentGet { index: 0 },
        Instruction::ArgumentGet { index: 0 },
        Instruction::CallExport { export_name: "strlen".to_string() },
        Instruction::ReadUtf8,
        Instruction::Call { function_index: 0 },
    ];
    let inputs = vec![InterfaceValue::I32(7), InterfaceValue::I32(42)];
    let run = run(&instructions, &inputs, &vec![], &mut guest);
    assert_eq!(run, Ok(vec![]));
    assert_eq!(guest.logged, vec!["hello!".to_string()]);
}

#[test]
fn document_title_adapter_writes_the_title() {
    let mut guest = Guest::new();
    let instructions = vec![
        Instruction::Call { function_index: 1 },
        Instruction::WriteUtf8 { allocator_name: "alloc".to_string() },
        Instruction::CallExport { export_name: "write_null_byte".to_string() },
    ];
    let out = run(&instructions, &vec![], &vec![InterfaceType::I32], &mut guest).unwrap();
    assert_eq!(out, vec![InterfaceValue::I32(100)]);
    assert_eq!(&guest.memory[100..105], b"Page\0");
}

#[test]
fn write_utf8_of_the_empty_string_still_allocates() {
    let mut guest = Guest::new();
    let mut stack = vec![InterfaceValue::String(String::new())];
    let r = wasmer_wit::interpreter::write_utf8(&"alloc".to_string(), &mut stack, &mut guest);
    assert_eq!(r, Ok(()));
    assert_eq!(stack, vec![InterfaceValue::I32(100), InterfaceValue::I32(0)]);
    assert_eq!(guest.next_free, 101);
}

#[test]
fn empty_adapter_with_declared_outputs_fails() {
    let mut guest = Guest::new();
    let r = run(&vec![], &vec![], &vec![InterfaceType::I32], &mut guest);
    assert_eq!(
        r,
        Err(InstructionError {
            instruction_index: 0,
            stack_depth: 0,
            kind: InstructionErrorKind::OutputMismatch,
        })
    );
    assert_eq!(run(&vec![], &vec![], &vec![], &mut guest), Ok(vec![]));
}

#[test]
fn missing_invocation_input() {
    let mut stack = vec![];
    let r = argument_get(2, &vec![InterfaceValue::I32(1)], &mut stack);
    assert_eq!(r, Err(InstructionErrorKind::InvocationInputIsMissing { index: 2 }));
    assert!(stack.is_empty());
    assert_eq!(argument_get(0, &vec![InterfaceValue::I32(1)], &mut stack), Ok(()));
    assert_eq!(stack, vec![InterfaceValue::I32(1)]);
}

#[test]
fn read_utf8_out_of_bounds_reads_nothing() {
    let memory = vec![b'a'; 8];
    let mut stack = vec![InterfaceValue::I32(6), InterfaceValue::I32(3)];
    let r = read_utf8(&mut stack, Some(&memory));
    assert_eq!(r, Err(InstructionErrorKind::MemoryOutOfBounds { address: 6, length: 3 }));
    assert_eq!(stack, vec![InterfaceValue::I32(6), InterfaceValue::I32(3)]);
}

#[test]
fn read_utf8_reads_a_string() {
    let memory = b"xxabcxx".to_vec();
    let mut stack = vec![InterfaceValue::I64(9), InterfaceValue::I32(2), InterfaceValue::I32(3)];
    assert_eq!(read_utf8(&mut stack, Some(&memory)), Ok(()));
    assert_eq!(stack, vec![InterfaceValue::I64(9), InterfaceValue::String("abc".to_string())]);
}

#[test]
fn read_utf8_rejects_invalid_utf8() {
    let memory = vec![0xff, 0xfe];
    let mut stack = vec![InterfaceValue::I32(0), InterfaceValue::I32(2)];
    assert_eq!(
        read_utf8(&mut stack, Some(&memory)),
        Err(InstructionErrorKind::InvalidUtf8 { address: 0, length: 2 })
    );
}

#[test]
fn read_utf8_on_a_short_stack() {
    let mut stack = vec![InterfaceValue::I32(0)];
    assert_eq!(
        read_utf8(&mut stack, None),
        Err(InstructionErrorKind::StackIsTooSmall { needed: 2 })
    );
}

#[test]
fn pop_arguments_checks_types() {
    let mut stack = vec![InterfaceValue::I32(1), InterfaceValue::I64(2)];
    let r = pop_arguments(&mut stack, &vec![InterfaceType::I32, InterfaceType::I32]);
    assert_eq!(
        r,
        Err(InstructionErrorKind::TypeMismatch {
            expected: InterfaceType::I32,
            received: InterfaceType::I64,
        })
    );
    assert_eq!(stack.len(), 2);
    let r = pop_arguments(&mut stack, &vec![InterfaceType::I64]);
    assert_eq!(r, Ok(vec![InterfaceValue::I64(2)]));
    assert_eq!(stack, vec![InterfaceValue::I32(1)]);
    let r = pop_arguments(&mut stack, &vec![InterfaceType::I32, InterfaceType::I32]);
    assert_eq!(r, Err(InstructionErrorKind::StackIsTooSmall { needed: 2 }));
}

#[test]
fn call_export_of_a_missing_export() {
    let mut guest = Guest::new();
    let mut stack = vec![];
    let r = execute(
        &Instruction::CallExport { export_name: "nope".to_string() },
        &vec![],
        &mut stack,
        &mut guest,
    );
    assert_eq!(r, Err(InstructionErrorKind::ExportIsMissing { name: "nope".to_string() }));
}

#[test]
fn call_of_a_missing_import() {
    let mut guest = Guest::new();
    let mut stack = vec![];
    let r = execute(&Instruction::Call { function_index: 9 }, &vec![], &mut stack, &mut guest);
    assert_eq!(r, Err(InstructionErrorKind::LocalOrImportIsMissing { function_index: 9 }));
}

#[test]
fn reserved_instructions_are_unimplemented() {
    let mut guest = Guest::new();
    let mut stack = vec![InterfaceValue::I32(1)];
    for i in [
        Instruction::TableRefAdd,
        Instruction::TableRefGet,
        Instruction::CallMethod("m".to_string()),
        Instruction::MakeRecord(InterfaceType::Int),
        Instruction::GetField(InterfaceType::Int, "f".to_string()),
        Instruction::Const(InterfaceType::I32, 1),
        Instruction::FoldSeq("f".to_string()),
    ] {
        assert_eq!(
            execute(&i, &vec![], &mut stack, &mut guest),
            Err(InstructionErrorKind::UnimplementedInstruction)
        );
    }
    assert_eq!(stack, vec![InterfaceValue::I32(1)]);
}

#[test]
fn lowering_and_lifting() {
    assert_eq!(lower(&InterfaceValue::Int(5), InterfaceType::I32), Ok(InterfaceValue::I32(5)));
    assert_eq!(lower(&InterfaceValue::Any(-5), InterfaceType::I64), Ok(InterfaceValue::I64(-5)));
    assert_eq!(
        lower(&InterfaceValue::Int(1 << 40), InterfaceType::I32),
        Err(InstructionErrorKind::ValueOutOfRange { target: InterfaceType::I32 })
    );
    assert_eq!(
        lower(&InterfaceValue::String("x".to_string()), InterfaceType::I32),
        Err(InstructionErrorKind::TypeMismatch {
            expected: InterfaceType::I32,
            received: InterfaceType::String,
        })
    );
    assert_eq!(lower(&InterfaceValue::Float(7), InterfaceType::F64), Ok(InterfaceValue::F64(7)));
    assert_eq!(lift(&InterfaceValue::I32(-3), InterfaceType::Int), Ok(InterfaceValue::Int(-3)));
    assert_eq!(lift(&InterfaceValue::I64(9), InterfaceType::Any), Ok(InterfaceValue::Any(9)));
    assert_eq!(lift(&InterfaceValue::F64(1), InterfaceType::Float), Ok(InterfaceValue::Float(1)));
    assert_eq!(
        lift(&InterfaceValue::Int(1), InterfaceType::Any),
        Err(InstructionErrorKind::TypeMismatch {
            expected: InterfaceType::Any,
            received: InterfaceType::Int,
        })
    );
}

#[test]
fn as_wasm_on_the_stack() {
    let mut guest = Guest::new();
    let mut stack = vec![InterfaceValue::Int(8)];
    assert_eq!(
        execute(&Instruction::AsWasm(InterfaceType::I32), &vec![], &mut stack, &mut guest),
        Ok(())
    );
    assert_eq!(stack, vec![InterfaceValue::I32(8)]);
    assert_eq!(
        execute(&Instruction::AsInterface(InterfaceType::Int), &vec![], &mut stack, &mut guest),
        Ok(())
    );
    assert_eq!(stack, vec![InterfaceValue::Int(8)]);
}

#[test]
fn value_types() {
    assert!(values_have_types(
        &vec![InterfaceValue::I32(1), InterfaceValue::String("a".to_string())],
        &vec![InterfaceType::I32, InterfaceType::String]
    ));
    assert!(!values_have_types(&vec![InterfaceValue::I32(1)], &vec![]));
    assert_eq!(InterfaceValue::default(), InterfaceValue::I32(0));
    assert_eq!(InterfaceValue::F32(0).interface_type(), InterfaceType::F32);
}

#[test]
fn pure_adapter_fails_at_the_first_missing_input() {
    let mut guest = Guest::new();
    let instructions = vec![
        Instruction::ArgumentGet { index: 0 },
        Instruction::ArgumentGet { index: 3 },
        Instruction::ArgumentGet { index: 5 },
    ];
    let r = run(&instructions, &vec![InterfaceValue::I32(1)], &vec![], &mut guest);
    assert_eq!(
        r,
        Err(InstructionError {
            instruction_index: 1,
            stack_depth: 1,
            kind: InstructionErrorKind::InvocationInputIsMissing { index: 3 },
        })
    );
}

#[test]
fn pure_adapter_returns_its_stack() {
    let mut guest = Guest::new();
    let instructions = vec![
        Instruction::ArgumentGet { index: 1 },
        Instruction::AsInterface(InterfaceType::Int),
        Instruction::ArgumentGet { index: 0 },
    ];
    let inputs = vec![InterfaceValue::I64(4), InterfaceValue::I32(-2)];
    let r = run(&instructions, &inputs, &vec![InterfaceType::Int, InterfaceType::I64], &mut guest);
    assert_eq!(r, Ok(vec![InterfaceValue::Int(-2), InterfaceValue::I64(4)]));
    let r = run(&instructions, &inputs, &vec![InterfaceType::Int], &mut guest);
    assert_eq!(r.unwrap_err().kind, InstructionErrorKind::OutputMismatch);
}

#[test]
fn allocation_checks_results_and_bounds() {
    assert_eq!(allocator_arguments(&"Page".to_string()), Some(vec![InterfaceValue::I32(4)]));
    assert_eq!(allocation(&vec![InterfaceValue::I32(10)], Some(16), 4), Ok(10));
    assert_eq!(
        allocation(&vec![InterfaceValue::I32(14)], Some(16), 4),
        Err(InstructionErrorKind::MemoryOutOfBounds { address: 14, length: 4 })
    );
    assert_eq!(
        allocation(&vec![InterfaceValue::I64(1)], Some(16), 4),
        Err(InstructionErrorKind::ResultMismatch)
    );
    assert_eq!(allocation(&vec![], Some(16), 4), Err(InstructionErrorKind::ResultMismatch));
    assert_eq!(
        allocation(&vec![InterfaceValue::I32(0)], None, 4),
        Err(InstructionErrorKind::MemoryIsMissing { memory_index: 0 })
    );
}

#[test]
fn write_utf8_out_of_bounds_writes_nothing() {
    let mut guest = Guest::new();
    guest.next_free = 254;
    let before = guest.memory.clone();
    let mut stack = vec![InterfaceValue::String("Page".to_string())];
    let r = wasmer_wit::interpreter::write_utf8(&"alloc".to_string(), &mut stack, &mut guest);
    assert_eq!(r, Err(InstructionErrorKind::MemoryOutOfBounds { address: 254, length: 4 }));
    assert_eq!(guest.memory, before);
    assert_eq!(stack, vec![InterfaceValue::String("Page".to_string())]);
}
