use wasmer_wit::host::{
    core_values_of, interface_values_of,
    call_host, core_value_of, from_binary, interface_type_of, interface_value_of, invoke_outcome,
    read_binaries, to_binary, write_binaries, Ctx, FuncSig, RuntimeError, WasmTrapInfo, WasmType,
    WasmValue,
};
use wasmer_wit::ast::InterfaceType;
use wasmer_wit::imports::ImportObject;
use wasmer_wit::values::InterfaceValue;

fn sig(params: Vec<WasmType>, results: Vec<WasmType>) -> FuncSig {
    FuncSig { params, results }
}

fn ctx_with(first_byte: u8) -> Ctx {
    let mut memory = vec![0u8; 16];
    memory[0] = first_byte;
    Ctx { memories: vec![memory] }
}

fn identity(_: &Ctx, args: Vec<WasmValue>) -> Result<Vec<WasmValue>, String> {
    Ok(args)
}

#[test]
fn test_imports() {
    fn foo(_: &Ctx, args: Vec<WasmValue>) -> Result<Vec<WasmValue>, String> {
        Ok(args)
    }
    let mut imports = ImportObject::new();
    imports.register("env".to_string(), "foo".to_string(), sig(vec![WasmType::I32], vec![WasmType::I32]));
    let entry = imports.get(&"env".to_string(), &"foo".to_string()).unwrap();
    assert_eq!(entry.signature, sig(vec![WasmType::I32], vec![WasmType::I32]));
    let ctx = ctx_with(0);
    assert_eq!(call_host(&foo, &ctx, &entry.signature, &vec![5]), Ok::<Vec<u64>, RuntimeError<String>>(vec![5]));
}

#[test]
fn test_func_arity_0() {
    fn foo(_: &Ctx, _: Vec<WasmValue>) -> Result<Vec<WasmValue>, String> {
        Ok(vec![WasmValue::I32(0)])
    }
    let ctx = ctx_with(0);
    assert_eq!(call_host(&foo, &ctx, &sig(vec![], vec![WasmType::I32]), &vec![]), Ok(vec![0]));
}

#[test]
fn test_call() {
    let ctx = ctx_with(0);
    let s = sig(vec![WasmType::I32, WasmType::I32], vec![WasmType::I32, WasmType::I32]);
    assert_eq!(call_host(&identity, &ctx, &s, &vec![1, 2]), Ok(vec![1, 2]));
}

#[test]
fn host_call_matches_a_direct_call() {
    fn add(_: &Ctx, args: Vec<WasmValue>) -> Result<Vec<WasmValue>, String> {
        match (args[0], args[1]) {
            (WasmValue::I32(a), WasmValue::I32(b)) => Ok(vec![WasmValue::I32(a.wrapping_add(b))]),
            _ => Err("types".to_string()),
        }
    }
    let ctx = ctx_with(0);
    let s = sig(vec![WasmType::I32, WasmType::I32], vec![WasmType::I32]);
    let direct = add(&ctx, vec![WasmValue::I32(-3), WasmValue::I32(10)]).unwrap();
    let through = call_host(&add, &ctx, &s, &vec![to_binary(WasmValue::I32(-3)), 10]).unwrap();
    assert_eq!(read_binaries(&s.results, &through), direct);
}

#[test]
fn host_call_with_captured_environment() {
    let shift: i32 = 100;
    let callback_closure_with_env = move |ctx: &Ctx, args: Vec<WasmValue>| -> Result<Vec<WasmValue>, String> {
        let memory = ctx.memory(0).unwrap();
        match args[0] {
            WasmValue::I32(n) => Ok(vec![WasmValue::I32(shift + memory[0] as i32 + n + 1)]),
            _ => Err("type".to_string()),
        }
    };
    let ctx = ctx_with(10);
    let s = sig(vec![WasmType::I32], vec![WasmType::I32]);
    assert_eq!(call_host(&callback_closure_with_env, &ctx, &s, &vec![1]), Ok(vec![112]));
    assert_eq!(call_host(&callback_closure_with_env, &ctx, &s, &vec![1]), Ok(vec![112]));
}

#[test]
fn guest_context_shows_earlier_writes() {
    let read_first = |ctx: &Ctx, _: Vec<WasmValue>| -> Result<Vec<WasmValue>, String> {
        Ok(vec![WasmValue::I32(ctx.memory(0).unwrap()[0] as i32)])
    };
    let mut ctx = ctx_with(1);
    let s = sig(vec![], vec![WasmType::I32]);
    assert_eq!(call_host(&read_first, &ctx, &s, &vec![]), Ok(vec![1]));
    ctx.memories[0][0] = 42;
    assert_eq!(call_host(&read_first, &ctx, &s, &vec![]), Ok(vec![42]));
}

#[test]
fn host_error_becomes_a_user_error() {
    let fails = |_: &Ctx, _: Vec<WasmValue>| -> Result<Vec<WasmValue>, String> { Err("foo 2".to_string()) };
    let ctx = ctx_with(0);
    let s = sig(vec![WasmType::I32], vec![WasmType::I32]);
    assert_eq!(
        call_host(&fails, &ctx, &s, &vec![1]),
        Err(RuntimeError::User { data: "foo 2".to_string() })
    );
}

#[test]
fn invocation_outcomes() {
    let r: Result<Vec<WasmValue>, RuntimeError<String>> =
        invoke_outcome(true, &vec![u64::MAX, 7], &vec![WasmType::I32, WasmType::I64], WasmTrapInfo::Unknown, None);
    assert_eq!(r, Ok(vec![WasmValue::I32(-1), WasmValue::I64(7)]));
    let r = invoke_outcome(false, &vec![], &vec![], WasmTrapInfo::Unknown, Some("foo".to_string()));
    assert_eq!(r, Err(RuntimeError::User { data: "foo".to_string() }));
    let r: Result<Vec<WasmValue>, RuntimeError<String>> =
        invoke_outcome(false, &vec![], &vec![], WasmTrapInfo::MemoryOutOfBounds, None);
    assert_eq!(r, Err(RuntimeError::Trap { msg: "memory out-of-bounds access".to_string() }));
}

#[test]
fn trap_messages() {
    assert_eq!(WasmTrapInfo::Unreachable.message(), "unreachable");
    assert_eq!(WasmTrapInfo::IncorrectCallIndirectSignature.message(), "incorrect `call_indirect` signature");
    assert_eq!(WasmTrapInfo::CallIndirectOOB.message(), "`call_indirect` out-of-bounds");
    assert_eq!(WasmTrapInfo::IllegalArithmetic.message(), "illegal arithmetic operation");
    assert_eq!(WasmTrapInfo::MisalignedAtomicAccess.message(), "misaligned atomic access");
    assert_eq!(WasmTrapInfo::Unknown.message(), "unknown");
}

#[test]
fn abi_slots() {
    assert_eq!(to_binary(WasmValue::I32(-1)), u64::MAX);
    assert_eq!(to_binary(WasmValue::F32(0x3f80_0000)), 0x3f80_0000);
    assert_eq!(from_binary(WasmType::I32, 0x1_0000_0005), WasmValue::I32(5));
    assert_eq!(from_binary(WasmType::I64, u64::MAX), WasmValue::I64(-1));
    let vs = vec![WasmValue::I32(-7), WasmValue::I64(-8), WasmValue::F32(9), WasmValue::F64(10)];
    let ts = vec![WasmType::I32, WasmType::I64, WasmType::F32, WasmType::F64];
    assert_eq!(read_binaries(&ts, &write_binaries(&vs)), vs);
}

#[test]
fn core_and_interface_values() {
    assert_eq!(interface_type_of(WasmType::F64), InterfaceType::F64);
    assert_eq!(interface_value_of(WasmValue::I64(3)), InterfaceValue::I64(3));
    assert_eq!(core_value_of(&InterfaceValue::I32(3)), Some(WasmValue::I32(3)));
    assert_eq!(core_value_of(&InterfaceValue::Int(3)), None);
}

#[test]
fn registering_twice_replaces() {
    let mut imports = ImportObject::new();
    imports.register("env".to_string(), "f".to_string(), sig(vec![], vec![]));
    imports.register("env".to_string(), "f".to_string(), sig(vec![WasmType::I64], vec![]));
    assert_eq!(imports.get(&"env".to_string(), &"f".to_string()).unwrap().signature.params, vec![WasmType::I64]);
    assert!(imports.get(&"env".to_string(), &"g".to_string()).is_none());
}

#[test]
fn core_values_of_vectors() {
    let args = vec![InterfaceValue::I32(1), InterfaceValue::F64(2)];
    assert_eq!(core_values_of(&args), Some(vec![WasmValue::I32(1), WasmValue::F64(2)]));
    assert_eq!(core_values_of(&vec![InterfaceValue::I32(1), InterfaceValue::Int(2)]), None);
    assert_eq!(interface_values_of(&vec![WasmValue::I64(7)]), vec![InterfaceValue::I64(7)]);
}
