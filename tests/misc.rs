use wasmer_wit::capi::{
    valtype_vec, wasm_functype_copy, wasm_functype_new, wasm_functype_params,
    wasm_functype_results, wasm_functype_t, FunctionType, ValType, WasmFunctionType,
};
use wasmer_wit::kernel::{close_message, on_word, Action, CloseReason, Session, CMD_READ_MEMORY, CMD_RUN_CODE, CMD_WRITE_MEMORY};
use wasmer_wit::own::{Own, Owned};
use wasmer_wit::signals::{
    classify_exception, get_signal_name, protected_outcome, CallProtectedData, ExceptionCode,
    InvokeError, TrapCode, TrapData,
};

#[test]
fn session_decisions() {
    assert_eq!(on_word(Session::BinarySize, 16 * 1048576 + 1), (Session::Closed, Action::Close { reason: CloseReason::BinaryTooLarge }));
    assert_eq!(on_word(Session::BinarySize, 8), (Session::Command, Action::LoadBinary { size: 8 }));
    assert_eq!(on_word(Session::Command, CMD_RUN_CODE), (Session::NameLength, Action::ReadWord));
    assert_eq!(on_word(Session::NameLength, 33), (Session::Closed, Action::Close { reason: CloseReason::FunctionNameTooLong }));
    assert_eq!(on_word(Session::NameLength, 4), (Session::ArgumentCount, Action::ReadFunctionName { length: 4 }));
    assert_eq!(on_word(Session::ArgumentCount, 1), (Session::Closed, Action::Close { reason: CloseReason::TooManyArguments }));
    assert_eq!(on_word(Session::ArgumentCount, 0), (Session::Command, Action::RunFunction));
    assert_eq!(on_word(Session::Command, CMD_READ_MEMORY), (Session::ReadOffset, Action::ReadWord));
    assert_eq!(on_word(Session::ReadOffset, 64), (Session::ReadLength { offset: 64 }, Action::ReadWord));
    assert_eq!(on_word(Session::ReadLength { offset: 64 }, 4), (Session::Command, Action::ReadMemory { offset: 64, length: 4 }));
    assert_eq!(on_word(Session::Command, CMD_WRITE_MEMORY), (Session::WriteOffset, Action::ReadWord));
    assert_eq!(on_word(Session::WriteLength { offset: 1 }, 16 * 1048576 + 1), (Session::Closed, Action::Close { reason: CloseReason::MemorySizeTooLarge }));
    assert_eq!(on_word(Session::Command, 7), (Session::Closed, Action::Close { reason: CloseReason::UnknownCommand }));
    assert_eq!(close_message(CloseReason::UnknownCommand), "Unknown command");
}

#[test]
fn signal_names() {
    assert_eq!(get_signal_name(0xC000_0005), "segmentation violation");
    assert_eq!(get_signal_name(0xC000_0091), "floating-point exception");
    assert_eq!(get_signal_name(0xC000_00FD), "stack overflow");
    assert_eq!(get_signal_name(1), "unknown exception code");
}

#[test]
fn exception_classification() {
    let data = |code: u64| CallProtectedData { code, exception_address: 0x1000, instruction_pointer: 0x2000 };
    assert_eq!(protected_outcome(1, data(0)), Ok(()));
    assert_eq!(protected_outcome(0, data(5)), Err(data(5)));
    assert_eq!(
        classify_exception(data(0xC000_0005), None),
        InvokeError::UnknownTrap { address: 0x1000, signal: "segmentation violation" }
    );
    let site = |trapcode: TrapCode| Some(TrapData { trapcode, srcloc: 3 });
    assert_eq!(
        classify_exception(data(0xC000_0005), site(TrapCode::Interrupt)),
        InvokeError::TrapCode { code: ExceptionCode::MemoryOutOfBounds, srcloc: 3 }
    );
    assert_eq!(
        classify_exception(data(0xC000_001D), site(TrapCode::BadSignature)),
        InvokeError::TrapCode { code: ExceptionCode::IncorrectCallIndirectSignature, srcloc: 3 }
    );
    assert_eq!(
        classify_exception(data(0xC000_001D), site(TrapCode::UnreachableCodeReached)),
        InvokeError::TrapCode { code: ExceptionCode::Unreachable, srcloc: 3 }
    );
    assert_eq!(
        classify_exception(data(0xC000_0094), site(TrapCode::Interrupt)),
        InvokeError::TrapCode { code: ExceptionCode::IllegalArithmetic, srcloc: 3 }
    );
    assert_eq!(
        classify_exception(data(0xC000_001D), site(TrapCode::StackOverflow)),
        InvokeError::UnknownTrapCode { trap_code: "3221225501".to_string(), srcloc: 3 }
    );
    assert_eq!(
        classify_exception(data(0x8000_0003), site(TrapCode::StackOverflow)),
        InvokeError::UnknownTrap { address: 0x1000, signal: "breakpoint" }
    );
}

#[test]
fn function_types_through_the_c_api() {
    let ft = FunctionType { params: vec![ValType::I32, ValType::F64], results: vec![ValType::I64] };
    let w = WasmFunctionType::new(ft.clone());
    assert_eq!(w.function_type, ft);
    let t = wasm_functype_t::new(ft.clone());
    assert_eq!(t.inner().function_type, ft);
    let params = wasm_functype_params(Some(&t)).unwrap();
    assert_eq!(params.data.iter().map(|v| v.valkind).collect::<Vec<_>>(), vec![ValType::I32, ValType::F64]);
    let results = wasm_functype_results(Some(&t)).unwrap();
    assert_eq!(results.data.len(), 1);
    let copy = wasm_functype_copy(Some(&t)).unwrap();
    assert_eq!(copy.inner().function_type, ft);
    assert!(wasm_functype_copy(None).is_none());
    let made = wasm_functype_new(
        Some(Own::new(valtype_vec(&vec![ValType::FuncRef]))),
        Some(Own::new(valtype_vec(&vec![]))),
    )
    .unwrap();
    assert_eq!(made.inner().function_type.params, vec![ValType::FuncRef]);
    assert!(wasm_functype_new(None, Some(Own::new(valtype_vec(&vec![])))).is_none());
}

struct Counter {
    deleted: bool,
}

impl Owned for Counter {
    fn delete(&mut self) {
        self.deleted = true;
    }
}

#[test]
fn owned_values() {
    let own = Own::new(Counter { deleted: false });
    assert!(!own.as_ref().deleted);
    Own::drop_value(own);
}
