//! What the Windows exception layer reports, turned into invocation
//! errors: the name of an exception code, and the classification of an
//! exception raised during a protected call.

use crate::text::{decimal, decimal_text};
use vstd::prelude::*;
use vstd::utf8::encode_utf8;

verus! {

pub const EXCEPTION_ACCESS_VIOLATION: u32 = 0xC000_0005;
pub const EXCEPTION_ARRAY_BOUNDS_EXCEEDED: u32 = 0xC000_008C;
pub const EXCEPTION_BREAKPOINT: u32 = 0x8000_0003;
pub const EXCEPTION_DATATYPE_MISALIGNMENT: u32 = 0x8000_0002;
pub const EXCEPTION_FLT_DENORMAL_OPERAND: u32 = 0xC000_008D;
pub const EXCEPTION_FLT_DIVIDE_BY_ZERO: u32 = 0xC000_008E;
pub const EXCEPTION_FLT_INEXACT_RESULT: u32 = 0xC000_008F;
pub const EXCEPTION_FLT_INVALID_OPERATION: u32 = 0xC000_0090;
pub const EXCEPTION_FLT_OVERFLOW: u32 = 0xC000_0091;
pub const EXCEPTION_FLT_STACK_CHECK: u32 = 0xC000_0092;
pub const EXCEPTION_FLT_UNDERFLOW: u32 = 0xC000_0093;
pub const EXCEPTION_GUARD_PAGE: u32 = 0x8000_0001;
pub const EXCEPTION_ILLEGAL_INSTRUCTION: u32 = 0xC000_001D;
pub const EXCEPTION_INT_DIVIDE_BY_ZERO: u32 = 0xC000_0094;
pub const EXCEPTION_INT_OVERFLOW: u32 = 0xC000_0095;
pub const EXCEPTION_INVALID_HANDLE: u32 = 0xC000_0008;
pub const EXCEPTION_IN_PAGE_ERROR: u32 = 0xC000_0006;
pub const EXCEPTION_NONCONTINUABLE_EXCEPTION: u32 = 0xC000_0025;
pub const EXCEPTION_POSSIBLE_DEADLOCK: u32 = 0xC000_0194;
pub const EXCEPTION_PRIV_INSTRUCTION: u32 = 0xC000_0096;
pub const EXCEPTION_SINGLE_STEP: u32 = 0x8000_0004;
pub const EXCEPTION_STACK_OVERFLOW: u32 = 0xC000_00FD;

/// The name of an exception code.
pub open spec fn signal_name(code: u32) -> Seq<char> {
    if code == EXCEPTION_FLT_DENORMAL_OPERAND || code == EXCEPTION_FLT_DIVIDE_BY_ZERO || code
        == EXCEPTION_FLT_INEXACT_RESULT || code == EXCEPTION_FLT_INVALID_OPERATION || code
        == EXCEPTION_FLT_OVERFLOW || code == EXCEPTION_FLT_STACK_CHECK || code
        == EXCEPTION_FLT_UNDERFLOW {
        "floating-point exception"@
    } else if code == EXCEPTION_ILLEGAL_INSTRUCTION {
        "illegal instruction"@
    } else if code == EXCEPTION_ACCESS_VIOLATION {
        "segmentation violation"@
    } else if code == EXCEPTION_DATATYPE_MISALIGNMENT {
        "datatype misalignment"@
    } else if code == EXCEPTION_BREAKPOINT {
        "breakpoint"@
    } else if code == EXCEPTION_SINGLE_STEP {
        "single step"@
    } else if code == EXCEPTION_ARRAY_BOUNDS_EXCEEDED {
        "array bounds exceeded"@
    } else if code == EXCEPTION_INT_DIVIDE_BY_ZERO {
        "integer division by zero"@
    } else if code == EXCEPTION_INT_OVERFLOW {
        "integer overflow"@
    } else if code == EXCEPTION_PRIV_INSTRUCTION {
        "privileged instruction"@
    } else if code == EXCEPTION_IN_PAGE_ERROR {
        "in page error"@
    } else if code == EXCEPTION_NONCONTINUABLE_EXCEPTION {
        "non continuable exception"@
    } else if code == EXCEPTION_STACK_OVERFLOW {
        "stack overflow"@
    } else if code == EXCEPTION_GUARD_PAGE {
        "guard page"@
    } else if code == EXCEPTION_INVALID_HANDLE {
        "invalid handle"@
    } else if code == EXCEPTION_POSSIBLE_DEADLOCK {
        "possible deadlock"@
    } else {
        "unknown exception code"@
    }
}

/// The name of an exception code.
pub fn get_signal_name(code: u32) -> (r: &'static str)
    ensures
        r@ == signal_name(code),
{
    if code == EXCEPTION_FLT_DENORMAL_OPERAND || code == EXCEPTION_FLT_DIVIDE_BY_ZERO || code
        == EXCEPTION_FLT_INEXACT_RESULT || code == EXCEPTION_FLT_INVALID_OPERATION || code
        == EXCEPTION_FLT_OVERFLOW || code == EXCEPTION_FLT_STACK_CHECK || code
        == EXCEPTION_FLT_UNDERFLOW {
        "floating-point exception"
    } else if code == EXCEPTION_ILLEGAL_INSTRUCTION {
        "illegal instruction"
    } else if code == EXCEPTION_ACCESS_VIOLATION {
        "segmentation violation"
    } else if code == EXCEPTION_DATATYPE_MISALIGNMENT {
        "datatype misalignment"
    } else if code == EXCEPTION_BREAKPOINT {
        "breakpoint"
    } else if code == EXCEPTION_SINGLE_STEP {
        "single step"
    } else if code == EXCEPTION_ARRAY_BOUNDS_EXCEEDED {
        "array bounds exceeded"
    } else if code == EXCEPTION_INT_DIVIDE_BY_ZERO {
        "integer division by zero"
    } else if code == EXCEPTION_INT_OVERFLOW {
        "integer overflow"
    } else if code == EXCEPTION_PRIV_INSTRUCTION {
        "privileged instruction"
    } else if code == EXCEPTION_IN_PAGE_ERROR {
        "in page error"
    } else if code == EXCEPTION_NONCONTINUABLE_EXCEPTION {
        "non continuable exception"
    } else if code == EXCEPTION_STACK_OVERFLOW {
        "stack overflow"
    } else if code == EXCEPTION_GUARD_PAGE {
        "guard page"
    } else if code == EXCEPTION_INVALID_HANDLE {
        "invalid handle"
    } else if code == EXCEPTION_POSSIBLE_DEADLOCK {
        "possible deadlock"
    } else {
        "unknown exception code"
    }
}

/// What the protected-call shim reports when an exception was raised.
#[derive(Clone, Copy, Debug, PartialEq, Eq, Structural)]
pub struct CallProtectedData {
    pub code: u64,
    pub exception_address: u64,
    pub instruction_pointer: u64,
}

/// The outcome of a protected call from the shim's status byte: `1` for
/// success, anything else for an exception described by `data`.
pub fn protected_outcome(status: u8, data: CallProtectedData) -> (r: Result<
    (),
    CallProtectedData,
>)
    ensures
        status == 1 ==> r is Ok,
        status != 1 ==> r == Err::<(), CallProtectedData>(data),
{
    if status == 1 {
        Ok(())
    } else {
        Err(data)
    }
}

/// Why compiled code trapped, as the code generator recorded it.
#[derive(Clone, Copy, Debug, PartialEq, Eq, Structural)]
pub enum TrapCode {
    StackOverflow,
    HeapOutOfBounds,
    TableOutOfBounds,
    IndirectCallToNull,
    BadSignature,
    IntegerOverflow,
    IntegerDivisionByZero,
    BadConversionToInteger,
    UnreachableCodeReached,
    Interrupt,
    User(u16),
}

/// What the code generator recorded at a trapping instruction.
#[derive(Clone, Copy, Debug, PartialEq, Eq, Structural)]
pub struct TrapData {
    pub trapcode: TrapCode,
    pub srcloc: u32,
}

/// The kinds of trap reported to the caller.
#[derive(Clone, Copy, Debug, PartialEq, Eq, Structural)]
pub enum ExceptionCode {
    Unreachable,
    IncorrectCallIndirectSignature,
    MemoryOutOfBounds,
    CallIndirectOOB,
    IllegalArithmetic,
    MisalignedAtomicAccess,
}

/// A failed invocation.
#[derive(Clone, Debug, PartialEq)]
pub enum InvokeError {
    /// An exception at no known trap site, with its name.
    UnknownTrap { address: u64, signal: &'static str },
    /// A trap of a known kind at a known site.
    TrapCode { code: ExceptionCode, srcloc: u32 },
    /// An illegal instruction at a site whose trap code has no kind.
    UnknownTrapCode { trap_code: String, srcloc: u32 },
}

/// The kind of trap that an exception at a known trap site stands for,
/// if any.
pub open spec fn exception_kind(code: u32, trapcode: TrapCode) -> Option<ExceptionCode> {
    if code == EXCEPTION_ACCESS_VIOLATION || code == EXCEPTION_STACK_OVERFLOW {
        Some(ExceptionCode::MemoryOutOfBounds)
    } else if code == EXCEPTION_INT_DIVIDE_BY_ZERO || code == EXCEPTION_INT_OVERFLOW {
        Some(ExceptionCode::IllegalArithmetic)
    } else if code == EXCEPTION_ILLEGAL_INSTRUCTION {
        match trapcode {
            TrapCode::BadSignature => Some(ExceptionCode::IncorrectCallIndirectSignature),
            TrapCode::IndirectCallToNull => Some(ExceptionCode::CallIndirectOOB),
            TrapCode::HeapOutOfBounds => Some(ExceptionCode::MemoryOutOfBounds),
            TrapCode::TableOutOfBounds => Some(ExceptionCode::CallIndirectOOB),
            TrapCode::UnreachableCodeReached => Some(ExceptionCode::Unreachable),
            _ => None,
        }
    } else {
        None
    }
}

/// Classifies an exception raised during a protected call, given what the
/// code generator recorded at the faulting instruction, if anything.
pub fn classify_exception(data: CallProtectedData, trap: Option<TrapData>) -> (r: InvokeError)
    ensures
        ({
            let code = data.code as u32;
            match trap {
                None => r matches InvokeError::UnknownTrap { address, signal } && address
                    == data.exception_address && signal@ == signal_name(code),
                Some(t) => match exception_kind(code, t.trapcode) {
                    Some(k) => r == (InvokeError::TrapCode { code: k, srcloc: t.srcloc }),
                    None => if code == EXCEPTION_ILLEGAL_INSTRUCTION {
                        r matches InvokeError::UnknownTrapCode { trap_code, srcloc } && srcloc
                            == t.srcloc && encode_utf8(trap_code@) == decimal_text(code as nat)
                    } else {
                        r matches InvokeError::UnknownTrap { address, signal } && address
                            == data.exception_address && signal@ == signal_name(code)
                    },
                },
            }
        }),
{
    let code = #[verifier::truncate] (data.code as u32);
    match trap {
        None => InvokeError::UnknownTrap {
            address: data.exception_address,
            signal: get_signal_name(code),
        },
        Some(t) => {
            let kind = if code == EXCEPTION_ACCESS_VIOLATION || code == EXCEPTION_STACK_OVERFLOW {
                Some(ExceptionCode::MemoryOutOfBounds)
            } else if code == EXCEPTION_INT_DIVIDE_BY_ZERO || code == EXCEPTION_INT_OVERFLOW {
                Some(ExceptionCode::IllegalArithmetic)
            } else if code == EXCEPTION_ILLEGAL_INSTRUCTION {
                match t.trapcode {
                    TrapCode::BadSignature => Some(ExceptionCode::IncorrectCallIndirectSignature),
                    TrapCode::IndirectCallToNull => Some(ExceptionCode::CallIndirectOOB),
                    TrapCode::HeapOutOfBounds => Some(ExceptionCode::MemoryOutOfBounds),
                    TrapCode::TableOutOfBounds => Some(ExceptionCode::CallIndirectOOB),
                    TrapCode::UnreachableCodeReached => Some(ExceptionCode::Unreachable),
                    _ => None,
                }
            } else {
                None
            };
            match kind {
                Some(k) => InvokeError::TrapCode { code: k, srcloc: t.srcloc },
                None => {
                    if code == EXCEPTION_ILLEGAL_INSTRUCTION {
                        InvokeError::UnknownTrapCode {
                            trap_code: decimal(code as u64),
                            srcloc: t.srcloc,
                        }
                    } else {
                        InvokeError::UnknownTrap {
                            address: data.exception_address,
                            signal: get_signal_name(code),
                        }
                    }
                },
            }
        },
    }
}

} // verus!
