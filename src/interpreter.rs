//! The adapter interpreter: a stack machine over interface values that
//! runs an adapter's instructions against an instance, which provides the
//! exported functions, the imported functions and the memories.
//!
//! Memory writes that happen before a failing instruction are not rolled
//! back; an instruction that fails on its operands changes neither the
//! stack nor memory.

use crate::ast::{Instruction, InterfaceType};
use crate::strings::string_from_utf8;
use crate::values::{types_of, values_have_types, InterfaceValue};
use vstd::prelude::*;
use vstd::utf8::{decode_utf8, encode_utf8, valid_utf8};

verus! {

/// The input and output types of a callable function.
pub struct Signature {
    pub inputs: Vec<InterfaceType>,
    pub outputs: Vec<InterfaceType>,
}

/// What the interpreter runs against. The interpreter holds the instance
/// exclusively for the duration of a run.
pub trait Instance {
    /// The signature of the exported function `name`, if there is one.
    fn export(&self, name: &String) -> Option<Signature>;

    /// Calls the exported function `name`.
    fn call_export(&mut self, name: &String, arguments: &Vec<InterfaceValue>) -> Result<
        Vec<InterfaceValue>,
        (),
    >;

    /// The signature of the local or imported function `index`, if there
    /// is one; an instance may build it on first use.
    fn local_or_import(&mut self, index: u64) -> Option<Signature>;

    /// Calls the local or imported function `index`.
    fn call_local_or_import(&mut self, index: u64, arguments: &Vec<InterfaceValue>) -> Result<
        Vec<InterfaceValue>,
        (),
    >;

    /// The bytes of memory `index`, if there is such a memory.
    fn memory(&self, index: usize) -> Option<&Vec<u8>>;

    /// Stores `bytes` into memory `index` at `offset`. The interpreter
    /// calls it only on a range that lies within the memory.
    fn write_memory(&mut self, index: usize, offset: usize, bytes: &[u8]);
}

/// Why an instruction failed.
#[derive(Clone, Debug, PartialEq)]
pub enum InstructionErrorKind {
    /// `arg.get` names an input that the invocation lacks.
    InvocationInputIsMissing { index: u64 },
    /// The stack holds fewer values than the instruction pops.
    StackIsTooSmall { needed: usize },
    /// A value does not have the expected type.
    TypeMismatch { expected: InterfaceType, received: InterfaceType },
    /// A value does not fit the target type of a conversion.
    ValueOutOfRange { target: InterfaceType },
    /// The instance has no memory of that index.
    MemoryIsMissing { memory_index: usize },
    /// A memory range reaches past the end of memory.
    MemoryOutOfBounds { address: u64, length: u64 },
    /// The bytes read from memory are not UTF-8.
    InvalidUtf8 { address: u64, length: u64 },
    /// The instance exports no function of that name.
    ExportIsMissing { name: String },
    /// The instance has no local or imported function of that index.
    LocalOrImportIsMissing { function_index: u64 },
    /// The called function failed.
    CallFailed,
    /// The called function returned values that its signature does not
    /// declare.
    ResultMismatch,
    /// The instruction has no semantics yet.
    UnimplementedInstruction,
    /// After the last instruction the stack does not hold exactly the
    /// declared outputs.
    OutputMismatch,
}

/// A failed run: where it failed, how deep the stack was, and why.
#[derive(Clone, Debug, PartialEq)]
pub struct InstructionError {
    pub instruction_index: usize,
    pub stack_depth: usize,
    pub kind: InstructionErrorKind,
}

/// `arg.get index`: pushes a copy of the input `index`.
pub fn argument_get(
    index: u64,
    invocation_inputs: &Vec<InterfaceValue>,
    stack: &mut Vec<InterfaceValue>,
) -> (r: Result<(), InstructionErrorKind>)
    ensures
        index < invocation_inputs@.len() ==> r is Ok && final(stack)@ == old(stack)@.push(
            invocation_inputs@[index as int],
        ),
        index >= invocation_inputs@.len() ==> r == Err::<(), InstructionErrorKind>(
            InstructionErrorKind::InvocationInputIsMissing { index },
        ) && final(stack)@ == old(stack)@,
{
    if index >= invocation_inputs.len() as u64 {
        return Err(InstructionErrorKind::InvocationInputIsMissing { index });
    }
    let v = invocation_inputs[index as usize].duplicate();
    stack.push(v);
    Ok(())
}

/// Pops the top `types.len()` values, which must have those types, first
/// type deepest.
pub fn pop_arguments(stack: &mut Vec<InterfaceValue>, types: &Vec<InterfaceType>) -> (r: Result<
    Vec<InterfaceValue>,
    InstructionErrorKind,
>)
    ensures
        ({
            let k = types@.len();
            let n = old(stack)@.len();
            let top = old(stack)@.subrange(n - k, n as int);
            &&& k > n ==> r == Err::<Vec<InterfaceValue>, InstructionErrorKind>(
                InstructionErrorKind::StackIsTooSmall { needed: types@.len() as usize },
            )
            &&& k <= n && types_of(top) != types@ ==> (r matches Err(
                InstructionErrorKind::TypeMismatch { expected, received },
            ) && expected != received)
            &&& k <= n && types_of(top) == types@ ==> (r matches Ok(args) && args@ == top
                && final(stack)@ == old(stack)@.subrange(0, n - k))
            &&& r is Err ==> final(stack)@ == old(stack)@
        }),
{
    let k = types.len();
    let n = stack.len();
    if k > n {
        return Err(InstructionErrorKind::StackIsTooSmall { needed: k });
    }
    let mut i: usize = 0;
    while i < k
        invariant
            k == types@.len(),
            n == stack@.len(),
            k <= n,
            i <= k,
            forall|j: int| 0 <= j < i ==> #[trigger] stack@[n - k + j].spec_type() == types@[j],
        decreases k - i,
    {
        let received = stack[n - k + i].interface_type();
        if received != types[i] {
            return Err(InstructionErrorKind::TypeMismatch { expected: types[i], received });
        }
        i += 1;
    }
    let ghost before = stack@;
    let args = stack.split_off(n - k);
    assert forall|j: int| 0 <= j < k implies types_of(args@)[j] == types@[j] by {
        assert(args@[j] == before[n - k + j]);
    }
    assert(types_of(args@) =~= types@);
    Ok(args)
}

/// Pushes the values returned by a call, which must have the declared
/// output types.
pub fn push_results(
    stack: &mut Vec<InterfaceValue>,
    results: Vec<InterfaceValue>,
    outputs: &Vec<InterfaceType>,
) -> (r: Result<(), InstructionErrorKind>)
    ensures
        types_of(results@) == outputs@ ==> r is Ok && final(stack)@ == old(stack)@ + results@,
        types_of(results@) != outputs@ ==> r == Err::<(), InstructionErrorKind>(
            InstructionErrorKind::ResultMismatch,
        ) && final(stack)@ == old(stack)@,
{
    if !values_have_types(&results, outputs) {
        return Err(InstructionErrorKind::ResultMismatch);
    }
    let mut results = results;
    stack.append(&mut results);
    Ok(())
}

/// The address or length that an `i32` stands for: its bits, unsigned.
pub open spec fn unsigned(n: i32) -> u64 {
    (n as u32) as u64
}

/// `read-utf8` against the bytes of memory 0: pops a length, then a
/// pointer, and pushes the string stored there.
pub fn read_utf8(stack: &mut Vec<InterfaceValue>, memory: Option<&Vec<u8>>) -> (r: Result<
    (),
    InstructionErrorKind,
>)
    ensures
        r is Err ==> final(stack)@ == old(stack)@,
        old(stack)@.len() < 2 ==> r == Err::<(), InstructionErrorKind>(
            InstructionErrorKind::StackIsTooSmall { needed: 2 },
        ),
        r is Ok <==> ({
            let n = old(stack)@.len();
            &&& n >= 2
            &&& old(stack)@[n - 1] matches InterfaceValue::I32(len)
            &&& old(stack)@[n - 2] matches InterfaceValue::I32(ptr)
            &&& memory matches Some(m)
            &&& unsigned(ptr) + unsigned(len) <= m@.len()
            &&& valid_utf8(m@.subrange(unsigned(ptr) as int, unsigned(ptr) + unsigned(len)))
        }),
        r is Ok ==> ({
            let n = old(stack)@.len();
            let ptr = unsigned(old(stack)@[n - 2]->I32_0);
            let len = unsigned(old(stack)@[n - 1]->I32_0);
            &&& final(stack)@.len() == n - 1
            &&& final(stack)@.subrange(0, n - 2) == old(stack)@.subrange(0, n - 2)
            &&& final(stack)@[n - 2] matches InterfaceValue::String(s) && s@ == decode_utf8(
                memory->0@.subrange(ptr as int, ptr + len),
            )
        }),
        ({
            let n = old(stack)@.len();
            &&& n >= 2
            &&& old(stack)@[n - 1] matches InterfaceValue::I32(len)
            &&& old(stack)@[n - 2] matches InterfaceValue::I32(ptr)
            &&& memory matches Some(m)
            &&& unsigned(ptr) + unsigned(len) > m@.len()
        }) ==> r == Err::<(), InstructionErrorKind>(
            InstructionErrorKind::MemoryOutOfBounds {
                address: unsigned(old(stack)@[old(stack)@.len() - 2]->I32_0),
                length: unsigned(old(stack)@[old(stack)@.len() - 1]->I32_0),
            },
        ),
{
    let n = stack.len();
    if n < 2 {
        return Err(InstructionErrorKind::StackIsTooSmall { needed: 2 });
    }
    let len = match &stack[n - 1] {
        InterfaceValue::I32(v) => (*v as u32) as u64,
        other => {
            return Err(
                InstructionErrorKind::TypeMismatch {
                    expected: InterfaceType::I32,
                    received: other.interface_type(),
                },
            )
        },
    };
    let ptr = match &stack[n - 2] {
        InterfaceValue::I32(v) => (*v as u32) as u64,
        other => {
            return Err(
                InstructionErrorKind::TypeMismatch {
                    expected: InterfaceType::I32,
                    received: other.interface_type(),
                },
            )
        },
    };
    let m = match memory {
        Some(m) => m,
        None => return Err(InstructionErrorKind::MemoryIsMissing { memory_index: 0 }),
    };
    if ptr + len > m.len() as u64 {
        return Err(InstructionErrorKind::MemoryOutOfBounds { address: ptr, length: len });
    }
    let s = match string_from_utf8(&m.as_slice()[ptr as usize..(ptr + len) as usize]) {
        Some(s) => s,
        None => return Err(InstructionErrorKind::InvalidUtf8 { address: ptr, length: len }),
    };
    stack.pop();
    stack.pop();
    stack.push(InterfaceValue::String(s));
    Ok(())
}

/// `as-wasm t`: lowers an interface value to the core type `t`. Integers
/// and references narrow to `i32` when they fit and widen to `i64`;
/// floats keep their bits; a value of type `t` stays as it is.
pub open spec fn lower_spec(v: InterfaceValue, t: InterfaceType) -> Result<
    InterfaceValue,
    InstructionErrorKind,
> {
    let mismatch = Err(InstructionErrorKind::TypeMismatch { expected: t, received: v.spec_type() });
    match t {
        InterfaceType::I32 => match v {
            InterfaceValue::Int(n) => if i32::MIN <= n <= i32::MAX {
                Ok(InterfaceValue::I32(n as i32))
            } else {
                Err(InstructionErrorKind::ValueOutOfRange { target: t })
            },
            InterfaceValue::Any(n) => if i32::MIN <= n <= i32::MAX {
                Ok(InterfaceValue::I32(n as i32))
            } else {
                Err(InstructionErrorKind::ValueOutOfRange { target: t })
            },
            InterfaceValue::I32(n) => Ok(InterfaceValue::I32(n)),
            _ => mismatch,
        },
        InterfaceType::I64 => match v {
            InterfaceValue::Int(n) => Ok(InterfaceValue::I64(n as i64)),
            InterfaceValue::Any(n) => Ok(InterfaceValue::I64(n as i64)),
            InterfaceValue::I64(n) => Ok(InterfaceValue::I64(n)),
            _ => mismatch,
        },
        InterfaceType::F32 => match v {
            InterfaceValue::F32(b) => Ok(InterfaceValue::F32(b)),
            _ => mismatch,
        },
        InterfaceType::F64 => match v {
            InterfaceValue::Float(b) => Ok(InterfaceValue::F64(b)),
            InterfaceValue::F64(b) => Ok(InterfaceValue::F64(b)),
            _ => mismatch,
        },
        _ => mismatch,
    }
}

/// `as-interface t`: lifts a core value to the interface type `t`, the
/// inverse projection of `lower_spec`.
pub open spec fn lift_spec(v: InterfaceValue, t: InterfaceType) -> Result<
    InterfaceValue,
    InstructionErrorKind,
> {
    let mismatch = Err(InstructionErrorKind::TypeMismatch { expected: t, received: v.spec_type() });
    match t {
        InterfaceType::Int => match v {
            InterfaceValue::I32(n) => Ok(InterfaceValue::Int(n as isize)),
            InterfaceValue::I64(n) => if isize::MIN <= n <= isize::MAX {
                Ok(InterfaceValue::Int(n as isize))
            } else {
                Err(InstructionErrorKind::ValueOutOfRange { target: t })
            },
            InterfaceValue::Int(n) => Ok(InterfaceValue::Int(n)),
            _ => mismatch,
        },
        InterfaceType::Any => match v {
            InterfaceValue::I32(n) => Ok(InterfaceValue::Any(n as isize)),
            InterfaceValue::I64(n) => if isize::MIN <= n <= isize::MAX {
                Ok(InterfaceValue::Any(n as isize))
            } else {
                Err(InstructionErrorKind::ValueOutOfRange { target: t })
            },
            InterfaceValue::Any(n) => Ok(InterfaceValue::Any(n)),
            _ => mismatch,
        },
        InterfaceType::Float => match v {
            InterfaceValue::F64(b) => Ok(InterfaceValue::Float(b)),
            InterfaceValue::Float(b) => Ok(InterfaceValue::Float(b)),
            _ => mismatch,
        },
        _ => mismatch,
    }
}

/// Lowers a value to a core type.
pub fn lower(v: &InterfaceValue, t: InterfaceType) -> (r: Result<
    InterfaceValue,
    InstructionErrorKind,
>)
    ensures
        r == lower_spec(*v, t),
{
    let mismatch = Err(
        InstructionErrorKind::TypeMismatch { expected: t, received: v.interface_type() },
    );
    match t {
        InterfaceType::I32 => match v {
            InterfaceValue::Int(n) | InterfaceValue::Any(n) => {
                if i32::MIN as isize <= *n && *n <= i32::MAX as isize {
                    Ok(InterfaceValue::I32(*n as i32))
                } else {
                    Err(InstructionErrorKind::ValueOutOfRange { target: t })
                }
            },
            InterfaceValue::I32(n) => Ok(InterfaceValue::I32(*n)),
            _ => mismatch,
        },
        InterfaceType::I64 => match v {
            InterfaceValue::Int(n) | InterfaceValue::Any(n) => Ok(InterfaceValue::I64(*n as i64)),
            InterfaceValue::I64(n) => Ok(InterfaceValue::I64(*n)),
            _ => mismatch,
        },
        InterfaceType::F32 => match v {
            InterfaceValue::F32(b) => Ok(InterfaceValue::F32(*b)),
            _ => mismatch,
        },
        InterfaceType::F64 => match v {
            InterfaceValue::Float(b) | InterfaceValue::F64(b) => Ok(InterfaceValue::F64(*b)),
            _ => mismatch,
        },
        _ => mismatch,
    }
}

/// Lifts a core value to an interface type.
pub fn lift(v: &InterfaceValue, t: InterfaceType) -> (r: Result<
    InterfaceValue,
    InstructionErrorKind,
>)
    ensures
        r == lift_spec(*v, t),
{
    let mismatch = Err(
        InstructionErrorKind::TypeMismatch { expected: t, received: v.interface_type() },
    );
    match t {
        InterfaceType::Int | InterfaceType::Any => {
            let n: isize = match v {
                InterfaceValue::I32(n) => *n as isize,
                InterfaceValue::I64(n) => {
                    if isize::MIN as i64 <= *n && *n <= isize::MAX as i64 {
                        *n as isize
                    } else {
                        return Err(InstructionErrorKind::ValueOutOfRange { target: t });
                    }
                },
                InterfaceValue::Int(n) => {
                    if t == InterfaceType::Int {
                        *n
                    } else {
                        return mismatch;
                    }
                },
                InterfaceValue::Any(n) => {
                    if t == InterfaceType::Any {
                        *n
                    } else {
                        return mismatch;
                    }
                },
                _ => return mismatch,
            };
            if t == InterfaceType::Int {
                Ok(InterfaceValue::Int(n))
            } else {
                Ok(InterfaceValue::Any(n))
            }
        },
        InterfaceType::Float => match v {
            InterfaceValue::F64(b) | InterfaceValue::Float(b) => Ok(InterfaceValue::Float(*b)),
            _ => mismatch,
        },
        _ => mismatch,
    }
}

/// Replaces the top of the stack by its conversion: `lower_spec` for
/// `as-wasm`, `lift_spec` for `as-interface`.
fn convert_top(stack: &mut Vec<InterfaceValue>, t: InterfaceType, lowering: bool) -> (r: Result<
    (),
    InstructionErrorKind,
>)
    ensures
        old(stack)@.len() == 0 ==> r == Err::<(), InstructionErrorKind>(
            InstructionErrorKind::StackIsTooSmall { needed: 1 },
        ) && final(stack)@ == old(stack)@,
        old(stack)@.len() > 0 ==> ({
            let n = old(stack)@.len();
            let c = if lowering {
                lower_spec(old(stack)@[n - 1], t)
            } else {
                lift_spec(old(stack)@[n - 1], t)
            };
            match c {
                Ok(v) => r is Ok && final(stack)@ == old(stack)@.subrange(0, n - 1).push(v),
                Err(k) => r == Err::<(), InstructionErrorKind>(k) && final(stack)@ == old(
                    stack,
                )@,
            }
        }),
{
    let n = stack.len();
    if n == 0 {
        return Err(InstructionErrorKind::StackIsTooSmall { needed: 1 });
    }
    let c = if lowering {
        lower(&stack[n - 1], t)
    } else {
        lift(&stack[n - 1], t)
    };
    match c {
        Ok(v) => {
            stack.pop();
            stack.push(v);
            Ok(())
        },
        Err(k) => Err(k),
    }
}

/// The arguments handed to the allocator for a string: its UTF-8 length as
/// an `i32` whose bits are the length; `None` when the length does not fit
/// 32 bits.
pub fn allocator_arguments(s: &String) -> (r: Option<Vec<InterfaceValue>>)
    ensures
        encode_utf8(s@).len() > u32::MAX ==> r is None,
        encode_utf8(s@).len() <= u32::MAX ==> (r matches Some(args) && (args@.len() == 1
            && (args@[0] matches InterfaceValue::I32(len) && unsigned(len) == encode_utf8(
            s@,
        ).len()))),
{
    let len = s.as_str().as_bytes().len();
    if len > u32::MAX as usize {
        return None;
    }
    let len_u32 = len as u32;
    let len32 = #[verifier::truncate] (len_u32 as i32);
    assert((len32 as u32) == len_u32) by (bit_vector)
        requires
            len32 == len_u32 as i32,
    ;
    Some(vec![InterfaceValue::I32(len32)])
}

/// What the allocator's results make of a block of `length` bytes: the
/// pointer, when it returned exactly one `i32` and the block lies within a
/// memory of `memory_size` bytes.
pub open spec fn allocation_spec(
    results: Seq<InterfaceValue>,
    memory_size: Option<usize>,
    length: u64,
) -> Result<i32, InstructionErrorKind> {
    if results.len() != 1 || !(results[0] is I32) {
        Err(InstructionErrorKind::ResultMismatch)
    } else {
        let ptr = results[0]->I32_0;
        match memory_size {
            None => Err(InstructionErrorKind::MemoryIsMissing { memory_index: 0 }),
            Some(size) => if unsigned(ptr) + length > size {
                Err(InstructionErrorKind::MemoryOutOfBounds { address: unsigned(ptr), length })
            } else {
                Ok(ptr)
            },
        }
    }
}

/// Checks what the allocator returned against the memory.
pub fn allocation(results: &Vec<InterfaceValue>, memory_size: Option<usize>, length: u64) -> (r:
    Result<i32, InstructionErrorKind>)
    ensures
        r == allocation_spec(results@, memory_size, length),
{
    if results.len() != 1 {
        return Err(InstructionErrorKind::ResultMismatch);
    }
    let ptr = match &results[0] {
        InterfaceValue::I32(p) => *p,
        _ => return Err(InstructionErrorKind::ResultMismatch),
    };
    let address = (#[verifier::truncate] (ptr as u32)) as u64;
    match memory_size {
        None => Err(InstructionErrorKind::MemoryIsMissing { memory_index: 0 }),
        Some(size) => {
            if length > size as u64 || address > size as u64 - length {
                Err(InstructionErrorKind::MemoryOutOfBounds { address, length })
            } else {
                Ok(ptr)
            }
        },
    }
}

/// `write-utf8 allocator`: pops a string, calls the exported allocator with
/// the arguments of `allocator_arguments`, checks its results with
/// `allocation`, stores the bytes at the pointer, and pushes the pointer
/// and the length. The memory is written only when `allocation` accepts.
pub fn write_utf8<I: Instance>(
    allocator_name: &String,
    stack: &mut Vec<InterfaceValue>,
    instance: &mut I,
) -> (r: Result<(), InstructionErrorKind>)
    ensures
        r is Err ==> final(stack)@ == old(stack)@,
        old(stack)@.len() == 0 ==> r == Err::<(), InstructionErrorKind>(
            InstructionErrorKind::StackIsTooSmall { needed: 1 },
        ),
        old(stack)@.len() > 0 && !(old(stack)@[old(stack)@.len() - 1] is String) ==> r == Err::<
            (),
            InstructionErrorKind,
        >(
            InstructionErrorKind::TypeMismatch {
                expected: InterfaceType::String,
                received: old(stack)@[old(stack)@.len() - 1].spec_type(),
            },
        ),
        r is Ok ==> ({
            let n = old(stack)@.len();
            let s = old(stack)@[n - 1]->String_0;
            let len = encode_utf8(s@).len();
            &&& final(stack)@.len() == n + 1
            &&& final(stack)@.subrange(0, n - 1) == old(stack)@.subrange(0, n - 1)
            &&& final(stack)@[n as int] matches InterfaceValue::I32(l) && unsigned(l) == len
            &&& final(stack)@[n - 1] matches InterfaceValue::I32(ptr) && (exists|
                results: Seq<InterfaceValue>,
                size: usize,
            | #[trigger] allocation_spec(results, Some(size), len as u64) == Ok::<i32, InstructionErrorKind>(
                ptr,
            ))
        }),
{
    let n = stack.len();
    if n == 0 {
        return Err(InstructionErrorKind::StackIsTooSmall { needed: 1 });
    }
    let s = match &stack[n - 1] {
        InterfaceValue::String(s) => s,
        other => {
            return Err(
                InstructionErrorKind::TypeMismatch {
                    expected: InterfaceType::String,
                    received: other.interface_type(),
                },
            )
        },
    };
    let bytes = s.as_str().as_bytes();
    let len = bytes.len();
    let arguments = match allocator_arguments(s) {
        Some(arguments) => arguments,
        None => {
            return Err(InstructionErrorKind::MemoryOutOfBounds { address: 0, length: len as u64 })
        },
    };
    let len32 = match &arguments[0] {
        InterfaceValue::I32(l) => *l,
        _ => return Err(InstructionErrorKind::ResultMismatch),
    };
    if instance.export(allocator_name).is_none() {
        return Err(InstructionErrorKind::ExportIsMissing { name: allocator_name.clone() });
    }
    let results = match instance.call_export(allocator_name, &arguments) {
        Ok(results) => results,
        Err(()) => return Err(InstructionErrorKind::CallFailed),
    };
    let memory_size = match instance.memory(0) {
        Some(m) => Some(m.len()),
        None => None,
    };
    let ptr = match allocation(&results, memory_size, len as u64) {
        Ok(ptr) => ptr,
        Err(k) => return Err(k),
    };
    let address = (#[verifier::truncate] (ptr as u32)) as usize;
    instance.write_memory(0, address, bytes);
    stack.pop();
    stack.push(InterfaceValue::I32(ptr));
    stack.push(InterfaceValue::I32(len32));
    assert(allocation_spec(results@, Some(memory_size->0), len as u64) == Ok::<
        i32,
        InstructionErrorKind,
    >(ptr));
    Ok(())
}

/// `call function_index`: calls a local or imported function on the top
/// values of the stack and pushes what it returns.
pub fn call<I: Instance>(
    function_index: u64,
    stack: &mut Vec<InterfaceValue>,
    instance: &mut I,
) -> (r: Result<(), InstructionErrorKind>)
    ensures
        r is Err ==> final(stack)@ == old(stack)@,
        r is Ok ==> (exists|k: int, results: Seq<InterfaceValue>|
            0 <= k <= old(stack)@.len() && final(stack)@ == #[trigger] (old(stack)@.subrange(
                0,
                old(stack)@.len() - k,
            ) + results)),
{
    let signature = match instance.local_or_import(function_index) {
        Some(signature) => signature,
        None => return Err(InstructionErrorKind::LocalOrImportIsMissing { function_index }),
    };
    let mut arguments = match pop_arguments(stack, &signature.inputs) {
        Ok(arguments) => arguments,
        Err(k) => return Err(k),
    };
    let outcome = match instance.call_local_or_import(function_index, &arguments) {
        Ok(results) => push_results(stack, results, &signature.outputs),
        Err(()) => Err(InstructionErrorKind::CallFailed),
    };
    if outcome.is_err() {
        stack.append(&mut arguments);
    }
    outcome
}

/// `call-export name`: calls an exported function on the top values of
/// the stack and pushes what it returns.
pub fn call_export<I: Instance>(
    export_name: &String,
    stack: &mut Vec<InterfaceValue>,
    instance: &mut I,
) -> (r: Result<(), InstructionErrorKind>)
    ensures
        r is Err ==> final(stack)@ == old(stack)@,
        r is Ok ==> (exists|k: int, results: Seq<InterfaceValue>|
            0 <= k <= old(stack)@.len() && final(stack)@ == #[trigger] (old(stack)@.subrange(
                0,
                old(stack)@.len() - k,
            ) + results)),
{
    let signature = match instance.export(export_name) {
        Some(signature) => signature,
        None => return Err(InstructionErrorKind::ExportIsMissing { name: export_name.clone() }),
    };
    let mut arguments = match pop_arguments(stack, &signature.inputs) {
        Ok(arguments) => arguments,
        Err(k) => return Err(k),
    };
    let outcome = match instance.call_export(export_name, &arguments) {
        Ok(results) => push_results(stack, results, &signature.outputs),
        Err(()) => Err(InstructionErrorKind::CallFailed),
    };
    if outcome.is_err() {
        stack.append(&mut arguments);
    }
    outcome
}

/// Whether an instruction is one of those that have no semantics yet.
pub open spec fn is_unimplemented(instruction: Instruction) -> bool {
    match instruction {
        Instruction::TableRefAdd | Instruction::TableRefGet | Instruction::CallMethod(_)
        | Instruction::MakeRecord(_) | Instruction::GetField(_, _) | Instruction::Const(_, _)
        | Instruction::FoldSeq(_) => true,
        _ => false,
    }
}

/// The effect of an instruction that needs nothing from the instance:
/// the next stack, or the error; `None` for the instructions that call into
/// the instance or read or write its memory.
pub open spec fn pure_step(
    instruction: Instruction,
    inputs: Seq<InterfaceValue>,
    stack: Seq<InterfaceValue>,
) -> Option<Result<Seq<InterfaceValue>, InstructionErrorKind>> {
    match instruction {
        Instruction::ArgumentGet { index } => Some(
            if index < inputs.len() {
                Ok(stack.push(inputs[index as int]))
            } else {
                Err(InstructionErrorKind::InvocationInputIsMissing { index })
            },
        ),
        Instruction::AsWasm(t) => Some(
            if stack.len() == 0 {
                Err(InstructionErrorKind::StackIsTooSmall { needed: 1 })
            } else {
                match lower_spec(stack.last(), t) {
                    Ok(v) => Ok(stack.drop_last().push(v)),
                    Err(k) => Err(k),
                }
            },
        ),
        Instruction::AsInterface(t) => Some(
            if stack.len() == 0 {
                Err(InstructionErrorKind::StackIsTooSmall { needed: 1 })
            } else {
                match lift_spec(stack.last(), t) {
                    Ok(v) => Ok(stack.drop_last().push(v)),
                    Err(k) => Err(k),
                }
            },
        ),
        Instruction::Call { .. } | Instruction::CallExport { .. } | Instruction::ReadUtf8
        | Instruction::WriteUtf8 { .. } => None,
        _ => Some(Err(InstructionErrorKind::UnimplementedInstruction)),
    }
}

/// The stack after the first `n` instructions, or the index and kind of
/// the first failure, as long as none of them needs the instance; `None`
/// once one does.
pub open spec fn pure_run(
    instructions: Seq<Instruction>,
    inputs: Seq<InterfaceValue>,
    n: nat,
) -> Option<Result<Seq<InterfaceValue>, (int, InstructionErrorKind)>>
    decreases n,
{
    if n == 0 {
        Some(Ok(seq![]))
    } else {
        match pure_run(instructions, inputs, (n - 1) as nat) {
            Some(Ok(stack)) => match pure_step(instructions[n - 1], inputs, stack) {
                Some(Ok(next)) => Some(Ok(next)),
                Some(Err(k)) => Some(Err((n - 1, k))),
                None => None,
            },
            other => other,
        }
    }
}

proof fn lemma_pure_run_settled(
    instructions: Seq<Instruction>,
    inputs: Seq<InterfaceValue>,
    n: nat,
    m: nat,
)
    requires
        n <= m,
        !(pure_run(instructions, inputs, n) matches Some(Ok(_))),
    ensures
        pure_run(instructions, inputs, m) == pure_run(instructions, inputs, n),
    decreases m,
{
    if m > n {
        lemma_pure_run_settled(instructions, inputs, n, (m - 1) as nat);
    }
}

/// Executes one instruction.
pub fn execute<I: Instance>(
    instruction: &Instruction,
    invocation_inputs: &Vec<InterfaceValue>,
    stack: &mut Vec<InterfaceValue>,
    instance: &mut I,
) -> (r: Result<(), InstructionErrorKind>)
    ensures
        r is Err ==> final(stack)@ == old(stack)@,
        pure_step(*instruction, invocation_inputs@, old(stack)@) matches Some(res) ==> match res {
            Ok(next) => r is Ok && final(stack)@ == next,
            Err(k) => r == Err::<(), InstructionErrorKind>(k),
        },
        (instruction is Call || instruction is CallExport) && r is Ok ==> (exists|
            k: int,
            results: Seq<InterfaceValue>,
        |
            0 <= k <= old(stack)@.len() && final(stack)@ == #[trigger] (old(stack)@.subrange(
                0,
                old(stack)@.len() - k,
            ) + results)),
        instruction is ReadUtf8 && r is Ok ==> final(stack)@.len() == old(stack)@.len() - 1
            && final(stack)@.last() is String,
        instruction is WriteUtf8 && r is Ok ==> final(stack)@.len() == old(stack)@.len() + 1,
        is_unimplemented(*instruction) ==> r == Err::<(), InstructionErrorKind>(
            InstructionErrorKind::UnimplementedInstruction,
        ),
        instruction matches Instruction::ArgumentGet { index } ==> (if *index
            < invocation_inputs@.len() {
            r is Ok && final(stack)@ == old(stack)@.push(invocation_inputs@[*index as int])
        } else {
            r == Err::<(), InstructionErrorKind>(
                InstructionErrorKind::InvocationInputIsMissing { index: *index },
            )
        }),
        ({
            let n = old(stack)@.len();
            instruction matches Instruction::AsWasm(t) && n > 0
        }) ==> match lower_spec(old(stack)@[old(stack)@.len() - 1], instruction->AsWasm_0) {
            Ok(v) => r is Ok && final(stack)@ == old(stack)@.drop_last().push(v),
            Err(k) => r == Err::<(), InstructionErrorKind>(k),
        },
        ({
            let n = old(stack)@.len();
            instruction matches Instruction::AsInterface(t) && n > 0
        }) ==> match lift_spec(old(stack)@[old(stack)@.len() - 1], instruction->AsInterface_0) {
            Ok(v) => r is Ok && final(stack)@ == old(stack)@.drop_last().push(v),
            Err(k) => r == Err::<(), InstructionErrorKind>(k),
        },
{
    match instruction {
        Instruction::ArgumentGet { index } => argument_get(*index, invocation_inputs, stack),
        Instruction::Call { function_index } => call(*function_index, stack, instance),
        Instruction::CallExport { export_name } => call_export(export_name, stack, instance),
        Instruction::ReadUtf8 => read_utf8(stack, instance.memory(0)),
        Instruction::WriteUtf8 { allocator_name } => write_utf8(allocator_name, stack, instance),
        Instruction::AsWasm(t) => convert_top(stack, *t, true),
        Instruction::AsInterface(t) => convert_top(stack, *t, false),
        _ => Err(InstructionErrorKind::UnimplementedInstruction),
    }
}

/// Runs an adapter: starts from an empty stack, executes the instructions
/// in order, and returns the stack, bottom first, which must then hold
/// exactly values of the declared output types. An adapter that needs
/// nothing from the instance has the outcome that `pure_run` gives.
pub fn run<I: Instance>(
    instructions: &Vec<Instruction>,
    invocation_inputs: &Vec<InterfaceValue>,
    declared_outputs: &Vec<InterfaceType>,
    instance: &mut I,
) -> (r: Result<Vec<InterfaceValue>, InstructionError>)
    ensures
        r matches Ok(values) ==> types_of(values@) == declared_outputs@,
        r matches Err(e) ==> e.instruction_index <= instructions@.len(),
        match pure_run(instructions@, invocation_inputs@, instructions@.len()) {
            Some(Ok(stack)) => if types_of(stack) == declared_outputs@ {
                r matches Ok(values) && values@ == stack
            } else {
                r matches Err(e) && e.instruction_index == instructions@.len() && e.kind
                    == InstructionErrorKind::OutputMismatch
            },
            Some(Err((i, k))) => r matches Err(e) && e.instruction_index == i && e.kind == k,
            None => true,
        },
{
    let mut stack: Vec<InterfaceValue> = Vec::new();
    let mut i: usize = 0;
    let ghost n = instructions@.len();
    while i < instructions.len()
        invariant
            i <= instructions@.len(),
            n == instructions@.len(),
            pure_run(instructions@, invocation_inputs@, i as nat) is Some ==> pure_run(
                instructions@,
                invocation_inputs@,
                i as nat,
            ) == Some(Ok::<Seq<InterfaceValue>, (int, InstructionErrorKind)>(stack@)),
            pure_run(instructions@, invocation_inputs@, i as nat) is None ==> pure_run(
                instructions@,
                invocation_inputs@,
                n,
            ) is None,
        decreases instructions.len() - i,
    {
        let ghost before = stack@;
        let ghost was = pure_run(instructions@, invocation_inputs@, i as nat);
        match execute(&instructions[i], invocation_inputs, &mut stack, instance) {
            Ok(()) => {},
            Err(kind) => {
                proof {
                    lemma_pure_run_settled(
                        instructions@,
                        invocation_inputs@,
                        (i + 1) as nat,
                        n,
                    );
                    if was is None {
                    }
                }
                return Err(InstructionError { instruction_index: i, stack_depth: stack.len(), kind });
            },
        }
        proof {
            if !(pure_run(instructions@, invocation_inputs@, (i + 1) as nat) matches Some(Ok(_))) {
                lemma_pure_run_settled(instructions@, invocation_inputs@, (i + 1) as nat, n);
            }
        }
        i += 1;
    }
    proof {
        if stack@.len() == 0 && declared_outputs@.len() == 0 {
            assert(types_of(stack@) =~= declared_outputs@);
        }
    }
    if !values_have_types(&stack, declared_outputs) {
        return Err(
            InstructionError {
                instruction_index: instructions.len(),
                stack_depth: stack.len(),
                kind: InstructionErrorKind::OutputMismatch,
            },
        );
    }
    Ok(stack)
}

} // verus!
