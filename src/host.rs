//! Host functions as the guest sees them: core values and their 64-bit
//! ABI form, function signatures, the guest context handed to host code,
//! the call of a host function through the ABI, and the outcome of an
//! invocation (results, a user error, or a trap).

use crate::ast::InterfaceType;
use crate::values::InterfaceValue;
use vstd::prelude::*;

verus! {

/// The core WebAssembly value types that cross the host ABI.
#[derive(Clone, Copy, Debug, PartialEq, Eq, Structural)]
pub enum WasmType {
    I32,
    I64,
    F32,
    F64,
}

/// A core WebAssembly value. Floats are held as their bits.
#[derive(Clone, Copy, Debug, PartialEq, Eq, Structural)]
pub enum WasmValue {
    I32(i32),
    I64(i64),
    F32(u32),
    F64(u64),
}

impl WasmValue {
    pub open spec fn spec_type(self) -> WasmType {
        match self {
            WasmValue::I32(_) => WasmType::I32,
            WasmValue::I64(_) => WasmType::I64,
            WasmValue::F32(_) => WasmType::F32,
            WasmValue::F64(_) => WasmType::F64,
        }
    }

    /// The type of a value.
    pub fn value_type(&self) -> (r: WasmType)
        ensures
            r == self.spec_type(),
    {
        match self {
            WasmValue::I32(_) => WasmType::I32,
            WasmValue::I64(_) => WasmType::I64,
            WasmValue::F32(_) => WasmType::F32,
            WasmValue::F64(_) => WasmType::F64,
        }
    }
}

/// The 64-bit slot that carries a value across the ABI: integers are
/// sign-extended, float bits are zero-extended.
pub open spec fn binary_of(v: WasmValue) -> u64 {
    match v {
        WasmValue::I32(n) => n as u64,
        WasmValue::I64(n) => n as u64,
        WasmValue::F32(b) => b as u64,
        WasmValue::F64(b) => b,
    }
}

/// The value of type `t` that a 64-bit slot carries: its low bits.
pub open spec fn value_of_binary(t: WasmType, bits: u64) -> WasmValue {
    match t {
        WasmType::I32 => WasmValue::I32(bits as i32),
        WasmType::I64 => WasmValue::I64(bits as i64),
        WasmType::F32 => WasmValue::F32(bits as u32),
        WasmType::F64 => WasmValue::F64(bits),
    }
}

/// The slot of a value.
pub fn to_binary(v: WasmValue) -> (r: u64)
    ensures
        r == binary_of(v),
{
    match v {
        WasmValue::I32(n) => #[verifier::truncate] (n as u64),
        WasmValue::I64(n) => #[verifier::truncate] (n as u64),
        WasmValue::F32(b) => b as u64,
        WasmValue::F64(b) => b,
    }
}

/// The value of type `t` in a slot.
pub fn from_binary(t: WasmType, bits: u64) -> (r: WasmValue)
    ensures
        r == value_of_binary(t, bits),
{
    match t {
        WasmType::I32 => WasmValue::I32(#[verifier::truncate] (bits as i32)),
        WasmType::I64 => WasmValue::I64(#[verifier::truncate] (bits as i64)),
        WasmType::F32 => WasmValue::F32(#[verifier::truncate] (bits as u32)),
        WasmType::F64 => WasmValue::F64(bits),
    }
}

/// A value survives its trip through a slot.
pub proof fn lemma_binary_round_trip_value(v: WasmValue)
    ensures
        value_of_binary(v.spec_type(), binary_of(v)) == v,
{
    match v {
        WasmValue::I32(n) => {
            assert((n as u64) as i32 == n) by (bit_vector);
        },
        WasmValue::I64(n) => {
            assert((n as u64) as i64 == n) by (bit_vector);
        },
        WasmValue::F32(b) => {
            assert((b as u64) as u32 == b) by (bit_vector);
        },
        WasmValue::F64(_) => {},
    }
}

/// The slots of a sequence of values.
pub open spec fn binaries_of(vs: Seq<WasmValue>) -> Seq<u64> {
    vs.map_values(|v: WasmValue| binary_of(v))
}

/// The values that slots carry, one type per slot.
pub open spec fn values_of_binaries(ts: Seq<WasmType>, bits: Seq<u64>) -> Seq<WasmValue>
    recommends
        ts.len() == bits.len(),
{
    Seq::new(ts.len(), |i: int| value_of_binary(ts[i], bits[i]))
}

/// The types of a sequence of values.
pub open spec fn wasm_types_of(vs: Seq<WasmValue>) -> Seq<WasmType> {
    vs.map_values(|v: WasmValue| v.spec_type())
}

/// The input and output types of a function.
#[derive(Clone, Debug, PartialEq)]
pub struct FuncSig {
    pub params: Vec<WasmType>,
    pub results: Vec<WasmType>,
}

/// The values carried by slots.
pub fn read_binaries(ts: &Vec<WasmType>, bits: &Vec<u64>) -> (r: Vec<WasmValue>)
    requires
        ts@.len() == bits@.len(),
    ensures
        r@ == values_of_binaries(ts@, bits@),
{
    let mut r: Vec<WasmValue> = Vec::new();
    let mut i: usize = 0;
    while i < ts.len()
        invariant
            ts@.len() == bits@.len(),
            i <= ts@.len(),
            r@ == values_of_binaries(ts@, bits@).subrange(0, i as int),
        decreases ts.len() - i,
    {
        r.push(from_binary(ts[i], bits[i]));
        i += 1;
        assert(r@ =~= values_of_binaries(ts@, bits@).subrange(0, i as int));
    }
    assert(r@ =~= values_of_binaries(ts@, bits@));
    r
}

/// The slots of values.
pub fn write_binaries(vs: &Vec<WasmValue>) -> (r: Vec<u64>)
    ensures
        r@ == binaries_of(vs@),
{
    let mut r: Vec<u64> = Vec::new();
    let mut i: usize = 0;
    while i < vs.len()
        invariant
            i <= vs@.len(),
            r@ == binaries_of(vs@).subrange(0, i as int),
        decreases vs.len() - i,
    {
        r.push(to_binary(vs[i]));
        i += 1;
        assert(r@ =~= binaries_of(vs@).subrange(0, i as int));
    }
    assert(r@ =~= binaries_of(vs@));
    r
}

/// The kinds of platform trap that the signal layer reports.
#[derive(Clone, Copy, Debug, PartialEq, Eq, Structural)]
pub enum WasmTrapInfo {
    Unreachable,
    IncorrectCallIndirectSignature,
    MemoryOutOfBounds,
    CallIndirectOOB,
    IllegalArithmetic,
    MisalignedAtomicAccess,
    Unknown,
}

/// The stable message of a trap kind.
pub open spec fn trap_message(t: WasmTrapInfo) -> Seq<char> {
    match t {
        WasmTrapInfo::Unreachable => "unreachable"@,
        WasmTrapInfo::IncorrectCallIndirectSignature => "incorrect `call_indirect` signature"@,
        WasmTrapInfo::MemoryOutOfBounds => "memory out-of-bounds access"@,
        WasmTrapInfo::CallIndirectOOB => "`call_indirect` out-of-bounds"@,
        WasmTrapInfo::IllegalArithmetic => "illegal arithmetic operation"@,
        WasmTrapInfo::MisalignedAtomicAccess => "misaligned atomic access"@,
        WasmTrapInfo::Unknown => "unknown"@,
    }
}

impl WasmTrapInfo {
    /// The message of a trap kind.
    pub fn message(&self) -> (r: &'static str)
        ensures
            r@ == trap_message(*self),
    {
        match self {
            WasmTrapInfo::Unreachable => "unreachable",
            WasmTrapInfo::IncorrectCallIndirectSignature => "incorrect `call_indirect` signature",
            WasmTrapInfo::MemoryOutOfBounds => "memory out-of-bounds access",
            WasmTrapInfo::CallIndirectOOB => "`call_indirect` out-of-bounds",
            WasmTrapInfo::IllegalArithmetic => "illegal arithmetic operation",
            WasmTrapInfo::MisalignedAtomicAccess => "misaligned atomic access",
            WasmTrapInfo::Unknown => "unknown",
        }
    }
}

/// A failed call: a platform trap with its message, or an error that host
/// code returned, carried unchanged.
#[derive(Clone, Debug, PartialEq)]
pub enum RuntimeError<E> {
    Trap { msg: String },
    User { data: E },
}

/// What the caller makes of an invocation: on success the results read
/// from their slots; on failure the host's error when there is one, else
/// a trap with the message of its kind.
pub fn invoke_outcome<E>(
    succeeded: bool,
    rets: &Vec<u64>,
    results: &Vec<WasmType>,
    trap: WasmTrapInfo,
    user_error: Option<E>,
) -> (r: Result<Vec<WasmValue>, RuntimeError<E>>)
    requires
        succeeded ==> rets@.len() == results@.len(),
    ensures
        succeeded ==> (r matches Ok(vs) && vs@ == values_of_binaries(results@, rets@)),
        !succeeded && user_error is Some ==> r == Err::<Vec<WasmValue>, RuntimeError<E>>(
            RuntimeError::User { data: user_error->0 },
        ),
        !succeeded && user_error is None ==> (r matches Err(RuntimeError::Trap { msg })
            && msg@ == trap_message(trap)),
{
    if succeeded {
        Ok(read_binaries(results, rets))
    } else {
        match user_error {
            Some(data) => Err(RuntimeError::User { data }),
            None => Err(RuntimeError::Trap { msg: trap.message().to_string() }),
        }
    }
}

/// The guest context as host code sees it: the guest's memories.
pub struct Ctx {
    pub memories: Vec<Vec<u8>>,
}

impl Ctx {
    /// Memory `index`, if there is one.
    pub fn memory(&self, index: usize) -> (r: Option<&Vec<u8>>)
        ensures
            index < self.memories@.len() ==> r == Some(&self.memories@[index as int]),
            index >= self.memories@.len() ==> r is None,
    {
        if index < self.memories.len() {
            Some(&self.memories[index])
        } else {
            None
        }
    }
}

/// Calls a host function through the ABI: reads the arguments out of
/// their slots by the declared parameter types, calls the function with
/// the guest context, and writes its results into slots, or hands its
/// error back as a user error. The function must return values of the
/// declared result types, as its static type guarantees.
pub fn call_host<F, E>(f: &F, ctx: &Ctx, signature: &FuncSig, args: &Vec<u64>) -> (r: Result<
    Vec<u64>,
    RuntimeError<E>,
>) where F: Fn(&Ctx, Vec<WasmValue>) -> Result<Vec<WasmValue>, E>
    requires
        args@.len() == signature.params@.len(),
        forall|a: Vec<WasmValue>| f.requires((ctx, a)),
        forall|a: Vec<WasmValue>, out: Vec<WasmValue>|
            f.ensures((ctx, a), Ok::<Vec<WasmValue>, E>(out)) ==> wasm_types_of(out@)
                == signature.results@,
    ensures
        r matches Ok(bits) ==> (exists|a: Vec<WasmValue>, out: Vec<WasmValue>|
            a@ == values_of_binaries(signature.params@, args@) && f.ensures(
                (ctx, a),
                Ok::<Vec<WasmValue>, E>(out),
            ) && bits@ == binaries_of(out@)),
        r matches Err(e) ==> (exists|a: Vec<WasmValue>, data: E|
            a@ == values_of_binaries(signature.params@, args@) && f.ensures(
                (ctx, a),
                Err::<Vec<WasmValue>, E>(data),
            ) && e == (RuntimeError::<E>::User { data })),
{
    let a = read_binaries(&signature.params, args);
    let ghost ga = a;
    match f(ctx, a) {
        Ok(out) => Ok(write_binaries(&out)),
        Err(data) => Err(RuntimeError::User { data }),
    }
}

/// The interface type that a core type lifts to.
pub open spec fn interface_type_spec(t: WasmType) -> InterfaceType {
    match t {
        WasmType::I32 => InterfaceType::I32,
        WasmType::I64 => InterfaceType::I64,
        WasmType::F32 => InterfaceType::F32,
        WasmType::F64 => InterfaceType::F64,
    }
}

/// The interface type of a core type.
pub fn interface_type_of(t: WasmType) -> (r: InterfaceType)
    ensures
        r == interface_type_spec(t),
{
    match t {
        WasmType::I32 => InterfaceType::I32,
        WasmType::I64 => InterfaceType::I64,
        WasmType::F32 => InterfaceType::F32,
        WasmType::F64 => InterfaceType::F64,
    }
}

/// The interface value of a core value.
pub fn interface_value_of(v: WasmValue) -> (r: InterfaceValue)
    ensures
        r == match v {
            WasmValue::I32(n) => InterfaceValue::I32(n),
            WasmValue::I64(n) => InterfaceValue::I64(n),
            WasmValue::F32(b) => InterfaceValue::F32(b),
            WasmValue::F64(b) => InterfaceValue::F64(b),
        },
{
    match v {
        WasmValue::I32(n) => InterfaceValue::I32(n),
        WasmValue::I64(n) => InterfaceValue::I64(n),
        WasmValue::F32(b) => InterfaceValue::F32(b),
        WasmValue::F64(b) => InterfaceValue::F64(b),
    }
}

/// The core value of an interface value of a core type.
pub open spec fn core_value_spec(v: InterfaceValue) -> Option<WasmValue> {
    match v {
        InterfaceValue::I32(n) => Some(WasmValue::I32(n)),
        InterfaceValue::I64(n) => Some(WasmValue::I64(n)),
        InterfaceValue::F32(b) => Some(WasmValue::F32(b)),
        InterfaceValue::F64(b) => Some(WasmValue::F64(b)),
        _ => None,
    }
}

/// The core value of an interface value, for the core types only.
pub fn core_value_of(v: &InterfaceValue) -> (r: Option<WasmValue>)
    ensures
        r == core_value_spec(*v),
{
    match v {
        InterfaceValue::I32(n) => Some(WasmValue::I32(*n)),
        InterfaceValue::I64(n) => Some(WasmValue::I64(*n)),
        InterfaceValue::F32(b) => Some(WasmValue::F32(*b)),
        InterfaceValue::F64(b) => Some(WasmValue::F64(*b)),
        _ => None,
    }
}

/// The core values of interface values: `None` when one of them is not of
/// a core type, else each one's core value in order.
pub fn core_values_of(args: &Vec<InterfaceValue>) -> (r: Option<Vec<WasmValue>>)
    ensures
        r is Some <==> forall|k: int| 0 <= k < args@.len() ==> core_value_spec(#[trigger] args@[k]) is Some,
        r matches Some(vs) ==> vs@.len() == args@.len() && forall|k: int|
            0 <= k < args@.len() ==> core_value_spec(#[trigger] args@[k]) == Some(vs@[k]),
{
    let mut vs: Vec<WasmValue> = Vec::new();
    let mut i: usize = 0;
    while i < args.len()
        invariant
            i <= args@.len(),
            vs@.len() == i,
            forall|k: int| 0 <= k < i ==> core_value_spec(#[trigger] args@[k]) == Some(vs@[k]),
        decreases args.len() - i,
    {
        match core_value_of(&args[i]) {
            Some(v) => vs.push(v),
            None => return None,
        }
        i += 1;
    }
    Some(vs)
}

/// The interface values of core values.
pub fn interface_values_of(vs: &Vec<WasmValue>) -> (r: Vec<InterfaceValue>)
    ensures
        r@.len() == vs@.len(),
        forall|k: int| 0 <= k < vs@.len() ==> core_value_spec(#[trigger] r@[k]) == Some(vs@[k]),
{
    let mut r: Vec<InterfaceValue> = Vec::new();
    let mut i: usize = 0;
    while i < vs.len()
        invariant
            i <= vs@.len(),
            r@.len() == i,
            forall|k: int| 0 <= k < i ==> core_value_spec(#[trigger] r@[k]) == Some(vs@[k]),
        decreases vs.len() - i,
    {
        r.push(interface_value_of(vs[i]));
        i += 1;
    }
    r
}

/// Values cross the host ABI unchanged: written into slots and read back
/// by their own types, they are the same values. With `call_host`, a host
/// function called through the ABI receives exactly the arguments the
/// guest passed, and the guest receives exactly what the function returned.
pub proof fn lemma_abi_round_trip(vals: Seq<WasmValue>, types: Seq<WasmType>)
    requires
        wasm_types_of(vals) == types,
    ensures
        values_of_binaries(types, binaries_of(vals)) == vals,
{
    assert forall|k: int| 0 <= k < vals.len() implies values_of_binaries(
        types,
        binaries_of(vals),
    )[k] == vals[k] by {
        assert(types[k] == vals[k].spec_type());
        lemma_binary_round_trip_value(vals[k]);
    }
    assert(values_of_binaries(types, binaries_of(vals)) =~= vals);
}

} // verus!
