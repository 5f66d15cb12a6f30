//! The binary form of an Interface Types description, as carried by the
//! `interface-types` custom section, stated as spec functions: what each
//! value encodes to, what each byte sequence decodes to, and the proof that
//! decoding an encoding gives the value back.
//!
//! Unsigned integers are LEB128 (at most ten bytes, at most `u64::MAX`),
//! strings are a byte length followed by UTF-8, and a vector is a count
//! followed by its elements.

use crate::ast::{
    AdapterModel, ExportModel, ForwardModel, ImportModel, InstructionModel, InterfaceType,
    InterfacesModel, TypeModel,
};
use vstd::prelude::*;
use vstd::utf8::*;

verus! {

/// Why a byte sequence is not a well-formed description.
#[derive(Clone, Copy, Debug, PartialEq, Eq, Structural)]
pub enum Reason {
    /// The input ends before the value does.
    UnexpectedEnd,
    /// An integer takes more than ten bytes or exceeds `u64::MAX`.
    IntegerTooLarge,
    /// A string is not UTF-8.
    InvalidUtf8,
    /// A type tag names no interface type.
    UnknownTypeTag,
    /// An opcode names no instruction.
    UnknownOpcode,
    /// An adapter kind is neither import, export nor helper.
    UnknownAdapterKind,
    /// Bytes follow the description.
    TrailingBytes,
}

/// A decoding failure, with the byte offset at which it was found.
#[derive(Clone, Copy, Debug, PartialEq, Eq, Structural)]
pub struct Malformed {
    pub offset: usize,
    pub reason: Reason,
}

/// The outcome of a spec-level parse: a value and the next position, or an
/// offset and a reason.
pub type Parsed<T> = Result<(T, int), (int, Reason)>;

// ---------------------------------------------------------------------
// Type tags and opcodes

/// The tag of an interface type: its position in the enumeration.
pub open spec fn type_tag(t: InterfaceType) -> nat {
    match t {
        InterfaceType::Int => 0,
        InterfaceType::Float => 1,
        InterfaceType::Any => 2,
        InterfaceType::String => 3,
        InterfaceType::Sequence => 4,
        InterfaceType::I32 => 5,
        InterfaceType::I64 => 6,
        InterfaceType::F32 => 7,
        InterfaceType::F64 => 8,
        InterfaceType::AnyRef => 9,
    }
}

/// The interface type of a tag, if any.
pub open spec fn type_of_tag(n: nat) -> Option<InterfaceType> {
    if n == 0 {
        Some(InterfaceType::Int)
    } else if n == 1 {
        Some(InterfaceType::Float)
    } else if n == 2 {
        Some(InterfaceType::Any)
    } else if n == 3 {
        Some(InterfaceType::String)
    } else if n == 4 {
        Some(InterfaceType::Sequence)
    } else if n == 5 {
        Some(InterfaceType::I32)
    } else if n == 6 {
        Some(InterfaceType::I64)
    } else if n == 7 {
        Some(InterfaceType::F32)
    } else if n == 8 {
        Some(InterfaceType::F64)
    } else if n == 9 {
        Some(InterfaceType::AnyRef)
    } else {
        None
    }
}

// ---------------------------------------------------------------------
// Encoding, as spec functions

/// The LEB128 encoding of an unsigned integer.
pub open spec fn enc_u(n: nat) -> Seq<u8>
    decreases n,
{
    if n < 128 {
        seq![n as u8]
    } else {
        seq![((n % 128) + 128) as u8] + enc_u(n / 128)
    }
}

/// A string: its UTF-8 byte length, then its UTF-8 bytes.
pub open spec fn enc_str(s: Seq<char>) -> Seq<u8> {
    enc_u(encode_utf8(s).len()) + encode_utf8(s)
}

pub open spec fn enc_type(t: InterfaceType) -> Seq<u8> {
    enc_u(type_tag(t))
}

/// The encodings of the elements of a sequence, one after the other.
pub open spec fn enc_items<T>(xs: Seq<T>, f: spec_fn(T) -> Seq<u8>) -> Seq<u8>
    decreases xs.len(),
{
    if xs.len() == 0 {
        seq![]
    } else {
        enc_items(xs.drop_last(), f) + f(xs.last())
    }
}

/// A vector: its count, then its elements.
pub open spec fn enc_vec<T>(xs: Seq<T>, f: spec_fn(T) -> Seq<u8>) -> Seq<u8> {
    enc_u(xs.len()) + enc_items(xs, f)
}

pub open spec fn enc_type_fn() -> spec_fn(InterfaceType) -> Seq<u8> {
    |t: InterfaceType| enc_type(t)
}

pub open spec fn enc_str_fn() -> spec_fn(Seq<char>) -> Seq<u8> {
    |c: Seq<char>| enc_str(c)
}

pub open spec fn enc_types(ts: Seq<InterfaceType>) -> Seq<u8> {
    enc_vec(ts, enc_type_fn())
}

pub open spec fn enc_instruction(i: InstructionModel) -> Seq<u8> {
    match i {
        InstructionModel::ArgumentGet { index } => enc_u(0) + enc_u(index as nat),
        InstructionModel::Call { function_index } => enc_u(1) + enc_u(function_index as nat),
        InstructionModel::CallExport { export_name } => enc_u(2) + enc_str(export_name),
        InstructionModel::ReadUtf8 => enc_u(3),
        InstructionModel::WriteUtf8 { allocator_name } => enc_u(4) + enc_str(allocator_name),
        InstructionModel::AsWasm(t) => enc_u(5) + enc_type(t),
        InstructionModel::AsInterface(t) => enc_u(6) + enc_type(t),
        InstructionModel::TableRefAdd => enc_u(7),
        InstructionModel::TableRefGet => enc_u(8),
        InstructionModel::CallMethod(s) => enc_u(9) + enc_str(s),
        InstructionModel::MakeRecord(t) => enc_u(10) + enc_type(t),
        InstructionModel::GetField(t, s) => enc_u(11) + enc_type(t) + enc_str(s),
        InstructionModel::Const(t, v) => enc_u(12) + enc_type(t) + enc_u(v as nat),
        InstructionModel::FoldSeq(s) => enc_u(13) + enc_str(s),
    }
}

pub open spec fn enc_instruction_fn() -> spec_fn(InstructionModel) -> Seq<u8> {
    |i: InstructionModel| enc_instruction(i)
}

pub open spec fn enc_instructions(is: Seq<InstructionModel>) -> Seq<u8> {
    enc_vec(is, enc_instruction_fn())
}

pub open spec fn enc_export(e: ExportModel) -> Seq<u8> {
    enc_str(e.name) + enc_types(e.input_types) + enc_types(e.output_types)
}

pub open spec fn enc_type_def(t: TypeModel) -> Seq<u8> {
    enc_str(t.name) + enc_vec(t.fields, enc_str_fn()) + enc_types(t.types)
}

pub open spec fn enc_import(i: ImportModel) -> Seq<u8> {
    enc_str(i.namespace) + enc_str(i.name) + enc_types(i.input_types) + enc_types(
        i.output_types,
    )
}

/// An adapter: its kind (0 import, 1 export, 2 helper), its names and
/// signature, then its instructions.
pub open spec fn enc_adapter(a: AdapterModel) -> Seq<u8> {
    match a {
        AdapterModel::Import { namespace, name, input_types, output_types, instructions } => enc_u(
            0,
        ) + enc_str(namespace) + enc_str(name) + enc_types(input_types) + enc_types(output_types)
            + enc_instructions(instructions),
        AdapterModel::Export { name, input_types, output_types, instructions } => enc_u(1)
            + enc_str(name) + enc_types(input_types) + enc_types(output_types) + enc_instructions(
            instructions,
        ),
        AdapterModel::HelperFunction { name, input_types, output_types, instructions } => enc_u(
            2,
        ) + enc_str(name) + enc_types(input_types) + enc_types(output_types) + enc_instructions(
            instructions,
        ),
    }
}

pub open spec fn enc_forward(f: ForwardModel) -> Seq<u8> {
    enc_str(f.name)
}

pub open spec fn enc_export_fn() -> spec_fn(ExportModel) -> Seq<u8> {
    |e: ExportModel| enc_export(e)
}

pub open spec fn enc_type_def_fn() -> spec_fn(TypeModel) -> Seq<u8> {
    |t: TypeModel| enc_type_def(t)
}

pub open spec fn enc_import_fn() -> spec_fn(ImportModel) -> Seq<u8> {
    |i: ImportModel| enc_import(i)
}

pub open spec fn enc_adapter_fn() -> spec_fn(AdapterModel) -> Seq<u8> {
    |a: AdapterModel| enc_adapter(a)
}

pub open spec fn enc_forward_fn() -> spec_fn(ForwardModel) -> Seq<u8> {
    |f: ForwardModel| enc_forward(f)
}

/// The binary form of a whole description.
pub open spec fn enc_interfaces(x: InterfacesModel) -> Seq<u8> {
    enc_vec(x.exports, enc_export_fn()) + enc_vec(x.types, enc_type_def_fn()) + enc_vec(
        x.imports,
        enc_import_fn(),
    ) + enc_vec(x.adapters, enc_adapter_fn()) + enc_vec(x.forwards, enc_forward_fn())
}

// ---------------------------------------------------------------------
// Decoding, as spec functions

/// An unsigned LEB128 integer at `p`, taking at most `depth` bytes.
pub open spec fn parse_u_depth(s: Seq<u8>, p: int, depth: nat) -> Parsed<nat>
    decreases depth,
{
    if p < 0 || p >= s.len() {
        Err((s.len() as int, Reason::UnexpectedEnd))
    } else if s[p] < 128 {
        Ok((s[p] as nat, p + 1))
    } else if depth <= 1 {
        Err((p, Reason::IntegerTooLarge))
    } else {
        match parse_u_depth(s, p + 1, (depth - 1) as nat) {
            Ok((v, q)) => {
                let n = (s[p] - 128) + 128 * v;
                if n > u64::MAX {
                    Err((p, Reason::IntegerTooLarge))
                } else {
                    Ok((n as nat, q))
                }
            },
            Err(e) => Err(e),
        }
    }
}

/// An unsigned integer at `p`.
pub open spec fn parse_u(s: Seq<u8>, p: int) -> Parsed<nat> {
    parse_u_depth(s, p, 10)
}

/// A string at `p`.
pub open spec fn parse_str(s: Seq<u8>, p: int) -> Parsed<Seq<char>> {
    match parse_u(s, p) {
        Ok((n, q)) => if q + n > s.len() {
            Err((s.len() as int, Reason::UnexpectedEnd))
        } else if !valid_utf8(s.subrange(q, q + n)) {
            Err((q, Reason::InvalidUtf8))
        } else {
            Ok((decode_utf8(s.subrange(q, q + n)), q + n))
        },
        Err(e) => Err(e),
    }
}

/// An interface type at `p`.
pub open spec fn parse_type(s: Seq<u8>, p: int) -> Parsed<InterfaceType> {
    match parse_u(s, p) {
        Ok((n, q)) => match type_of_tag(n) {
            Some(t) => Ok((t, q)),
            None => Err((p, Reason::UnknownTypeTag)),
        },
        Err(e) => Err(e),
    }
}

/// `n` elements from `p` on, each read by `item`.
pub open spec fn parse_items<T>(
    s: Seq<u8>,
    p: int,
    n: nat,
    item: spec_fn(Seq<u8>, int) -> Parsed<T>,
) -> Parsed<Seq<T>>
    decreases n,
{
    if n == 0 {
        Ok((seq![], p))
    } else {
        match parse_items(s, p, (n - 1) as nat, item) {
            Ok((xs, q)) => match item(s, q) {
                Ok((x, r)) => Ok((xs.push(x), r)),
                Err(e) => Err(e),
            },
            Err(e) => Err(e),
        }
    }
}

/// A vector at `p`: a count, then that many elements.
pub open spec fn parse_vec<T>(
    s: Seq<u8>,
    p: int,
    item: spec_fn(Seq<u8>, int) -> Parsed<T>,
) -> Parsed<Seq<T>> {
    match parse_u(s, p) {
        Ok((n, q)) => parse_items(s, q, n, item),
        Err(e) => Err(e),
    }
}

pub open spec fn parse_type_fn() -> spec_fn(Seq<u8>, int) -> Parsed<InterfaceType> {
    |s: Seq<u8>, q: int| parse_type(s, q)
}

pub open spec fn parse_types(s: Seq<u8>, p: int) -> Parsed<Seq<InterfaceType>> {
    parse_vec(s, p, parse_type_fn())
}

pub open spec fn parse_str_fn() -> spec_fn(Seq<u8>, int) -> Parsed<Seq<char>> {
    |s: Seq<u8>, q: int| parse_str(s, q)
}

pub open spec fn parse_strs(s: Seq<u8>, p: int) -> Parsed<Seq<Seq<char>>> {
    parse_vec(s, p, parse_str_fn())
}

/// The instruction of opcode `op`, whose operands start at `q`.
pub open spec fn parse_operands(s: Seq<u8>, op: nat, q: int) -> Option<Parsed<InstructionModel>> {
    if op == 0 {
        Some(
            match parse_u(s, q) {
                Ok((v, r)) => Ok((InstructionModel::ArgumentGet { index: v as u64 }, r)),
                Err(e) => Err(e),
            },
        )
    } else if op == 1 {
        Some(
            match parse_u(s, q) {
                Ok((v, r)) => Ok((InstructionModel::Call { function_index: v as u64 }, r)),
                Err(e) => Err(e),
            },
        )
    } else if op == 2 {
        Some(
            match parse_str(s, q) {
                Ok((v, r)) => Ok((InstructionModel::CallExport { export_name: v }, r)),
                Err(e) => Err(e),
            },
        )
    } else if op == 3 {
        Some(Ok((InstructionModel::ReadUtf8, q)))
    } else if op == 4 {
        Some(
            match parse_str(s, q) {
                Ok((v, r)) => Ok((InstructionModel::WriteUtf8 { allocator_name: v }, r)),
                Err(e) => Err(e),
            },
        )
    } else if op == 5 {
        Some(
            match parse_type(s, q) {
                Ok((t, r)) => Ok((InstructionModel::AsWasm(t), r)),
                Err(e) => Err(e),
            },
        )
    } else if op == 6 {
        Some(
            match parse_type(s, q) {
                Ok((t, r)) => Ok((InstructionModel::AsInterface(t), r)),
                Err(e) => Err(e),
            },
        )
    } else if op == 7 {
        Some(Ok((InstructionModel::TableRefAdd, q)))
    } else if op == 8 {
        Some(Ok((InstructionModel::TableRefGet, q)))
    } else if op == 9 {
        Some(
            match parse_str(s, q) {
                Ok((v, r)) => Ok((InstructionModel::CallMethod(v), r)),
                Err(e) => Err(e),
            },
        )
    } else if op == 10 {
        Some(
            match parse_type(s, q) {
                Ok((t, r)) => Ok((InstructionModel::MakeRecord(t), r)),
                Err(e) => Err(e),
            },
        )
    } else if op == 11 {
        Some(
            match parse_type(s, q) {
                Ok((t, r)) => match parse_str(s, r) {
                    Ok((v, r2)) => Ok((InstructionModel::GetField(t, v), r2)),
                    Err(e) => Err(e),
                },
                Err(e) => Err(e),
            },
        )
    } else if op == 12 {
        Some(
            match parse_type(s, q) {
                Ok((t, r)) => match parse_u(s, r) {
                    Ok((v, r2)) => Ok((InstructionModel::Const(t, v as u64), r2)),
                    Err(e) => Err(e),
                },
                Err(e) => Err(e),
            },
        )
    } else if op == 13 {
        Some(
            match parse_str(s, q) {
                Ok((v, r)) => Ok((InstructionModel::FoldSeq(v), r)),
                Err(e) => Err(e),
            },
        )
    } else {
        None
    }
}

/// An instruction at `p`: an opcode, then its operands.
pub open spec fn parse_instruction(s: Seq<u8>, p: int) -> Parsed<InstructionModel> {
    match parse_u(s, p) {
        Ok((op, q)) => match parse_operands(s, op, q) {
            Some(r) => r,
            None => Err((p, Reason::UnknownOpcode)),
        },
        Err(e) => Err(e),
    }
}

pub open spec fn parse_instruction_fn() -> spec_fn(Seq<u8>, int) -> Parsed<InstructionModel> {
    |s: Seq<u8>, q: int| parse_instruction(s, q)
}

pub open spec fn parse_instructions(s: Seq<u8>, p: int) -> Parsed<Seq<InstructionModel>> {
    parse_vec(s, p, parse_instruction_fn())
}

/// A signature at `p`: input types, then output types.
pub open spec fn parse_signature(s: Seq<u8>, p: int) -> Parsed<
    (Seq<InterfaceType>, Seq<InterfaceType>),
> {
    match parse_types(s, p) {
        Ok((ins, q)) => match parse_types(s, q) {
            Ok((outs, r)) => Ok(((ins, outs), r)),
            Err(e) => Err(e),
        },
        Err(e) => Err(e),
    }
}

pub open spec fn parse_export(s: Seq<u8>, p: int) -> Parsed<ExportModel> {
    match parse_str(s, p) {
        Ok((name, q)) => match parse_signature(s, q) {
            Ok(((ins, outs), r)) => Ok(
                (ExportModel { name, input_types: ins, output_types: outs }, r),
            ),
            Err(e) => Err(e),
        },
        Err(e) => Err(e),
    }
}

pub open spec fn parse_type_def(s: Seq<u8>, p: int) -> Parsed<TypeModel> {
    match parse_str(s, p) {
        Ok((name, q)) => match parse_strs(s, q) {
            Ok((fields, r)) => match parse_types(s, r) {
                Ok((types, r2)) => Ok((TypeModel { name, fields, types }, r2)),
                Err(e) => Err(e),
            },
            Err(e) => Err(e),
        },
        Err(e) => Err(e),
    }
}

pub open spec fn parse_import(s: Seq<u8>, p: int) -> Parsed<ImportModel> {
    match parse_str(s, p) {
        Ok((namespace, q)) => match parse_str(s, q) {
            Ok((name, r)) => match parse_signature(s, r) {
                Ok(((ins, outs), r2)) => Ok(
                    (ImportModel { namespace, name, input_types: ins, output_types: outs }, r2),
                ),
                Err(e) => Err(e),
            },
            Err(e) => Err(e),
        },
        Err(e) => Err(e),
    }
}

/// The part of an adapter that follows its names: signature and instructions.
pub open spec fn parse_adapter_body(s: Seq<u8>, p: int) -> Parsed<
    (Seq<InterfaceType>, Seq<InterfaceType>, Seq<InstructionModel>),
> {
    match parse_signature(s, p) {
        Ok(((ins, outs), q)) => match parse_instructions(s, q) {
            Ok((is, r)) => Ok(((ins, outs, is), r)),
            Err(e) => Err(e),
        },
        Err(e) => Err(e),
    }
}

pub open spec fn parse_adapter(s: Seq<u8>, p: int) -> Parsed<AdapterModel> {
    match parse_u(s, p) {
        Ok((kind, q)) => if kind == 0 {
            match parse_str(s, q) {
                Ok((namespace, r)) => match parse_str(s, r) {
                    Ok((name, r2)) => match parse_adapter_body(s, r2) {
                        Ok(((ins, outs, is), r3)) => Ok(
                            (
                                AdapterModel::Import {
                                    namespace,
                                    name,
                                    input_types: ins,
                                    output_types: outs,
                                    instructions: is,
                                },
                                r3,
                            ),
                        ),
                        Err(e) => Err(e),
                    },
                    Err(e) => Err(e),
                },
                Err(e) => Err(e),
            }
        } else if kind == 1 || kind == 2 {
            match parse_str(s, q) {
                Ok((name, r)) => match parse_adapter_body(s, r) {
                    Ok(((ins, outs, is), r2)) => Ok(
                        (
                            if kind == 1 {
                                AdapterModel::Export {
                                    name,
                                    input_types: ins,
                                    output_types: outs,
                                    instructions: is,
                                }
                            } else {
                                AdapterModel::HelperFunction {
                                    name,
                                    input_types: ins,
                                    output_types: outs,
                                    instructions: is,
                                }
                            },
                            r2,
                        ),
                    ),
                    Err(e) => Err(e),
                },
                Err(e) => Err(e),
            }
        } else {
            Err((p, Reason::UnknownAdapterKind))
        },
        Err(e) => Err(e),
    }
}

pub open spec fn parse_forward(s: Seq<u8>, p: int) -> Parsed<ForwardModel> {
    match parse_str(s, p) {
        Ok((name, q)) => Ok((ForwardModel { name }, q)),
        Err(e) => Err(e),
    }
}

pub open spec fn parse_export_fn() -> spec_fn(Seq<u8>, int) -> Parsed<ExportModel> {
    |s: Seq<u8>, q: int| parse_export(s, q)
}

pub open spec fn parse_exports(s: Seq<u8>, p: int) -> Parsed<Seq<ExportModel>> {
    parse_vec(s, p, parse_export_fn())
}

pub open spec fn parse_type_def_fn() -> spec_fn(Seq<u8>, int) -> Parsed<TypeModel> {
    |s: Seq<u8>, q: int| parse_type_def(s, q)
}

pub open spec fn parse_type_defs(s: Seq<u8>, p: int) -> Parsed<Seq<TypeModel>> {
    parse_vec(s, p, parse_type_def_fn())
}

pub open spec fn parse_import_fn() -> spec_fn(Seq<u8>, int) -> Parsed<ImportModel> {
    |s: Seq<u8>, q: int| parse_import(s, q)
}

pub open spec fn parse_imports(s: Seq<u8>, p: int) -> Parsed<Seq<ImportModel>> {
    parse_vec(s, p, parse_import_fn())
}

pub open spec fn parse_adapter_fn() -> spec_fn(Seq<u8>, int) -> Parsed<AdapterModel> {
    |s: Seq<u8>, q: int| parse_adapter(s, q)
}

pub open spec fn parse_adapters(s: Seq<u8>, p: int) -> Parsed<Seq<AdapterModel>> {
    parse_vec(s, p, parse_adapter_fn())
}

pub open spec fn parse_forward_fn() -> spec_fn(Seq<u8>, int) -> Parsed<ForwardModel> {
    |s: Seq<u8>, q: int| parse_forward(s, q)
}

pub open spec fn parse_forwards(s: Seq<u8>, p: int) -> Parsed<Seq<ForwardModel>> {
    parse_vec(s, p, parse_forward_fn())
}

/// A whole description from `p` on, followed by the position after it.
pub open spec fn parse_interfaces_at(s: Seq<u8>, p: int) -> Parsed<InterfacesModel> {
    match parse_exports(s, p) {
        Ok((exports, q1)) => match parse_type_defs(s, q1) {
            Ok((types, q2)) => match parse_imports(s, q2) {
                Ok((imports, q3)) => match parse_adapters(s, q3) {
                    Ok((adapters, q4)) => match parse_forwards(s, q4) {
                        Ok((forwards, q5)) => Ok(
                            (InterfacesModel { exports, types, imports, adapters, forwards }, q5),
                        ),
                        Err(e) => Err(e),
                    },
                    Err(e) => Err(e),
                },
                Err(e) => Err(e),
            },
            Err(e) => Err(e),
        },
        Err(e) => Err(e),
    }
}

/// The meaning of a byte sequence: the description it holds, which must
/// span it exactly, or the offset and reason of the first fault.
pub open spec fn decode_spec(s: Seq<u8>) -> Result<InterfacesModel, (int, Reason)> {
    match parse_interfaces_at(s, 0) {
        Ok((x, q)) => if q == s.len() {
            Ok(x)
        } else {
            Err((q, Reason::TrailingBytes))
        },
        Err(e) => Err(e),
    }
}

// ---------------------------------------------------------------------
// Round trip

/// `e` stands in `s` from `p` on.
pub open spec fn at(s: Seq<u8>, p: int, e: Seq<u8>) -> bool {
    0 <= p && p + e.len() <= s.len() && s.subrange(p, p + e.len()) == e
}

proof fn lemma_at_split(s: Seq<u8>, p: int, a: Seq<u8>, b: Seq<u8>)
    requires
        at(s, p, a + b),
    ensures
        at(s, p, a),
        at(s, p + a.len(), b),
{
    assert(s.subrange(p, p + a.len()) =~= (a + b).subrange(0, a.len() as int));
    assert((a + b).subrange(0, a.len() as int) =~= a);
    assert(s.subrange(p + a.len(), p + a.len() + b.len()) =~= (a + b).subrange(
        a.len() as int,
        (a + b).len() as int,
    ));
    assert((a + b).subrange(a.len() as int, (a + b).len() as int) =~= b);
}

proof fn lemma_at_split3(s: Seq<u8>, p: int, a: Seq<u8>, b: Seq<u8>, c: Seq<u8>)
    requires
        at(s, p, a + b + c),
    ensures
        at(s, p, a),
        at(s, p + a.len(), b),
        at(s, p + a.len() + b.len(), c),
{
    lemma_at_split(s, p, a + b, c);
    lemma_at_split(s, p, a, b);
}

/// `128` raised to `d`.
pub open spec fn leb_cap(d: nat) -> nat
    decreases d,
{
    if d == 0 {
        1
    } else {
        128 * leb_cap((d - 1) as nat)
    }
}

proof fn lemma_u_depth(s: Seq<u8>, p: int, n: nat, d: nat)
    requires
        at(s, p, enc_u(n)),
        n <= u64::MAX,
        n < leb_cap(d),
    ensures
        parse_u_depth(s, p, d) == Ok::<(nat, int), (int, Reason)>((n, p + enc_u(n).len())),
    decreases n,
{
    assert(s[p] == enc_u(n)[0]);
    if n >= 128 {
        let m = n / 128;
        lemma_at_split(s, p, seq![((n % 128) + 128) as u8], enc_u(m));
        assert(d >= 2) by {
            if d <= 1 {
                reveal_with_fuel(leb_cap, 2);
            }
        }
        let c = leb_cap((d - 1) as nat);
        assert(m < c) by (nonlinear_arith)
            requires
                n < 128 * c,
                m == n / 128,
        ;
        lemma_u_depth(s, p + 1, m, (d - 1) as nat);
        assert((s[p] - 128) + 128 * m == n);
    }
}

proof fn lemma_u(s: Seq<u8>, p: int, n: nat)
    requires
        at(s, p, enc_u(n)),
        n <= u64::MAX,
    ensures
        parse_u(s, p) == Ok::<(nat, int), (int, Reason)>((n, p + enc_u(n).len())),
{
    reveal_with_fuel(leb_cap, 11);
    lemma_u_depth(s, p, n, 10);
}

/// A string whose UTF-8 length fits an integer of the format.
pub open spec fn str_fits(c: Seq<char>) -> bool {
    encode_utf8(c).len() <= u64::MAX
}

proof fn lemma_str(s: Seq<u8>, p: int, c: Seq<char>)
    requires
        at(s, p, enc_str(c)),
        str_fits(c),
    ensures
        parse_str(s, p) == Ok::<(Seq<char>, int), (int, Reason)>((c, p + enc_str(c).len())),
{
    let b = encode_utf8(c);
    lemma_at_split(s, p, enc_u(b.len()), b);
    lemma_u(s, p, b.len());
    encode_utf8_valid_utf8(c);
    encode_utf8_decode_utf8(c);
}

proof fn lemma_type(s: Seq<u8>, p: int, t: InterfaceType)
    requires
        at(s, p, enc_type(t)),
    ensures
        parse_type(s, p) == Ok::<(InterfaceType, int), (int, Reason)>(
            (t, p + enc_type(t).len()),
        ),
{
    lemma_u(s, p, type_tag(t));
}

proof fn lemma_items<T>(
    s: Seq<u8>,
    p: int,
    xs: Seq<T>,
    f: spec_fn(T) -> Seq<u8>,
    item: spec_fn(Seq<u8>, int) -> Parsed<T>,
)
    requires
        at(s, p, enc_items(xs, f)),
        forall|i: int, q: int|
            0 <= i < xs.len() && #[trigger] at(s, q, f(xs[i])) ==> item(s, q) == Ok::<
                (T, int),
                (int, Reason),
            >((xs[i], q + f(xs[i]).len())),
    ensures
        parse_items(s, p, xs.len(), item) == Ok::<(Seq<T>, int), (int, Reason)>(
            (xs, p + enc_items(xs, f).len()),
        ),
    decreases xs.len(),
{
    if xs.len() > 0 {
        let ys = xs.drop_last();
        lemma_at_split(s, p, enc_items(ys, f), f(xs.last()));
        assert forall|i: int, q: int|
            0 <= i < ys.len() && #[trigger] at(s, q, f(ys[i])) implies item(s, q) == Ok::<
                (T, int),
                (int, Reason),
            >((ys[i], q + f(ys[i]).len())) by {
            assert(ys[i] == xs[i]);
        }
        lemma_items(s, p, ys, f, item);
        let q = p + enc_items(ys, f).len();
        let k = xs.len() - 1;
        assert(at(s, q, f(xs[k])));
        assert(item(s, q) == Ok::<(T, int), (int, Reason)>((xs[k], q + f(xs[k]).len())));
        assert(ys.push(xs.last()) =~= xs);
        assert(ys.len() == (xs.len() - 1) as nat);
    } else {
        assert(xs =~= seq![]);
    }
}

proof fn lemma_vec<T>(
    s: Seq<u8>,
    p: int,
    xs: Seq<T>,
    f: spec_fn(T) -> Seq<u8>,
    item: spec_fn(Seq<u8>, int) -> Parsed<T>,
)
    requires
        at(s, p, enc_vec(xs, f)),
        xs.len() <= u64::MAX,
        forall|i: int, q: int|
            0 <= i < xs.len() && #[trigger] at(s, q, f(xs[i])) ==> item(s, q) == Ok::<
                (T, int),
                (int, Reason),
            >((xs[i], q + f(xs[i]).len())),
    ensures
        parse_vec(s, p, item) == Ok::<(Seq<T>, int), (int, Reason)>(
            (xs, p + enc_vec(xs, f).len()),
        ),
{
    lemma_at_split(s, p, enc_u(xs.len()), enc_items(xs, f));
    lemma_u(s, p, xs.len());
    lemma_items(s, p + enc_u(xs.len()).len(), xs, f, item);
}

proof fn lemma_types(s: Seq<u8>, p: int, ts: Seq<InterfaceType>)
    requires
        at(s, p, enc_types(ts)),
        ts.len() <= u64::MAX,
    ensures
        parse_types(s, p) == Ok::<(Seq<InterfaceType>, int), (int, Reason)>(
            (ts, p + enc_types(ts).len()),
        ),
{
    assert forall|i: int, q: int|
        0 <= i < ts.len() && #[trigger] at(s, q, enc_type_fn()(ts[i])) implies parse_type_fn()(
            s,
            q,
        ) == Ok::<(InterfaceType, int), (int, Reason)>(
            (ts[i], q + enc_type_fn()(ts[i]).len()),
        ) by {
        lemma_type(s, q, ts[i]);
    }
    lemma_vec(s, p, ts, enc_type_fn(), parse_type_fn());
}

proof fn lemma_strs(s: Seq<u8>, p: int, cs: Seq<Seq<char>>)
    requires
        at(s, p, enc_vec(cs, enc_str_fn())),
        cs.len() <= u64::MAX,
        forall|i: int| 0 <= i < cs.len() ==> str_fits(#[trigger] cs[i]),
    ensures
        parse_strs(s, p) == Ok::<(Seq<Seq<char>>, int), (int, Reason)>(
            (cs, p + enc_vec(cs, enc_str_fn()).len()),
        ),
{
    assert forall|i: int, q: int|
        0 <= i < cs.len() && #[trigger] at(s, q, enc_str_fn()(cs[i])) implies parse_str_fn()(
            s,
            q,
        ) == Ok::<(Seq<char>, int), (int, Reason)>((cs[i], q + enc_str_fn()(cs[i]).len())) by {
        lemma_str(s, q, cs[i]);
    }
    lemma_vec(s, p, cs, enc_str_fn(), parse_str_fn());
}

/// Every string and count of an instruction fits the format.
pub open spec fn instruction_fits(i: InstructionModel) -> bool {
    match i {
        InstructionModel::CallExport { export_name } => str_fits(export_name),
        InstructionModel::WriteUtf8 { allocator_name } => str_fits(allocator_name),
        InstructionModel::CallMethod(c) => str_fits(c),
        InstructionModel::GetField(_, c) => str_fits(c),
        InstructionModel::FoldSeq(c) => str_fits(c),
        _ => true,
    }
}

pub open spec fn signature_fits(ins: Seq<InterfaceType>, outs: Seq<InterfaceType>) -> bool {
    ins.len() <= u64::MAX && outs.len() <= u64::MAX
}

pub open spec fn instructions_fit(is: Seq<InstructionModel>) -> bool {
    is.len() <= u64::MAX && forall|k: int| 0 <= k < is.len() ==> instruction_fits(#[trigger] is[k])
}

pub open spec fn export_fits(e: ExportModel) -> bool {
    str_fits(e.name) && signature_fits(e.input_types, e.output_types)
}

pub open spec fn type_def_fits(t: TypeModel) -> bool {
    &&& str_fits(t.name)
    &&& t.fields.len() <= u64::MAX
    &&& forall|k: int| 0 <= k < t.fields.len() ==> str_fits(#[trigger] t.fields[k])
    &&& t.types.len() <= u64::MAX
}

pub open spec fn import_fits(i: ImportModel) -> bool {
    str_fits(i.namespace) && str_fits(i.name) && signature_fits(i.input_types, i.output_types)
}

pub open spec fn adapter_fits(a: AdapterModel) -> bool {
    match a {
        AdapterModel::Import { namespace, name, input_types, output_types, instructions } => {
            str_fits(namespace) && str_fits(name) && signature_fits(input_types, output_types)
                && instructions_fit(instructions)
        },
        AdapterModel::Export { name, input_types, output_types, instructions } => {
            str_fits(name) && signature_fits(input_types, output_types) && instructions_fit(
                instructions,
            )
        },
        AdapterModel::HelperFunction { name, input_types, output_types, instructions } => {
            str_fits(name) && signature_fits(input_types, output_types) && instructions_fit(
                instructions,
            )
        },
    }
}

/// Every string length and count of a description fits an integer of the
/// format (at most `u64::MAX`).
pub open spec fn interfaces_fit(x: InterfacesModel) -> bool {
    &&& x.exports.len() <= u64::MAX
    &&& forall|k: int| 0 <= k < x.exports.len() ==> export_fits(#[trigger] x.exports[k])
    &&& x.types.len() <= u64::MAX
    &&& forall|k: int| 0 <= k < x.types.len() ==> type_def_fits(#[trigger] x.types[k])
    &&& x.imports.len() <= u64::MAX
    &&& forall|k: int| 0 <= k < x.imports.len() ==> import_fits(#[trigger] x.imports[k])
    &&& x.adapters.len() <= u64::MAX
    &&& forall|k: int| 0 <= k < x.adapters.len() ==> adapter_fits(#[trigger] x.adapters[k])
    &&& x.forwards.len() <= u64::MAX
    &&& forall|k: int| 0 <= k < x.forwards.len() ==> str_fits(#[trigger] x.forwards[k].name)
}

proof fn lemma_opcode(s: Seq<u8>, p: int, op: nat, rest: Seq<u8>)
    requires
        at(s, p, enc_u(op) + rest),
        op < 128,
    ensures
        parse_u(s, p) == Ok::<(nat, int), (int, Reason)>((op, p + 1)),
        at(s, p + 1, rest),
{
    lemma_at_split(s, p, enc_u(op), rest);
    lemma_u(s, p, op);
}

proof fn lemma_instruction(s: Seq<u8>, p: int, i: InstructionModel)
    requires
        at(s, p, enc_instruction(i)),
        instruction_fits(i),
    ensures
        parse_instruction(s, p) == Ok::<(InstructionModel, int), (int, Reason)>(
            (i, p + enc_instruction(i).len()),
        ),
{
    match i {
        InstructionModel::ArgumentGet { index } => {
            lemma_opcode(s, p, 0, enc_u(index as nat));
            lemma_u(s, p + 1, index as nat);
        },
        InstructionModel::Call { function_index } => {
            lemma_opcode(s, p, 1, enc_u(function_index as nat));
            lemma_u(s, p + 1, function_index as nat);
        },
        InstructionModel::CallExport { export_name } => {
            lemma_opcode(s, p, 2, enc_str(export_name));
            lemma_str(s, p + 1, export_name);
        },
        InstructionModel::ReadUtf8 => {
            lemma_opcode(s, p, 3, seq![]);
            assert(enc_u(3) + seq![] =~= enc_u(3));
        },
        InstructionModel::WriteUtf8 { allocator_name } => {
            lemma_opcode(s, p, 4, enc_str(allocator_name));
            lemma_str(s, p + 1, allocator_name);
        },
        InstructionModel::AsWasm(t) => {
            lemma_opcode(s, p, 5, enc_type(t));
            lemma_type(s, p + 1, t);
        },
        InstructionModel::AsInterface(t) => {
            lemma_opcode(s, p, 6, enc_type(t));
            lemma_type(s, p + 1, t);
        },
        InstructionModel::TableRefAdd => {
            lemma_opcode(s, p, 7, seq![]);
            assert(enc_u(7) + seq![] =~= enc_u(7));
        },
        InstructionModel::TableRefGet => {
            lemma_opcode(s, p, 8, seq![]);
            assert(enc_u(8) + seq![] =~= enc_u(8));
        },
        InstructionModel::CallMethod(c) => {
            lemma_opcode(s, p, 9, enc_str(c));
            lemma_str(s, p + 1, c);
        },
        InstructionModel::MakeRecord(t) => {
            lemma_opcode(s, p, 10, enc_type(t));
            lemma_type(s, p + 1, t);
        },
        InstructionModel::GetField(t, c) => {
            assert(enc_instruction(i) =~= enc_u(11) + (enc_type(t) + enc_str(c)));
            lemma_opcode(s, p, 11, enc_type(t) + enc_str(c));
            lemma_at_split(s, p + 1, enc_type(t), enc_str(c));
            lemma_type(s, p + 1, t);
            lemma_str(s, p + 1 + enc_type(t).len(), c);
        },
        InstructionModel::Const(t, v) => {
            assert(enc_instruction(i) =~= enc_u(12) + (enc_type(t) + enc_u(v as nat)));
            lemma_opcode(s, p, 12, enc_type(t) + enc_u(v as nat));
            lemma_at_split(s, p + 1, enc_type(t), enc_u(v as nat));
            lemma_type(s, p + 1, t);
            lemma_u(s, p + 1 + enc_type(t).len(), v as nat);
        },
        InstructionModel::FoldSeq(c) => {
            lemma_opcode(s, p, 13, enc_str(c));
            lemma_str(s, p + 1, c);
        },
    }
}

proof fn lemma_instructions(s: Seq<u8>, p: int, is: Seq<InstructionModel>)
    requires
        at(s, p, enc_instructions(is)),
        instructions_fit(is),
    ensures
        parse_instructions(s, p) == Ok::<(Seq<InstructionModel>, int), (int, Reason)>(
            (is, p + enc_instructions(is).len()),
        ),
{
    assert forall|i: int, q: int|
        0 <= i < is.len() && #[trigger] at(s, q, enc_instruction_fn()(is[i])) implies parse_instruction_fn()(
            s,
            q,
        ) == Ok::<(InstructionModel, int), (int, Reason)>(
            (is[i], q + enc_instruction_fn()(is[i]).len()),
        ) by {
        lemma_instruction(s, q, is[i]);
    }
    lemma_vec(s, p, is, enc_instruction_fn(), parse_instruction_fn());
}

proof fn lemma_signature(s: Seq<u8>, p: int, ins: Seq<InterfaceType>, outs: Seq<InterfaceType>)
    requires
        at(s, p, enc_types(ins) + enc_types(outs)),
        signature_fits(ins, outs),
    ensures
        parse_signature(s, p) == Ok::<
            ((Seq<InterfaceType>, Seq<InterfaceType>), int),
            (int, Reason),
        >(((ins, outs), p + enc_types(ins).len() + enc_types(outs).len())),
{
    lemma_at_split(s, p, enc_types(ins), enc_types(outs));
    lemma_types(s, p, ins);
    lemma_types(s, p + enc_types(ins).len(), outs);
}

proof fn lemma_export(s: Seq<u8>, p: int, e: ExportModel)
    requires
        at(s, p, enc_export(e)),
        export_fits(e),
    ensures
        parse_export(s, p) == Ok::<(ExportModel, int), (int, Reason)>(
            (e, p + enc_export(e).len()),
        ),
{
    let sig = enc_types(e.input_types) + enc_types(e.output_types);
    assert(enc_export(e) =~= enc_str(e.name) + sig);
    lemma_at_split(s, p, enc_str(e.name), sig);
    lemma_str(s, p, e.name);
    lemma_signature(s, p + enc_str(e.name).len(), e.input_types, e.output_types);
}

proof fn lemma_type_def(s: Seq<u8>, p: int, t: TypeModel)
    requires
        at(s, p, enc_type_def(t)),
        type_def_fits(t),
    ensures
        parse_type_def(s, p) == Ok::<(TypeModel, int), (int, Reason)>(
            (t, p + enc_type_def(t).len()),
        ),
{
    lemma_at_split3(s, p, enc_str(t.name), enc_vec(t.fields, enc_str_fn()), enc_types(t.types));
    lemma_str(s, p, t.name);
    lemma_strs(s, p + enc_str(t.name).len(), t.fields);
    lemma_types(
        s,
        p + enc_str(t.name).len() + enc_vec(t.fields, enc_str_fn()).len(),
        t.types,
    );
}

proof fn lemma_import(s: Seq<u8>, p: int, i: ImportModel)
    requires
        at(s, p, enc_import(i)),
        import_fits(i),
    ensures
        parse_import(s, p) == Ok::<(ImportModel, int), (int, Reason)>(
            (i, p + enc_import(i).len()),
        ),
{
    let sig = enc_types(i.input_types) + enc_types(i.output_types);
    assert(enc_import(i) =~= enc_str(i.namespace) + enc_str(i.name) + sig);
    lemma_at_split3(s, p, enc_str(i.namespace), enc_str(i.name), sig);
    lemma_str(s, p, i.namespace);
    lemma_str(s, p + enc_str(i.namespace).len(), i.name);
    lemma_signature(
        s,
        p + enc_str(i.namespace).len() + enc_str(i.name).len(),
        i.input_types,
        i.output_types,
    );
}

proof fn lemma_adapter_body(
    s: Seq<u8>,
    p: int,
    ins: Seq<InterfaceType>,
    outs: Seq<InterfaceType>,
    is: Seq<InstructionModel>,
)
    requires
        at(s, p, enc_types(ins) + enc_types(outs) + enc_instructions(is)),
        signature_fits(ins, outs),
        instructions_fit(is),
    ensures
        parse_adapter_body(s, p) == Ok::<
            ((Seq<InterfaceType>, Seq<InterfaceType>, Seq<InstructionModel>), int),
            (int, Reason),
        >(
            (
                (ins, outs, is),
                p + enc_types(ins).len() + enc_types(outs).len() + enc_instructions(is).len(),
            ),
        ),
{
    lemma_at_split(s, p, enc_types(ins) + enc_types(outs), enc_instructions(is));
    lemma_signature(s, p, ins, outs);
    lemma_instructions(s, p + enc_types(ins).len() + enc_types(outs).len(), is);
}

#[verifier::spinoff_prover]
#[verifier::rlimit(30)]
proof fn lemma_adapter(s: Seq<u8>, p: int, a: AdapterModel)
    requires
        at(s, p, enc_adapter(a)),
        adapter_fits(a),
    ensures
        parse_adapter(s, p) == Ok::<(AdapterModel, int), (int, Reason)>(
            (a, p + enc_adapter(a).len()),
        ),
{
    match a {
        AdapterModel::Import { namespace, name, input_types, output_types, instructions } => {
            let body = enc_types(input_types) + enc_types(output_types) + enc_instructions(
                instructions,
            );
            assert(enc_adapter(a) =~= enc_u(0) + (enc_str(namespace) + enc_str(name) + body));
            lemma_opcode(s, p, 0, enc_str(namespace) + enc_str(name) + body);
            lemma_at_split3(s, p + 1, enc_str(namespace), enc_str(name), body);
            lemma_str(s, p + 1, namespace);
            lemma_str(s, p + 1 + enc_str(namespace).len(), name);
            lemma_adapter_body(
                s,
                p + 1 + enc_str(namespace).len() + enc_str(name).len(),
                input_types,
                output_types,
                instructions,
            );
        },
        AdapterModel::Export { name, input_types, output_types, instructions } => {
            let body = enc_types(input_types) + enc_types(output_types) + enc_instructions(
                instructions,
            );
            assert(enc_adapter(a) =~= enc_u(1) + (enc_str(name) + body));
            lemma_opcode(s, p, 1, enc_str(name) + body);
            lemma_at_split(s, p + 1, enc_str(name), body);
            lemma_str(s, p + 1, name);
            lemma_adapter_body(
                s,
                p + 1 + enc_str(name).len(),
                input_types,
                output_types,
                instructions,
            );
        },
        AdapterModel::HelperFunction { name, input_types, output_types, instructions } => {
            let body = enc_types(input_types) + enc_types(output_types) + enc_instructions(
                instructions,
            );
            assert(enc_adapter(a) =~= enc_u(2) + (enc_str(name) + body));
            lemma_opcode(s, p, 2, enc_str(name) + body);
            lemma_at_split(s, p + 1, enc_str(name), body);
            lemma_str(s, p + 1, name);
            lemma_adapter_body(
                s,
                p + 1 + enc_str(name).len(),
                input_types,
                output_types,
                instructions,
            );
        },
    }
}

proof fn lemma_exports(s: Seq<u8>, p: int, xs: Seq<ExportModel>)
    requires
        at(s, p, enc_vec(xs, enc_export_fn())),
        xs.len() <= u64::MAX,
        forall|k: int| 0 <= k < xs.len() ==> export_fits(#[trigger] xs[k]),
    ensures
        parse_exports(s, p) == Ok::<(Seq<ExportModel>, int), (int, Reason)>(
            (xs, p + enc_vec(xs, enc_export_fn()).len()),
        ),
{
    assert forall|i: int, q: int|
        0 <= i < xs.len() && #[trigger] at(s, q, enc_export_fn()(xs[i])) implies parse_export_fn()(
            s,
            q,
        ) == Ok::<(ExportModel, int), (int, Reason)>((xs[i], q + enc_export_fn()(xs[i]).len())) by {
        lemma_export(s, q, xs[i]);
    }
    lemma_vec(s, p, xs, enc_export_fn(), parse_export_fn());
}

proof fn lemma_type_defs(s: Seq<u8>, p: int, xs: Seq<TypeModel>)
    requires
        at(s, p, enc_vec(xs, enc_type_def_fn())),
        xs.len() <= u64::MAX,
        forall|k: int| 0 <= k < xs.len() ==> type_def_fits(#[trigger] xs[k]),
    ensures
        parse_type_defs(s, p) == Ok::<(Seq<TypeModel>, int), (int, Reason)>(
            (xs, p + enc_vec(xs, enc_type_def_fn()).len()),
        ),
{
    assert forall|i: int, q: int|
        0 <= i < xs.len() && #[trigger] at(s, q, enc_type_def_fn()(xs[i])) implies parse_type_def_fn()(
            s,
            q,
        ) == Ok::<(TypeModel, int), (int, Reason)>((xs[i], q + enc_type_def_fn()(xs[i]).len())) by {
        lemma_type_def(s, q, xs[i]);
    }
    lemma_vec(s, p, xs, enc_type_def_fn(), parse_type_def_fn());
}

proof fn lemma_imports(s: Seq<u8>, p: int, xs: Seq<ImportModel>)
    requires
        at(s, p, enc_vec(xs, enc_import_fn())),
        xs.len() <= u64::MAX,
        forall|k: int| 0 <= k < xs.len() ==> import_fits(#[trigger] xs[k]),
    ensures
        parse_imports(s, p) == Ok::<(Seq<ImportModel>, int), (int, Reason)>(
            (xs, p + enc_vec(xs, enc_import_fn()).len()),
        ),
{
    assert forall|i: int, q: int|
        0 <= i < xs.len() && #[trigger] at(s, q, enc_import_fn()(xs[i])) implies parse_import_fn()(
            s,
            q,
        ) == Ok::<(ImportModel, int), (int, Reason)>((xs[i], q + enc_import_fn()(xs[i]).len())) by {
        lemma_import(s, q, xs[i]);
    }
    lemma_vec(s, p, xs, enc_import_fn(), parse_import_fn());
}

proof fn lemma_adapters(s: Seq<u8>, p: int, xs: Seq<AdapterModel>)
    requires
        at(s, p, enc_vec(xs, enc_adapter_fn())),
        xs.len() <= u64::MAX,
        forall|k: int| 0 <= k < xs.len() ==> adapter_fits(#[trigger] xs[k]),
    ensures
        parse_adapters(s, p) == Ok::<(Seq<AdapterModel>, int), (int, Reason)>(
            (xs, p + enc_vec(xs, enc_adapter_fn()).len()),
        ),
{
    assert forall|i: int, q: int|
        0 <= i < xs.len() && #[trigger] at(s, q, enc_adapter_fn()(xs[i])) implies parse_adapter_fn()(
            s,
            q,
        ) == Ok::<(AdapterModel, int), (int, Reason)>((xs[i], q + enc_adapter_fn()(xs[i]).len())) by {
        lemma_adapter(s, q, xs[i]);
    }
    lemma_vec(s, p, xs, enc_adapter_fn(), parse_adapter_fn());
}

proof fn lemma_forwards(s: Seq<u8>, p: int, xs: Seq<ForwardModel>)
    requires
        at(s, p, enc_vec(xs, enc_forward_fn())),
        xs.len() <= u64::MAX,
        forall|k: int| 0 <= k < xs.len() ==> str_fits(#[trigger] xs[k].name),
    ensures
        parse_forwards(s, p) == Ok::<(Seq<ForwardModel>, int), (int, Reason)>(
            (xs, p + enc_vec(xs, enc_forward_fn()).len()),
        ),
{
    assert forall|i: int, q: int|
        0 <= i < xs.len() && #[trigger] at(s, q, enc_forward_fn()(xs[i])) implies parse_forward_fn()(
            s,
            q,
        ) == Ok::<(ForwardModel, int), (int, Reason)>((xs[i], q + enc_forward_fn()(xs[i]).len())) by {
        lemma_str(s, q, xs[i].name);
    }
    lemma_vec(s, p, xs, enc_forward_fn(), parse_forward_fn());
}

#[verifier::spinoff_prover]
proof fn lemma_interfaces(s: Seq<u8>, x: InterfacesModel)
    requires
        s == enc_interfaces(x),
        interfaces_fit(x),
    ensures
        parse_interfaces_at(s, 0) == Ok::<(InterfacesModel, int), (int, Reason)>(
            (x, s.len() as int),
        ),
{
    let e1 = enc_vec(x.exports, enc_export_fn());
    let e2 = enc_vec(x.types, enc_type_def_fn());
    let e3 = enc_vec(x.imports, enc_import_fn());
    let e4 = enc_vec(x.adapters, enc_adapter_fn());
    let e5 = enc_vec(x.forwards, enc_forward_fn());
    assert(s.subrange(0, s.len() as int) =~= s);
    lemma_at_split(s, 0, e1 + e2 + e3 + e4, e5);
    lemma_at_split(s, 0, e1 + e2 + e3, e4);
    lemma_at_split3(s, 0, e1, e2, e3);
    lemma_exports(s, 0, x.exports);
    lemma_type_defs(s, e1.len() as int, x.types);
    lemma_imports(s, (e1.len() + e2.len()) as int, x.imports);
    lemma_adapters(s, (e1.len() + e2.len() + e3.len()) as int, x.adapters);
    lemma_forwards(s, (e1.len() + e2.len() + e3.len() + e4.len()) as int, x.forwards);
}

/// Decoding the binary form of a description gives the description back.
pub proof fn lemma_binary_round_trip(x: InterfacesModel)
    requires
        interfaces_fit(x),
    ensures
        decode_spec(enc_interfaces(x)) == Ok::<InterfacesModel, (int, Reason)>(x),
{
    lemma_interfaces(enc_interfaces(x), x);
}

} // verus!
