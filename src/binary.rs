//! The executable encoder and decoder of the binary form. Each function
//! is proved to compute exactly the spec function of `wire` that it is
//! named after.

use crate::ast::{
    Adapter, AdapterModel, Export, ExportModel, Forward, ForwardModel, Import, ImportModel,
    Instruction, InstructionModel, InterfaceType, Interfaces, Type, TypeModel,
    instructions_view, strings_view,
};
use crate::strings::string_from_utf8;
use crate::wire::{
    decode_spec, enc_adapter, enc_adapter_fn, enc_export, enc_export_fn, enc_forward,
    enc_forward_fn, enc_import, enc_import_fn, enc_instruction, enc_instruction_fn,
    enc_interfaces, enc_items, enc_str, enc_str_fn, enc_type, enc_type_def, enc_type_def_fn,
    enc_type_fn, enc_u, enc_vec, parse_adapter, parse_adapter_body, parse_adapter_fn,
    parse_adapters, parse_export, parse_export_fn, parse_exports, parse_forward,
    parse_forward_fn, parse_forwards, parse_import, parse_import_fn, parse_imports,
    parse_instruction, parse_instruction_fn, parse_instructions,
    parse_items, parse_signature, parse_str, parse_str_fn, parse_strs,
    parse_type, parse_type_def, parse_type_def_fn, parse_type_defs, parse_type_fn,
    parse_types, parse_u, parse_u_depth, type_of_tag, type_tag, Malformed, Parsed, Reason,
};
use vstd::prelude::*;
use vstd::utf8::encode_utf8;

verus! {

/// `r` is what the spec parse `sp` gives, with `view` taking an executable
/// value to its model.
pub open spec fn agrees<T, U>(
    r: Result<(T, usize), Malformed>,
    sp: Parsed<U>,
    view: spec_fn(T) -> U,
) -> bool {
    match r {
        Ok((v, q)) => sp == Ok::<(U, int), (int, Reason)>((view(v), q as int)),
        Err(e) => sp == Err::<(U, int), (int, Reason)>((e.offset as int, e.reason)),
    }
}

/// A position handed back by a successful read lies within the input.
pub open spec fn within<T>(r: Result<(T, usize), Malformed>, len: int) -> bool {
    r matches Ok((_, q)) ==> q <= len
}

proof fn lemma_enc_items_step<T>(xs: Seq<T>, i: int, f: spec_fn(T) -> Seq<u8>)
    requires
        0 <= i < xs.len(),
    ensures
        enc_items(xs.subrange(0, i + 1), f) == enc_items(xs.subrange(0, i), f) + f(xs[i]),
{
    assert(xs.subrange(0, i + 1).drop_last() =~= xs.subrange(0, i));
}

proof fn lemma_items_err<T>(
    s: Seq<u8>,
    p: int,
    i: nat,
    n: nat,
    item: spec_fn(Seq<u8>, int) -> Parsed<T>,
)
    requires
        i <= n,
        parse_items(s, p, i, item) is Err,
    ensures
        parse_items(s, p, n, item) == parse_items(s, p, i, item),
    decreases n,
{
    if n > i {
        lemma_items_err(s, p, i, (n - 1) as nat, item);
    }
}

// ---------------------------------------------------------------------
// Encoder

fn write_u(out: &mut Vec<u8>, n: u64)
    ensures
        final(out)@ == old(out)@ + enc_u(n as nat),
    decreases n,
{
    if n < 128 {
        out.push(n as u8);
    } else {
        let ghost start = out@;
        out.push(((n % 128) + 128) as u8);
        write_u(out, n / 128);
        assert(start + enc_u(n as nat) =~= start.push(((n % 128) + 128) as u8) + enc_u(
            (n / 128) as nat,
        ));
    }
}

fn write_str(out: &mut Vec<u8>, s: &String)
    ensures
        final(out)@ == old(out)@ + enc_str(s@),
{
    let b = s.as_str().as_bytes();
    let ghost start = out@;
    write_u(out, b.len() as u64);
    let ghost mid = out@;
    let mut i: usize = 0;
    while i < b.len()
        invariant
            b@ == encode_utf8(s@),
            i <= b@.len(),
            mid == start + enc_u(b@.len()),
            out@ == mid + b@.subrange(0, i as int),
        decreases b.len() - i,
    {
        out.push(b[i]);
        i += 1;
        assert(out@ =~= mid + b@.subrange(0, i as int));
    }
    assert(b@.subrange(0, b@.len() as int) =~= b@);
    assert(out@ =~= start + enc_str(s@));
}

/// The tag of an interface type.
pub fn type_to_tag(t: InterfaceType) -> (r: u8)
    ensures
        r as nat == type_tag(t),
{
    match t {
        InterfaceType::Int => 0,
        InterfaceType::Float => 1,
        InterfaceType::Any => 2,
        InterfaceType::String => 3,
        InterfaceType::Sequence => 4,
        InterfaceType::I32 => 5,
        InterfaceType::I64 => 6,
        InterfaceType::F32 => 7,
        InterfaceType::F64 => 8,
        InterfaceType::AnyRef => 9,
    }
}

/// The interface type of a tag, if any.
pub fn tag_to_type(n: u64) -> (r: Option<InterfaceType>)
    ensures
        r == type_of_tag(n as nat),
{
    match n {
        0 => Some(InterfaceType::Int),
        1 => Some(InterfaceType::Float),
        2 => Some(InterfaceType::Any),
        3 => Some(InterfaceType::String),
        4 => Some(InterfaceType::Sequence),
        5 => Some(InterfaceType::I32),
        6 => Some(InterfaceType::I64),
        7 => Some(InterfaceType::F32),
        8 => Some(InterfaceType::F64),
        9 => Some(InterfaceType::AnyRef),
        _ => None,
    }
}

fn write_type(out: &mut Vec<u8>, t: InterfaceType)
    ensures
        final(out)@ == old(out)@ + enc_type(t),
{
    write_u(out, type_to_tag(t) as u64);
}

fn write_instruction(out: &mut Vec<u8>, i: &Instruction)
    ensures
        final(out)@ == old(out)@ + enc_instruction(i@),
{
    let ghost start = out@;
    match i {
        Instruction::ArgumentGet { index } => {
            write_u(out, 0);
            write_u(out, *index);
        },
        Instruction::Call { function_index } => {
            write_u(out, 1);
            write_u(out, *function_index);
        },
        Instruction::CallExport { export_name } => {
            write_u(out, 2);
            write_str(out, export_name);
        },
        Instruction::ReadUtf8 => {
            write_u(out, 3);
        },
        Instruction::WriteUtf8 { allocator_name } => {
            write_u(out, 4);
            write_str(out, allocator_name);
        },
        Instruction::AsWasm(t) => {
            write_u(out, 5);
            write_type(out, *t);
        },
        Instruction::AsInterface(t) => {
            write_u(out, 6);
            write_type(out, *t);
        },
        Instruction::TableRefAdd => {
            write_u(out, 7);
        },
        Instruction::TableRefGet => {
            write_u(out, 8);
        },
        Instruction::CallMethod(c) => {
            write_u(out, 9);
            write_str(out, c);
        },
        Instruction::MakeRecord(t) => {
            write_u(out, 10);
            write_type(out, *t);
        },
        Instruction::GetField(t, c) => {
            write_u(out, 11);
            write_type(out, *t);
            write_str(out, c);
        },
        Instruction::Const(t, v) => {
            write_u(out, 12);
            write_type(out, *t);
            write_u(out, *v);
        },
        Instruction::FoldSeq(c) => {
            write_u(out, 13);
            write_str(out, c);
        },
    }
    assert(out@ =~= start + enc_instruction(i@));
}

fn write_types(out: &mut Vec<u8>, v: &Vec<InterfaceType>)
    ensures
        final(out)@ == old(out)@ + enc_vec(v@, enc_type_fn()),
{
    let ghost xs = v@;
    let ghost start = out@;
    write_u(out, v.len() as u64);
    let ghost mid = out@;
    let mut i: usize = 0;
    while i < v.len()
        invariant
            xs == v@,
            i <= v@.len(),
            mid == start + enc_u(v@.len()),
            out@ == mid + enc_items(xs.subrange(0, i as int), enc_type_fn()),
        decreases v.len() - i,
    {
        write_type(out, v[i]);
        proof {
            lemma_enc_items_step(xs, i as int, enc_type_fn());
        }
        i += 1;
        assert(out@ =~= mid + enc_items(xs.subrange(0, i as int), enc_type_fn()));
    }
    assert(xs.subrange(0, v@.len() as int) =~= xs);
    assert(out@ =~= start + enc_vec(xs, enc_type_fn()));
}

fn write_strs(out: &mut Vec<u8>, v: &Vec<String>)
    ensures
        final(out)@ == old(out)@ + enc_vec(strings_view(v@), enc_str_fn()),
{
    let ghost xs = strings_view(v@);
    let ghost start = out@;
    write_u(out, v.len() as u64);
    let ghost mid = out@;
    let mut i: usize = 0;
    while i < v.len()
        invariant
            xs == strings_view(v@),
            i <= v@.len(),
            mid == start + enc_u(v@.len()),
            out@ == mid + enc_items(xs.subrange(0, i as int), enc_str_fn()),
        decreases v.len() - i,
    {
        write_str(out, &v[i]);
        proof {
            lemma_enc_items_step(xs, i as int, enc_str_fn());
        }
        i += 1;
        assert(out@ =~= mid + enc_items(xs.subrange(0, i as int), enc_str_fn()));
    }
    assert(xs.subrange(0, v@.len() as int) =~= xs);
    assert(out@ =~= start + enc_vec(xs, enc_str_fn()));
}

fn write_instructions(out: &mut Vec<u8>, v: &Vec<Instruction>)
    ensures
        final(out)@ == old(out)@ + enc_vec(instructions_view(v@), enc_instruction_fn()),
{
    let ghost xs = instructions_view(v@);
    let ghost start = out@;
    write_u(out, v.len() as u64);
    let ghost mid = out@;
    let mut i: usize = 0;
    while i < v.len()
        invariant
            xs == instructions_view(v@),
            i <= v@.len(),
            mid == start + enc_u(v@.len()),
            out@ == mid + enc_items(xs.subrange(0, i as int), enc_instruction_fn()),
        decreases v.len() - i,
    {
        write_instruction(out, &v[i]);
        proof {
            lemma_enc_items_step(xs, i as int, enc_instruction_fn());
        }
        i += 1;
        assert(out@ =~= mid + enc_items(xs.subrange(0, i as int), enc_instruction_fn()));
    }
    assert(xs.subrange(0, v@.len() as int) =~= xs);
    assert(out@ =~= start + enc_vec(xs, enc_instruction_fn()));
}

fn write_export(out: &mut Vec<u8>, e: &Export)
    ensures
        final(out)@ == old(out)@ + enc_export(e@),
{
    let ghost start = out@;
    write_str(out, &e.name);
    write_types(out, &e.input_types);
    write_types(out, &e.output_types);
    assert(out@ =~= start + enc_export(e@));
}

fn write_type_def(out: &mut Vec<u8>, t: &Type)
    ensures
        final(out)@ == old(out)@ + enc_type_def(t@),
{
    let ghost start = out@;
    write_str(out, &t.name);
    write_strs(out, &t.fields);
    write_types(out, &t.types);
    assert(out@ =~= start + enc_type_def(t@));
}

fn write_import(out: &mut Vec<u8>, i: &Import)
    ensures
        final(out)@ == old(out)@ + enc_import(i@),
{
    let ghost start = out@;
    write_str(out, &i.namespace);
    write_str(out, &i.name);
    write_types(out, &i.input_types);
    write_types(out, &i.output_types);
    assert(out@ =~= start + enc_import(i@));
}

fn write_adapter(out: &mut Vec<u8>, a: &Adapter)
    ensures
        final(out)@ == old(out)@ + enc_adapter(a@),
{
    let ghost start = out@;
    match a {
        Adapter::Import { namespace, name, input_types, output_types, instructions } => {
            write_u(out, 0);
            write_str(out, namespace);
            write_str(out, name);
            write_types(out, input_types);
            write_types(out, output_types);
            write_instructions(out, instructions);
        },
        Adapter::Export { name, input_types, output_types, instructions } => {
            write_u(out, 1);
            write_str(out, name);
            write_types(out, input_types);
            write_types(out, output_types);
            write_instructions(out, instructions);
        },
        Adapter::HelperFunction { name, input_types, output_types, instructions } => {
            write_u(out, 2);
            write_str(out, name);
            write_types(out, input_types);
            write_types(out, output_types);
            write_instructions(out, instructions);
        },
    }
    assert(out@ =~= start + enc_adapter(a@));
}

fn write_forward(out: &mut Vec<u8>, f: &Forward)
    ensures
        final(out)@ == old(out)@ + enc_forward(f@),
{
    write_str(out, &f.name);
}

fn write_exports(out: &mut Vec<u8>, v: &Vec<Export>)
    ensures
        final(out)@ == old(out)@ + enc_vec(v@.map_values(|e: Export| e@), enc_export_fn()),
{
    let ghost xs = v@.map_values(|e: Export| e@);
    let ghost start = out@;
    write_u(out, v.len() as u64);
    let ghost mid = out@;
    let mut i: usize = 0;
    while i < v.len()
        invariant
            xs == v@.map_values(|e: Export| e@),
            i <= v@.len(),
            mid == start + enc_u(v@.len()),
            out@ == mid + enc_items(xs.subrange(0, i as int), enc_export_fn()),
        decreases v.len() - i,
    {
        write_export(out, &v[i]);
        proof {
            lemma_enc_items_step(xs, i as int, enc_export_fn());
        }
        i += 1;
        assert(out@ =~= mid + enc_items(xs.subrange(0, i as int), enc_export_fn()));
    }
    assert(xs.subrange(0, v@.len() as int) =~= xs);
    assert(out@ =~= start + enc_vec(xs, enc_export_fn()));
}

fn write_type_defs(out: &mut Vec<u8>, v: &Vec<Type>)
    ensures
        final(out)@ == old(out)@ + enc_vec(v@.map_values(|t: Type| t@), enc_type_def_fn()),
{
    let ghost xs = v@.map_values(|t: Type| t@);
    let ghost start = out@;
    write_u(out, v.len() as u64);
    let ghost mid = out@;
    let mut i: usize = 0;
    while i < v.len()
        invariant
            xs == v@.map_values(|t: Type| t@),
            i <= v@.len(),
            mid == start + enc_u(v@.len()),
            out@ == mid + enc_items(xs.subrange(0, i as int), enc_type_def_fn()),
        decreases v.len() - i,
    {
        write_type_def(out, &v[i]);
        proof {
            lemma_enc_items_step(xs, i as int, enc_type_def_fn());
        }
        i += 1;
        assert(out@ =~= mid + enc_items(xs.subrange(0, i as int), enc_type_def_fn()));
    }
    assert(xs.subrange(0, v@.len() as int) =~= xs);
    assert(out@ =~= start + enc_vec(xs, enc_type_def_fn()));
}

fn write_imports(out: &mut Vec<u8>, v: &Vec<Import>)
    ensures
        final(out)@ == old(out)@ + enc_vec(v@.map_values(|e: Import| e@), enc_import_fn()),
{
    let ghost xs = v@.map_values(|e: Import| e@);
    let ghost start = out@;
    write_u(out, v.len() as u64);
    let ghost mid = out@;
    let mut i: usize = 0;
    while i < v.len()
        invariant
            xs == v@.map_values(|e: Import| e@),
            i <= v@.len(),
            mid == start + enc_u(v@.len()),
            out@ == mid + enc_items(xs.subrange(0, i as int), enc_import_fn()),
        decreases v.len() - i,
    {
        write_import(out, &v[i]);
        proof {
            lemma_enc_items_step(xs, i as int, enc_import_fn());
        }
        i += 1;
        assert(out@ =~= mid + enc_items(xs.subrange(0, i as int), enc_import_fn()));
    }
    assert(xs.subrange(0, v@.len() as int) =~= xs);
    assert(out@ =~= start + enc_vec(xs, enc_import_fn()));
}

fn write_adapters(out: &mut Vec<u8>, v: &Vec<Adapter>)
    ensures
        final(out)@ == old(out)@ + enc_vec(v@.map_values(|a: Adapter| a@), enc_adapter_fn()),
{
    let ghost xs = v@.map_values(|a: Adapter| a@);
    let ghost start = out@;
    write_u(out, v.len() as u64);
    let ghost mid = out@;
    let mut i: usize = 0;
    while i < v.len()
        invariant
            xs == v@.map_values(|a: Adapter| a@),
            i <= v@.len(),
            mid == start + enc_u(v@.len()),
            out@ == mid + enc_items(xs.subrange(0, i as int), enc_adapter_fn()),
        decreases v.len() - i,
    {
        write_adapter(out, &v[i]);
        proof {
            lemma_enc_items_step(xs, i as int, enc_adapter_fn());
        }
        i += 1;
        assert(out@ =~= mid + enc_items(xs.subrange(0, i as int), enc_adapter_fn()));
    }
    assert(xs.subrange(0, v@.len() as int) =~= xs);
    assert(out@ =~= start + enc_vec(xs, enc_adapter_fn()));
}

fn write_forwards(out: &mut Vec<u8>, v: &Vec<Forward>)
    ensures
        final(out)@ == old(out)@ + enc_vec(v@.map_values(|f: Forward| f@), enc_forward_fn()),
{
    let ghost xs = v@.map_values(|f: Forward| f@);
    let ghost start = out@;
    write_u(out, v.len() as u64);
    let ghost mid = out@;
    let mut i: usize = 0;
    while i < v.len()
        invariant
            xs == v@.map_values(|f: Forward| f@),
            i <= v@.len(),
            mid == start + enc_u(v@.len()),
            out@ == mid + enc_items(xs.subrange(0, i as int), enc_forward_fn()),
        decreases v.len() - i,
    {
        write_forward(out, &v[i]);
        proof {
            lemma_enc_items_step(xs, i as int, enc_forward_fn());
        }
        i += 1;
        assert(out@ =~= mid + enc_items(xs.subrange(0, i as int), enc_forward_fn()));
    }
    assert(xs.subrange(0, v@.len() as int) =~= xs);
    assert(out@ =~= start + enc_vec(xs, enc_forward_fn()));
}

/// The binary form of a description.
pub fn encode(x: &Interfaces) -> (r: Vec<u8>)
    ensures
        r@ == enc_interfaces(x@),
{
    let mut out: Vec<u8> = Vec::new();
    write_exports(&mut out, &x.exports);
    write_type_defs(&mut out, &x.types);
    write_imports(&mut out, &x.imports);
    write_adapters(&mut out, &x.adapters);
    write_forwards(&mut out, &x.forwards);
    assert(out@ =~= enc_interfaces(x@));
    out
}

// ---------------------------------------------------------------------
// Decoder

fn read_u_depth(s: &[u8], p: usize, depth: u8) -> (r: Result<(u64, usize), Malformed>)
    ensures
        agrees(r, parse_u_depth(s@, p as int, depth as nat), |v: u64| v as nat),
        within(r, s@.len() as int),
    decreases depth,
{
    if p >= s.len() {
        return Err(Malformed { offset: s.len(), reason: Reason::UnexpectedEnd });
    }
    let b = s[p];
    if b < 128 {
        Ok((b as u64, p + 1))
    } else if depth <= 1 {
        Err(Malformed { offset: p, reason: Reason::IntegerTooLarge })
    } else {
        match read_u_depth(s, p + 1, depth - 1) {
            Ok((v, q)) => {
                if v >= 0x200_0000_0000_0000 {
                    Err(Malformed { offset: p, reason: Reason::IntegerTooLarge })
                } else {
                    Ok(((b - 128) as u64 + 128 * v, q))
                }
            },
            Err(e) => Err(e),
        }
    }
}

fn read_u(s: &[u8], p: usize) -> (r: Result<(u64, usize), Malformed>)
    ensures
        agrees(r, parse_u(s@, p as int), |v: u64| v as nat),
        within(r, s@.len() as int),
{
    read_u_depth(s, p, 10)
}

fn read_str(s: &[u8], p: usize) -> (r: Result<(String, usize), Malformed>)
    ensures
        agrees(r, parse_str(s@, p as int), |t: String| t@),
        within(r, s@.len() as int),
{
    let (n, q) = match read_u(s, p) {
        Ok(x) => x,
        Err(e) => return Err(e),
    };
    if n > (s.len() - q) as u64 {
        return Err(Malformed { offset: s.len(), reason: Reason::UnexpectedEnd });
    }
    let end = q + n as usize;
    match string_from_utf8(&s[q..end]) {
        Some(t) => Ok((t, end)),
        None => Err(Malformed { offset: q, reason: Reason::InvalidUtf8 }),
    }
}

fn read_type(s: &[u8], p: usize) -> (r: Result<(InterfaceType, usize), Malformed>)
    ensures
        agrees(r, parse_type(s@, p as int), |t: InterfaceType| t),
        within(r, s@.len() as int),
{
    let (n, q) = match read_u(s, p) {
        Ok(x) => x,
        Err(e) => return Err(e),
    };
    match tag_to_type(n) {
        Some(t) => Ok((t, q)),
        None => Err(Malformed { offset: p, reason: Reason::UnknownTypeTag }),
    }
}

fn read_types(s: &[u8], p: usize) -> (r: Result<(Vec<InterfaceType>, usize), Malformed>)
    ensures
        agrees(r, parse_types(s@, p as int), |v: Vec<InterfaceType>| v@),
        within(r, s@.len() as int),
{
    let (n, q0) = match read_u(s, p) {
        Ok(x) => x,
        Err(e) => return Err(e),
    };
    let mut v: Vec<InterfaceType> = Vec::new();
    let mut q = q0;
    let mut i: u64 = 0;
    assert(v@ =~= Seq::<InterfaceType>::empty());
    while i < n
        invariant
            parse_u(s@, p as int) == Ok::<(nat, int), (int, Reason)>((n as nat, q0 as int)),
            i <= n,
            q <= s@.len(),
            parse_items(s@, q0 as int, i as nat, parse_type_fn()) == Ok::<
                (Seq<InterfaceType>, int),
                (int, Reason),
            >((v@, q as int)),
        decreases n - i,
    {
        match read_type(s, q) {
            Ok((x, q2)) => {
                let ghost before = v@;
                v.push(x);
                proof {
                    let b = before;
                    assert(b.push(x) =~= b.push(
                        seq![x][0],
                    ));
                }
                q = q2;
                i += 1;
            },
            Err(e) => {
                proof {
                    lemma_items_err(s@, q0 as int, (i + 1) as nat, n as nat, parse_type_fn());
                }
                return Err(e);
            },
        }
    }
    Ok((v, q))
}

fn read_strs(s: &[u8], p: usize) -> (r: Result<(Vec<String>, usize), Malformed>)
    ensures
        agrees(r, parse_strs(s@, p as int), |v: Vec<String>| strings_view(v@)),
        within(r, s@.len() as int),
{
    let (n, q0) = match read_u(s, p) {
        Ok(x) => x,
        Err(e) => return Err(e),
    };
    let mut v: Vec<String> = Vec::new();
    let mut q = q0;
    let mut i: u64 = 0;
    assert(strings_view(v@) =~= Seq::<Seq<char>>::empty());
    while i < n
        invariant
            parse_u(s@, p as int) == Ok::<(nat, int), (int, Reason)>((n as nat, q0 as int)),
            i <= n,
            q <= s@.len(),
            parse_items(s@, q0 as int, i as nat, parse_str_fn()) == Ok::<
                (Seq<Seq<char>>, int),
                (int, Reason),
            >((strings_view(v@), q as int)),
        decreases n - i,
    {
        match read_str(s, q) {
            Ok((x, q2)) => {
                let ghost before = v@;
                v.push(x);
                proof {
                    let b = before;
                    assert(strings_view(b.push(x)) =~= strings_view(b).push(
                        strings_view(seq![x])[0],
                    ));
                }
                q = q2;
                i += 1;
            },
            Err(e) => {
                proof {
                    lemma_items_err(s@, q0 as int, (i + 1) as nat, n as nat, parse_str_fn());
                }
                return Err(e);
            },
        }
    }
    Ok((v, q))
}

fn read_instruction(s: &[u8], p: usize) -> (r: Result<(Instruction, usize), Malformed>)
    ensures
        agrees(r, parse_instruction(s@, p as int), |i: Instruction| i@),
        within(r, s@.len() as int),
{
    let (op, q) = match read_u(s, p) {
        Ok(x) => x,
        Err(e) => return Err(e),
    };
    if op == 0 {
        match read_u(s, q) {
            Ok((v, r)) => Ok((Instruction::ArgumentGet { index: v }, r)),
            Err(e) => Err(e),
        }
    } else if op == 1 {
        match read_u(s, q) {
            Ok((v, r)) => Ok((Instruction::Call { function_index: v }, r)),
            Err(e) => Err(e),
        }
    } else if op == 2 {
        match read_str(s, q) {
            Ok((v, r)) => Ok((Instruction::CallExport { export_name: v }, r)),
            Err(e) => Err(e),
        }
    } else if op == 3 {
        Ok((Instruction::ReadUtf8, q))
    } else if op == 4 {
        match read_str(s, q) {
            Ok((v, r)) => Ok((Instruction::WriteUtf8 { allocator_name: v }, r)),
            Err(e) => Err(e),
        }
    } else if op == 5 {
        match read_type(s, q) {
            Ok((t, r)) => Ok((Instruction::AsWasm(t), r)),
            Err(e) => Err(e),
        }
    } else if op == 6 {
        match read_type(s, q) {
            Ok((t, r)) => Ok((Instruction::AsInterface(t), r)),
            Err(e) => Err(e),
        }
    } else if op == 7 {
        Ok((Instruction::TableRefAdd, q))
    } else if op == 8 {
        Ok((Instruction::TableRefGet, q))
    } else if op == 9 {
        match read_str(s, q) {
            Ok((v, r)) => Ok((Instruction::CallMethod(v), r)),
            Err(e) => Err(e),
        }
    } else if op == 10 {
        match read_type(s, q) {
            Ok((t, r)) => Ok((Instruction::MakeRecord(t), r)),
            Err(e) => Err(e),
        }
    } else if op == 11 {
        match read_type(s, q) {
            Ok((t, r)) => match read_str(s, r) {
                Ok((v, r2)) => Ok((Instruction::GetField(t, v), r2)),
                Err(e) => Err(e),
            },
            Err(e) => Err(e),
        }
    } else if op == 12 {
        match read_type(s, q) {
            Ok((t, r)) => match read_u(s, r) {
                Ok((v, r2)) => Ok((Instruction::Const(t, v), r2)),
                Err(e) => Err(e),
            },
            Err(e) => Err(e),
        }
    } else if op == 13 {
        match read_str(s, q) {
            Ok((v, r)) => Ok((Instruction::FoldSeq(v), r)),
            Err(e) => Err(e),
        }
    } else {
        Err(Malformed { offset: p, reason: Reason::UnknownOpcode })
    }
}

fn read_instructions(s: &[u8], p: usize) -> (r: Result<(Vec<Instruction>, usize), Malformed>)
    ensures
        agrees(r, parse_instructions(s@, p as int), |v: Vec<Instruction>| instructions_view(v@)),
        within(r, s@.len() as int),
{
    let (n, q0) = match read_u(s, p) {
        Ok(x) => x,
        Err(e) => return Err(e),
    };
    let mut v: Vec<Instruction> = Vec::new();
    let mut q = q0;
    let mut i: u64 = 0;
    assert(instructions_view(v@) =~= Seq::<InstructionModel>::empty());
    while i < n
        invariant
            parse_u(s@, p as int) == Ok::<(nat, int), (int, Reason)>((n as nat, q0 as int)),
            i <= n,
            q <= s@.len(),
            parse_items(s@, q0 as int, i as nat, parse_instruction_fn()) == Ok::<
                (Seq<InstructionModel>, int),
                (int, Reason),
            >((instructions_view(v@), q as int)),
        decreases n - i,
    {
        match read_instruction(s, q) {
            Ok((x, q2)) => {
                let ghost before = v@;
                v.push(x);
                proof {
                    let b = before;
                    assert(instructions_view(b.push(x)) =~= instructions_view(b).push(
                        instructions_view(seq![x])[0],
                    ));
                }
                q = q2;
                i += 1;
            },
            Err(e) => {
                proof {
                    lemma_items_err(s@, q0 as int, (i + 1) as nat, n as nat, parse_instruction_fn());
                }
                return Err(e);
            },
        }
    }
    Ok((v, q))
}

fn read_signature(s: &[u8], p: usize) -> (r: Result<
    ((Vec<InterfaceType>, Vec<InterfaceType>), usize),
    Malformed,
>)
    ensures
        agrees(
            r,
            parse_signature(s@, p as int),
            |x: (Vec<InterfaceType>, Vec<InterfaceType>)| (x.0@, x.1@),
        ),
        within(r, s@.len() as int),
{
    match read_types(s, p) {
        Ok((ins, q)) => match read_types(s, q) {
            Ok((outs, r)) => Ok(((ins, outs), r)),
            Err(e) => Err(e),
        },
        Err(e) => Err(e),
    }
}

fn read_export(s: &[u8], p: usize) -> (r: Result<(Export, usize), Malformed>)
    ensures
        agrees(r, parse_export(s@, p as int), |e: Export| e@),
        within(r, s@.len() as int),
{
    match read_str(s, p) {
        Ok((name, q)) => match read_signature(s, q) {
            Ok(((input_types, output_types), r)) => Ok(
                (Export { name, input_types, output_types }, r),
            ),
            Err(e) => Err(e),
        },
        Err(e) => Err(e),
    }
}

fn read_type_def(s: &[u8], p: usize) -> (r: Result<(Type, usize), Malformed>)
    ensures
        agrees(r, parse_type_def(s@, p as int), |t: Type| t@),
        within(r, s@.len() as int),
{
    match read_str(s, p) {
        Ok((name, q)) => match read_strs(s, q) {
            Ok((fields, r)) => match read_types(s, r) {
                Ok((types, r2)) => Ok((Type { name, fields, types }, r2)),
                Err(e) => Err(e),
            },
            Err(e) => Err(e),
        },
        Err(e) => Err(e),
    }
}

fn read_import(s: &[u8], p: usize) -> (r: Result<(Import, usize), Malformed>)
    ensures
        agrees(r, parse_import(s@, p as int), |i: Import| i@),
        within(r, s@.len() as int),
{
    match read_str(s, p) {
        Ok((namespace, q)) => match read_str(s, q) {
            Ok((name, r)) => match read_signature(s, r) {
                Ok(((input_types, output_types), r2)) => Ok(
                    (Import { namespace, name, input_types, output_types }, r2),
                ),
                Err(e) => Err(e),
            },
            Err(e) => Err(e),
        },
        Err(e) => Err(e),
    }
}

fn read_adapter_body(s: &[u8], p: usize) -> (r: Result<
    ((Vec<InterfaceType>, Vec<InterfaceType>, Vec<Instruction>), usize),
    Malformed,
>)
    ensures
        agrees(
            r,
            parse_adapter_body(s@, p as int),
            |x: (Vec<InterfaceType>, Vec<InterfaceType>, Vec<Instruction>)|
                (x.0@, x.1@, instructions_view(x.2@)),
        ),
        within(r, s@.len() as int),
{
    match read_signature(s, p) {
        Ok(((ins, outs), q)) => match read_instructions(s, q) {
            Ok((is, r)) => Ok(((ins, outs, is), r)),
            Err(e) => Err(e),
        },
        Err(e) => Err(e),
    }
}

fn read_adapter(s: &[u8], p: usize) -> (r: Result<(Adapter, usize), Malformed>)
    ensures
        agrees(r, parse_adapter(s@, p as int), |a: Adapter| a@),
        within(r, s@.len() as int),
{
    let (kind, q) = match read_u(s, p) {
        Ok(x) => x,
        Err(e) => return Err(e),
    };
    if kind == 0 {
        match read_str(s, q) {
            Ok((namespace, r)) => match read_str(s, r) {
                Ok((name, r2)) => match read_adapter_body(s, r2) {
                    Ok(((input_types, output_types, instructions), r3)) => Ok(
                        (
                            Adapter::Import {
                                namespace,
                                name,
                                input_types,
                                output_types,
                                instructions,
                            },
                            r3,
                        ),
                    ),
                    Err(e) => Err(e),
                },
                Err(e) => Err(e),
            },
            Err(e) => Err(e),
        }
    } else if kind == 1 || kind == 2 {
        match read_str(s, q) {
            Ok((name, r)) => match read_adapter_body(s, r) {
                Ok(((input_types, output_types, instructions), r2)) => {
                    if kind == 1 {
                        Ok((Adapter::Export { name, input_types, output_types, instructions }, r2))
                    } else {
                        Ok(
                            (
                                Adapter::HelperFunction {
                                    name,
                                    input_types,
                                    output_types,
                                    instructions,
                                },
                                r2,
                            ),
                        )
                    }
                },
                Err(e) => Err(e),
            },
            Err(e) => Err(e),
        }
    } else {
        Err(Malformed { offset: p, reason: Reason::UnknownAdapterKind })
    }
}

fn read_forward(s: &[u8], p: usize) -> (r: Result<(Forward, usize), Malformed>)
    ensures
        agrees(r, parse_forward(s@, p as int), |f: Forward| f@),
        within(r, s@.len() as int),
{
    match read_str(s, p) {
        Ok((name, q)) => Ok((Forward { name }, q)),
        Err(e) => Err(e),
    }
}

fn read_exports(s: &[u8], p: usize) -> (r: Result<(Vec<Export>, usize), Malformed>)
    ensures
        agrees(r, parse_exports(s@, p as int), |v: Vec<Export>| v@.map_values(|e: Export| e@)),
        within(r, s@.len() as int),
{
    let (n, q0) = match read_u(s, p) {
        Ok(x) => x,
        Err(e) => return Err(e),
    };
    let mut v: Vec<Export> = Vec::new();
    let mut q = q0;
    let mut i: u64 = 0;
    assert(v@.map_values(|e: Export| e@) =~= Seq::<ExportModel>::empty());
    while i < n
        invariant
            parse_u(s@, p as int) == Ok::<(nat, int), (int, Reason)>((n as nat, q0 as int)),
            i <= n,
            q <= s@.len(),
            parse_items(s@, q0 as int, i as nat, parse_export_fn()) == Ok::<
                (Seq<ExportModel>, int),
                (int, Reason),
            >((v@.map_values(|e: Export| e@), q as int)),
        decreases n - i,
    {
        match read_export(s, q) {
            Ok((x, q2)) => {
                let ghost before = v@;
                v.push(x);
                proof {
                    let b = before;
                    assert(b.push(x).map_values(|e: Export| e@) =~= b.map_values(|e: Export| e@).push(
                        seq![x].map_values(|e: Export| e@)[0],
                    ));
                }
                q = q2;
                i += 1;
            },
            Err(e) => {
                proof {
                    lemma_items_err(s@, q0 as int, (i + 1) as nat, n as nat, parse_export_fn());
                }
                return Err(e);
            },
        }
    }
    Ok((v, q))
}

fn read_type_defs(s: &[u8], p: usize) -> (r: Result<(Vec<Type>, usize), Malformed>)
    ensures
        agrees(r, parse_type_defs(s@, p as int), |v: Vec<Type>| v@.map_values(|t: Type| t@)),
        within(r, s@.len() as int),
{
    let (n, q0) = match read_u(s, p) {
        Ok(x) => x,
        Err(e) => return Err(e),
    };
    let mut v: Vec<Type> = Vec::new();
    let mut q = q0;
    let mut i: u64 = 0;
    assert(v@.map_values(|t: Type| t@) =~= Seq::<TypeModel>::empty());
    while i < n
        invariant
            parse_u(s@, p as int) == Ok::<(nat, int), (int, Reason)>((n as nat, q0 as int)),
            i <= n,
            q <= s@.len(),
            parse_items(s@, q0 as int, i as nat, parse_type_def_fn()) == Ok::<
                (Seq<TypeModel>, int),
                (int, Reason),
            >((v@.map_values(|t: Type| t@), q as int)),
        decreases n - i,
    {
        match read_type_def(s, q) {
            Ok((x, q2)) => {
                let ghost before = v@;
                v.push(x);
                proof {
                    let b = before;
                    assert(b.push(x).map_values(|t: Type| t@) =~= b.map_values(|t: Type| t@).push(
                        seq![x].map_values(|t: Type| t@)[0],
                    ));
                }
                q = q2;
                i += 1;
            },
            Err(e) => {
                proof {
                    lemma_items_err(s@, q0 as int, (i + 1) as nat, n as nat, parse_type_def_fn());
                }
                return Err(e);
            },
        }
    }
    Ok((v, q))
}

fn read_imports(s: &[u8], p: usize) -> (r: Result<(Vec<Import>, usize), Malformed>)
    ensures
        agrees(r, parse_imports(s@, p as int), |v: Vec<Import>| v@.map_values(|i: Import| i@)),
        within(r, s@.len() as int),
{
    let (n, q0) = match read_u(s, p) {
        Ok(x) => x,
        Err(e) => return Err(e),
    };
    let mut v: Vec<Import> = Vec::new();
    let mut q = q0;
    let mut i: u64 = 0;
    assert(v@.map_values(|i: Import| i@) =~= Seq::<ImportModel>::empty());
    while i < n
        invariant
            parse_u(s@, p as int) == Ok::<(nat, int), (int, Reason)>((n as nat, q0 as int)),
            i <= n,
            q <= s@.len(),
            parse_items(s@, q0 as int, i as nat, parse_import_fn()) == Ok::<
                (Seq<ImportModel>, int),
                (int, Reason),
            >((v@.map_values(|i: Import| i@), q as int)),
        decreases n - i,
    {
        match read_import(s, q) {
            Ok((x, q2)) => {
                let ghost before = v@;
                v.push(x);
                proof {
                    let b = before;
                    assert(b.push(x).map_values(|i: Import| i@) =~= b.map_values(|i: Import| i@).push(
                        seq![x].map_values(|i: Import| i@)[0],
                    ));
                }
                q = q2;
                i += 1;
            },
            Err(e) => {
                proof {
                    lemma_items_err(s@, q0 as int, (i + 1) as nat, n as nat, parse_import_fn());
                }
                return Err(e);
            },
        }
    }
    Ok((v, q))
}

fn read_adapters(s: &[u8], p: usize) -> (r: Result<(Vec<Adapter>, usize), Malformed>)
    ensures
        agrees(r, parse_adapters(s@, p as int), |v: Vec<Adapter>| v@.map_values(|a: Adapter| a@)),
        within(r, s@.len() as int),
{
    let (n, q0) = match read_u(s, p) {
        Ok(x) => x,
        Err(e) => return Err(e),
    };
    let mut v: Vec<Adapter> = Vec::new();
    let mut q = q0;
    let mut i: u64 = 0;
    assert(v@.map_values(|a: Adapter| a@) =~= Seq::<AdapterModel>::empty());
    while i < n
        invariant
            parse_u(s@, p as int) == Ok::<(nat, int), (int, Reason)>((n as nat, q0 as int)),
            i <= n,
            q <= s@.len(),
            parse_items(s@, q0 as int, i as nat, parse_adapter_fn()) == Ok::<
                (Seq<AdapterModel>, int),
                (int, Reason),
            >((v@.map_values(|a: Adapter| a@), q as int)),
        decreases n - i,
    {
        match read_adapter(s, q) {
            Ok((x, q2)) => {
                let ghost before = v@;
                v.push(x);
                proof {
                    let b = before;
                    assert(b.push(x).map_values(|a: Adapter| a@) =~= b.map_values(|a: Adapter| a@).push(
                        seq![x].map_values(|a: Adapter| a@)[0],
                    ));
                }
                q = q2;
                i += 1;
            },
            Err(e) => {
                proof {
                    lemma_items_err(s@, q0 as int, (i + 1) as nat, n as nat, parse_adapter_fn());
                }
                return Err(e);
            },
        }
    }
    Ok((v, q))
}

fn read_forwards(s: &[u8], p: usize) -> (r: Result<(Vec<Forward>, usize), Malformed>)
    ensures
        agrees(r, parse_forwards(s@, p as int), |v: Vec<Forward>| v@.map_values(|f: Forward| f@)),
        within(r, s@.len() as int),
{
    let (n, q0) = match read_u(s, p) {
        Ok(x) => x,
        Err(e) => return Err(e),
    };
    let mut v: Vec<Forward> = Vec::new();
    let mut q = q0;
    let mut i: u64 = 0;
    assert(v@.map_values(|f: Forward| f@) =~= Seq::<ForwardModel>::empty());
    while i < n
        invariant
            parse_u(s@, p as int) == Ok::<(nat, int), (int, Reason)>((n as nat, q0 as int)),
            i <= n,
            q <= s@.len(),
            parse_items(s@, q0 as int, i as nat, parse_forward_fn()) == Ok::<
                (Seq<ForwardModel>, int),
                (int, Reason),
            >((v@.map_values(|f: Forward| f@), q as int)),
        decreases n - i,
    {
        match read_forward(s, q) {
            Ok((x, q2)) => {
                let ghost before = v@;
                v.push(x);
                proof {
                    let b = before;
                    assert(b.push(x).map_values(|f: Forward| f@) =~= b.map_values(|f: Forward| f@).push(
                        seq![x].map_values(|f: Forward| f@)[0],
                    ));
                }
                q = q2;
                i += 1;
            },
            Err(e) => {
                proof {
                    lemma_items_err(s@, q0 as int, (i + 1) as nat, n as nat, parse_forward_fn());
                }
                return Err(e);
            },
        }
    }
    Ok((v, q))
}

/// Decodes a description that spans `bytes` exactly. The result is the
/// spec decoding of the bytes; a fault is reported with its offset.
pub fn decode(bytes: &[u8]) -> (r: Result<Interfaces, Malformed>)
    ensures
        match r {
            Ok(x) => decode_spec(bytes@) == Ok::<_, (int, Reason)>(x@),
            Err(e) => decode_spec(bytes@) == Err::<crate::ast::InterfacesModel, _>(
                (e.offset as int, e.reason),
            ),
        },
{
    let (exports, q1) = match read_exports(bytes, 0) {
        Ok(x) => x,
        Err(e) => return Err(e),
    };
    let (types, q2) = match read_type_defs(bytes, q1) {
        Ok(x) => x,
        Err(e) => return Err(e),
    };
    let (imports, q3) = match read_imports(bytes, q2) {
        Ok(x) => x,
        Err(e) => return Err(e),
    };
    let (adapters, q4) = match read_adapters(bytes, q3) {
        Ok(x) => x,
        Err(e) => return Err(e),
    };
    let (forwards, q5) = match read_forwards(bytes, q4) {
        Ok(x) => x,
        Err(e) => return Err(e),
    };
    if q5 != bytes.len() {
        return Err(Malformed { offset: q5, reason: Reason::TrailingBytes });
    }
    Ok(Interfaces { exports, types, imports, adapters, forwards })
}

} // verus!
