//! The textual form of an Interface Types description: a printer that
//! writes the canonical text, and a parser that reads it back.
//!
//! The canonical text opens with a `;; Interfaces` banner; then each
//! export, imported function, adapter and forward follows, in that order,
//! after a blank line and a `;; Interface, ...` comment. The parser skips
//! whitespace and `;;` line comments; record types have no textual form.

use crate::ast::{
    Adapter, AdapterModel, Export, ExportModel, Forward, ForwardModel, Import, ImportModel,
    Instruction, InstructionModel, InterfaceType, Interfaces, InterfacesModel, instructions_view,
};
use crate::strings::string_from_utf8;
use crate::binary::encode;
use crate::wire::{decode_spec, enc_interfaces, enc_items, interfaces_fit, lemma_binary_round_trip};
use vstd::prelude::*;
use vstd::utf8::{
    decode_utf8, decode_utf8_encode_utf8, encode_utf8, encode_utf8_valid_utf8, valid_utf8,
    valid_utf8_concat,
};

verus! {

/// The UTF-8 bytes of a literal.
pub open spec fn lit(s: &str) -> Seq<u8> {
    encode_utf8(s@)
}

// ---------------------------------------------------------------------
// Printing, as spec functions

/// The spelling of an interface type.
pub open spec fn type_text(t: InterfaceType) -> Seq<u8> {
    match t {
        InterfaceType::Int => lit("int"),
        InterfaceType::Float => lit("float"),
        InterfaceType::Any => lit("any"),
        InterfaceType::String => lit("string"),
        InterfaceType::Sequence => lit("seq"),
        InterfaceType::I32 => lit("i32"),
        InterfaceType::I64 => lit("i64"),
        InterfaceType::F32 => lit("f32"),
        InterfaceType::F64 => lit("f64"),
        InterfaceType::AnyRef => lit("anyref"),
    }
}

/// The spelling of a decimal digit.
pub open spec fn digit_text(d: nat) -> Seq<u8> {
    if d == 0 {
        lit("0")
    } else if d == 1 {
        lit("1")
    } else if d == 2 {
        lit("2")
    } else if d == 3 {
        lit("3")
    } else if d == 4 {
        lit("4")
    } else if d == 5 {
        lit("5")
    } else if d == 6 {
        lit("6")
    } else if d == 7 {
        lit("7")
    } else if d == 8 {
        lit("8")
    } else {
        lit("9")
    }
}

/// The decimal spelling of a number.
pub open spec fn decimal_text(n: nat) -> Seq<u8>
    decreases n,
{
    if n < 10 {
        digit_text(n)
    } else {
        decimal_text(n / 10) + digit_text(n % 10)
    }
}

/// A name between double quotes.
pub open spec fn quoted(name: Seq<char>) -> Seq<u8> {
    lit("\"") + encode_utf8(name) + lit("\"")
}

pub open spec fn spaced_type_fn() -> spec_fn(InterfaceType) -> Seq<u8> {
    |t: InterfaceType| lit(" ") + type_text(t)
}

/// A `(param ...)` or `(result ...)` line, or nothing for no types.
pub open spec fn types_line(keyword: Seq<u8>, ts: Seq<InterfaceType>) -> Seq<u8> {
    if ts.len() == 0 {
        seq![]
    } else {
        lit("\n  (") + keyword + enc_items(ts, spaced_type_fn()) + lit(")")
    }
}

pub open spec fn signature_text(ins: Seq<InterfaceType>, outs: Seq<InterfaceType>) -> Seq<u8> {
    types_line(lit("param"), ins) + types_line(lit("result"), outs)
}

/// The text of an instruction.
pub open spec fn instruction_text(i: InstructionModel) -> Seq<u8> {
    match i {
        InstructionModel::ArgumentGet { index } => lit("arg.get ") + decimal_text(index as nat),
        InstructionModel::Call { function_index } => lit("call ") + decimal_text(
            function_index as nat,
        ),
        InstructionModel::CallExport { export_name } => lit("call-export ") + quoted(export_name),
        InstructionModel::ReadUtf8 => lit("read-utf8"),
        InstructionModel::WriteUtf8 { allocator_name } => lit("write-utf8 ") + quoted(
            allocator_name,
        ),
        InstructionModel::AsWasm(t) => lit("as-wasm ") + type_text(t),
        InstructionModel::AsInterface(t) => lit("as-interface ") + type_text(t),
        InstructionModel::TableRefAdd => lit("table-ref-add"),
        InstructionModel::TableRefGet => lit("table-ref-get"),
        InstructionModel::CallMethod(c) => lit("call-method ") + quoted(c),
        InstructionModel::MakeRecord(t) => lit("make-record ") + type_text(t),
        InstructionModel::GetField(t, c) => lit("get-field ") + type_text(t) + lit(" ") + quoted(
            c,
        ),
        InstructionModel::Const(t, v) => lit("const ") + type_text(t) + lit(" ") + decimal_text(
            v as nat,
        ),
        InstructionModel::FoldSeq(c) => lit("fold-seq ") + quoted(c),
    }
}

pub open spec fn instruction_line_fn() -> spec_fn(InstructionModel) -> Seq<u8> {
    |i: InstructionModel| lit("\n  ") + instruction_text(i)
}

pub open spec fn export_text(e: ExportModel) -> Seq<u8> {
    lit("\n\n;; Interface, Export ") + encode_utf8(e.name) + lit("\n(@interface export ") + quoted(
        e.name,
    ) + signature_text(e.input_types, e.output_types) + lit(")")
}

/// `(import "namespace" "name")`.
pub open spec fn import_qualifier(namespace: Seq<char>, name: Seq<char>) -> Seq<u8> {
    lit("(import ") + quoted(namespace) + lit(" ") + quoted(name) + lit(")")
}

/// `namespace.name`.
pub open spec fn qualified_name(namespace: Seq<char>, name: Seq<char>) -> Seq<u8> {
    encode_utf8(namespace) + lit(".") + encode_utf8(name)
}

/// The start of an imported function clause, up to its identifier.
pub open spec fn func_identifier(namespace: Seq<char>, name: Seq<char>) -> Seq<u8> {
    lit("\n(@interface func $") + encode_utf8(namespace) + lit("_") + encode_utf8(name) + lit(" ")
}

pub open spec fn import_text(i: ImportModel) -> Seq<u8> {
    lit("\n\n;; Interface, Imported function ") + qualified_name(i.namespace, i.name)
        + func_identifier(i.namespace, i.name) + import_qualifier(
        i.namespace,
        i.name,
    ) + signature_text(i.input_types, i.output_types) + lit(")")
}

/// An adapter's signature lines, instruction lines and closing parenthesis.
pub open spec fn adapter_body_text(
    ins: Seq<InterfaceType>,
    outs: Seq<InterfaceType>,
    is: Seq<InstructionModel>,
) -> Seq<u8> {
    signature_text(ins, outs) + enc_items(is, instruction_line_fn()) + lit(")")
}

pub open spec fn adapter_text(a: AdapterModel) -> Seq<u8> {
    match a {
        AdapterModel::Import { namespace, name, input_types, output_types, instructions } => lit(
            "\n\n;; Interface, Adapter ",
        ) + qualified_name(namespace, name) + lit("\n(@interface adapt ") + import_qualifier(
            namespace,
            name,
        ) + adapter_body_text(input_types, output_types, instructions),
        AdapterModel::Export { name, input_types, output_types, instructions } => lit(
            "\n\n;; Interface, Adapter ",
        ) + encode_utf8(name) + lit("\n(@interface adapt (export ") + quoted(name) + lit(")")
            + adapter_body_text(input_types, output_types, instructions),
        AdapterModel::HelperFunction { name, input_types, output_types, instructions } => lit(
            "\n\n;; Interface, Adapter ",
        ) + encode_utf8(name) + lit("\n(@interface adapt (helper ") + quoted(name) + lit(")")
            + adapter_body_text(input_types, output_types, instructions),
    }
}

pub open spec fn forward_text(f: ForwardModel) -> Seq<u8> {
    lit("\n\n;; Interface, Forward ") + encode_utf8(f.name) + lit("\n(@interface forward ")
        + quoted(f.name) + lit(")")
}

pub open spec fn export_text_fn() -> spec_fn(ExportModel) -> Seq<u8> {
    |e: ExportModel| export_text(e)
}

pub open spec fn import_text_fn() -> spec_fn(ImportModel) -> Seq<u8> {
    |i: ImportModel| import_text(i)
}

pub open spec fn adapter_text_fn() -> spec_fn(AdapterModel) -> Seq<u8> {
    |a: AdapterModel| adapter_text(a)
}

pub open spec fn forward_text_fn() -> spec_fn(ForwardModel) -> Seq<u8> {
    |f: ForwardModel| forward_text(f)
}

/// The canonical text of a description, as UTF-8 bytes.
pub open spec fn interfaces_text(x: InterfacesModel) -> Seq<u8> {
    lit(";; Interfaces") + enc_items(x.exports, export_text_fn()) + enc_items(
        x.imports,
        import_text_fn(),
    ) + enc_items(x.adapters, adapter_text_fn()) + enc_items(x.forwards, forward_text_fn())
}

// ---------------------------------------------------------------------
// Printer

proof fn lemma_items_step<T>(xs: Seq<T>, i: int, f: spec_fn(T) -> Seq<u8>)
    requires
        0 <= i < xs.len(),
    ensures
        enc_items(xs.subrange(0, i + 1), f) == enc_items(xs.subrange(0, i), f) + f(xs[i]),
{
    assert(xs.subrange(0, i + 1).drop_last() =~= xs.subrange(0, i));
}

fn push_bytes(out: &mut Vec<u8>, b: &[u8])
    ensures
        final(out)@ == old(out)@ + b@,
{
    let ghost start = out@;
    let mut i: usize = 0;
    while i < b.len()
        invariant
            i <= b@.len(),
            out@ == start + b@.subrange(0, i as int),
        decreases b.len() - i,
    {
        out.push(b[i]);
        i += 1;
        assert(out@ =~= start + b@.subrange(0, i as int));
    }
    assert(b@.subrange(0, b@.len() as int) =~= b@);
}

fn push_lit(out: &mut Vec<u8>, s: &str)
    requires
        valid_utf8(old(out)@),
    ensures
        final(out)@ == old(out)@ + lit(s),
        valid_utf8(final(out)@),
{
    let ghost start = out@;
    push_bytes(out, s.as_bytes());
    proof {
        encode_utf8_valid_utf8(s@);
        valid_utf8_concat(start, lit(s));
    }
}

fn push_name(out: &mut Vec<u8>, s: &String)
    requires
        valid_utf8(old(out)@),
    ensures
        final(out)@ == old(out)@ + encode_utf8(s@),
        valid_utf8(final(out)@),
{
    let ghost start = out@;
    push_bytes(out, s.as_str().as_bytes());
    proof {
        encode_utf8_valid_utf8(s@);
        valid_utf8_concat(start, encode_utf8(s@));
    }
}

fn push_quoted(out: &mut Vec<u8>, s: &String)
    requires
        valid_utf8(old(out)@),
    ensures
        final(out)@ == old(out)@ + quoted(s@),
        valid_utf8(final(out)@),
{
    let ghost start = out@;
    push_lit(out, "\"");
    push_name(out, s);
    push_lit(out, "\"");
    assert(out@ =~= start + quoted(s@));
}

fn push_type(out: &mut Vec<u8>, t: InterfaceType)
    requires
        valid_utf8(old(out)@),
    ensures
        final(out)@ == old(out)@ + type_text(t),
        valid_utf8(final(out)@),
{
    let s = match t {
        InterfaceType::Int => "int",
        InterfaceType::Float => "float",
        InterfaceType::Any => "any",
        InterfaceType::String => "string",
        InterfaceType::Sequence => "seq",
        InterfaceType::I32 => "i32",
        InterfaceType::I64 => "i64",
        InterfaceType::F32 => "f32",
        InterfaceType::F64 => "f64",
        InterfaceType::AnyRef => "anyref",
    };
    push_lit(out, s);
}

fn push_digit(out: &mut Vec<u8>, d: u64)
    requires
        valid_utf8(old(out)@),
        d < 10,
    ensures
        final(out)@ == old(out)@ + digit_text(d as nat),
        valid_utf8(final(out)@),
{
    let s = if d == 0 {
        "0"
    } else if d == 1 {
        "1"
    } else if d == 2 {
        "2"
    } else if d == 3 {
        "3"
    } else if d == 4 {
        "4"
    } else if d == 5 {
        "5"
    } else if d == 6 {
        "6"
    } else if d == 7 {
        "7"
    } else if d == 8 {
        "8"
    } else {
        "9"
    };
    push_lit(out, s);
}

fn push_decimal(out: &mut Vec<u8>, n: u64)
    requires
        valid_utf8(old(out)@),
    ensures
        final(out)@ == old(out)@ + decimal_text(n as nat),
        valid_utf8(final(out)@),
    decreases n,
{
    if n < 10 {
        push_digit(out, n);
    } else {
        let ghost start = out@;
        push_decimal(out, n / 10);
        push_digit(out, n % 10);
        assert(out@ =~= start + decimal_text(n as nat));
    }
}

fn push_types_line(out: &mut Vec<u8>, keyword: &str, ts: &Vec<InterfaceType>)
    requires
        valid_utf8(old(out)@),
    ensures
        final(out)@ == old(out)@ + types_line(lit(keyword), ts@),
        valid_utf8(final(out)@),
{
    if ts.len() == 0 {
        assert(out@ =~= out@ + types_line(lit(keyword), ts@));
        return ;
    }
    let ghost start = out@;
    push_lit(out, "\n  (");
    push_lit(out, keyword);
    let ghost mid = out@;
    let mut i: usize = 0;
    assert(ts@.subrange(0, 0) =~= Seq::<InterfaceType>::empty());
    assert(mid =~= mid + enc_items(ts@.subrange(0, 0), spaced_type_fn()));
    while i < ts.len()
        invariant
            i <= ts@.len(),
            out@ == mid + enc_items(ts@.subrange(0, i as int), spaced_type_fn()),
            valid_utf8(out@),
        decreases ts.len() - i,
    {
        push_lit(out, " ");
        push_type(out, ts[i]);
        proof {
            lemma_items_step(ts@, i as int, spaced_type_fn());
        }
        i += 1;
        assert(out@ =~= mid + enc_items(ts@.subrange(0, i as int), spaced_type_fn()));
    }
    assert(ts@.subrange(0, ts@.len() as int) =~= ts@);
    push_lit(out, ")");
    assert(out@ =~= start + types_line(lit(keyword), ts@));
}

fn push_signature(out: &mut Vec<u8>, ins: &Vec<InterfaceType>, outs: &Vec<InterfaceType>)
    requires
        valid_utf8(old(out)@),
    ensures
        final(out)@ == old(out)@ + signature_text(ins@, outs@),
        valid_utf8(final(out)@),
{
    let ghost start = out@;
    push_types_line(out, "param", ins);
    push_types_line(out, "result", outs);
    assert(out@ =~= start + signature_text(ins@, outs@));
}

#[verifier::spinoff_prover]
fn push_instruction(out: &mut Vec<u8>, i: &Instruction)
    requires
        valid_utf8(old(out)@),
    ensures
        final(out)@ == old(out)@ + instruction_text(i@),
        valid_utf8(final(out)@),
{
    let ghost start = out@;
    match i {
        Instruction::ArgumentGet { index } => {
            push_lit(out, "arg.get ");
            push_decimal(out, *index);
        },
        Instruction::Call { function_index } => {
            push_lit(out, "call ");
            push_decimal(out, *function_index);
        },
        Instruction::CallExport { export_name } => {
            push_lit(out, "call-export ");
            push_quoted(out, export_name);
        },
        Instruction::ReadUtf8 => {
            push_lit(out, "read-utf8");
        },
        Instruction::WriteUtf8 { allocator_name } => {
            push_lit(out, "write-utf8 ");
            push_quoted(out, allocator_name);
        },
        Instruction::AsWasm(t) => {
            push_lit(out, "as-wasm ");
            push_type(out, *t);
        },
        Instruction::AsInterface(t) => {
            push_lit(out, "as-interface ");
            push_type(out, *t);
        },
        Instruction::TableRefAdd => {
            push_lit(out, "table-ref-add");
        },
        Instruction::TableRefGet => {
            push_lit(out, "table-ref-get");
        },
        Instruction::CallMethod(c) => {
            push_lit(out, "call-method ");
            push_quoted(out, c);
        },
        Instruction::MakeRecord(t) => {
            push_lit(out, "make-record ");
            push_type(out, *t);
        },
        Instruction::GetField(t, c) => {
            push_lit(out, "get-field ");
            push_type(out, *t);
            push_lit(out, " ");
            push_quoted(out, c);
        },
        Instruction::Const(t, v) => {
            push_lit(out, "const ");
            push_type(out, *t);
            push_lit(out, " ");
            push_decimal(out, *v);
        },
        Instruction::FoldSeq(c) => {
            push_lit(out, "fold-seq ");
            push_quoted(out, c);
        },
    }
    assert(out@ =~= start + instruction_text(i@));
}

fn push_instructions(out: &mut Vec<u8>, v: &Vec<Instruction>)
    requires
        valid_utf8(old(out)@),
    ensures
        final(out)@ == old(out)@ + enc_items(instructions_view(v@), instruction_line_fn()),
        valid_utf8(final(out)@),
{
    let ghost xs = instructions_view(v@);
    let ghost start = out@;
    let mut i: usize = 0;
    assert(start =~= start + enc_items(xs.subrange(0, 0), instruction_line_fn()));
    while i < v.len()
        invariant
            xs == instructions_view(v@),
            i <= v@.len(),
            out@ == start + enc_items(xs.subrange(0, i as int), instruction_line_fn()),
            valid_utf8(out@),
        decreases v.len() - i,
    {
        push_lit(out, "\n  ");
        push_instruction(out, &v[i]);
        proof {
            lemma_items_step(xs, i as int, instruction_line_fn());
        }
        i += 1;
        assert(out@ =~= start + enc_items(xs.subrange(0, i as int), instruction_line_fn()));
    }
    assert(xs.subrange(0, v@.len() as int) =~= xs);
}

#[verifier::spinoff_prover]
fn push_export(out: &mut Vec<u8>, e: &Export)
    requires
        valid_utf8(old(out)@),
    ensures
        final(out)@ == old(out)@ + export_text(e@),
        valid_utf8(final(out)@),
{
    let ghost start = out@;
    push_lit(out, "\n\n;; Interface, Export ");
    push_name(out, &e.name);
    push_lit(out, "\n(@interface export ");
    push_quoted(out, &e.name);
    push_signature(out, &e.input_types, &e.output_types);
    push_lit(out, ")");
    assert(out@ =~= start + export_text(e@));
}

fn push_qualified_name(out: &mut Vec<u8>, namespace: &String, name: &String)
    requires
        valid_utf8(old(out)@),
    ensures
        final(out)@ == old(out)@ + qualified_name(namespace@, name@),
        valid_utf8(final(out)@),
{
    let ghost start = out@;
    push_name(out, namespace);
    push_lit(out, ".");
    push_name(out, name);
    assert(out@ =~= start + qualified_name(namespace@, name@));
}

fn push_import_qualifier(out: &mut Vec<u8>, namespace: &String, name: &String)
    requires
        valid_utf8(old(out)@),
    ensures
        final(out)@ == old(out)@ + import_qualifier(namespace@, name@),
        valid_utf8(final(out)@),
{
    let ghost start = out@;
    push_lit(out, "(import ");
    push_quoted(out, namespace);
    push_lit(out, " ");
    push_quoted(out, name);
    push_lit(out, ")");
    assert(out@ =~= start + import_qualifier(namespace@, name@));
}

fn push_func_identifier(out: &mut Vec<u8>, namespace: &String, name: &String)
    requires
        valid_utf8(old(out)@),
    ensures
        final(out)@ == old(out)@ + func_identifier(namespace@, name@),
        valid_utf8(final(out)@),
{
    let ghost start = out@;
    push_lit(out, "\n(@interface func $");
    push_name(out, namespace);
    push_lit(out, "_");
    push_name(out, name);
    push_lit(out, " ");
    assert(out@ =~= start + func_identifier(namespace@, name@));
}

#[verifier::spinoff_prover]
fn push_import(out: &mut Vec<u8>, i: &Import)
    requires
        valid_utf8(old(out)@),
    ensures
        final(out)@ == old(out)@ + import_text(i@),
        valid_utf8(final(out)@),
{
    let ghost start = out@;
    push_lit(out, "\n\n;; Interface, Imported function ");
    push_qualified_name(out, &i.namespace, &i.name);
    push_func_identifier(out, &i.namespace, &i.name);
    push_import_qualifier(out, &i.namespace, &i.name);
    push_signature(out, &i.input_types, &i.output_types);
    push_lit(out, ")");
    assert(out@ =~= start + import_text(i@));
}

fn push_adapter_body(
    out: &mut Vec<u8>,
    ins: &Vec<InterfaceType>,
    outs: &Vec<InterfaceType>,
    is: &Vec<Instruction>,
)
    requires
        valid_utf8(old(out)@),
    ensures
        final(out)@ == old(out)@ + adapter_body_text(ins@, outs@, instructions_view(is@)),
        valid_utf8(final(out)@),
{
    let ghost start = out@;
    push_signature(out, ins, outs);
    push_instructions(out, is);
    push_lit(out, ")");
    assert(out@ =~= start + adapter_body_text(ins@, outs@, instructions_view(is@)));
}

#[verifier::spinoff_prover]
#[verifier::rlimit(40)]
fn push_adapter(out: &mut Vec<u8>, a: &Adapter)
    requires
        valid_utf8(old(out)@),
    ensures
        final(out)@ == old(out)@ + adapter_text(a@),
        valid_utf8(final(out)@),
{
    let ghost start = out@;
    push_lit(out, "\n\n;; Interface, Adapter ");
    match a {
        Adapter::Import { namespace, name, input_types, output_types, instructions } => {
            push_qualified_name(out, namespace, name);
            push_lit(out, "\n(@interface adapt ");
            push_import_qualifier(out, namespace, name);
            push_adapter_body(out, input_types, output_types, instructions);
        },
        Adapter::Export { name, input_types, output_types, instructions } => {
            push_name(out, name);
            push_lit(out, "\n(@interface adapt (export ");
            push_quoted(out, name);
            push_lit(out, ")");
            push_adapter_body(out, input_types, output_types, instructions);
        },
        Adapter::HelperFunction { name, input_types, output_types, instructions } => {
            push_name(out, name);
            push_lit(out, "\n(@interface adapt (helper ");
            push_quoted(out, name);
            push_lit(out, ")");
            push_adapter_body(out, input_types, output_types, instructions);
        },
    }
    assert(out@ =~= start + adapter_text(a@));
}

#[verifier::spinoff_prover]
fn push_forward(out: &mut Vec<u8>, f: &Forward)
    requires
        valid_utf8(old(out)@),
    ensures
        final(out)@ == old(out)@ + forward_text(f@),
        valid_utf8(final(out)@),
{
    let ghost start = out@;
    push_lit(out, "\n\n;; Interface, Forward ");
    push_name(out, &f.name);
    push_lit(out, "\n(@interface forward ");
    push_quoted(out, &f.name);
    push_lit(out, ")");
    assert(out@ =~= start + forward_text(f@));
}

fn push_exports(out: &mut Vec<u8>, v: &Vec<Export>)
    requires
        valid_utf8(old(out)@),
    ensures
        final(out)@ == old(out)@ + enc_items(v@.map_values(|e: Export| e@), export_text_fn()),
        valid_utf8(final(out)@),
{
    let ghost xs = v@.map_values(|e: Export| e@);
    let ghost start = out@;
    let mut i: usize = 0;
    assert(start =~= start + enc_items(xs.subrange(0, 0), export_text_fn()));
    while i < v.len()
        invariant
            xs == v@.map_values(|e: Export| e@),
            i <= v@.len(),
            out@ == start + enc_items(xs.subrange(0, i as int), export_text_fn()),
            valid_utf8(out@),
        decreases v.len() - i,
    {
        push_export(out, &v[i]);
        proof {
            lemma_items_step(xs, i as int, export_text_fn());
        }
        i += 1;
        assert(out@ =~= start + enc_items(xs.subrange(0, i as int), export_text_fn()));
    }
    assert(xs.subrange(0, v@.len() as int) =~= xs);
}

fn push_imports(out: &mut Vec<u8>, v: &Vec<Import>)
    requires
        valid_utf8(old(out)@),
    ensures
        final(out)@ == old(out)@ + enc_items(v@.map_values(|e: Import| e@), import_text_fn()),
        valid_utf8(final(out)@),
{
    let ghost xs = v@.map_values(|e: Import| e@);
    let ghost start = out@;
    let mut i: usize = 0;
    assert(start =~= start + enc_items(xs.subrange(0, 0), import_text_fn()));
    while i < v.len()
        invariant
            xs == v@.map_values(|e: Import| e@),
            i <= v@.len(),
            out@ == start + enc_items(xs.subrange(0, i as int), import_text_fn()),
            valid_utf8(out@),
        decreases v.len() - i,
    {
        push_import(out, &v[i]);
        proof {
            lemma_items_step(xs, i as int, import_text_fn());
        }
        i += 1;
        assert(out@ =~= start + enc_items(xs.subrange(0, i as int), import_text_fn()));
    }
    assert(xs.subrange(0, v@.len() as int) =~= xs);
}

fn push_adapters(out: &mut Vec<u8>, v: &Vec<Adapter>)
    requires
        valid_utf8(old(out)@),
    ensures
        final(out)@ == old(out)@ + enc_items(v@.map_values(|a: Adapter| a@), adapter_text_fn()),
        valid_utf8(final(out)@),
{
    let ghost xs = v@.map_values(|a: Adapter| a@);
    let ghost start = out@;
    let mut i: usize = 0;
    assert(start =~= start + enc_items(xs.subrange(0, 0), adapter_text_fn()));
    while i < v.len()
        invariant
            xs == v@.map_values(|a: Adapter| a@),
            i <= v@.len(),
            out@ == start + enc_items(xs.subrange(0, i as int), adapter_text_fn()),
            valid_utf8(out@),
        decreases v.len() - i,
    {
        push_adapter(out, &v[i]);
        proof {
            lemma_items_step(xs, i as int, adapter_text_fn());
        }
        i += 1;
        assert(out@ =~= start + enc_items(xs.subrange(0, i as int), adapter_text_fn()));
    }
    assert(xs.subrange(0, v@.len() as int) =~= xs);
}

fn push_forwards(out: &mut Vec<u8>, v: &Vec<Forward>)
    requires
        valid_utf8(old(out)@),
    ensures
        final(out)@ == old(out)@ + enc_items(v@.map_values(|f: Forward| f@), forward_text_fn()),
        valid_utf8(final(out)@),
{
    let ghost xs = v@.map_values(|f: Forward| f@);
    let ghost start = out@;
    let mut i: usize = 0;
    assert(start =~= start + enc_items(xs.subrange(0, 0), forward_text_fn()));
    while i < v.len()
        invariant
            xs == v@.map_values(|f: Forward| f@),
            i <= v@.len(),
            out@ == start + enc_items(xs.subrange(0, i as int), forward_text_fn()),
            valid_utf8(out@),
        decreases v.len() - i,
    {
        push_forward(out, &v[i]);
        proof {
            lemma_items_step(xs, i as int, forward_text_fn());
        }
        i += 1;
        assert(out@ =~= start + enc_items(xs.subrange(0, i as int), forward_text_fn()));
    }
    assert(xs.subrange(0, v@.len() as int) =~= xs);
}

/// The canonical text of a description.
pub fn to_text(x: &Interfaces) -> (r: String)
    ensures
        encode_utf8(r@) == interfaces_text(x@),
{
    let mut out: Vec<u8> = Vec::new();
    assert(valid_utf8(out@)) by {
        encode_utf8_valid_utf8(Seq::<char>::empty());
        assert(out@ =~= encode_utf8(Seq::<char>::empty()));
    }
    push_lit(&mut out, ";; Interfaces");
    push_exports(&mut out, &x.exports);
    push_imports(&mut out, &x.imports);
    push_adapters(&mut out, &x.adapters);
    push_forwards(&mut out, &x.forwards);
    assert(out@ =~= interfaces_text(x@));
    match string_from_utf8(out.as_slice()) {
        Some(s) => {
            proof {
                decode_utf8_encode_utf8(out@);
            }
            s
        },
        None => String::new(),
    }
}

// ---------------------------------------------------------------------
// Reading, as spec functions

/// A token of the text.
#[derive(Clone, Debug, PartialEq)]
pub enum Token {
    Open,
    Close,
    /// The bytes between two double quotes.
    Str(Vec<u8>),
    /// A run of bytes up to whitespace, a parenthesis or a double quote.
    Word(Vec<u8>),
}

pub enum TokenModel {
    Open,
    Close,
    Str(Seq<u8>),
    Word(Seq<u8>),
}

impl View for Token {
    type V = TokenModel;

    open spec fn view(&self) -> TokenModel {
        match self {
            Token::Open => TokenModel::Open,
            Token::Close => TokenModel::Close,
            Token::Str(b) => TokenModel::Str(b@),
            Token::Word(b) => TokenModel::Word(b@),
        }
    }
}

pub open spec fn tokens_view(ts: Seq<Token>) -> Seq<TokenModel> {
    ts.map_values(|t: Token| t@)
}

pub open spec fn is_space(b: u8) -> bool {
    b == 32 || b == 9 || b == 10 || b == 13
}

/// Whether a scan of the given kind stops at `b`: 0 for the end of a line,
/// 1 for a double quote, 2 for the end of a word.
pub open spec fn stops(kind: u8, b: u8) -> bool {
    if kind == 0 {
        b == 10
    } else if kind == 1 {
        b == 34
    } else {
        is_space(b) || b == 40 || b == 41 || b == 34
    }
}

/// The first position from `p` on where a scan of `kind` stops, or the end.
pub open spec fn scan(s: Seq<u8>, p: int, kind: u8) -> int
    decreases s.len() - p,
{
    if p >= s.len() {
        s.len() as int
    } else if stops(kind, s[p]) {
        p
    } else {
        scan(s, p + 1, kind)
    }
}

pub proof fn lemma_scan(s: Seq<u8>, p: int, kind: u8)
    requires
        0 <= p <= s.len(),
    ensures
        p <= scan(s, p, kind) <= s.len(),
    decreases s.len() - p,
{
    if p < s.len() && !stops(kind, s[p]) {
        lemma_scan(s, p + 1, kind);
    }
}

/// `acc` followed by the tokens of `r`, or the failure of `r`.
pub open spec fn prepend_tokens(acc: Seq<TokenModel>, r: Result<Seq<TokenModel>, int>) -> Result<
    Seq<TokenModel>,
    int,
> {
    match r {
        Ok(ts) => Ok(acc + ts),
        Err(e) => Err(e),
    }
}

/// The tokens of the text from `p` on, skipping whitespace and `;;`
/// comments; or the offset of a string that is not closed.
pub open spec fn lex(s: Seq<u8>, p: int) -> Result<Seq<TokenModel>, int>
    decreases s.len() - p,
{
    if p < 0 || p >= s.len() {
        Ok(seq![])
    } else {
        let b = s[p];
        if is_space(b) {
            lex(s, p + 1)
        } else if b == 59 && p + 1 < s.len() && s[p + 1] == 59 {
            proof {
                lemma_scan(s, p + 2, 0);
            }
            lex(s, scan(s, p + 2, 0))
        } else if b == 40 {
            prepend_tokens(seq![TokenModel::Open], lex(s, p + 1))
        } else if b == 41 {
            prepend_tokens(seq![TokenModel::Close], lex(s, p + 1))
        } else if b == 34 {
            proof {
                lemma_scan(s, p + 1, 1);
            }
            let q = scan(s, p + 1, 1);
            if q >= s.len() {
                Err(p)
            } else {
                prepend_tokens(seq![TokenModel::Str(s.subrange(p + 1, q))], lex(s, q + 1))
            }
        } else {
            proof {
                lemma_scan(s, p + 1, 2);
            }
            let q = scan(s, p + 1, 2);
            prepend_tokens(seq![TokenModel::Word(s.subrange(p, q))], lex(s, q))
        }
    }
}

/// Why the tokens are not a description.
#[derive(Clone, Copy, Debug, PartialEq, Eq, Structural)]
pub enum SyntaxReason {
    /// Another token was expected here.
    UnexpectedToken,
    /// The tokens end inside a clause.
    UnexpectedEnd,
    /// A word names no type.
    UnknownType,
    /// A word names no instruction.
    UnknownInstruction,
    /// A word is not a number of at most `u64::MAX`.
    InvalidNumber,
    /// A string is not UTF-8.
    InvalidUtf8,
}

/// A spec-level parse over tokens: a value and the next token index, or a
/// token index and a reason.
pub type TParsed<T> = Result<(T, int), (int, SyntaxReason)>;

/// The token at `i` is the word `w`.
pub open spec fn is_word(toks: Seq<TokenModel>, i: int, w: Seq<u8>) -> bool {
    0 <= i < toks.len() && toks[i] == TokenModel::Word(w)
}

/// Expects the token `t` at `i`.
pub open spec fn expect(toks: Seq<TokenModel>, i: int, t: TokenModel) -> TParsed<()> {
    if i >= toks.len() {
        Err((i, SyntaxReason::UnexpectedEnd))
    } else if 0 <= i && toks[i] == t {
        Ok(((), i + 1))
    } else {
        Err((i, SyntaxReason::UnexpectedToken))
    }
}

/// The type that a word spells.
pub open spec fn type_of_word(w: Seq<u8>) -> Option<InterfaceType> {
    if w == lit("int") {
        Some(InterfaceType::Int)
    } else if w == lit("float") {
        Some(InterfaceType::Float)
    } else if w == lit("any") {
        Some(InterfaceType::Any)
    } else if w == lit("string") {
        Some(InterfaceType::String)
    } else if w == lit("seq") {
        Some(InterfaceType::Sequence)
    } else if w == lit("i32") {
        Some(InterfaceType::I32)
    } else if w == lit("i64") {
        Some(InterfaceType::I64)
    } else if w == lit("f32") {
        Some(InterfaceType::F32)
    } else if w == lit("f64") {
        Some(InterfaceType::F64)
    } else if w == lit("anyref") {
        Some(InterfaceType::AnyRef)
    } else {
        None
    }
}

/// A type word at `i`.
pub open spec fn parse_type_word(toks: Seq<TokenModel>, i: int) -> TParsed<InterfaceType> {
    if i >= toks.len() || i < 0 {
        Err((i, SyntaxReason::UnexpectedEnd))
    } else {
        match toks[i] {
            TokenModel::Word(w) => match type_of_word(w) {
                Some(t) => Ok((t, i + 1)),
                None => Err((i, SyntaxReason::UnknownType)),
            },
            _ => Err((i, SyntaxReason::UnexpectedToken)),
        }
    }
}

/// The value of a run of decimal digits, while it stays within `u64`.
pub open spec fn digits_value(w: Seq<u8>) -> Option<nat>
    decreases w.len(),
{
    if w.len() == 0 {
        Some(0)
    } else {
        match digits_value(w.drop_last()) {
            Some(v) => {
                let b = w.last();
                if 48 <= b <= 57 && v * 10 + (b - 48) <= u64::MAX {
                    Some((v * 10 + (b - 48)) as nat)
                } else {
                    None
                }
            },
            None => None,
        }
    }
}

/// A number word at `i`.
pub open spec fn parse_number(toks: Seq<TokenModel>, i: int) -> TParsed<u64> {
    if i >= toks.len() || i < 0 {
        Err((i, SyntaxReason::UnexpectedEnd))
    } else {
        match toks[i] {
            TokenModel::Word(w) => if w.len() > 0 && digits_value(w) is Some {
                Ok((digits_value(w)->0 as u64, i + 1))
            } else {
                Err((i, SyntaxReason::InvalidNumber))
            },
            _ => Err((i, SyntaxReason::UnexpectedToken)),
        }
    }
}

/// A string token at `i`, as characters.
pub open spec fn parse_string(toks: Seq<TokenModel>, i: int) -> TParsed<Seq<char>> {
    if i >= toks.len() || i < 0 {
        Err((i, SyntaxReason::UnexpectedEnd))
    } else {
        match toks[i] {
            TokenModel::Str(b) => if valid_utf8(b) {
                Ok((decode_utf8(b), i + 1))
            } else {
                Err((i, SyntaxReason::InvalidUtf8))
            },
            _ => Err((i, SyntaxReason::UnexpectedToken)),
        }
    }
}

/// The type words from `i` on, up to the first token that is not a word.
pub open spec fn parse_type_words(toks: Seq<TokenModel>, i: int) -> TParsed<Seq<InterfaceType>>
    decreases toks.len() - i,
{
    if 0 <= i < toks.len() && toks[i] is Word {
        match parse_type_word(toks, i) {
            Ok((t, j)) => match parse_type_words(toks, i + 1) {
                Ok((ts, k)) => Ok((seq![t] + ts, k)),
                Err(e) => Err(e),
            },
            Err(e) => Err(e),
        }
    } else {
        Ok((seq![], i))
    }
}

/// An optional `(keyword types...)` group at `i`.
pub open spec fn parse_group(toks: Seq<TokenModel>, i: int, keyword: Seq<u8>) -> TParsed<
    Seq<InterfaceType>,
> {
    if 0 <= i < toks.len() && toks[i] == TokenModel::Open && is_word(toks, i + 1, keyword) {
        match parse_type_words(toks, i + 2) {
            Ok((ts, j)) => match expect(toks, j, TokenModel::Close) {
                Ok((_, k)) => Ok((ts, k)),
                Err(e) => Err(e),
            },
            Err(e) => Err(e),
        }
    } else {
        Ok((seq![], i))
    }
}

/// Which group starts at `i`: `Some(true)` for `(param`, `Some(false)`
/// for `(result`, `None` for anything else.
pub open spec fn group_at(toks: Seq<TokenModel>, i: int) -> Option<bool> {
    if 0 <= i < toks.len() && toks[i] == TokenModel::Open {
        if is_word(toks, i + 1, lit("param")) {
            Some(true)
        } else if is_word(toks, i + 1, lit("result")) {
            Some(false)
        } else {
            None
        }
    } else {
        None
    }
}

/// Any number of `(param ...)` and `(result ...)` groups, in any order:
/// the types of the param groups in order, and those of the result groups.
pub open spec fn parse_signature_text(toks: Seq<TokenModel>, i: int) -> TParsed<
    (Seq<InterfaceType>, Seq<InterfaceType>),
>
    decreases toks.len() - i,
{
    match group_at(toks, i) {
        None => Ok(((seq![], seq![]), i)),
        Some(param) => match parse_group(
            toks,
            i,
            if param {
                lit("param")
            } else {
                lit("result")
            },
        ) {
            Ok((ts, k)) => if k <= i || k > toks.len() {
                Err((i, SyntaxReason::UnexpectedToken))
            } else {
                match parse_signature_text(toks, k) {
                    Ok(((ins, outs), l)) => Ok(
                        (
                            if param {
                                (ts + ins, outs)
                            } else {
                                (ins, ts + outs)
                            },
                            l,
                        ),
                    ),
                    Err(e) => Err(e),
                }
            },
            Err(e) => Err(e),
        },
    }
}

/// The operands of the instruction spelled `m`, from `i` on.
pub open spec fn parse_operands_text(toks: Seq<TokenModel>, m: Seq<u8>, i: int) -> TParsed<
    InstructionModel,
> {
    if m == lit("arg.get") {
        match parse_number(toks, i) {
            Ok((n, j)) => Ok((InstructionModel::ArgumentGet { index: n }, j)),
            Err(e) => Err(e),
        }
    } else if m == lit("call") {
        match parse_number(toks, i) {
            Ok((n, j)) => Ok((InstructionModel::Call { function_index: n }, j)),
            Err(e) => Err(e),
        }
    } else if m == lit("call-export") {
        match parse_string(toks, i) {
            Ok((c, j)) => Ok((InstructionModel::CallExport { export_name: c }, j)),
            Err(e) => Err(e),
        }
    } else if m == lit("read-utf8") {
        Ok((InstructionModel::ReadUtf8, i))
    } else if m == lit("write-utf8") {
        match parse_string(toks, i) {
            Ok((c, j)) => Ok((InstructionModel::WriteUtf8 { allocator_name: c }, j)),
            Err(e) => Err(e),
        }
    } else if m == lit("as-wasm") {
        match parse_type_word(toks, i) {
            Ok((t, j)) => Ok((InstructionModel::AsWasm(t), j)),
            Err(e) => Err(e),
        }
    } else if m == lit("as-interface") {
        match parse_type_word(toks, i) {
            Ok((t, j)) => Ok((InstructionModel::AsInterface(t), j)),
            Err(e) => Err(e),
        }
    } else if m == lit("table-ref-add") {
        Ok((InstructionModel::TableRefAdd, i))
    } else if m == lit("table-ref-get") {
        Ok((InstructionModel::TableRefGet, i))
    } else if m == lit("call-method") {
        match parse_string(toks, i) {
            Ok((c, j)) => Ok((InstructionModel::CallMethod(c), j)),
            Err(e) => Err(e),
        }
    } else if m == lit("make-record") {
        match parse_type_word(toks, i) {
            Ok((t, j)) => Ok((InstructionModel::MakeRecord(t), j)),
            Err(e) => Err(e),
        }
    } else if m == lit("get-field") {
        match parse_type_word(toks, i) {
            Ok((t, j)) => match parse_string(toks, j) {
                Ok((c, k)) => Ok((InstructionModel::GetField(t, c), k)),
                Err(e) => Err(e),
            },
            Err(e) => Err(e),
        }
    } else if m == lit("const") {
        match parse_type_word(toks, i) {
            Ok((t, j)) => match parse_number(toks, j) {
                Ok((n, k)) => Ok((InstructionModel::Const(t, n), k)),
                Err(e) => Err(e),
            },
            Err(e) => Err(e),
        }
    } else if m == lit("fold-seq") {
        match parse_string(toks, i) {
            Ok((c, j)) => Ok((InstructionModel::FoldSeq(c), j)),
            Err(e) => Err(e),
        }
    } else {
        Err((i - 1, SyntaxReason::UnknownInstruction))
    }
}

/// The instructions from `i` on, up to the first token that is not a word.
pub open spec fn parse_instruction_words(toks: Seq<TokenModel>, i: int) -> TParsed<
    Seq<InstructionModel>,
>
    decreases toks.len() - i,
{
    if 0 <= i < toks.len() && toks[i] is Word {
        match parse_operands_text(toks, toks[i]->Word_0, i + 1) {
            Ok((x, j)) => if j <= i {
                Err((i, SyntaxReason::UnexpectedToken))
            } else {
                match parse_instruction_words(toks, j) {
                    Ok((xs, k)) => Ok((seq![x] + xs, k)),
                    Err(e) => Err(e),
                }
            },
            Err(e) => Err(e),
        }
    } else {
        Ok((seq![], i))
    }
}

/// One top-level clause.
pub enum ClauseModel {
    Export(ExportModel),
    Import(ImportModel),
    Adapter(AdapterModel),
    Forward(ForwardModel),
}

/// A name between parentheses after a keyword: `(keyword "name")`, whose
/// opening parenthesis and keyword were read already; `ns` tells whether
/// a namespace comes first.
pub open spec fn parse_qualifier(toks: Seq<TokenModel>, i: int, ns: bool) -> TParsed<
    (Seq<char>, Seq<char>),
> {
    if ns {
        match parse_string(toks, i) {
            Ok((a, j)) => match parse_string(toks, j) {
                Ok((b, k)) => match expect(toks, k, TokenModel::Close) {
                    Ok((_, l)) => Ok(((a, b), l)),
                    Err(e) => Err(e),
                },
                Err(e) => Err(e),
            },
            Err(e) => Err(e),
        }
    } else {
        match parse_string(toks, i) {
            Ok((b, k)) => match expect(toks, k, TokenModel::Close) {
                Ok((_, l)) => Ok(((seq![], b), l)),
                Err(e) => Err(e),
            },
            Err(e) => Err(e),
        }
    }
}

/// A signature, instructions and the closing parenthesis of an adapter.
pub open spec fn parse_adapter_rest(toks: Seq<TokenModel>, i: int) -> TParsed<
    (Seq<InterfaceType>, Seq<InterfaceType>, Seq<InstructionModel>),
> {
    match parse_signature_text(toks, i) {
        Ok(((ins, outs), j)) => match parse_instruction_words(toks, j) {
            Ok((is, k)) => match expect(toks, k, TokenModel::Close) {
                Ok((_, l)) => Ok(((ins, outs, is), l)),
                Err(e) => Err(e),
            },
            Err(e) => Err(e),
        },
        Err(e) => Err(e),
    }
}

/// The body of an `export` clause, after its keyword.
pub open spec fn parse_export_clause(toks: Seq<TokenModel>, i: int) -> TParsed<ClauseModel> {
    match parse_string(toks, i) {
        Ok((name, j)) => match parse_signature_text(toks, j) {
            Ok(((ins, outs), k)) => match expect(toks, k, TokenModel::Close) {
                Ok((_, l)) => Ok(
                    (
                        ClauseModel::Export(
                            ExportModel { name, input_types: ins, output_types: outs },
                        ),
                        l,
                    ),
                ),
                Err(e) => Err(e),
            },
            Err(e) => Err(e),
        },
        Err(e) => Err(e),
    }
}

/// The body of a `func` clause, after its keyword: an optional identifier,
/// `(import "namespace" "name")`, a signature and `)`.
pub open spec fn parse_func_clause(toks: Seq<TokenModel>, i: int) -> TParsed<ClauseModel> {
    let j = if 0 <= i < toks.len() && toks[i] is Word {
        i + 1
    } else {
        i
    };
    match expect(toks, j, TokenModel::Open) {
        Ok((_, k)) => if is_word(toks, k, lit("import")) {
            match parse_qualifier(toks, k + 1, true) {
                Ok(((namespace, name), l)) => match parse_signature_text(toks, l) {
                    Ok(((ins, outs), m)) => match expect(toks, m, TokenModel::Close) {
                        Ok((_, n)) => Ok(
                            (
                                ClauseModel::Import(
                                    ImportModel {
                                        namespace,
                                        name,
                                        input_types: ins,
                                        output_types: outs,
                                    },
                                ),
                                n,
                            ),
                        ),
                        Err(e) => Err(e),
                    },
                    Err(e) => Err(e),
                },
                Err(e) => Err(e),
            }
        } else {
            Err((k, SyntaxReason::UnexpectedToken))
        },
        Err(e) => Err(e),
    }
}

/// The body of an `adapt` clause, after its keyword.
pub open spec fn parse_adapt_clause(toks: Seq<TokenModel>, i: int) -> TParsed<ClauseModel> {
    match expect(toks, i, TokenModel::Open) {
        Ok((_, k)) => {
            let kind: int = if is_word(toks, k, lit("import")) {
                0
            } else if is_word(toks, k, lit("export")) {
                1
            } else if is_word(toks, k, lit("helper")) {
                2
            } else {
                3
            };
            if kind == 3 {
                Err((k, SyntaxReason::UnexpectedToken))
            } else {
                match parse_qualifier(toks, k + 1, kind == 0) {
                    Ok(((namespace, name), l)) => match parse_adapter_rest(toks, l) {
                        Ok(((ins, outs, is), m)) => Ok(
                            (
                                ClauseModel::Adapter(
                                    if kind == 0 {
                                        AdapterModel::Import {
                                            namespace,
                                            name,
                                            input_types: ins,
                                            output_types: outs,
                                            instructions: is,
                                        }
                                    } else if kind == 1 {
                                        AdapterModel::Export {
                                            name,
                                            input_types: ins,
                                            output_types: outs,
                                            instructions: is,
                                        }
                                    } else {
                                        AdapterModel::HelperFunction {
                                            name,
                                            input_types: ins,
                                            output_types: outs,
                                            instructions: is,
                                        }
                                    },
                                ),
                                m,
                            ),
                        ),
                        Err(e) => Err(e),
                    },
                    Err(e) => Err(e),
                }
            }
        },
        Err(e) => Err(e),
    }
}

/// The body of a `forward` clause, after its keyword.
pub open spec fn parse_forward_clause(toks: Seq<TokenModel>, i: int) -> TParsed<ClauseModel> {
    match parse_string(toks, i) {
        Ok((name, j)) => match expect(toks, j, TokenModel::Close) {
            Ok((_, k)) => Ok((ClauseModel::Forward(ForwardModel { name }), k)),
            Err(e) => Err(e),
        },
        Err(e) => Err(e),
    }
}

/// A clause `(@interface kind ...)` at `i`.
pub open spec fn parse_clause(toks: Seq<TokenModel>, i: int) -> TParsed<ClauseModel> {
    match expect(toks, i, TokenModel::Open) {
        Ok((_, j)) => if !is_word(toks, j, lit("@interface")) {
            Err((j, SyntaxReason::UnexpectedToken))
        } else if is_word(toks, j + 1, lit("export")) {
            parse_export_clause(toks, j + 2)
        } else if is_word(toks, j + 1, lit("func")) {
            parse_func_clause(toks, j + 2)
        } else if is_word(toks, j + 1, lit("adapt")) {
            parse_adapt_clause(toks, j + 2)
        } else if is_word(toks, j + 1, lit("forward")) {
            parse_forward_clause(toks, j + 2)
        } else if j + 1 >= toks.len() {
            Err((j + 1, SyntaxReason::UnexpectedEnd))
        } else {
            Err((j + 1, SyntaxReason::UnexpectedToken))
        },
        Err(e) => Err(e),
    }
}

/// A description with one more clause in front.
pub open spec fn add_front(c: ClauseModel, x: InterfacesModel) -> InterfacesModel {
    match c {
        ClauseModel::Export(e) => InterfacesModel { exports: seq![e] + x.exports, ..x },
        ClauseModel::Import(i) => InterfacesModel { imports: seq![i] + x.imports, ..x },
        ClauseModel::Adapter(a) => InterfacesModel { adapters: seq![a] + x.adapters, ..x },
        ClauseModel::Forward(f) => InterfacesModel { forwards: seq![f] + x.forwards, ..x },
    }
}

pub open spec fn empty_interfaces() -> InterfacesModel {
    InterfacesModel {
        exports: seq![],
        types: seq![],
        imports: seq![],
        adapters: seq![],
        forwards: seq![],
    }
}

/// All the clauses from `i` to the end.
pub open spec fn parse_clauses(toks: Seq<TokenModel>, i: int) -> TParsed<InterfacesModel>
    decreases toks.len() - i,
{
    if i < 0 || i >= toks.len() {
        Ok((empty_interfaces(), i))
    } else {
        match parse_clause(toks, i) {
            Ok((c, j)) => if j <= i {
                Err((i, SyntaxReason::UnexpectedToken))
            } else {
                match parse_clauses(toks, j) {
                    Ok((x, k)) => Ok((add_front(c, x), k)),
                    Err(e) => Err(e),
                }
            },
            Err(e) => Err(e),
        }
    }
}

/// Why a text is not a description.
#[derive(Clone, Copy, Debug, PartialEq, Eq, Structural)]
pub enum TextError {
    /// A string that starts at this byte offset is not closed.
    UnterminatedString { offset: usize },
    /// The token at this index does not fit the grammar.
    Syntax { token_index: usize, reason: SyntaxReason },
}

/// The meaning of a text: the description it spells, or the first fault.
pub open spec fn parse_text_spec(s: Seq<u8>) -> Result<InterfacesModel, TextError> {
    match lex(s, 0) {
        Err(offset) => Err(TextError::UnterminatedString { offset: offset as usize }),
        Ok(toks) => match parse_clauses(toks, 0) {
            Ok((x, _)) => Ok(x),
            Err((i, reason)) => Err(TextError::Syntax { token_index: i as usize, reason }),
        },
    }
}

// ---------------------------------------------------------------------
// Reader

/// `r` is what the spec parse `sp` gives, with `view` taking an executable
/// value to its model.
pub open spec fn tagrees<T, U>(
    r: Result<(T, usize), (usize, SyntaxReason)>,
    sp: TParsed<U>,
    view: spec_fn(T) -> U,
) -> bool {
    match r {
        Ok((v, j)) => sp == Ok::<(U, int), (int, SyntaxReason)>((view(v), j as int)),
        Err((i, reason)) => sp == Err::<(U, int), (int, SyntaxReason)>((i as int, reason)),
    }
}

/// A successful read ends within the tokens.
pub open spec fn twithin<T>(r: Result<(T, usize), (usize, SyntaxReason)>, len: int) -> bool {
    r matches Ok((_, j)) ==> j <= len
}

fn is_space_byte(b: u8) -> (r: bool)
    ensures
        r == is_space(b),
{
    b == 32 || b == 9 || b == 10 || b == 13
}

fn scan_exec(s: &[u8], p: usize, kind: u8) -> (r: usize)
    requires
        p <= s@.len(),
    ensures
        r as int == scan(s@, p as int, kind),
        p <= r <= s@.len(),
{
    let mut q = p;
    while q < s.len()
        invariant
            p <= q <= s@.len(),
            scan(s@, p as int, kind) == scan(s@, q as int, kind),
        decreases s.len() - q,
    {
        let b = s[q];
        let stop = if kind == 0 {
            b == 10
        } else if kind == 1 {
            b == 34
        } else {
            is_space_byte(b) || b == 40 || b == 41 || b == 34
        };
        if stop {
            return q;
        }
        q += 1;
    }
    q
}

proof fn lemma_prepend_tokens(a: Seq<TokenModel>, b: Seq<TokenModel>, r: Result<Seq<TokenModel>, int>)
    ensures
        prepend_tokens(a, prepend_tokens(b, r)) == prepend_tokens(a + b, r),
{
    if r is Ok {
        assert(a + (b + r->Ok_0) =~= (a + b) + r->Ok_0);
    }
}

/// The tokens of a text.
pub fn tokenize(s: &[u8]) -> (r: Result<Vec<Token>, usize>)
    ensures
        r matches Ok(ts) ==> ts@.len() <= s@.len(),
        match r {
            Ok(ts) => lex(s@, 0) == Ok::<Seq<TokenModel>, int>(tokens_view(ts@)),
            Err(offset) => lex(s@, 0) == Err::<Seq<TokenModel>, int>(offset as int),
        },
{
    let mut toks: Vec<Token> = Vec::new();
    let mut p: usize = 0;
    assert(prepend_tokens(tokens_view(toks@), lex(s@, 0)) == lex(s@, 0)) by {
        assert(tokens_view(toks@) =~= Seq::<TokenModel>::empty());
        if lex(s@, 0) is Ok {
            assert(tokens_view(toks@) + lex(s@, 0)->Ok_0 =~= lex(s@, 0)->Ok_0);
        }
    }
    while p < s.len()
        invariant
            p <= s@.len(),
            toks@.len() <= p,
            lex(s@, 0) == prepend_tokens(tokens_view(toks@), lex(s@, p as int)),
        decreases s.len() - p,
    {
        let b = s[p];
        let ghost before = tokens_view(toks@);
        if is_space_byte(b) {
            p += 1;
        } else if b == 59 && p + 1 < s.len() && s[p + 1] == 59 {
            p = scan_exec(s, p + 2, 0);
        } else if b == 40 || b == 41 {
            let t = if b == 40 {
                Token::Open
            } else {
                Token::Close
            };
            toks.push(t);
            proof {
                lemma_prepend_tokens(before, seq![t@], lex(s@, p + 1));
                assert(tokens_view(toks@) =~= before + seq![t@]);
            }
            p += 1;
        } else if b == 34 {
            let q = scan_exec(s, p + 1, 1);
            if q >= s.len() {
                return Err(p);
            }
            let mut bytes: Vec<u8> = Vec::new();
            push_bytes(&mut bytes, &s[p + 1..q]);
            let t = Token::Str(bytes);
            proof {
                assert(t@ == TokenModel::Str(s@.subrange(p + 1, q as int)));
                lemma_prepend_tokens(before, seq![t@], lex(s@, q + 1));
            }
            toks.push(t);
            proof {
                assert(tokens_view(toks@) =~= before + seq![t@]);
            }
            p = q + 1;
        } else {
            let q = scan_exec(s, p + 1, 2);
            let mut bytes: Vec<u8> = Vec::new();
            push_bytes(&mut bytes, &s[p..q]);
            let t = Token::Word(bytes);
            proof {
                assert(t@ == TokenModel::Word(s@.subrange(p as int, q as int)));
                lemma_prepend_tokens(before, seq![t@], lex(s@, q as int));
            }
            toks.push(t);
            proof {
                assert(tokens_view(toks@) =~= before + seq![t@]);
            }
            p = q;
        }
    }
    assert(tokens_view(toks@) + seq![] =~= tokens_view(toks@));
    Ok(toks)
}

fn bytes_equal(a: &[u8], b: &[u8]) -> (r: bool)
    ensures
        r == (a@ == b@),
{
    if a.len() != b.len() {
        return false;
    }
    let mut i: usize = 0;
    while i < a.len()
        invariant
            a@.len() == b@.len(),
            i <= a@.len(),
            forall|k: int| 0 <= k < i ==> a@[k] == b@[k],
        decreases a.len() - i,
    {
        if a[i] != b[i] {
            return false;
        }
        i += 1;
    }
    assert(a@ =~= b@);
    true
}

fn word_equals(w: &Vec<u8>, keyword: &str) -> (r: bool)
    ensures
        r == (w@ == lit(keyword)),
{
    bytes_equal(w.as_slice(), keyword.as_bytes())
}

fn is_word_at(toks: &Vec<Token>, i: usize, keyword: &str) -> (r: bool)
    ensures
        r == is_word(tokens_view(toks@), i as int, lit(keyword)),
{
    if i >= toks.len() {
        return false;
    }
    match &toks[i] {
        Token::Word(w) => word_equals(w, keyword),
        _ => false,
    }
}

fn expect_token(toks: &Vec<Token>, i: usize, close: bool) -> (r: Result<
    ((), usize),
    (usize, SyntaxReason),
>)
    ensures
        tagrees(
            r,
            expect(
                tokens_view(toks@),
                i as int,
                if close {
                    TokenModel::Close
                } else {
                    TokenModel::Open
                },
            ),
            |u: ()| u,
        ),
        twithin(r, toks@.len() as int),
{
    if i >= toks.len() {
        return Err((i, SyntaxReason::UnexpectedEnd));
    }
    let ok = match &toks[i] {
        Token::Open => !close,
        Token::Close => close,
        _ => false,
    };
    if ok {
        Ok(((), i + 1))
    } else {
        Err((i, SyntaxReason::UnexpectedToken))
    }
}

fn type_of_word_exec(w: &Vec<u8>) -> (r: Option<InterfaceType>)
    ensures
        r == type_of_word(w@),
{
    if word_equals(w, "int") {
        Some(InterfaceType::Int)
    } else if word_equals(w, "float") {
        Some(InterfaceType::Float)
    } else if word_equals(w, "any") {
        Some(InterfaceType::Any)
    } else if word_equals(w, "string") {
        Some(InterfaceType::String)
    } else if word_equals(w, "seq") {
        Some(InterfaceType::Sequence)
    } else if word_equals(w, "i32") {
        Some(InterfaceType::I32)
    } else if word_equals(w, "i64") {
        Some(InterfaceType::I64)
    } else if word_equals(w, "f32") {
        Some(InterfaceType::F32)
    } else if word_equals(w, "f64") {
        Some(InterfaceType::F64)
    } else if word_equals(w, "anyref") {
        Some(InterfaceType::AnyRef)
    } else {
        None
    }
}

fn read_type_word(toks: &Vec<Token>, i: usize) -> (r: Result<
    (InterfaceType, usize),
    (usize, SyntaxReason),
>)
    ensures
        tagrees(r, parse_type_word(tokens_view(toks@), i as int), |t: InterfaceType| t),
        twithin(r, toks@.len() as int),
{
    if i >= toks.len() {
        return Err((i, SyntaxReason::UnexpectedEnd));
    }
    match &toks[i] {
        Token::Word(w) => match type_of_word_exec(w) {
            Some(t) => Ok((t, i + 1)),
            None => Err((i, SyntaxReason::UnknownType)),
        },
        _ => Err((i, SyntaxReason::UnexpectedToken)),
    }
}

fn digits_value_exec(w: &Vec<u8>) -> (r: Option<u64>)
    ensures
        match r {
            Some(v) => digits_value(w@) == Some(v as nat),
            None => digits_value(w@) is None,
        },
{
    let mut v: u64 = 0;
    let mut i: usize = 0;
    assert(w@.subrange(0, 0) =~= Seq::<u8>::empty());
    while i < w.len()
        invariant
            i <= w@.len(),
            digits_value(w@.subrange(0, i as int)) == Some(v as nat),
        decreases w.len() - i,
    {
        let b = w[i];
        let ghost pre = w@.subrange(0, i as int + 1);
        assert(pre.drop_last() =~= w@.subrange(0, i as int));
        if b < 48 || b > 57 {
            proof {
                lemma_digits_none(w@, i as int + 1);
            }
            return None;
        }
        let d = (b - 48) as u64;
        if v > (u64::MAX - d) / 10 {
            proof {
                lemma_digits_none(w@, i as int + 1);
            }
            return None;
        }
        v = v * 10 + d;
        i += 1;
    }
    assert(w@.subrange(0, w@.len() as int) =~= w@);
    Some(v)
}

proof fn lemma_digits_none(w: Seq<u8>, i: int)
    requires
        0 <= i <= w.len(),
        digits_value(w.subrange(0, i)) is None,
    ensures
        digits_value(w) is None,
    decreases w.len() - i,
{
    if i < w.len() {
        assert(w.subrange(0, i + 1).drop_last() =~= w.subrange(0, i));
        lemma_digits_none(w, i + 1);
    } else {
        assert(w.subrange(0, i) =~= w);
    }
}

fn read_number(toks: &Vec<Token>, i: usize) -> (r: Result<(u64, usize), (usize, SyntaxReason)>)
    ensures
        tagrees(r, parse_number(tokens_view(toks@), i as int), |n: u64| n),
        twithin(r, toks@.len() as int),
{
    if i >= toks.len() {
        return Err((i, SyntaxReason::UnexpectedEnd));
    }
    match &toks[i] {
        Token::Word(w) => {
            if w.len() == 0 {
                return Err((i, SyntaxReason::InvalidNumber));
            }
            match digits_value_exec(w) {
                Some(n) => Ok((n, i + 1)),
                None => Err((i, SyntaxReason::InvalidNumber)),
            }
        },
        _ => Err((i, SyntaxReason::UnexpectedToken)),
    }
}

fn read_string(toks: &Vec<Token>, i: usize) -> (r: Result<(String, usize), (usize, SyntaxReason)>)
    ensures
        tagrees(r, parse_string(tokens_view(toks@), i as int), |c: String| c@),
        twithin(r, toks@.len() as int),
{
    if i >= toks.len() {
        return Err((i, SyntaxReason::UnexpectedEnd));
    }
    match &toks[i] {
        Token::Str(b) => match string_from_utf8(b.as_slice()) {
            Some(c) => Ok((c, i + 1)),
            None => Err((i, SyntaxReason::InvalidUtf8)),
        },
        _ => Err((i, SyntaxReason::UnexpectedToken)),
    }
}

/// `acc` in front of the sequence that `r` read, or the failure of `r`.
pub open spec fn prepend_parsed<T>(acc: Seq<T>, r: TParsed<Seq<T>>) -> TParsed<Seq<T>> {
    match r {
        Ok((xs, k)) => Ok((acc + xs, k)),
        Err(e) => Err(e),
    }
}

proof fn lemma_prepend_parsed<T>(a: Seq<T>, x: T, r: TParsed<Seq<T>>)
    ensures
        prepend_parsed(a, prepend_parsed(seq![x], r)) == prepend_parsed(a.push(x), r),
{
    if r is Ok {
        assert(a + (seq![x] + r->Ok_0.0) =~= a.push(x) + r->Ok_0.0);
    }
}

proof fn lemma_prepend_parsed_empty<T>(r: TParsed<Seq<T>>)
    ensures
        prepend_parsed(Seq::<T>::empty(), r) == r,
{
    if r is Ok {
        assert(Seq::<T>::empty() + r->Ok_0.0 =~= r->Ok_0.0);
    }
}

fn at_word(toks: &Vec<Token>, j: usize) -> (r: bool)
    ensures
        r == (j < toks@.len() && tokens_view(toks@)[j as int] is Word),
{
    if j >= toks.len() {
        return false;
    }
    match &toks[j] {
        Token::Word(_) => true,
        _ => false,
    }
}

fn read_type_words(toks: &Vec<Token>, i: usize) -> (r: Result<
    (Vec<InterfaceType>, usize),
    (usize, SyntaxReason),
>)
    requires
        i <= toks@.len(),
        toks@.len() <= usize::MAX - 3,
    ensures
        tagrees(
            r,
            parse_type_words(tokens_view(toks@), i as int),
            |v: Vec<InterfaceType>| v@,
        ),
        twithin(r, toks@.len() as int),
{
    let ghost ts = tokens_view(toks@);
    let mut acc: Vec<InterfaceType> = Vec::new();
    let mut j = i;
    proof {
        lemma_prepend_parsed_empty(parse_type_words(ts, i as int));
    }
    while at_word(toks, j)
        invariant
            ts == tokens_view(toks@),
            toks@.len() <= usize::MAX - 3,
            i <= j <= toks@.len(),
            parse_type_words(ts, i as int) == prepend_parsed(acc@, parse_type_words(ts, j as int)),
        decreases toks.len() - j,
    {
        match read_type_word(toks, j) {
            Ok((t, k)) => {
                proof {
                    lemma_prepend_parsed(acc@, t, parse_type_words(ts, j + 1));
                }
                acc.push(t);
                j = j + 1;
            },
            Err(e) => {
                return Err(e);
            },
        }
    }
    assert(acc@ + seq![] =~= acc@);
    Ok((acc, j))
}

fn read_group(toks: &Vec<Token>, i: usize, keyword: &str) -> (r: Result<
    (Vec<InterfaceType>, usize),
    (usize, SyntaxReason),
>)
    requires
        i <= toks@.len(),
        toks@.len() <= usize::MAX - 3,
    ensures
        tagrees(
            r,
            parse_group(tokens_view(toks@), i as int, lit(keyword)),
            |v: Vec<InterfaceType>| v@,
        ),
        twithin(r, toks@.len() as int),
{
    let opens = i < toks.len() && match &toks[i] {
        Token::Open => true,
        _ => false,
    };
    if opens && is_word_at(toks, i + 1, keyword) {
        match read_type_words(toks, i + 2) {
            Ok((ts, j)) => match expect_token(toks, j, true) {
                Ok((_, k)) => Ok((ts, k)),
                Err(e) => Err(e),
            },
            Err(e) => Err(e),
        }
    } else {
        Ok((Vec::new(), i))
    }
}

fn group_at_exec(toks: &Vec<Token>, i: usize) -> (r: Option<bool>)
    requires
        toks@.len() <= usize::MAX - 3,
    ensures
        r == group_at(tokens_view(toks@), i as int),
{
    if i >= toks.len() {
        return None;
    }
    match &toks[i] {
        Token::Open => {
            if is_word_at(toks, i + 1, "param") {
                Some(true)
            } else if is_word_at(toks, i + 1, "result") {
                Some(false)
            } else {
                None
            }
        },
        _ => None,
    }
}

/// The types `ins` and `outs` in front of those that `r` read, or the
/// failure of `r`.
pub open spec fn prepend_signature(
    ins: Seq<InterfaceType>,
    outs: Seq<InterfaceType>,
    r: TParsed<(Seq<InterfaceType>, Seq<InterfaceType>)>,
) -> TParsed<(Seq<InterfaceType>, Seq<InterfaceType>)> {
    match r {
        Ok(((a, b), l)) => Ok(((ins + a, outs + b), l)),
        Err(e) => Err(e),
    }
}

fn read_signature_text(toks: &Vec<Token>, i: usize) -> (r: Result<
    ((Vec<InterfaceType>, Vec<InterfaceType>), usize),
    (usize, SyntaxReason),
>)
    requires
        i <= toks@.len(),
        toks@.len() <= usize::MAX - 3,
    ensures
        tagrees(
            r,
            parse_signature_text(tokens_view(toks@), i as int),
            |x: (Vec<InterfaceType>, Vec<InterfaceType>)| (x.0@, x.1@),
        ),
        twithin(r, toks@.len() as int),
{
    let ghost ts = tokens_view(toks@);
    let mut ins: Vec<InterfaceType> = Vec::new();
    let mut outs: Vec<InterfaceType> = Vec::new();
    let mut j = i;
    proof {
        let r0 = parse_signature_text(ts, i as int);
        if r0 is Ok {
            let x = r0->Ok_0.0;
            assert(Seq::<InterfaceType>::empty() + x.0 =~= x.0);
            assert(Seq::<InterfaceType>::empty() + x.1 =~= x.1);
        }
    }
    while group_at_exec(toks, j).is_some()
        invariant
            ts == tokens_view(toks@),
            toks@.len() <= usize::MAX - 3,
            i <= j <= toks@.len(),
            parse_signature_text(ts, i as int) == prepend_signature(
                ins@,
                outs@,
                parse_signature_text(ts, j as int),
            ),
        decreases toks.len() - j,
    {
        let param = match group_at_exec(toks, j) {
            Some(p) => p,
            None => return Err((j, SyntaxReason::UnexpectedToken)),
        };
        let keyword = if param {
            "param"
        } else {
            "result"
        };
        match read_group(toks, j, keyword) {
            Ok((mut group, k)) => {
                if k <= j {
                    return Err((j, SyntaxReason::UnexpectedToken));
                }
                let ghost g = group@;
                proof {
                    let rest = parse_signature_text(ts, k as int);
                    if rest is Ok {
                        let x = rest->Ok_0.0;
                        assert(ins@ + (g + x.0) =~= (ins@ + g) + x.0);
                        assert(outs@ + (g + x.1) =~= (outs@ + g) + x.1);
                    }
                }
                if param {
                    ins.append(&mut group);
                } else {
                    outs.append(&mut group);
                }
                j = k;
            },
            Err(e) => {
                return Err(e);
            },
        }
    }
    proof {
        assert(ins@ + Seq::<InterfaceType>::empty() =~= ins@);
        assert(outs@ + Seq::<InterfaceType>::empty() =~= outs@);
    }
    Ok(((ins, outs), j))
}

fn read_operands(toks: &Vec<Token>, m: &Vec<u8>, i: usize) -> (r: Result<
    (Instruction, usize),
    (usize, SyntaxReason),
>)
    requires
        1 <= i <= toks@.len(),
        toks@.len() <= usize::MAX - 3,
    ensures
        tagrees(
            r,
            parse_operands_text(tokens_view(toks@), m@, i as int),
            |x: Instruction| x@,
        ),
        twithin(r, toks@.len() as int),
{
    if word_equals(m, "arg.get") {
        match read_number(toks, i) {
            Ok((n, j)) => Ok((Instruction::ArgumentGet { index: n }, j)),
            Err(e) => Err(e),
        }
    } else if word_equals(m, "call") {
        match read_number(toks, i) {
            Ok((n, j)) => Ok((Instruction::Call { function_index: n }, j)),
            Err(e) => Err(e),
        }
    } else if word_equals(m, "call-export") {
        match read_string(toks, i) {
            Ok((c, j)) => Ok((Instruction::CallExport { export_name: c }, j)),
            Err(e) => Err(e),
        }
    } else if word_equals(m, "read-utf8") {
        Ok((Instruction::ReadUtf8, i))
    } else if word_equals(m, "write-utf8") {
        match read_string(toks, i) {
            Ok((c, j)) => Ok((Instruction::WriteUtf8 { allocator_name: c }, j)),
            Err(e) => Err(e),
        }
    } else if word_equals(m, "as-wasm") {
        match read_type_word(toks, i) {
            Ok((t, j)) => Ok((Instruction::AsWasm(t), j)),
            Err(e) => Err(e),
        }
    } else if word_equals(m, "as-interface") {
        match read_type_word(toks, i) {
            Ok((t, j)) => Ok((Instruction::AsInterface(t), j)),
            Err(e) => Err(e),
        }
    } else if word_equals(m, "table-ref-add") {
        Ok((Instruction::TableRefAdd, i))
    } else if word_equals(m, "table-ref-get") {
        Ok((Instruction::TableRefGet, i))
    } else if word_equals(m, "call-method") {
        match read_string(toks, i) {
            Ok((c, j)) => Ok((Instruction::CallMethod(c), j)),
            Err(e) => Err(e),
        }
    } else if word_equals(m, "make-record") {
        match read_type_word(toks, i) {
            Ok((t, j)) => Ok((Instruction::MakeRecord(t), j)),
            Err(e) => Err(e),
        }
    } else if word_equals(m, "get-field") {
        match read_type_word(toks, i) {
            Ok((t, j)) => match read_string(toks, j) {
                Ok((c, k)) => Ok((Instruction::GetField(t, c), k)),
                Err(e) => Err(e),
            },
            Err(e) => Err(e),
        }
    } else if word_equals(m, "const") {
        match read_type_word(toks, i) {
            Ok((t, j)) => match read_number(toks, j) {
                Ok((n, k)) => Ok((Instruction::Const(t, n), k)),
                Err(e) => Err(e),
            },
            Err(e) => Err(e),
        }
    } else if word_equals(m, "fold-seq") {
        match read_string(toks, i) {
            Ok((c, j)) => Ok((Instruction::FoldSeq(c), j)),
            Err(e) => Err(e),
        }
    } else {
        Err((i - 1, SyntaxReason::UnknownInstruction))
    }
}

fn read_instruction_words(toks: &Vec<Token>, i: usize) -> (r: Result<
    (Vec<Instruction>, usize),
    (usize, SyntaxReason),
>)
    requires
        i <= toks@.len(),
        toks@.len() <= usize::MAX - 3,
    ensures
        tagrees(
            r,
            parse_instruction_words(tokens_view(toks@), i as int),
            |v: Vec<Instruction>| instructions_view(v@),
        ),
        twithin(r, toks@.len() as int),
{
    let ghost ts = tokens_view(toks@);
    let mut acc: Vec<Instruction> = Vec::new();
    let mut j = i;
    proof {
        lemma_prepend_parsed_empty(parse_instruction_words(ts, i as int));
        assert(instructions_view(acc@) =~= Seq::<InstructionModel>::empty());
    }
    while at_word(toks, j)
        invariant
            ts == tokens_view(toks@),
            toks@.len() <= usize::MAX - 3,
            i <= j <= toks@.len(),
            parse_instruction_words(ts, i as int) == prepend_parsed(
                instructions_view(acc@),
                parse_instruction_words(ts, j as int),
            ),
        decreases toks.len() - j,
    {
        let m = match &toks[j] {
            Token::Word(m) => m,
            _ => {
                return Err((j, SyntaxReason::UnexpectedToken));
            },
        };
        match read_operands(toks, m, j + 1) {
            Ok((x, k)) => {
                if k <= j {
                    return Err((j, SyntaxReason::UnexpectedToken));
                }
                proof {
                    lemma_prepend_parsed(
                        instructions_view(acc@),
                        x@,
                        parse_instruction_words(ts, k as int),
                    );
                }
                let ghost before = acc@;
                acc.push(x);
                assert(instructions_view(acc@) =~= instructions_view(before).push(x@));
                j = k;
            },
            Err(e) => {
                return Err(e);
            },
        }
    }
    assert(instructions_view(acc@) + seq![] =~= instructions_view(acc@));
    Ok((acc, j))
}

/// One top-level clause.
pub enum Clause {
    Export(Export),
    Import(Import),
    Adapter(Adapter),
    Forward(Forward),
}

impl View for Clause {
    type V = ClauseModel;

    open spec fn view(&self) -> ClauseModel {
        match self {
            Clause::Export(e) => ClauseModel::Export(e@),
            Clause::Import(i) => ClauseModel::Import(i@),
            Clause::Adapter(a) => ClauseModel::Adapter(a@),
            Clause::Forward(f) => ClauseModel::Forward(f@),
        }
    }
}

fn read_qualifier(toks: &Vec<Token>, i: usize, ns: bool) -> (r: Result<
    ((String, String), usize),
    (usize, SyntaxReason),
>)
    requires
        i <= toks@.len(),
        toks@.len() <= usize::MAX - 3,
    ensures
        tagrees(
            r,
            parse_qualifier(tokens_view(toks@), i as int, ns),
            |x: (String, String)| (if ns { x.0@ } else { seq![] }, x.1@),
        ),
        twithin(r, toks@.len() as int),
{
    if ns {
        match read_string(toks, i) {
            Ok((a, j)) => match read_string(toks, j) {
                Ok((b, k)) => match expect_token(toks, k, true) {
                    Ok((_, l)) => Ok(((a, b), l)),
                    Err(e) => Err(e),
                },
                Err(e) => Err(e),
            },
            Err(e) => Err(e),
        }
    } else {
        match read_string(toks, i) {
            Ok((b, k)) => match expect_token(toks, k, true) {
                Ok((_, l)) => Ok(((String::new(), b), l)),
                Err(e) => Err(e),
            },
            Err(e) => Err(e),
        }
    }
}

fn read_adapter_rest(toks: &Vec<Token>, i: usize) -> (r: Result<
    ((Vec<InterfaceType>, Vec<InterfaceType>, Vec<Instruction>), usize),
    (usize, SyntaxReason),
>)
    requires
        i <= toks@.len(),
        toks@.len() <= usize::MAX - 3,
    ensures
        tagrees(
            r,
            parse_adapter_rest(tokens_view(toks@), i as int),
            |x: (Vec<InterfaceType>, Vec<InterfaceType>, Vec<Instruction>)|
                (x.0@, x.1@, instructions_view(x.2@)),
        ),
        twithin(r, toks@.len() as int),
{
    match read_signature_text(toks, i) {
        Ok(((ins, outs), j)) => match read_instruction_words(toks, j) {
            Ok((is, k)) => match expect_token(toks, k, true) {
                Ok((_, l)) => Ok(((ins, outs, is), l)),
                Err(e) => Err(e),
            },
            Err(e) => Err(e),
        },
        Err(e) => Err(e),
    }
}

fn read_export_clause(toks: &Vec<Token>, i: usize) -> (r: Result<
    (Clause, usize),
    (usize, SyntaxReason),
>)
    requires
        i <= toks@.len(),
        toks@.len() <= usize::MAX - 3,
    ensures
        tagrees(r, parse_export_clause(tokens_view(toks@), i as int), |c: Clause| c@),
        twithin(r, toks@.len() as int),
{
    match read_string(toks, i) {
        Ok((name, j)) => match read_signature_text(toks, j) {
            Ok(((input_types, output_types), k)) => match expect_token(toks, k, true) {
                Ok((_, l)) => Ok((Clause::Export(Export { name, input_types, output_types }), l)),
                Err(e) => Err(e),
            },
            Err(e) => Err(e),
        },
        Err(e) => Err(e),
    }
}

fn read_func_clause(toks: &Vec<Token>, i: usize) -> (r: Result<
    (Clause, usize),
    (usize, SyntaxReason),
>)
    requires
        i <= toks@.len(),
        toks@.len() <= usize::MAX - 3,
    ensures
        tagrees(r, parse_func_clause(tokens_view(toks@), i as int), |c: Clause| c@),
        twithin(r, toks@.len() as int),
{
    let j = if at_word(toks, i) {
        i + 1
    } else {
        i
    };
    match expect_token(toks, j, false) {
        Ok((_, k)) => {
            if is_word_at(toks, k, "import") {
                match read_qualifier(toks, k + 1, true) {
                    Ok(((namespace, name), l)) => match read_signature_text(toks, l) {
                        Ok(((input_types, output_types), m)) => match expect_token(toks, m, true) {
                            Ok((_, n)) => Ok(
                                (
                                    Clause::Import(
                                        Import { namespace, name, input_types, output_types },
                                    ),
                                    n,
                                ),
                            ),
                            Err(e) => Err(e),
                        },
                        Err(e) => Err(e),
                    },
                    Err(e) => Err(e),
                }
            } else {
                Err((k, SyntaxReason::UnexpectedToken))
            }
        },
        Err(e) => Err(e),
    }
}

fn read_adapt_clause(toks: &Vec<Token>, i: usize) -> (r: Result<
    (Clause, usize),
    (usize, SyntaxReason),
>)
    requires
        i <= toks@.len(),
        toks@.len() <= usize::MAX - 3,
    ensures
        tagrees(r, parse_adapt_clause(tokens_view(toks@), i as int), |c: Clause| c@),
        twithin(r, toks@.len() as int),
{
    match expect_token(toks, i, false) {
        Ok((_, k)) => {
            let kind: u8 = if is_word_at(toks, k, "import") {
                0
            } else if is_word_at(toks, k, "export") {
                1
            } else if is_word_at(toks, k, "helper") {
                2
            } else {
                3
            };
            if kind == 3 {
                return Err((k, SyntaxReason::UnexpectedToken));
            }
            match read_qualifier(toks, k + 1, kind == 0) {
                Ok(((namespace, name), l)) => match read_adapter_rest(toks, l) {
                    Ok(((input_types, output_types, instructions), m)) => {
                        let a = if kind == 0 {
                            Adapter::Import {
                                namespace,
                                name,
                                input_types,
                                output_types,
                                instructions,
                            }
                        } else if kind == 1 {
                            Adapter::Export { name, input_types, output_types, instructions }
                        } else {
                            Adapter::HelperFunction {
                                name,
                                input_types,
                                output_types,
                                instructions,
                            }
                        };
                        Ok((Clause::Adapter(a), m))
                    },
                    Err(e) => Err(e),
                },
                Err(e) => Err(e),
            }
        },
        Err(e) => Err(e),
    }
}

fn read_forward_clause(toks: &Vec<Token>, i: usize) -> (r: Result<
    (Clause, usize),
    (usize, SyntaxReason),
>)
    requires
        i <= toks@.len(),
        toks@.len() <= usize::MAX - 3,
    ensures
        tagrees(r, parse_forward_clause(tokens_view(toks@), i as int), |c: Clause| c@),
        twithin(r, toks@.len() as int),
{
    match read_string(toks, i) {
        Ok((name, j)) => match expect_token(toks, j, true) {
            Ok((_, k)) => Ok((Clause::Forward(Forward { name }), k)),
            Err(e) => Err(e),
        },
        Err(e) => Err(e),
    }
}

fn read_clause(toks: &Vec<Token>, i: usize) -> (r: Result<(Clause, usize), (usize, SyntaxReason)>)
    requires
        i <= toks@.len(),
        toks@.len() <= usize::MAX - 3,
    ensures
        tagrees(r, parse_clause(tokens_view(toks@), i as int), |c: Clause| c@),
        twithin(r, toks@.len() as int),
{
    match expect_token(toks, i, false) {
        Ok((_, j)) => {
            if !is_word_at(toks, j, "@interface") {
                Err((j, SyntaxReason::UnexpectedToken))
            } else if is_word_at(toks, j + 1, "export") {
                read_export_clause(toks, j + 2)
            } else if is_word_at(toks, j + 1, "func") {
                read_func_clause(toks, j + 2)
            } else if is_word_at(toks, j + 1, "adapt") {
                read_adapt_clause(toks, j + 2)
            } else if is_word_at(toks, j + 1, "forward") {
                read_forward_clause(toks, j + 2)
            } else if j + 1 >= toks.len() {
                Err((j + 1, SyntaxReason::UnexpectedEnd))
            } else {
                Err((j + 1, SyntaxReason::UnexpectedToken))
            }
        },
        Err(e) => Err(e),
    }
}

/// The lists of `acc` in front of those that `r` read, or the failure of `r`.
pub open spec fn prepend_clauses(acc: InterfacesModel, r: TParsed<InterfacesModel>) -> TParsed<
    InterfacesModel,
> {
    match r {
        Ok((x, k)) => Ok(
            (
                InterfacesModel {
                    exports: acc.exports + x.exports,
                    types: acc.types + x.types,
                    imports: acc.imports + x.imports,
                    adapters: acc.adapters + x.adapters,
                    forwards: acc.forwards + x.forwards,
                },
                k,
            ),
        ),
        Err(e) => Err(e),
    }
}

/// A description with one more clause at the back.
pub open spec fn add_back(x: InterfacesModel, c: ClauseModel) -> InterfacesModel {
    match c {
        ClauseModel::Export(e) => InterfacesModel { exports: x.exports.push(e), ..x },
        ClauseModel::Import(i) => InterfacesModel { imports: x.imports.push(i), ..x },
        ClauseModel::Adapter(a) => InterfacesModel { adapters: x.adapters.push(a), ..x },
        ClauseModel::Forward(f) => InterfacesModel { forwards: x.forwards.push(f), ..x },
    }
}

proof fn lemma_prepend_clause(acc: InterfacesModel, c: ClauseModel, r: TParsed<InterfacesModel>)
    ensures
        prepend_clauses(
            acc,
            match r {
                Ok((x, k)) => Ok::<(InterfacesModel, int), (int, SyntaxReason)>(
                    (add_front(c, x), k),
                ),
                Err(e) => Err(e),
            },
        ) == prepend_clauses(add_back(acc, c), r),
{
    if r is Ok {
        let x = r->Ok_0.0;
        match c {
            ClauseModel::Export(e) => {
                assert(acc.exports + (seq![e] + x.exports) =~= acc.exports.push(e) + x.exports);
            },
            ClauseModel::Import(i) => {
                assert(acc.imports + (seq![i] + x.imports) =~= acc.imports.push(i) + x.imports);
            },
            ClauseModel::Adapter(a) => {
                assert(acc.adapters + (seq![a] + x.adapters) =~= acc.adapters.push(a)
                    + x.adapters);
            },
            ClauseModel::Forward(f) => {
                assert(acc.forwards + (seq![f] + x.forwards) =~= acc.forwards.push(f)
                    + x.forwards);
            },
        }
    }
}

fn add_clause(x: &mut Interfaces, c: Clause)
    ensures
        final(x)@ == add_back(old(x)@, c@),
{
    match c {
        Clause::Export(e) => {
            let ghost before = x.exports@;
            x.exports.push(e);
            assert(x.exports@.map_values(|e: Export| e@) =~= before.map_values(|e: Export| e@).push(
                e@,
            ));
        },
        Clause::Import(m) => {
            let ghost before = x.imports@;
            x.imports.push(m);
            assert(x.imports@.map_values(|e: Import| e@) =~= before.map_values(|e: Import| e@).push(
                m@,
            ));
        },
        Clause::Adapter(a) => {
            let ghost before = x.adapters@;
            x.adapters.push(a);
            assert(x.adapters@.map_values(|a: Adapter| a@) =~= before.map_values(
                |a: Adapter| a@,
            ).push(a@));
        },
        Clause::Forward(f) => {
            let ghost before = x.forwards@;
            x.forwards.push(f);
            assert(x.forwards@.map_values(|f: Forward| f@) =~= before.map_values(
                |f: Forward| f@,
            ).push(f@));
        },
    }
}

proof fn lemma_prepend_clauses_empty_end(acc: InterfacesModel, k: int)
    ensures
        prepend_clauses(acc, Ok((empty_interfaces(), k))) == Ok::<
            (InterfacesModel, int),
            (int, SyntaxReason),
        >((acc, k)),
{
    assert(acc.exports + seq![] =~= acc.exports);
    assert(acc.types + seq![] =~= acc.types);
    assert(acc.imports + seq![] =~= acc.imports);
    assert(acc.adapters + seq![] =~= acc.adapters);
    assert(acc.forwards + seq![] =~= acc.forwards);
}

proof fn lemma_prepend_clauses_start(r: TParsed<InterfacesModel>)
    ensures
        prepend_clauses(empty_interfaces(), r) == r,
{
    if r is Ok {
        let x = r->Ok_0.0;
        assert(Seq::<ExportModel>::empty() + x.exports =~= x.exports);
        assert(Seq::<crate::ast::TypeModel>::empty() + x.types =~= x.types);
        assert(Seq::<ImportModel>::empty() + x.imports =~= x.imports);
        assert(Seq::<AdapterModel>::empty() + x.adapters =~= x.adapters);
        assert(Seq::<ForwardModel>::empty() + x.forwards =~= x.forwards);
    }
}

fn read_clauses(toks: &Vec<Token>) -> (r: Result<Interfaces, (usize, SyntaxReason)>)
    requires
        toks@.len() <= usize::MAX - 3,
    ensures
        match r {
            Ok(x) => parse_clauses(tokens_view(toks@), 0) == Ok::<
                (InterfacesModel, int),
                (int, SyntaxReason),
            >((x@, toks@.len() as int)),
            Err((i, reason)) => parse_clauses(tokens_view(toks@), 0) == Err::<
                (InterfacesModel, int),
                (int, SyntaxReason),
            >((i as int, reason)),
        },
{
    let ghost ts = tokens_view(toks@);
    let mut x = Interfaces {
        exports: Vec::new(),
        types: Vec::new(),
        imports: Vec::new(),
        adapters: Vec::new(),
        forwards: Vec::new(),
    };
    let mut i: usize = 0;
    proof {
        assert(x@ == empty_interfaces()) by {
            assert(x@.exports =~= Seq::<ExportModel>::empty());
            assert(x@.types =~= Seq::<crate::ast::TypeModel>::empty());
            assert(x@.imports =~= Seq::<ImportModel>::empty());
            assert(x@.adapters =~= Seq::<AdapterModel>::empty());
            assert(x@.forwards =~= Seq::<ForwardModel>::empty());
        }
        lemma_prepend_clauses_start(parse_clauses(ts, 0));
    }
    while i < toks.len()
        invariant
            ts == tokens_view(toks@),
            toks@.len() <= usize::MAX - 3,
            i <= toks@.len(),
            parse_clauses(ts, 0) == prepend_clauses(x@, parse_clauses(ts, i as int)),
        decreases toks.len() - i,
    {
        match read_clause(toks, i) {
            Ok((c, j)) => {
                if j <= i {
                    return Err((i, SyntaxReason::UnexpectedToken));
                }
                proof {
                    lemma_prepend_clause(x@, c@, parse_clauses(ts, j as int));
                }
                add_clause(&mut x, c);
                i = j;
            },
            Err(e) => {
                return Err(e);
            },
        }
    }
    proof {
        lemma_prepend_clauses_empty_end(x@, i as int);
    }
    Ok(x)
}

/// Parses a text into a description: the spec parse of its UTF-8 bytes.
pub fn parse(text: &str) -> (r: Result<Interfaces, TextError>)
    requires
        encode_utf8(text@).len() <= usize::MAX - 3,
    ensures
        match r {
            Ok(x) => parse_text_spec(encode_utf8(text@)) == Ok::<InterfacesModel, TextError>(x@),
            Err(e) => parse_text_spec(encode_utf8(text@)) == Err::<InterfacesModel, TextError>(e),
        },
{
    let bytes = text.as_bytes();
    let toks = match tokenize(bytes) {
        Ok(toks) => toks,
        Err(offset) => return Err(TextError::UnterminatedString { offset }),
    };
    assert(toks@.len() <= bytes@.len());
    match read_clauses(&toks) {
        Ok(x) => Ok(x),
        Err((token_index, reason)) => Err(TextError::Syntax { token_index, reason }),
    }
}

/// The binary form of a text: the encoding of the description it spells.
pub fn text_to_binary(text: &str) -> (r: Result<Vec<u8>, TextError>)
    requires
        encode_utf8(text@).len() <= usize::MAX - 3,
    ensures
        match r {
            Ok(b) => parse_text_spec(encode_utf8(text@)) matches Ok(x) && b@ == enc_interfaces(x),
            Err(e) => parse_text_spec(encode_utf8(text@)) == Err::<InterfacesModel, TextError>(e),
        },
{
    match parse(text) {
        Ok(x) => Ok(encode(&x)),
        Err(e) => Err(e),
    }
}

/// Encoding what the binary form of a text decodes to gives the encoding
/// of what the text parses to: the decoding of the binary form is the
/// parsed description itself.
pub proof fn lemma_text_binary_agree(t: Seq<u8>)
    requires
        parse_text_spec(t) is Ok,
        interfaces_fit(parse_text_spec(t)->Ok_0),
    ensures
        decode_spec(enc_interfaces(parse_text_spec(t)->Ok_0)) matches Ok(y) && enc_interfaces(y)
            == enc_interfaces(parse_text_spec(t)->Ok_0),
{
    lemma_binary_round_trip(parse_text_spec(t)->Ok_0);
}

/// The decimal spelling of a number.
pub fn decimal(n: u64) -> (r: String)
    ensures
        encode_utf8(r@) == decimal_text(n as nat),
{
    let mut out: Vec<u8> = Vec::new();
    assert(valid_utf8(out@)) by {
        encode_utf8_valid_utf8(Seq::<char>::empty());
        assert(out@ =~= encode_utf8(Seq::<char>::empty()));
    }
    push_decimal(&mut out, n);
    assert(out@ =~= decimal_text(n as nat));
    match string_from_utf8(out.as_slice()) {
        Some(s) => {
            proof {
                decode_utf8_encode_utf8(out@);
            }
            s
        },
        None => String::new(),
    }
}

} // verus!
