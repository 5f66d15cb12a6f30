//! The Interface Types language as a tree, with a mathematical model of
//! each node in which strings are sequences of characters.

use vstd::prelude::*;

verus! {

/// The types of the Interface Types vocabulary.
#[derive(Clone, Copy, Debug, PartialEq, Eq, Structural)]
pub enum InterfaceType {
    /// An integer.
    Int,
    /// A float.
    Float,
    /// Opaque reference.
    Any,
    /// A string.
    String,
    /// A sequence (spelled `seq`).
    Sequence,
    /// A 32-bit integer.
    I32,
    /// A 64-bit integer.
    I64,
    /// A 32-bit float.
    F32,
    /// A 64-bit float.
    F64,
    /// An `any` reference.
    AnyRef,
}

/// An adapter instruction.
#[derive(Clone, Debug, PartialEq)]
pub enum Instruction {
    /// `arg.get N`: pushes the N-th invocation input.
    ArgumentGet { index: u64 },
    /// `call N`: calls the N-th imported function.
    Call { function_index: u64 },
    /// `call-export "name"`: calls an exported guest function.
    CallExport { export_name: String },
    /// `read-utf8`: reads a string out of memory.
    ReadUtf8,
    /// `write-utf8 "allocator"`: writes a string into memory.
    WriteUtf8 { allocator_name: String },
    /// `as-wasm T`: lowers a value to a core type.
    AsWasm(InterfaceType),
    /// `as-interface T`: lifts a value to an interface type.
    AsInterface(InterfaceType),
    /// `table-ref-add`.
    TableRefAdd,
    /// `table-ref-get`.
    TableRefGet,
    /// `call-method "name"`.
    CallMethod(String),
    /// `make-record T`.
    MakeRecord(InterfaceType),
    /// `get-field T "name"`.
    GetField(InterfaceType, String),
    /// `const T value`.
    Const(InterfaceType, u64),
    /// `fold-seq "name"`.
    FoldSeq(String),
}

/// The model of an instruction.
pub enum InstructionModel {
    ArgumentGet { index: u64 },
    Call { function_index: u64 },
    CallExport { export_name: Seq<char> },
    ReadUtf8,
    WriteUtf8 { allocator_name: Seq<char> },
    AsWasm(InterfaceType),
    AsInterface(InterfaceType),
    TableRefAdd,
    TableRefGet,
    CallMethod(Seq<char>),
    MakeRecord(InterfaceType),
    GetField(InterfaceType, Seq<char>),
    Const(InterfaceType, u64),
    FoldSeq(Seq<char>),
}

impl View for Instruction {
    type V = InstructionModel;

    open spec fn view(&self) -> InstructionModel {
        match self {
            Instruction::ArgumentGet { index } => InstructionModel::ArgumentGet { index: *index },
            Instruction::Call { function_index } => InstructionModel::Call {
                function_index: *function_index,
            },
            Instruction::CallExport { export_name } => InstructionModel::CallExport {
                export_name: export_name@,
            },
            Instruction::ReadUtf8 => InstructionModel::ReadUtf8,
            Instruction::WriteUtf8 { allocator_name } => InstructionModel::WriteUtf8 {
                allocator_name: allocator_name@,
            },
            Instruction::AsWasm(t) => InstructionModel::AsWasm(*t),
            Instruction::AsInterface(t) => InstructionModel::AsInterface(*t),
            Instruction::TableRefAdd => InstructionModel::TableRefAdd,
            Instruction::TableRefGet => InstructionModel::TableRefGet,
            Instruction::CallMethod(s) => InstructionModel::CallMethod(s@),
            Instruction::MakeRecord(t) => InstructionModel::MakeRecord(*t),
            Instruction::GetField(t, s) => InstructionModel::GetField(*t, s@),
            Instruction::Const(t, v) => InstructionModel::Const(*t, *v),
            Instruction::FoldSeq(s) => InstructionModel::FoldSeq(s@),
        }
    }
}

/// The signature of a function exported by the guest.
#[derive(Clone, Debug, PartialEq)]
pub struct Export {
    /// The function name.
    pub name: String,
    /// The function input types.
    pub input_types: Vec<InterfaceType>,
    /// The function output types.
    pub output_types: Vec<InterfaceType>,
}

/// The model of an export.
pub struct ExportModel {
    pub name: Seq<char>,
    pub input_types: Seq<InterfaceType>,
    pub output_types: Seq<InterfaceType>,
}

impl View for Export {
    type V = ExportModel;

    open spec fn view(&self) -> ExportModel {
        ExportModel {
            name: self.name@,
            input_types: self.input_types@,
            output_types: self.output_types@,
        }
    }
}

/// The signature of a function imported from the host.
#[derive(Clone, Debug, PartialEq)]
pub struct Import {
    /// The function namespace.
    pub namespace: String,
    /// The function name.
    pub name: String,
    /// The function input types.
    pub input_types: Vec<InterfaceType>,
    /// The function output types.
    pub output_types: Vec<InterfaceType>,
}

/// The model of an import.
pub struct ImportModel {
    pub namespace: Seq<char>,
    pub name: Seq<char>,
    pub input_types: Seq<InterfaceType>,
    pub output_types: Seq<InterfaceType>,
}

impl View for Import {
    type V = ImportModel;

    open spec fn view(&self) -> ImportModel {
        ImportModel {
            namespace: self.namespace@,
            name: self.name@,
            input_types: self.input_types@,
            output_types: self.output_types@,
        }
    }
}

/// A named record type.
#[derive(Clone, Debug, PartialEq)]
pub struct Type {
    /// The type name.
    pub name: String,
    /// The field names.
    pub fields: Vec<String>,
    /// The field types.
    pub types: Vec<InterfaceType>,
}

/// The model of a record type.
pub struct TypeModel {
    pub name: Seq<char>,
    pub fields: Seq<Seq<char>>,
    pub types: Seq<InterfaceType>,
}

/// The characters of each string of a vector.
pub open spec fn strings_view(v: Seq<String>) -> Seq<Seq<char>> {
    v.map_values(|s: String| s@)
}

impl View for Type {
    type V = TypeModel;

    open spec fn view(&self) -> TypeModel {
        TypeModel { name: self.name@, fields: strings_view(self.fields@), types: self.types@ }
    }
}

/// The characters of each instruction of a vector.
pub open spec fn instructions_view(v: Seq<Instruction>) -> Seq<InstructionModel> {
    v.map_values(|i: Instruction| i@)
}

/// An adapter.
#[derive(Clone, Debug, PartialEq)]
pub enum Adapter {
    /// An adapter for an imported function.
    Import {
        namespace: String,
        name: String,
        input_types: Vec<InterfaceType>,
        output_types: Vec<InterfaceType>,
        instructions: Vec<Instruction>,
    },
    /// An adapter for an exported function.
    Export {
        name: String,
        input_types: Vec<InterfaceType>,
        output_types: Vec<InterfaceType>,
        instructions: Vec<Instruction>,
    },
    /// A helper function.
    HelperFunction {
        name: String,
        input_types: Vec<InterfaceType>,
        output_types: Vec<InterfaceType>,
        instructions: Vec<Instruction>,
    },
}

/// The model of an adapter.
pub enum AdapterModel {
    Import {
        namespace: Seq<char>,
        name: Seq<char>,
        input_types: Seq<InterfaceType>,
        output_types: Seq<InterfaceType>,
        instructions: Seq<InstructionModel>,
    },
    Export {
        name: Seq<char>,
        input_types: Seq<InterfaceType>,
        output_types: Seq<InterfaceType>,
        instructions: Seq<InstructionModel>,
    },
    HelperFunction {
        name: Seq<char>,
        input_types: Seq<InterfaceType>,
        output_types: Seq<InterfaceType>,
        instructions: Seq<InstructionModel>,
    },
}

impl View for Adapter {
    type V = AdapterModel;

    open spec fn view(&self) -> AdapterModel {
        match self {
            Adapter::Import { namespace, name, input_types, output_types, instructions } => {
                AdapterModel::Import {
                    namespace: namespace@,
                    name: name@,
                    input_types: input_types@,
                    output_types: output_types@,
                    instructions: instructions_view(instructions@),
                }
            },
            Adapter::Export { name, input_types, output_types, instructions } => {
                AdapterModel::Export {
                    name: name@,
                    input_types: input_types@,
                    output_types: output_types@,
                    instructions: instructions_view(instructions@),
                }
            },
            Adapter::HelperFunction { name, input_types, output_types, instructions } => {
                AdapterModel::HelperFunction {
                    name: name@,
                    input_types: input_types@,
                    output_types: output_types@,
                    instructions: instructions_view(instructions@),
                }
            },
        }
    }
}

/// A forwarded export.
#[derive(Clone, Debug, PartialEq)]
pub struct Forward {
    /// The forwarded export name.
    pub name: String,
}

/// The model of a forward.
pub struct ForwardModel {
    pub name: Seq<char>,
}

impl View for Forward {
    type V = ForwardModel;

    open spec fn view(&self) -> ForwardModel {
        ForwardModel { name: self.name@ }
    }
}

/// A complete Interface Types description.
#[derive(Clone, Debug, PartialEq)]
pub struct Interfaces {
    /// All the exports.
    pub exports: Vec<Export>,
    /// All the record types.
    pub types: Vec<Type>,
    /// All the imported functions.
    pub imports: Vec<Import>,
    /// All the adapters.
    pub adapters: Vec<Adapter>,
    /// All the forwarded functions.
    pub forwards: Vec<Forward>,
}

/// The model of an Interface Types description.
pub struct InterfacesModel {
    pub exports: Seq<ExportModel>,
    pub types: Seq<TypeModel>,
    pub imports: Seq<ImportModel>,
    pub adapters: Seq<AdapterModel>,
    pub forwards: Seq<ForwardModel>,
}

impl View for Interfaces {
    type V = InterfacesModel;

    open spec fn view(&self) -> InterfacesModel {
        InterfacesModel {
            exports: self.exports@.map_values(|e: Export| e@),
            types: self.types@.map_values(|t: Type| t@),
            imports: self.imports@.map_values(|i: Import| i@),
            adapters: self.adapters@.map_values(|a: Adapter| a@),
            forwards: self.forwards@.map_values(|f: Forward| f@),
        }
    }
}

} // verus!
