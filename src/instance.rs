//! The interface view of a core instance: which core exports and imports
//! the interface description speaks of, with their interface signatures,
//! and which memories the adapters address.
//!
//! A core module is described here by plain values: its exports, its
//! imported functions, the signature of each function, and whether it
//! imports `env.memory`.

use crate::ast::{ExportModel, ImportModel, InterfaceType, Interfaces};
use crate::host::{interface_type_of, interface_type_spec, FuncSig, WasmType};
use vstd::prelude::*;

verus! {

/// The name of the custom section that carries the interface description.
pub const INTERFACE_TYPES_SECTION: &'static str = "interface-types";

/// What a core export is.
#[derive(Clone, Copy, Debug, PartialEq, Eq, Structural)]
pub enum CoreExportKind {
    Function,
    Memory,
    Table,
    Global,
}

/// An export of a core module.
#[derive(Clone, Debug, PartialEq)]
pub struct CoreExport {
    pub name: String,
    pub kind: CoreExportKind,
}

/// A function that a core module imports, with its function index.
#[derive(Clone, Debug, PartialEq)]
pub struct CoreImport {
    pub namespace: String,
    pub name: String,
    pub function_index: u64,
}

/// A custom section of a core module.
#[derive(Clone, Debug, PartialEq)]
pub struct CustomSection {
    pub name: String,
    pub bytes: Vec<u8>,
}

/// What the façade reads of a core module and its instance.
#[derive(Clone, Debug, PartialEq)]
pub struct CoreModule {
    pub exports: Vec<CoreExport>,
    pub imported_functions: Vec<CoreImport>,
    /// The signature of each function, by function index.
    pub signatures: Vec<FuncSig>,
    /// Whether the instance was given a memory as `env.memory`.
    pub imports_env_memory: bool,
    pub custom_sections: Vec<CustomSection>,
}

/// The bytes of the first custom section named `name`.
pub open spec fn section_spec(sections: Seq<CustomSection>, name: Seq<char>) -> Option<Seq<u8>>
    decreases sections.len(),
{
    if sections.len() == 0 {
        None
    } else if sections[0].name@ == name {
        Some(sections[0].bytes@)
    } else {
        section_spec(sections.drop_first(), name)
    }
}

/// The bytes of the first custom section named `name`, if any.
pub fn custom_section<'a>(module: &'a CoreModule, name: &str) -> (r: Option<&'a Vec<u8>>)
    ensures
        match r {
            Some(b) => section_spec(module.custom_sections@, name@) == Some(b@),
            None => section_spec(module.custom_sections@, name@) is None,
        },
{
    let sections = &module.custom_sections;
    let wanted = name.to_string();
    let mut i: usize = 0;
    assert(sections@.subrange(0, sections@.len() as int) =~= sections@);
    while i < sections.len()
        invariant
            i <= sections@.len(),
            sections@ == module.custom_sections@,
            wanted@ == name@,
            section_spec(sections@, name@) == section_spec(
                sections@.subrange(i as int, sections@.len() as int),
                name@,
            ),
        decreases sections.len() - i,
    {
        let ghost rest = sections@.subrange(i as int, sections@.len() as int);
        assert(rest.len() > 0 && rest[0] == sections@[i as int]);
        if sections[i].name == wanted {
            return Some(&sections[i].bytes);
        }
        assert(rest.drop_first() =~= sections@.subrange(i + 1, sections@.len() as int));
        i += 1;
    }
    None
}

/// The first interface export named `name`.
pub open spec fn first_export(xs: Seq<ExportModel>, name: Seq<char>) -> Option<ExportModel>
    decreases xs.len(),
{
    if xs.len() == 0 {
        None
    } else if xs[0].name == name {
        Some(xs[0])
    } else {
        first_export(xs.drop_first(), name)
    }
}

/// The first interface import of `namespace` and `name`.
pub open spec fn first_import(xs: Seq<ImportModel>, namespace: Seq<char>, name: Seq<char>) -> Option<
    ImportModel,
>
    decreases xs.len(),
{
    if xs.len() == 0 {
        None
    } else if xs[0].namespace == namespace && xs[0].name == name {
        Some(xs[0])
    } else {
        first_import(xs.drop_first(), namespace, name)
    }
}

/// A core function export paired with its interface signature.
#[derive(Clone, Debug, PartialEq)]
pub struct Export {
    pub name: String,
    pub inputs: Vec<InterfaceType>,
    pub outputs: Vec<InterfaceType>,
}

impl View for Export {
    type V = ExportModel;

    open spec fn view(&self) -> ExportModel {
        ExportModel { name: self.name@, input_types: self.inputs@, output_types: self.outputs@ }
    }
}

/// A local or imported core function with its interface signature.
#[derive(Clone, Debug, PartialEq)]
pub struct LocalImport {
    pub function_index: u64,
    pub inputs: Vec<InterfaceType>,
    pub outputs: Vec<InterfaceType>,
}

/// The model of a local or imported function.
pub struct LocalImportModel {
    pub function_index: u64,
    pub inputs: Seq<InterfaceType>,
    pub outputs: Seq<InterfaceType>,
}

impl View for LocalImport {
    type V = LocalImportModel;

    open spec fn view(&self) -> LocalImportModel {
        LocalImportModel {
            function_index: self.function_index,
            inputs: self.inputs@,
            outputs: self.outputs@,
        }
    }
}

/// Where a memory of the interface view comes from.
#[derive(Clone, Debug, PartialEq)]
pub enum MemorySource {
    /// A memory that the core instance exports under this name.
    Exported { name: String },
    /// The memory given to the instance as `env.memory`.
    ImportedEnvMemory,
}

/// The core function exports that the description declares, in the order
/// of the core exports, each with the signature of the first declaration
/// of its name.
pub open spec fn resolved_exports(cores: Seq<CoreExport>, declared: Seq<ExportModel>) -> Seq<
    ExportModel,
>
    decreases cores.len(),
{
    if cores.len() == 0 {
        seq![]
    } else {
        let prev = resolved_exports(cores.drop_last(), declared);
        let c = cores.last();
        if c.kind == CoreExportKind::Function && first_export(declared, c.name@) is Some {
            let d = first_export(declared, c.name@)->0;
            prev.push(
                ExportModel {
                    name: c.name@,
                    input_types: d.input_types,
                    output_types: d.output_types,
                },
            )
        } else {
            prev
        }
    }
}

/// The imported core functions that the description declares, in the
/// order of the core imports; the others are left out.
pub open spec fn resolved_imports(cores: Seq<CoreImport>, declared: Seq<ImportModel>) -> Seq<
    LocalImportModel,
>
    decreases cores.len(),
{
    if cores.len() == 0 {
        seq![]
    } else {
        let prev = resolved_imports(cores.drop_last(), declared);
        let c = cores.last();
        match first_import(declared, c.namespace@, c.name@) {
            Some(d) => prev.push(
                LocalImportModel {
                    function_index: c.function_index,
                    inputs: d.input_types,
                    outputs: d.output_types,
                },
            ),
            None => prev,
        }
    }
}

/// The memories that the core instance exports, in order.
pub open spec fn exported_memories(cores: Seq<CoreExport>) -> Seq<MemorySource>
    decreases cores.len(),
{
    if cores.len() == 0 {
        seq![]
    } else {
        let prev = exported_memories(cores.drop_last());
        let c = cores.last();
        if c.kind == CoreExportKind::Memory {
            prev.push(MemorySource::Exported { name: c.name })
        } else {
            prev
        }
    }
}

/// The memories of the interface view: the exported ones, then
/// `env.memory` if it was imported.
pub open spec fn resolved_memories(cores: Seq<CoreExport>, env_memory: bool) -> Seq<MemorySource> {
    if env_memory {
        exported_memories(cores).push(MemorySource::ImportedEnvMemory)
    } else {
        exported_memories(cores)
    }
}


/// No two imported functions of a core module share a function index.
pub open spec fn distinct_imports(cores: Seq<CoreImport>) -> bool {
    forall|i: int, j: int|
        0 <= i < j < cores.len() ==> (#[trigger] cores[i]).function_index != (
        #[trigger] cores[j]).function_index
}

/// No two resolved functions share a function index.
pub open spec fn distinct_locals(ls: Seq<LocalImportModel>) -> bool {
    forall|i: int, j: int|
        0 <= i < j < ls.len() ==> (#[trigger] ls[i]).function_index != (
        #[trigger] ls[j]).function_index
}

proof fn lemma_resolved_imports_distinct(cores: Seq<CoreImport>, declared: Seq<ImportModel>)
    requires
        distinct_imports(cores),
    ensures
        distinct_locals(resolved_imports(cores, declared)),
        forall|k: int|
            0 <= k < resolved_imports(cores, declared).len() ==> exists|j: int|
                0 <= j < cores.len() && (#[trigger] resolved_imports(cores, declared)[k]).function_index
                    == cores[j].function_index,
    decreases cores.len(),
{
    if cores.len() > 0 {
        let ys = cores.drop_last();
        assert forall|i: int, j: int| 0 <= i < j < ys.len() implies (#[trigger] ys[i]).function_index
            != (#[trigger] ys[j]).function_index by {
            assert(ys[i] == cores[i] && ys[j] == cores[j]);
        }
        lemma_resolved_imports_distinct(ys, declared);
        let prev = resolved_imports(ys, declared);
        let r = resolved_imports(cores, declared);
        assert forall|k: int| 0 <= k < prev.len() implies (#[trigger] prev[k]).function_index
            != cores.last().function_index by {
            let j = choose|j: int| 0 <= j < ys.len() && prev[k].function_index == ys[j].function_index;
            assert(ys[j] == cores[j]);
        }
        assert forall|k: int| 0 <= k < r.len() implies exists|j: int|
            0 <= j < cores.len() && (#[trigger] r[k]).function_index == cores[j].function_index by {
            if k < prev.len() {
                assert(r[k] == prev[k]);
                let j = choose|j: int| 0 <= j < ys.len() && prev[k].function_index == ys[j].function_index;
                assert(ys[j] == cores[j]);
            } else {
                assert(r[k].function_index == cores[cores.len() - 1].function_index);
            }
        }
        assert forall|i: int, j: int| 0 <= i < j < r.len() implies (#[trigger] r[i]).function_index
            != (#[trigger] r[j]).function_index by {
            if j < prev.len() {
                assert(r[i] == prev[i] && r[j] == prev[j]);
            } else {
                assert(r[i] == prev[i]);
            }
        }
    }
}

/// A copy of a vector of types.
pub fn copy_types(v: &Vec<InterfaceType>) -> (r: Vec<InterfaceType>)
    ensures
        r@ == v@,
{
    let mut r: Vec<InterfaceType> = Vec::new();
    let mut i: usize = 0;
    while i < v.len()
        invariant
            i <= v@.len(),
            r@ == v@.subrange(0, i as int),
        decreases v.len() - i,
    {
        r.push(v[i]);
        i += 1;
        assert(r@ =~= v@.subrange(0, i as int));
    }
    assert(r@ =~= v@);
    r
}

/// The index of the first declared export named `name`.
fn find_export(declared: &Vec<crate::ast::Export>, name: &String) -> (r: Option<usize>)
    ensures
        match r {
            Some(k) => k < declared@.len() && first_export(
                declared@.map_values(|e: crate::ast::Export| e@),
                name@,
            ) == Some(declared@[k as int]@),
            None => first_export(declared@.map_values(|e: crate::ast::Export| e@), name@) is None,
        },
{
    let ghost xs = declared@.map_values(|e: crate::ast::Export| e@);
    let mut i: usize = 0;
    assert(xs.subrange(0, xs.len() as int) =~= xs);
    while i < declared.len()
        invariant
            xs == declared@.map_values(|e: crate::ast::Export| e@),
            i <= declared@.len(),
            first_export(xs, name@) == first_export(xs.subrange(i as int, xs.len() as int), name@),
        decreases declared.len() - i,
    {
        let ghost rest = xs.subrange(i as int, xs.len() as int);
        assert(rest.len() > 0 && rest[0] == declared@[i as int]@);
        if declared[i].name == *name {
            return Some(i);
        }
        assert(rest.drop_first() =~= xs.subrange(i + 1, xs.len() as int));
        i += 1;
    }
    None
}

/// The index of the first declared import of `namespace` and `name`.
fn find_import(declared: &Vec<crate::ast::Import>, namespace: &String, name: &String) -> (r:
    Option<usize>)
    ensures
        match r {
            Some(k) => k < declared@.len() && first_import(
                declared@.map_values(|e: crate::ast::Import| e@),
                namespace@,
                name@,
            ) == Some(declared@[k as int]@),
            None => first_import(
                declared@.map_values(|e: crate::ast::Import| e@),
                namespace@,
                name@,
            ) is None,
        },
{
    let ghost xs = declared@.map_values(|e: crate::ast::Import| e@);
    let mut i: usize = 0;
    assert(xs.subrange(0, xs.len() as int) =~= xs);
    while i < declared.len()
        invariant
            xs == declared@.map_values(|e: crate::ast::Import| e@),
            i <= declared@.len(),
            first_import(xs, namespace@, name@) == first_import(
                xs.subrange(i as int, xs.len() as int),
                namespace@,
                name@,
            ),
        decreases declared.len() - i,
    {
        let ghost rest = xs.subrange(i as int, xs.len() as int);
        assert(rest.len() > 0 && rest[0] == declared@[i as int]@);
        if declared[i].namespace == *namespace && declared[i].name == *name {
            return Some(i);
        }
        assert(rest.drop_first() =~= xs.subrange(i + 1, xs.len() as int));
        i += 1;
    }
    None
}

/// The interface view of a core instance.
pub struct Instance {
    /// The declared core function exports, by core export order.
    pub exports: Vec<Export>,
    /// The local or imported functions resolved so far: the declared
    /// imports first, then those built on first use.
    pub locals_imports: Vec<LocalImport>,
    /// The memories, addressed by their position.
    pub memories: Vec<MemorySource>,
    /// The signature of each core function, by function index.
    pub signatures: Vec<FuncSig>,
}

/// The interface types of core types.
pub fn interface_types_of(ts: &Vec<WasmType>) -> (r: Vec<InterfaceType>)
    ensures
        r@ == interface_types_spec(ts@),
{
    let mut r: Vec<InterfaceType> = Vec::new();
    let mut i: usize = 0;
    while i < ts.len()
        invariant
            i <= ts@.len(),
            r@ == interface_types_spec(ts@).subrange(0, i as int),
        decreases ts.len() - i,
    {
        r.push(interface_type_of(ts[i]));
        i += 1;
        assert(r@ =~= interface_types_spec(ts@).subrange(0, i as int));
    }
    assert(r@ =~= interface_types_spec(ts@));
    r
}

/// The interface types of core types.
pub open spec fn interface_types_spec(ts: Seq<WasmType>) -> Seq<InterfaceType> {
    ts.map_values(|t: WasmType| interface_type_spec(t))
}

/// A copy of a vector of core types.
fn copy_wasm_types(v: &Vec<WasmType>) -> (r: Vec<WasmType>)
    ensures
        r@ == v@,
{
    let mut r: Vec<WasmType> = Vec::new();
    let mut i: usize = 0;
    while i < v.len()
        invariant
            i <= v@.len(),
            r@ == v@.subrange(0, i as int),
        decreases v.len() - i,
    {
        r.push(v[i]);
        i += 1;
        assert(r@ =~= v@.subrange(0, i as int));
    }
    assert(r@ =~= v@);
    r
}

/// The two vectors of signatures hold the same types.
pub open spec fn same_signatures(a: Seq<FuncSig>, b: Seq<FuncSig>) -> bool {
    a.len() == b.len() && forall|k: int|
        0 <= k < a.len() ==> (#[trigger] a[k]).params@ == b[k].params@ && a[k].results@
            == b[k].results@
}

impl Instance {
    /// The resolved functions have distinct function indices, as the keys
    /// of a cache must.
    pub open spec fn wf(&self) -> bool {
        distinct_locals(self.locals_imports@.map_values(|l: LocalImport| l@))
    }

    /// Builds the interface view of a core instance from the description.
    pub fn new(core: &CoreModule, interfaces: &Interfaces) -> (r: Instance)
        ensures
            r.exports@.map_values(|e: Export| e@) == resolved_exports(
                core.exports@,
                interfaces@.exports,
            ),
            r.locals_imports@.map_values(|l: LocalImport| l@) == resolved_imports(
                core.imported_functions@,
                interfaces@.imports,
            ),
            r.memories@ == resolved_memories(core.exports@, core.imports_env_memory),
            same_signatures(r.signatures@, core.signatures@),
            distinct_imports(core.imported_functions@) ==> r.wf(),
    {
        let mut exports: Vec<Export> = Vec::new();
        let mut memories: Vec<MemorySource> = Vec::new();
        let mut i: usize = 0;
        assert(core.exports@.subrange(0, 0) =~= Seq::<CoreExport>::empty());
        assert(exports@.map_values(|e: Export| e@) =~= Seq::<ExportModel>::empty());
        while i < core.exports.len()
            invariant
                i <= core.exports@.len(),
                exports@.map_values(|e: Export| e@) == resolved_exports(
                    core.exports@.subrange(0, i as int),
                    interfaces@.exports,
                ),
                memories@ == exported_memories(core.exports@.subrange(0, i as int)),
            decreases core.exports.len() - i,
        {
            let c = &core.exports[i];
            let ghost prefix = core.exports@.subrange(0, i as int + 1);
            assert(prefix.drop_last() =~= core.exports@.subrange(0, i as int));
            assert(prefix.last() == core.exports@[i as int]);
            if c.kind == CoreExportKind::Function {
                match find_export(&interfaces.exports, &c.name) {
                    Some(k) => {
                        let d = &interfaces.exports[k];
                        let e = Export {
                            name: c.name.clone(),
                            inputs: copy_types(&d.input_types),
                            outputs: copy_types(&d.output_types),
                        };
                        let ghost before = exports@;
                        exports.push(e);
                        assert(exports@.map_values(|e: Export| e@) =~= before.map_values(
                            |e: Export| e@,
                        ).push(e@));
                    },
                    None => {},
                }
            } else if c.kind == CoreExportKind::Memory {
                memories.push(MemorySource::Exported { name: c.name.clone() });
            }
            i += 1;
        }
        assert(core.exports@.subrange(0, core.exports@.len() as int) =~= core.exports@);
        if core.imports_env_memory {
            memories.push(MemorySource::ImportedEnvMemory);
        }
        let mut locals_imports: Vec<LocalImport> = Vec::new();
        let mut j: usize = 0;
        let cores = &core.imported_functions;
        assert(locals_imports@.map_values(|l: LocalImport| l@) =~= Seq::<
            LocalImportModel,
        >::empty());
        assert(cores@.subrange(0, 0) =~= Seq::<CoreImport>::empty());
        while j < cores.len()
            invariant
                cores@ == core.imported_functions@,
                j <= cores@.len(),
                locals_imports@.map_values(|l: LocalImport| l@) == resolved_imports(
                    cores@.subrange(0, j as int),
                    interfaces@.imports,
                ),
            decreases cores.len() - j,
        {
            let c = &cores[j];
            let ghost prefix = cores@.subrange(0, j as int + 1);
            assert(prefix.drop_last() =~= cores@.subrange(0, j as int));
            assert(prefix.last() == cores@[j as int]);
            match find_import(&interfaces.imports, &c.namespace, &c.name) {
                Some(k) => {
                    let d = &interfaces.imports[k];
                    let l = LocalImport {
                        function_index: c.function_index,
                        inputs: copy_types(&d.input_types),
                        outputs: copy_types(&d.output_types),
                    };
                    let ghost before = locals_imports@;
                    locals_imports.push(l);
                    assert(locals_imports@.map_values(|l: LocalImport| l@) =~= before.map_values(
                        |l: LocalImport| l@,
                    ).push(l@));
                },
                None => {},
            }
            j += 1;
        }
        assert(cores@.subrange(0, cores@.len() as int) =~= cores@);
        let mut signatures: Vec<FuncSig> = Vec::new();
        let mut k: usize = 0;
        while k < core.signatures.len()
            invariant
                k <= core.signatures@.len(),
                same_signatures(signatures@, core.signatures@.subrange(0, k as int)),
            decreases core.signatures.len() - k,
        {
            let s = &core.signatures[k];
            let params = copy_wasm_types(&s.params);
            let results = copy_wasm_types(&s.results);
            signatures.push(FuncSig { params, results });
            k += 1;
            assert(core.signatures@.subrange(0, k as int)[k - 1] == core.signatures@[k - 1]);
        }
        proof {
            if distinct_imports(core.imported_functions@) {
                lemma_resolved_imports_distinct(core.imported_functions@, interfaces@.imports);
            }
        }
        Instance { exports, locals_imports, memories, signatures }
    }

    /// The export named `name`.
    pub fn export(&self, name: &String) -> (r: Option<&Export>)
        ensures
            r matches Some(e) ==> (exists|k: int|
                0 <= k < self.exports@.len() && *e == #[trigger] self.exports@[k] && e.name@
                    == name@ && forall|j: int|
                    0 <= j < k ==> (#[trigger] self.exports@[j]).name@ != name@),
            r is None ==> forall|k: int|
                0 <= k < self.exports@.len() ==> #[trigger] self.exports@[k].name@ != name@,
    {
        let mut i: usize = 0;
        while i < self.exports.len()
            invariant
                i <= self.exports@.len(),
                forall|k: int| 0 <= k < i ==> #[trigger] self.exports@[k].name@ != name@,
            decreases self.exports.len() - i,
        {
            if self.exports[i].name == *name {
                assert(self.exports@[i as int] == self.exports@[i as int]);
                return Some(&self.exports[i]);
            }
            i += 1;
        }
        None
    }

    /// The memory at `index`.
    pub fn memory(&self, index: usize) -> (r: Option<&MemorySource>)
        ensures
            index < self.memories@.len() ==> r == Some(&self.memories@[index as int]),
            index >= self.memories@.len() ==> r is None,
    {
        if index >= self.memories.len() {
            None
        } else {
            Some(&self.memories[index])
        }
    }

    /// The local or imported function `index`: the one resolved before,
    /// or else one built from the core signature of that function, which
    /// is then kept so that later calls give the same one.
    pub fn local_or_import(&mut self, index: u64) -> (r: Option<LocalImport>)
        ensures
            final(self).exports == old(self).exports,
            final(self).memories == old(self).memories,
            final(self).signatures == old(self).signatures,
            old(self).wf() ==> final(self).wf(),
            ({
                let before = old(self).locals_imports@;
                let after = final(self).locals_imports@;
                let known = exists|k: int|
                    0 <= k < before.len() && (#[trigger] before[k]).function_index == index;
                &&& known ==> after == before && (exists|k: int|
                    0 <= k < before.len() && (#[trigger] before[k]).function_index == index
                        && (forall|j: int| 0 <= j < k ==> (#[trigger] before[j]).function_index
                        != index) && (r matches Some(l) && l@ == before[k]@))
                &&& !known && index < old(self).signatures@.len() ==> ({
                    let sig = old(self).signatures@[index as int];
                    let model = LocalImportModel {
                        function_index: index,
                        inputs: interface_types_spec(sig.params@),
                        outputs: interface_types_spec(sig.results@),
                    };
                    &&& after.len() == before.len() + 1
                    &&& after.subrange(0, before.len() as int) == before
                    &&& after[before.len() as int]@ == model
                    &&& r matches Some(l) && l@ == model
                })
                &&& !known && index >= old(self).signatures@.len() ==> r is None && after
                    == before
            }),
    {
        let mut i: usize = 0;
        while i < self.locals_imports.len()
            invariant
                i <= self.locals_imports@.len(),
                forall|k: int|
                    0 <= k < i ==> #[trigger] self.locals_imports@[k].function_index != index,
            decreases self.locals_imports.len() - i,
        {
            if self.locals_imports[i].function_index == index {
                let l = LocalImport {
                    function_index: index,
                    inputs: copy_types(&self.locals_imports[i].inputs),
                    outputs: copy_types(&self.locals_imports[i].outputs),
                };
                assert(l@ == self.locals_imports@[i as int]@);
                assert(self.locals_imports@[i as int].function_index == index);
                return Some(l);
            }
            i += 1;
        }
        if index >= self.signatures.len() as u64 {
            return None;
        }
        let s = &self.signatures[index as usize];
        let inputs = interface_types_of(&s.params);
        let outputs = interface_types_of(&s.results);
        let l = LocalImport {
            function_index: index,
            inputs: copy_types(&inputs),
            outputs: copy_types(&outputs),
        };
        let ghost before = self.locals_imports@;
        let ghost old_self_wf = self.wf();
        self.locals_imports.push(LocalImport { function_index: index, inputs, outputs });
        proof {
            let m = self.locals_imports@.map_values(|l: LocalImport| l@);
            let m0 = before.map_values(|l: LocalImport| l@);
            if old_self_wf {
                assert forall|i: int, j: int| 0 <= i < j < m.len() implies (#[trigger] m[i]).function_index
                    != (#[trigger] m[j]).function_index by {
                    if j < before.len() {
                        assert(m[i] == m0[i] && m[j] == m0[j]);
                    } else {
                        assert(m[i] == before[i]@);
                    }
                }
            }
        }
        assert(self.locals_imports@[self.locals_imports@.len() - 1]@ == l@);
        assert(self.locals_imports@.subrange(0, before.len() as int) =~= before);
        Some(l)
    }
}

} // verus!
