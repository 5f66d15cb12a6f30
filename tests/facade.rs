use wasmer_wit::ast::{Export, Import, InterfaceType, Interfaces};
use wasmer_wit::host::{FuncSig, WasmType};
use wasmer_wit::instance::{
    custom_section, CoreExport, CoreExportKind, CoreImport, CoreModule, CustomSection, Instance,
    MemorySource, INTERFACE_TYPES_SECTION,
};

fn s(x: &str) -> String {
    x.to_string()
}

fn module() -> CoreModule {
    CoreModule {
        exports: vec![
            CoreExport { name: s("memory"), kind: CoreExportKind::Memory },
            CoreExport { name: s("strlen"), kind: CoreExportKind::Function },
            CoreExport { name: s("main"), kind: CoreExportKind::Function },
            CoreExport { name: s("table"), kind: CoreExportKind::Table },
        ],
        imported_functions: vec![
            CoreImport { namespace: s("host"), name: s("console_log"), function_index: 0 },
            CoreImport { namespace: s("host"), name: s("other"), function_index: 1 },
        ],
        signatures: vec![
            FuncSig { params: vec![WasmType::I32], results: vec![] },
            FuncSig { params: vec![], results: vec![] },
            FuncSig { params: vec![WasmType::I32], results: vec![WasmType::I64] },
        ],
        imports_env_memory: true,
        custom_sections: vec![
            CustomSection { name: s("name"), bytes: vec![9] },
            CustomSection { name: s("interface-types"), bytes: vec![0, 0, 0, 0, 0] },
        ],
    }
}

fn interfaces() -> Interfaces {
    Interfaces {
        exports: vec![Export {
            name: s("strlen"),
            input_types: vec![InterfaceType::I32],
            output_types: vec![InterfaceType::I32],
        }],
        types: vec![],
        imports: vec![Import {
            namespace: s("host"),
            name: s("console_log"),
            input_types: vec![InterfaceType::String],
            output_types: vec![],
        }],
        adapters: vec![],
        forwards: vec![],
    }
}

#[test]
fn test_has_custom_section() {
    let m = module();
    let section = custom_section(&m, INTERFACE_TYPES_SECTION);
    assert!(section.is_some());
    assert_eq!(section.unwrap(), &vec![0, 0, 0, 0, 0]);
    assert!(custom_section(&m, "missing").is_none());
}

#[test]
fn instance_resolves_declared_exports_imports_and_memories() {
    let mut instance = Instance::new(&module(), &interfaces());
    assert_eq!(instance.exports.len(), 1);
    let e = instance.export(&s("strlen")).unwrap();
    assert_eq!(e.inputs, vec![InterfaceType::I32]);
    assert!(instance.export(&s("main")).is_none());
    assert_eq!(instance.locals_imports.len(), 1);
    assert_eq!(instance.locals_imports[0].function_index, 0);
    assert_eq!(instance.locals_imports[0].inputs, vec![InterfaceType::String]);
    assert_eq!(
        instance.memories,
        vec![MemorySource::Exported { name: s("memory") }, MemorySource::ImportedEnvMemory]
    );
    assert_eq!(instance.memory(1), Some(&MemorySource::ImportedEnvMemory));
    assert_eq!(instance.memory(2), None);
    let declared = instance.local_or_import(0).unwrap();
    assert_eq!(declared.inputs, vec![InterfaceType::String]);
    let built = instance.local_or_import(2).unwrap();
    assert_eq!(built.inputs, vec![InterfaceType::I32]);
    assert_eq!(built.outputs, vec![InterfaceType::I64]);
    assert_eq!(instance.local_or_import(2).unwrap(), built);
    assert_eq!(instance.locals_imports.len(), 2);
    assert!(instance.local_or_import(3).is_none());
}

#[test]
fn built_entries_take_the_core_signature() {
    let mut instance = Instance::new(&module(), &interfaces());
    assert_eq!(instance.signatures, module().signatures);
    let built = instance.local_or_import(1).unwrap();
    assert_eq!(built.inputs, vec![]);
    assert_eq!(built.outputs, vec![]);
    assert_eq!(instance.locals_imports.len(), 2);
    assert_eq!(instance.locals_imports[1], built);
    assert_eq!(instance.local_or_import(1).unwrap(), built);
    assert_eq!(instance.locals_imports.len(), 2);
}
