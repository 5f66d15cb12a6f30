//! Function types as the C API hands them out: the type itself, and its
//! parameter and result types as owned vectors of value types.

use crate::own::{Own, Owned};
use vstd::prelude::*;

verus! {

/// A value type of the C API.
#[derive(Clone, Copy, Debug, PartialEq, Eq, Structural)]
pub enum ValType {
    I32,
    I64,
    F32,
    F64,
    V128,
    ExternRef,
    FuncRef,
}

/// A function type: parameter types and result types.
#[derive(Clone, Debug, PartialEq)]
pub struct FunctionType {
    pub params: Vec<ValType>,
    pub results: Vec<ValType>,
}

/// A value type as the C API hands it out.
#[allow(non_camel_case_types)]
#[derive(Clone, Copy, Debug, PartialEq, Eq, Structural)]
pub struct wasm_valtype_t {
    pub valkind: ValType,
}

/// A vector of value types as the C API hands it out.
#[allow(non_camel_case_types)]
#[derive(Debug)]
pub struct wasm_valtype_vec_t {
    pub data: Vec<wasm_valtype_t>,
}

impl Owned for wasm_valtype_vec_t {
    fn delete(&mut self) {
        self.data = Vec::new();
    }
}

/// The value kinds of a vector of value types.
pub open spec fn kinds(v: Seq<wasm_valtype_t>) -> Seq<ValType> {
    v.map_values(|t: wasm_valtype_t| t.valkind)
}

/// Copies value types into a vector for the C API.
pub fn valtype_vec(types: &Vec<ValType>) -> (r: wasm_valtype_vec_t)
    ensures
        kinds(r.data@) == types@,
{
    let mut data: Vec<wasm_valtype_t> = Vec::new();
    let mut i: usize = 0;
    while i < types.len()
        invariant
            i <= types@.len(),
            kinds(data@) == types@.subrange(0, i as int),
        decreases types.len() - i,
    {
        let ghost before = data@;
        data.push(wasm_valtype_t { valkind: types[i] });
        assert(kinds(data@) =~= kinds(before).push(types@[i as int]));
        i += 1;
        assert(kinds(data@) =~= types@.subrange(0, i as int));
    }
    assert(types@.subrange(0, types@.len() as int) =~= types@);
    wasm_valtype_vec_t { data }
}

/// The value types of a vector handed out by the C API.
pub fn valtypes_of(v: &wasm_valtype_vec_t) -> (r: Vec<ValType>)
    ensures
        r@ == kinds(v.data@),
{
    let mut r: Vec<ValType> = Vec::new();
    let mut i: usize = 0;
    while i < v.data.len()
        invariant
            i <= v.data@.len(),
            r@ == kinds(v.data@).subrange(0, i as int),
        decreases v.data.len() - i,
    {
        r.push(v.data[i].valkind);
        i += 1;
        assert(r@ =~= kinds(v.data@).subrange(0, i as int));
    }
    assert(r@ =~= kinds(v.data@));
    r
}

/// A function type with its parameter and result vectors.
#[derive(Debug)]
pub struct WasmFunctionType {
    pub function_type: FunctionType,
    pub params: Own<wasm_valtype_vec_t>,
    pub results: Own<wasm_valtype_vec_t>,
}

impl WasmFunctionType {
    /// The parameter and result vectors list the function type's types.
    pub open spec fn wf(&self) -> bool {
        &&& kinds(self.params.value().data@) == self.function_type.params@
        &&& kinds(self.results.value().data@) == self.function_type.results@
    }

    /// Builds the parameter and result vectors of a function type.
    pub fn new(function_type: FunctionType) -> (r: WasmFunctionType)
        ensures
            r.function_type == function_type,
            r.wf(),
    {
        let params = Own::new(valtype_vec(&function_type.params));
        let results = Own::new(valtype_vec(&function_type.results));
        WasmFunctionType { function_type, params, results }
    }
}

/// What an extern type describes.
#[derive(Debug)]
pub enum WasmExternType {
    Function(WasmFunctionType),
    Global,
    Table,
    Memory,
}

/// An extern type as the C API hands it out.
#[allow(non_camel_case_types)]
#[derive(Debug)]
pub struct wasm_externtype_t {
    pub inner: WasmExternType,
}

/// A function type as the C API hands it out.
#[allow(non_camel_case_types)]
#[derive(Debug)]
pub struct wasm_functype_t {
    pub extern_type: wasm_externtype_t,
}

impl wasm_functype_t {
    /// It holds a function type whose vectors list its types.
    pub open spec fn wf(&self) -> bool {
        self.extern_type.inner matches WasmExternType::Function(f) && f.wf()
    }

    /// Wraps a function type.
    pub fn new(function_type: FunctionType) -> (r: wasm_functype_t)
        ensures
            r.wf(),
            r.extern_type.inner matches WasmExternType::Function(f) && f.function_type
                == function_type,
    {
        wasm_functype_t {
            extern_type: wasm_externtype_t {
                inner: WasmExternType::Function(WasmFunctionType::new(function_type)),
            },
        }
    }

    /// The function type inside.
    pub fn inner(&self) -> (r: &WasmFunctionType)
        requires
            self.extern_type.inner is Function,
        ensures
            self.extern_type.inner == WasmExternType::Function(*r),
    {
        match &self.extern_type.inner {
            WasmExternType::Function(f) => f,
            _ => vstd::pervasive::unreached(),
        }
    }
}

/// A new function type from owned parameter and result vectors, which
/// are deleted; nothing when either is missing.
pub fn wasm_functype_new(
    params: Option<Own<wasm_valtype_vec_t>>,
    results: Option<Own<wasm_valtype_vec_t>>,
) -> (r: Option<wasm_functype_t>)
    ensures
        r is Some <==> params is Some && results is Some,
        r matches Some(t) ==> t.wf() && (t.extern_type.inner matches WasmExternType::Function(f) && (
        f.function_type.params@ == kinds(params->0.value().data@) && f.function_type.results@
            == kinds(results->0.value().data@))),
{
    let params = match params {
        Some(p) => p,
        None => return None,
    };
    let results = match results {
        Some(r) => r,
        None => return None,
    };
    let param_types = valtypes_of(params.as_ref());
    let result_types = valtypes_of(results.as_ref());
    Own::drop_value(params);
    Own::drop_value(results);
    Some(wasm_functype_t::new(FunctionType { params: param_types, results: result_types }))
}

/// A copy of a function type; nothing for nothing.
pub fn wasm_functype_copy(function_type: Option<&wasm_functype_t>) -> (r: Option<wasm_functype_t>)
    requires
        function_type matches Some(t) ==> t.extern_type.inner is Function,
    ensures
        r is Some <==> function_type is Some,
        r matches Some(t) ==> t.wf() && (t.extern_type.inner matches WasmExternType::Function(f) && (
        f.function_type.params@ == function_type->0.extern_type.inner->Function_0.function_type.params@
            && f.function_type.results@
            == function_type->0.extern_type.inner->Function_0.function_type.results@)),
{
    let function_type = match function_type {
        Some(t) => t,
        None => return None,
    };
    let f = &function_type.inner().function_type;
    let mut params: Vec<ValType> = Vec::new();
    params.extend_from_slice(f.params.as_slice());
    let mut results: Vec<ValType> = Vec::new();
    results.extend_from_slice(f.results.as_slice());
    assert(params@ =~= f.params@);
    assert(results@ =~= f.results@);
    Some(wasm_functype_t::new(FunctionType { params, results }))
}

/// The parameter vector of a function type; nothing for nothing.
pub fn wasm_functype_params(function_type: Option<&wasm_functype_t>) -> (r: Option<
    &wasm_valtype_vec_t,
>)
    requires
        function_type matches Some(t) ==> t.extern_type.inner is Function,
    ensures
        r is Some <==> function_type is Some,
        r matches Some(v) ==> *v == function_type->0.extern_type.inner->Function_0.params.value(),
        r matches Some(v) ==> (function_type->0.wf() ==> kinds(v.data@)
            == function_type->0.extern_type.inner->Function_0.function_type.params@),
{
    match function_type {
        Some(t) => Some(t.inner().params.as_ref()),
        None => None,
    }
}

/// The result vector of a function type; nothing for nothing.
pub fn wasm_functype_results(function_type: Option<&wasm_functype_t>) -> (r: Option<
    &wasm_valtype_vec_t,
>)
    requires
        function_type matches Some(t) ==> t.extern_type.inner is Function,
    ensures
        r is Some <==> function_type is Some,
        r matches Some(v) ==> *v == function_type->0.extern_type.inner->Function_0.results.value(),
        r matches Some(v) ==> (function_type->0.wf() ==> kinds(v.data@)
            == function_type->0.extern_type.inner->Function_0.function_type.results@),
{
    match function_type {
        Some(t) => Some(t.inner().results.as_ref()),
        None => None,
    }
}

} // verus!
