//! Interface values: one variant per primitive interface type. Floats are
//! held as their IEEE-754 bit patterns.

use crate::ast::InterfaceType;
use vstd::prelude::*;

verus! {

/// A value of the interface vocabulary.
#[derive(Clone, Debug, PartialEq)]
pub enum InterfaceValue {
    /// An integer.
    Int(isize),
    /// A float, as the bits of an `f64`.
    Float(u64),
    /// An opaque reference.
    Any(isize),
    /// A string.
    String(String),
    /// A 32-bit integer.
    I32(i32),
    /// A 64-bit integer.
    I64(i64),
    /// A 32-bit float, as the bits of an `f32`.
    F32(u32),
    /// A 64-bit float, as the bits of an `f64`.
    F64(u64),
}

impl InterfaceValue {
    /// The interface type of a value.
    pub open spec fn spec_type(&self) -> InterfaceType {
        match self {
            InterfaceValue::Int(_) => InterfaceType::Int,
            InterfaceValue::Float(_) => InterfaceType::Float,
            InterfaceValue::Any(_) => InterfaceType::Any,
            InterfaceValue::String(_) => InterfaceType::String,
            InterfaceValue::I32(_) => InterfaceType::I32,
            InterfaceValue::I64(_) => InterfaceType::I64,
            InterfaceValue::F32(_) => InterfaceType::F32,
            InterfaceValue::F64(_) => InterfaceType::F64,
        }
    }

    /// The interface type of a value.
    pub fn interface_type(&self) -> (r: InterfaceType)
        ensures
            r == self.spec_type(),
    {
        match self {
            InterfaceValue::Int(_) => InterfaceType::Int,
            InterfaceValue::Float(_) => InterfaceType::Float,
            InterfaceValue::Any(_) => InterfaceType::Any,
            InterfaceValue::String(_) => InterfaceType::String,
            InterfaceValue::I32(_) => InterfaceType::I32,
            InterfaceValue::I64(_) => InterfaceType::I64,
            InterfaceValue::F32(_) => InterfaceType::F32,
            InterfaceValue::F64(_) => InterfaceType::F64,
        }
    }

    /// An identical copy of a value.
    pub fn duplicate(&self) -> (r: InterfaceValue)
        ensures
            r == *self,
    {
        match self {
            InterfaceValue::Int(n) => InterfaceValue::Int(*n),
            InterfaceValue::Float(n) => InterfaceValue::Float(*n),
            InterfaceValue::Any(n) => InterfaceValue::Any(*n),
            InterfaceValue::String(s) => InterfaceValue::String(s.clone()),
            InterfaceValue::I32(n) => InterfaceValue::I32(*n),
            InterfaceValue::I64(n) => InterfaceValue::I64(*n),
            InterfaceValue::F32(n) => InterfaceValue::F32(*n),
            InterfaceValue::F64(n) => InterfaceValue::F64(*n),
        }
    }
}

impl Default for InterfaceValue {
    fn default() -> (r: InterfaceValue)
        ensures
            r == InterfaceValue::I32(0),
    {
        InterfaceValue::I32(0)
    }
}

/// The interface types of a sequence of values.
pub open spec fn types_of(vs: Seq<InterfaceValue>) -> Seq<InterfaceType> {
    vs.map_values(|v: InterfaceValue| v.spec_type())
}

/// Whether the values have exactly the given types, one for one.
pub fn values_have_types(vs: &Vec<InterfaceValue>, ts: &Vec<InterfaceType>) -> (r: bool)
    ensures
        r == (types_of(vs@) == ts@),
{
    if vs.len() != ts.len() {
        assert(types_of(vs@).len() != ts@.len());
        return false;
    }
    let mut i: usize = 0;
    while i < vs.len()
        invariant
            vs@.len() == ts@.len(),
            i <= vs@.len(),
            forall|k: int| 0 <= k < i ==> vs@[k].spec_type() == #[trigger] ts@[k],
        decreases vs.len() - i,
    {
        if vs[i].interface_type() != ts[i] {
            assert(types_of(vs@)[i as int] != ts@[i as int]);
            return false;
        }
        i += 1;
    }
    assert(types_of(vs@) =~= ts@);
    true
}

} // verus!
