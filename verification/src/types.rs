//! Scalar kinds, type descriptors, and the error type of the bridge.

use vstd::prelude::*;

verus! {

/// The scalar kinds the bridge can marshal. `F32`/`F64` and `Ptr` are layout
/// tags only: the marshalling protocol moves their bytes, never their values.
#[derive(Copy, Clone, Debug, PartialEq, Eq, Structural)]
pub enum ScalarKind {
    Void,
    U8,
    U16,
    U32,
    U64,
    I8,
    I16,
    I32,
    I64,
    F32,
    F64,
    Ptr,
}

/// A registered type: either a scalar, or a struct referenced by its stable
/// index into the registry's struct table.
#[derive(Copy, Clone, Debug, PartialEq, Eq, Structural)]
pub enum TypeDesc {
    Scalar(ScalarKind),
    Struct(usize),
}

/// Byte size of a scalar kind, as the C data model of 64-bit platforms (and
/// the native layout primitive with it) reports: `Void` occupies one byte in
/// a return slot, pointers are eight bytes wide.
pub open spec fn spec_scalar_size(k: ScalarKind) -> nat {
    match k {
        ScalarKind::Void => 1,
        ScalarKind::U8 => 1,
        ScalarKind::U16 => 2,
        ScalarKind::U32 => 4,
        ScalarKind::U64 => 8,
        ScalarKind::I8 => 1,
        ScalarKind::I16 => 2,
        ScalarKind::I32 => 4,
        ScalarKind::I64 => 8,
        ScalarKind::F32 => 4,
        ScalarKind::F64 => 8,
        ScalarKind::Ptr => 8,
    }
}

pub fn scalar_size(k: ScalarKind) -> (s: usize)
    ensures
        s == spec_scalar_size(k),
{
    match k {
        ScalarKind::Void => 1,
        ScalarKind::U8 => 1,
        ScalarKind::U16 => 2,
        ScalarKind::U32 => 4,
        ScalarKind::U64 => 8,
        ScalarKind::I8 => 1,
        ScalarKind::I16 => 2,
        ScalarKind::I32 => 4,
        ScalarKind::I64 => 8,
        ScalarKind::F32 => 4,
        ScalarKind::F64 => 8,
        ScalarKind::Ptr => 8,
    }
}

/// A built aggregate type: the resolved child descriptors in declared field
/// order, the immediate per-child byte offsets, and the aggregate byte size
/// and alignment, all as the native layout primitive reported them. Fixed at
/// construction and never mutated afterwards.
pub struct StructDesc {
    pub children: Vec<TypeDesc>,
    pub offsets: Vec<usize>,
    pub size: usize,
    pub align: usize,
}

/// Byte size of a type: a scalar's fixed width, or a struct's recorded
/// aggregate size.
pub open spec fn spec_type_size(structs: Seq<StructDesc>, t: TypeDesc) -> nat {
    match t {
        TypeDesc::Scalar(k) => spec_scalar_size(k),
        TypeDesc::Struct(i) => structs[i as int].size as nat,
    }
}

/// A descriptor may only reference a struct index that the table holds.
pub open spec fn valid_type(structs_len: int, t: TypeDesc) -> bool {
    match t {
        TypeDesc::Scalar(_) => true,
        TypeDesc::Struct(i) => i < structs_len,
    }
}

/// Well-formedness of the struct at index `i` of the table: one immediate
/// offset per child, children built strictly earlier (the tables grow
/// bottom-up, so a struct can only contain structs of smaller index), and
/// every child's extent contained in the aggregate size.
pub open spec fn built_earlier(c: TypeDesc, i: int) -> bool {
    match c {
        TypeDesc::Scalar(_) => true,
        TypeDesc::Struct(j) => j < i,
    }
}

pub open spec fn wf_struct_at(structs: Seq<StructDesc>, i: int) -> bool {
    let s = structs[i];
    &&& s.offsets@.len() == s.children@.len()
    &&& forall|k: int|
        0 <= k < s.children@.len() ==> built_earlier(#[trigger] s.children@[k], i)
    &&& forall|k: int|
        0 <= k < s.children@.len() ==> s.offsets@[k] + spec_type_size(
            structs,
            s.children@[k],
        ) <= s.size
}

/// Well-formedness of the whole struct table.
pub open spec fn wf_structs(structs: Seq<StructDesc>) -> bool {
    forall|i: int| 0 <= i < structs.len() ==> wf_struct_at(structs, i)
}

/// What a boundary operation can report instead of succeeding. The bridge is
/// built for a trusted host, so each of these marks a broken caller contract
/// or a broken environment, reported loudly rather than papered over.
#[derive(Copy, Clone, Debug, PartialEq, Eq, Structural)]
pub enum FfiError {
    /// A field or argument type code that was never registered.
    UnknownTypeCode,
    /// A function name that was never registered.
    UnknownFunction,
    /// The native layout primitive reported a different number of field
    /// offsets than the struct has fields.
    LayoutArityMismatch,
    /// A reported field layout places a field beyond the struct's own size.
    LayoutInconsistent,
    /// A buffer size would exceed the address space.
    SizeOverflow,
    /// A write or read was attempted with no call target set.
    NoTarget,
    /// More primitives were written than the target has write locations.
    WriteCursorOverflow,
    /// More primitives were read than the target has read locations.
    ReadCursorOverflow,
    /// A primitive's width reaches past the end of its buffer.
    SlotOutOfBounds,
    /// The bytes handed back for the return value have the wrong length.
    ReturnSizeMismatch,
}

} // verus!
