//! The type table, struct table and function registry of the bridge, plus
//! the slot that holds the active call target. All tables grow
//! monotonically: entries are never removed or mutated after creation.

use vstd::prelude::*;

use crate::flatten::flat_offsets;
use crate::flatten::flatten_struct;
use crate::target::Target;
use crate::types::built_earlier;
use crate::types::scalar_size;
use crate::types::spec_type_size;
use crate::types::valid_type;
use crate::types::wf_struct_at;
use crate::types::wf_structs;
use crate::types::FfiError;
use crate::types::ScalarKind;
use crate::types::StructDesc;
use crate::types::TypeDesc;

verus! {

/// A registered function: its ordered argument types, return type, and the
/// resolved address of the native symbol, carried as an opaque integer for
/// the unverified invocation shim to use.
pub struct FunctionDesc {
    pub name: String,
    pub args: Vec<TypeDesc>,
    pub ret: TypeDesc,
    pub addr: usize,
}

/// The fixed, pre-assigned scalar type codes 0 through 11.
pub open spec fn scalar_seed() -> Seq<TypeDesc> {
    seq![
        TypeDesc::Scalar(ScalarKind::Void),
        TypeDesc::Scalar(ScalarKind::U8),
        TypeDesc::Scalar(ScalarKind::U16),
        TypeDesc::Scalar(ScalarKind::U32),
        TypeDesc::Scalar(ScalarKind::U64),
        TypeDesc::Scalar(ScalarKind::I8),
        TypeDesc::Scalar(ScalarKind::I16),
        TypeDesc::Scalar(ScalarKind::I32),
        TypeDesc::Scalar(ScalarKind::I64),
        TypeDesc::Scalar(ScalarKind::F32),
        TypeDesc::Scalar(ScalarKind::F64),
        TypeDesc::Scalar(ScalarKind::Ptr),
    ]
}

/// Every code names an existing entry of the type table.
pub open spec fn codes_valid(types: Seq<TypeDesc>, codes: Seq<usize>) -> bool {
    forall|i: int| 0 <= i < codes.len() ==> #[trigger] codes[i] < types.len()
}

/// The descriptors the codes resolve to.
pub open spec fn resolve_codes(types: Seq<TypeDesc>, codes: Seq<usize>) -> Seq<TypeDesc> {
    codes.map_values(|c: usize| types[c as int])
}

/// Every field's reported extent lies inside the aggregate's reported size.
pub open spec fn layout_fits(
    structs: Seq<StructDesc>,
    children: Seq<TypeDesc>,
    offsets: Seq<usize>,
    size: usize,
) -> bool {
    forall|k: int|
        0 <= k < children.len() ==> offsets[k] + spec_type_size(structs, #[trigger] children[k])
            <= size
}

/// A function descriptor only references existing types.
pub open spec fn wf_function(structs_len: int, f: FunctionDesc) -> bool {
    &&& forall|k: int| 0 <= k < f.args@.len() ==> valid_type(structs_len, #[trigger] f.args@[k])
    &&& valid_type(structs_len, f.ret)
}

/// Index of the function registered under `name`; the last registration of a
/// name wins.
pub open spec fn lookup_fn(funcs: Seq<FunctionDesc>, name: Seq<char>) -> Option<int>
    decreases funcs.len(),
{
    if funcs.len() == 0 {
        None
    } else if funcs.last().name@ == name {
        Some(funcs.len() - 1)
    } else {
        lookup_fn(funcs.drop_last(), name)
    }
}

/// The whole state of the bridge: the monotonic type, struct and function
/// tables, and the single active call target.
pub struct Registry {
    pub types: Vec<TypeDesc>,
    pub structs: Vec<StructDesc>,
    pub functions: Vec<FunctionDesc>,
    pub target: Option<Target>,
}

impl Registry {
    /// The registry's standing invariant: the struct table is well-formed,
    /// every type-table entry and every registered function references only
    /// existing structs, and the first twelve type codes are the fixed
    /// scalar seed.
    pub open spec fn wf(self) -> bool {
        &&& wf_structs(self.structs@)
        &&& forall|i: int|
            0 <= i < self.types@.len() ==> valid_type(
                self.structs@.len() as int,
                #[trigger] self.types@[i],
            )
        &&& self.types@.len() >= 12
        &&& forall|i: int| 0 <= i < 12 ==> self.types@[i] == scalar_seed()[i]
        &&& forall|i: int|
            0 <= i < self.functions@.len() ==> wf_function(
                self.structs@.len() as int,
                #[trigger] self.functions@[i],
            )
    }

    /// A fresh registry: the twelve scalar codes pre-seeded, no structs, no
    /// functions, no target.
    pub fn new() -> (r: Registry)
        ensures
            r.wf(),
            r.types@ == scalar_seed(),
            r.structs@.len() == 0,
            r.functions@.len() == 0,
            r.target is None,
    {
        let mut types: Vec<TypeDesc> = Vec::new();
        types.push(TypeDesc::Scalar(ScalarKind::Void));
        types.push(TypeDesc::Scalar(ScalarKind::U8));
        types.push(TypeDesc::Scalar(ScalarKind::U16));
        types.push(TypeDesc::Scalar(ScalarKind::U32));
        types.push(TypeDesc::Scalar(ScalarKind::U64));
        types.push(TypeDesc::Scalar(ScalarKind::I8));
        types.push(TypeDesc::Scalar(ScalarKind::I16));
        types.push(TypeDesc::Scalar(ScalarKind::I32));
        types.push(TypeDesc::Scalar(ScalarKind::I64));
        types.push(TypeDesc::Scalar(ScalarKind::F32));
        types.push(TypeDesc::Scalar(ScalarKind::F64));
        types.push(TypeDesc::Scalar(ScalarKind::Ptr));
        proof {
            assert(types@ =~= scalar_seed());
        }
        Registry { types, structs: Vec::new(), functions: Vec::new(), target: None }
    }

    /// Byte size of the type a descriptor denotes.
    pub fn type_size(&self, t: TypeDesc) -> (s: usize)
        requires
            valid_type(self.structs@.len() as int, t),
        ensures
            s == spec_type_size(self.structs@, t),
    {
        match t {
            TypeDesc::Scalar(k) => scalar_size(k),
            TypeDesc::Struct(j) => self.structs[j].size,
        }
    }

    /// Builds a new aggregate type from previously registered type codes and
    /// the per-field layout the native layout primitive reported for it, and
    /// registers it under a fresh type code. Rejects codes never registered,
    /// an offset list whose length differs from the field list's, and a
    /// layout that places a field beyond the aggregate's own size.
    pub fn add_struct(
        &mut self,
        field_codes: &Vec<usize>,
        offsets: Vec<usize>,
        size: usize,
        align: usize,
    ) -> (r: Result<usize, FfiError>)
        requires
            old(self).wf(),
        ensures
            final(self).wf(),
            final(self).functions@ == old(self).functions@,
            final(self).target == old(self).target,
            (match r {
                Ok(code) => {
                    &&& codes_valid(old(self).types@, field_codes@)
                    &&& offsets@.len() == field_codes@.len()
                    &&& layout_fits(
                        old(self).structs@,
                        resolve_codes(old(self).types@, field_codes@),
                        offsets@,
                        size,
                    )
                    &&& code == old(self).types@.len()
                    &&& final(self).types@ == old(self).types@.push(
                        TypeDesc::Struct(old(self).structs@.len() as usize),
                    )
                    &&& final(self).structs@.len() == old(self).structs@.len() + 1
                    &&& final(self).structs@.drop_last() == old(self).structs@
                    &&& final(self).structs@.last().children@ == resolve_codes(
                        old(self).types@,
                        field_codes@,
                    )
                    &&& final(self).structs@.last().offsets@ == offsets@
                    &&& final(self).structs@.last().size == size
                    &&& final(self).structs@.last().align == align
                },
                Err(e) => {
                    &&& *final(self) == *old(self)
                    &&& (e == FfiError::UnknownTypeCode <==> !codes_valid(
                        old(self).types@,
                        field_codes@,
                    ))
                    &&& (e == FfiError::LayoutArityMismatch <==> codes_valid(
                        old(self).types@,
                        field_codes@,
                    ) && offsets@.len() != field_codes@.len())
                    &&& (e == FfiError::LayoutInconsistent <==> codes_valid(
                        old(self).types@,
                        field_codes@,
                    ) && offsets@.len() == field_codes@.len() && !layout_fits(
                        old(self).structs@,
                        resolve_codes(old(self).types@, field_codes@),
                        offsets@,
                        size,
                    ))
                },
            }),
            r is Ok <==> (codes_valid(old(self).types@, field_codes@) && offsets@.len()
                == field_codes@.len() && layout_fits(
                old(self).structs@,
                resolve_codes(old(self).types@, field_codes@),
                offsets@,
                size,
            )),
    {
        let n = field_codes.len();
        for i in 0..n
            invariant
                old(self).wf(),
                n == field_codes@.len(),
                forall|j: int| 0 <= j < i ==> #[trigger] field_codes@[j] < self.types@.len(),
                self == old(self),
        {
            if field_codes[i] >= self.types.len() {
                return Err(FfiError::UnknownTypeCode);
            }
        }
        if offsets.len() != n {
            return Err(FfiError::LayoutArityMismatch);
        }
        let mut children: Vec<TypeDesc> = Vec::new();
        for i in 0..n
            invariant
                old(self).wf(),
                n == field_codes@.len(),
                codes_valid(self.types@, field_codes@),
                children@ == resolve_codes(self.types@, field_codes@).take(i as int),
                self == old(self),
        {
            children.push(self.types[field_codes[i]]);
            proof {
                assert(children@ =~= resolve_codes(self.types@, field_codes@).take(i + 1));
            }
        }
        proof {
            assert(children@ =~= resolve_codes(self.types@, field_codes@));
            assert forall|j: int| 0 <= j < children@.len() implies valid_type(
                self.structs@.len() as int,
                #[trigger] children@[j],
            ) by {
                assert(children@[j] == self.types@[field_codes@[j] as int]);
            }
        }
        for k in 0..n
            invariant
                old(self).wf(),
                codes_valid(old(self).types@, field_codes@),
                forall|j: int|
                    0 <= j < children@.len() ==> valid_type(
                        self.structs@.len() as int,
                        #[trigger] children@[j],
                    ),
                n == children@.len(),
                n == offsets@.len(),
                children@ == resolve_codes(self.types@, field_codes@),
                forall|j: int|
                    0 <= j < k ==> offsets@[j] + spec_type_size(
                        self.structs@,
                        #[trigger] children@[j],
                    ) <= size,
                self == old(self),
        {
            let sz = self.type_size(children[k]);
            if offsets[k] > size || sz > size - offsets[k] {
                return Err(FfiError::LayoutInconsistent);
            }
        }
        let s_idx = self.structs.len();
        let code = self.types.len();
        let desc = StructDesc { children, offsets, size, align };
        proof {
            assert forall|k: int| 0 <= k < desc.children@.len() implies built_earlier(
                #[trigger] desc.children@[k],
                self.structs@.len() as int,
            ) by {
                assert(desc.children@[k] == self.types@[field_codes@[k] as int]);
                assert(valid_type(self.structs@.len() as int, self.types@[field_codes@[k] as int]));
            }
        }
        self.structs.push(desc);
        self.types.push(TypeDesc::Struct(s_idx));
        proof {
            lemma_wf_structs_push(old(self).structs@, final(self).structs@.last());
            assert(final(self).structs@ =~= old(self).structs@.push(final(self).structs@.last()));
            assert(final(self).structs@.drop_last() =~= old(self).structs@);
            assert forall|i: int| 0 <= i < final(self).types@.len() implies valid_type(
                final(self).structs@.len() as int,
                #[trigger] final(self).types@[i],
            ) by {
                if i < old(self).types@.len() {
                    assert(valid_type(old(self).structs@.len() as int, old(self).types@[i]));
                }
            }
        }
        Ok(code)
    }

    /// Registers a function under `name`: its argument and return type codes
    /// and the address the dynamic loader resolved for the symbol. A later
    /// registration of the same name wins. Rejects codes never registered.
    pub fn add_function(
        &mut self,
        name: String,
        arg_codes: &Vec<usize>,
        ret_code: usize,
        addr: usize,
    ) -> (r: Result<(), FfiError>)
        requires
            old(self).wf(),
        ensures
            final(self).wf(),
            final(self).types@ == old(self).types@,
            final(self).structs@ == old(self).structs@,
            final(self).target == old(self).target,
            r is Ok <==> (codes_valid(old(self).types@, arg_codes@) && ret_code
                < old(self).types@.len()),
            (match r {
                Ok(_) => {
                    &&& final(self).functions@.len() == old(self).functions@.len() + 1
                    &&& final(self).functions@.drop_last() == old(self).functions@
                    &&& final(self).functions@.last().name@ == name@
                    &&& final(self).functions@.last().args@ == resolve_codes(
                        old(self).types@,
                        arg_codes@,
                    )
                    &&& final(self).functions@.last().ret == old(self).types@[ret_code as int]
                    &&& final(self).functions@.last().addr == addr
                },
                Err(e) => {
                    &&& *final(self) == *old(self)
                    &&& e == FfiError::UnknownTypeCode
                },
            }),
    {
        let n = arg_codes.len();
        for i in 0..n
            invariant
                old(self).wf(),
                n == arg_codes@.len(),
                forall|j: int| 0 <= j < i ==> #[trigger] arg_codes@[j] < self.types@.len(),
                self == old(self),
        {
            if arg_codes[i] >= self.types.len() {
                return Err(FfiError::UnknownTypeCode);
            }
        }
        if ret_code >= self.types.len() {
            return Err(FfiError::UnknownTypeCode);
        }
        let mut args: Vec<TypeDesc> = Vec::new();
        for i in 0..n
            invariant
                old(self).wf(),
                n == arg_codes@.len(),
                codes_valid(self.types@, arg_codes@),
                args@ == resolve_codes(self.types@, arg_codes@).take(i as int),
                self == old(self),
        {
            args.push(self.types[arg_codes[i]]);
            proof {
                assert(args@ =~= resolve_codes(self.types@, arg_codes@).take(i + 1));
            }
        }
        proof {
            assert(args@ =~= resolve_codes(self.types@, arg_codes@));
        }
        let ret = self.types[ret_code];
        let f = FunctionDesc { name, args, ret, addr };
        proof {
            assert(wf_function(self.structs@.len() as int, f));
        }
        self.functions.push(f);
        proof {
            assert(final(self).functions@.drop_last() =~= old(self).functions@);
        }
        Ok(())
    }

    /// Index of the function registered under `name`, the most recent
    /// registration winning, or none if the name was never registered.
    pub fn find_function(&self, name: &String) -> (r: Option<usize>)
        ensures
            (match r {
                Some(i) => i < self.functions@.len() && lookup_fn(self.functions@, name@) == Some(
                    i as int,
                ),
                None => lookup_fn(self.functions@, name@) is None,
            }),
    {
        let ghost full = self.functions@;
        let mut i = self.functions.len();
        proof {
            assert(full.take(i as int) =~= full);
        }
        while i > 0
            invariant
                i <= self.functions@.len(),
                full == self.functions@,
                lookup_fn(full, name@) == lookup_fn(full.take(i as int), name@),
            decreases i,
        {
            i = i - 1;
            proof {
                assert(full.take(i + 1).last() == full[i as int]);
                assert(full.take(i + 1).drop_last() =~= full.take(i as int));
            }
            if self.functions[i].name == *name {
                proof {
                    assert(lookup_fn(full.take(i + 1), name@) == Some(i as int));
                }
                return Some(i);
            }
            proof {
                assert(lookup_fn(full.take(i + 1), name@) == lookup_fn(full.take(i as int), name@));
            }
        }
        proof {
            assert(full.take(0) =~= Seq::<FunctionDesc>::empty());
        }
        None
    }

    /// The flattened leaf-offset schedule of the type registered under
    /// `code`: none for a scalar (the caller then uses the single implicit
    /// offset of its own slot), the depth-first absolute leaf offsets for a
    /// struct.
    pub fn flatten_offsets(&self, code: usize) -> (r: Result<Option<Vec<usize>>, FfiError>)
        requires
            self.wf(),
        ensures
            r is Ok <==> code < self.types@.len(),
            (match r {
                Ok(opt) => match self.types@[code as int] {
                    TypeDesc::Scalar(_) => opt is None,
                    TypeDesc::Struct(j) => opt matches Some(v) && v@ == flat_offsets(
                        self.structs@,
                        j as int,
                    ),
                },
                Err(e) => e == FfiError::UnknownTypeCode,
            }),
    {
        if code >= self.types.len() {
            return Err(FfiError::UnknownTypeCode);
        }
        match self.types[code] {
            TypeDesc::Scalar(_) => Ok(None),
            TypeDesc::Struct(j) => Ok(Some(flatten_struct(&self.structs, j))),
        }
    }

    /// Number of entries in the type table.
    pub fn type_count(&self) -> (n: usize)
        ensures
            n == self.types@.len(),
    {
        self.types.len()
    }

    /// Number of entries in the struct table.
    pub fn struct_count(&self) -> (n: usize)
        ensures
            n == self.structs@.len(),
    {
        self.structs.len()
    }

    /// The immediate per-field offsets recorded for the struct registered
    /// under `code`, or none if `code` does not name a struct.
    pub fn struct_immediate_offsets(&self, code: usize) -> (r: Option<Vec<usize>>)
        requires
            self.wf(),
        ensures
            (match r {
                Some(v) => code < self.types@.len() && (self.types@[code as int] matches
                TypeDesc::Struct(j) && v@ == self.structs@[j as int].offsets@),
                None => code >= self.types@.len() || self.types@[code as int] is Scalar,
            }),
    {
        if code >= self.types.len() {
            return None;
        }
        match self.types[code] {
            TypeDesc::Scalar(_) => None,
            TypeDesc::Struct(j) => {
                let src = &self.structs[j].offsets;
                let n = src.len();
                let mut v: Vec<usize> = Vec::new();
                for i in 0..n
                    invariant
                        n == src@.len(),
                        v@ == src@.take(i as int),
                {
                    v.push(src[i]);
                    proof {
                        assert(v@ =~= src@.take(i + 1));
                    }
                }
                proof {
                    assert(v@ =~= src@);
                }
                Some(v)
            },
        }
    }

    /// The byte size recorded for the type registered under `code`.
    pub fn size_of_code(&self, code: usize) -> (r: Option<usize>)
        requires
            self.wf(),
        ensures
            (match r {
                Some(s) => code < self.types@.len() && s == spec_type_size(
                    self.structs@,
                    self.types@[code as int],
                ),
                None => code >= self.types@.len(),
            }),
    {
        if code >= self.types.len() {
            return None;
        }
        Some(self.type_size(self.types[code]))
    }
}

/// Appending a struct whose children were all built earlier keeps the table
/// well-formed, because well-formedness of an entry reads only entries at or
/// below its own index.
proof fn lemma_wf_structs_push(structs: Seq<StructDesc>, d: StructDesc)
    requires
        wf_structs(structs),
        d.offsets@.len() == d.children@.len(),
        forall|k: int|
            0 <= k < d.children@.len() ==> built_earlier(
                #[trigger] d.children@[k],
                structs.len() as int,
            ),
        forall|k: int|
            0 <= k < d.children@.len() ==> d.offsets@[k] + spec_type_size(
                structs,
                #[trigger] d.children@[k],
            ) <= d.size,
    ensures
        wf_structs(structs.push(d)),
{
    let s2 = structs.push(d);
    assert forall|i: int| 0 <= i < s2.len() implies wf_struct_at(s2, i) by {
        if i < structs.len() {
            assert(wf_struct_at(structs, i));
            assert(s2[i] == structs[i]);
            assert forall|k: int| 0 <= k < s2[i].children@.len() implies s2[i].offsets@[k]
                + spec_type_size(s2, #[trigger] s2[i].children@[k]) <= s2[i].size by {
                assert(built_earlier(structs[i].children@[k], i));
                assert(structs[i].offsets@[k] + spec_type_size(structs, structs[i].children@[k])
                    <= structs[i].size);
                match s2[i].children@[k] {
                    TypeDesc::Scalar(_) => {},
                    TypeDesc::Struct(j) => {
                        assert(s2[j as int] == structs[j as int]);
                    },
                }
            }
        } else {
            assert(s2[i] == d);
            assert forall|k: int| 0 <= k < s2[i].children@.len() implies s2[i].offsets@[k]
                + spec_type_size(s2, #[trigger] s2[i].children@[k]) <= s2[i].size by {
                assert(d.offsets@[k] + spec_type_size(structs, d.children@[k]) <= d.size);
                match s2[i].children@[k] {
                    TypeDesc::Scalar(_) => {},
                    TypeDesc::Struct(j) => {
                        assert(s2[j as int] == structs[j as int]);
                    },
                }
            }
        }
    }
}

} // verus!
