//! Recursive expansion of a struct's shallow, one-per-field offset list into
//! a fully flattened, depth-first list of absolute byte offsets for every
//! scalar leaf. This schedule drives the sequential write/read protocol.

use vstd::prelude::*;

use crate::types::spec_type_size;
use crate::types::wf_struct_at;
use crate::types::wf_structs;
use crate::types::StructDesc;
use crate::types::TypeDesc;

verus! {

/// Depth-first flattened leaf offsets of struct `idx`: one byte offset per
/// scalar leaf, relative to the struct's start, in declared field order. For
/// a struct child, the child's own immediate offset stands in place of the
/// first entry of the child's flattened list (the two name the same byte
/// when the child's first leaf sits at its offset zero, as native layouts
/// have it), and the remaining entries are translated by that immediate
/// offset. A childless struct has no leaves and contributes no entries.
pub open spec fn flat_offsets(structs: Seq<StructDesc>, idx: int) -> Seq<usize>
    decreases idx, structs[idx].children@.len() + 1,
{
    flat_prefix(structs, idx, structs[idx].children@.len() as int)
}

/// Flattened contributions of the first `k` children of struct `idx`.
pub open spec fn flat_prefix(structs: Seq<StructDesc>, idx: int, k: int) -> Seq<usize>
    decreases idx, k,
{
    if k <= 0 {
        Seq::empty()
    } else {
        flat_prefix(structs, idx, k - 1) + child_entries(structs, idx, k - 1)
    }
}

/// Flattened contribution of child `k` of struct `idx`: its immediate offset
/// alone for a scalar, the translated flattening for a nested struct.
pub open spec fn child_entries(structs: Seq<StructDesc>, idx: int, k: int) -> Seq<usize>
    decreases idx, 0int,
{
    let off = structs[idx].offsets@[k];
    match structs[idx].children@[k] {
        TypeDesc::Scalar(_) => seq![off],
        TypeDesc::Struct(j) => if 0 <= j < idx {
            let sub = flat_offsets(structs, j as int);
            if sub.len() == 0 {
                Seq::empty()
            } else {
                seq![off] + sub.skip(1).map_values(|x: usize| (x + off) as usize)
            }
        } else {
            Seq::empty()
        },
    }
}

/// Byte width of each scalar leaf of struct `idx`, in the same depth-first
/// order as `flat_offsets`: entry `i` is the width of the leaf whose offset
/// is `flat_offsets(structs, idx)[i]`.
pub open spec fn leaf_widths(structs: Seq<StructDesc>, idx: int) -> Seq<nat>
    decreases idx, structs[idx].children@.len() + 1,
{
    widths_prefix(structs, idx, structs[idx].children@.len() as int)
}

/// Leaf widths contributed by the first `k` children of struct `idx`.
pub open spec fn widths_prefix(structs: Seq<StructDesc>, idx: int, k: int) -> Seq<nat>
    decreases idx, k,
{
    if k <= 0 {
        Seq::empty()
    } else {
        widths_prefix(structs, idx, k - 1) + child_widths(structs, idx, k - 1)
    }
}

/// Leaf widths contributed by child `k` of struct `idx`: a scalar's own
/// width, or all of a nested struct's leaf widths — the nested struct's
/// leaves are the same leaves, whether their offsets are translated or not.
pub open spec fn child_widths(structs: Seq<StructDesc>, idx: int, k: int) -> Seq<nat>
    decreases idx, 0int,
{
    match structs[idx].children@[k] {
        TypeDesc::Scalar(s) => seq![crate::types::spec_scalar_size(s)],
        TypeDesc::Struct(j) => if 0 <= j < idx {
            if flat_offsets(structs, j as int).len() == 0 {
                Seq::empty()
            } else {
                leaf_widths(structs, j as int)
            }
        } else {
            Seq::empty()
        },
    }
}

/// Each leaf's offset plus its width stays inside the struct's aggregate
/// size: there is one width per flattened offset, and a store of the leaf's
/// declared width at its flattened offset never leaves the struct.
pub proof fn lemma_flat_widths_fit(structs: Seq<StructDesc>, idx: int)
    requires
        wf_structs(structs),
        0 <= idx < structs.len(),
    ensures
        leaf_widths(structs, idx).len() == flat_offsets(structs, idx).len(),
        forall|i: int|
            0 <= i < flat_offsets(structs, idx).len() ==> #[trigger] flat_offsets(structs, idx)[i]
                + leaf_widths(structs, idx)[i] <= structs[idx].size,
    decreases idx, structs[idx].children@.len() + 1,
{
    lemma_widths_prefix_fit(structs, idx, structs[idx].children@.len() as int);
    assert(flat_offsets(structs, idx) == flat_prefix(
        structs,
        idx,
        structs[idx].children@.len() as int,
    ));
    assert(leaf_widths(structs, idx) == widths_prefix(
        structs,
        idx,
        structs[idx].children@.len() as int,
    ));
}

proof fn lemma_widths_prefix_fit(structs: Seq<StructDesc>, idx: int, k: int)
    requires
        wf_structs(structs),
        0 <= idx < structs.len(),
        k <= structs[idx].children@.len(),
    ensures
        widths_prefix(structs, idx, k).len() == flat_prefix(structs, idx, k).len(),
        forall|i: int|
            0 <= i < flat_prefix(structs, idx, k).len() ==> #[trigger] flat_prefix(
                structs,
                idx,
                k,
            )[i] + widths_prefix(structs, idx, k)[i] <= structs[idx].size,
    decreases idx, k,
{
    if k > 0 {
        lemma_widths_prefix_fit(structs, idx, k - 1);
        let s = structs[idx];
        let off = s.offsets@[k - 1];
        assert(wf_struct_at(structs, idx));
        let ce = child_entries(structs, idx, k - 1);
        let cw = child_widths(structs, idx, k - 1);
        assert(off + spec_type_size(structs, s.children@[k - 1]) <= s.size);
        assert(cw.len() == ce.len()) by {
            match s.children@[k - 1] {
                TypeDesc::Scalar(_) => {},
                TypeDesc::Struct(j) => {
                    lemma_flat_widths_fit(structs, j as int);
                },
            }
        }
        assert forall|i: int| 0 <= i < ce.len() implies #[trigger] ce[i] + cw[i] <= s.size by {
            match s.children@[k - 1] {
                TypeDesc::Scalar(_) => {},
                TypeDesc::Struct(j) => {
                    lemma_flat_widths_fit(structs, j as int);
                    lemma_flat_bounds(structs, j as int);
                    let sub = flat_offsets(structs, j as int);
                    let subw = leaf_widths(structs, j as int);
                    assert(off + structs[j as int].size <= s.size);
                    if sub.len() > 0 {
                        if i == 0 {
                            assert(ce[0] == off);
                            assert(cw[0] == subw[0]);
                            assert(sub[0] + subw[0] <= structs[j as int].size);
                        } else {
                            assert(ce[i] == (sub.skip(1)[i - 1] + off) as usize);
                            assert(sub.skip(1)[i - 1] == sub[i]);
                            assert(sub[i] + subw[i] <= structs[j as int].size);
                        }
                    }
                },
            }
        }
        let pre = flat_prefix(structs, idx, k - 1);
        let prew = widths_prefix(structs, idx, k - 1);
        assert forall|i: int|
            0 <= i < flat_prefix(structs, idx, k).len() implies #[trigger] flat_prefix(
            structs,
            idx,
            k,
        )[i] + widths_prefix(structs, idx, k)[i] <= s.size by {
            if i < pre.len() {
                assert(flat_prefix(structs, idx, k)[i] == pre[i]);
                assert(widths_prefix(structs, idx, k)[i] == prew[i]);
            } else {
                assert(flat_prefix(structs, idx, k)[i] == ce[i - pre.len()]);
                assert(widths_prefix(structs, idx, k)[i] == cw[i - pre.len()]);
            }
        }
    }
}

/// Every flattened offset of a well-formed struct lies within the struct's
/// own aggregate size, so translating it by an enclosing offset never
/// overflows.
pub proof fn lemma_flat_bounds(structs: Seq<StructDesc>, idx: int)
    requires
        wf_structs(structs),
        0 <= idx < structs.len(),
    ensures
        forall|i: int|
            0 <= i < flat_offsets(structs, idx).len() ==> #[trigger] flat_offsets(structs, idx)[i]
                <= structs[idx].size,
    decreases idx, structs[idx].children@.len() + 1,
{
    lemma_flat_prefix_bounds(structs, idx, structs[idx].children@.len() as int);
    assert(flat_offsets(structs, idx) == flat_prefix(
        structs,
        idx,
        structs[idx].children@.len() as int,
    ));
}

proof fn lemma_flat_prefix_bounds(structs: Seq<StructDesc>, idx: int, k: int)
    requires
        wf_structs(structs),
        0 <= idx < structs.len(),
        k <= structs[idx].children@.len(),
    ensures
        forall|i: int|
            0 <= i < flat_prefix(structs, idx, k).len() ==> #[trigger] flat_prefix(
                structs,
                idx,
                k,
            )[i] <= structs[idx].size,
    decreases idx, k,
{
    if k > 0 {
        lemma_flat_prefix_bounds(structs, idx, k - 1);
        let s = structs[idx];
        let off = s.offsets@[k - 1];
        assert(wf_struct_at(structs, idx));
        let ce = child_entries(structs, idx, k - 1);
        assert forall|i: int| 0 <= i < ce.len() implies #[trigger] ce[i] <= s.size by {
            assert(off + spec_type_size(structs, s.children@[k - 1]) <= s.size);
            match s.children@[k - 1] {
                TypeDesc::Scalar(_) => {},
                TypeDesc::Struct(j) => {
                    lemma_flat_bounds(structs, j as int);
                    let sub = flat_offsets(structs, j as int);
                    if i >= 1 {
                        assert(ce[i] == (sub.skip(1)[i - 1] + off) as usize);
                        assert(sub.skip(1)[i - 1] == sub[i]);
                        assert(sub[i] <= structs[j as int].size);
                    }
                },
            }
        }
        let pre = flat_prefix(structs, idx, k - 1);
        assert forall|i: int|
            0 <= i < flat_prefix(structs, idx, k).len() implies #[trigger] flat_prefix(
            structs,
            idx,
            k,
        )[i] <= s.size by {
            if i < pre.len() {
                assert(flat_prefix(structs, idx, k)[i] == pre[i]);
            } else {
                assert(flat_prefix(structs, idx, k)[i] == ce[i - pre.len()]);
            }
        }
    }
}

/// Flattens struct `idx` of a well-formed table into its depth-first list of
/// absolute leaf byte offsets.
pub fn flatten_struct(structs: &Vec<StructDesc>, idx: usize) -> (out: Vec<usize>)
    requires
        wf_structs(structs@),
        idx < structs@.len(),
    ensures
        out@ == flat_offsets(structs@, idx as int),
    decreases idx,
{
    let mut out: Vec<usize> = Vec::new();
    let n = structs[idx].children.len();
    assert(out@ =~= flat_prefix(structs@, idx as int, 0));
    for k in 0..n
        invariant
            wf_structs(structs@),
            idx < structs@.len(),
            n == structs@[idx as int].children@.len(),
            out@ == flat_prefix(structs@, idx as int, k as int),
    {
        proof {
            assert(wf_struct_at(structs@, idx as int));
        }
        let off = structs[idx].offsets[k];
        match structs[idx].children[k] {
            TypeDesc::Scalar(_) => {
                out.push(off);
                proof {
                    assert(out@ =~= flat_prefix(structs@, idx as int, k as int) + child_entries(
                        structs@,
                        idx as int,
                        k as int,
                    ));
                }
            },
            TypeDesc::Struct(j) => {
                let sub = flatten_struct(structs, j);
                proof {
                    lemma_flat_bounds(structs@, j as int);
                    assert(off + structs@[j as int].size <= structs@[idx as int].size);
                }
                if sub.len() > 0 {
                    out.push(off);
                    let ghost sub_spec = flat_offsets(structs@, j as int);
                    let ghost base = out@;
                    proof {
                        assert forall|i: int| 0 <= i < sub_spec.len() implies #[trigger] sub_spec[i]
                            + off <= usize::MAX by {
                            assert(sub_spec[i] <= structs@[j as int].size);
                        }
                    }
                    let mut m: usize = 1;
                    while m < sub.len()
                        invariant
                            1 <= m <= sub@.len(),
                            sub@ == sub_spec,
                            forall|i: int|
                                0 <= i < sub_spec.len() ==> #[trigger] sub_spec[i] + off
                                    <= usize::MAX,
                            out@ == base + sub_spec.skip(1).map_values(
                                |x: usize| (x + off) as usize,
                            ).take(m - 1),
                        decreases sub@.len() - m,
                    {
                        out.push(off + sub[m]);
                        proof {
                            let tr = sub_spec.skip(1).map_values(|x: usize| (x + off) as usize);
                            assert(tr[m - 1] == (sub_spec.skip(1)[m - 1] + off) as usize);
                            assert(sub_spec.skip(1)[m - 1] == sub_spec[m as int]);
                            assert(out@ =~= base + tr.take(m as int));
                        }
                        m = m + 1;
                    }
                    proof {
                        let tr = sub_spec.skip(1).map_values(|x: usize| (x + off) as usize);
                        assert(tr.take(sub_spec.len() - 1) =~= tr);
                        assert(out@ =~= flat_prefix(structs@, idx as int, k as int) + child_entries(
                            structs@,
                            idx as int,
                            k as int,
                        ));
                    }
                } else {
                    proof {
                        assert(child_entries(structs@, idx as int, k as int) =~= Seq::<
                            usize,
                        >::empty());
                        assert(out@ =~= flat_prefix(structs@, idx as int, k as int) + child_entries(
                            structs@,
                            idx as int,
                            k as int,
                        ));
                    }
                }
            },
        }
    }
    proof {
        assert(flat_offsets(structs@, idx as int) == flat_prefix(structs@, idx as int, n as int));
    }
    out
}

} // verus!
