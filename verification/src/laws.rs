//! The general laws of the bridge, proved once and for all: flattening a
//! scalars-only struct changes nothing, argument slots never overlap, a
//! written primitive survives an argument-copying callee, and struct
//! registration never reuses a type code.

use vstd::bytes::lemma_auto_spec_u16_to_from_le_bytes;
use vstd::bytes::lemma_auto_spec_u32_to_from_le_bytes;
use vstd::bytes::lemma_auto_spec_u64_to_from_le_bytes;
use vstd::bytes::spec_u16_from_le_bytes;
use vstd::bytes::spec_u16_to_le_bytes;
use vstd::bytes::spec_u32_from_le_bytes;
use vstd::bytes::spec_u32_to_le_bytes;
use vstd::bytes::spec_u64_from_le_bytes;
use vstd::bytes::spec_u64_to_le_bytes;
use vstd::prelude::*;

use crate::flatten::child_entries;
use crate::flatten::flat_offsets;
use crate::flatten::flat_prefix;
use crate::flatten::lemma_flat_widths_fit;
use crate::registry::wf_function;
use crate::registry::FunctionDesc;
use crate::registry::Registry;
use crate::target::args_total;
use crate::target::can_read;
use crate::target::entry_widths;
use crate::target::can_write;
use crate::target::lemma_args_total_mono;
use crate::target::lemma_pad8_bounds;
use crate::target::lemma_sched_step;
use crate::target::lemma_sched_widths_fit;
use crate::target::sched_widths;
use crate::target::read_window;
use crate::target::target_matches;
use crate::target::wrote;
use crate::target::Target;
use crate::types::spec_type_size;
use crate::types::TypeDesc;
use crate::types::wf_struct_at;
use crate::types::wf_structs;
use crate::types::StructDesc;

verus! {

/// Flattening correctness for flat shapes: a struct whose children are all
/// scalars flattens to exactly its immediate per-field offsets, unchanged
/// and in declared order.
pub proof fn lemma_flatten_scalars_only(structs: Seq<StructDesc>, idx: int)
    requires
        wf_structs(structs),
        0 <= idx < structs.len(),
        forall|k: int|
            0 <= k < structs[idx].children@.len() ==> #[trigger] structs[idx].children@[k]
                is Scalar,
    ensures
        flat_offsets(structs, idx) == structs[idx].offsets@,
{
    assert(wf_struct_at(structs, idx));
    lemma_flat_prefix_scalars_only(structs, idx, structs[idx].children@.len() as int);
    assert(structs[idx].offsets@.take(structs[idx].children@.len() as int) =~= structs[
        idx
    ].offsets@);
}

proof fn lemma_flat_prefix_scalars_only(structs: Seq<StructDesc>, idx: int, k: int)
    requires
        wf_structs(structs),
        0 <= idx < structs.len(),
        k <= structs[idx].children@.len(),
        forall|m: int|
            0 <= m < structs[idx].children@.len() ==> #[trigger] structs[idx].children@[m]
                is Scalar,
    ensures
        flat_prefix(structs, idx, k) == structs[idx].offsets@.take(if k < 0 {
            0
        } else {
            k
        }),
    decreases k,
{
    assert(wf_struct_at(structs, idx));
    if k <= 0 {
        assert(structs[idx].offsets@.take(0) =~= Seq::<usize>::empty());
    } else {
        lemma_flat_prefix_scalars_only(structs, idx, k - 1);
        assert(child_entries(structs, idx, k - 1) =~= seq![structs[idx].offsets@[k - 1]]);
        assert(flat_prefix(structs, idx, k) =~= structs[idx].offsets@.take(k));
    }
}

/// Padding invariant: consecutive argument slots never overlap — each
/// argument's base offset plus its full byte size stays at or below the
/// next argument's base offset — and the last slot stays inside the packed
/// buffer, whose size is the sum of the padded argument sizes.
pub proof fn lemma_arg_slots_disjoint(
    structs: Seq<StructDesc>,
    f: FunctionDesc,
    t: Target,
    i: int,
)
    requires
        target_matches(structs, f, t),
        0 <= i < f.args@.len(),
    ensures
        i + 1 < f.args@.len() ==> t.arg_locations@[i] + spec_type_size(structs, f.args@[i])
            <= t.arg_locations@[i + 1],
        t.arg_locations@[i] + spec_type_size(structs, f.args@[i]) <= t.write_buf@.len(),
{
    lemma_sched_step(structs, f.args@, i);
    lemma_pad8_bounds(spec_type_size(structs, f.args@[i]) as int);
    assert(args_total(structs, f.args@.take(i)) == t.arg_locations@[i]);
    lemma_args_total_mono(structs, f.args@, i + 1);
}

/// A host that writes the declared widths in depth-first order never leaves
/// the argument buffer: the schedule has one declared width per write
/// location, and every location plus its width stays within the buffer.
pub proof fn lemma_declared_write_widths_fit(structs: Seq<StructDesc>, f: FunctionDesc, t: Target)
    requires
        wf_structs(structs),
        wf_function(structs.len() as int, f),
        target_matches(structs, f, t),
        args_total(structs, f.args@) <= usize::MAX,
    ensures
        sched_widths(structs, f.args@).len() == t.write_locations@.len(),
        forall|k: int|
            0 <= k < t.write_locations@.len() ==> #[trigger] t.write_locations@[k] + sched_widths(
                structs,
                f.args@,
            )[k] <= t.write_buf@.len(),
{
    lemma_sched_widths_fit(structs, f.args@);
}

/// The mirror for reading: every read location plus the declared width of
/// its leaf stays within the return buffer.
pub proof fn lemma_declared_read_widths_fit(structs: Seq<StructDesc>, f: FunctionDesc, t: Target)
    requires
        wf_structs(structs),
        wf_function(structs.len() as int, f),
        target_matches(structs, f, t),
    ensures
        entry_widths(structs, f.ret).len() == t.read_locations@.len(),
        forall|k: int|
            0 <= k < t.read_locations@.len() ==> #[trigger] t.read_locations@[k] + entry_widths(
                structs,
                f.ret,
            )[k] <= t.read_buf@.len(),
{
    match f.ret {
        TypeDesc::Scalar(_) => {},
        TypeDesc::Struct(j) => {
            lemma_flat_widths_fit(structs, j as int);
        },
    }
}

/// Monotonic tables: the code a struct registration returns is the type
/// table's length at the time of the build, and a build grows the table by
/// one, so registering twice — the same shape or not — yields two distinct
/// type codes. The hypotheses are exactly what `Registry::add_struct`
/// ensures of two successive successful builds.
pub proof fn lemma_struct_codes_distinct(pre: Registry, mid: Registry, c1: usize, c2: usize)
    requires
        c1 == pre.types@.len(),
        mid.types@.len() == pre.types@.len() + 1,
        c2 == mid.types@.len(),
    ensures
        c1 != c2,
{
}

/// Round trip, one primitive at a time: after a successful write of some
/// bytes, a session whose return buffer holds the argument buffer's bytes —
/// as an identity-like callee that copies its arguments to its return value
/// produces — and whose read schedule and cursor mirror the write side,
/// reads those same bytes back.
pub proof fn lemma_write_read_window(pre: Registry, post: Registry, rd: Registry, bytes: Seq<u8>)
    requires
        can_write(pre, bytes.len()),
        wrote(pre, post, bytes),
        (match (pre.target, post.target, rd.target) {
            (Some(t0), Some(t1), Some(t2)) => {
                &&& t2.read_buf@ == t1.write_buf@
                &&& t2.read_locations@ == t0.write_locations@
                &&& t2.read_idx == t0.write_idx
            },
            _ => false,
        }),
    ensures
        can_read(rd, bytes.len()),
        read_window(rd, bytes.len()) == bytes,
{
    assert(read_window(rd, bytes.len()) =~= bytes);
}

/// Round trip for an unsigned 16-bit primitive: the value written is the
/// value read.
pub proof fn lemma_round_trip_u16(pre: Registry, post: Registry, rd: Registry, v: u16)
    requires
        can_write(pre, 2),
        wrote(pre, post, spec_u16_to_le_bytes(v)),
        (match (pre.target, post.target, rd.target) {
            (Some(t0), Some(t1), Some(t2)) => {
                &&& t2.read_buf@ == t1.write_buf@
                &&& t2.read_locations@ == t0.write_locations@
                &&& t2.read_idx == t0.write_idx
            },
            _ => false,
        }),
    ensures
        can_read(rd, 2),
        spec_u16_from_le_bytes(read_window(rd, 2)) == v,
{
    lemma_auto_spec_u16_to_from_le_bytes();
    lemma_write_read_window(pre, post, rd, spec_u16_to_le_bytes(v));
}

/// Round trip for an unsigned 32-bit primitive: the value written is the
/// value read.
pub proof fn lemma_round_trip_u32(pre: Registry, post: Registry, rd: Registry, v: u32)
    requires
        can_write(pre, 4),
        wrote(pre, post, spec_u32_to_le_bytes(v)),
        (match (pre.target, post.target, rd.target) {
            (Some(t0), Some(t1), Some(t2)) => {
                &&& t2.read_buf@ == t1.write_buf@
                &&& t2.read_locations@ == t0.write_locations@
                &&& t2.read_idx == t0.write_idx
            },
            _ => false,
        }),
    ensures
        can_read(rd, 4),
        spec_u32_from_le_bytes(read_window(rd, 4)) == v,
{
    lemma_auto_spec_u32_to_from_le_bytes();
    lemma_write_read_window(pre, post, rd, spec_u32_to_le_bytes(v));
}

/// Round trip for an unsigned 64-bit primitive: the value written is the
/// value read.
pub proof fn lemma_round_trip_u64(pre: Registry, post: Registry, rd: Registry, v: u64)
    requires
        can_write(pre, 8),
        wrote(pre, post, spec_u64_to_le_bytes(v)),
        (match (pre.target, post.target, rd.target) {
            (Some(t0), Some(t1), Some(t2)) => {
                &&& t2.read_buf@ == t1.write_buf@
                &&& t2.read_locations@ == t0.write_locations@
                &&& t2.read_idx == t0.write_idx
            },
            _ => false,
        }),
    ensures
        can_read(rd, 8),
        spec_u64_from_le_bytes(read_window(rd, 8)) == v,
{
    lemma_auto_spec_u64_to_from_le_bytes();
    lemma_write_read_window(pre, post, rd, spec_u64_to_le_bytes(v));
}

} // verus!
