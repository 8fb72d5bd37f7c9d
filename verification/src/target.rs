//! The active call target: the single marshalling session that binds a
//! registered function to freshly sized argument and return scratch buffers,
//! flattened write/read location schedules, and monotonic cursors.

use vstd::bytes::lemma_auto_spec_u16_to_from_le_bytes;
use vstd::bytes::lemma_auto_spec_u32_to_from_le_bytes;
use vstd::bytes::lemma_auto_spec_u64_to_from_le_bytes;
use vstd::bytes::spec_u16_from_le_bytes;
use vstd::bytes::spec_u16_to_le_bytes;
use vstd::bytes::spec_u32_from_le_bytes;
use vstd::bytes::spec_u32_to_le_bytes;
use vstd::bytes::spec_u64_from_le_bytes;
use vstd::bytes::spec_u64_to_le_bytes;
use vstd::bytes::u16_from_le_bytes;
use vstd::bytes::u16_to_le_bytes;
use vstd::bytes::u32_from_le_bytes;
use vstd::bytes::u32_to_le_bytes;
use vstd::bytes::u64_from_le_bytes;
use vstd::bytes::u64_to_le_bytes;
use vstd::prelude::*;

use crate::buffer::copy_vec;
use crate::buffer::i16_of_u16;
use crate::buffer::i32_of_u32;
use crate::buffer::i64_of_u64;
use crate::buffer::i8_of_u8;
use crate::buffer::load_bytes;
use crate::buffer::spec_i16_of_u16;
use crate::buffer::spec_i32_of_u32;
use crate::buffer::spec_i64_of_u64;
use crate::buffer::spec_i8_of_u8;
use crate::buffer::spec_u16_of_i16;
use crate::buffer::spec_u32_of_i32;
use crate::buffer::spec_u64_of_i64;
use crate::buffer::spec_u8_of_i8;
use crate::buffer::splice_bytes;
use crate::buffer::store_bytes;
use crate::buffer::u16_of_i16;
use crate::buffer::u32_of_i32;
use crate::buffer::u64_of_i64;
use crate::buffer::u8_of_i8;
use crate::buffer::zero_vec;
use crate::flatten::flat_offsets;
use crate::flatten::flatten_struct;
use crate::flatten::leaf_widths;
use crate::flatten::lemma_flat_bounds;
use crate::flatten::lemma_flat_widths_fit;
use crate::registry::lookup_fn;
use crate::registry::wf_function;
use crate::registry::FunctionDesc;
use crate::registry::Registry;
use crate::types::spec_type_size;
use crate::types::valid_type;
use crate::types::wf_structs;
use crate::types::FfiError;
use crate::types::StructDesc;
use crate::types::TypeDesc;

verus! {

/// The state of the active call session. Replaced wholesale each time a new
/// target is selected; the cursors advance one location per primitive
/// written or read.
pub struct Target {
    /// Base byte offset of each top-level argument in `write_buf`; at
    /// invocation time the native call receives one pointer per argument,
    /// formed from these.
    pub arg_locations: Vec<usize>,
    /// Next entry of `write_locations` to be consumed.
    pub write_idx: usize,
    /// The packed argument buffer, each argument slot padded to a multiple
    /// of eight bytes.
    pub write_buf: Vec<u8>,
    /// Absolute byte offset in `write_buf` of every scalar leaf of every
    /// argument, in depth-first declared order.
    pub write_locations: Vec<usize>,
    /// Next entry of `read_locations` to be consumed.
    pub read_idx: usize,
    /// The return-value buffer, sized exactly to the return type.
    pub read_buf: Vec<u8>,
    /// Absolute byte offset in `read_buf` of every scalar leaf of the return
    /// value, in depth-first declared order.
    pub read_locations: Vec<usize>,
    /// Name under which the targeted function was registered.
    pub fn_name: String,
}

/// A byte count rounded up to the next multiple of eight: the padding given
/// to every argument slot as an alignment safety margin for arbitrary
/// native layouts.
pub open spec fn pad8(n: int) -> int {
    if n % 8 == 0 {
        n
    } else {
        n + (8 - n % 8)
    }
}

/// Total size of the packed argument buffer: the sum of every argument's
/// byte size rounded up to a multiple of eight.
pub open spec fn args_total(structs: Seq<StructDesc>, args: Seq<TypeDesc>) -> int
    decreases args.len(),
{
    if args.len() == 0 {
        0
    } else {
        args_total(structs, args.drop_last()) + pad8(
            spec_type_size(structs, args.last()) as int,
        )
    }
}

/// The write locations one argument contributes, given the base offset of
/// its slot: the base alone for a scalar, the flattened leaf offsets
/// translated to the base for a struct.
pub open spec fn sched_entries(structs: Seq<StructDesc>, t: TypeDesc, base: usize) -> Seq<usize> {
    match t {
        TypeDesc::Scalar(_) => seq![base],
        TypeDesc::Struct(j) => flat_offsets(structs, j as int).map_values(
            |x: usize| (x + base) as usize,
        ),
    }
}

/// The full write-location schedule of an argument list: each argument's
/// entries, based at the packed buffer offset its slot starts at.
pub open spec fn sched(structs: Seq<StructDesc>, args: Seq<TypeDesc>) -> Seq<usize>
    decreases args.len(),
{
    if args.len() == 0 {
        Seq::empty()
    } else {
        sched(structs, args.drop_last()) + sched_entries(
            structs,
            args.last(),
            args_total(structs, args.drop_last()) as usize,
        )
    }
}

/// The declared byte widths of one argument's schedule entries, in order:
/// entry `i` is the width of the primitive the host owes at entry `i` of
/// `sched_entries`.
pub open spec fn entry_widths(structs: Seq<StructDesc>, t: TypeDesc) -> Seq<nat> {
    match t {
        TypeDesc::Scalar(k) => seq![crate::types::spec_scalar_size(k)],
        TypeDesc::Struct(j) => leaf_widths(structs, j as int),
    }
}

/// The declared byte widths of the whole write schedule, in order.
pub open spec fn sched_widths(structs: Seq<StructDesc>, args: Seq<TypeDesc>) -> Seq<nat>
    decreases args.len(),
{
    if args.len() == 0 {
        Seq::empty()
    } else {
        sched_widths(structs, args.drop_last()) + entry_widths(structs, args.last())
    }
}

/// The packed buffer never has negative size.
pub proof fn lemma_args_total_nonneg(structs: Seq<StructDesc>, args: Seq<TypeDesc>)
    ensures
        args_total(structs, args) >= 0,
    decreases args.len(),
{
    if args.len() > 0 {
        lemma_args_total_nonneg(structs, args.drop_last());
        lemma_pad8_bounds(spec_type_size(structs, args.last()) as int);
    }
}

/// Every schedule entry, taken together with the declared width of its
/// leaf, stays inside the packed argument buffer: there is one width per
/// write location, and location plus width never passes the buffer's total.
pub proof fn lemma_sched_widths_fit(structs: Seq<StructDesc>, args: Seq<TypeDesc>)
    requires
        wf_structs(structs),
        forall|i: int| 0 <= i < args.len() ==> valid_type(structs.len() as int, #[trigger] args[i]),
        args_total(structs, args) <= usize::MAX,
    ensures
        sched_widths(structs, args).len() == sched(structs, args).len(),
        forall|i: int|
            0 <= i < sched(structs, args).len() ==> #[trigger] sched(structs, args)[i]
                + sched_widths(structs, args)[i] <= args_total(structs, args),
    decreases args.len(),
{
    if args.len() > 0 {
        let pre = args.drop_last();
        let last = args.last();
        let total = args_total(structs, args);
        let pre_total = args_total(structs, pre);
        lemma_pad8_bounds(spec_type_size(structs, last) as int);
        lemma_args_total_nonneg(structs, pre);
        lemma_sched_widths_fit(structs, pre);
        let base = pre_total as usize;
        let se = sched_entries(structs, last, base);
        let sw = entry_widths(structs, last);
        assert(sw.len() == se.len()) by {
            match last {
                TypeDesc::Scalar(_) => {},
                TypeDesc::Struct(j) => {
                    lemma_flat_widths_fit(structs, j as int);
                },
            }
        }
        assert forall|i: int| 0 <= i < se.len() implies #[trigger] se[i] + sw[i] <= total by {
            match last {
                TypeDesc::Scalar(_) => {},
                TypeDesc::Struct(j) => {
                    lemma_flat_widths_fit(structs, j as int);
                    lemma_flat_bounds(structs, j as int);
                    let sub = flat_offsets(structs, j as int);
                    assert(se[i] == (sub[i] + base) as usize);
                    assert(sub[i] <= structs[j as int].size);
                    assert(sub[i] + leaf_widths(structs, j as int)[i] <= structs[j as int].size);
                },
            }
        }
        assert forall|i: int| 0 <= i < sched(structs, args).len() implies #[trigger] sched(
            structs,
            args,
        )[i] + sched_widths(structs, args)[i] <= total by {
            let sp = sched(structs, pre);
            if i < sp.len() {
                assert(sched(structs, args)[i] == sp[i]);
                assert(sched_widths(structs, args)[i] == sched_widths(structs, pre)[i]);
            } else {
                assert(sched(structs, args)[i] == se[i - sp.len()]);
                assert(sched_widths(structs, args)[i] == sw[i - sp.len()]);
            }
        }
    }
}

/// The read-location schedule of the return type: a single zero-based
/// offset for a scalar, the flattened leaf offsets for a struct.
pub open spec fn read_sched(structs: Seq<StructDesc>, ret: TypeDesc) -> Seq<usize> {
    match ret {
        TypeDesc::Scalar(_) => seq![0usize],
        TypeDesc::Struct(j) => flat_offsets(structs, j as int),
    }
}

/// The target's buffers and schedules are exactly the ones its function's
/// signature dictates.
pub open spec fn target_matches(structs: Seq<StructDesc>, f: FunctionDesc, t: Target) -> bool {
    &&& t.write_buf@.len() == args_total(structs, f.args@)
    &&& t.arg_locations@.len() == f.args@.len()
    &&& forall|i: int|
        0 <= i < f.args@.len() ==> #[trigger] t.arg_locations@[i] == args_total(
            structs,
            f.args@.take(i),
        )
    &&& t.write_locations@ == sched(structs, f.args@)
    &&& t.read_buf@.len() == spec_type_size(structs, f.ret)
    &&& t.read_locations@ == read_sched(structs, f.ret)
}

/// Padding rounds up, and by less than eight.
pub proof fn lemma_pad8_bounds(n: int)
    requires
        n >= 0,
    ensures
        n <= pad8(n) < n + 8,
{
}

/// Extending an argument list by one grows the buffer by the new argument's
/// padded size and the schedule by the new argument's entries.
pub proof fn lemma_sched_step(structs: Seq<StructDesc>, args: Seq<TypeDesc>, a: int)
    requires
        0 <= a < args.len(),
    ensures
        args_total(structs, args.take(a + 1)) == args_total(structs, args.take(a)) + pad8(
            spec_type_size(structs, args[a]) as int,
        ),
        sched(structs, args.take(a + 1)) == sched(structs, args.take(a)) + sched_entries(
            structs,
            args[a],
            args_total(structs, args.take(a)) as usize,
        ),
{
    assert(args.take(a + 1).drop_last() =~= args.take(a));
    assert(args.take(a + 1).last() == args[a]);
}

/// The packed buffer never shrinks as arguments are appended.
pub proof fn lemma_args_total_mono(structs: Seq<StructDesc>, args: Seq<TypeDesc>, a: int)
    requires
        0 <= a <= args.len(),
        args_total(structs, args.take(a)) >= 0,
    ensures
        args_total(structs, args.take(a)) <= args_total(structs, args),
    decreases args.len() - a,
{
    if a == args.len() {
        assert(args.take(a) =~= args);
    } else {
        lemma_sched_step(structs, args, a);
        lemma_pad8_bounds(spec_type_size(structs, args[a]) as int);
        lemma_args_total_mono(structs, args, a + 1);
    }
}

/// A write of `width` bytes can proceed: a target is set, the write cursor
/// still has a location to consume, and the primitive's bytes stay inside
/// the argument buffer.
pub open spec fn can_write(r: Registry, width: nat) -> bool {
    match r.target {
        Some(t) => t.write_idx < t.write_locations@.len() && t.write_locations@[t.write_idx as int]
            + width <= t.write_buf@.len(),
        None => false,
    }
}

/// Which error a failed write of `width` bytes reports.
pub open spec fn write_fail(r: Registry, width: nat) -> FfiError {
    match r.target {
        None => FfiError::NoTarget,
        Some(t) => if t.write_idx >= t.write_locations@.len() {
            FfiError::WriteCursorOverflow
        } else {
            FfiError::SlotOutOfBounds
        },
    }
}

/// A read of `width` bytes can proceed, mirroring `can_write` against the
/// return buffer.
pub open spec fn can_read(r: Registry, width: nat) -> bool {
    match r.target {
        Some(t) => t.read_idx < t.read_locations@.len() && t.read_locations@[t.read_idx as int]
            + width <= t.read_buf@.len(),
        None => false,
    }
}

/// Which error a failed read of `width` bytes reports.
pub open spec fn read_fail(r: Registry, width: nat) -> FfiError {
    match r.target {
        None => FfiError::NoTarget,
        Some(t) => if t.read_idx >= t.read_locations@.len() {
            FfiError::ReadCursorOverflow
        } else {
            FfiError::SlotOutOfBounds
        },
    }
}

/// The `width` bytes of the return buffer that the next read consumes.
pub open spec fn read_window(r: Registry, width: nat) -> Seq<u8> {
    match r.target {
        Some(t) => t.read_buf@.subrange(
            t.read_locations@[t.read_idx as int] as int,
            t.read_locations@[t.read_idx as int] + width,
        ),
        None => Seq::empty(),
    }
}

/// The three monotonic tables are untouched.
pub open spec fn tables_unchanged(pre: Registry, post: Registry) -> bool {
    &&& post.types == pre.types
    &&& post.structs == pre.structs
    &&& post.functions == pre.functions
}

/// A successful write: `bytes` lands at the location the write cursor named,
/// the cursor advances by one, and nothing else of the session moves.
pub open spec fn wrote(pre: Registry, post: Registry, bytes: Seq<u8>) -> bool {
    match (pre.target, post.target) {
        (Some(t0), Some(t1)) => {
            &&& t1.write_buf@ == splice_bytes(
                t0.write_buf@,
                t0.write_locations@[t0.write_idx as int] as int,
                bytes,
            )
            &&& t1.write_idx == t0.write_idx + 1
            &&& t1.write_locations == t0.write_locations
            &&& t1.arg_locations == t0.arg_locations
            &&& t1.read_buf == t0.read_buf
            &&& t1.read_idx == t0.read_idx
            &&& t1.read_locations == t0.read_locations
            &&& t1.fn_name == t0.fn_name
        },
        _ => false,
    }
}

/// A successful read: only the read cursor advances.
pub open spec fn read_advanced(pre: Registry, post: Registry) -> bool {
    match (pre.target, post.target) {
        (Some(t0), Some(t1)) => {
            &&& t1.read_idx == t0.read_idx + 1
            &&& t1.read_buf == t0.read_buf
            &&& t1.read_locations == t0.read_locations
            &&& t1.write_buf == t0.write_buf
            &&& t1.write_idx == t0.write_idx
            &&& t1.write_locations == t0.write_locations
            &&& t1.arg_locations == t0.arg_locations
            &&& t1.fn_name == t0.fn_name
        },
        _ => false,
    }
}

/// Everything the unverified invocation shim needs to perform the native
/// call: the resolved symbol address, the declared argument and return
/// types, one base offset per top-level argument, the packed argument
/// bytes, and the exact return-buffer size.
pub struct CallPlan {
    pub addr: usize,
    pub args: Vec<TypeDesc>,
    pub ret: TypeDesc,
    pub arg_locations: Vec<usize>,
    pub arg_bytes: Vec<u8>,
    pub ret_size: usize,
}

impl Registry {
    /// Writes one primitive's bytes at the next write location and advances
    /// the write cursor. No runtime check ties the bytes' width to the
    /// declared field width: the caller owes the depth-first order and
    /// widths of the declared types, and a wrong width within the buffer
    /// corrupts neighbouring fields exactly as the contract's splice says.
    fn write_raw(&mut self, bytes: &Vec<u8>) -> (r: Result<(), FfiError>)
        requires
            old(self).wf(),
        ensures
            final(self).wf(),
            tables_unchanged(*old(self), *final(self)),
            r is Ok <==> can_write(*old(self), bytes@.len()),
            r is Ok ==> wrote(*old(self), *final(self), bytes@),
            r is Err ==> *final(self) == *old(self) && r == Err::<(), FfiError>(
                write_fail(*old(self), bytes@.len()),
            ),
    {
        match &mut self.target {
            None => Err(FfiError::NoTarget),
            Some(t) => {
                if t.write_idx >= t.write_locations.len() {
                    return Err(FfiError::WriteCursorOverflow);
                }
                let loc = t.write_locations[t.write_idx];
                let blen = t.write_buf.len();
                if loc > blen || bytes.len() > blen - loc {
                    return Err(FfiError::SlotOutOfBounds);
                }
                store_bytes(&mut t.write_buf, loc, bytes);
                t.write_idx = t.write_idx + 1;
                Ok(())
            },
        }
    }

    /// Reads one primitive's bytes from the next read location and advances
    /// the read cursor.
    fn read_raw(&mut self, width: usize) -> (r: Result<Vec<u8>, FfiError>)
        requires
            old(self).wf(),
        ensures
            final(self).wf(),
            tables_unchanged(*old(self), *final(self)),
            r is Ok <==> can_read(*old(self), width as nat),
            (match r {
                Ok(b) => b@ == read_window(*old(self), width as nat) && read_advanced(
                    *old(self),
                    *final(self),
                ),
                Err(e) => *final(self) == *old(self) && e == read_fail(*old(self), width as nat),
            }),
    {
        match &mut self.target {
            None => Err(FfiError::NoTarget),
            Some(t) => {
                if t.read_idx >= t.read_locations.len() {
                    return Err(FfiError::ReadCursorOverflow);
                }
                let loc = t.read_locations[t.read_idx];
                let blen = t.read_buf.len();
                if loc > blen || width > blen - loc {
                    return Err(FfiError::SlotOutOfBounds);
                }
                let b = load_bytes(&t.read_buf, loc, width);
                t.read_idx = t.read_idx + 1;
                Ok(b)
            },
        }
    }

    /// Writes one unsigned 8-bit value at the next write location.
    pub fn write_u8(&mut self, v: u8) -> (r: Result<(), FfiError>)
        requires
            old(self).wf(),
        ensures
            final(self).wf(),
            tables_unchanged(*old(self), *final(self)),
            r is Ok <==> can_write(*old(self), 1),
            r is Ok ==> wrote(*old(self), *final(self), seq![v]),
            r is Err ==> *final(self) == *old(self) && r == Err::<(), FfiError>(
                write_fail(*old(self), 1),
            ),
    {
        let mut b: Vec<u8> = Vec::new();
        b.push(v);
        proof {
            assert(b@ =~= seq![v]);
        }
        self.write_raw(&b)
    }

    /// Writes one unsigned 16-bit value, as its little-endian bytes, at the
    /// next write location.
    pub fn write_u16(&mut self, v: u16) -> (r: Result<(), FfiError>)
        requires
            old(self).wf(),
        ensures
            final(self).wf(),
            tables_unchanged(*old(self), *final(self)),
            r is Ok <==> can_write(*old(self), 2),
            r is Ok ==> wrote(*old(self), *final(self), spec_u16_to_le_bytes(v)),
            r is Err ==> *final(self) == *old(self) && r == Err::<(), FfiError>(
                write_fail(*old(self), 2),
            ),
    {
        proof {
            lemma_auto_spec_u16_to_from_le_bytes();
        }
        let b = u16_to_le_bytes(v);
        self.write_raw(&b)
    }

    /// Writes one unsigned 32-bit value, as its little-endian bytes, at the
    /// next write location.
    pub fn write_u32(&mut self, v: u32) -> (r: Result<(), FfiError>)
        requires
            old(self).wf(),
        ensures
            final(self).wf(),
            tables_unchanged(*old(self), *final(self)),
            r is Ok <==> can_write(*old(self), 4),
            r is Ok ==> wrote(*old(self), *final(self), spec_u32_to_le_bytes(v)),
            r is Err ==> *final(self) == *old(self) && r == Err::<(), FfiError>(
                write_fail(*old(self), 4),
            ),
    {
        proof {
            lemma_auto_spec_u32_to_from_le_bytes();
        }
        let b = u32_to_le_bytes(v);
        self.write_raw(&b)
    }

    /// Writes one unsigned 64-bit value, as its little-endian bytes, at the
    /// next write location.
    pub fn write_u64(&mut self, v: u64) -> (r: Result<(), FfiError>)
        requires
            old(self).wf(),
        ensures
            final(self).wf(),
            tables_unchanged(*old(self), *final(self)),
            r is Ok <==> can_write(*old(self), 8),
            r is Ok ==> wrote(*old(self), *final(self), spec_u64_to_le_bytes(v)),
            r is Err ==> *final(self) == *old(self) && r == Err::<(), FfiError>(
                write_fail(*old(self), 8),
            ),
    {
        proof {
            lemma_auto_spec_u64_to_from_le_bytes();
        }
        let b = u64_to_le_bytes(v);
        self.write_raw(&b)
    }

    /// Writes one signed 8-bit value, as its two's-complement pattern.
    pub fn write_i8(&mut self, v: i8) -> (r: Result<(), FfiError>)
        requires
            old(self).wf(),
        ensures
            final(self).wf(),
            tables_unchanged(*old(self), *final(self)),
            r is Ok <==> can_write(*old(self), 1),
            r is Ok ==> wrote(*old(self), *final(self), seq![spec_u8_of_i8(v)]),
            r is Err ==> *final(self) == *old(self) && r == Err::<(), FfiError>(
                write_fail(*old(self), 1),
            ),
    {
        self.write_u8(u8_of_i8(v))
    }

    /// Writes one signed 16-bit value, as its two's-complement little-endian
    /// bytes.
    pub fn write_i16(&mut self, v: i16) -> (r: Result<(), FfiError>)
        requires
            old(self).wf(),
        ensures
            final(self).wf(),
            tables_unchanged(*old(self), *final(self)),
            r is Ok <==> can_write(*old(self), 2),
            r is Ok ==> wrote(*old(self), *final(self), spec_u16_to_le_bytes(spec_u16_of_i16(v))),
            r is Err ==> *final(self) == *old(self) && r == Err::<(), FfiError>(
                write_fail(*old(self), 2),
            ),
    {
        self.write_u16(u16_of_i16(v))
    }

    /// Writes one signed 32-bit value, as its two's-complement little-endian
    /// bytes.
    pub fn write_i32(&mut self, v: i32) -> (r: Result<(), FfiError>)
        requires
            old(self).wf(),
        ensures
            final(self).wf(),
            tables_unchanged(*old(self), *final(self)),
            r is Ok <==> can_write(*old(self), 4),
            r is Ok ==> wrote(*old(self), *final(self), spec_u32_to_le_bytes(spec_u32_of_i32(v))),
            r is Err ==> *final(self) == *old(self) && r == Err::<(), FfiError>(
                write_fail(*old(self), 4),
            ),
    {
        self.write_u32(u32_of_i32(v))
    }

    /// Writes one signed 64-bit value, as its two's-complement little-endian
    /// bytes.
    pub fn write_i64(&mut self, v: i64) -> (r: Result<(), FfiError>)
        requires
            old(self).wf(),
        ensures
            final(self).wf(),
            tables_unchanged(*old(self), *final(self)),
            r is Ok <==> can_write(*old(self), 8),
            r is Ok ==> wrote(*old(self), *final(self), spec_u64_to_le_bytes(spec_u64_of_i64(v))),
            r is Err ==> *final(self) == *old(self) && r == Err::<(), FfiError>(
                write_fail(*old(self), 8),
            ),
    {
        self.write_u64(u64_of_i64(v))
    }

    /// Reads one unsigned 8-bit value from the next read location.
    pub fn read_u8(&mut self) -> (r: Result<u8, FfiError>)
        requires
            old(self).wf(),
        ensures
            final(self).wf(),
            tables_unchanged(*old(self), *final(self)),
            r is Ok <==> can_read(*old(self), 1),
            (match r {
                Ok(v) => v == read_window(*old(self), 1)[0] && read_advanced(
                    *old(self),
                    *final(self),
                ),
                Err(e) => *final(self) == *old(self) && e == read_fail(*old(self), 1),
            }),
    {
        match self.read_raw(1) {
            Ok(b) => Ok(b[0]),
            Err(e) => Err(e),
        }
    }

    /// Reads one unsigned 16-bit value, from its little-endian bytes, at the
    /// next read location.
    pub fn read_u16(&mut self) -> (r: Result<u16, FfiError>)
        requires
            old(self).wf(),
        ensures
            final(self).wf(),
            tables_unchanged(*old(self), *final(self)),
            r is Ok <==> can_read(*old(self), 2),
            (match r {
                Ok(v) => v == spec_u16_from_le_bytes(read_window(*old(self), 2)) && read_advanced(
                    *old(self),
                    *final(self),
                ),
                Err(e) => *final(self) == *old(self) && e == read_fail(*old(self), 2),
            }),
    {
        match self.read_raw(2) {
            Ok(b) => Ok(u16_from_le_bytes(b.as_slice())),
            Err(e) => Err(e),
        }
    }

    /// Reads one unsigned 32-bit value, from its little-endian bytes, at the
    /// next read location.
    pub fn read_u32(&mut self) -> (r: Result<u32, FfiError>)
        requires
            old(self).wf(),
        ensures
            final(self).wf(),
            tables_unchanged(*old(self), *final(self)),
            r is Ok <==> can_read(*old(self), 4),
            (match r {
                Ok(v) => v == spec_u32_from_le_bytes(read_window(*old(self), 4)) && read_advanced(
                    *old(self),
                    *final(self),
                ),
                Err(e) => *final(self) == *old(self) && e == read_fail(*old(self), 4),
            }),
    {
        match self.read_raw(4) {
            Ok(b) => Ok(u32_from_le_bytes(b.as_slice())),
            Err(e) => Err(e),
        }
    }

    /// Reads one unsigned 64-bit value, from its little-endian bytes, at the
    /// next read location.
    pub fn read_u64(&mut self) -> (r: Result<u64, FfiError>)
        requires
            old(self).wf(),
        ensures
            final(self).wf(),
            tables_unchanged(*old(self), *final(self)),
            r is Ok <==> can_read(*old(self), 8),
            (match r {
                Ok(v) => v == spec_u64_from_le_bytes(read_window(*old(self), 8)) && read_advanced(
                    *old(self),
                    *final(self),
                ),
                Err(e) => *final(self) == *old(self) && e == read_fail(*old(self), 8),
            }),
    {
        match self.read_raw(8) {
            Ok(b) => Ok(u64_from_le_bytes(b.as_slice())),
            Err(e) => Err(e),
        }
    }

    /// Reads one signed 8-bit value, as the two's-complement reading of the
    /// next location's byte.
    pub fn read_i8(&mut self) -> (r: Result<i8, FfiError>)
        requires
            old(self).wf(),
        ensures
            final(self).wf(),
            tables_unchanged(*old(self), *final(self)),
            r is Ok <==> can_read(*old(self), 1),
            (match r {
                Ok(v) => v == spec_i8_of_u8(read_window(*old(self), 1)[0]) && read_advanced(
                    *old(self),
                    *final(self),
                ),
                Err(e) => *final(self) == *old(self) && e == read_fail(*old(self), 1),
            }),
    {
        match self.read_u8() {
            Ok(u) => Ok(i8_of_u8(u)),
            Err(e) => Err(e),
        }
    }

    /// Reads one signed 16-bit value, as the two's-complement reading of the
    /// next location's little-endian bytes.
    pub fn read_i16(&mut self) -> (r: Result<i16, FfiError>)
        requires
            old(self).wf(),
        ensures
            final(self).wf(),
            tables_unchanged(*old(self), *final(self)),
            r is Ok <==> can_read(*old(self), 2),
            (match r {
                Ok(v) => v == spec_i16_of_u16(spec_u16_from_le_bytes(read_window(*old(self), 2)))
                    && read_advanced(*old(self), *final(self)),
                Err(e) => *final(self) == *old(self) && e == read_fail(*old(self), 2),
            }),
    {
        match self.read_u16() {
            Ok(u) => Ok(i16_of_u16(u)),
            Err(e) => Err(e),
        }
    }

    /// Reads one signed 32-bit value, as the two's-complement reading of the
    /// next location's little-endian bytes.
    pub fn read_i32(&mut self) -> (r: Result<i32, FfiError>)
        requires
            old(self).wf(),
        ensures
            final(self).wf(),
            tables_unchanged(*old(self), *final(self)),
            r is Ok <==> can_read(*old(self), 4),
            (match r {
                Ok(v) => v == spec_i32_of_u32(spec_u32_from_le_bytes(read_window(*old(self), 4)))
                    && read_advanced(*old(self), *final(self)),
                Err(e) => *final(self) == *old(self) && e == read_fail(*old(self), 4),
            }),
    {
        match self.read_u32() {
            Ok(u) => Ok(i32_of_u32(u)),
            Err(e) => Err(e),
        }
    }

    /// Reads one signed 64-bit value, as the two's-complement reading of the
    /// next location's little-endian bytes.
    pub fn read_i64(&mut self) -> (r: Result<i64, FfiError>)
        requires
            old(self).wf(),
        ensures
            final(self).wf(),
            tables_unchanged(*old(self), *final(self)),
            r is Ok <==> can_read(*old(self), 8),
            (match r {
                Ok(v) => v == spec_i64_of_u64(spec_u64_from_le_bytes(read_window(*old(self), 8)))
                    && read_advanced(*old(self), *final(self)),
                Err(e) => *final(self) == *old(self) && e == read_fail(*old(self), 8),
            }),
    {
        match self.read_u64() {
            Ok(u) => Ok(i64_of_u64(u)),
            Err(e) => Err(e),
        }
    }

    /// Whether a call target is currently set.
    pub fn has_target(&self) -> (b: bool)
        ensures
            b == (self.target is Some),
    {
        self.target.is_some()
    }

    /// Selects the function registered under `name` as the active call
    /// target, replacing any previous target wholesale: freshly sized,
    /// zero-filled argument and return buffers, the write/read location
    /// schedules derived from the flattened argument and return layouts,
    /// and both cursors reset. Each argument slot is padded to a multiple
    /// of eight bytes. Fails without touching the previous target when the
    /// name is unknown or the packed buffer would exceed the address space.
    pub fn set_target(&mut self, name: &String) -> (r: Result<(), FfiError>)
        requires
            old(self).wf(),
        ensures
            final(self).wf(),
            tables_unchanged(*old(self), *final(self)),
            r is Ok <==> (lookup_fn(old(self).functions@, name@) matches Some(fi) && args_total(
                old(self).structs@,
                old(self).functions@[fi].args@,
            ) <= usize::MAX),
            r is Ok ==> (lookup_fn(old(self).functions@, name@) matches Some(fi)
                && final(self).target matches Some(t) && {
                let f = old(self).functions@[fi];
                &&& t.fn_name@ == name@
                &&& t.write_idx == 0
                &&& t.read_idx == 0
                &&& target_matches(old(self).structs@, f, t)
                &&& (forall|i: int| 0 <= i < t.write_buf@.len() ==> t.write_buf@[i] == 0u8)
                &&& (forall|i: int| 0 <= i < t.read_buf@.len() ==> t.read_buf@[i] == 0u8)
            }),
            (match r {
                Ok(_) => true,
                Err(e) => {
                    &&& *final(self) == *old(self)
                    &&& (e == FfiError::UnknownFunction <==> lookup_fn(
                        old(self).functions@,
                        name@,
                    ) is None)
                    &&& (e == FfiError::SizeOverflow <==> (lookup_fn(
                        old(self).functions@,
                        name@,
                    ) matches Some(fi) && args_total(
                        old(self).structs@,
                        old(self).functions@[fi].args@,
                    ) > usize::MAX))
                },
            }),
    {
        let fi = match self.find_function(name) {
            None => {
                return Err(FfiError::UnknownFunction);
            },
            Some(i) => i,
        };
        let ghost f = self.functions@[fi as int];
        proof {
            assert(wf_function(self.structs@.len() as int, f));
        }
        let nargs = self.functions[fi].args.len();
        let mut arg_locations: Vec<usize> = Vec::new();
        let mut write_locations: Vec<usize> = Vec::new();
        let mut buf_len: usize = 0;
        proof {
            assert(f.args@.take(0) =~= Seq::<TypeDesc>::empty());
        }
        for a in 0..nargs
            invariant
                old(self).wf(),
                self == old(self),
                fi < self.functions@.len(),
                f == self.functions@[fi as int],
                nargs == f.args@.len(),
                lookup_fn(old(self).functions@, name@) == Some(fi as int),
                buf_len == args_total(self.structs@, f.args@.take(a as int)),
                arg_locations@.len() == a,
                forall|i: int|
                    0 <= i < a ==> #[trigger] arg_locations@[i] == args_total(
                        self.structs@,
                        f.args@.take(i),
                    ),
                write_locations@ == sched(self.structs@, f.args@.take(a as int)),
        {
            proof {
                assert(wf_function(self.structs@.len() as int, f));
                assert(valid_type(self.structs@.len() as int, f.args@[a as int]));
            }
            let t = self.functions[fi].args[a];
            let sz = self.type_size(t);
            let rem = sz % 8;
            let padded = if rem == 0 {
                sz
            } else {
                if sz - rem > usize::MAX - 8 {
                    proof {
                        lemma_sched_step(self.structs@, f.args@, a as int);
                        lemma_pad8_bounds(sz as int);
                        assert(args_total(self.structs@, f.args@.take(a + 1)) > usize::MAX);
                        lemma_args_total_mono(self.structs@, f.args@, a + 1);
                    }
                    return Err(FfiError::SizeOverflow);
                }
                sz - rem + 8
            };
            proof {
                assert(padded == pad8(sz as int));
                lemma_pad8_bounds(sz as int);
            }
            if buf_len > usize::MAX - padded {
                proof {
                    lemma_sched_step(self.structs@, f.args@, a as int);
                    lemma_pad8_bounds(sz as int);
                    assert(args_total(self.structs@, f.args@.take(a + 1)) > usize::MAX);
                    lemma_args_total_mono(self.structs@, f.args@, a + 1);
                }
                return Err(FfiError::SizeOverflow);
            }
            let new_len = buf_len + padded;
            arg_locations.push(buf_len);
            match t {
                TypeDesc::Scalar(_) => {
                    write_locations.push(buf_len);
                    proof {
                        lemma_sched_step(self.structs@, f.args@, a as int);
                        assert(sched_entries(self.structs@, t, buf_len) =~= seq![buf_len]);
                        assert(write_locations@ =~= sched(self.structs@, f.args@.take(a as int))
                            + sched_entries(self.structs@, t, buf_len));
                    }
                },
                TypeDesc::Struct(j) => {
                    let flat = flatten_struct(&self.structs, j);
                    let ghost flat_spec = flat_offsets(self.structs@, j as int);
                    proof {
                        lemma_flat_bounds(self.structs@, j as int);
                        assert(sz == self.structs@[j as int].size);
                        assert forall|i: int| 0 <= i < flat_spec.len() implies #[trigger] flat_spec[i]
                            + buf_len <= usize::MAX by {
                            assert(flat_spec[i] <= self.structs@[j as int].size);
                        }
                    }
                    let fl = flat.len();
                    let ghost base_sched = write_locations@;
                    for m in 0..fl
                        invariant
                            fl == flat@.len(),
                            flat@ == flat_spec,
                            buf_len + padded <= usize::MAX,
                            forall|i: int|
                                0 <= i < flat_spec.len() ==> #[trigger] flat_spec[i] + buf_len
                                    <= usize::MAX,
                            write_locations@ == base_sched + flat_spec.take(m as int).map_values(
                                |x: usize| (x + buf_len) as usize,
                            ),
                    {
                        write_locations.push(buf_len + flat[m]);
                        proof {
                            assert(write_locations@ =~= base_sched + flat_spec.take(
                                m + 1,
                            ).map_values(|x: usize| (x + buf_len) as usize));
                        }
                    }
                    proof {
                        lemma_sched_step(self.structs@, f.args@, a as int);
                        assert(flat_spec.take(fl as int) =~= flat_spec);
                        assert(sched_entries(self.structs@, t, buf_len) == flat_spec.map_values(
                            |x: usize| (x + buf_len) as usize,
                        ));
                        assert(write_locations@ =~= sched(self.structs@, f.args@.take(a as int))
                            + sched_entries(self.structs@, t, buf_len));
                    }
                },
            }
            buf_len = new_len;
            proof {
                lemma_sched_step(self.structs@, f.args@, a as int);
                assert(buf_len == args_total(self.structs@, f.args@.take(a + 1)));
                assert(arg_locations@[a as int] == args_total(
                    self.structs@,
                    f.args@.take(a as int),
                ));
            }
        }
        proof {
            assert(f.args@.take(nargs as int) =~= f.args@);
        }
        let write_buf = zero_vec(buf_len);
        proof {
            assert(valid_type(self.structs@.len() as int, f.ret));
        }
        let ret = self.functions[fi].ret;
        let ret_size = self.type_size(ret);
        let read_buf = zero_vec(ret_size);
        let read_locations = match ret {
            TypeDesc::Scalar(_) => {
                let mut v: Vec<usize> = Vec::new();
                v.push(0);
                proof {
                    assert(v@ =~= read_sched(self.structs@, ret));
                }
                v
            },
            TypeDesc::Struct(j) => {
                let v = flatten_struct(&self.structs, j);
                proof {
                    assert(v@ =~= read_sched(self.structs@, ret));
                }
                v
            },
        };
        let fn_name = name.clone();
        self.target = Some(
            Target {
                arg_locations,
                write_idx: 0,
                write_buf,
                write_locations,
                read_idx: 0,
                read_buf,
                read_locations,
                fn_name,
            },
        );
        Ok(())
    }

    /// Assembles everything the native invocation needs from the active
    /// target and its function. Fails fast when no target is set, never
    /// silently no-ops; the target's function is always found again because
    /// the registry only ever grows.
    pub fn begin_call(&self) -> (r: Result<CallPlan, FfiError>)
        requires
            self.wf(),
        ensures
            r is Ok <==> (self.target matches Some(t) && lookup_fn(self.functions@, t.fn_name@)
                is Some),
            (match r {
                Ok(p) => self.target matches Some(t) && lookup_fn(self.functions@, t.fn_name@)
                    matches Some(fi) && {
                    let f = self.functions@[fi];
                    &&& p.addr == f.addr
                    &&& p.args@ == f.args@
                    &&& p.ret == f.ret
                    &&& p.arg_locations@ == t.arg_locations@
                    &&& p.arg_bytes@ == t.write_buf@
                    &&& p.ret_size == t.read_buf@.len()
                },
                Err(e) => {
                    &&& (e == FfiError::NoTarget <==> self.target is None)
                    &&& (e == FfiError::UnknownFunction <==> (self.target matches Some(t)
                        && lookup_fn(self.functions@, t.fn_name@) is None))
                },
            }),
    {
        match &self.target {
            None => Err(FfiError::NoTarget),
            Some(t) => match self.find_function(&t.fn_name) {
                None => Err(FfiError::UnknownFunction),
                Some(fi) => {
                    let args = copy_vec(&self.functions[fi].args);
                    let arg_locations = copy_vec(&t.arg_locations);
                    let arg_bytes = copy_vec(&t.write_buf);
                    Ok(
                        CallPlan {
                            addr: self.functions[fi].addr,
                            args,
                            ret: self.functions[fi].ret,
                            arg_locations,
                            arg_bytes,
                            ret_size: t.read_buf.len(),
                        },
                    )
                },
            },
        }
    }

    /// Accepts the bytes the native call produced for the return value:
    /// they overwrite the return buffer, and the read cursor rewinds to the
    /// first leaf so the results can be read out from the start.
    pub fn complete_call(&mut self, ret_bytes: &Vec<u8>) -> (r: Result<(), FfiError>)
        requires
            old(self).wf(),
        ensures
            final(self).wf(),
            tables_unchanged(*old(self), *final(self)),
            r is Ok <==> (old(self).target matches Some(t0) && ret_bytes@.len()
                == t0.read_buf@.len()),
            (match r {
                Ok(_) => match (old(self).target, final(self).target) {
                    (Some(t0), Some(t1)) => {
                        &&& t1.read_buf@ == ret_bytes@
                        &&& t1.read_idx == 0
                        &&& t1.read_locations == t0.read_locations
                        &&& t1.write_buf == t0.write_buf
                        &&& t1.write_idx == t0.write_idx
                        &&& t1.write_locations == t0.write_locations
                        &&& t1.arg_locations == t0.arg_locations
                        &&& t1.fn_name == t0.fn_name
                    },
                    _ => false,
                },
                Err(e) => *final(self) == *old(self) && {
                    &&& (e == FfiError::NoTarget <==> old(self).target is None)
                    &&& (e == FfiError::ReturnSizeMismatch <==> (old(self).target matches Some(t0)
                        && ret_bytes@.len() != t0.read_buf@.len()))
                },
            }),
    {
        match &mut self.target {
            None => Err(FfiError::NoTarget),
            Some(t) => {
                if ret_bytes.len() != t.read_buf.len() {
                    return Err(FfiError::ReturnSizeMismatch);
                }
                store_bytes(&mut t.read_buf, 0, ret_bytes);
                proof {
                    assert(splice_bytes(old(self).target->Some_0.read_buf@, 0, ret_bytes@)
                        =~= ret_bytes@);
                }
                t.read_idx = 0;
                Ok(())
            },
        }
    }
}

} // verus!
