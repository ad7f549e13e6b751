//! Building a base component's buffer with flatbuffers' builder, and the
//! round trip: a buffer built for type id `k` reads back `k`.
//!
//! The builder writes from the end of its buffer towards the front, so every
//! position below is counted from the end of the data written so far: what
//! was written stays where it is, counted that way, while more is written in
//! front of it.
use crate::schema::{
    base_component_id, base_component_readable, field_offset, i32_at, root_at, table_slot_readable,
    u16_at, u32_at, u64_at, vtable_at, BaseComponent, BaseComponentArgs, VT_ID,
};
use flatbuffers::{FlatBufferBuilder, TableFinishedWIPOffset, WIPOffset};
use vstd::prelude::*;

verus! {

// ---------------------------------------------------------------------------
// The builder, as far as these contracts speak of it
// ---------------------------------------------------------------------------

/// flatbuffers' builder, held opaque.
#[verifier::external_type_specification]
#[verifier::external_body]
pub struct ExFlatBufferBuilder<'fbb>(FlatBufferBuilder<'fbb>);

/// Name for the bytes a builder has written so far: its buffer from the head
/// to the end (what `unfinished_data` and, once finished, `finished_data`
/// give).
pub uninterp spec fn builder_data(fbb: FlatBufferBuilder) -> Seq<u8>;

/// Name for the fields of the table a builder has under construction: for
/// each vtable slot pushed, the position of the field's value counted from
/// the end of the data (the builder's `field_locs`).
pub uninterp spec fn builder_fields(fbb: FlatBufferBuilder) -> Map<u16, u32>;

/// Name for whether a builder has a table or vector under construction (its
/// `nested` flag).
pub uninterp spec fn builder_nested(fbb: FlatBufferBuilder) -> bool;

/// Name for whether a builder's buffer has been finished (its `finished`
/// flag).
pub uninterp spec fn builder_finished(fbb: FlatBufferBuilder) -> bool;

/// Name for the largest alignment a builder has written with (its
/// `min_align`), which the root offset is padded to when it finishes.
pub uninterp spec fn builder_min_align(fbb: FlatBufferBuilder) -> nat;

/// `b` ends with the bytes `tail`.
pub open spec fn ends_with(b: Seq<u8>, tail: Seq<u8>) -> bool {
    tail.len() <= b.len() && b.subrange(b.len() - tail.len(), b.len() as int) == tail
}

/// The largest of two numbers.
pub open spec fn max_nat(a: nat, b: nat) -> nat {
    if a >= b {
        a
    } else {
        b
    }
}

/// The table that starts `from_end` bytes before the end of `b` has its
/// vtable inside `b`, and the vtable's length in bytes is even.
pub open spec fn table_frame(b: Seq<u8>, from_end: int) -> bool {
    let loc = b.len() - from_end;
    let v = vtable_at(b, loc);
    &&& 4 <= from_end <= b.len()
    &&& 0 <= v
    &&& v + 4 <= b.len()
    &&& u16_at(b, v) % 2 == 0
    &&& v + u16_at(b, v) <= b.len()
}

/// The table that starts `from_end` bytes before the end of `b` holds the
/// fields `fields` (each slot's value lies at the position, counted from the
/// end, that `fields` gives) and no field at any other slot from 4 on.
pub open spec fn table_written(b: Seq<u8>, from_end: int, fields: Map<u16, u32>) -> bool {
    let loc = b.len() - from_end;
    &&& table_frame(b, from_end)
    &&& forall|s: u16| #[trigger]
        fields.contains_key(s) ==> s % 2 == 0 && 0 < fields[s] < from_end && field_offset(
            b,
            loc,
            s as int,
        ) == from_end - fields[s]
    &&& forall|s: u16|
        4 <= s && s % 2 == 0 && !fields.contains_key(s) ==> #[trigger] field_offset(
            b,
            loc,
            s as int,
        ) == 0
}

/// The 64-bit value `x` lies `from_end` bytes before the end of `b`.
pub open spec fn u64_written(b: Seq<u8>, from_end: int, x: u64) -> bool {
    8 <= from_end <= b.len() && u64_at(b, b.len() - from_end) == x
}

/// The table that starts `from_end` bytes before the end of `b` is a base
/// component whose type id reads as `id` (an absent id reads as 0).
pub open spec fn base_component_written(b: Seq<u8>, from_end: int, id: u64) -> bool {
    let loc = b.len() - from_end;
    let fo = field_offset(b, loc, VT_ID as int);
    &&& table_frame(b, from_end)
    &&& fo == 0 ==> id == 0
    &&& fo != 0 ==> loc + fo + 8 <= b.len() && u64_at(b, loc + fo) == id
}

/// The data of `b` is that of `a`, unchanged.
pub open spec fn same_data(a: FlatBufferBuilder, b: FlatBufferBuilder) -> bool {
    &&& builder_data(b) == builder_data(a)
    &&& builder_fields(b) == builder_fields(a)
    &&& builder_min_align(b) == builder_min_align(a)
}

/// Pushing the 64-bit value `x` at vtable slot `slot` took the builder from
/// `a` to `b`: `x` is written in front of the data, after at most 7 bytes of
/// padding, and the slot records where. The builder's alignment grows to that
/// of a 64-bit integer on the target (4 or 8 bytes).
pub open spec fn slot_pushed(a: FlatBufferBuilder, b: FlatBufferBuilder, slot: u16, x: u64) -> bool {
    let d = builder_data(a);
    let d2 = builder_data(b);
    &&& d.len() + 8 <= d2.len() < d.len() + 16
    &&& ends_with(d2, d)
    &&& u64_at(d2, 0) == x
    &&& builder_fields(b) == builder_fields(a).insert(slot, d2.len() as u32)
    &&& max_nat(builder_min_align(a), 4) <= builder_min_align(b) <= max_nat(builder_min_align(a), 8)
}

/// What `push_slot::<u64>(slot, x, default)` did, taking the builder from
/// `a` to `b`: a value other than the default is pushed; the default is
/// pushed or skipped (it is skipped unless the builder forces defaults).
pub open spec fn push_slot_step(
    a: FlatBufferBuilder,
    b: FlatBufferBuilder,
    slot: u16,
    x: u64,
    default: u64,
) -> bool {
    &&& builder_nested(b)
    &&& builder_finished(b) == builder_finished(a)
    &&& x != default ==> slot_pushed(a, b, slot, x)
    &&& slot_pushed(a, b, slot, x) || (x == default && b == a)
}

/// A table can be ended in builder `a`, started at `start`: a table is under
/// construction, every field lies after its start at an even slot from 4 on,
/// and the table, its vtable and the data stay within the sizes the format
/// allows.
pub open spec fn table_can_end(a: FlatBufferBuilder, start: u32) -> bool {
    let d = builder_data(a);
    let fields = builder_fields(a);
    &&& builder_nested(a)
    &&& start <= d.len()
    &&& d.len() + 8 - start <= 0xffff
    &&& d.len() + 8 + 0x10000 <= 0x7fff_ffff
    &&& forall|s: u16| #[trigger]
        fields.contains_key(s) ==> 4 <= s && s % 2 == 0 && s + 2 <= 0xffff && start < fields[s]
            <= d.len()
}

/// Ending a table took the builder from `a` to `b` and gave the table's
/// position `r`, counted from the end: the table and its vtable are written
/// in front of the data, and the table holds the fields pushed for it.
pub open spec fn table_ended(a: FlatBufferBuilder, b: FlatBufferBuilder, r: u32) -> bool {
    let d = builder_data(a);
    let d2 = builder_data(b);
    &&& !builder_nested(b)
    &&& builder_finished(b) == builder_finished(a)
    &&& builder_fields(b) == Map::<u16, u32>::empty()
    &&& builder_min_align(b) == max_nat(builder_min_align(a), 4)
    &&& ends_with(d2, d)
    &&& d.len() + 4 <= r <= d.len() + 7
    &&& r <= d2.len() <= r + 0x10000
    &&& table_written(d2, r as int, builder_fields(a))
}

// ---------------------------------------------------------------------------
// Outside calls
// ---------------------------------------------------------------------------

/// Calls `FlatBufferBuilder::new`: an empty builder, with nothing under
/// construction, not finished, and no alignment yet.
#[verifier::external_body]
fn builder_new() -> (r: FlatBufferBuilder<'static>)
    ensures
        builder_data(r).len() == 0,
        builder_fields(r).is_empty(),
        builder_nested(r) == false,
        builder_finished(r) == false,
        builder_min_align(r) == 0,
{
    FlatBufferBuilder::new()
}

/// Calls `FlatBufferBuilder::start_table`: the builder now has a table under
/// construction, and the result is the table's start, the length of the data
/// so far. Nothing else changes.
#[verifier::external_body]
fn builder_start_table(fbb: &mut FlatBufferBuilder) -> (r: u32)
    requires
        !builder_nested(*old(fbb)),
        builder_data(*old(fbb)).len() <= 0x7fff_ffff,
    ensures
        builder_nested(*final(fbb)),
        builder_finished(*final(fbb)) == builder_finished(*old(fbb)),
        same_data(*old(fbb), *final(fbb)),
        r == builder_data(*old(fbb)).len(),
{
    fbb.start_table().value()
}

/// Calls `FlatBufferBuilder::push_slot::<u64>`: as `push_slot_step` says. A
/// table must be under construction and the slot not yet pushed in it.
#[verifier::external_body]
fn builder_push_slot_u64(fbb: &mut FlatBufferBuilder, slot: u16, x: u64, default: u64)
    requires
        builder_nested(*old(fbb)),
        !builder_fields(*old(fbb)).contains_key(slot),
        builder_data(*old(fbb)).len() + 16 <= 0x7fff_ffff,
    ensures
        push_slot_step(*old(fbb), *final(fbb), slot, x, default),
{
    fbb.push_slot::<u64>(slot, x, default)
}

/// Calls `FlatBufferBuilder::end_table` on the table started at `start`:
/// the result is the table's position counted from the end, as
/// `table_ended` says.
#[verifier::external_body]
fn builder_end_table(fbb: &mut FlatBufferBuilder, start: u32) -> (r: u32)
    requires
        table_can_end(*old(fbb), start),
    ensures
        table_ended(*old(fbb), *final(fbb), r),
{
    fbb.end_table(WIPOffset::new(start)).value()
}

/// Calls `FlatBufferBuilder::finish` with the root table at `root` (counted
/// from the end) and no file identifier: the root's offset is written in
/// front of the data, after padding to the builder's alignment, so that the
/// buffer's root position is the table's. The builder is then finished.
#[verifier::external_body]
fn builder_finish(fbb: &mut FlatBufferBuilder, root: u32)
    requires
        !builder_finished(*old(fbb)),
        !builder_nested(*old(fbb)),
        1 <= builder_min_align(*old(fbb)),
        root <= builder_data(*old(fbb)).len(),
        builder_data(*old(fbb)).len() + 8 + builder_min_align(*old(fbb)) <= 0x7fff_ffff,
    ensures
        builder_finished(*final(fbb)),
        !builder_nested(*final(fbb)),
        ends_with(builder_data(*final(fbb)), builder_data(*old(fbb))),
        builder_data(*old(fbb)).len() + 4 <= builder_data(*final(fbb)).len()
            < builder_data(*old(fbb)).len() + 8 + builder_min_align(*old(fbb)),
        root_at(builder_data(*final(fbb))) == builder_data(*final(fbb)).len() - root,
{
    let root: WIPOffset<TableFinishedWIPOffset> = WIPOffset::new(root);
    fbb.finish(root, None)
}

/// Calls `FlatBufferBuilder::finish_size_prefixed` with the root table at
/// `root` (counted from the end) and no file identifier: the buffer then
/// begins with its size (not counting those four bytes) and then the root's
/// offset, counted from where it stands.
#[verifier::external_body]
fn builder_finish_size_prefixed(fbb: &mut FlatBufferBuilder, root: u32)
    requires
        !builder_finished(*old(fbb)),
        !builder_nested(*old(fbb)),
        1 <= builder_min_align(*old(fbb)),
        root <= builder_data(*old(fbb)).len(),
        builder_data(*old(fbb)).len() + 12 + builder_min_align(*old(fbb)) <= 0x7fff_ffff,
    ensures
        builder_finished(*final(fbb)),
        !builder_nested(*final(fbb)),
        ends_with(builder_data(*final(fbb)), builder_data(*old(fbb))),
        builder_data(*old(fbb)).len() + 8 <= builder_data(*final(fbb)).len()
            < builder_data(*old(fbb)).len() + 12 + builder_min_align(*old(fbb)),
        u32_at(builder_data(*final(fbb)), 0) == builder_data(*final(fbb)).len() - 4,
        4 + u32_at(builder_data(*final(fbb)), 4) == builder_data(*final(fbb)).len() - root,
{
    let root: WIPOffset<TableFinishedWIPOffset> = WIPOffset::new(root);
    fbb.finish_size_prefixed(root, None)
}

/// Calls `FlatBufferBuilder::finished_data` and copies the bytes: the data
/// written. The buffer must be finished.
#[verifier::external_body]
fn builder_finished_data(fbb: &FlatBufferBuilder) -> (r: Vec<u8>)
    requires
        builder_finished(*fbb),
    ensures
        r@ == builder_data(*fbb),
{
    fbb.finished_data().to_vec()
}

// ---------------------------------------------------------------------------
// What was written stays readable while more is written in front of it
// ---------------------------------------------------------------------------

proof fn lemma_byte_extends(b: Seq<u8>, b2: Seq<u8>, i: int)
    requires
        ends_with(b2, b),
        0 <= i < b.len(),
    ensures
        b2[i + (b2.len() - b.len())] == b[i],
{
    let d = b2.len() - b.len();
    assert(b2.subrange(d, b2.len() as int)[i] == b2[i + d]);
}

proof fn lemma_ends_with_trans(a: Seq<u8>, b: Seq<u8>, c: Seq<u8>)
    requires
        ends_with(b, a),
        ends_with(c, b),
    ensures
        ends_with(c, a),
{
    assert forall|i: int| 0 <= i < a.len() implies c.subrange(c.len() - a.len(), c.len() as int)[i]
        == a[i] by {
        lemma_byte_extends(a, b, i);
        lemma_byte_extends(b, c, i + (b.len() - a.len()));
    }
    assert(c.subrange(c.len() - a.len(), c.len() as int) =~= a);
}

proof fn lemma_u16_extends(b: Seq<u8>, b2: Seq<u8>, i: int)
    requires
        ends_with(b2, b),
        0 <= i,
        i + 2 <= b.len(),
    ensures
        u16_at(b2, i + (b2.len() - b.len())) == u16_at(b, i),
{
    lemma_byte_extends(b, b2, i);
    lemma_byte_extends(b, b2, i + 1);
}

proof fn lemma_u32_extends(b: Seq<u8>, b2: Seq<u8>, i: int)
    requires
        ends_with(b2, b),
        0 <= i,
        i + 4 <= b.len(),
    ensures
        u32_at(b2, i + (b2.len() - b.len())) == u32_at(b, i),
        i32_at(b2, i + (b2.len() - b.len())) == i32_at(b, i),
{
    lemma_byte_extends(b, b2, i);
    lemma_byte_extends(b, b2, i + 1);
    lemma_byte_extends(b, b2, i + 2);
    lemma_byte_extends(b, b2, i + 3);
}

proof fn lemma_u64_extends(b: Seq<u8>, b2: Seq<u8>, i: int)
    requires
        ends_with(b2, b),
        0 <= i,
        i + 8 <= b.len(),
    ensures
        u64_at(b2, i + (b2.len() - b.len())) == u64_at(b, i),
{
    lemma_u32_extends(b, b2, i);
    lemma_u32_extends(b, b2, i + 4);
}

proof fn lemma_frame_extends(b: Seq<u8>, b2: Seq<u8>, from_end: int)
    requires
        ends_with(b2, b),
        table_frame(b, from_end),
    ensures
        table_frame(b2, from_end),
        vtable_at(b2, b2.len() - from_end) == vtable_at(b, b.len() - from_end) + (b2.len() - b.len()),
        forall|s: int|
            0 <= s && s % 2 == 0 ==> #[trigger] field_offset(b2, b2.len() - from_end, s)
                == field_offset(b, b.len() - from_end, s),
{
    let d = b2.len() - b.len();
    let loc = b.len() - from_end;
    let v = vtable_at(b, loc);
    lemma_u32_extends(b, b2, loc);
    assert(loc + d == b2.len() - from_end);
    assert(vtable_at(b2, loc + d) == v + d);
    lemma_u16_extends(b, b2, v);
    assert forall|s: int| 0 <= s && s % 2 == 0 implies #[trigger] field_offset(
        b2,
        b2.len() - from_end,
        s,
    ) == field_offset(b, loc, s) by {
        if s < u16_at(b, v) {
            assert(s + 2 <= u16_at(b, v));
            lemma_u16_extends(b, b2, v + s);
        }
    }
}

/// A table written stays written, with the same fields, while more is
/// written in front of it.
pub proof fn lemma_table_written_extends(b: Seq<u8>, b2: Seq<u8>, from_end: int, fields: Map<u16, u32>)
    requires
        ends_with(b2, b),
        table_written(b, from_end, fields),
    ensures
        table_written(b2, from_end, fields),
{
    lemma_frame_extends(b, b2, from_end);
    assert forall|s: u16| #[trigger] fields.contains_key(s) implies s % 2 == 0 && 0 < fields[s] < from_end
        && field_offset(b2, b2.len() - from_end, s as int) == from_end - fields[s] by {
        assert(field_offset(b2, b2.len() - from_end, s as int) == field_offset(b, b.len() - from_end, s as int));
    }
    assert forall|s: u16| 4 <= s && s % 2 == 0 && !fields.contains_key(s) implies #[trigger] field_offset(
        b2,
        b2.len() - from_end,
        s as int,
    ) == 0 by {
        assert(field_offset(b2, b2.len() - from_end, s as int) == field_offset(b, b.len() - from_end, s as int));
    }
}

/// A value written stays written while more is written in front of it.
pub proof fn lemma_u64_written_extends(b: Seq<u8>, b2: Seq<u8>, from_end: int, x: u64)
    requires
        ends_with(b2, b),
        u64_written(b, from_end, x),
    ensures
        u64_written(b2, from_end, x),
{
    lemma_u64_extends(b, b2, b.len() - from_end);
}

/// A base component written stays written, with the same type id, while
/// more is written in front of it.
pub proof fn lemma_base_component_written_extends(b: Seq<u8>, b2: Seq<u8>, from_end: int, id: u64)
    requires
        ends_with(b2, b),
        base_component_written(b, from_end, id),
    ensures
        base_component_written(b2, from_end, id),
{
    lemma_frame_extends(b, b2, from_end);
    let loc = b.len() - from_end;
    let fo = field_offset(b, loc, VT_ID as int);
    assert(field_offset(b2, b2.len() - from_end, VT_ID as int) == fo);
    if fo != 0 {
        lemma_u64_extends(b, b2, loc + fo);
    }
}

/// The round trip of a base component: a buffer whose root is a base
/// component written with type id `id` can be read as a base component, and
/// its type id reads as `id`. The buffer must hold its root position and stay
/// within the format's size.
pub proof fn lemma_base_component_reads_back(b: Seq<u8>, root: int, id: u64)
    requires
        base_component_written(b, root, id),
        4 <= b.len() <= 0x7fff_ffff,
        root_at(b) == b.len() - root,
    ensures
        base_component_readable(b),
        base_component_id(b) == id,
{
    let loc = b.len() - root;
    let v = vtable_at(b, loc);
    assert(VT_ID as int == 4);
    if 4 < u16_at(b, v) {
        assert(6 <= u16_at(b, v));
    }
    assert(table_slot_readable(b, loc, VT_ID as int, 8));
}

// ---------------------------------------------------------------------------
// Building a base component
// ---------------------------------------------------------------------------

/// The builder of a base component's table: where the table started, in a
/// builder that the caller hands to each step.
pub struct BaseComponentBuilder {
    start_: u32,
}

impl View for BaseComponentBuilder {
    type V = u32;

    /// The table's start: the length of the builder's data when it started.
    closed spec fn view(&self) -> u32 {
        self.start_
    }
}

impl BaseComponentBuilder {
    /// Starts a base component's table in `fbb`.
    pub fn new(fbb: &mut FlatBufferBuilder) -> (r: Self)
        requires
            !builder_nested(*old(fbb)),
            builder_data(*old(fbb)).len() <= 0x7fff_ffff,
        ensures
            builder_nested(*final(fbb)),
            builder_finished(*final(fbb)) == builder_finished(*old(fbb)),
            same_data(*old(fbb), *final(fbb)),
            r@ == builder_data(*old(fbb)).len(),
    {
        let start = builder_start_table(fbb);
        BaseComponentBuilder { start_: start }
    }

    /// Adds the type id `id` to the table; an id of 0, the default, may be
    /// left out.
    pub fn add_id(&self, fbb: &mut FlatBufferBuilder, id: u64)
        requires
            builder_nested(*old(fbb)),
            !builder_fields(*old(fbb)).contains_key(VT_ID),
            builder_data(*old(fbb)).len() + 16 <= 0x7fff_ffff,
        ensures
            push_slot_step(*old(fbb), *final(fbb), VT_ID, id, 0),
    {
        builder_push_slot_u64(fbb, VT_ID, id, 0);
    }

    /// Ends the table; the result is its position counted from the end of
    /// the data.
    pub fn finish(self, fbb: &mut FlatBufferBuilder) -> (r: u32)
        requires
            table_can_end(*old(fbb), self@),
        ensures
            table_ended(*old(fbb), *final(fbb), r),
    {
        builder_end_table(fbb, self.start_)
    }
}

impl<'a> BaseComponent<'a> {
    /// Writes a base component with the type id of `args` into `fbb`: the
    /// result is the table's position counted from the end of the data, and
    /// the table reads back that id. The builder must have nothing under
    /// construction, and room for the table.
    pub fn create(fbb: &mut FlatBufferBuilder, args: &BaseComponentArgs) -> (r: u32)
        requires
            !builder_nested(*old(fbb)),
            builder_fields(*old(fbb)).is_empty(),
            builder_data(*old(fbb)).len() + 0x10020 <= 0x7fff_ffff,
        ensures
            !builder_nested(*final(fbb)),
            builder_finished(*final(fbb)) == builder_finished(*old(fbb)),
            builder_fields(*final(fbb)).is_empty(),
            4 <= builder_min_align(*final(fbb)) <= max_nat(builder_min_align(*old(fbb)), 8),
            ends_with(builder_data(*final(fbb)), builder_data(*old(fbb))),
            r <= builder_data(*final(fbb)).len() <= builder_data(*old(fbb)).len() + 0x10020,
            base_component_written(builder_data(*final(fbb)), r as int, args.id),
    {
        let ghost f0 = *fbb;
        let builder = BaseComponentBuilder::new(fbb);
        let ghost f1 = *fbb;
        builder.add_id(fbb, args.id);
        let ghost f2 = *fbb;
        proof {
            assert(builder_fields(f1).dom() =~= Set::<u16>::empty());
            assert(builder_fields(f1) =~= Map::<u16, u32>::empty());
            if slot_pushed(f1, f2, VT_ID, args.id) {
                assert(u64_written(builder_data(f2), builder_data(f2).len() as int, args.id));
            }
        }
        let r = builder.finish(fbb);
        proof {
            let d2 = builder_data(f2);
            let d3 = builder_data(*fbb);
            let fields = builder_fields(f2);
            let loc = d3.len() - r;
            assert(table_written(d3, r as int, fields));
            if fields.contains_key(VT_ID) {
                assert(slot_pushed(f1, f2, VT_ID, args.id));
                lemma_u64_written_extends(d2, d3, d2.len() as int, args.id);
                assert(field_offset(d3, loc, VT_ID as int) == r - d2.len());
                assert(loc + (r - d2.len()) == d3.len() - d2.len());
            } else {
                assert(!slot_pushed(f1, f2, VT_ID, args.id));
                assert(field_offset(d3, loc, VT_ID as int) == 0);
            }
            assert(builder_fields(*fbb).dom() =~= Set::<u16>::empty());
            if !slot_pushed(f1, f2, VT_ID, args.id) {
                assert(d2.subrange(0, d2.len() as int) =~= d2);
            }
            lemma_ends_with_trans(builder_data(f1), d2, d3);
        }
        r
    }
}

/// Finishes `fbb` with the base component at `root` (counted from the end)
/// as its root. The buffer must not be finished yet, have nothing under
/// construction, have written something aligned, and have room for the root
/// offset.
pub fn finish_base_component_buffer(fbb: &mut FlatBufferBuilder, root: u32)
    requires
        !builder_finished(*old(fbb)),
        !builder_nested(*old(fbb)),
        1 <= builder_min_align(*old(fbb)),
        root <= builder_data(*old(fbb)).len(),
        builder_data(*old(fbb)).len() + 8 + builder_min_align(*old(fbb)) <= 0x7fff_ffff,
    ensures
        builder_finished(*final(fbb)),
        ends_with(builder_data(*final(fbb)), builder_data(*old(fbb))),
        builder_data(*final(fbb)).len() < builder_data(*old(fbb)).len() + 8 + builder_min_align(
            *old(fbb),
        ),
        builder_data(*final(fbb)).len() >= 4,
        root_at(builder_data(*final(fbb))) == builder_data(*final(fbb)).len() - root,
{
    builder_finish(fbb, root);
}

/// Finishes `fbb` with the base component at `root` (counted from the end)
/// as its root, the buffer beginning with its size. The same conditions hold
/// as for `finish_base_component_buffer`.
pub fn finish_size_prefixed_base_component_buffer(fbb: &mut FlatBufferBuilder, root: u32)
    requires
        !builder_finished(*old(fbb)),
        !builder_nested(*old(fbb)),
        1 <= builder_min_align(*old(fbb)),
        root <= builder_data(*old(fbb)).len(),
        builder_data(*old(fbb)).len() + 12 + builder_min_align(*old(fbb)) <= 0x7fff_ffff,
    ensures
        builder_finished(*final(fbb)),
        ends_with(builder_data(*final(fbb)), builder_data(*old(fbb))),
        builder_data(*final(fbb)).len() < builder_data(*old(fbb)).len() + 12 + builder_min_align(
            *old(fbb),
        ),
        builder_data(*final(fbb)).len() >= 8,
        u32_at(builder_data(*final(fbb)), 0) == builder_data(*final(fbb)).len() - 4,
        4 + u32_at(builder_data(*final(fbb)), 4) == builder_data(*final(fbb)).len() - root,
{
    builder_finish_size_prefixed(fbb, root);
}

/// The buffer of a base component with type id `id`, built with a fresh
/// builder and finished with it as the root: it reads back as a base
/// component whose type id is `id`.
pub fn build_base_component(id: u64) -> (r: Vec<u8>)
    ensures
        base_component_readable(r@),
        base_component_id(r@) == id,
{
    let mut fbb = builder_new();
    proof {
        assert(builder_fields(fbb).dom() =~= Set::<u16>::empty());
    }
    let args = BaseComponentArgs { id };
    let root = BaseComponent::create(&mut fbb, &args);
    let ghost built = builder_data(fbb);
    finish_base_component_buffer(&mut fbb, root);
    let bytes = builder_finished_data(&fbb);
    proof {
        lemma_base_component_written_extends(built, bytes@, root as int, id);
        lemma_base_component_reads_back(bytes@, root as int, id);
    }
    bytes
}

} // verus!
