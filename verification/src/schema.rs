//! The component schema's runtime side: the base component that every
//! component buffer starts with, the component types known to this build,
//! and the parser that picks a component's type from its type id.
//!
//! Buffers are flatbuffers: a buffer begins with the 32-bit offset of its root
//! table; a table begins with the signed 32-bit distance back to its vtable;
//! a vtable holds its own size in bytes, the table's size, and then one 16-bit
//! offset per field (0 for a field that is absent). All integers are
//! little-endian.
use vstd::prelude::*;

verus! {

// ---------------------------------------------------------------------------
// Reading integers from a buffer
// ---------------------------------------------------------------------------

/// The unsigned 16-bit integer at `i`.
pub open spec fn u16_at(b: Seq<u8>, i: int) -> int {
    b[i] + 256 * b[i + 1]
}

/// The unsigned 32-bit integer at `i`.
pub open spec fn u32_at(b: Seq<u8>, i: int) -> int {
    b[i] + 256 * b[i + 1] + 65536 * b[i + 2] + 16777216 * b[i + 3]
}

/// The signed 32-bit integer at `i`.
pub open spec fn i32_at(b: Seq<u8>, i: int) -> int {
    let u = u32_at(b, i);
    if u >= 0x8000_0000 {
        u - 0x1_0000_0000
    } else {
        u
    }
}

/// The unsigned 64-bit integer at `i`.
pub open spec fn u64_at(b: Seq<u8>, i: int) -> int {
    u32_at(b, i) + 0x1_0000_0000 * u32_at(b, i + 4)
}

/// The position of a table's vtable.
pub open spec fn vtable_at(b: Seq<u8>, loc: int) -> int {
    loc - i32_at(b, loc)
}

/// The offset, within the table at `loc`, of the field whose vtable entry is
/// at byte `slot` of the vtable; 0 when the field is absent.
pub open spec fn field_offset(b: Seq<u8>, loc: int, slot: int) -> int {
    let v = vtable_at(b, loc);
    if slot >= u16_at(b, v) {
        0
    } else {
        u16_at(b, v + slot)
    }
}

/// The table at `loc` can be asked for the field at vtable byte `slot`, a
/// scalar of `size` bytes: the table's vtable distance, the vtable's size,
/// the field's entry and the field itself all lie in the buffer, and the
/// vtable's position is computed without leaving the signed 32-bit range.
pub open spec fn table_slot_readable(b: Seq<u8>, loc: int, slot: int, size: int) -> bool {
    &&& 0 <= loc
    &&& loc + 4 <= b.len()
    &&& loc <= 0x7fff_ffff
    &&& -0x8000_0000 <= vtable_at(b, loc) <= 0x7fff_ffff
    &&& 0 <= vtable_at(b, loc)
    &&& vtable_at(b, loc) + 2 <= b.len()
    &&& slot < u16_at(b, vtable_at(b, loc)) ==> {
        &&& vtable_at(b, loc) + slot + 2 <= b.len()
        &&& field_offset(b, loc, slot) != 0 ==> loc + field_offset(b, loc, slot) + size <= b.len()
    }
}

/// The 64-bit field at vtable byte `slot` of the table at `loc`, or `default`
/// when the table does not hold it.
pub open spec fn table_u64_field(b: Seq<u8>, loc: int, slot: int, default: u64) -> u64 {
    if field_offset(b, loc, slot) == 0 {
        default
    } else {
        u64_at(b, loc + field_offset(b, loc, slot)) as u64
    }
}

/// The position of the buffer's root table.
pub open spec fn root_at(b: Seq<u8>) -> int {
    u32_at(b, 0)
}

// ---------------------------------------------------------------------------
// Outside calls
// ---------------------------------------------------------------------------

/// Calls `flatbuffers::Table::get::<u64>` on the table at `loc` of `buf`: the
/// 64-bit field whose vtable entry is at byte `slot`, or `default` when the
/// field is absent. The table must be readable as `table_slot_readable`
/// says; otherwise the reads leave the buffer.
#[verifier::external_body]
fn table_get_u64(buf: &[u8], loc: usize, slot: u16, default: u64) -> (r: Option<u64>)
    requires
        table_slot_readable(buf@, loc as int, slot as int, 8),
    ensures
        r == Some(table_u64_field(buf@, loc as int, slot as int, default)),
{
    flatbuffers::Table::new(buf, loc).get::<u64>(slot, Some(default))
}

// ---------------------------------------------------------------------------
// Tables and the base component
// ---------------------------------------------------------------------------

/// A table in a buffer: the buffer and the table's position in it.
#[derive(Clone, Copy)]
pub struct TableRef<'a> {
    pub buf: &'a [u8],
    pub loc: usize,
}

/// The root table of `buf`, whose position the buffer's first four bytes
/// give. The buffer must hold those four bytes.
pub fn root_table<'a>(buf: &'a [u8]) -> (r: TableRef<'a>)
    requires
        buf@.len() >= 4,
    ensures
        r.buf@ == buf@,
        r.loc == root_at(buf@),
{
    let b0 = buf[0] as usize;
    let b1 = buf[1] as usize;
    let b2 = buf[2] as usize;
    let b3 = buf[3] as usize;
    let loc: u64 = (b0 as u64) + 256 * (b1 as u64) + 65536 * (b2 as u64) + 16777216 * (b3 as u64);
    TableRef { buf, loc: loc as usize }
}

/// The byte of a base component's vtable that holds the offset of its id.
pub const VT_ID: u16 = 4;

/// The arguments a base component is built from: its type id.
pub struct BaseComponentArgs {
    pub id: u64,
}

impl Default for BaseComponentArgs {
    /// Type id 0.
    fn default() -> (r: Self)
        ensures
            r.id == 0,
    {
        BaseComponentArgs { id: 0 }
    }
}

/// The base component that every component buffer starts with: a table
/// whose one field is the component's type id.
#[derive(Clone, Copy)]
pub struct BaseComponent<'a> {
    pub _tab: TableRef<'a>,
}

impl<'a> BaseComponent<'a> {
    /// The base component whose table is `table`.
    pub fn init_from_table(table: TableRef<'a>) -> (r: Self)
        ensures
            r._tab == table,
    {
        BaseComponent { _tab: table }
    }

    /// The component's type id, 0 when the table does not hold one. The table
    /// must be readable for its id field.
    pub fn id(&self) -> (r: u64)
        requires
            table_slot_readable(self._tab.buf@, self._tab.loc as int, VT_ID as int, 8),
        ensures
            r == table_u64_field(self._tab.buf@, self._tab.loc as int, VT_ID as int, 0),
    {
        match table_get_u64(self._tab.buf, self._tab.loc, VT_ID, 0) {
            Some(id) => id,
            None => 0,
        }
    }
}

/// The base component at the root of `buf`. The buffer must hold the root's
/// position.
pub fn get_root_as_base_component<'a>(buf: &'a [u8]) -> (r: BaseComponent<'a>)
    requires
        buf@.len() >= 4,
    ensures
        r._tab.buf@ == buf@,
        r._tab.loc == root_at(buf@),
{
    BaseComponent::init_from_table(root_table(buf))
}

/// The base component at the root of a buffer that begins with its size: the
/// root's position is given by the four bytes after the size, counted from
/// there. The buffer must hold those eight bytes, and the position must fit
/// a `usize`.
pub fn get_size_prefixed_root_as_base_component<'a>(buf: &'a [u8]) -> (r: BaseComponent<'a>)
    requires
        buf@.len() >= 8,
        4 + u32_at(buf@, 4) <= usize::MAX,
    ensures
        r._tab.buf@ == buf@,
        r._tab.loc == 4 + u32_at(buf@, 4),
{
    let b0 = buf[4] as usize;
    let b1 = buf[5] as usize;
    let b2 = buf[6] as usize;
    let b3 = buf[7] as usize;
    let loc: u64 = 4 + (b0 as u64) + 256 * (b1 as u64) + 65536 * (b2 as u64) + 16777216 * (b3 as u64);
    BaseComponent::init_from_table(TableRef { buf, loc: loc as usize })
}

/// A buffer whose root is a base component that can be asked for its id.
pub open spec fn base_component_readable(b: Seq<u8>) -> bool {
    b.len() >= 4 && table_slot_readable(b, root_at(b), VT_ID as int, 8)
}

/// The type id of the base component at the root of a readable buffer.
pub open spec fn base_component_id(b: Seq<u8>) -> u64 {
    table_u64_field(b, root_at(b), VT_ID as int, 0)
}

// ---------------------------------------------------------------------------
// The component types of this build
// ---------------------------------------------------------------------------

/// A component read from a buffer, by type: the table at the buffer's root,
/// or `Unknown` for a type id this build does not know.
pub enum Types<'a> {
    SecondComponent(TableRef<'a>),
    TestComponent(TableRef<'a>),
    Unknown,
}

/// The component types of this build, in the order of their type ids.
#[derive(Debug, Clone, Copy, PartialEq, Eq, Structural)]
pub enum TypeIds {
    SecondComponent,
    TestComponent,
    Unknown,
}

/// The type id of each component type: its position in `TypeIds`.
pub open spec fn type_id_value(t: TypeIds) -> u64 {
    match t {
        TypeIds::SecondComponent => 0,
        TypeIds::TestComponent => 1,
        TypeIds::Unknown => 2,
    }
}

/// What `parse_type` gives for type id `id` and a buffer `buf`.
pub open spec fn parsed_type<'a>(id: u64, buf: &'a [u8], r: Types<'a>) -> bool {
    match r {
        Types::SecondComponent(t) => id == 0 && t.buf@ == buf@ && t.loc == root_at(buf@),
        Types::TestComponent(t) => id == 1 && t.buf@ == buf@ && t.loc == root_at(buf@),
        Types::Unknown => id != 0 && id != 1,
    }
}

/// The component in `buf` read as the type with id `id`: the table at the
/// buffer's root, of that type, or `Unknown` when the id is not 0 or 1. For a
/// known type the buffer must hold the root's position.
pub fn parse_type<'a>(id: u64, buf: &'a [u8]) -> (r: Types<'a>)
    requires
        id == 0 || id == 1 ==> buf@.len() >= 4,
    ensures
        parsed_type(id, buf, r),
{
    if id == 0 {
        Types::SecondComponent(root_table(buf))
    } else if id == 1 {
        Types::TestComponent(root_table(buf))
    } else {
        Types::Unknown
    }
}

/// The component in `buf` read as the type its base component names. The
/// buffer's root must be a base component that can be asked for its id.
pub fn parse_base_component<'a>(buf: &'a [u8]) -> (r: Types<'a>)
    requires
        base_component_readable(buf@),
    ensures
        parsed_type(base_component_id(buf@), buf, r),
{
    let base = get_root_as_base_component(buf);
    parse_type(base.id(), buf)
}

// ---------------------------------------------------------------------------
// Checking a buffer before reading it
// ---------------------------------------------------------------------------

pub(crate) fn read_u16(buf: &[u8], i: usize) -> (r: u16)
    requires
        i + 2 <= buf@.len(),
    ensures
        r as int == u16_at(buf@, i as int),
{
    (buf[i] as u16) + 256 * (buf[i + 1] as u16)
}

pub(crate) fn read_u32(buf: &[u8], i: usize) -> (r: u32)
    requires
        i + 4 <= buf@.len(),
    ensures
        r as int == u32_at(buf@, i as int),
{
    (buf[i] as u32) + 256 * (buf[i + 1] as u32) + 65536 * (buf[i + 2] as u32) + 16777216 * (buf[i
        + 3] as u32)
}

pub(crate) fn read_i32(buf: &[u8], i: usize) -> (r: i64)
    requires
        i + 4 <= buf@.len(),
    ensures
        r as int == i32_at(buf@, i as int),
{
    let u = read_u32(buf, i) as i64;
    if u >= 0x8000_0000 {
        u - 0x1_0000_0000
    } else {
        u
    }
}

/// Whether the table at `loc` can be asked for the scalar field of `size`
/// bytes at vtable byte `slot`, as `table_slot_readable` says.
pub fn table_readable(buf: &[u8], loc: u64, slot: u16, size: u64) -> (r: bool)
    requires
        size <= u32::MAX,
    ensures
        r == table_slot_readable(buf@, loc as int, slot as int, size as int),
{
    let len = buf.len() as u64;
    if loc > 0x7fff_ffff || loc + 4 > len {
        return false;
    }
    let s = read_i32(buf, loc as usize);
    let v: i64 = (loc as i64) - s;
    if v < 0 || v > 0x7fff_ffff {
        return false;
    }
    let v = v as u64;
    if v + 2 > len {
        return false;
    }
    let n = read_u16(buf, v as usize) as u64;
    if (slot as u64) < n {
        if v + (slot as u64) + 2 > len {
            return false;
        }
        let o = read_u16(buf, (v + (slot as u64)) as usize) as u64;
        if o != 0 && loc + o + size > len {
            return false;
        }
    }
    true
}

/// The component in `buf` read as the type its base component names, or
/// `None` when the buffer's root is not a base component that can be asked
/// for its id.
pub fn checked_parse_base_component<'a>(buf: &'a [u8]) -> (r: Option<Types<'a>>)
    ensures
        r is Some <==> base_component_readable(buf@),
        r matches Some(t) ==> parsed_type(base_component_id(buf@), buf, t),
{
    if buf.len() < 4 {
        return None;
    }
    let loc = read_u32(buf, 0) as u64;
    if !table_readable(buf, loc, VT_ID, 8) {
        return None;
    }
    Some(parse_base_component(buf))
}

/// The parser and the type-id enum agree: the type id of each known type
/// reads as that type, and every other id reads as `Unknown`.
pub proof fn lemma_type_ids_agree<'a>(id: u64, buf: &'a [u8], r: Types<'a>)
    requires
        parsed_type(id, buf, r),
    ensures
        id == type_id_value(TypeIds::SecondComponent) <==> r is SecondComponent,
        id == type_id_value(TypeIds::TestComponent) <==> r is TestComponent,
        id != type_id_value(TypeIds::SecondComponent) && id != type_id_value(TypeIds::TestComponent)
            <==> r is Unknown,
{
}

} // verus!
