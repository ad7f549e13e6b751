//! Reading the parts of a compiled (binary) flatbuffers schema that the code
//! generator needs: the name of the root table, and the names of the
//! schema's objects in order. A compiled schema is a flatbuffer whose root is
//! a `Schema` table; its objects are `Object` tables, each with a name.
use crate::schema::{
    field_offset, i32_at, read_i32, read_u16, read_u32, root_at, table_readable,
    table_slot_readable, u16_at, u32_at, vtable_at,
};
use std::collections::HashMap;
use vstd::prelude::*;
use vstd::utf8::{encode_utf8, valid_utf8};

verus! {

/// The vtable byte of a schema's list of objects.
pub const SCHEMA_OBJECTS: u16 = 4;

/// The vtable byte of a schema's root table.
pub const SCHEMA_ROOT_TABLE: u16 = 12;

/// The vtable byte of an object's name.
pub const OBJECT_NAME: u16 = 4;

// ---------------------------------------------------------------------------
// Offsets, vectors and strings in a buffer
// ---------------------------------------------------------------------------

/// Where the offset field at vtable byte `slot` of the table at `loc` points:
/// the field's position plus the offset stored there.
pub open spec fn offset_target(b: Seq<u8>, loc: int, slot: int) -> int {
    let pos = loc + field_offset(b, loc, slot);
    pos + u32_at(b, pos)
}

/// The offset field at vtable byte `slot` of the table at `loc` can be
/// followed: its vtable entry and its four bytes lie in the buffer, and, when
/// present, where it points fits a `usize`.
pub open spec fn offset_readable(b: Seq<u8>, loc: int, slot: int) -> bool {
    &&& table_slot_readable(b, loc, slot, 4)
    &&& field_offset(b, loc, slot) != 0 ==> offset_target(b, loc, slot) <= usize::MAX
}

/// A byte vector (a string's bytes) at `p`: its 32-bit length and its bytes
/// lie in the buffer.
pub open spec fn byte_vector_readable(b: Seq<u8>, p: int) -> bool {
    0 <= p && p + 4 <= b.len() && p + 4 + u32_at(b, p) <= b.len()
}

/// The bytes of the byte vector at `p`.
pub open spec fn byte_vector_at(b: Seq<u8>, p: int) -> Seq<u8> {
    b.subrange(p + 4, p + 4 + u32_at(b, p))
}

/// The name of the object table at `t` can be read: it is present, its bytes
/// lie in the buffer, and they are valid UTF-8.
pub open spec fn object_name_readable(b: Seq<u8>, t: int) -> bool {
    &&& offset_readable(b, t, OBJECT_NAME as int)
    &&& field_offset(b, t, OBJECT_NAME as int) != 0
    &&& byte_vector_readable(b, offset_target(b, t, OBJECT_NAME as int))
    &&& valid_utf8(byte_vector_at(b, offset_target(b, t, OBJECT_NAME as int)))
}

/// The bytes of the name of the object table at `t`.
pub open spec fn object_name_bytes(b: Seq<u8>, t: int) -> Seq<u8> {
    byte_vector_at(b, offset_target(b, t, OBJECT_NAME as int))
}

/// The schema's root table can be asked for its root object, and that
/// object, if there is one, for its name.
pub open spec fn root_name_readable(b: Seq<u8>) -> bool {
    &&& b.len() >= 4
    &&& offset_readable(b, root_at(b), SCHEMA_ROOT_TABLE as int)
    &&& field_offset(b, root_at(b), SCHEMA_ROOT_TABLE as int) != 0 ==> object_name_readable(
        b,
        offset_target(b, root_at(b), SCHEMA_ROOT_TABLE as int),
    )
}

/// The bytes of the root object's name, when the schema names a root object.
pub open spec fn root_name_bytes(b: Seq<u8>) -> Option<Seq<u8>> {
    if field_offset(b, root_at(b), SCHEMA_ROOT_TABLE as int) == 0 {
        None
    } else {
        Some(object_name_bytes(b, offset_target(b, root_at(b), SCHEMA_ROOT_TABLE as int)))
    }
}

/// The position of the schema's list of objects.
pub open spec fn objects_at(b: Seq<u8>) -> int {
    offset_target(b, root_at(b), SCHEMA_OBJECTS as int)
}

/// The number of the schema's objects.
pub open spec fn object_count(b: Seq<u8>) -> int {
    u32_at(b, objects_at(b))
}

/// The position of the schema's `i`-th object table.
pub open spec fn object_at(b: Seq<u8>, i: int) -> int {
    let e = objects_at(b) + 4 + 4 * i;
    e + u32_at(b, e)
}

/// The schema's list of objects is present and lies in the buffer, and every
/// object's name can be read.
pub open spec fn objects_readable(b: Seq<u8>) -> bool {
    &&& b.len() >= 4
    &&& offset_readable(b, root_at(b), SCHEMA_OBJECTS as int)
    &&& field_offset(b, root_at(b), SCHEMA_OBJECTS as int) != 0
    &&& objects_at(b) + 4 + 4 * object_count(b) <= b.len()
    &&& forall|i: int|
        0 <= i < object_count(b) ==> #[trigger] object_at(b, i) <= usize::MAX && object_name_readable(
            b,
            object_at(b, i),
        )
}

// ---------------------------------------------------------------------------
// Outside calls
// ---------------------------------------------------------------------------

/// Calls `flatbuffers::Table::get::<ForwardsUOffset<Table>>` on the table at
/// `loc`: where the offset field at vtable byte `slot` points, or `None` when
/// the field is absent.
#[verifier::external_body]
fn table_get_offset(buf: &[u8], loc: usize, slot: u16) -> (r: Option<usize>)
    requires
        offset_readable(buf@, loc as int, slot as int),
    ensures
        r == (if field_offset(buf@, loc as int, slot as int) == 0 {
            None
        } else {
            Some(offset_target(buf@, loc as int, slot as int) as usize)
        }),
{
    match flatbuffers::Table::new(buf, loc).get::<flatbuffers::ForwardsUOffset<flatbuffers::Table>>(slot, None) {
        Some(table) => Some(table.loc),
        None => None,
    }
}

/// Calls `flatbuffers::Table::get::<ForwardsUOffset<&[u8]>>` on the table at
/// `loc`: the bytes of the byte vector the field at vtable byte `slot` points
/// to, or `None` when the field is absent.
#[verifier::external_body]
fn table_get_bytes<'a>(buf: &'a [u8], loc: usize, slot: u16) -> (r: Option<&'a [u8]>)
    requires
        offset_readable(buf@, loc as int, slot as int),
        field_offset(buf@, loc as int, slot as int) != 0 ==> byte_vector_readable(
            buf@,
            offset_target(buf@, loc as int, slot as int),
        ),
    ensures
        r is None <==> field_offset(buf@, loc as int, slot as int) == 0,
        r matches Some(v) ==> v@ == byte_vector_at(buf@, offset_target(buf@, loc as int, slot as int)),
{
    flatbuffers::Table::new(buf, loc).get::<flatbuffers::ForwardsUOffset<&[u8]>>(slot, None)
}

/// Calls `flatbuffers::Vector::len` on the vector of tables at `p`: its
/// 32-bit length.
#[verifier::external_body]
fn vector_len(buf: &[u8], p: usize) -> (r: usize)
    requires
        p + 4 <= buf@.len(),
    ensures
        r == u32_at(buf@, p as int),
{
    flatbuffers::Vector::<flatbuffers::ForwardsUOffset<flatbuffers::Table>>::new(buf, p).len()
}

/// Calls `flatbuffers::Vector::get` on the vector of tables at `p`: the
/// position of its `i`-th table.
#[verifier::external_body]
fn vector_get_table(buf: &[u8], p: usize, i: usize) -> (r: usize)
    requires
        i < u32_at(buf@, p as int),
        p + 4 + 4 * i + 4 <= buf@.len(),
        p + 4 + 4 * i + u32_at(buf@, p + 4 + 4 * i) <= usize::MAX,
    ensures
        r == p + 4 + 4 * i + u32_at(buf@, p + 4 + 4 * i),
{
    flatbuffers::Vector::<flatbuffers::ForwardsUOffset<flatbuffers::Table>>::new(buf, p).get(i).loc
}

/// Calls `std::str::from_utf8` and copies the text: `Some` exactly when the
/// bytes are valid UTF-8, and then the text they encode.
#[verifier::external_body]
fn utf8_string(bytes: &[u8]) -> (r: Option<String>)
    ensures
        r is Some <==> valid_utf8(bytes@),
        r matches Some(s) ==> encode_utf8(s@) == bytes@,
{
    match std::str::from_utf8(bytes) {
        Ok(text) => Some(text.to_string()),
        Err(_) => None,
    }
}

// ---------------------------------------------------------------------------
// Checked reads
// ---------------------------------------------------------------------------

/// The offset of the field at vtable byte `slot` of the table at `loc`.
fn read_field_offset(buf: &[u8], loc: u64, slot: u16) -> (r: u64)
    requires
        table_slot_readable(buf@, loc as int, slot as int, 4),
    ensures
        r == field_offset(buf@, loc as int, slot as int),
{
    let s = read_i32(buf, loc as usize);
    let v = ((loc as i64) - s) as u64;
    let n = read_u16(buf, v as usize) as u64;
    if (slot as u64) < n {
        read_u16(buf, (v + (slot as u64)) as usize) as u64
    } else {
        0
    }
}

/// Follows the offset field at vtable byte `slot` of the table at `loc`:
/// `None` when it cannot be followed, `Some(None)` when it is absent, and
/// otherwise where it points.
fn checked_offset(buf: &[u8], loc: u64, slot: u16) -> (r: Option<Option<usize>>)
    ensures
        r is Some <==> offset_readable(buf@, loc as int, slot as int),
        r matches Some(target) ==> target == (if field_offset(buf@, loc as int, slot as int) == 0 {
            None
        } else {
            Some(offset_target(buf@, loc as int, slot as int) as usize)
        }),
{
    if !table_readable(buf, loc, slot, 4) {
        return None;
    }
    let o = read_field_offset(buf, loc, slot);
    if o == 0 {
        return Some(table_get_offset(buf, loc as usize, slot));
    }
    let pos = loc + o;
    let target = pos + (read_u32(buf, pos as usize) as u64);
    if target > usize::MAX as u64 {
        return None;
    }
    Some(table_get_offset(buf, loc as usize, slot))
}

/// The name of the object table at `t`, or `None` when it cannot be read.
fn read_object_name(buf: &[u8], t: u64) -> (r: Option<String>)
    ensures
        r is Some <==> object_name_readable(buf@, t as int),
        r matches Some(name) ==> encode_utf8(name@) == object_name_bytes(buf@, t as int),
{
    match checked_offset(buf, t, OBJECT_NAME) {
        None => None,
        Some(None) => None,
        Some(Some(p)) => {
            let len = buf.len();
            if p > len || len - p < 4 {
                return None;
            }
            let n = read_u32(buf, p) as usize;
            if len - p - 4 < n {
                return None;
            }
            match table_get_bytes(buf, t as usize, OBJECT_NAME) {
                Some(bytes) => utf8_string(bytes),
                None => None,
            }
        },
    }
}

/// Why a compiled schema could not be read.
#[derive(Debug, Clone, Copy, PartialEq, Eq, Structural)]
pub enum SchemaError {
    /// The buffer is not a compiled schema whose needed parts can be read.
    Malformed,
}

/// The name of the root table of a compiled schema: `Ok(None)` when the
/// schema names no root table, and an error when the buffer's parts cannot
/// be read.
pub fn reflected_root_name(buf: &[u8]) -> (r: Result<Option<String>, SchemaError>)
    ensures
        r is Ok <==> root_name_readable(buf@),
        r matches Ok(name) ==> match (name, root_name_bytes(buf@)) {
            (None, None) => true,
            (Some(s), Some(bytes)) => encode_utf8(s@) == bytes,
            _ => false,
        },
{
    if buf.len() < 4 {
        return Err(SchemaError::Malformed);
    }
    let root = read_u32(buf, 0) as u64;
    match checked_offset(buf, root, SCHEMA_ROOT_TABLE) {
        None => Err(SchemaError::Malformed),
        Some(None) => Ok(None),
        Some(Some(t)) => match read_object_name(buf, t as u64) {
            Some(name) => Ok(Some(name)),
            None => Err(SchemaError::Malformed),
        },
    }
}

/// The names of a compiled schema's objects, in the schema's order, or
/// `None` when the buffer's list of objects or one of their names cannot be
/// read.
pub fn reflected_object_names(buf: &[u8]) -> (r: Option<Vec<String>>)
    ensures
        r is Some <==> objects_readable(buf@),
        r matches Some(names) ==> names@.len() == object_count(buf@) && forall|i: int|
            0 <= i < names@.len() ==> encode_utf8(#[trigger] names@[i]@) == object_name_bytes(
                buf@,
                object_at(buf@, i),
            ),
{
    if buf.len() < 4 {
        return None;
    }
    let root = read_u32(buf, 0) as u64;
    let p = match checked_offset(buf, root, SCHEMA_OBJECTS) {
        Some(Some(p)) => p,
        _ => return None,
    };
    let len = buf.len();
    if p > len || len - p < 4 {
        return None;
    }
    let count = vector_len(buf, p);
    if (len - p - 4) / 4 < count {
        return None;
    }
    assert(objects_at(buf@) + 4 + 4 * object_count(buf@) <= buf@.len()) by (nonlinear_arith)
        requires
            objects_at(buf@) == p,
            object_count(buf@) == count,
            (len - p - 4) / 4 >= count,
            len == buf@.len(),
            p + 4 <= len,
    ;
    let mut names: Vec<String> = Vec::new();
    for i in 0..count
        invariant
            buf@.len() >= 4,
            len == buf@.len(),
            offset_readable(buf@, root_at(buf@), SCHEMA_OBJECTS as int),
            field_offset(buf@, root_at(buf@), SCHEMA_OBJECTS as int) != 0,
            p == objects_at(buf@),
            count == object_count(buf@),
            objects_at(buf@) + 4 + 4 * object_count(buf@) <= buf@.len(),
            names@.len() == i,
            forall|j: int|
                0 <= j < i ==> #[trigger] object_at(buf@, j) <= usize::MAX && object_name_readable(
                    buf@,
                    object_at(buf@, j),
                ),
            forall|j: int|
                0 <= j < i ==> encode_utf8(#[trigger] names@[j]@) == object_name_bytes(
                    buf@,
                    object_at(buf@, j),
                ),
    {
        let e = p + 4 + 4 * i;
        let target = (e as u64) + (read_u32(buf, e) as u64);
        assert(target == object_at(buf@, i as int));
        if target > usize::MAX as u64 {
            return None;
        }
        let t = vector_get_table(buf, p, i);
        assert(t == object_at(buf@, i as int));
        match read_object_name(buf, t as u64) {
            Some(name) => names.push(name),
            None => {
                assert(!object_name_readable(buf@, object_at(buf@, i as int)));
                return None;
            },
        }
    }
    Some(names)
}

} // verus!
