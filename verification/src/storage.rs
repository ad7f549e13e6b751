//! The stored form of entities: the key under which an entity is stored is
//! the encoding of its id, and the value is the encoding of the entity, both
//! in bincode's default format (fixed-size little-endian integers, sequences
//! prefixed with their length as a 64-bit integer).
use crate::entity::{component_models, ComponentModel, ComponentRef, EntityModel, EntityRef, Id};
use vstd::prelude::*;

verus! {

/// bincode's error, held opaque.
#[verifier::external_type_specification]
#[verifier::external_body]
pub struct ExBincodeErrorKind(bincode::ErrorKind);

/// redis's error, held opaque.
#[verifier::external_type_specification]
#[verifier::external_body]
pub struct ExRedisError(redis::RedisError);

/// An I/O error, held opaque.
#[verifier::external_type_specification]
#[verifier::external_body]
pub struct ExIoError(std::io::Error);

/// Why storing or reading an entity failed.
#[derive(Debug)]
pub enum AdapterError {
    ErrorMessage(String),
    RedisError(redis::RedisError),
    IoError(std::io::Error),
    BincodeError(Box<bincode::ErrorKind>),
}

// ---------------------------------------------------------------------------
// The encoding
// ---------------------------------------------------------------------------

/// The eight bytes of `x`, least significant first.
pub open spec fn u64_le_bytes(x: u64) -> Seq<u8> {
    seq![
        x as u8,
        (x >> 8u64) as u8,
        (x >> 16u64) as u8,
        (x >> 24u64) as u8,
        (x >> 32u64) as u8,
        (x >> 40u64) as u8,
        (x >> 48u64) as u8,
        (x >> 56u64) as u8,
    ]
}

/// The encoding of a component reference: its id, its parent's id and its
/// type's id.
pub open spec fn component_bytes(c: ComponentModel) -> Seq<u8> {
    u64_le_bytes(c.0) + u64_le_bytes(c.1) + u64_le_bytes(c.2)
}

/// The encodings of a sequence of component references, one after another.
pub open spec fn components_bytes(cs: Seq<ComponentModel>) -> Seq<u8>
    decreases cs.len(),
{
    if cs.len() == 0 {
        Seq::empty()
    } else {
        components_bytes(cs.drop_last()) + component_bytes(cs.last())
    }
}

/// The encoding of an entity reference: its id, the number of its
/// components, and the components.
pub open spec fn entity_bytes(e: EntityModel) -> Seq<u8> {
    u64_le_bytes(e.0) + u64_le_bytes(e.1.len() as u64) + components_bytes(e.1)
}

/// An entity model that a stored value can hold: at most `u64::MAX` components.
pub open spec fn storable(e: EntityModel) -> bool {
    e.1.len() <= u64::MAX
}

/// `prefix` is the beginning of `s`.
pub open spec fn starts_with(s: Seq<u8>, prefix: Seq<u8>) -> bool {
    prefix.len() <= s.len() && s.subrange(0, prefix.len() as int) == prefix
}

/// What reading an entity from `bytes` gives: some entity exactly when the
/// bytes begin with the encoding of an entity, and then one whose encoding
/// they begin with (bytes after it are ignored).
pub open spec fn decodes_to(bytes: Seq<u8>, r: Option<EntityModel>) -> bool {
    &&& r is Some <==> exists|e: EntityModel| storable(e) && #[trigger] starts_with(bytes, entity_bytes(e))
    &&& r matches Some(e) ==> storable(e) && starts_with(bytes, entity_bytes(e))
}

// ---------------------------------------------------------------------------
// Outside calls
// ---------------------------------------------------------------------------

/// Calls `bincode::serialize` on a 64-bit integer. With bincode's default
/// options (fixed-size little-endian integers, no size limit) this writes the
/// integer's eight bytes, least significant first, and cannot fail.
#[verifier::external_body]
fn bincode_serialize_u64(x: &u64) -> (r: Result<Vec<u8>, Box<bincode::ErrorKind>>)
    ensures
        match r {
            Ok(b) => b@ == u64_le_bytes(*x),
            Err(_) => false,
        },
{
    bincode::serialize(x)
}

/// Calls `bincode::serialize` on an entity in plain form: an id and a vector
/// of (id, parent, type id) triples. With bincode's default options a tuple is
/// its elements one after another, a vector is its length as a 64-bit integer
/// and then its elements, and an integer is its eight little-endian bytes;
/// writing into a vector without a size limit cannot fail.
#[verifier::external_body]
fn bincode_serialize_entity(e: &(u64, Vec<(u64, u64, u64)>)) -> (r: Result<
    Vec<u8>,
    Box<bincode::ErrorKind>,
>)
    ensures
        match r {
            Ok(b) => b@ == entity_bytes((e.0, e.1@)),
            Err(_) => false,
        },
{
    bincode::serialize(e)
}

/// Calls `bincode::deserialize` for an entity in plain form. With bincode's
/// default options (which allow trailing bytes) this succeeds exactly when the
/// bytes begin with an encoding of such a value, and gives that value. Which
/// error it gives otherwise is not stated.
#[verifier::external_body]
fn bincode_deserialize_entity(bytes: &[u8]) -> (r: Result<
    (u64, Vec<(u64, u64, u64)>),
    Box<bincode::ErrorKind>,
>)
    ensures
        decodes_to(
            bytes@,
            match r {
                Ok(v) => Some((v.0, v.1@)),
                Err(_) => None,
            },
        ),
{
    bincode::deserialize(bytes)
}

// ---------------------------------------------------------------------------
// Keys and values
// ---------------------------------------------------------------------------

/// The key under which the entity or component with id `id` is stored: the
/// encoding of the id.
pub fn storage_key(id: Id) -> (r: Vec<u8>)
    ensures
        r@ == u64_le_bytes(id.raw),
{
    match bincode_serialize_u64(&id.raw) {
        Ok(bytes) => bytes,
        Err(_) => Vec::new(),
    }
}

/// The stored form of an entity reference.
pub fn encode_entity(entity: &EntityRef) -> (r: Vec<u8>)
    ensures
        r@ == entity_bytes(entity@),
{
    let components = entity.components();
    let n = components.len();
    let mut plain: Vec<(u64, u64, u64)> = Vec::new();
    for i in 0..n
        invariant
            n == components@.len(),
            plain@ == component_models(components@).subrange(0, i as int),
    {
        let c = &components[i];
        plain.push((c.component_id().raw, c.parent().raw, c.type_id().raw));
        assert(plain@ =~= component_models(components@).subrange(0, i + 1));
    }
    assert(plain@ =~= component_models(components@));
    let value = (entity.id().raw, plain);
    match bincode_serialize_entity(&value) {
        Ok(bytes) => bytes,
        Err(_) => Vec::new(),
    }
}

/// Reads an entity reference from its stored form: the entity whose encoding
/// the bytes begin with, or a bincode error when they begin with none.
pub fn decode_entity(bytes: &[u8]) -> (r: Result<EntityRef, AdapterError>)
    ensures
        decodes_to(
            bytes@,
            match r {
                Ok(e) => Some(e@),
                Err(_) => None,
            },
        ),
        r matches Err(e) ==> e is BincodeError,
{
    match bincode_deserialize_entity(bytes) {
        Ok((raw, plain)) => {
            let n = plain.len();
            let mut components: Vec<ComponentRef> = Vec::new();
            for i in 0..n
                invariant
                    n == plain@.len(),
                    component_models(components@) == plain@.subrange(0, i as int),
            {
                let (c, p, t) = plain[i];
                let ghost before = components@;
                let component = ComponentRef::new(Id::new(c), Id::new(p), Id::new(t));
                assert(component@ == plain@[i as int]);
                components.push(component);
                assert(components@ == before.push(component));
                assert(component_models(components@) =~= component_models(before).push(component@));
                assert(component_models(components@) =~= plain@.subrange(0, i + 1));
            }
            assert(plain@.subrange(0, n as int) =~= plain@);
            Ok(EntityRef::with_components(Id::new(raw), components))
        },
        Err(e) => Err(AdapterError::BincodeError(e)),
    }
}

// ---------------------------------------------------------------------------
// What is read back
// ---------------------------------------------------------------------------

proof fn lemma_u64_le_bytes_injective(a: u64, b: u64)
    requires
        u64_le_bytes(a) == u64_le_bytes(b),
    ensures
        a == b,
{
    let x = u64_le_bytes(a);
    let y = u64_le_bytes(b);
    assert(x[0] == y[0] && x[1] == y[1] && x[2] == y[2] && x[3] == y[3]);
    assert(x[4] == y[4] && x[5] == y[5] && x[6] == y[6] && x[7] == y[7]);
    assert(a == b) by (bit_vector)
        requires
            a as u8 == b as u8,
            (a >> 8u64) as u8 == (b >> 8u64) as u8,
            (a >> 16u64) as u8 == (b >> 16u64) as u8,
            (a >> 24u64) as u8 == (b >> 24u64) as u8,
            (a >> 32u64) as u8 == (b >> 32u64) as u8,
            (a >> 40u64) as u8 == (b >> 40u64) as u8,
            (a >> 48u64) as u8 == (b >> 48u64) as u8,
            (a >> 56u64) as u8 == (b >> 56u64) as u8,
    ;
}

proof fn lemma_components_bytes_len(cs: Seq<ComponentModel>)
    ensures
        components_bytes(cs).len() == 24 * cs.len(),
    decreases cs.len(),
{
    if cs.len() > 0 {
        lemma_components_bytes_len(cs.drop_last());
    }
}

proof fn lemma_components_bytes_injective(a: Seq<ComponentModel>, b: Seq<ComponentModel>)
    requires
        a.len() == b.len(),
        components_bytes(a) == components_bytes(b),
    ensures
        a == b,
    decreases a.len(),
{
    if a.len() > 0 {
        let pa = components_bytes(a.drop_last());
        let pb = components_bytes(b.drop_last());
        lemma_components_bytes_len(a.drop_last());
        lemma_components_bytes_len(b.drop_last());
        let ca = component_bytes(a.last());
        let cb = component_bytes(b.last());
        let whole = components_bytes(a);
        assert(whole == pa + ca);
        assert(whole == pb + cb);
        assert(pa =~= whole.subrange(0, pa.len() as int));
        assert(pb =~= whole.subrange(0, pa.len() as int));
        assert(ca =~= whole.subrange(pa.len() as int, whole.len() as int));
        assert(cb =~= whole.subrange(pa.len() as int, whole.len() as int));
        lemma_components_bytes_injective(a.drop_last(), b.drop_last());
        assert(u64_le_bytes(a.last().0) =~= ca.subrange(0, 8));
        assert(u64_le_bytes(b.last().0) =~= cb.subrange(0, 8));
        assert(u64_le_bytes(a.last().1) =~= ca.subrange(8, 16));
        assert(u64_le_bytes(b.last().1) =~= cb.subrange(8, 16));
        assert(u64_le_bytes(a.last().2) =~= ca.subrange(16, 24));
        assert(u64_le_bytes(b.last().2) =~= cb.subrange(16, 24));
        lemma_u64_le_bytes_injective(a.last().0, b.last().0);
        lemma_u64_le_bytes_injective(a.last().1, b.last().1);
        lemma_u64_le_bytes_injective(a.last().2, b.last().2);
        assert(a =~= a.drop_last().push(a.last()));
        assert(b =~= b.drop_last().push(b.last()));
    }
}

/// The stored form of an entity begins with the stored form of no other
/// entity: when one stored form begins with another, they are the stored
/// forms of the same entity.
pub proof fn lemma_entity_bytes_prefix_free(v: EntityModel, w: EntityModel)
    requires
        storable(v),
        storable(w),
        starts_with(entity_bytes(v), entity_bytes(w)),
    ensures
        w == v,
{
    let bv = entity_bytes(v);
    let bw = entity_bytes(w);
    lemma_components_bytes_len(v.1);
    lemma_components_bytes_len(w.1);
    assert(u64_le_bytes(v.0) =~= bv.subrange(0, 8));
    assert(u64_le_bytes(w.0) =~= bw.subrange(0, 8));
    assert(bw.subrange(0, 8) =~= bv.subrange(0, 8));
    lemma_u64_le_bytes_injective(v.0, w.0);
    assert(u64_le_bytes(v.1.len() as u64) =~= bv.subrange(8, 16));
    assert(u64_le_bytes(w.1.len() as u64) =~= bw.subrange(8, 16));
    assert(bw.subrange(8, 16) =~= bv.subrange(8, 16));
    lemma_u64_le_bytes_injective(v.1.len() as u64, w.1.len() as u64);
    assert(v.1.len() == w.1.len());
    assert(components_bytes(v.1) =~= bv.subrange(16, bv.len() as int));
    assert(components_bytes(w.1) =~= bw.subrange(16, bw.len() as int));
    assert(bw.len() == bv.len());
    assert(bw =~= bv);
    lemma_components_bytes_injective(v.1, w.1);
}

/// What is read back is what was stored: reading an entity from the stored
/// form of an entity gives that same entity.
pub proof fn lemma_read_back_stored_entity(e: EntityModel, r: Option<EntityModel>)
    requires
        storable(e),
        decodes_to(entity_bytes(e), r),
    ensures
        r == Some(e),
{
    let b = entity_bytes(e);
    assert(b.subrange(0, b.len() as int) =~= b);
    assert(starts_with(b, entity_bytes(e)));
    let w = r->0;
    lemma_entity_bytes_prefix_free(e, w);
}

/// Distinct ids are stored under distinct keys.
pub proof fn lemma_storage_keys_distinct(a: Id, b: Id)
    requires
        a.raw != b.raw,
    ensures
        u64_le_bytes(a.raw) != u64_le_bytes(b.raw),
{
    if u64_le_bytes(a.raw) == u64_le_bytes(b.raw) {
        lemma_u64_le_bytes_injective(a.raw, b.raw);
    }
}

} // verus!
