use dist::entity::{ComponentRef, EntityRef, Id};
use dist::storage::{decode_entity, encode_entity, storage_key, AdapterError};

fn component(id: u64, parent: u64, type_id: u64) -> ComponentRef {
    ComponentRef::new(Id::new(id), Id::new(parent), Id::new(type_id))
}

#[test]
fn id_conversions() {
    let id: Id = 12345u64.into();
    assert_eq!(id, Id::new(12345));
    assert_eq!(id.raw, 12345);
    let raw: u64 = id.into();
    assert_eq!(raw, 12345);
    assert_eq!(Id::default().raw, 0);
}

#[test]
fn entity_equality_compares_ids_only() {
    let a = EntityRef::new(Id::new(7));
    let b = EntityRef::with_components(Id::new(7), vec![component(1, 7, 3)]);
    let c = EntityRef::new(Id::new(8));
    assert!(a == b);
    assert!(a != c);
}

#[test]
fn entity_components_in_order() {
    let mut e = EntityRef::with_components(Id::new(5), vec![component(1, 5, 10), component(2, 5, 11)]);
    assert_eq!(e.id(), Id::new(5));
    assert_eq!(e.components().len(), 2);
    assert_eq!(e.components()[0].component_id(), Id::new(1));
    assert_eq!(e.components()[1].type_id(), Id::new(11));
    e.components_mut()[0] = component(9, 5, 12);
    assert_eq!(e.components()[0].component_id(), Id::new(9));
    e.components_mut_vec().push(component(3, 5, 13));
    assert_eq!(e.components().len(), 3);
    assert_eq!(e.components()[2].parent(), Id::new(5));
    assert_eq!(e.id(), Id::new(5));
    assert!(EntityRef::new(Id::new(4)).components().is_empty());
}

#[test]
fn storage_key_is_little_endian_id() {
    assert_eq!(storage_key(Id::new(12345)), vec![0x39, 0x30, 0, 0, 0, 0, 0, 0]);
    assert_eq!(storage_key(Id::new(0x0102030405060708)), vec![8, 7, 6, 5, 4, 3, 2, 1]);
    assert_ne!(storage_key(Id::new(1)), storage_key(Id::new(2)));
}

#[test]
fn encode_entity_layout() {
    let e = EntityRef::with_components(Id::new(1), vec![component(2, 1, 3)]);
    let bytes = encode_entity(&e);
    let mut expected = vec![1, 0, 0, 0, 0, 0, 0, 0];
    expected.extend_from_slice(&[1, 0, 0, 0, 0, 0, 0, 0]);
    expected.extend_from_slice(&[2, 0, 0, 0, 0, 0, 0, 0]);
    expected.extend_from_slice(&[1, 0, 0, 0, 0, 0, 0, 0]);
    expected.extend_from_slice(&[3, 0, 0, 0, 0, 0, 0, 0]);
    assert_eq!(bytes, expected);
    assert_eq!(encode_entity(&EntityRef::new(Id::new(12345))).len(), 16);
}

#[test]
fn stored_entity_reads_back() {
    let test_entity = EntityRef::new(12345.into());
    let stored = encode_entity(&test_entity);
    let read_entity = decode_entity(&stored).unwrap();
    assert_eq!(read_entity.id(), test_entity.id());

    let e = EntityRef::with_components(Id::new(77), vec![component(1, 77, 4), component(2, 77, 5)]);
    let mut stored = encode_entity(&e);
    stored.extend_from_slice(&[0xff, 0xee]);
    let back = decode_entity(&stored).unwrap();
    assert_eq!(back.id(), Id::new(77));
    assert_eq!(back.components().len(), 2);
    assert_eq!(back.components()[1].component_id(), Id::new(2));
    assert_eq!(back.components()[1].type_id(), Id::new(5));
}

#[test]
fn short_value_is_a_bincode_error() {
    let e = EntityRef::with_components(Id::new(77), vec![component(1, 77, 4)]);
    let stored = encode_entity(&e);
    match decode_entity(&stored[..stored.len() - 1]) {
        Err(AdapterError::BincodeError(_)) => {}
        _ => panic!("expected a bincode error"),
    }
    assert!(matches!(decode_entity(&[1, 2, 3]), Err(AdapterError::BincodeError(_))));
}
