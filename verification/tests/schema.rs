use dist::schema::{
    checked_parse_base_component, get_root_as_base_component, parse_base_component, parse_type,
    root_table, table_readable, BaseComponentArgs, Types, VT_ID,
};

/// A buffer whose root is a base component with the given type id, laid out
/// as flatbuffers builds it: root offset, vtable, then the table.
fn base_component_buffer(id: u64) -> Vec<u8> {
    let mut b = Vec::new();
    // root offset: the table starts at 12
    b.extend_from_slice(&12u32.to_le_bytes());
    // vtable at 4: vtable size 6, table size 12, id at offset 4
    b.extend_from_slice(&6u16.to_le_bytes());
    b.extend_from_slice(&12u16.to_le_bytes());
    b.extend_from_slice(&4u16.to_le_bytes());
    b.extend_from_slice(&[0, 0]);
    // table at 12: distance back to the vtable (12 - 4 = 8)
    b.extend_from_slice(&8i32.to_le_bytes());
    b.extend_from_slice(&id.to_le_bytes());
    b
}

/// A base component whose vtable does not hold the id field.
fn base_component_without_id() -> Vec<u8> {
    let mut b = Vec::new();
    b.extend_from_slice(&8u32.to_le_bytes());
    b.extend_from_slice(&4u16.to_le_bytes());
    b.extend_from_slice(&4u16.to_le_bytes());
    b.extend_from_slice(&4i32.to_le_bytes());
    b
}

#[test]
fn base_component_id_is_read() {
    let buf = base_component_buffer(1);
    assert_eq!(root_table(&buf).loc, 12);
    assert_eq!(get_root_as_base_component(&buf).id(), 1);
    assert_eq!(get_root_as_base_component(&base_component_buffer(0xdead_beef)).id(), 0xdead_beef);
    assert_eq!(get_root_as_base_component(&base_component_without_id()).id(), 0);
    assert_eq!(BaseComponentArgs::default().id, 0);
}

#[test]
fn parse_type_dispatches_on_id() {
    let buf = base_component_buffer(0);
    assert!(matches!(parse_type(0, &buf), Types::SecondComponent(t) if t.loc == 12));
    assert!(matches!(parse_type(1, &buf), Types::TestComponent(t) if t.loc == 12));
    assert!(matches!(parse_type(2, &buf), Types::Unknown));
    assert!(matches!(parse_type(7, &[]), Types::Unknown));
}

#[test]
fn parse_base_component_uses_its_type_id() {
    assert!(matches!(parse_base_component(&base_component_buffer(0)), Types::SecondComponent(_)));
    assert!(matches!(parse_base_component(&base_component_buffer(1)), Types::TestComponent(_)));
    assert!(matches!(parse_base_component(&base_component_buffer(2)), Types::Unknown));
    assert!(matches!(parse_base_component(&base_component_without_id()), Types::SecondComponent(_)));
}

#[test]
fn checked_parse_rejects_malformed_buffers() {
    assert!(matches!(checked_parse_base_component(&base_component_buffer(1)), Some(Types::TestComponent(_))));
    assert!(checked_parse_base_component(&[]).is_none());
    assert!(checked_parse_base_component(&[12, 0, 0]).is_none());
    let full = base_component_buffer(1);
    assert!(checked_parse_base_component(&full[..full.len() - 1]).is_none());
    let mut bad_root = full.clone();
    bad_root[0] = 200;
    assert!(checked_parse_base_component(&bad_root).is_none());
    assert!(table_readable(&full, 12, VT_ID, 8));
    assert!(!table_readable(&full, 13, VT_ID, 8));
}
