use dist::schema::{
    checked_parse_base_component, get_root_as_base_component,
    get_size_prefixed_root_as_base_component, BaseComponent, BaseComponentArgs, Types,
};
use dist::schema_builder::{
    build_base_component, finish_base_component_buffer, finish_size_prefixed_base_component_buffer,
    BaseComponentBuilder,
};
use flatbuffers::FlatBufferBuilder;

#[test]
fn built_base_component_reads_back_its_id() {
    for id in [0u64, 1, 2, 42, 0x0123_4567_89ab_cdef, u64::MAX] {
        let buf = build_base_component(id);
        assert_eq!(get_root_as_base_component(&buf).id(), id);
    }
}

#[test]
fn built_base_component_parses_by_its_type_id() {
    let second = build_base_component(0);
    assert!(matches!(checked_parse_base_component(&second), Some(Types::SecondComponent(_))));
    let test = build_base_component(1);
    assert!(matches!(checked_parse_base_component(&test), Some(Types::TestComponent(_))));
    let unknown = build_base_component(7);
    assert!(matches!(checked_parse_base_component(&unknown), Some(Types::Unknown)));
}

#[test]
fn zero_id_is_left_out_of_the_table() {
    let zero = build_base_component(0);
    let one = build_base_component(1);
    assert!(zero.len() < one.len());
}

#[test]
fn builder_steps_match_create() {
    let mut fbb = FlatBufferBuilder::new();
    let builder = BaseComponentBuilder::new(&mut fbb);
    builder.add_id(&mut fbb, 9);
    let root = builder.finish(&mut fbb);
    finish_base_component_buffer(&mut fbb, root);
    let stepwise = fbb.finished_data().to_vec();

    let mut fbb = FlatBufferBuilder::new();
    let root = BaseComponent::create(&mut fbb, &BaseComponentArgs { id: 9 });
    finish_base_component_buffer(&mut fbb, root);
    assert_eq!(fbb.finished_data(), &stepwise[..]);
    assert_eq!(build_base_component(9), stepwise);
}

#[test]
fn size_prefixed_buffer_reads_back_its_id() {
    let mut fbb = FlatBufferBuilder::new();
    let root = BaseComponent::create(&mut fbb, &BaseComponentArgs { id: 77 });
    finish_size_prefixed_base_component_buffer(&mut fbb, root);
    let buf = fbb.finished_data();
    let size = u32::from_le_bytes([buf[0], buf[1], buf[2], buf[3]]) as usize;
    assert_eq!(size, buf.len() - 4);
    assert_eq!(get_size_prefixed_root_as_base_component(buf).id(), 77);
}

#[test]
fn two_tables_in_one_builder_keep_their_ids() {
    let mut fbb = FlatBufferBuilder::new();
    let _first = BaseComponent::create(&mut fbb, &BaseComponentArgs { id: 5 });
    let second = BaseComponent::create(&mut fbb, &BaseComponentArgs { id: 6 });
    finish_base_component_buffer(&mut fbb, second);
    assert_eq!(get_root_as_base_component(fbb.finished_data()).id(), 6);
}
