use dist::codegen::{checked_generate_type_table, generate_type_table, type_table, BuildError, ComponentBuilder};
use dist::reflection::{reflected_object_names, reflected_root_name, SchemaError};

fn expected_include(components: &[&str], roots: &[&str], snakes: &[&str]) -> String {
    let mut include_file = String::new();
    include_file.push_str("pub mod components {\n");
    include_file.push_str("use std::mem;\n");
    include_file.push_str("use std::cmp::Ordering;\n");
    include_file.push_str("use flatbuffers::EndianScalar;\n\n");
    include_file.push_str("include!(\"../../../schema/base_component_generated.rs\");\n\n");
    for component in components {
        include_file.push_str(&format!("include!(\"{}\");\n", format!("{}_generated.rs", component)));
    }
    include_file.push_str("\n");
    let mut type_id_enum = String::new();
    let mut type_enum = String::new();
    type_enum.push_str("pub enum Types<'a> { \n");
    type_id_enum.push_str("pub enum TypeIds { \n");
    for (i, str_name) in roots.iter().enumerate() {
        type_enum.push_str(&format!("    {}({}<'a>),\n", str_name, str_name));
        type_id_enum.push_str(&format!("    {} = {},\n", str_name, i));
    }
    type_enum.push_str("    Unknown,\n}\n");
    type_id_enum.push_str("    Unknown,\n}\n");
    include_file.push_str(&type_enum);
    include_file.push_str(&type_id_enum);
    include_file.push_str("\n#[inline(always)]\npub fn parse_type<'a>(id: u64, buf: &'a [u8]) -> Types<'a> { \n");
    include_file.push_str("    match id {\n");
    for (i, str_obj_name) in roots.iter().enumerate() {
        let get_root_name = format!("get_root_as_{}", snakes[i]);
        include_file.push_str(&format!("        {} => Types::{}({}(buf)),\n", i, str_obj_name, get_root_name));
    }
    include_file.push_str("        _ => Types::Unknown,\n    }\n}\n");
    include_file.push_str("\n#[inline(always)]\npub fn parse_base_component<'a>(buf: &'a [u8]) -> Types<'a> { \n");
    include_file.push_str("    let base = dist::get_root_as_base_component(buf);\n");
    include_file.push_str("    parse_type(base.id(), buf)\n");
    include_file.push_str("}\n");
    include_file.push_str("\n\n}");
    include_file
}

#[test]
fn camel_to_snake() {
    assert_eq!(ComponentBuilder::camel_to_snake_case("SecondComponent"), "second_component");
    assert_eq!(ComponentBuilder::camel_to_snake_case("TestComponent"), "test_component");
    assert_eq!(ComponentBuilder::camel_to_snake_case("Monster"), "monster");
    assert_eq!(ComponentBuilder::camel_to_snake_case("already"), "already");
    assert_eq!(ComponentBuilder::camel_to_snake_case("ABC2d"), "a_b_c2d");
    assert_eq!(ComponentBuilder::camel_to_snake_case(""), "");
}

#[test]
fn checked_camel_to_snake() {
    assert_eq!(ComponentBuilder::checked_camel_to_snake_case("SecondComponent"), Some("second_component".to_string()));
    assert_eq!(ComponentBuilder::checked_camel_to_snake_case("Second_Component"), None);
    assert_eq!(ComponentBuilder::checked_camel_to_snake_case("a b"), None);
}

#[test]
fn records_components_by_file_stem() {
    let builder = ComponentBuilder::new("schema/generated/");
    let builder = builder.compile_component("./schema/components/second_component.fbs").unwrap();
    let builder = builder.compile_component("./schema/components/test_component.fbs").unwrap();
    assert_eq!(builder.output_directory(), "schema/generated/");
    assert_eq!(builder.components(), &vec!["second_component".to_string(), "test_component".to_string()]);
    assert!(matches!(
        ComponentBuilder::new("out").compile_component(".."),
        Err(BuildError::MissingComponentName)
    ));
    assert!(matches!(ComponentBuilder::new("out").compile_component(""), Err(BuildError::MissingComponentName)));
}

#[test]
fn include_file_matches_generated() {
    let builder = ComponentBuilder::new("schema/generated/")
        .compile_component("schema/components/second_component.fbs")
        .unwrap()
        .compile_component("schema/components/test_component.fbs")
        .unwrap();
    let roots = vec!["SecondComponent".to_string(), "TestComponent".to_string()];
    let text = builder.finish(&roots);
    let expected = expected_include(
        &["second_component", "test_component"],
        &["SecondComponent", "TestComponent"],
        &["second_component", "test_component"],
    );
    assert_eq!(text, expected);
    assert!(text.contains("    TestComponent = 1,\n"));
    assert!(text.contains("        1 => Types::TestComponent(get_root_as_test_component(buf)),\n"));
    assert_eq!(builder.checked_finish(&roots), Ok(expected));
}

#[test]
fn include_file_numbers_past_nine() {
    let mut builder = ComponentBuilder::new("gen");
    let mut roots = Vec::new();
    let mut names = Vec::new();
    let mut snakes = Vec::new();
    for i in 0..12 {
        builder = builder.compile_component(&format!("c{}.fbs", i)).unwrap();
        roots.push(format!("CompNo{}", i));
        names.push(format!("c{}", i));
        snakes.push(format!("comp_no{}", i));
    }
    let text = builder.finish(&roots);
    let n: Vec<&str> = names.iter().map(|s| s.as_str()).collect();
    let r: Vec<&str> = roots.iter().map(|s| s.as_str()).collect();
    let s: Vec<&str> = snakes.iter().map(|s| s.as_str()).collect();
    assert_eq!(text, expected_include(&n, &r, &s));
    assert!(text.contains("    CompNo11 = 11,\n"));
}

#[test]
fn checked_finish_errors() {
    let builder = ComponentBuilder::new("gen").compile_component("a.fbs").unwrap();
    assert_eq!(builder.checked_finish(&vec![]), Err(BuildError::RootNameCount));
    assert_eq!(builder.checked_finish(&vec!["Not_Alnum".to_string()]), Err(BuildError::InvalidRootName));
    let empty = ComponentBuilder::new("gen");
    assert_eq!(empty.checked_finish(&vec![]), Ok(expected_include(&[], &[], &[])));
}

#[test]
fn type_table_numbers_objects_in_order() {
    let names = vec!["Monster".to_string(), "Vec3".to_string(), "Weapon".to_string()];
    let table = type_table(&names);
    assert_eq!(table.len(), 3);
    assert_eq!(table[&0], "Monster");
    assert_eq!(table[&1], "Vec3");
    assert_eq!(table[&2], "Weapon");
    assert!(!table.contains_key(&3));
    assert!(type_table(&vec![]).is_empty());
}

fn put_u16(b: &mut Vec<u8>, at: usize, v: u16) {
    b[at..at + 2].copy_from_slice(&v.to_le_bytes());
}

fn put_u32(b: &mut Vec<u8>, at: usize, v: u32) {
    b[at..at + 4].copy_from_slice(&v.to_le_bytes());
}

/// A compiled schema with the objects `Monster` and `Weapon`; its root table
/// is `Monster` when `with_root` holds, and absent otherwise.
fn compiled_schema(with_root: bool) -> Vec<u8> {
    let mut b = vec![0u8; 92];
    put_u32(&mut b, 0, 20); // root table at 20
    // the schema's vtable at 4: objects at +4, root_table at +8
    put_u16(&mut b, 4, if with_root { 14 } else { 12 });
    put_u16(&mut b, 6, 12);
    put_u16(&mut b, 8, 4);
    put_u16(&mut b, 16, 8);
    // the schema table at 20
    put_u32(&mut b, 20, 16); // back to the vtable at 4
    put_u32(&mut b, 24, 32 - 24); // objects vector at 32
    put_u32(&mut b, 28, 52 - 28); // root object at 52
    // the objects vector at 32
    put_u32(&mut b, 32, 2);
    put_u32(&mut b, 36, 52 - 36);
    put_u32(&mut b, 40, 60 - 40);
    // the objects' vtable at 44: name at +4
    put_u16(&mut b, 44, 6);
    put_u16(&mut b, 46, 8);
    put_u16(&mut b, 48, 4);
    // the objects at 52 and 60
    put_u32(&mut b, 52, 8);
    put_u32(&mut b, 56, 68 - 56);
    put_u32(&mut b, 60, 16);
    put_u32(&mut b, 64, 80 - 64);
    // the names at 68 and 80
    put_u32(&mut b, 68, 7);
    b[72..79].copy_from_slice(b"Monster");
    put_u32(&mut b, 80, 6);
    b[84..90].copy_from_slice(b"Weapon");
    b
}

#[test]
fn reads_root_name_of_compiled_schema() {
    assert_eq!(reflected_root_name(&compiled_schema(true)), Ok(Some("Monster".to_string())));
    assert_eq!(reflected_root_name(&compiled_schema(false)), Ok(None));
    assert_eq!(reflected_root_name(&[1, 0]), Err(SchemaError::Malformed));
    let s = compiled_schema(true);
    assert_eq!(reflected_root_name(&s[..75]), Err(SchemaError::Malformed));
    let mut bad_utf8 = compiled_schema(true);
    bad_utf8[72] = 0xff;
    assert_eq!(reflected_root_name(&bad_utf8), Err(SchemaError::Malformed));
}

#[test]
fn type_table_of_compiled_schema() {
    let s = compiled_schema(true);
    assert_eq!(reflected_object_names(&s), Some(vec!["Monster".to_string(), "Weapon".to_string()]));
    let table = generate_type_table(&s).unwrap();
    assert_eq!(table.len(), 2);
    assert_eq!(table[&0], "Monster");
    assert_eq!(table[&1], "Weapon");
    assert_eq!(checked_generate_type_table(&s), Some(table));
    assert_eq!(checked_generate_type_table(&s[..85]), None);
    assert_eq!(checked_generate_type_table(&[]), None);
}
