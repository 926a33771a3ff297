use il2cpp_bridge_rs::class::Class;
use il2cpp_bridge_rs::dump::{
    dump, dump_all, dump_all_to, dump_assembly, dump_root, dump_to, image_list, min_type_index,
    sorted_assemblies, write_assembly, write_matching, Assembly, Image,
};

fn class(name: &str, token: u32) -> Class {
    Class {
        address: 0,
        image: 0,
        token,
        name: name.to_string(),
        parent: None,
        namespace: String::new(),
        is_enum: false,
        is_generic: false,
        is_inflated: false,
        is_interface: false,
        is_abstract: false,
        is_blittable: false,
        is_valuetype: false,
        flags: 0,
        rank: 0,
        instance_size: 0,
        array_element_size: 0,
        num_fields_count: 0,
        enum_basetype: 0,
        static_field_data: 0,
        assembly_name: String::new(),
        fields: Vec::new(),
        methods: Vec::new(),
        properties: Vec::new(),
        interfaces: Vec::new(),
        nested_types: Vec::new(),
        element_class: 0,
        declaring_type: 0,
        ty: 0,
        object: 0,
    }
}

fn assembly(name: &str, classes: Vec<Class>) -> Assembly {
    Assembly {
        image: Image {
            address: 0,
            name: name.to_string(),
            filename: format!("{}.dll", name),
            assembly: 0,
            entry_point: 0,
        },
        address: 0xABC0,
        file: format!("{}.dll", name),
        name: name.to_string(),
        classes,
    }
}

fn sample() -> Vec<Assembly> {
    vec![
        assembly("Game", vec![class("Player", 0x0200_0007), class("Enemy", 0x0200_0005)]),
        assembly("Empty", vec![]),
        assembly("mscorlib", vec![class("Object", 0x0200_0001)]),
        assembly("Late", vec![class("Zed", 0x0200_0005)]),
    ]
}

#[test]
fn least_type_index() {
    assert_eq!(min_type_index(&vec![class("A", 0x0200_0009), class("B", 0x0200_0003)]), Some(3));
    assert_eq!(min_type_index(&vec![]), None);
}

#[test]
fn assemblies_sorted_stably_by_first_index() {
    let names: Vec<String> = sorted_assemblies(sample()).into_iter().map(|a| a.name).collect();
    assert_eq!(names, vec!["mscorlib", "Game", "Late", "Empty"]);
}

#[test]
fn image_table_lines() {
    let sorted = sorted_assemblies(sample());
    assert_eq!(
        image_list(&sorted),
        "// Image 0: mscorlib.dll - 0\n// Image 1: Game.dll - 4\n// Image 2: Late.dll - 4\n// Image 3: Empty.dll - 0\n\n"
    );
}

#[test]
fn assembly_body_lists_classes() {
    let mut s = String::new();
    write_assembly(&mut s, &assembly("One", vec![class("A", 0x0200_0002)]));
    assert_eq!(s, "\npublic class A // TypeDefIndex: 2\n{\n}\n\n");
    let mut t = String::from("x");
    write_assembly(&mut t, &assembly("None", vec![]));
    assert_eq!(t, "x");
}

#[test]
fn matching_assemblies_by_name() {
    let all = sample();
    let mut s = String::new();
    write_matching(&mut s, &all, Some("a"));
    assert_eq!(
        s,
        "\npublic class Player // TypeDefIndex: 7\n{\n}\n\n\npublic class Enemy // TypeDefIndex: 5\n{\n}\n\n\npublic class Zed // TypeDefIndex: 5\n{\n}\n\n"
    );
}

#[test]
fn dump_root_choice() {
    assert_eq!(dump_root(Some("/tmp/out"), Ok("/data".to_string())), "/tmp/out");
    assert_eq!(dump_root(None, Ok("/data".to_string())), "/data");
    assert_eq!(dump_root(None, Err("no path".to_string())), ".");
}

#[test]
fn dump_writes_one_file_per_assembly() {
    let plan = dump(sample(), Ok("/data".to_string()));
    assert_eq!(plan.root, "/data");
    let names: Vec<&str> = plan.files.iter().map(|f| f.name.as_str()).collect();
    assert_eq!(names, vec!["mscorlib.cs", "Game.cs", "Late.cs", "Empty.cs"]);
    let table = "// Image 0: mscorlib.dll - 0\n// Image 1: Game.dll - 4\n// Image 2: Late.dll - 4\n// Image 3: Empty.dll - 0\n\n";
    assert_eq!(plan.files[0].contents, format!("{}\npublic class Object // TypeDefIndex: 1\n{{\n}}\n\n", table));
    assert_eq!(plan.files[3].contents, table);
}

#[test]
fn dump_all_writes_one_file() {
    let plan = dump_all(sample(), Err("unavailable".to_string()));
    assert_eq!(plan.root, ".");
    assert_eq!(plan.files.len(), 1);
    assert_eq!(plan.files[0].name, "dump.cs");
    assert!(plan.files[0].contents.starts_with("// Image 0: mscorlib.dll - 0\n"));
    assert!(plan.files[0].contents.ends_with("public class Zed // TypeDefIndex: 5\n{\n}\n\n"));
}

#[test]
fn dump_to_base_path() {
    let plan = dump_to("/sdcard", sample());
    assert_eq!(plan.root, "/sdcard");
    assert_eq!(plan.files.len(), 4);
    let single = dump_all_to("/sdcard", sample());
    assert_eq!(single.root, "/sdcard");
    assert_eq!(single.files.len(), 1);
    let separate_bodies: String = plan
        .files
        .iter()
        .map(|f| f.contents[image_list(&sorted_assemblies(sample())).len()..].to_string())
        .collect();
    assert_eq!(single.files[0].contents, format!("{}{}", image_list(&sorted_assemblies(sample())), separate_bodies));
}

#[test]
fn dump_single_assembly() {
    let plan = dump_assembly(Some("Gam"), sample(), Ok("/data".to_string()));
    assert_eq!(plan.files.len(), 1);
    assert_eq!(plan.files[0].name, "Gam.cs");
    assert!(plan.files[0].contents.ends_with("public class Enemy // TypeDefIndex: 5\n{\n}\n\n"));
    assert!(!plan.files[0].contents.contains("class Zed"));
    let all = dump_assembly(None, sample(), Ok("/data".to_string()));
    assert_eq!(all.files[0].name, "dump.cs");
}

#[test]
fn assembly_summary_text() {
    let a = assembly("One", vec![class("A", 0x0200_0002)]);
    assert_eq!(a.to_string(), "// Assembly: One (One.dll) @ 0xabc0\n\npublic class A // TypeDefIndex: 2\n{\n}\n");
}

#[test]
fn sorted_input_keeps_its_order() {
    let input = vec![
        assembly("A", vec![class("X", 0x0200_0001)]),
        assembly("B", vec![class("Y", 0x0200_0001)]),
        assembly("C", vec![class("Z", 0x0200_0009)]),
        assembly("D", vec![]),
    ];
    let names: Vec<String> = sorted_assemblies(input).into_iter().map(|a| a.name).collect();
    assert_eq!(names, vec!["A", "B", "C", "D"]);
}

#[test]
fn every_file_starts_with_the_image_table() {
    let table = image_list(&sorted_assemblies(sample()));
    let plan = dump_to("/out", sample());
    for file in &plan.files {
        assert!(file.contents.starts_with(&table));
    }
    assert_eq!(plan.files.len(), sample().len());
}
