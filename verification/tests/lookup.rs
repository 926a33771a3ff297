use il2cpp_bridge_rs::class::Class;
use il2cpp_bridge_rs::dump::{Assembly, Image};
use il2cpp_bridge_rs::handles::LayerMask;
use il2cpp_bridge_rs::hydrate::{field_type_label, hydration_error, method_key, parent_name, reuse_cached, type_size, cached_class};
use il2cpp_bridge_rs::lookup::{find_assembly, qualified_name, split_type_name, Physics, Time};
use std::cell::RefCell;

fn class(name: &str, namespace: &str) -> Class {
    Class {
        address: 0x50,
        image: 0,
        token: 0,
        name: name.to_string(),
        parent: None,
        namespace: namespace.to_string(),
        is_enum: false,
        is_generic: false,
        is_inflated: false,
        is_interface: false,
        is_abstract: false,
        is_blittable: false,
        is_valuetype: false,
        flags: 0,
        rank: 0,
        instance_size: 0,
        array_element_size: 0,
        num_fields_count: 0,
        enum_basetype: 0,
        static_field_data: 0,
        assembly_name: String::new(),
        fields: Vec::new(),
        methods: Vec::new(),
        properties: Vec::new(),
        interfaces: Vec::new(),
        nested_types: Vec::new(),
        element_class: 0,
        declaring_type: 0,
        ty: 0,
        object: 0,
    }
}

fn image(address: usize) -> Image {
    Image { address, name: "UnityEngine.CoreModule.dll".to_string(), filename: "UnityEngine.CoreModule.dll".to_string(), assembly: 0x900, entry_point: 0 }
}

fn assembly(name: &str, address: usize) -> Assembly {
    Assembly { image: image(0x77), address, file: name.to_string(), name: name.to_string(), classes: Vec::new() }
}

#[test]
fn split_qualified_names() {
    assert_eq!(split_type_name("UnityEngine.GameObject"), ("UnityEngine", "GameObject"));
    assert_eq!(split_type_name("A.B.C"), ("A.B", "C"));
    assert_eq!(split_type_name("LayerMask"), ("", "LayerMask"));
    assert_eq!(qualified_name("UnityEngine", "GameObject"), "UnityEngine.GameObject");
    assert_eq!(qualified_name("", "LayerMask"), "LayerMask");
}

#[test]
fn assembly_found_with_or_without_suffix() {
    let all = vec!["mscorlib.dll".to_string(), "Assembly-CSharp.dll".to_string(), "Plain".to_string()];
    assert_eq!(find_assembly(&all, "mscorlib.dll"), Some(0));
    assert_eq!(find_assembly(&all, "Assembly-CSharp"), Some(1));
    assert_eq!(find_assembly(&all, "Plain"), Some(2));
    assert_eq!(find_assembly(&all, "Plain.dll"), None);
    assert_eq!(find_assembly(&all, "Missing"), None);
}

#[test]
fn assembly_class_prefers_runtime_lookup() {
    let core = assembly("UnityEngine.CoreModule.dll", 5);
    let asked = RefCell::new(Vec::new());
    let found = core.class(
        "UnityEngine.Physics",
        |img: usize, ns: &str, n: &str| {
            asked.borrow_mut().push((img, ns.to_string(), n.to_string()));
            0x1234
        },
        |p: usize| if p == 0x1234 { Some(class("Physics", "UnityEngine")) } else { None },
        |_n: &str| Some(class("Cached", "")),
    );
    assert_eq!(found.unwrap().name, "Physics");
    assert_eq!(asked.borrow()[0], (0x77, "UnityEngine".to_string(), "Physics".to_string()));
}

#[test]
fn assembly_class_falls_back_to_cache() {
    let core = assembly("UnityEngine.CoreModule.dll", 5);
    let r = core.class("LayerMask", |_i: usize, _ns: &str, _n: &str| 0, |_p: usize| None, |n: &str| {
        if n == "LayerMask" { Some(class("LayerMask", "UnityEngine")) } else { None }
    });
    assert_eq!(r.unwrap().name, "LayerMask");
    let none = core.class("Bad\0Name", |_i: usize, _ns: &str, _n: &str| 1, |_p: usize| Some(class("X", "")), |_n: &str| Some(class("Y", "")));
    assert!(none.is_none());
    let failed = core.class("A.B", |_i: usize, _ns: &str, _n: &str| 9, |_p: usize| None, |_n: &str| Some(class("Y", "")));
    assert!(failed.is_none());
}

#[test]
fn image_class_checks_cache_first() {
    let img = image(0x88);
    let r = img.class("Game.Player", |_i: usize, _ns: &str, _n: &str| 0x10, |_p: usize| Some(class("FromRuntime", "")), |_n: &str| Some(class("FromCache", "")));
    assert_eq!(r.unwrap().name, "FromCache");
    let s = img.class("Game.Player", |i: usize, ns: &str, n: &str| if i == 0x88 && ns == "Game" && n == "Player" { 0x10 } else { 0 }, |_p: usize| Some(class("FromRuntime", "")), |_n: &str| None);
    assert_eq!(s.unwrap().name, "FromRuntime");
    let t = img.class("Game.Player", |_i: usize, _ns: &str, _n: &str| 0, |_p: usize| Some(class("FromRuntime", "")), |_n: &str| None);
    assert!(t.is_none());
}

#[test]
fn image_assembly_by_address() {
    let all = vec![assembly("a", 0x10), assembly("b", 0x20)];
    let img = image(0x88);
    assert_eq!(img.get_assembly(0x20, &all), Some(1));
    assert_eq!(img.get_assembly(0, &all), None);
    assert_eq!(img.get_assembly(0x30, &all), None);
}

#[test]
fn wrapper_classes_by_name() {
    let core = assembly("UnityEngine.CoreModule.dll", 5);
    let seen = RefCell::new(Vec::new());
    let lookup = |_i: usize, ns: &str, n: &str| {
        seen.borrow_mut().push(format!("{}|{}", ns, n));
        0
    };
    assert!(LayerMask::get_class(&core, &lookup, |_p: usize| None, |_n: &str| None).is_none());
    assert!(Physics::get_class(&core, &lookup, |_p: usize| None, |_n: &str| None).is_none());
    assert!(Time::get_class(&core, &lookup, |_p: usize| None, |_n: &str| None).is_none());
    assert_eq!(*seen.borrow(), vec!["UnityEngine|LayerMask", "UnityEngine|Physics", "UnityEngine|Time"]);
}

#[test]
fn hydration_values() {
    assert_eq!(method_key("Game.Player", "Update"), "Game.Player::Update");
    assert_eq!(parent_name(Some("Object"), Some("UnityEngine")), Some("UnityEngine.Object".to_string()));
    assert_eq!(parent_name(Some("Object"), None), Some("Object".to_string()));
    assert_eq!(parent_name(Some("Object"), Some("")), Some("Object".to_string()));
    assert_eq!(parent_name(None, Some("X")), None);
    assert_eq!(type_size(false, true, 12, 8), 0);
    assert_eq!(type_size(true, true, 12, 8), 12);
    assert_eq!(type_size(true, false, 12, 8), 8);
    assert_eq!(field_type_label(None), "System.Object");
    assert_eq!(field_type_label(Some("System.Int32")), "System.Int32");
    assert_eq!(hydration_error(3, "Game.dll", "boom"), "Failed to hydrate class 3 in assembly 'Game.dll': boom");
}

#[test]
fn split_then_qualify_gives_name_back() {
    for name in ["UnityEngine.GameObject", "A.B.C", "LayerMask", "Ns.Inner.Type"] {
        let (ns, cls) = split_type_name(name);
        assert_eq!(qualified_name(ns, cls), name);
    }
    let (ns, cls) = split_type_name(".Lead");
    assert_eq!(qualified_name(ns, cls), "Lead");
}

#[test]
fn cached_class_reused_only_for_same_address() {
    let c = class("Player", "Game");
    let reused = reuse_cached(Some(&c), 0x50).unwrap();
    assert_eq!(reused.name, "Player");
    assert_eq!(reused.address, 0x50);
    assert!(reuse_cached(Some(&c), 0x60).is_none());
    assert!(reuse_cached(None, 0x50).is_none());
}

#[test]
fn method_links_only_to_cached_class() {
    let cached = vec![0x50, 0x60];
    assert_eq!(cached_class(0x60, &cached), Some(0x60));
    assert_eq!(cached_class(0x70, &cached), None);
    assert_eq!(cached_class(0, &vec![0]), None);
    assert_eq!(cached_class(0x50, &Vec::new()), None);
}
