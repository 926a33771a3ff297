use il2cpp_bridge_rs::class::Class;
use il2cpp_bridge_rs::model::{method_flags_static, method_rva, Arg, Field, Method, Property, Type};
use il2cpp_bridge_rs::properties::{accessor_properties, archive_properties};

fn ty(name: &str) -> Type {
    Type { address: 0, name: name.to_string(), size: 0, qualified_name: None, class_name: None }
}

fn arg(name: &str, tname: &str) -> Arg {
    Arg { name: name.to_string(), type_info: ty(tname) }
}

fn method(name: &str, ret: &str, args: Vec<Arg>, flags: i32, is_static: bool) -> Method {
    Method {
        address: 0x1000,
        token: 0x0600_0001,
        name: name.to_string(),
        class: None,
        return_type: ty(ret),
        flags,
        is_static,
        function: 0,
        rva: 0,
        va: 0,
        param_count: args.len() as u8,
        args,
        is_generic: false,
        is_inflated: false,
        is_instance: !is_static,
        declaring_type: 0,
        instance: None,
    }
}

fn field(name: &str, tname: &str, offset: i32, flags: i32) -> Field {
    Field::from_metadata(0x2000, name.to_string(), ty(tname), None, offset, flags)
}

fn class(name: &str, namespace: &str) -> Class {
    Class {
        address: 0x3000,
        image: 0,
        token: 0x0200_0010,
        name: name.to_string(),
        parent: None,
        namespace: namespace.to_string(),
        is_enum: false,
        is_generic: false,
        is_inflated: false,
        is_interface: false,
        is_abstract: false,
        is_blittable: false,
        is_valuetype: false,
        flags: 0,
        rank: 0,
        instance_size: 0,
        array_element_size: 0,
        num_fields_count: 0,
        enum_basetype: 0,
        static_field_data: 0,
        assembly_name: String::new(),
        fields: Vec::new(),
        methods: Vec::new(),
        properties: Vec::new(),
        interfaces: Vec::new(),
        nested_types: Vec::new(),
        element_class: 0,
        declaring_type: 0,
        ty: 0,
        object: 0,
    }
}

#[test]
fn field_flags_decoded() {
    let f = field("MaxValue", "System.Int32", 0, 0x0006 | 0x0040);
    assert!(f.is_literal);
    assert!(f.is_static);
    assert!(!f.is_readonly);
    let g = field("speed", "System.Single", 0x18, 0x0001 | 0x0020);
    assert!(!g.is_static);
    assert!(g.is_readonly);
    let h = field("count", "System.Int32", 0x10, 0x0006 | 0x0010 | 0x0080);
    assert!(h.is_static);
    assert!(h.is_not_serialized);
    assert!(!h.is_literal);
}

#[test]
fn field_lines_rendered() {
    assert_eq!(field("MaxValue", "System.Int32", 0, 0x0046).to_string(), "public const int MaxValue; // 0x0");
    assert_eq!(field("speed", "System.Single", 0x18, 0x0021).to_string(), "private readonly float speed; // 0x18");
    assert_eq!(field("count", "System.Int32", 0x10, 0x0016).to_string(), "public static int count; // 0x10");
    assert_eq!(field("neg", "System.Int32", -1, 0x0003).to_string(), "internal int neg; // 0xFFFFFFFF");
}

#[test]
fn method_text_without_rva() {
    let m = method("Foo", "System.Void", vec![arg("a", "System.Int32"), arg("b", "System.String")], 0x0016, true);
    assert_eq!(m.to_string(), "// RVA: -1 Offset: -1 VA: -1\npublic static void Foo(int a, string b) { }");
}

#[test]
fn method_text_with_rva_and_qualifiers() {
    let mut m = method("Tick", "System.Boolean", vec![], 0x0046, false);
    m.rva = 0x1A2B;
    m.va = 0x7FF0_1A2B;
    assert_eq!(m.to_string(), "// RVA: 0x1A2B Offset: 0x1A2B VA: 0x7FF01A2B\npublic virtual bool Tick() { }");
    let sealed = method("Seal", "System.Void", vec![], 0x0066, false);
    assert!(sealed.to_string().ends_with("public void Seal() { }"));
    let abs = method("Run", "System.Void", vec![], 0x0404, false);
    assert!(abs.to_string().ends_with("protected abstract void Run() { }"));
}

#[test]
fn method_rva_relative_to_image() {
    assert_eq!(method_rva(0x1000, 0x1234), 0x234);
    assert_eq!(method_rva(0, 0x1234), 0);
    assert_eq!(method_rva(0x1000, 0), 0);
    assert_eq!(method_rva(0x2000, 0x1000), (usize::MAX - 0x1000 + 1) as u64);
    assert!(method_flags_static(0x0010));
    assert!(!method_flags_static(0x0006));
}

#[test]
fn property_from_accessors() {
    let getter = method("get_Health", "System.Int32", vec![], 0x0006, false);
    let setter = method("set_Health", "System.Void", vec![arg("value", "System.Int32")], 0x0006, false);
    let p = Property::from_methods(Some(getter), Some(setter)).unwrap();
    assert_eq!(p.name, "Health");
    assert_eq!(p.access, "public");
    assert!(p.has_getter() && p.has_setter());
    assert_eq!(p.to_string(), "public int Health { get; set; }");
    let only_set = method("set_Name", "System.Void", vec![arg("value", "System.String")], 0x0011, true);
    let q = Property::from_methods(None, Some(only_set)).unwrap();
    assert_eq!(q.to_string(), "private static string Name { set; }");
    assert!(Property::from_methods(None, None).is_none());
}

#[test]
fn properties_paired_and_sorted() {
    let methods = vec![
        method("set_Zeta", "System.Void", vec![arg("value", "System.Int32")], 0x0006, false),
        method("get_Alpha", "System.String", vec![], 0x0006, false),
        method("get_Zeta", "System.Int32", vec![], 0x0006, false),
        method("get_Bad", "System.Int32", vec![arg("x", "System.Int32")], 0x0006, false),
        method("Update", "System.Void", vec![], 0x0006, false),
        method("set_Only", "System.Void", vec![arg("value", "System.Single")], 0x0001, false),
    ];
    let props = accessor_properties(&methods);
    let names: Vec<&str> = props.iter().map(|p| p.name.as_str()).collect();
    assert_eq!(names, vec!["Alpha", "Only", "Zeta"]);
    assert_eq!(props[2].to_string(), "public int Zeta { get; set; }");
    assert_eq!(props[1].to_string(), "private float Only { set; }");
}

#[test]
fn last_accessor_of_a_name_wins() {
    let methods = vec![
        method("get_Value", "System.Int32", vec![], 0x0006, false),
        method("get_Value", "System.Int64", vec![], 0x0001, false),
    ];
    let props = accessor_properties(&methods);
    assert_eq!(props.len(), 1);
    assert_eq!(props[0].to_string(), "private long Value { get; }");
}

#[test]
fn archive_appends_properties() {
    let mut c = class("Player", "Game");
    c.methods.push(method("get_Score", "System.Int32", vec![], 0x0006, false));
    archive_properties(&mut c);
    assert_eq!(c.properties.len(), 1);
    assert_eq!(c.properties[0].name, "Score");
    assert_eq!(c.methods.len(), 1);
}

#[test]
fn class_dump_with_sections() {
    let mut c = class("Player", "Game");
    c.assembly_name = "Assembly-CSharp".to_string();
    c.parent = Some("UnityEngine.MonoBehaviour".to_string());
    c.fields.push(field("speed", "System.Single", 0x18, 0x0001));
    c.methods.push(method(".ctor", "System.Void", vec![], 0x0006, false));
    c.methods.push(method("get_Score", "System.Int32", vec![], 0x0006, false));
    archive_properties(&mut c);
    let expected = [
        "// Namespace: Game \u{2014} Assembly-CSharp.dll",
        "public class Player : UnityEngine.MonoBehaviour // TypeDefIndex: 16",
        "{",
        "    // Fields",
        "    private float speed; // 0x18",
        "",
        "    // Properties",
        "    public int Score { get; }",
        "",
        "    // Constructors",
        "    // RVA: -1 Offset: -1 VA: -1",
        "    public void .ctor() { }",
        "",
        "    // Methods",
        "    // RVA: -1 Offset: -1 VA: -1",
        "    public int get_Score() { }",
        "",
        "}",
        "",
    ]
    .join("\n");
    assert_eq!(c.dump_string(), expected);
}

#[test]
fn class_dump_header_variants() {
    let mut c = class("Thing", "");
    assert_eq!(c.dump_string(), "public class Thing // TypeDefIndex: 16\n{\n}\n");
    c.assembly_name = "Lib.dll".to_string();
    c.is_valuetype = true;
    assert_eq!(c.dump_string(), "// Image: Lib.dll\npublic struct Thing // TypeDefIndex: 16\n{\n}\n");
    let mut i = class("IThing", "Ns");
    i.is_interface = true;
    i.is_abstract = true;
    assert_eq!(i.dump_string(), "// Namespace: Ns\npublic interface IThing // TypeDefIndex: 16\n{\n}\n");
    let mut a = class("Base", "");
    a.is_abstract = true;
    a.methods.push(method("Run", "System.Void", vec![], 0x0406, false));
    assert_eq!(
        a.dump_string(),
        "public abstract class Base // TypeDefIndex: 16\n{\n    // Methods\n    // RVA: -1 Offset: -1 VA: -1\n    public abstract void Run() { }\n\n}\n"
    );
}

#[test]
fn enum_dump_lists_members() {
    let mut e = class("Color", "Game");
    e.is_enum = true;
    e.is_valuetype = true;
    e.fields.push(field("value__", "System.Byte", 0x10, 0x0606));
    let mut red = field("Red", "Game.Color", 0, 0x8056);
    red.constant = Some(0);
    let mut blue = field("Blue", "Game.Color", 0, 0x8056);
    blue.constant = Some(2);
    let green = field("Green", "Game.Color", 0, 0x8056);
    e.fields.push(red);
    e.fields.push(blue);
    e.fields.push(green);
    assert_eq!(e.enum_underlying_type(), "byte");
    assert_eq!(
        e.dump_string(),
        "// Namespace: Game\npublic enum Color : byte // TypeDefIndex: 16\n{\n    Red = 0,\n    Blue = 2,\n    Green,\n}\n"
    );
}

#[test]
fn empty_enum_marked() {
    let mut e = class("Nothing", "");
    e.is_enum = true;
    e.fields.push(field("value__", "System.Int64", 0x10, 0x0606));
    assert_eq!(e.enum_underlying_type(), "long");
    assert_eq!(e.dump_string(), "public enum Nothing : long // TypeDefIndex: 16\n{\n    // Empty enum\n}\n");
}

#[test]
fn enum_value_text_needs_integral_type() {
    let mut f = field("Minus", "Game.E", 0, 0x8056);
    f.constant = Some(-3);
    assert_eq!(Class::enum_value_string(&f, "int"), Some("-3".to_string()));
    assert_eq!(Class::enum_value_string(&f, "float"), None);
    f.constant = None;
    assert_eq!(Class::enum_value_string(&f, "int"), None);
}

#[test]
fn method_lookup_through_parents() {
    let mut child = class("Child", "");
    child.parent = Some("Base".to_string());
    child.methods.push(method("Jump", "System.Void", vec![arg("h", "System.Single")], 0x0006, false));
    let mut base = class("Base", "");
    base.methods.push(method("Jump", "System.Void", vec![], 0x0006, false));
    base.methods.push(method("Walk", "System.Void", vec![arg("s", "System.Single"), arg("d", "System.Int32")], 0x0006, false));
    let ancestors = vec![base];
    assert_eq!(child.method("Jump", &ancestors).unwrap().args.len(), 1);
    assert_eq!(child.method(("Jump", 0usize), &ancestors).unwrap().args.len(), 0);
    assert!(child.method(("Walk", ["System.Single", "System.Int32"]), &ancestors).is_some());
    assert!(child.method(("Walk", ["System.Int32", "System.Single"]), &ancestors).is_none());
    let params: &[&str] = &["System.Single"];
    assert!(child.method(("Jump", params), &ancestors).is_some());
    assert!(child.method("Fly", &ancestors).is_none());
}

#[test]
fn lookup_stops_without_parent() {
    let mut child = class("Orphan", "");
    child.fields.push(field("x", "System.Int32", 0x10, 0x0006));
    let mut other = class("Other", "");
    other.fields.push(field("y", "System.Int32", 0x10, 0x0006));
    let ancestors = vec![other];
    assert!(child.field("x", &ancestors).is_some());
    assert!(child.field("y", &ancestors).is_none());
    child.parent = Some("Other".to_string());
    assert_eq!(child.field("y", &ancestors).unwrap().name, "y");
}

#[test]
fn property_lookup_by_name() {
    let mut c = class("Holder", "");
    c.methods.push(method("get_Size", "System.Int32", vec![], 0x0006, false));
    archive_properties(&mut c);
    assert_eq!(c.property("Size", &vec![]).unwrap().name, "Size");
    assert!(c.property("size", &vec![]).is_none());
}

#[test]
fn type_display_names() {
    let t = ty("System.Collections.Generic.List`1[System.Int32]");
    assert_eq!(t.cpp_name(), "List<int>");
    let mut u = ty("Foo");
    u.address = 1;
    u.class_name = Some("Int32[]".to_string());
    assert_eq!(u.cpp_name(), "int[]");
    let mut v = ty("System.Collections.Generic.List`1");
    v.address = 1;
    v.qualified_name = Some("System.Collections.Generic.List`1[[System.String, mscorlib]], mscorlib".to_string());
    assert_eq!(v.cpp_name(), "List<string>");
    assert!(ty("System.Int32").matches_name("System.Int32"));
    assert!(!ty("System.Int32").matches_name("int"));
}

#[test]
fn archive_keeps_existing_properties_first() {
    let mut c = class("Player", "Game");
    c.methods.push(method("get_Score", "System.Int32", vec![], 0x0006, false));
    archive_properties(&mut c);
    c.methods.push(method("get_Alpha", "System.Int32", vec![], 0x0006, false));
    archive_properties(&mut c);
    let names: Vec<&str> = c.properties.iter().map(|p| p.name.as_str()).collect();
    assert_eq!(names, vec!["Score", "Alpha", "Score"]);
}
