use il2cpp_bridge_rs::names::{
    csharp_alias, format_class_name, format_type_name_str, generic_arity, split_generic_type,
    split_top_level, strip_assembly_qualifiers,
};
use il2cpp_bridge_rs::model::resolve_inflated;

#[test]
fn alias_of_primitive_names() {
    assert_eq!(csharp_alias("System.Int32"), Some("int"));
    assert_eq!(csharp_alias("Int32"), Some("int"));
    assert_eq!(csharp_alias("System.String"), Some("string"));
    assert_eq!(csharp_alias("Boolean"), Some("bool"));
    assert_eq!(csharp_alias("System.Void"), Some("void"));
    assert_eq!(csharp_alias("System.Object"), Some("object"));
    assert_eq!(csharp_alias("UnityEngine.Vector3"), None);
    assert_eq!(csharp_alias("int"), None);
}

#[test]
fn arity_after_backtick() {
    assert_eq!(generic_arity("List`1"), 1);
    assert_eq!(generic_arity("System.Collections.Generic.Dictionary`2[System.String,System.Int32]"), 2);
    assert_eq!(generic_arity("Tuple`12"), 12);
    assert_eq!(generic_arity("Plain"), 0);
    assert_eq!(generic_arity("Odd`"), 0);
    assert_eq!(generic_arity("Odd`x"), 0);
}

#[test]
fn split_generic_square_brackets() {
    let (base, args) = split_generic_type("System.Collections.Generic.List`1[System.Int32]").unwrap();
    assert_eq!(base, "System.Collections.Generic.List");
    assert_eq!(args, vec!["System.Int32"]);
}

#[test]
fn split_generic_angle_brackets() {
    let (base, args) = split_generic_type("Dict`2<int, string>").unwrap();
    assert_eq!(base, "Dict");
    assert_eq!(args, vec!["int", "string"]);
}

#[test]
fn split_generic_without_arguments() {
    let (base, args) = split_generic_type("List`1").unwrap();
    assert_eq!(base, "List");
    assert!(args.is_empty());
    assert!(split_generic_type("Plain").is_none());
    assert!(split_generic_type("Odd`x").is_none());
}

#[test]
fn split_top_level_respects_nesting() {
    assert_eq!(split_top_level("A, B<C,D>, E[F,G]"), vec!["A", "B<C,D>", "E[F,G]"]);
    assert_eq!(split_top_level("a,,b"), vec!["a", "", "b"]);
    assert_eq!(split_top_level("a, "), vec!["a"]);
    assert!(split_top_level("").is_empty());
}

#[test]
fn class_names_formatted() {
    assert_eq!(format_class_name("Int32"), "int");
    assert_eq!(format_class_name("Int32[]"), "int[]");
    assert_eq!(format_class_name("Foo[,]"), "Foo[,]");
    assert_eq!(format_class_name("List`1"), "List<T0>");
    assert_eq!(format_class_name("Dictionary`2"), "Dictionary<T0, T1>");
    assert_eq!(format_class_name("Foo`0"), "Foo");
    assert_eq!(format_class_name("Bar"), "Bar");
}

#[test]
fn type_names_formatted() {
    assert_eq!(
        format_type_name_str("System.Collections.Generic.Dictionary`2[System.String,System.Int32]"),
        "Dictionary<string, int>"
    );
    assert_eq!(format_type_name_str(" System.Int32 "), "int");
    assert_eq!(format_type_name_str("System.String[]"), "string[]");
    assert_eq!(format_type_name_str("System.Int32[,]"), "int[,]");
    assert_eq!(format_type_name_str("UnityEngine.Vector3"), "Vector3");
    assert_eq!(format_type_name_str("List`1"), "List<T0>");
    assert_eq!(
        format_type_name_str("System.Collections.Generic.List`1[System.Collections.Generic.List`1[System.Single]]"),
        "List<List<float>>"
    );
}

#[test]
fn assembly_qualifiers_stripped() {
    assert_eq!(
        strip_assembly_qualifiers(
            "System.Collections.Generic.Dictionary`2[[System.String, mscorlib],[System.Int32, mscorlib]], mscorlib"
        ),
        "System.Collections.Generic.Dictionary`2[System.String,System.Int32]"
    );
    assert_eq!(
        strip_assembly_qualifiers("Dictionary`2[[System.String, mscorlib],[System.Int32, mscorlib]], mscorlib"),
        "System.Collections.Generic.Dictionary`2[System.String,System.Int32]"
    );
    assert_eq!(
        strip_assembly_qualifiers("List`1[[Game.Item, Assembly-CSharp]], mscorlib"),
        "System.Collections.Generic.List`1[Game.Item]"
    );
    assert_eq!(
        strip_assembly_qualifiers("Game.Pool`1[[Game.Item, Assembly-CSharp]], Assembly-CSharp"),
        "Game.Pool`1[Game.Item]"
    );
    assert_eq!(strip_assembly_qualifiers("System.Int32, mscorlib"), "System.Int32");
    assert_eq!(strip_assembly_qualifiers("  UnityEngine.Vector3  "), "UnityEngine.Vector3");
}

#[test]
fn qualified_generic_name_reads_as_csharp() {
    let cleaned = strip_assembly_qualifiers(
        "System.Collections.Generic.Dictionary`2[[System.String, mscorlib],[System.Int32, mscorlib]], mscorlib",
    );
    assert_eq!(format_type_name_str(&cleaned), "Dictionary<string, int>");
    assert_eq!(
        resolve_inflated(Some(
            "System.Collections.Generic.List`1[[System.Int32, mscorlib]], mscorlib"
        )),
        Some("List<int>".to_string())
    );
    assert_eq!(resolve_inflated(None), None);
}

#[test]
fn array_suffix_follows_element_name() {
    for x in ["System.Int32", " List`1[System.String] ", "UnityEngine.Vector3", "System.Byte[]", "", "Dictionary`2"] {
        let arr = format!("{}[]", x);
        assert_eq!(format_type_name_str(&arr), format!("{}[]", format_type_name_str(x)));
    }
    assert_eq!(format_type_name_str("System.Byte[][]"), "byte[][]");
}
