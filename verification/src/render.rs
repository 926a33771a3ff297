//! C#-like pseudo-code for a class: the text a metadata dump writes.

use vstd::prelude::*;
use vstd::string::*;
use crate::class::Class;
use crate::model::{Field, Method, Property, field_text, method_text, property_text};
use crate::text::{
    chars_of, chars_eq, dec, dec_signed, ends_with, ends_with_str, find, find_char,
    lemma_find_from_bounds, push_dec, push_dec_signed, str_eq,
};

verus! {

/// `l` without one trailing carriage return.
pub open spec fn strip_cr(l: Seq<char>) -> Seq<char> {
    if l.len() > 0 && l.last() == '\r' {
        l.drop_last()
    } else {
        l
    }
}

/// Every line of `s` (as `str::lines` splits it) indented by four spaces
/// and ended with a newline.
pub open spec fn indented(s: Seq<char>) -> Seq<char>
    decreases s.len(),
{
    if s.len() == 0 {
        Seq::empty()
    } else {
        proof {
            lemma_find_from_bounds(s, '\n', 0);
        }
        match find(s, '\n') {
            None => "    "@ + s + "\n"@,
            Some(k) => "    "@ + strip_cr(s.subrange(0, k)) + "\n"@ + indented(
                s.subrange(k + 1, s.len() as int),
            ),
        }
    }
}

/// Appends the lines of `s`, each indented by four spaces and ended with
/// a newline.
pub fn push_indented(r: &mut String, s: &str)
    ensures
        final(r)@ == old(r)@ + indented(s@),
    decreases s@.len(),
{
    let v = chars_of(s);
    let n = v.len();
    if n == 0 {
        assert(final(r)@ =~= old(r)@ + indented(s@));
        return;
    }
    proof {
        lemma_find_from_bounds(v@, '\n', 0);
    }
    match find_char(&v, '\n') {
        None => {
            r.append("    ");
            r.append(s);
            r.append("\n");
            assert(r@ =~= old(r)@ + indented(s@));
        },
        Some(k) => {
            r.append("    ");
            let line = s.substring_char(0, k);
            if k > 0 && v[k - 1] == '\r' {
                r.append(s.substring_char(0, k - 1));
                assert(s@.subrange(0, k - 1) =~= strip_cr(line@));
            } else {
                r.append(line);
            }
            r.append("\n");
            let ghost mid = r@;
            assert(mid =~= old(r)@ + ("    "@ + strip_cr(s@.subrange(0, k as int)) + "\n"@));
            push_indented(r, s.substring_char(k + 1, n));
            assert(r@ =~= old(r)@ + indented(s@));
        },
    }
}

/// The C# keyword for the underlying type of an enum, from the type name
/// of its `value__` field.
pub open spec fn underlying_keyword(n: Seq<char>) -> Seq<char> {
    if n == "System.Byte"@ || n == "Byte"@ || n == "byte"@ {
        "byte"@
    } else if n == "System.SByte"@ || n == "SByte"@ || n == "sbyte"@ {
        "sbyte"@
    } else if n == "System.Int16"@ || n == "Int16"@ || n == "short"@ {
        "short"@
    } else if n == "System.UInt16"@ || n == "UInt16"@ || n == "ushort"@ {
        "ushort"@
    } else if n == "System.Int32"@ || n == "Int32"@ || n == "int"@ {
        "int"@
    } else if n == "System.UInt32"@ || n == "UInt32"@ || n == "uint"@ {
        "uint"@
    } else if n == "System.Int64"@ || n == "Int64"@ || n == "long"@ {
        "long"@
    } else if n == "System.UInt64"@ || n == "UInt64"@ || n == "ulong"@ {
        "ulong"@
    } else {
        "int"@
    }
}

/// Index of the first field called `value__` from `i` on.
pub open spec fn value_field(fs: Seq<Field>, i: int) -> Option<int>
    decreases fs.len() - i,
{
    if i < 0 || i >= fs.len() {
        None
    } else if fs[i].name@ == "value__"@ {
        Some(i)
    } else {
        value_field(fs, i + 1)
    }
}

/// The underlying type keyword of an enum class with fields `fs`.
pub open spec fn enum_underlying(fs: Seq<Field>) -> Seq<char> {
    match value_field(fs, 0) {
        Some(k) => underlying_keyword(fs[k].type_info.name@),
        None => underlying_keyword("System.Int32"@),
    }
}

/// One of the eight integral keywords an enum can have.
pub open spec fn is_integral_keyword(k: Seq<char>) -> bool {
    k == "byte"@ || k == "sbyte"@ || k == "short"@ || k == "ushort"@ || k == "int"@ || k == "uint"@
        || k == "long"@ || k == "ulong"@
}

/// The text of an enum constant: its value in decimal, when it was read
/// and the underlying type is integral.
pub open spec fn enum_value_text(f: Field, underlying: Seq<char>) -> Option<Seq<char>> {
    if is_integral_keyword(underlying) {
        match f.constant {
            Some(v) => Some(dec_signed(v as int)),
            None => None,
        }
    } else {
        None
    }
}

/// A field that a dump lists as an enum member.
pub open spec fn is_enum_member(f: Field) -> bool {
    f.is_static && f.name@ != "value__"@
}

/// The member line of one enum field.
pub open spec fn enum_member_line(f: Field, underlying: Seq<char>) -> Seq<char> {
    match enum_value_text(f, underlying) {
        Some(v) => "    "@ + f.name@ + " = "@ + v + ",\n"@,
        None => "    "@ + f.name@ + ",\n"@,
    }
}

/// The member lines of the enum members among `fs`.
pub open spec fn enum_members_text(fs: Seq<Field>, underlying: Seq<char>) -> Seq<char>
    decreases fs.len(),
{
    if fs.len() == 0 {
        Seq::empty()
    } else {
        enum_members_text(fs.drop_last(), underlying) + if is_enum_member(fs.last()) {
            enum_member_line(fs.last(), underlying)
        } else {
            Seq::empty()
        }
    }
}

/// `fs` has at least one enum member.
pub open spec fn has_enum_member(fs: Seq<Field>) -> bool {
    exists|i: int| 0 <= i < fs.len() && is_enum_member(#[trigger] fs[i])
}

/// The assembly file name of a class, with `.dll`, or empty.
pub open spec fn dll_name(c: Class) -> Seq<char> {
    if c.assembly_name@.len() == 0 {
        Seq::empty()
    } else if ends_with(c.assembly_name@, ".dll"@) {
        c.assembly_name@
    } else {
        c.assembly_name@ + ".dll"@
    }
}

/// The comment line naming a class's namespace and image.
pub open spec fn header_text(c: Class) -> Seq<char> {
    let ns = c.namespace@;
    let dll = dll_name(c);
    if ns.len() > 0 && dll.len() > 0 {
        "// Namespace: "@ + ns + " \u{2014} "@ + dll + "\n"@
    } else if ns.len() > 0 {
        "// Namespace: "@ + ns + "\n"@
    } else if dll.len() > 0 {
        "// Image: "@ + dll + "\n"@
    } else {
        Seq::empty()
    }
}

/// The TypeDefIndex of a class: the low 24 bits of its token.
pub open spec fn typedef_index(c: Class) -> u32 {
    c.token & 0xFF_FFFF
}

/// `enum`, `interface`, `struct` or `class`.
pub open spec fn type_keyword(c: Class) -> Seq<char> {
    if c.is_enum {
        "enum"@
    } else if c.is_interface {
        "interface"@
    } else if c.is_valuetype {
        "struct"@
    } else {
        "class"@
    }
}

/// The rendering of an enum class.
pub open spec fn enum_text(c: Class) -> Seq<char> {
    let u = enum_underlying(c.fields@);
    header_text(c) + "public enum "@ + c.name@ + " : "@ + u + " // TypeDefIndex: "@ + dec(
        typedef_index(c) as nat,
    ) + "\n{\n"@ + enum_members_text(c.fields@, u) + (if has_enum_member(c.fields@) {
        Seq::empty()
    } else {
        "    // Empty enum\n"@
    }) + "}\n"@
}

/// The declaration line of a class that is not an enum, with its `{`.
pub open spec fn declaration_text(c: Class) -> Seq<char> {
    "public "@ + (if c.is_abstract && !c.is_interface {
        "abstract "@
    } else {
        Seq::empty()
    }) + type_keyword(c) + " "@ + c.name@ + (match c.parent {
        Some(p) => " : "@ + p@,
        None => Seq::empty(),
    }) + " // TypeDefIndex: "@ + dec(typedef_index(c) as nat) + "\n{\n"@
}

/// The field lines of a class body.
pub open spec fn field_lines(fs: Seq<Field>) -> Seq<char>
    decreases fs.len(),
{
    if fs.len() == 0 {
        Seq::empty()
    } else {
        field_lines(fs.drop_last()) + "    "@ + field_text(fs.last()) + "\n"@
    }
}

/// The property lines of a class body.
pub open spec fn property_lines(ps: Seq<Property>) -> Seq<char>
    decreases ps.len(),
{
    if ps.len() == 0 {
        Seq::empty()
    } else {
        property_lines(ps.drop_last()) + "    "@ + property_text(ps.last()) + "\n"@
    }
}

/// A constructor (`.ctor`) or static constructor (`.cctor`).
pub open spec fn is_ctor(m: Method) -> bool {
    m.name@ == ".ctor"@ || m.name@ == ".cctor"@
}

/// The blocks of the methods of `ms` that are constructors (when `ctors`)
/// or are not: each method's lines indented, then an empty line.
pub open spec fn method_blocks(ms: Seq<Method>, ctors: bool) -> Seq<char>
    decreases ms.len(),
{
    if ms.len() == 0 {
        Seq::empty()
    } else {
        method_blocks(ms.drop_last(), ctors) + if is_ctor(ms.last()) == ctors {
            indented(method_text(ms.last())) + "\n"@
        } else {
            Seq::empty()
        }
    }
}

/// `ms` has a method that is a constructor (when `ctors`) or is not.
pub open spec fn has_kind(ms: Seq<Method>, ctors: bool) -> bool {
    exists|i: int| 0 <= i < ms.len() && is_ctor(#[trigger] ms[i]) == ctors
}

/// The fields section of a class body: its heading and one line per field.
pub open spec fn fields_section(c: Class) -> Seq<char> {
    if c.fields@.len() > 0 {
        "    // Fields\n"@ + field_lines(c.fields@)
    } else {
        Seq::empty()
    }
}

/// The properties section of a class body, set apart from the fields.
pub open spec fn properties_section(c: Class) -> Seq<char> {
    if c.properties@.len() > 0 {
        (if c.fields@.len() > 0 {
            "\n"@
        } else {
            Seq::empty()
        }) + "    // Properties\n"@ + property_lines(c.properties@)
    } else {
        Seq::empty()
    }
}

/// The constructors section of a class body, set apart from what precedes.
pub open spec fn constructors_section(c: Class) -> Seq<char> {
    if has_kind(c.methods@, true) {
        (if c.fields@.len() > 0 || c.properties@.len() > 0 {
            "\n"@
        } else {
            Seq::empty()
        }) + "    // Constructors\n"@ + method_blocks(c.methods@, true)
    } else {
        Seq::empty()
    }
}

/// The methods section of a class body; the constructor blocks already end
/// with an empty line.
pub open spec fn methods_section(c: Class) -> Seq<char> {
    if has_kind(c.methods@, false) {
        (if !has_kind(c.methods@, true) && (c.fields@.len() > 0 || c.properties@.len() > 0) {
            "\n"@
        } else {
            Seq::empty()
        }) + "    // Methods\n"@ + method_blocks(c.methods@, false)
    } else {
        Seq::empty()
    }
}

/// The sections of a class body: fields, properties, constructors and
/// methods, each under its heading and set apart by an empty line.
pub open spec fn body_text(c: Class) -> Seq<char> {
    fields_section(c) + properties_section(c) + constructors_section(c) + methods_section(c)
}

/// The C#-like rendering of a class (`Class::dump_string`).
#[verifier::opaque]
pub open spec fn class_text(c: Class) -> Seq<char> {
    if c.is_enum {
        enum_text(c)
    } else {
        header_text(c) + declaration_text(c) + body_text(c) + "}\n"@
    }
}

fn underlying_of(n: &str) -> (r: &'static str)
    ensures
        r@ == underlying_keyword(n@),
{
    let v = chars_of(n);
    if chars_eq(&v, "System.Byte") || chars_eq(&v, "Byte") || chars_eq(&v, "byte") {
        "byte"
    } else if chars_eq(&v, "System.SByte") || chars_eq(&v, "SByte") || chars_eq(&v, "sbyte") {
        "sbyte"
    } else if chars_eq(&v, "System.Int16") || chars_eq(&v, "Int16") || chars_eq(&v, "short") {
        "short"
    } else if chars_eq(&v, "System.UInt16") || chars_eq(&v, "UInt16") || chars_eq(&v, "ushort") {
        "ushort"
    } else if chars_eq(&v, "System.Int32") || chars_eq(&v, "Int32") || chars_eq(&v, "int") {
        "int"
    } else if chars_eq(&v, "System.UInt32") || chars_eq(&v, "UInt32") || chars_eq(&v, "uint") {
        "uint"
    } else if chars_eq(&v, "System.Int64") || chars_eq(&v, "Int64") || chars_eq(&v, "long") {
        "long"
    } else if chars_eq(&v, "System.UInt64") || chars_eq(&v, "UInt64") || chars_eq(&v, "ulong") {
        "ulong"
    } else {
        "int"
    }
}

fn push_header(r: &mut String, c: &Class)
    ensures
        final(r)@ == old(r)@ + header_text(*c),
{
    let ns = c.namespace.as_str();
    let assembly_file = c.assembly_name.as_str();
    let mut dll = String::new();
    if !assembly_file.is_empty() {
        dll.append(assembly_file);
        let assembly_chars = chars_of(assembly_file);
        if !ends_with_str(&assembly_chars, ".dll") {
            dll.append(".dll");
        }
    }
    assert(dll@ =~= dll_name(*c));
    let has_ns = !ns.is_empty();
    let has_dll = !dll.as_str().is_empty();
    if has_ns && has_dll {
        r.append("// Namespace: ");
        r.append(ns);
        r.append(" \u{2014} ");
        r.append(dll.as_str());
        r.append("\n");
    } else if has_ns {
        r.append("// Namespace: ");
        r.append(ns);
        r.append("\n");
    } else if has_dll {
        r.append("// Image: ");
        r.append(dll.as_str());
        r.append("\n");
    }
    assert(r@ =~= old(r)@ + header_text(*c));
}

fn push_enum_members(r: &mut String, fields: &Vec<Field>, underlying: &str) -> (any: bool)
    ensures
        final(r)@ == old(r)@ + enum_members_text(fields@, underlying@),
        any == has_enum_member(fields@),
{
    let ghost start = r@;
    let mut any = false;
    let mut i: usize = 0;
    while i < fields.len()
        invariant
            i <= fields@.len(),
            r@ == start + enum_members_text(fields@.take(i as int), underlying@),
            any == has_enum_member(fields@.take(i as int)),
        decreases fields.len() - i,
    {
        let f = &fields[i];
        let ghost before = fields@.take(i as int);
        let ghost now = fields@.take(i + 1);
        assert(now.drop_last() =~= before);
        assert(now.last() == *f);
        if f.is_static && !str_eq(f.name.as_str(), "value__") {
            any = true;
            r.append("    ");
            r.append(f.name.as_str());
            match Class::enum_value_string(f, underlying) {
                Some(v) => {
                    r.append(" = ");
                    r.append(v.as_str());
                    r.append(",\n");
                },
                None => {
                    r.append(",\n");
                },
            }
            assert(has_enum_member(now) || true);
            assert(is_enum_member(now[i as int]));
        } else {
            assert forall|k: int| 0 <= k < now.len() && is_enum_member(#[trigger] now[k]) implies 0
                <= k < before.len() && is_enum_member(before[k]) by {
                assert(k != i);
                assert(now[k] == before[k]);
            }
        }
        i = i + 1;
        proof {
            assert forall|k: int| 0 <= k < before.len() && is_enum_member(#[trigger] before[k])
                implies is_enum_member(now[k]) by {
                assert(now[k] == before[k]);
            }
            assert(r@ =~= start + enum_members_text(now, underlying@));
        }
    }
    assert(fields@.take(fields@.len() as int) =~= fields@);
    any
}

fn push_field_lines(r: &mut String, fields: &Vec<Field>)
    ensures
        final(r)@ == old(r)@ + field_lines(fields@),
{
    let ghost start = r@;
    let mut i: usize = 0;
    while i < fields.len()
        invariant
            i <= fields@.len(),
            r@ == start + field_lines(fields@.take(i as int)),
        decreases fields.len() - i,
    {
        let ghost now = fields@.take(i + 1);
        assert(now.drop_last() =~= fields@.take(i as int));
        r.append("    ");
        let t = fields[i].to_string();
        r.append(t.as_str());
        r.append("\n");
        i = i + 1;
        assert(r@ =~= start + field_lines(now));
    }
    assert(fields@.take(fields@.len() as int) =~= fields@);
}

fn push_property_lines(r: &mut String, props: &Vec<Property>)
    ensures
        final(r)@ == old(r)@ + property_lines(props@),
{
    let ghost start = r@;
    let mut i: usize = 0;
    while i < props.len()
        invariant
            i <= props@.len(),
            r@ == start + property_lines(props@.take(i as int)),
        decreases props.len() - i,
    {
        let ghost now = props@.take(i + 1);
        assert(now.drop_last() =~= props@.take(i as int));
        r.append("    ");
        let t = props[i].to_string();
        r.append(t.as_str());
        r.append("\n");
        i = i + 1;
        assert(r@ =~= start + property_lines(now));
    }
    assert(props@.take(props@.len() as int) =~= props@);
}

fn method_is_ctor(m: &Method) -> (r: bool)
    ensures
        r == is_ctor(*m),
{
    str_eq(m.name.as_str(), ".ctor") || str_eq(m.name.as_str(), ".cctor")
}

fn has_method_kind(ms: &Vec<Method>, ctors: bool) -> (r: bool)
    ensures
        r == has_kind(ms@, ctors),
{
    let mut i: usize = 0;
    while i < ms.len()
        invariant
            i <= ms@.len(),
            forall|k: int| 0 <= k < i ==> is_ctor(#[trigger] ms@[k]) != ctors,
        decreases ms.len() - i,
    {
        if method_is_ctor(&ms[i]) == ctors {
            return true;
        }
        i = i + 1;
    }
    false
}

fn push_method_blocks(r: &mut String, ms: &Vec<Method>, ctors: bool)
    ensures
        final(r)@ == old(r)@ + method_blocks(ms@, ctors),
{
    let ghost start = r@;
    let mut i: usize = 0;
    while i < ms.len()
        invariant
            i <= ms@.len(),
            r@ == start + method_blocks(ms@.take(i as int), ctors),
        decreases ms.len() - i,
    {
        let ghost now = ms@.take(i + 1);
        assert(now.drop_last() =~= ms@.take(i as int));
        if method_is_ctor(&ms[i]) == ctors {
            let t = ms[i].to_string();
            push_indented(r, t.as_str());
            r.append("\n");
        }
        i = i + 1;
        assert(r@ =~= start + method_blocks(now, ctors));
    }
    assert(ms@.take(ms@.len() as int) =~= ms@);
}

fn push_enum_body(r: &mut String, c: &Class)
    requires
        c.is_enum,
    ensures
        final(r)@ == old(r)@ + enum_text(*c).subrange(
            header_text(*c).len() as int,
            enum_text(*c).len() as int,
        ),
{
    let ghost start = r@;
    let u = c.enum_underlying_type();
    r.append("public enum ");
    r.append(c.name.as_str());
    r.append(" : ");
    r.append(u);
    r.append(" // TypeDefIndex: ");
    push_dec(r, (c.token & 0xFF_FFFF) as u128);
    r.append("\n{\n");
    let any = push_enum_members(r, &c.fields, u);
    if !any {
        r.append("    // Empty enum\n");
    }
    r.append("}\n");
    assert(r@ =~= start + enum_text(*c).subrange(
        header_text(*c).len() as int,
        enum_text(*c).len() as int,
    ));
}

fn push_declaration(r: &mut String, c: &Class)
    ensures
        final(r)@ == old(r)@ + declaration_text(*c),
{
    let ghost start = r@;
    r.append("public ");
    if c.is_abstract && !c.is_interface {
        r.append("abstract ");
    }
    if c.is_enum {
        r.append("enum");
    } else if c.is_interface {
        r.append("interface");
    } else if c.is_valuetype {
        r.append("struct");
    } else {
        r.append("class");
    }
    r.append(" ");
    r.append(c.name.as_str());
    match &c.parent {
        Some(p) => {
            r.append(" : ");
            r.append(p.as_str());
        },
        None => {},
    }
    r.append(" // TypeDefIndex: ");
    push_dec(r, (c.token & 0xFF_FFFF) as u128);
    r.append("\n{\n");
    assert(r@ =~= start + declaration_text(*c));
}

fn push_fields_section(r: &mut String, c: &Class)
    ensures
        final(r)@ == old(r)@ + fields_section(*c),
{
    if c.fields.len() > 0 {
        r.append("    // Fields\n");
        push_field_lines(r, &c.fields);
    }
    assert(r@ =~= old(r)@ + fields_section(*c));
}

fn push_properties_section(r: &mut String, c: &Class)
    ensures
        final(r)@ == old(r)@ + properties_section(*c),
{
    if c.properties.len() > 0 {
        if c.fields.len() > 0 {
            r.append("\n");
        }
        r.append("    // Properties\n");
        push_property_lines(r, &c.properties);
    }
    assert(r@ =~= old(r)@ + properties_section(*c));
}

fn push_constructors_section(r: &mut String, c: &Class, has_ctors: bool)
    requires
        has_ctors == has_kind(c.methods@, true),
    ensures
        final(r)@ == old(r)@ + constructors_section(*c),
{
    if has_ctors {
        if c.fields.len() > 0 || c.properties.len() > 0 {
            r.append("\n");
        }
        r.append("    // Constructors\n");
        push_method_blocks(r, &c.methods, true);
    }
    assert(r@ =~= old(r)@ + constructors_section(*c));
}

fn push_methods_section(r: &mut String, c: &Class, has_ctors: bool)
    requires
        has_ctors == has_kind(c.methods@, true),
    ensures
        final(r)@ == old(r)@ + methods_section(*c),
{
    if has_method_kind(&c.methods, false) {
        if !has_ctors && (c.fields.len() > 0 || c.properties.len() > 0) {
            r.append("\n");
        }
        r.append("    // Methods\n");
        push_method_blocks(r, &c.methods, false);
    }
    assert(r@ =~= old(r)@ + methods_section(*c));
}

fn push_body(r: &mut String, c: &Class)
    ensures
        final(r)@ == old(r)@ + body_text(*c),
{
    let has_ctors = has_method_kind(&c.methods, true);
    push_fields_section(r, c);
    push_properties_section(r, c);
    push_constructors_section(r, c, has_ctors);
    push_methods_section(r, c, has_ctors);
    assert(r@ =~= old(r)@ + body_text(*c));
}

impl Class {
    /// The class rendered as C#-like pseudo-code: a comment naming its
    /// namespace and image, its declaration with TypeDefIndex, and its
    /// fields, properties, constructors and methods (for an enum: its
    /// members and their values).
    pub fn dump_string(&self) -> (r: String)
        ensures
            r@ == class_text(*self),
    {
        let mut r = String::new();
        push_header(&mut r, self);
        if self.is_enum {
            push_enum_body(&mut r, self);
            reveal(class_text);
            assert(r@ =~= class_text(*self));
            return r;
        }
        push_declaration(&mut r, self);
        push_body(&mut r, self);
        r.append("}\n");
        reveal(class_text);
        assert(r@ =~= class_text(*self));
        r
    }

    /// The underlying type keyword of this enum class, from the type of
    /// its `value__` field (`int` when there is none).
    pub fn enum_underlying_type(&self) -> (r: &'static str)
        ensures
            r@ == enum_underlying(self.fields@),
    {
        let mut i: usize = 0;
        while i < self.fields.len()
            invariant
                i <= self.fields@.len(),
                value_field(self.fields@, 0) == value_field(self.fields@, i as int),
            decreases self.fields.len() - i,
        {
            if str_eq(self.fields[i].name.as_str(), "value__") {
                return underlying_of(self.fields[i].type_info.name.as_str());
            }
            i = i + 1;
        }
        underlying_of("System.Int32")
    }

    /// The text of an enum constant, when its value was read and the
    /// underlying type is integral.
    pub fn enum_value_string(field: &Field, underlying: &str) -> (r: Option<String>)
        ensures
            match r {
                Some(s) => enum_value_text(*field, underlying@) == Some(s@),
                None => enum_value_text(*field, underlying@) is None,
            },
    {
        let v = chars_of(underlying);
        let integral = chars_eq(&v, "byte") || chars_eq(&v, "sbyte") || chars_eq(&v, "short")
            || chars_eq(&v, "ushort") || chars_eq(&v, "int") || chars_eq(&v, "uint") || chars_eq(
            &v,
            "long",
        ) || chars_eq(&v, "ulong");
        if !integral {
            return None;
        }
        match field.constant {
            Some(value) => {
                let mut s = String::new();
                push_dec_signed(&mut s, value);
                assert(s@ =~= dec_signed(value as int));
                Some(s)
            },
            None => None,
        }
    }
}

} // verus!
