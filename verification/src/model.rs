//! Models of IL2CPP metadata: types, fields, methods and properties as
//! the bridge reads them from the runtime (addresses kept as integers),
//! with the C#-like text each renders to.

use vstd::prelude::*;
use vstd::string::*;
use crate::names::{
    after_last_dot, alias_of, fmt_class, fmt_type, format_class_name, format_type_name_str,
    strip_aq, strip_assembly_qualifiers,
};
use crate::text::{chars_of, find, find_char, hex, join, push_hex, views};

verus! {

/// A hydrated IL2CPP type.
#[derive(Debug)]
pub struct Type {
    /// Address of the internal IL2CPP type (0 when none)
    pub address: usize,
    /// Name of the type, as the runtime reports it
    pub name: String,
    /// Size of the type in bytes (if applicable)
    pub size: i32,
    /// The assembly-qualified name the runtime reports, when it reports one
    pub qualified_name: Option<String>,
    /// The raw name of the type's class, when it has one
    pub class_name: Option<String>,
}

impl Clone for Type {
    fn clone(&self) -> (r: Self)
        ensures
            r == *self,
    {
        Type {
            address: self.address,
            name: self.name.clone(),
            size: self.size,
            qualified_name: clone_opt_string(&self.qualified_name),
            class_name: clone_opt_string(&self.class_name),
        }
    }
}

fn clone_opt_string(s: &Option<String>) -> (r: Option<String>)
    ensures
        r == *s,
{
    match s {
        Some(v) => Some(v.clone()),
        None => None,
    }
}

impl Default for Type {
    fn default() -> (r: Self)
        ensures
            r.address == 0,
            r.name@ == Seq::<char>::empty(),
            r.size == 0,
            r.qualified_name is None,
            r.class_name is None,
    {
        Type { address: 0, name: String::new(), size: 0, qualified_name: None, class_name: None }
    }
}

/// The characters of an optional string.
pub open spec fn opt_view(s: Option<String>) -> Option<Seq<char>> {
    match s {
        Some(v) => Some(v@),
        None => None,
    }
}

/// The display name recovered from an assembly-qualified name: its
/// qualifiers stripped and the rest formatted, when that is not empty.
pub open spec fn inflated_name(aqn: Option<Seq<char>>) -> Option<Seq<char>> {
    match aqn {
        Some(q) => if fmt_type(strip_aq(q)).len() > 0 {
            Some(fmt_type(strip_aq(q)))
        } else {
            None
        },
        None => None,
    }
}

/// The name marks a generic or array type.
pub open spec fn is_compound(n: Seq<char>) -> bool {
    find(n, '`') is Some || find(n, '<') is Some || find(n, '[') is Some
}

/// The C#-style display name of `t` (`Type::cpp_name`).
pub open spec fn display_name(t: Type) -> Seq<char> {
    let n = t.name@;
    if t.address != 0 && is_compound(n) && inflated_name(opt_view(t.qualified_name)) is Some {
        inflated_name(opt_view(t.qualified_name)).unwrap()
    } else if n.len() > 0 && find(fmt_type(n), '<') is Some {
        fmt_type(n)
    } else if t.address != 0 && t.class_name is Some {
        fmt_class(t.class_name.unwrap()@)
    } else {
        fmt_type(n)
    }
}

/// The display name recovered from an assembly-qualified name, if any.
pub fn resolve_inflated(aqn: Option<&str>) -> (r: Option<String>)
    ensures
        opt_view(r) == inflated_name(match aqn {
            Some(q) => Some(q@),
            None => None,
        }),
{
    match aqn {
        None => None,
        Some(q) => {
            let cleaned = strip_assembly_qualifiers(q);
            let formatted = format_type_name_str(cleaned.as_str());
            if formatted.as_str().is_empty() {
                None
            } else {
                Some(formatted)
            }
        },
    }
}

fn has_char(s: &str, c: char) -> (r: bool)
    ensures
        r == (find(s@, c) is Some),
{
    let v = chars_of(s);
    match find_char(&v, c) {
        Some(_) => true,
        None => false,
    }
}

impl Type {
    /// Returns a readable C#-style display name for this type: the name
    /// recovered from the runtime-qualified name for generics and arrays,
    /// else the formatted stored name when it is generic, else the
    /// formatted class name, else the formatted stored name.
    pub fn cpp_name(&self) -> (r: String)
        ensures
            r@ == display_name(*self),
    {
        let name = self.name.as_str();
        if self.address != 0 && (has_char(name, '`') || has_char(name, '<') || has_char(name, '[')) {
            let aqn = match &self.qualified_name {
                Some(q) => Some(q.as_str()),
                None => None,
            };
            if let Some(n) = resolve_inflated(aqn) {
                return n;
            }
        }
        if !name.is_empty() {
            let formatted = format_type_name_str(name);
            if has_char(formatted.as_str(), '<') {
                return formatted;
            }
        }
        if self.address != 0 {
            if let Some(raw) = &self.class_name {
                return format_class_name(raw.as_str());
            }
        }
        format_type_name_str(name)
    }

    /// Whether this type's name is `param_type`.
    pub fn matches_name(&self, param_type: &str) -> (r: bool)
        ensures
            r == (self.name@ == param_type@),
    {
        crate::text::str_eq(self.name.as_str(), param_type)
    }
}

/// Argument information for a method.
#[derive(Debug)]
pub struct Arg {
    /// Name of the argument
    pub name: String,
    /// Type information of the argument
    pub type_info: Type,
}

impl Clone for Arg {
    fn clone(&self) -> (r: Self)
        ensures
            r == *self,
    {
        Arg { name: self.name.clone(), type_info: self.type_info.clone() }
    }
}

/// The access keyword for the access bits of a field or method.
pub open spec fn access_name(access: i32) -> Seq<char> {
    if access == 1 {
        "private"@
    } else if access == 6 {
        "public"@
    } else if access == 4 {
        "protected"@
    } else if access == 3 {
        "internal"@
    } else if access == 2 {
        "private protected"@
    } else if access == 5 {
        "protected internal"@
    } else {
        "private"@
    }
}

fn access_keyword(flags: i32) -> (r: &'static str)
    ensures
        r@ == access_name(flags & 7),
{
    let access = flags & 7;
    if access == 1 {
        "private"
    } else if access == 6 {
        "public"
    } else if access == 4 {
        "protected"
    } else if access == 3 {
        "internal"
    } else if access == 2 {
        "private protected"
    } else if access == 5 {
        "protected internal"
    } else {
        "private"
    }
}

/// An IL2CPP field (a variable within a class or struct).
#[derive(Debug)]
pub struct Field {
    /// Address of the internal IL2CPP field
    pub address: usize,
    /// Name of the field
    pub name: String,
    /// Type information of the field
    pub type_info: Type,
    /// Address of the class defining this field
    pub class: Option<usize>,
    /// Offset of the field within the instance
    pub offset: i32,
    /// Flags associated with the field
    pub flags: i32,
    /// Whether the field is static
    pub is_static: bool,
    /// Whether the field is constant (literal)
    pub is_literal: bool,
    /// Whether the field is readonly (init only)
    pub is_readonly: bool,
    /// Whether the field is not serialized
    pub is_not_serialized: bool,
    /// Whether the field has a special name
    pub is_special_name: bool,
    /// Whether the field is pinvoke impl
    pub is_pinvoke_impl: bool,
    /// Instance address for instance fields
    pub instance: Option<usize>,
    /// The value of a static field that was read from the runtime, when read
    pub constant: Option<i128>,
}

/// The qualifier words of a field: `const `, or `static ` and `readonly `.
pub open spec fn field_qualifier(f: Field) -> Seq<char> {
    if f.is_literal {
        "const "@
    } else {
        (if f.is_static {
            "static "@
        } else {
            Seq::empty()
        }) + (if f.is_readonly {
            "readonly "@
        } else {
            Seq::empty()
        })
    }
}

/// The declaration line of a field (`Field::to_string`).
pub open spec fn field_text(f: Field) -> Seq<char> {
    access_name(f.flags & 7) + " "@ + field_qualifier(f) + display_name(f.type_info) + " "@
        + f.name@ + "; // 0x"@ + hex((f.offset as u32) as nat)
}

impl Field {
    /// A field with the given metadata; its flag booleans are decoded from
    /// `flags` (a literal field counts as static).
    pub fn from_metadata(
        address: usize,
        name: String,
        type_info: Type,
        class: Option<usize>,
        offset: i32,
        flags: i32,
    ) -> (r: Field)
        ensures
            r.address == address,
            r.name == name,
            r.type_info == type_info,
            r.class == class,
            r.offset == offset,
            r.flags == flags,
            r.is_static == ((flags & 0x10) != 0 || (flags & 0x40) != 0),
            r.is_literal == ((flags & 0x40) != 0),
            r.is_readonly == ((flags & 0x20) != 0),
            r.is_not_serialized == ((flags & 0x80) != 0),
            r.is_special_name == ((flags & 0x200) != 0),
            r.is_pinvoke_impl == ((flags & 0x2000) != 0),
            r.instance is None,
            r.constant is None,
    {
        Field {
            address,
            name,
            type_info,
            class,
            offset,
            flags,
            is_static: (flags & 0x10) != 0 || (flags & 0x40) != 0,
            is_literal: (flags & 0x40) != 0,
            is_readonly: (flags & 0x20) != 0,
            is_not_serialized: (flags & 0x80) != 0,
            is_special_name: (flags & 0x200) != 0,
            is_pinvoke_impl: (flags & 0x2000) != 0,
            instance: None,
            constant: None,
        }
    }

    /// The access modifier of the field.
    pub fn get_attribute(&self) -> (r: &'static str)
        ensures
            r@ == access_name(self.flags & 7),
    {
        access_keyword(self.flags)
    }

    /// The field's declaration line, e.g. `public static int count; // 0x10`.
    pub fn to_string(&self) -> (r: String)
        ensures
            r@ == field_text(*self),
    {
        let mut r = String::from_str(self.get_attribute());
        r.append(" ");
        if self.is_literal {
            r.append("const ");
        } else {
            if self.is_static {
                r.append("static ");
            }
            if self.is_readonly {
                r.append("readonly ");
            }
        }
        let t = self.type_info.cpp_name();
        r.append(t.as_str());
        r.append(" ");
        r.append(self.name.as_str());
        r.append("; // 0x");
        push_hex(&mut r, (self.offset as u32) as u128);
        proof {
            assert(r@ =~= field_text(*self));
        }
        r
    }
}


/// An IL2CPP method.
#[derive(Debug)]
pub struct Method {
    /// Address of the internal IL2CPP method
    pub address: usize,
    /// Metadata token for this method
    pub token: u32,
    /// Name of the method
    pub name: String,
    /// Address of the class defining this method
    pub class: Option<usize>,
    /// Return type of the method
    pub return_type: Type,
    /// Flags associated with the method
    pub flags: i32,
    /// Whether the method is static
    pub is_static: bool,
    /// Address of the compiled native function
    pub function: usize,
    /// Relative Virtual Address of the method (offset from the image base)
    pub rva: u64,
    /// Virtual Address of the method at runtime
    pub va: u64,
    /// Arguments of this method
    pub args: Vec<Arg>,
    /// Whether the method is generic
    pub is_generic: bool,
    /// Whether the method is an inflated generic method
    pub is_inflated: bool,
    /// Whether the method is an instance method
    pub is_instance: bool,
    /// Number of parameters this method accepts
    pub param_count: u8,
    /// Address of the declaring type
    pub declaring_type: usize,
    /// Instance address for instance methods
    pub instance: Option<usize>,
}

/// `a` and `b` hold the same method metadata.
pub open spec fn same_method(a: Method, b: Method) -> bool {
    &&& a.address == b.address
    &&& a.token == b.token
    &&& a.name == b.name
    &&& a.class == b.class
    &&& a.return_type == b.return_type
    &&& a.flags == b.flags
    &&& a.is_static == b.is_static
    &&& a.function == b.function
    &&& a.rva == b.rva
    &&& a.va == b.va
    &&& a.args@ == b.args@
    &&& a.is_generic == b.is_generic
    &&& a.is_inflated == b.is_inflated
    &&& a.is_instance == b.is_instance
    &&& a.param_count == b.param_count
    &&& a.declaring_type == b.declaring_type
    &&& a.instance == b.instance
}

/// A copy of `args`.
pub fn clone_args(args: &Vec<Arg>) -> (r: Vec<Arg>)
    ensures
        r@ == args@,
{
    let mut r: Vec<Arg> = Vec::new();
    let mut i: usize = 0;
    while i < args.len()
        invariant
            i <= args@.len(),
            r@ == args@.take(i as int),
        decreases args.len() - i,
    {
        r.push(args[i].clone());
        i = i + 1;
        assert(r@ =~= args@.take(i as int));
    }
    assert(args@.take(args@.len() as int) =~= args@);
    r
}

impl Method {
    /// A copy of this method.
    pub fn duplicate(&self) -> (r: Method)
        ensures
            same_method(r, *self),
    {
        Method {
            address: self.address,
            token: self.token,
            name: self.name.clone(),
            class: self.class,
            return_type: self.return_type.clone(),
            flags: self.flags,
            is_static: self.is_static,
            function: self.function,
            rva: self.rva,
            va: self.va,
            args: clone_args(&self.args),
            is_generic: self.is_generic,
            is_inflated: self.is_inflated,
            is_instance: self.is_instance,
            param_count: self.param_count,
            declaring_type: self.declaring_type,
            instance: self.instance,
        }
    }
}

/// The `// RVA ...` comment line of a method.
pub open spec fn rva_comment(m: Method) -> Seq<char> {
    if m.rva == 0 {
        "// RVA: -1 Offset: -1 VA: -1"@
    } else {
        "// RVA: 0x"@ + hex(m.rva as nat) + " Offset: 0x"@ + hex(m.rva as nat) + " VA: 0x"@ + hex(
            m.va as nat,
        )
    }
}

/// `static `, `abstract `, `virtual ` (virtual and not final) or nothing.
pub open spec fn method_qualifier(m: Method) -> Seq<char> {
    if m.is_static {
        "static "@
    } else if (m.flags & 0x400) != 0 {
        "abstract "@
    } else if (m.flags & 0x40) != 0 && (m.flags & 0x20) == 0 {
        "virtual "@
    } else {
        Seq::empty()
    }
}

/// `<type> <name>` for one argument.
pub open spec fn arg_text(a: Arg) -> Seq<char> {
    display_name(a.type_info) + " "@ + a.name@
}

/// The argument list of a signature, comma separated.
pub open spec fn args_text(args: Seq<Arg>) -> Seq<char> {
    join(args.map_values(|a: Arg| arg_text(a)), ", "@)
}

/// The two-line rendering of a method: its RVA comment, then its signature
/// with an empty body.
pub open spec fn method_text(m: Method) -> Seq<char> {
    rva_comment(m) + "\n"@ + access_name(m.flags & 7) + " "@ + method_qualifier(m) + display_name(
        m.return_type,
    ) + " "@ + m.name@ + "("@ + args_text(m.args@) + ") { }"@
}

/// The relative address of a method's code: its address minus the image
/// base (wrapping), or 0 when either is unknown.
pub open spec fn rva_of(image_base: usize, function: usize) -> u64 {
    if image_base > 0 && function != 0 {
        if function >= image_base {
            (function - image_base) as u64
        } else {
            (function - image_base + usize::MAX + 1) as u64
        }
    } else {
        0
    }
}

/// The relative address of a method's code (`function - image_base`,
/// wrapping), or 0 when the image base or the function is unknown.
pub fn method_rva(image_base: usize, function: usize) -> (r: u64)
    ensures
        r == rva_of(image_base, function),
{
    if image_base > 0 && function != 0 {
        if function >= image_base {
            (function - image_base) as u64
        } else {
            (usize::MAX - (image_base - function) + 1) as u64
        }
    } else {
        0
    }
}

/// Whether method flags mark a static method.
pub fn method_flags_static(flags: u32) -> (r: bool)
    ensures
        r == ((flags & 0x10) != 0),
{
    (flags & 0x10) != 0
}

impl Method {
    /// The access modifier of the method.
    pub fn get_attribute(&self) -> (r: &'static str)
        ensures
            r@ == access_name(self.flags & 7),
    {
        access_keyword(self.flags)
    }

    /// The method rendered as its RVA comment line and its signature.
    pub fn to_string(&self) -> (r: String)
        ensures
            r@ == method_text(*self),
    {
        let mut r = String::new();
        if self.rva == 0 {
            r.append("// RVA: -1 Offset: -1 VA: -1");
        } else {
            r.append("// RVA: 0x");
            push_hex(&mut r, self.rva as u128);
            r.append(" Offset: 0x");
            push_hex(&mut r, self.rva as u128);
            r.append(" VA: 0x");
            push_hex(&mut r, self.va as u128);
        }
        assert(r@ =~= rva_comment(*self));
        r.append("\n");
        r.append(self.get_attribute());
        r.append(" ");
        if self.is_static {
            r.append("static ");
        } else if (self.flags & 0x400) != 0 {
            r.append("abstract ");
        } else if (self.flags & 0x40) != 0 && (self.flags & 0x20) == 0 {
            r.append("virtual ");
        }
        let ret = self.return_type.cpp_name();
        r.append(ret.as_str());
        r.append(" ");
        r.append(self.name.as_str());
        r.append("(");
        let mut texts: Vec<String> = Vec::new();
        let mut i: usize = 0;
        while i < self.args.len()
            invariant
                i <= self.args@.len(),
                texts@.len() == i,
                forall|k: int| 0 <= k < i ==> (#[trigger] texts@[k])@ == arg_text(self.args@[k]),
            decreases self.args.len() - i,
        {
            let a = &self.args[i];
            let mut t = a.type_info.cpp_name();
            t.append(" ");
            t.append(a.name.as_str());
            texts.push(t);
            i = i + 1;
        }
        assert(views(texts@) =~= self.args@.map_values(|a: Arg| arg_text(a)));
        let joined = crate::text::join_strings(&texts, ", ");
        r.append(joined.as_str());
        r.append(") { }");
        proof {
            assert(r@ =~= method_text(*self));
        }
        r
    }
}

/// The UTF-8 length of `c`.
pub open spec fn utf8_width(c: char) -> int {
    if (c as u32) < 0x80 {
        1
    } else if (c as u32) < 0x800 {
        2
    } else if (c as u32) < 0x10000 {
        3
    } else {
        4
    }
}

/// How many leading characters of `s` are encoded in exactly `b` bytes of
/// UTF-8; `None` when byte `b` is not a character boundary of `s`.
pub open spec fn chars_in_bytes(s: Seq<char>, b: int) -> Option<int>
    decreases s.len(),
{
    if b == 0 {
        Some(0)
    } else if b < 0 || s.len() == 0 || utf8_width(s[0]) > b {
        None
    } else {
        match chars_in_bytes(s.drop_first(), b - utf8_width(s[0])) {
            Some(k) => Some(k + 1),
            None => None,
        }
    }
}

/// `&s[b..]`: what follows the first `b` bytes of `s`.
pub open spec fn from_byte(s: Seq<char>, b: int) -> Seq<char> {
    match chars_in_bytes(s, b) {
        Some(k) => s.skip(k),
        None => s,
    }
}

proof fn lemma_chars_in_bytes_bound(s: Seq<char>, b: int)
    ensures
        chars_in_bytes(s, b) matches Some(k) ==> 0 <= k <= s.len(),
    decreases s.len(),
{
    if b != 0 && b > 0 && s.len() > 0 && utf8_width(s[0]) <= b {
        lemma_chars_in_bytes_bound(s.drop_first(), b - utf8_width(s[0]));
    }
}

fn width_of(c: char) -> (r: usize)
    ensures
        r == utf8_width(c),
{
    let u = c as u32;
    if u < 0x80 {
        1
    } else if u < 0x800 {
        2
    } else if u < 0x10000 {
        3
    } else {
        4
    }
}

/// `&s[b..]`; byte `b` must be a character boundary of `s`.
pub fn str_from_byte(s: &str, b: usize) -> (r: &str)
    requires
        chars_in_bytes(s@, b as int) is Some,
    ensures
        r@ == from_byte(s@, b as int),
{
    let v = chars_of(s);
    let mut i: usize = 0;
    let mut used: usize = 0;
    assert(s@.skip(0) =~= s@);
    while used < b
        invariant
            v@ == s@,
            i <= v@.len(),
            used <= b,
            chars_in_bytes(s@, b as int) matches Some(k) && chars_in_bytes(
                s@.skip(i as int),
                b - used,
            ) == Some(k - i),
        decreases b - used,
    {
        let ghost t = s@.skip(i as int);
        proof {
            lemma_chars_in_bytes_bound(t, b - used);
            assert(t.len() > 0);
            assert(t[0] == v@[i as int]);
            assert(t.drop_first() =~= s@.skip(i + 1));
            assert(i < v.len());
        }
        let w = width_of(v[i]);
        used = used + w;
        i = i + 1;
    }
    proof {
        lemma_chars_in_bytes_bound(s@, b as int);
    }
    s.substring_char(i, v.len())
}

/// Both absent, or both present and holding the same method metadata.
pub open spec fn same_opt_method(a: Option<Method>, b: Option<Method>) -> bool {
    match (a, b) {
        (Some(x), Some(y)) => same_method(x, y),
        (None, None) => true,
        _ => false,
    }
}

/// A copy of an optional method.
pub fn duplicate_opt(m: &Option<Method>) -> (r: Option<Method>)
    ensures
        same_opt_method(r, *m),
{
    match m {
        Some(x) => Some(x.duplicate()),
        None => None,
    }
}

/// `a` and `b` hold the same property metadata.
pub open spec fn same_property(a: Property, b: Property) -> bool {
    &&& a.name == b.name
    &&& a.type_info == b.type_info
    &&& same_opt_method(a.getter, b.getter)
    &&& same_opt_method(a.setter, b.setter)
    &&& a.is_static == b.is_static
    &&& a.access == b.access
    &&& a.instance == b.instance
}

/// An IL2CPP property (a pair of `get_`/`set_` accessor methods).
#[derive(Debug)]
pub struct Property {
    /// Name of the property (without the accessor prefix)
    pub name: String,
    /// Type of the property
    pub type_info: Type,
    /// Getter method (if exists)
    pub getter: Option<Method>,
    /// Setter method (if exists)
    pub setter: Option<Method>,
    /// Whether the property is static
    pub is_static: bool,
    /// Access modifier
    pub access: &'static str,
    /// Instance address for instance properties
    pub instance: Option<usize>,
}

/// The accessor list of a property: `get; set;`, `get;`, `set;` or nothing.
pub open spec fn accessors_text(p: Property) -> Seq<char> {
    if p.getter is Some && p.setter is Some {
        "get; set;"@
    } else if p.getter is Some {
        "get;"@
    } else if p.setter is Some {
        "set;"@
    } else {
        Seq::empty()
    }
}

/// The declaration line of a property.
pub open spec fn property_text(p: Property) -> Seq<char> {
    p.access@ + " "@ + (if p.is_static {
        "static "@
    } else {
        Seq::empty()
    }) + display_name(p.type_info) + " "@ + p.name@ + " { "@ + accessors_text(p) + " }"@
}

/// The accessor `from_methods` takes the name, staticness and access from:
/// the getter when there is one, else the setter.
pub open spec fn primary_accessor(getter: Option<Method>, setter: Option<Method>) -> Method {
    if getter is Some {
        getter.unwrap()
    } else {
        setter.unwrap()
    }
}

impl Property {
    /// Combines a getter and/or setter into a property: `None` when both
    /// are absent. The name is the accessor's name after its first four
    /// bytes (the `get_`/`set_` prefix); the type is the getter's return
    /// type, else the setter's first argument type.
    pub fn from_methods(getter: Option<Method>, setter: Option<Method>) -> (r: Option<Property>)
        requires
            getter is Some || setter is Some ==> chars_in_bytes(
                primary_accessor(getter, setter).name@,
                4,
            ) is Some,
        ensures
            getter is None && setter is None ==> r is None,
            getter is Some || setter is Some ==> (r matches Some(p) && {
                let m = primary_accessor(getter, setter);
                &&& p.name@ == from_byte(m.name@, 4)
                &&& p.getter == getter
                &&& p.setter == setter
                &&& p.is_static == m.is_static
                &&& p.access@ == access_name(m.flags & 7)
                &&& p.instance is None
                &&& if getter is Some {
                    p.type_info == getter.unwrap().return_type
                } else if setter.unwrap().args@.len() > 0 {
                    p.type_info == setter.unwrap().args@[0].type_info
                } else {
                    p.type_info.address == 0 && p.type_info.name@.len() == 0 && p.type_info.size
                        == 0 && p.type_info.qualified_name is None && p.type_info.class_name is None
                }
            }),
            r matches Some(p) ==> (getter matches Some(g) ==> (p.name@ == from_byte(g.name@, 4)
                && p.is_static == g.is_static && p.access@ == access_name(g.flags & 7))),
            r matches Some(p) ==> (getter is None ==> (setter matches Some(st) ==> (p.name@
                == from_byte(st.name@, 4) && p.is_static == st.is_static && p.access@
                == access_name(st.flags & 7)))),
    {
        if getter.is_none() && setter.is_none() {
            return None;
        }
        let (name, type_info, is_static, access) = match &getter {
            Some(g) => (
                String::from_str(str_from_byte(g.name.as_str(), 4)),
                g.return_type.clone(),
                g.is_static,
                g.get_attribute(),
            ),
            None => {
                let s = setter.as_ref().unwrap();
                let t = if s.args.len() > 0 {
                    s.args[0].type_info.clone()
                } else {
                    Type::default()
                };
                (String::from_str(str_from_byte(s.name.as_str(), 4)), t, s.is_static, s.get_attribute())
            },
        };
        Some(Property { name, type_info, getter, setter, is_static, access, instance: None })
    }

    /// A copy of this property bound to `instance`.
    pub fn with_instance(&self, instance: usize) -> (r: Property)
        ensures
            same_property(r, Property { instance: Some(instance), ..*self }),
    {
        Property {
            name: self.name.clone(),
            type_info: self.type_info.clone(),
            getter: duplicate_opt(&self.getter),
            setter: duplicate_opt(&self.setter),
            is_static: self.is_static,
            access: self.access,
            instance: Some(instance),
        }
    }

    /// A copy of this property.
    pub fn duplicate(&self) -> (r: Property)
        ensures
            same_property(r, *self),
    {
        Property {
            name: self.name.clone(),
            type_info: self.type_info.clone(),
            getter: duplicate_opt(&self.getter),
            setter: duplicate_opt(&self.setter),
            is_static: self.is_static,
            access: self.access,
            instance: self.instance,
        }
    }

    /// Returns true if this property has a getter.
    pub fn has_getter(&self) -> (r: bool)
        ensures
            r == self.getter is Some,
    {
        self.getter.is_some()
    }

    /// Returns true if this property has a setter.
    pub fn has_setter(&self) -> (r: bool)
        ensures
            r == self.setter is Some,
    {
        self.setter.is_some()
    }

    /// The property's declaration line, e.g. `public int Count { get; }`.
    pub fn to_string(&self) -> (r: String)
        ensures
            r@ == property_text(*self),
    {
        let mut r = String::from_str(self.access);
        r.append(" ");
        if self.is_static {
            r.append("static ");
        }
        let t = self.type_info.cpp_name();
        r.append(t.as_str());
        r.append(" ");
        r.append(self.name.as_str());
        r.append(" { ");
        if self.has_getter() && self.has_setter() {
            r.append("get; set;");
        } else if self.has_getter() {
            r.append("get;");
        } else if self.has_setter() {
            r.append("set;");
        }
        r.append(" }");
        proof {
            assert(r@ =~= property_text(*self));
        }
        r
    }
}


/// A field's declaration names its access, then `const` for a literal,
/// else `static ` when it is static followed by `readonly ` when it is
/// init-only (each on its own, so a static init-only field is
/// `static readonly`), then its type, its name and its offset.
pub proof fn law_field_declaration_words(f: Field)
    ensures
        f.is_literal ==> field_text(f) == access_name(f.flags & 7) + " const "@ + display_name(
            f.type_info,
        ) + " "@ + f.name@ + "; // 0x"@ + hex((f.offset as u32) as nat),
        !f.is_literal && f.is_static && f.is_readonly ==> field_text(f) == access_name(f.flags & 7)
            + " static readonly "@ + display_name(f.type_info) + " "@ + f.name@ + "; // 0x"@ + hex(
            (f.offset as u32) as nat,
        ),
        !f.is_literal && f.is_static && !f.is_readonly ==> field_text(f) == access_name(f.flags & 7)
            + " static "@ + display_name(f.type_info) + " "@ + f.name@ + "; // 0x"@ + hex(
            (f.offset as u32) as nat,
        ),
        !f.is_literal && !f.is_static && f.is_readonly ==> field_text(f) == access_name(
            f.flags & 7,
        ) + " readonly "@ + display_name(f.type_info) + " "@ + f.name@ + "; // 0x"@ + hex(
            (f.offset as u32) as nat,
        ),
        !f.is_literal && !f.is_static && !f.is_readonly ==> field_text(f) == access_name(
            f.flags & 7,
        ) + " "@ + display_name(f.type_info) + " "@ + f.name@ + "; // 0x"@ + hex(
            (f.offset as u32) as nat,
        ),
{
    reveal_strlit(" ");
    reveal_strlit("const ");
    reveal_strlit(" const ");
    reveal_strlit("static ");
    reveal_strlit("readonly ");
    reveal_strlit(" static readonly ");
    reveal_strlit(" static ");
    reveal_strlit(" readonly ");
    let a = access_name(f.flags & 7);
    assert(" "@ + "const "@ =~= " const "@);
    assert(" "@ + ("static "@ + "readonly "@) =~= " static readonly "@);
    assert(" "@ + ("static "@ + Seq::<char>::empty()) =~= " static "@);
    assert(" "@ + (Seq::<char>::empty() + "readonly "@) =~= " readonly "@);
    assert(" "@ + (Seq::<char>::empty() + Seq::<char>::empty()) =~= " "@);
    assert(a + " "@ + field_qualifier(f) =~= a + (" "@ + field_qualifier(f)));
}

} // verus!
