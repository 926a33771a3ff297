//! Hydrated class metadata and the lookups on it: selecting methods by
//! name, parameter types or parameter count, and searching a class and
//! the classes it inherits from.

use vstd::prelude::*;
use vstd::string::*;
use crate::model::{Field, Method, Property, same_method, same_property};
use crate::text::str_eq;

verus! {

impl Clone for Field {
    fn clone(&self) -> (r: Self)
        ensures
            r == *self,
    {
        Field {
            address: self.address,
            name: self.name.clone(),
            type_info: self.type_info.clone(),
            class: self.class,
            offset: self.offset,
            flags: self.flags,
            is_static: self.is_static,
            is_literal: self.is_literal,
            is_readonly: self.is_readonly,
            is_not_serialized: self.is_not_serialized,
            is_special_name: self.is_special_name,
            is_pinvoke_impl: self.is_pinvoke_impl,
            instance: self.instance,
            constant: self.constant,
        }
    }
}

/// Hydrated IL2CPP class metadata.
#[derive(Debug)]
pub struct Class {
    /// Address of the internal IL2CPP class
    pub address: usize,
    /// Address of the image defining this class
    pub image: usize,
    /// Metadata token for this class
    pub token: u32,
    /// Name of the class
    pub name: String,
    /// Full name of the parent class (if any)
    pub parent: Option<String>,
    /// Namespace of the class
    pub namespace: String,
    /// Whether the class is an enum
    pub is_enum: bool,
    /// Whether the class is generic
    pub is_generic: bool,
    /// Whether the class is an inflated generic type
    pub is_inflated: bool,
    /// Whether the class is an interface
    pub is_interface: bool,
    /// Whether the class is abstract
    pub is_abstract: bool,
    /// Whether the class is blittable
    pub is_blittable: bool,
    /// Whether the class is a value type
    pub is_valuetype: bool,
    /// Flags associated with the class
    pub flags: i32,
    /// Rank of the class (if array)
    pub rank: i32,
    /// Size of an instance of this class
    pub instance_size: i32,
    /// Size of array elements (if this is an array class)
    pub array_element_size: i32,
    /// Number of fields in this class
    pub num_fields_count: usize,
    /// Address of the enum base type (if this is an enum)
    pub enum_basetype: usize,
    /// Address of the static field data
    pub static_field_data: usize,
    /// Name of the assembly defining this class
    pub assembly_name: String,
    /// Fields of this class
    pub fields: Vec<Field>,
    /// Methods of this class
    pub methods: Vec<Method>,
    /// Properties of this class
    pub properties: Vec<Property>,
    /// Addresses of the interfaces implemented by this class
    pub interfaces: Vec<usize>,
    /// Addresses of the nested types within this class
    pub nested_types: Vec<usize>,
    /// Address of the element class (if this is an array class)
    pub element_class: usize,
    /// Address of the declaring type (if this is a nested class)
    pub declaring_type: usize,
    /// Address of the IL2CPP type representing this class
    pub ty: usize,
    /// Address of the `System.Type` object
    pub object: usize,
}

/// Chooses methods: by name, by name and parameter type names, or by name
/// and parameter count.
pub trait MethodSelector {
    /// Whether the selector chooses `m`.
    spec fn selects(&self, m: Method) -> bool;

    /// Returns true if the method matches the selector criteria.
    fn matches(&self, method: &Method) -> (r: bool)
        ensures
            r == self.selects(*method),
    ;
}

/// Selects a method by name.
impl<'a> MethodSelector for &'a str {
    open spec fn selects(&self, m: Method) -> bool {
        m.name@ == (*self)@
    }

    fn matches(&self, method: &Method) -> (r: bool) {
        str_eq(method.name.as_str(), *self)
    }
}

/// The method is called `name` and its parameter types are named `params`.
pub open spec fn has_signature(m: Method, name: Seq<char>, params: Seq<&str>) -> bool {
    &&& m.name@ == name
    &&& m.args@.len() == params.len()
    &&& forall|i: int| 0 <= i < params.len() ==> m.args@[i].type_info.name@ == (#[trigger] params[i])@
}

fn signature_matches(method: &Method, name: &str, params: &[&str]) -> (r: bool)
    ensures
        r == has_signature(*method, name@, params@),
{
    if !str_eq(method.name.as_str(), name) {
        return false;
    }
    if method.args.len() != params.len() {
        return false;
    }
    let mut i: usize = 0;
    while i < params.len()
        invariant
            i <= params@.len(),
            method.args@.len() == params@.len(),
            forall|k: int|
                0 <= k < i ==> method.args@[k].type_info.name@ == (#[trigger] params@[k])@,
        decreases params.len() - i,
    {
        if !method.args[i].type_info.matches_name(params[i]) {
            return false;
        }
        i = i + 1;
    }
    true
}

/// Selects a method by name and parameter type names.
impl<'a, 'b, 'c> MethodSelector for (&'a str, &'b [&'c str]) {
    open spec fn selects(&self, m: Method) -> bool {
        has_signature(m, self.0@, self.1@)
    }

    fn matches(&self, method: &Method) -> (r: bool) {
        signature_matches(method, self.0, self.1)
    }
}

/// Selects a method by name and parameter type names, given as an array.
impl<'a, 'b, const N: usize> MethodSelector for (&'a str, [&'b str; N]) {
    open spec fn selects(&self, m: Method) -> bool {
        has_signature(m, self.0@, self.1@)
    }

    fn matches(&self, method: &Method) -> (r: bool) {
        signature_matches(method, self.0, self.1.as_slice())
    }
}

/// Selects a method by name and parameter count.
impl<'a> MethodSelector for (&'a str, usize) {
    open spec fn selects(&self, m: Method) -> bool {
        m.name@ == self.0@ && m.args@.len() == self.1
    }

    fn matches(&self, method: &Method) -> (r: bool) {
        str_eq(method.name.as_str(), self.0) && method.args.len() == self.1
    }
}

/// Index of the first method of `ms` from `i` on that `sel` chooses.
pub open spec fn first_selected<S: MethodSelector>(ms: Seq<Method>, sel: S, i: int) -> Option<int>
    decreases ms.len() - i,
{
    if i < 0 || i >= ms.len() {
        None
    } else if sel.selects(ms[i]) {
        Some(i)
    } else {
        first_selected(ms, sel, i + 1)
    }
}

/// Where a lookup that starts at `chain[i]` finds its method: the first
/// class from `i` on with a chosen method (as class and method index),
/// not going past a class without a parent.
pub open spec fn method_in_chain<S: MethodSelector>(chain: Seq<Class>, sel: S, i: int) -> Option<
    (int, int),
>
    decreases chain.len() - i,
{
    if i < 0 || i >= chain.len() {
        None
    } else {
        match first_selected(chain[i].methods@, sel, 0) {
            Some(k) => Some((i, k)),
            None => if chain[i].parent is Some {
                method_in_chain(chain, sel, i + 1)
            } else {
                None
            },
        }
    }
}

/// Index of the first field called `name` in `fs` from `i` on.
pub open spec fn first_field(fs: Seq<Field>, name: Seq<char>, i: int) -> Option<int>
    decreases fs.len() - i,
{
    if i < 0 || i >= fs.len() {
        None
    } else if fs[i].name@ == name {
        Some(i)
    } else {
        first_field(fs, name, i + 1)
    }
}

/// Where a field lookup that starts at `chain[i]` finds its field.
pub open spec fn field_in_chain(chain: Seq<Class>, name: Seq<char>, i: int) -> Option<(int, int)>
    decreases chain.len() - i,
{
    if i < 0 || i >= chain.len() {
        None
    } else {
        match first_field(chain[i].fields@, name, 0) {
            Some(k) => Some((i, k)),
            None => if chain[i].parent is Some {
                field_in_chain(chain, name, i + 1)
            } else {
                None
            },
        }
    }
}

/// Index of the first property called `name` in `ps` from `i` on.
pub open spec fn first_property(ps: Seq<Property>, name: Seq<char>, i: int) -> Option<int>
    decreases ps.len() - i,
{
    if i < 0 || i >= ps.len() {
        None
    } else if ps[i].name@ == name {
        Some(i)
    } else {
        first_property(ps, name, i + 1)
    }
}

/// Where a property lookup that starts at `chain[i]` finds its property.
pub open spec fn property_in_chain(chain: Seq<Class>, name: Seq<char>, i: int) -> Option<(int, int)>
    decreases chain.len() - i,
{
    if i < 0 || i >= chain.len() {
        None
    } else {
        match first_property(chain[i].properties@, name, 0) {
            Some(k) => Some((i, k)),
            None => if chain[i].parent is Some {
                property_in_chain(chain, name, i + 1)
            } else {
                None
            },
        }
    }
}

proof fn lemma_first_selected_bounds<S: MethodSelector>(ms: Seq<Method>, sel: S, i: int)
    ensures
        first_selected(ms, sel, i) matches Some(k) ==> 0 <= k < ms.len(),
    decreases ms.len() - i,
{
    if 0 <= i < ms.len() && !sel.selects(ms[i]) {
        lemma_first_selected_bounds(ms, sel, i + 1);
    }
}

proof fn lemma_first_field_bounds(fs: Seq<Field>, name: Seq<char>, i: int)
    ensures
        first_field(fs, name, i) matches Some(k) ==> 0 <= k < fs.len(),
    decreases fs.len() - i,
{
    if 0 <= i < fs.len() && fs[i].name@ != name {
        lemma_first_field_bounds(fs, name, i + 1);
    }
}

proof fn lemma_first_property_bounds(ps: Seq<Property>, name: Seq<char>, i: int)
    ensures
        first_property(ps, name, i) matches Some(k) ==> 0 <= k < ps.len(),
    decreases ps.len() - i,
{
    if 0 <= i < ps.len() && ps[i].name@ != name {
        lemma_first_property_bounds(ps, name, i + 1);
    }
}

impl Class {
    /// The first of this class's own methods that `selector` chooses.
    pub fn own_method<S: MethodSelector>(&self, selector: &S) -> (r: Option<Method>)
        ensures
            r is Some <==> first_selected(self.methods@, *selector, 0) is Some,
            r matches Some(m) ==> same_method(
                m,
                self.methods@[first_selected(self.methods@, *selector, 0).unwrap()],
            ),
    {
        let mut i: usize = 0;
        while i < self.methods.len()
            invariant
                i <= self.methods@.len(),
                first_selected(self.methods@, *selector, 0) == first_selected(
                    self.methods@,
                    *selector,
                    i as int,
                ),
            decreases self.methods.len() - i,
        {
            if selector.matches(&self.methods[i]) {
                return Some(self.methods[i].duplicate());
            }
            i = i + 1;
        }
        None
    }

    /// Finds a method in this class or the classes it inherits from.
    /// `ancestors` are the parent class, its parent, and so on; the search
    /// stops after the first class without a parent.
    pub fn method<S: MethodSelector>(&self, selector: S, ancestors: &Vec<Class>) -> (r: Option<
        Method,
    >)
        ensures
            ({
                let chain = seq![*self] + ancestors@;
                &&& r is Some <==> method_in_chain(chain, selector, 0) is Some
                &&& r matches Some(m) ==> {
                    let (c, k) = method_in_chain(chain, selector, 0).unwrap();
                    same_method(m, chain[c].methods@[k])
                }
            }),
    {
        let ghost chain = seq![*self] + ancestors@;
        proof {
            lemma_first_selected_bounds(self.methods@, selector, 0);
        }
        if let Some(m) = self.own_method(&selector) {
            return Some(m);
        }
        if self.parent.is_none() {
            return None;
        }
        let mut k: usize = 0;
        while k < ancestors.len()
            invariant
                chain == seq![*self] + ancestors@,
                k <= ancestors@.len(),
                method_in_chain(chain, selector, 0) == method_in_chain(
                    chain,
                    selector,
                    k + 1,
                ),
            decreases ancestors.len() - k,
        {
            let c = &ancestors[k];
            assert(chain[k + 1] == *c);
            proof {
                lemma_first_selected_bounds(c.methods@, selector, 0);
            }
            if let Some(m) = c.own_method(&selector) {
                return Some(m);
            }
            if c.parent.is_none() {
                return None;
            }
            k = k + 1;
        }
        None
    }

    /// Finds a field by name in this class or the classes it inherits
    /// from (`ancestors` as for `method`).
    pub fn field(&self, name: &str, ancestors: &Vec<Class>) -> (r: Option<Field>)
        ensures
            ({
                let chain = seq![*self] + ancestors@;
                &&& r is Some <==> field_in_chain(chain, name@, 0) is Some
                &&& r matches Some(f) ==> {
                    let (c, k) = field_in_chain(chain, name@, 0).unwrap();
                    f == chain[c].fields@[k]
                }
            }),
    {
        let ghost chain = seq![*self] + ancestors@;
        let mut k: usize = 0;
        while k <= ancestors.len()
            invariant
                chain == seq![*self] + ancestors@,
                k <= ancestors@.len() + 1,
                field_in_chain(chain, name@, 0) == field_in_chain(chain, name@, k as int),
            decreases ancestors.len() + 1 - k,
        {
            let c = if k == 0 {
                self
            } else {
                &ancestors[k - 1]
            };
            assert(chain[k as int] == *c);
            proof {
                lemma_first_field_bounds(c.fields@, name@, 0);
            }
            let mut i: usize = 0;
            while i < c.fields.len()
                invariant
                    chain == seq![*self] + ancestors@,
                    k <= ancestors@.len(),
                    chain[k as int] == *c,
                    field_in_chain(chain, name@, 0) == field_in_chain(chain, name@, k as int),
                    i <= c.fields@.len(),
                    first_field(c.fields@, name@, 0) == first_field(c.fields@, name@, i as int),
                decreases c.fields.len() - i,
            {
                if str_eq(c.fields[i].name.as_str(), name) {
                    return Some(c.fields[i].clone());
                }
                i = i + 1;
            }
            assert(first_field(c.fields@, name@, i as int) is None);
            assert(field_in_chain(chain, name@, k + 1) is None || k < ancestors.len());
            if c.parent.is_none() || k == ancestors.len() {
                return None;
            }
            k = k + 1;
        }
        None
    }

    /// Finds a property by name in this class or the classes it inherits
    /// from (`ancestors` as for `method`).
    pub fn property(&self, name: &str, ancestors: &Vec<Class>) -> (r: Option<Property>)
        ensures
            ({
                let chain = seq![*self] + ancestors@;
                &&& r is Some <==> property_in_chain(chain, name@, 0) is Some
                &&& r matches Some(p) ==> {
                    let (c, k) = property_in_chain(chain, name@, 0).unwrap();
                    same_property(p, chain[c].properties@[k])
                }
            }),
    {
        let ghost chain = seq![*self] + ancestors@;
        let mut k: usize = 0;
        while k <= ancestors.len()
            invariant
                chain == seq![*self] + ancestors@,
                k <= ancestors@.len() + 1,
                property_in_chain(chain, name@, 0) == property_in_chain(chain, name@, k as int),
            decreases ancestors.len() + 1 - k,
        {
            let c = if k == 0 {
                self
            } else {
                &ancestors[k - 1]
            };
            assert(chain[k as int] == *c);
            proof {
                lemma_first_property_bounds(c.properties@, name@, 0);
            }
            let mut i: usize = 0;
            while i < c.properties.len()
                invariant
                    chain == seq![*self] + ancestors@,
                    k <= ancestors@.len(),
                    chain[k as int] == *c,
                    property_in_chain(chain, name@, 0) == property_in_chain(chain, name@, k as int),
                    i <= c.properties@.len(),
                    first_property(c.properties@, name@, 0) == first_property(
                        c.properties@,
                        name@,
                        i as int,
                    ),
                decreases c.properties.len() - i,
            {
                if str_eq(c.properties[i].name.as_str(), name) {
                    return Some(c.properties[i].duplicate());
                }
                i = i + 1;
            }
            assert(first_property(c.properties@, name@, i as int) is None);
            assert(property_in_chain(chain, name@, k + 1) is None || k < ancestors.len());
            if c.parent.is_none() || k == ancestors.len() {
                return None;
            }
            k = k + 1;
        }
        None
    }
}

impl Clone for Method {
    fn clone(&self) -> (r: Self)
        ensures
            same_method(r, *self),
    {
        self.duplicate()
    }
}

impl Clone for Property {
    fn clone(&self) -> (r: Self)
        ensures
            same_property(r, *self),
    {
        self.duplicate()
    }
}

/// `a` and `b` are copies of one method list.
pub open spec fn same_methods(a: Seq<Method>, b: Seq<Method>) -> bool {
    a.len() == b.len() && forall|i: int| 0 <= i < a.len() ==> same_method(#[trigger] a[i], b[i])
}

/// `a` and `b` are copies of one property list.
pub open spec fn same_properties(a: Seq<Property>, b: Seq<Property>) -> bool {
    a.len() == b.len() && forall|i: int| 0 <= i < a.len() ==> same_property(#[trigger] a[i], b[i])
}

/// `a` and `b` hold the same class metadata.
pub open spec fn same_class(a: Class, b: Class) -> bool {
    &&& a == Class { fields: a.fields, methods: a.methods, properties: a.properties, interfaces: a.interfaces, nested_types: a.nested_types, ..b }
    &&& a.fields@ == b.fields@
    &&& same_methods(a.methods@, b.methods@)
    &&& same_properties(a.properties@, b.properties@)
    &&& a.interfaces@ == b.interfaces@
    &&& a.nested_types@ == b.nested_types@
}

fn copy_fields(v: &Vec<Field>) -> (r: Vec<Field>)
    ensures
        r@ == v@,
{
    let mut r: Vec<Field> = Vec::new();
    let mut i: usize = 0;
    while i < v.len()
        invariant
            i <= v@.len(),
            r@ == v@.take(i as int),
        decreases v.len() - i,
    {
        r.push(v[i].clone());
        i = i + 1;
        assert(r@ =~= v@.take(i as int));
    }
    assert(v@.take(v@.len() as int) =~= v@);
    r
}

fn copy_methods(v: &Vec<Method>) -> (r: Vec<Method>)
    ensures
        same_methods(r@, v@),
{
    let mut r: Vec<Method> = Vec::new();
    let mut i: usize = 0;
    while i < v.len()
        invariant
            i <= v@.len(),
            r@.len() == i,
            forall|k: int| 0 <= k < i ==> same_method(#[trigger] r@[k], v@[k]),
        decreases v.len() - i,
    {
        r.push(v[i].duplicate());
        i = i + 1;
    }
    r
}

fn copy_properties(v: &Vec<Property>) -> (r: Vec<Property>)
    ensures
        same_properties(r@, v@),
{
    let mut r: Vec<Property> = Vec::new();
    let mut i: usize = 0;
    while i < v.len()
        invariant
            i <= v@.len(),
            r@.len() == i,
            forall|k: int| 0 <= k < i ==> same_property(#[trigger] r@[k], v@[k]),
        decreases v.len() - i,
    {
        r.push(v[i].duplicate());
        i = i + 1;
    }
    r
}

fn copy_addresses(v: &Vec<usize>) -> (r: Vec<usize>)
    ensures
        r@ == v@,
{
    let mut r: Vec<usize> = Vec::new();
    let mut i: usize = 0;
    while i < v.len()
        invariant
            i <= v@.len(),
            r@ == v@.take(i as int),
        decreases v.len() - i,
    {
        r.push(v[i]);
        i = i + 1;
        assert(r@ =~= v@.take(i as int));
    }
    assert(v@.take(v@.len() as int) =~= v@);
    r
}

fn copy_opt_string(s: &Option<String>) -> (r: Option<String>)
    ensures
        r == *s,
{
    match s {
        Some(v) => Some(v.clone()),
        None => None,
    }
}

impl Clone for Class {
    fn clone(&self) -> (r: Self)
        ensures
            same_class(r, *self),
    {
        Class {
            address: self.address,
            image: self.image,
            token: self.token,
            name: self.name.clone(),
            parent: copy_opt_string(&self.parent),
            namespace: self.namespace.clone(),
            is_enum: self.is_enum,
            is_generic: self.is_generic,
            is_inflated: self.is_inflated,
            is_interface: self.is_interface,
            is_abstract: self.is_abstract,
            is_blittable: self.is_blittable,
            is_valuetype: self.is_valuetype,
            flags: self.flags,
            rank: self.rank,
            instance_size: self.instance_size,
            array_element_size: self.array_element_size,
            num_fields_count: self.num_fields_count,
            enum_basetype: self.enum_basetype,
            static_field_data: self.static_field_data,
            assembly_name: self.assembly_name.clone(),
            fields: copy_fields(&self.fields),
            methods: copy_methods(&self.methods),
            properties: copy_properties(&self.properties),
            interfaces: copy_addresses(&self.interfaces),
            nested_types: copy_addresses(&self.nested_types),
            element_class: self.element_class,
            declaring_type: self.declaring_type,
            ty: self.ty,
            object: self.object,
        }
    }
}


/// No method of `ms` is chosen by `sel`.
pub open spec fn selects_none<S: MethodSelector>(ms: Seq<Method>, sel: S) -> bool {
    forall|q: int| 0 <= q < ms.len() ==> !sel.selects(#[trigger] ms[q])
}

/// `ms[k]` is the first method of `ms` that `sel` chooses.
pub open spec fn selects_first<S: MethodSelector>(ms: Seq<Method>, sel: S, k: int) -> bool {
    &&& 0 <= k < ms.len()
    &&& sel.selects(ms[k])
    &&& forall|q: int| 0 <= q < k ==> !sel.selects(#[trigger] ms[q])
}

proof fn lemma_first_selected_is<S: MethodSelector>(ms: Seq<Method>, sel: S, i: int, k: int)
    requires
        0 <= i <= k,
        selects_first(ms, sel, k),
    ensures
        first_selected(ms, sel, i) == Some(k),
    decreases k - i,
{
    if i < k {
        lemma_first_selected_is(ms, sel, i + 1, k);
    }
}

proof fn lemma_first_selected_none<S: MethodSelector>(ms: Seq<Method>, sel: S, i: int)
    requires
        0 <= i,
        selects_none(ms, sel),
    ensures
        first_selected(ms, sel, i) is None,
    decreases ms.len() - i,
{
    if i < ms.len() {
        lemma_first_selected_none(ms, sel, i + 1);
    }
}

proof fn lemma_method_at_depth<S: MethodSelector>(chain: Seq<Class>, sel: S, i: int, c: int, k: int)
    requires
        0 <= i <= c < chain.len(),
        selects_first(chain[c].methods@, sel, k),
        forall|j: int|
            0 <= j < c ==> (#[trigger] chain[j]).parent is Some && selects_none(
                chain[j].methods@,
                sel,
            ),
    ensures
        method_in_chain(chain, sel, i) == Some((c, k)),
    decreases c - i,
{
    if i < c {
        lemma_first_selected_none(chain[i].methods@, sel, 0);
        lemma_method_at_depth(chain, sel, i + 1, c, k);
    } else {
        lemma_first_selected_is(chain[c].methods@, sel, 0, k);
    }
}

/// A method lookup walks the whole parent chain: when the classes before
/// `chain[c]` all have a parent and none of them has a chosen method, and
/// the first chosen method of `chain[c]` is its `k`-th, that method is
/// what `Class::method` finds, however deep `c` is.
pub proof fn law_method_found_at_any_depth<S: MethodSelector>(
    chain: Seq<Class>,
    sel: S,
    c: int,
    k: int,
)
    requires
        0 <= c < chain.len(),
        selects_first(chain[c].methods@, sel, k),
        forall|j: int|
            0 <= j < c ==> (#[trigger] chain[j]).parent is Some && selects_none(
                chain[j].methods@,
                sel,
            ),
    ensures
        method_in_chain(chain, sel, 0) == Some((c, k)),
{
    lemma_method_at_depth(chain, sel, 0, c, k);
}

/// `fs[k]` is the first field of `fs` called `name`.
pub open spec fn field_first(fs: Seq<Field>, name: Seq<char>, k: int) -> bool {
    &&& 0 <= k < fs.len()
    &&& fs[k].name@ == name
    &&& forall|q: int| 0 <= q < k ==> (#[trigger] fs[q]).name@ != name
}

proof fn lemma_field_at_depth(chain: Seq<Class>, name: Seq<char>, i: int, c: int, k: int)
    requires
        0 <= i <= c < chain.len(),
        field_first(chain[c].fields@, name, k),
        forall|j: int|
            0 <= j < c ==> (#[trigger] chain[j]).parent is Some && forall|q: int|
                0 <= q < chain[j].fields@.len() ==> (#[trigger] chain[j].fields@[q]).name@ != name,
    ensures
        field_in_chain(chain, name, i) == Some((c, k)),
    decreases c - i,
{
    if i < c {
        lemma_first_field_none(chain[i].fields@, name, 0);
        lemma_field_at_depth(chain, name, i + 1, c, k);
    } else {
        lemma_first_field_is(chain[c].fields@, name, 0, k);
    }
}

proof fn lemma_first_field_is(fs: Seq<Field>, name: Seq<char>, i: int, k: int)
    requires
        0 <= i <= k,
        field_first(fs, name, k),
    ensures
        first_field(fs, name, i) == Some(k),
    decreases k - i,
{
    if i < k {
        lemma_first_field_is(fs, name, i + 1, k);
    }
}

proof fn lemma_first_field_none(fs: Seq<Field>, name: Seq<char>, i: int)
    requires
        0 <= i,
        forall|q: int| 0 <= q < fs.len() ==> (#[trigger] fs[q]).name@ != name,
    ensures
        first_field(fs, name, i) is None,
    decreases fs.len() - i,
{
    if i < fs.len() {
        lemma_first_field_none(fs, name, i + 1);
    }
}

/// A field lookup walks the whole parent chain: when the classes before
/// `chain[c]` all have a parent and no field called `name`, and the first
/// such field of `chain[c]` is its `k`-th, that field is what
/// `Class::field` finds, however deep `c` is.
pub proof fn law_field_found_at_any_depth(chain: Seq<Class>, name: Seq<char>, c: int, k: int)
    requires
        0 <= c < chain.len(),
        field_first(chain[c].fields@, name, k),
        forall|j: int|
            0 <= j < c ==> (#[trigger] chain[j]).parent is Some && forall|q: int|
                0 <= q < chain[j].fields@.len() ==> (#[trigger] chain[j].fields@[q]).name@ != name,
    ensures
        field_in_chain(chain, name, 0) == Some((c, k)),
{
    lemma_field_at_depth(chain, name, 0, c, k);
}

/// `ps[k]` is the first property of `ps` called `name`.
pub open spec fn property_first(ps: Seq<Property>, name: Seq<char>, k: int) -> bool {
    &&& 0 <= k < ps.len()
    &&& ps[k].name@ == name
    &&& forall|q: int| 0 <= q < k ==> (#[trigger] ps[q]).name@ != name
}

proof fn lemma_first_property_is(ps: Seq<Property>, name: Seq<char>, i: int, k: int)
    requires
        0 <= i <= k,
        property_first(ps, name, k),
    ensures
        first_property(ps, name, i) == Some(k),
    decreases k - i,
{
    if i < k {
        lemma_first_property_is(ps, name, i + 1, k);
    }
}

proof fn lemma_first_property_none(ps: Seq<Property>, name: Seq<char>, i: int)
    requires
        0 <= i,
        forall|q: int| 0 <= q < ps.len() ==> (#[trigger] ps[q]).name@ != name,
    ensures
        first_property(ps, name, i) is None,
    decreases ps.len() - i,
{
    if i < ps.len() {
        lemma_first_property_none(ps, name, i + 1);
    }
}

proof fn lemma_property_at_depth(chain: Seq<Class>, name: Seq<char>, i: int, c: int, k: int)
    requires
        0 <= i <= c < chain.len(),
        property_first(chain[c].properties@, name, k),
        forall|j: int|
            0 <= j < c ==> (#[trigger] chain[j]).parent is Some && forall|q: int|
                0 <= q < chain[j].properties@.len() ==> (#[trigger] chain[j].properties@[q]).name@
                    != name,
    ensures
        property_in_chain(chain, name, i) == Some((c, k)),
    decreases c - i,
{
    if i < c {
        lemma_first_property_none(chain[i].properties@, name, 0);
        lemma_property_at_depth(chain, name, i + 1, c, k);
    } else {
        lemma_first_property_is(chain[c].properties@, name, 0, k);
    }
}

/// A property lookup walks the whole parent chain: when the classes
/// before `chain[c]` all have a parent and no property called `name`, and
/// the first such property of `chain[c]` is its `k`-th, that property is
/// what `Class::property` finds, however deep `c` is.
pub proof fn law_property_found_at_any_depth(chain: Seq<Class>, name: Seq<char>, c: int, k: int)
    requires
        0 <= c < chain.len(),
        property_first(chain[c].properties@, name, k),
        forall|j: int|
            0 <= j < c ==> (#[trigger] chain[j]).parent is Some && forall|q: int|
                0 <= q < chain[j].properties@.len() ==> (#[trigger] chain[j].properties@[q]).name@
                    != name,
    ensures
        property_in_chain(chain, name, 0) == Some((c, k)),
{
    lemma_property_at_depth(chain, name, 0, c, k);
}

/// A lookup stops at the first class without a parent: when `chain[c]`
/// has no parent and no class up to it has a chosen method, `Class::method`
/// finds nothing, whatever the classes after it hold.
pub proof fn law_method_stops_at_root<S: MethodSelector>(chain: Seq<Class>, sel: S, c: int)
    requires
        0 <= c < chain.len(),
        chain[c].parent is None,
        forall|j: int| 0 <= j <= c ==> selects_none(#[trigger] chain[j].methods@, sel),
        forall|j: int| 0 <= j < c ==> (#[trigger] chain[j]).parent is Some,
    ensures
        method_in_chain(chain, sel, 0) is None,
{
    lemma_method_stops(chain, sel, 0, c);
}

proof fn lemma_method_stops<S: MethodSelector>(chain: Seq<Class>, sel: S, i: int, c: int)
    requires
        0 <= i <= c < chain.len(),
        chain[c].parent is None,
        forall|j: int| 0 <= j <= c ==> selects_none(#[trigger] chain[j].methods@, sel),
        forall|j: int| 0 <= j < c ==> (#[trigger] chain[j]).parent is Some,
    ensures
        method_in_chain(chain, sel, i) is None,
    decreases c - i,
{
    assert(selects_none(chain[i].methods@, sel));
    lemma_first_selected_none(chain[i].methods@, sel, 0);
    if i < c {
        lemma_method_stops(chain, sel, i + 1, c);
    }
}

} // verus!
