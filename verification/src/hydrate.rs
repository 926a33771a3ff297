//! The values hydration computes from what it reads of the runtime: cache
//! keys, parent names, type sizes and its error messages.

use vstd::prelude::*;
use vstd::string::*;
use crate::lookup::{qualified_name, qualified_name_of};
use crate::text::{dec, push_dec};
use crate::class::{same_class, Class};

verus! {

/// The cache key of `mscorlib`.
pub const MSCORLIB: &'static str = "mscorlib.dll";

/// The cache key of `Assembly-CSharp`.
pub const CSHARP: &'static str = "Assembly-CSharp.dll";

/// The cache key of `UnityEngine.CoreModule`.
pub const COREMODULE: &'static str = "UnityEngine.CoreModule.dll";

/// The key a method is cached under: `Namespace.Class::Method`.
pub fn method_key(full_class_name: &str, name: &str) -> (r: String)
    ensures
        r@ == full_class_name@ + "::"@ + name@,
{
    let mut r = String::from_str(full_class_name);
    r.append("::");
    r.append(name);
    r
}

/// The full name of a class's parent, from the parent's name and
/// namespace as the runtime gives them (`None` for a null string): none
/// without a name; else qualified by the namespace when there is one.
pub fn parent_name(name: Option<&str>, namespace: Option<&str>) -> (r: Option<String>)
    ensures
        name is None ==> r is None,
        name matches Some(n) ==> (r matches Some(p) && p@ == qualified_name_of(
            match namespace {
                Some(ns) => ns@,
                None => Seq::empty(),
            },
            n@,
        )),
{
    match name {
        None => None,
        Some(n) => {
            proof {
                reveal_strlit("");
            }
            let ns = match namespace {
                Some(ns) => ns,
                None => "",
            };
            Some(qualified_name(ns, n))
        },
    }
}

/// The size of a type as hydration records it: 0 when the type has no
/// class, the class's value size for a value type, else the size of a
/// pointer.
pub open spec fn type_size_of(has_class: bool, is_valuetype: bool, value_size: i32, pointer_size: i32) -> i32 {
    if !has_class {
        0
    } else if is_valuetype {
        value_size
    } else {
        pointer_size
    }
}

/// The size of a type as hydration records it: 0 when the type has no
/// class, the class's value size for a value type, else the size of a
/// pointer.
pub fn type_size(has_class: bool, is_valuetype: bool, value_size: i32, pointer_size: i32) -> (r: i32)
    ensures
        r == type_size_of(has_class, is_valuetype, value_size, pointer_size),
{
    if !has_class {
        0
    } else if is_valuetype {
        value_size
    } else {
        pointer_size
    }
}

/// The name recorded for a field's type: the runtime's, or `System.Object`
/// when the field has no type.
pub fn field_type_label(reported: Option<&str>) -> (r: String)
    ensures
        reported matches Some(t) ==> r@ == t@,
        reported is None ==> r@ == "System.Object"@,
{
    match reported {
        Some(t) => String::from_str(t),
        None => String::from_str("System.Object"),
    }
}

/// The error of hydrating class number `index` of assembly `assembly`.
pub fn hydration_error(index: usize, assembly: &str, cause: &str) -> (r: String)
    ensures
        r@ == "Failed to hydrate class "@ + dec(index as nat) + " in assembly '"@ + assembly@
            + "': "@ + cause@,
{
    let mut r = String::from_str("Failed to hydrate class ");
    push_dec(&mut r, index as u128);
    r.append(" in assembly '");
    r.append(assembly);
    r.append("': ");
    r.append(cause);
    r
}


/// The cached class to reuse for the class at `address`: a copy of the
/// entry cached under its name when that entry is the same runtime class,
/// else none (the class is hydrated anew and replaces the entry).
pub fn reuse_cached(existing: Option<&Class>, address: usize) -> (r: Option<Class>)
    ensures
        r is Some <==> (existing matches Some(c) && c.address == address),
        r matches Some(k) ==> same_class(k, *existing.unwrap()),
{
    match existing {
        Some(c) => if c.address == address {
            Some(c.clone())
        } else {
            None
        },
        None => None,
    }
}


/// The class a method hydrated from its runtime pointer links to: its
/// class's address when that class is among the cached ones (`cached`
/// holds their addresses), else none.
pub fn cached_class(class_ptr: usize, cached: &Vec<usize>) -> (r: Option<usize>)
    ensures
        r == (if class_ptr != 0 && cached@.contains(class_ptr) {
            Some(class_ptr)
        } else {
            None
        }),
{
    if class_ptr == 0 {
        return None;
    }
    let mut i: usize = 0;
    while i < cached.len()
        invariant
            i <= cached@.len(),
            class_ptr != 0,
            forall|j: int| 0 <= j < i ==> cached@[j] != class_ptr,
        decreases cached.len() - i,
    {
        if cached[i] == class_ptr {
            assert(cached@[i as int] == class_ptr);
            return Some(class_ptr);
        }
        i = i + 1;
    }
    assert(!cached@.contains(class_ptr));
    None
}

} // verus!
