//! Finding assemblies and classes by name: splitting a qualified type name,
//! the cache keys of classes, and the class lookups of assemblies, images
//! and the Unity wrappers that start from the core module.

use vstd::prelude::*;
use vstd::string::*;
use crate::class::Class;
use crate::dump::{Assembly, Image};
use crate::handles::LayerMask;
use crate::names::{after_last_dot, after_last_dot_str};
use crate::text::{chars_of, chars_eq, ends_with, ends_with_str, lemma_rfind_below_bounds, rfind, rfind_char, str_eq};

verus! {

/// The namespace part of a qualified type name: what precedes its last
/// dot (nothing, without a dot).
pub open spec fn namespace_of(name: Seq<char>) -> Seq<char> {
    match rfind(name, '.') {
        Some(k) => name.subrange(0, k),
        None => Seq::empty(),
    }
}

/// The class-name part of a qualified type name: what follows its last dot.
pub open spec fn class_name_of(name: Seq<char>) -> Seq<char> {
    after_last_dot(name)
}

/// `s` holds a NUL character, which no C string can carry.
pub open spec fn has_nul(s: Seq<char>) -> bool {
    s.contains('\0')
}

/// Splits a qualified type name such as `UnityEngine.GameObject` at its
/// last dot into namespace and class name; a name without a dot is in the
/// global namespace.
pub fn split_type_name(name: &str) -> (r: (&str, &str))
    ensures
        r.0@ == namespace_of(name@),
        r.1@ == class_name_of(name@),
{
    let v = chars_of(name);
    proof {
        reveal_strlit("");
    }
    match rfind_char(&v, '.') {
        Some(k) => {
            proof {
                lemma_rfind_below_bounds(v@, '.', v@.len() as int);
            }
            (name.substring_char(0, k), after_last_dot_str(name))
        },
        None => ("", after_last_dot_str(name)),
    }
}

/// Whether `s` holds a NUL character.
pub fn holds_nul(s: &str) -> (r: bool)
    ensures
        r == has_nul(s@),
{
    let v = chars_of(s);
    let mut i: usize = 0;
    while i < v.len()
        invariant
            v@ == s@,
            i <= v@.len(),
            forall|k: int| 0 <= k < i ==> v@[k] != '\0',
        decreases v.len() - i,
    {
        if v[i] == '\0' {
            assert(s@[i as int] == '\0');
            return true;
        }
        i = i + 1;
    }
    false
}

/// The key a class is cached under: `Namespace.Name`, or just the name in
/// the global namespace.
pub open spec fn qualified_name_of(namespace: Seq<char>, name: Seq<char>) -> Seq<char> {
    if namespace.len() == 0 {
        name
    } else {
        namespace + "."@ + name
    }
}

/// The key a class is cached under: `Namespace.Name`, or just the name in
/// the global namespace.
pub fn qualified_name(namespace: &str, name: &str) -> (r: String)
    ensures
        r@ == qualified_name_of(namespace@, name@),
{
    if namespace.unicode_len() == 0 {
        String::from_str(name)
    } else {
        let mut r = String::from_str(namespace);
        r.append(".");
        r.append(name);
        r
    }
}

/// Index of the first of `keys` equal to `name`.
pub open spec fn key_index(keys: Seq<String>, name: Seq<char>) -> Option<int> {
    if exists|i: int| 0 <= i < keys.len() && (#[trigger] keys[i])@ == name {
        Some(choose|i: int| 0 <= i < keys.len() && (#[trigger] keys[i])@ == name && forall|j: int|
            0 <= j < i ==> (#[trigger] keys[j])@ != name)
    } else {
        None
    }
}

fn position_of(keys: &Vec<String>, name: &str) -> (r: Option<usize>)
    ensures
        r matches Some(i) ==> i < keys@.len() && keys@[i as int]@ == name@ && forall|j: int|
            0 <= j < i ==> (#[trigger] keys@[j])@ != name@,
        r is None ==> forall|j: int| 0 <= j < keys@.len() ==> (#[trigger] keys@[j])@ != name@,
{
    let mut i: usize = 0;
    while i < keys.len()
        invariant
            i <= keys@.len(),
            forall|j: int| 0 <= j < i ==> (#[trigger] keys@[j])@ != name@,
        decreases keys.len() - i,
    {
        if str_eq(keys[i].as_str(), name) {
            return Some(i);
        }
        i = i + 1;
    }
    None
}

proof fn lemma_key_index(keys: Seq<String>, name: Seq<char>, r: Option<usize>)
    requires
        r matches Some(i) ==> i < keys.len() && keys[i as int]@ == name && forall|j: int|
            0 <= j < i ==> (#[trigger] keys[j])@ != name,
        r is None ==> forall|j: int| 0 <= j < keys.len() ==> (#[trigger] keys[j])@ != name,
    ensures
        key_index(keys, name) == match r {
            Some(i) => Some(i as int),
            None => None::<int>,
        },
{
    if let Some(i) = r {
        let w = choose|k: int| 0 <= k < keys.len() && (#[trigger] keys[k])@ == name && forall|j: int|
            0 <= j < k ==> (#[trigger] keys[j])@ != name;
        assert(keys[i as int]@ == name);
        if w < i {
            assert(keys[w]@ != name);
        }
        if w > i {
            assert(keys[i as int]@ != name);
        }
    }
}

/// The key the assembly cache holds `name` under: `name` itself, else, when
/// `name` lacks the `.dll` suffix, `name.dll`.
pub open spec fn assembly_key(keys: Seq<String>, name: Seq<char>) -> Option<int> {
    match key_index(keys, name) {
        Some(i) => Some(i),
        None => if ends_with(name, ".dll"@) {
            None
        } else {
            key_index(keys, name + ".dll"@)
        },
    }
}

/// Finds an assembly in the cache by name, given with or without the
/// `.dll` suffix: the index of its key among the cache's `keys`.
pub fn find_assembly(keys: &Vec<String>, name: &str) -> (r: Option<usize>)
    ensures
        r == match assembly_key(keys@, name@) {
            Some(i) => Some(i as usize),
            None => None::<usize>,
        },
{
    let first = position_of(keys, name);
    proof {
        lemma_key_index(keys@, name@, first);
    }
    if first.is_some() {
        return first;
    }
    let v = chars_of(name);
    if ends_with_str(&v, ".dll") {
        return None;
    }
    let mut with_ext = String::from_str(name);
    with_ext.append(".dll");
    let second = position_of(keys, with_ext.as_str());
    proof {
        lemma_key_index(keys@, name@ + ".dll"@, second);
    }
    second
}

/// The three lookups a class search makes can be called on any input.
pub open spec fn lookups_callable<F, G, H>(class_from_name: F, class_from_ptr: G, cached: H) -> bool where
    F: Fn(usize, &str, &str) -> usize,
    G: Fn(usize) -> Option<Class>,
    H: Fn(&str) -> Option<Class>,
 {
    &&& forall|a: usize, b: &str, c: &str| class_from_name.requires((a, b, c))
    &&& forall|p: usize| class_from_ptr.requires((p,))
    &&& forall|n: &str| cached.requires((n,))
}

/// `r` is what an assembly whose image is at `image` finds for `name`:
/// nothing for a name with a NUL character; else the runtime's lookup of
/// the namespace and class name of `name` gives a class address, and `r`
/// is that class hydrated, or, when the address is 0, what the class
/// cache holds under `name`.
pub open spec fn assembly_class<F, G, H>(
    image: usize,
    name: &str,
    class_from_name: F,
    class_from_ptr: G,
    cached: H,
    r: Option<Class>,
) -> bool where
    F: Fn(usize, &str, &str) -> usize,
    G: Fn(usize) -> Option<Class>,
    H: Fn(&str) -> Option<Class>,
 {
    &&& has_nul(name@) ==> r is None
    &&& !has_nul(name@) ==> exists|ns: &str, cls: &str, ptr: usize|
        {
            &&& ns@ == namespace_of(name@)
            &&& cls@ == class_name_of(name@)
            &&& class_from_name.ensures((image, ns, cls), ptr)
            &&& ptr != 0 ==> class_from_ptr.ensures((ptr,), r)
            &&& ptr == 0 ==> cached.ensures((name,), r)
        }
}

impl Assembly {
    /// Finds a class by name within the assembly: a fully qualified type
    /// name such as `UnityEngine.GameObject`, or an unqualified name for
    /// the global namespace. `class_from_name` is the runtime's lookup of
    /// a class by image, namespace and name (0 when there is none),
    /// `class_from_ptr` hydrates the class it found, and `cached` is the
    /// class cache by qualified name, consulted when the runtime found
    /// none. A name with a NUL character finds nothing.
    pub fn class(
        &self,
        name: &str,
        class_from_name: impl Fn(usize, &str, &str) -> usize,
        class_from_ptr: impl Fn(usize) -> Option<Class>,
        cached: impl Fn(&str) -> Option<Class>,
    ) -> (r: Option<Class>)
        requires
            lookups_callable(class_from_name, class_from_ptr, cached),
        ensures
            assembly_class(self.image.address, name, class_from_name, class_from_ptr, cached, r),
    {
        if holds_nul(name) {
            return None;
        }
        let (ns, cls) = split_type_name(name);
        let ptr = class_from_name(self.image.address, ns, cls);
        if ptr != 0 {
            class_from_ptr(ptr)
        } else {
            cached(name)
        }
    }
}

impl Image {
    /// Finds a class by name within this image: first in the class cache
    /// (`cached`, by qualified name), else by the runtime's lookup of a
    /// class by image, namespace and name (`class_from_name`, 0 when there
    /// is none), whose find `class_from_ptr` hydrates. A name with a NUL
    /// character that the cache lacks finds nothing.
    pub fn class(
        &self,
        name: &str,
        class_from_name: impl Fn(usize, &str, &str) -> usize,
        class_from_ptr: impl Fn(usize) -> Option<Class>,
        cached: impl Fn(&str) -> Option<Class>,
    ) -> (r: Option<Class>)
        requires
            lookups_callable(class_from_name, class_from_ptr, cached),
        ensures
            exists|hit: Option<Class>|
                {
                    &&& cached.ensures((name,), hit)
                    &&& hit is Some ==> r == hit
                    &&& hit is None && has_nul(name@) ==> r is None
                    &&& hit is None && !has_nul(name@) ==> exists|ns: &str, cls: &str, ptr: usize|
                        {
                            &&& ns@ == namespace_of(name@)
                            &&& cls@ == class_name_of(name@)
                            &&& class_from_name.ensures((self.address, ns, cls), ptr)
                            &&& ptr != 0 ==> class_from_ptr.ensures((ptr,), r)
                            &&& ptr == 0 ==> r is None
                        }
                },
    {
        let hit = cached(name);
        if hit.is_some() {
            return hit;
        }
        if holds_nul(name) {
            return None;
        }
        let (ns, cls) = split_type_name(name);
        let ptr = class_from_name(self.address, ns, cls);
        if ptr != 0 {
            class_from_ptr(ptr)
        } else {
            None
        }
    }

    /// The cached assembly of this image: the first of `assemblies` at the
    /// address the runtime gives for the image's assembly (`assembly_ptr`),
    /// none when that is 0.
    pub fn get_assembly(&self, assembly_ptr: usize, assemblies: &Vec<Assembly>) -> (r: Option<usize>)
        ensures
            r matches Some(i) ==> assembly_ptr != 0 && i < assemblies@.len()
                && assemblies@[i as int].address == assembly_ptr && forall|j: int|
                0 <= j < i ==> (#[trigger] assemblies@[j]).address != assembly_ptr,
            r is None ==> assembly_ptr == 0 || forall|j: int|
                0 <= j < assemblies@.len() ==> (#[trigger] assemblies@[j]).address != assembly_ptr,
    {
        if assembly_ptr == 0 {
            return None;
        }
        let mut i: usize = 0;
        while i < assemblies.len()
            invariant
                i <= assemblies@.len(),
                assembly_ptr != 0,
                forall|j: int| 0 <= j < i ==> (#[trigger] assemblies@[j]).address != assembly_ptr,
            decreases assemblies.len() - i,
        {
            if assemblies[i].address == assembly_ptr {
                return Some(i);
            }
            i = i + 1;
        }
        None
    }
}

impl LayerMask {
    /// The `UnityEngine.LayerMask` class, as the core module (`core`) finds it.
    pub fn get_class(
        core: &Assembly,
        class_from_name: impl Fn(usize, &str, &str) -> usize,
        class_from_ptr: impl Fn(usize) -> Option<Class>,
        cached: impl Fn(&str) -> Option<Class>,
    ) -> (r: Option<Class>)
        requires
            lookups_callable(class_from_name, class_from_ptr, cached),
        ensures
            assembly_class(
                core.image.address,
                "UnityEngine.LayerMask",
                class_from_name,
                class_from_ptr,
                cached,
                r,
            ),
    {
        core.class("UnityEngine.LayerMask", class_from_name, class_from_ptr, cached)
    }
}

/// Helpers around `UnityEngine.Physics`.
pub struct Physics;

impl Physics {
    /// The `UnityEngine.Physics` class, as the core module (`core`) finds it.
    pub fn get_class(
        core: &Assembly,
        class_from_name: impl Fn(usize, &str, &str) -> usize,
        class_from_ptr: impl Fn(usize) -> Option<Class>,
        cached: impl Fn(&str) -> Option<Class>,
    ) -> (r: Option<Class>)
        requires
            lookups_callable(class_from_name, class_from_ptr, cached),
        ensures
            assembly_class(
                core.image.address,
                "UnityEngine.Physics",
                class_from_name,
                class_from_ptr,
                cached,
                r,
            ),
    {
        core.class("UnityEngine.Physics", class_from_name, class_from_ptr, cached)
    }
}

/// Accessors for selected `UnityEngine.Time` properties.
pub struct Time;

impl Time {
    /// The `UnityEngine.Time` class, as the core module (`core`) finds it.
    pub fn get_class(
        core: &Assembly,
        class_from_name: impl Fn(usize, &str, &str) -> usize,
        class_from_ptr: impl Fn(usize) -> Option<Class>,
        cached: impl Fn(&str) -> Option<Class>,
    ) -> (r: Option<Class>)
        requires
            lookups_callable(class_from_name, class_from_ptr, cached),
        ensures
            assembly_class(
                core.image.address,
                "UnityEngine.Time",
                class_from_name,
                class_from_ptr,
                cached,
                r,
            ),
    {
        core.class("UnityEngine.Time", class_from_name, class_from_ptr, cached)
    }
}

/// Splitting a type name and qualifying the parts again gives the name
/// back, unless its only dot leads it.
pub proof fn law_split_then_qualify(name: Seq<char>)
    requires
        rfind(name, '.') != Some(0int),
    ensures
        qualified_name_of(namespace_of(name), class_name_of(name)) == name,
{
    lemma_rfind_below_bounds(name, '.', name.len() as int);
    match rfind(name, '.') {
        Some(k) => {
            assert(name.subrange(0, k) + "."@ + name.subrange(k + 1, name.len() as int) =~= name) by {
                reveal_strlit(".");
            }
        },
        None => {},
    }
}

} // verus!
