//! `UnityEngine.Application` accessors.
//!
//! Each accessor names the static property getter it reads; `fetch` reads
//! one getter from the runtime (by internal call or by managed method) and
//! returns its string.

use vstd::prelude::*;
use vstd::string::*;
use crate::class::{Class, method_in_chain};
use crate::model::{Method, same_method};

verus! {

/// Accessors for selected `UnityEngine.Application` properties.
pub struct Application;

/// The result `unity_version` gives for the fetched `raw`.
pub open spec fn version_or_unknown(raw: Result<String, String>, r: Result<String, String>) -> bool {
    match raw {
        Ok(v) => if v@.len() == 0 {
            r matches Ok(x) && x@ == "unknown"@
        } else {
            r matches Ok(x) && x@ == v@
        },
        Err(e) => r matches Err(x) && x@ == e@,
    }
}

/// A fetched string that is present and not empty.
pub open spec fn usable(raw: Result<String, String>) -> bool {
    raw matches Ok(v) && v@.len() > 0
}

/// The result `identifier` gives after the two fetches.
pub open spec fn identifier_choice(
    first: Result<String, String>,
    second: Result<String, String>,
    r: Result<String, String>,
) -> bool {
    if usable(first) {
        r matches Ok(x) && x@ == first->Ok_0@
    } else if usable(second) {
        r matches Ok(x) && x@ == second->Ok_0@
    } else {
        r matches Ok(x) && x@ == "unknown.application"@
    }
}

impl Application {
    /// The internal-call name of a getter: `UnityEngine.Application::<name>`.
    pub fn icall_name(method_name: &str) -> (r: String)
        ensures
            r@ == "UnityEngine.Application::"@ + method_name@,
    {
        let mut r = String::from_str("UnityEngine.Application::");
        r.append(method_name);
        r
    }

    /// The Unity engine version; an empty version reads as `unknown`.
    pub fn unity_version(fetch: impl Fn(&str) -> Result<String, String>) -> (r: Result<
        String,
        String,
    >)
        requires
            fetch.requires(("get_unityVersion",)),
        ensures
            exists|raw: Result<String, String>|
                fetch.ensures(("get_unityVersion",), raw) && version_or_unknown(raw, r),
    {
        let raw = fetch("get_unityVersion");
        let r = match &raw {
            Ok(ver) => if ver.as_str().is_empty() {
                Ok(String::from_str("unknown"))
            } else {
                Ok(ver.clone())
            },
            Err(e) => Err(e.clone()),
        };
        assert(fetch.ensures(("get_unityVersion",), raw) && version_or_unknown(raw, r));
        r
    }

    /// The application version.
    pub fn version(fetch: impl Fn(&str) -> Result<String, String>) -> (r: Result<String, String>)
        requires
            fetch.requires(("get_version",)),
        ensures
            fetch.ensures(("get_version",), r),
    {
        fetch("get_version")
    }

    /// The application identifier (bundle ID): `get_identifier` when it
    /// gives a non-empty string, else `get_bundleIdentifier` when that does,
    /// else `unknown.application`. Never an error.
    pub fn identifier(fetch: impl Fn(&str) -> Result<String, String>) -> (r: Result<String, String>)
        requires
            fetch.requires(("get_identifier",)),
            fetch.requires(("get_bundleIdentifier",)),
        ensures
            exists|first: Result<String, String>|
                #![trigger fetch.ensures(("get_identifier",), first)]
                fetch.ensures(("get_identifier",), first) && if usable(first) {
                    identifier_choice(first, first, r)
                } else {
                    exists|second: Result<String, String>|
                        fetch.ensures(("get_bundleIdentifier",), second) && identifier_choice(
                            first,
                            second,
                            r,
                        )
                },
    {
        let first = fetch("get_identifier");
        if let Ok(val) = &first {
            if !val.as_str().is_empty() {
                let r = Ok(val.clone());
                assert(identifier_choice(first, first, r));
                return r;
            }
        }
        let second = fetch("get_bundleIdentifier");
        if let Ok(val) = &second {
            if !val.as_str().is_empty() {
                let r = Ok(val.clone());
                assert(identifier_choice(first, second, r));
                return r;
            }
        }
        let r = Ok(String::from_str("unknown.application"));
        assert(identifier_choice(first, second, r));
        r
    }

    /// The persistent data path.
    pub fn data_path(fetch: impl Fn(&str) -> Result<String, String>) -> (r: Result<String, String>)
        requires
            fetch.requires(("get_persistentDataPath",)),
        ensures
            fetch.ensures(("get_persistentDataPath",), r),
    {
        fetch("get_persistentDataPath")
    }
}

/// `Application::identifier` always succeeds with a non-empty identifier.
pub proof fn law_identifier_never_empty(
    first: Result<String, String>,
    second: Result<String, String>,
    r: Result<String, String>,
)
    requires
        identifier_choice(first, second, r),
    ensures
        r matches Ok(x) && x@.len() > 0,
{
    reveal_strlit("unknown.application");
}

/// A version `unity_version` reads successfully is never empty.
pub proof fn law_unity_version_never_empty(raw: Result<String, String>, r: Result<String, String>)
    requires
        version_or_unknown(raw, r),
        raw is Ok,
    ensures
        r matches Ok(x) && x@.len() > 0,
{
    reveal_strlit("unknown");
}

/// What reading a managed string gave: a null pointer, or its text (none
/// when its UTF-16 is not valid).
pub enum ManagedString {
    Null,
    Text(Option<String>),
}

/// The text a getter's string reads as: empty for null or invalid text.
pub open spec fn string_text(m: ManagedString) -> Seq<char> {
    match m {
        ManagedString::Null => Seq::empty(),
        ManagedString::Text(None) => Seq::empty(),
        ManagedString::Text(Some(t)) => t@,
    }
}

fn text_of(m: ManagedString) -> (r: String)
    ensures
        r@ == string_text(m),
{
    match m {
        ManagedString::Null => String::new(),
        ManagedString::Text(None) => String::new(),
        ManagedString::Text(Some(t)) => t,
    }
}

/// `r` is what reading the getter `name` gives once the internal call was
/// not there: an error when the class `found` is not there or has no such
/// method (searched with its ancestors), else the call's error or text.
pub open spec fn managed_read<F: Fn(&Method) -> Result<ManagedString, String>>(
    name: &str,
    found: Option<(Class, Vec<Class>)>,
    invoke: F,
    r: Result<String, String>,
) -> bool {
    match found {
        None => r matches Err(e) && e@ == "Class 'UnityEngine.Application' not found"@,
        Some((c, ancestors)) => {
            let chain = seq![c] + ancestors@;
            match method_in_chain(chain, name, 0) {
                None => r matches Err(e) && e@ == "Method '"@ + name@ + "' not found"@,
                Some((ci, k)) => exists|m: Method, out: Result<ManagedString, String>|
                    {
                        &&& same_method(m, chain[ci].methods@[k])
                        &&& #[trigger] invoke.ensures((&m,), out)
                        &&& match out {
                            Ok(ms) => r matches Ok(t) && t@ == string_text(ms),
                            Err(e) => r matches Err(x) && x@ == e@,
                        }
                    },
            }
        },
    }
}

impl Application {
    /// Reads the static string getter `method_name` of
    /// `UnityEngine.Application`: through its internal call when the
    /// runtime has one (`icall`, by the internal-call name; `None` when
    /// there is none), else by calling the managed getter, searched in the
    /// class that `find_class` finds (with its ancestors); a null string
    /// reads as empty.
    pub fn get_string(
        method_name: &str,
        icall: impl Fn(&str) -> Option<ManagedString>,
        find_class: impl Fn() -> Option<(Class, Vec<Class>)>,
        invoke: impl Fn(&Method) -> Result<ManagedString, String>,
    ) -> (r: Result<String, String>)
        requires
            forall|n: &str| icall.requires((n,)),
            find_class.requires(()),
            forall|m: &Method| invoke.requires((m,)),
        ensures
            exists|full: &str, via_icall: Option<ManagedString>|
                {
                    &&& full@ == "UnityEngine.Application::"@ + method_name@
                    &&& #[trigger] icall.ensures((full,), via_icall)
                    &&& match via_icall {
                        Some(ms) => r matches Ok(t) && t@ == string_text(ms),
                        None => exists|found: Option<(Class, Vec<Class>)>|
                            #[trigger] find_class.ensures((), found) && managed_read(
                                method_name,
                                found,
                                invoke,
                                r,
                            ),
                    }
                },
    {
        let full = Application::icall_name(method_name);
        let full_name = full.as_str();
        let via_icall = icall(full_name);
        let ghost g = via_icall;
        match via_icall {
            Some(ms) => {
                let t = text_of(ms);
                let r = Ok(t);
                assert(icall.ensures((full_name,), g));
                r
            },
            None => {
                let found = find_class();
                let ghost gf = found;
                let r = match found {
                    None => Err(String::from_str("Class 'UnityEngine.Application' not found")),
                    Some((c, ancestors)) => match c.method(method_name, &ancestors) {
                        None => {
                            let mut e = String::from_str("Method '");
                            e.append(method_name);
                            e.append("' not found");
                            Err(e)
                        },
                        Some(m) => {
                            let out = invoke(&m);
                            let ghost go = out;
                            let r = match out {
                                Ok(ms) => Ok(text_of(ms)),
                                Err(e) => Err(e),
                            };
                            assert(invoke.ensures((&m,), go));
                            r
                        },
                    },
                };
                assert(managed_read(method_name, gf, invoke, r));
                assert(icall.ensures((full_name,), g));
                r
            },
        }
    }
}

} // verus!
