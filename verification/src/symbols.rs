//! Symbol and image-base lookup with caching.
//!
//! Resolved addresses are kept in a `DashMap` keyed by name. The platform
//! lookups themselves (`dlsym`, `dl_iterate_phdr`, dyld, Win32) are done by
//! the caller, which hands their results in.

use dashmap::DashMap;
use vstd::prelude::*;
use crate::text::{contains_seq, contains_str};
use crate::lookup::{has_nul, holds_nul};

verus! {

#[verifier::external_type_specification]
#[verifier::external_body]
#[verifier::reject_recursive_types(K)]
#[verifier::reject_recursive_types(V)]
#[verifier::reject_recursive_types(S)]
pub struct ExDashMap<K, V, S>(DashMap<K, V, S>);

/// The entries of a `DashMap<String, usize>`, keyed by the characters of
/// each key.
pub uninterp spec fn map_entries(m: DashMap<String, usize>) -> Map<Seq<char>, usize>;

/// `DashMap::new`: an empty map.
#[verifier::external_body]
fn map_new() -> (r: DashMap<String, usize>)
    ensures
        map_entries(r) =~= Map::empty(),
{
    DashMap::new()
}

/// `DashMap::get` on a `str` key: the value stored under `key`, copied out.
#[verifier::external_body]
fn map_get(m: &DashMap<String, usize>, key: &str) -> (r: Option<usize>)
    ensures
        r == (if map_entries(*m).dom().contains(key@) {
            Some(map_entries(*m)[key@])
        } else {
            None
        }),
{
    m.get(key).map(|entry| *entry.value())
}

/// `DashMap::insert`: stores `value` under `key`, replacing any former value.
#[verifier::external_body]
fn map_insert(m: &mut DashMap<String, usize>, key: String, value: usize)
    ensures
        map_entries(*final(m)) == map_entries(*old(m)).insert(key@, value),
{
    m.insert(key, value);
}

/// `DashMap::clear`: removes every entry.
#[verifier::external_body]
fn map_clear(m: &mut DashMap<String, usize>)
    ensures
        map_entries(*final(m)) =~= Map::empty(),
{
    m.clear();
}

/// Errors that can occur during symbol resolution.
#[derive(Debug)]
pub enum SymbolError {
    /// The specified symbol was not found
    NotFound(String),
    /// Failed to convert the symbol name to a C string
    StringError,
}

impl SymbolError {
    /// The error message (`Symbol not found: <name>` or `CString error`).
    pub fn message(&self) -> (r: String)
        ensures
            r@ == match self {
                SymbolError::NotFound(name) => "Symbol not found: "@ + name@,
                SymbolError::StringError => "CString error"@,
            },
    {
        match self {
            SymbolError::NotFound(name) => {
                let mut r = String::from_str("Symbol not found: ");
                r.append(name.as_str());
                r
            },
            SymbolError::StringError => String::from_str("CString error"),
        }
    }
}

/// A cache of addresses resolved by name.
pub struct AddressCache {
    entries: DashMap<String, usize>,
}

impl View for AddressCache {
    type V = Map<Seq<char>, usize>;

    closed spec fn view(&self) -> Map<Seq<char>, usize> {
        map_entries(self.entries)
    }
}

impl AddressCache {
    /// An empty cache.
    pub fn new() -> (r: Self)
        ensures
            r@ == Map::<Seq<char>, usize>::empty(),
    {
        AddressCache { entries: map_new() }
    }

    /// The cached address for `name`, if any.
    pub fn get(&self, name: &str) -> (r: Option<usize>)
        ensures
            r == (if self@.dom().contains(name@) {
                Some(self@[name@])
            } else {
                None
            }),
    {
        map_get(&self.entries, name)
    }
}

/// An operation on an address cache, as a history records it.
pub enum CacheOp {
    /// `cache_symbol(name, address)`
    Store(Seq<char>, usize),
    /// `clear_cache()`
    Clear,
    /// `resolve_symbol(name, ..)` or `get_image_base(name, ..)`, with the
    /// address the platform gave when it was asked (`None` when it found
    /// none)
    Resolve(Seq<char>, Option<usize>),
}

/// The cache after one operation: a store replaces the name's address, a
/// clear empties it, and a resolution adds what the platform found, only
/// for a name not cached yet.
pub open spec fn cache_step(m: Map<Seq<char>, usize>, op: CacheOp) -> Map<Seq<char>, usize> {
    match op {
        CacheOp::Store(name, a) => m.insert(name, a),
        CacheOp::Clear => Map::empty(),
        CacheOp::Resolve(name, found) => if m.dom().contains(name) {
            m
        } else {
            match found {
                Some(a) => m.insert(name, a),
                None => m,
            }
        },
    }
}

/// The cache after `ops`, in order.
pub open spec fn cache_after(m: Map<Seq<char>, usize>, ops: Seq<CacheOp>) -> Map<Seq<char>, usize>
    decreases ops.len(),
{
    if ops.len() == 0 {
        m
    } else {
        cache_step(cache_after(m, ops.drop_last()), ops.last())
    }
}

/// Resolves `symbol`: the cached address when there is one; otherwise the
/// result of `lookup` (the platform resolver), which is cached when it
/// succeeds.
pub fn resolve_symbol(
    cache: &mut AddressCache,
    symbol: &str,
    lookup: impl Fn(&str) -> Result<usize, SymbolError>,
) -> (r: Result<usize, SymbolError>)
    requires
        lookup.requires((symbol,)),
    ensures
        old(cache)@.dom().contains(symbol@) ==> r == Ok::<usize, SymbolError>(
            old(cache)@[symbol@],
        ) && final(cache)@ == old(cache)@,
        !old(cache)@.dom().contains(symbol@) ==> lookup.ensures((symbol,), r) && final(cache)@
            == match r {
            Ok(addr) => old(cache)@.insert(symbol@, addr),
            Err(_) => old(cache)@,
        },
        final(cache)@ == cache_step(
            old(cache)@,
            CacheOp::Resolve(
                symbol@,
                match r {
                    Ok(addr) => Some(addr),
                    Err(_) => None,
                },
            ),
        ),
{
    if let Some(addr) = cache.get(symbol) {
        return Ok(addr);
    }
    let r = lookup(symbol);
    if let Ok(addr) = r {
        map_insert(&mut cache.entries, String::from_str(symbol), addr);
    }
    r
}

/// Stores `a` as the address of symbol `s`, replacing any cached one.
pub fn cache_symbol(cache: &mut AddressCache, s: &str, a: usize)
    ensures
        final(cache)@ == old(cache)@.insert(s@, a),
        final(cache)@ == cache_step(old(cache)@, CacheOp::Store(s@, a)),
{
    map_insert(&mut cache.entries, String::from_str(s), a);
}

/// Empties the cache.
pub fn clear_cache(cache: &mut AddressCache)
    ensures
        final(cache)@ == Map::<Seq<char>, usize>::empty(),
        final(cache)@ == cache_step(old(cache)@, CacheOp::Clear),
{
    map_clear(&mut cache.entries);
}

/// The base address of the image called `name`: the cached one when there
/// is one; otherwise the result of `find` (the platform search), which is
/// cached when an image was found.
pub fn get_image_base(
    cache: &mut AddressCache,
    name: &str,
    find: impl Fn(&str) -> Option<usize>,
) -> (r: Option<usize>)
    requires
        find.requires((name,)),
    ensures
        old(cache)@.dom().contains(name@) ==> r == Some(old(cache)@[name@]) && final(cache)@
            == old(cache)@,
        !old(cache)@.dom().contains(name@) ==> find.ensures((name,), r) && final(cache)@
            == match r {
            Some(addr) => old(cache)@.insert(name@, addr),
            None => old(cache)@,
        },
        final(cache)@ == cache_step(old(cache)@, CacheOp::Resolve(name@, r)),
{
    if let Some(addr) = cache.get(name) {
        return Some(addr);
    }
    let r = find(name);
    if let Some(addr) = r {
        map_insert(&mut cache.entries, String::from_str(name), addr);
    }
    r
}

/// A loaded image as the platform reports it: its path, when known, and
/// its base address, when it has one.
#[derive(Debug)]
pub struct LoadedImage {
    pub path: Option<String>,
    pub base: Option<usize>,
}

/// The image matches `name`: its path holds `name`.
pub open spec fn image_matches(image: LoadedImage, name: Seq<char>) -> bool {
    image.path matches Some(p) && contains_seq(p@, name)
}

/// Index of the first image from `i` on whose path holds `name` and which
/// has a base address.
pub open spec fn first_based_match(images: Seq<LoadedImage>, name: Seq<char>, i: int) -> Option<int>
    decreases images.len() - i,
{
    if i < 0 || i >= images.len() {
        None
    } else if image_matches(images[i], name) && images[i].base is Some {
        Some(i)
    } else {
        first_based_match(images, name, i + 1)
    }
}

/// Index of the first image from `i` on whose path holds `name`.
pub open spec fn first_match(images: Seq<LoadedImage>, name: Seq<char>, i: int) -> Option<int>
    decreases images.len() - i,
{
    if i < 0 || i >= images.len() {
        None
    } else if image_matches(images[i], name) {
        Some(i)
    } else {
        first_match(images, name, i + 1)
    }
}

fn matches_name(image: &LoadedImage, name: &str) -> (r: bool)
    ensures
        r == image_matches(*image, name@),
{
    match &image.path {
        Some(p) => contains_str(p.as_str(), name),
        None => false,
    }
}

/// The base address of the first loaded image whose path contains `name`
/// and that has a base address, in the order the platform lists them.
pub fn find_image_base(images: &Vec<LoadedImage>, name: &str) -> (r: Option<usize>)
    ensures
        r == match first_based_match(images@, name@, 0) {
            Some(i) => images@[i].base,
            None => None,
        },
{
    let mut i: usize = 0;
    while i < images.len()
        invariant
            i <= images@.len(),
            first_based_match(images@, name@, 0) == first_based_match(images@, name@, i as int),
        decreases images.len() - i,
    {
        let image = &images[i];
        if matches_name(image, name) {
            if let Some(base) = image.base {
                return Some(base);
            }
        }
        i = i + 1;
    }
    None
}

/// The path of the first loaded image whose path contains `name`.
pub fn find_image_path(images: &Vec<LoadedImage>, name: &str) -> (r: Option<String>)
    ensures
        r matches Some(p) ==> first_match(images@, name@, 0) matches Some(i)
            && images@[i].path == Some(p),
        r is None ==> first_match(images@, name@, 0) is None,
{
    let mut i: usize = 0;
    while i < images.len()
        invariant
            i <= images@.len(),
            first_match(images@, name@, 0) == first_match(images@, name@, i as int),
        decreases images.len() - i,
    {
        let image = &images[i];
        if matches_name(image, name) {
            match &image.path {
                Some(p) => return Some(p.clone()),
                None => {},
            }
        }
        i = i + 1;
    }
    None
}

/// Resolves `symbol` with the platform's lookup `find` (`dlsym` or
/// `GetProcAddress`; 0 when the symbol is unknown), uncached: a name with
/// a NUL character cannot be passed and fails with `StringError`.
pub fn raw_resolve(symbol: &str, find: impl Fn(&str) -> usize) -> (r: Result<usize, SymbolError>)
    requires
        find.requires((symbol,)),
    ensures
        has_nul(symbol@) ==> r matches Err(SymbolError::StringError),
        !has_nul(symbol@) ==> exists|addr: usize|
            {
                &&& find.ensures((symbol,), addr)
                &&& addr == 0 ==> (r matches Err(SymbolError::NotFound(n)) && n@ == symbol@)
                &&& addr != 0 ==> r == Ok::<usize, SymbolError>(addr)
            },
{
    if holds_nul(symbol) {
        return Err(SymbolError::StringError);
    }
    let addr = find(symbol);
    if addr == 0 {
        Err(SymbolError::NotFound(String::from_str(symbol)))
    } else {
        Ok(addr)
    }
}

/// A message for the log.
#[derive(Debug)]
pub enum LogEntry {
    Info(String),
    Warning(String),
    Error(String),
}

/// What promoting `library_name` to global visibility reports, given the
/// loaded images and the outcome of re-opening the library's path with
/// global visibility (`reopened`, with the loader's error message).
pub open spec fn promotion_report(
    images: Seq<LoadedImage>,
    library_name: Seq<char>,
    path: Option<Seq<char>>,
    reopened: Option<Result<(), String>>,
    r: Option<LogEntry>,
) -> bool {
    match path {
        None => r matches Some(LogEntry::Warning(m)) && m@ == "Could not find loaded library matching '"@
            + library_name + "'; symbol promotion skipped"@,
        Some(p) => if has_nul(p) {
            r is None
        } else {
            match reopened {
                Some(Ok(())) => r matches Some(LogEntry::Info(m)) && m@ == "Promoted '"@ + p
                    + "' symbols to global visibility"@,
                Some(Err(e)) => r matches Some(LogEntry::Warning(m)) && m@
                    == "dlopen promotion failed for '"@ + p + "': "@ + e@,
                None => false,
            }
        },
    }
}

/// `r` is what promoting `library_name` reports when the first of
/// `images` whose path holds the name has path `path` (none when no image
/// matches), and re-opening that path gave `reopened` (not tried when there
/// is no path or it cannot be passed to the loader).
pub open spec fn promotion<F: Fn(&str) -> Result<(), String>>(
    images: Seq<LoadedImage>,
    library_name: Seq<char>,
    reopen: F,
    path: Option<String>,
    reopened: Option<Result<(), String>>,
    r: Option<LogEntry>,
) -> bool {
    &&& (path matches Some(p) ==> first_match(images, library_name, 0) matches Some(i)
        && images[i].path == Some(p))
    &&& (path is None ==> first_match(images, library_name, 0) is None)
    &&& (reopened matches Some(o) ==> path matches Some(p) && exists|ps: &str|
        ps@ == p@ && #[trigger] reopen.ensures((ps,), o))
    &&& promotion_report(
        images,
        library_name,
        match path {
            Some(p) => Some(p@),
            None => None,
        },
        reopened,
        r,
    )
}

/// Makes the symbols of the loaded library matching `library_name` visible
/// to global lookups: finds the library's path among `images` and has
/// `reopen` load it again with global visibility (`dlopen` with
/// `RTLD_GLOBAL`). Returns what to log: a warning when no library matches
/// or re-opening fails, a note when it succeeds, nothing when the path
/// cannot be passed to the loader.
pub fn ensure_global_visibility(
    library_name: &str,
    images: &Vec<LoadedImage>,
    reopen: impl Fn(&str) -> Result<(), String>,
) -> (r: Option<LogEntry>)
    requires
        forall|p: &str| reopen.requires((p,)),
    ensures
        exists|path: Option<String>, reopened: Option<Result<(), String>>|
            #[trigger] promotion(images@, library_name@, reopen, path, reopened, r),
{
    let path = find_image_path(images, library_name);
    match path {
        None => {
            let mut m = String::from_str("Could not find loaded library matching '");
            m.append(library_name);
            m.append("'; symbol promotion skipped");
            let r = Some(LogEntry::Warning(m));
            assert(promotion(images@, library_name@, reopen, None, None, r));
            r
        },
        Some(p) => {
            if holds_nul(p.as_str()) {
                assert(promotion(images@, library_name@, reopen, Some(p), None, None));
                return None;
            }
            let o = reopen(p.as_str());
            let ghost go = o;
            let r = match o {
                Ok(()) => {
                    let mut m = String::from_str("Promoted '");
                    m.append(p.as_str());
                    m.append("' symbols to global visibility");
                    Some(LogEntry::Info(m))
                },
                Err(e) => {
                    let mut m = String::from_str("dlopen promotion failed for '");
                    m.append(p.as_str());
                    m.append("': ");
                    m.append(e.as_str());
                    Some(LogEntry::Warning(m))
                },
            };
            assert(promotion(images@, library_name@, reopen, Some(p), Some(go), r));
            r
        },
    }
}

/// Promotes the named library's symbols to global visibility (see
/// [`ensure_global_visibility`]); the loader on Linux and Android may have
/// opened it with local visibility.
pub fn promote_library_to_global(
    library_name: &str,
    images: &Vec<LoadedImage>,
    reopen: impl Fn(&str) -> Result<(), String>,
) -> (r: Option<LogEntry>)
    requires
        forall|p: &str| reopen.requires((p,)),
    ensures
        exists|path: Option<String>, reopened: Option<Result<(), String>>|
            #[trigger] promotion(images@, library_name@, reopen, path, reopened, r),
{
    ensure_global_visibility(library_name, images, reopen)
}

/// Resolution of IL2CPP internal calls.
pub struct Internals;

impl Internals {
    /// Resolves an internal call by name with the runtime's resolver
    /// (`resolve_icall`); the name must not hold a NUL character.
    pub fn resolve(name: &str, resolve_icall: impl Fn(&str) -> usize) -> (r: usize)
        requires
            !has_nul(name@),
            resolve_icall.requires((name,)),
        ensures
            resolve_icall.ensures((name,), r),
    {
        resolve_icall(name)
    }

    /// Registers `method` as the internal call `name` with the runtime
    /// (`add_internal_call`); the name must not hold a NUL character.
    pub fn add(name: &str, method: usize, add_internal_call: impl Fn(&str, usize))
        requires
            !has_nul(name@),
            add_internal_call.requires((name, method)),
        ensures
            add_internal_call.ensures((name, method), ()),
    {
        add_internal_call(name, method)
    }
}

/// `op` leaves the address of `name` as it is once `name` is cached: it
/// neither clears the cache nor stores another address for `name`.
pub open spec fn keeps_cached(op: CacheOp, name: Seq<char>) -> bool {
    match op {
        CacheOp::Store(k, _) => k != name,
        CacheOp::Clear => false,
        CacheOp::Resolve(_, _) => true,
    }
}

/// `op` can give `name` an address: a store of `name`, or a resolution
/// of `name` that the platform answered.
pub open spec fn may_cache(op: CacheOp, name: Seq<char>) -> bool {
    match op {
        CacheOp::Store(k, _) => k == name,
        CacheOp::Clear => false,
        CacheOp::Resolve(k, found) => k == name && found is Some,
    }
}

/// The last store of a name is what the cache gives for it: after any
/// history in which `cache_symbol(s, a)` was the last store of `s` and the
/// cache was not cleared since, `s` is cached as `a`. So `resolve_symbol`
/// (and `get_image_base`) on `s` then returns `a` without asking the
/// platform, and leaves the cache as it is.
pub proof fn law_last_store_is_returned(
    m: Map<Seq<char>, usize>,
    before: Seq<CacheOp>,
    s: Seq<char>,
    a: usize,
    after: Seq<CacheOp>,
)
    requires
        forall|i: int| 0 <= i < after.len() ==> keeps_cached(#[trigger] after[i], s),
    ensures
        ({
            let c = cache_after(m, before.push(CacheOp::Store(s, a)) + after);
            &&& c.dom().contains(s)
            &&& c[s] == a
            &&& forall|found: Option<usize>| #[trigger]
                cache_step(c, CacheOp::Resolve(s, found)) == c
        }),
    decreases after.len(),
{
    let h = before.push(CacheOp::Store(s, a));
    if after.len() == 0 {
        assert(h + after =~= h);
        assert(h.drop_last() =~= before);
    } else {
        assert forall|i: int| 0 <= i < after.drop_last().len() implies keeps_cached(
            #[trigger] after.drop_last()[i],
            s,
        ) by {
            assert(after.drop_last()[i] == after[i]);
        }
        law_last_store_is_returned(m, before, s, a, after.drop_last());
        assert((h + after).drop_last() =~= h + after.drop_last());
        assert((h + after).last() == after.last());
        assert(keeps_cached(after[after.len() - 1], s));
    }
}

/// A clear forgets every name: after `clear_cache`, a name is cached only
/// when a later store or platform answer for it put it there. Until then
/// `resolve_symbol` on it asks the platform.
pub proof fn law_clear_forgets(
    m: Map<Seq<char>, usize>,
    before: Seq<CacheOp>,
    s: Seq<char>,
    after: Seq<CacheOp>,
)
    requires
        forall|i: int| 0 <= i < after.len() ==> !may_cache(#[trigger] after[i], s),
    ensures
        !cache_after(m, before.push(CacheOp::Clear) + after).dom().contains(s),
    decreases after.len(),
{
    let h = before.push(CacheOp::Clear);
    if after.len() == 0 {
        assert(h + after =~= h);
        assert(h.drop_last() =~= before);
    } else {
        assert forall|i: int| 0 <= i < after.drop_last().len() implies !may_cache(
            #[trigger] after.drop_last()[i],
            s,
        ) by {
            assert(after.drop_last()[i] == after[i]);
        }
        law_clear_forgets(m, before, s, after.drop_last());
        assert((h + after).drop_last() =~= h + after.drop_last());
        assert((h + after).last() == after.last());
        assert(!may_cache(after[after.len() - 1], s));
    }
}

} // verus!
