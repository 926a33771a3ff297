use il2cpp_bridge_rs::symbols::{
    cache_symbol, clear_cache, ensure_global_visibility, find_image_base, find_image_path,
    get_image_base, promote_library_to_global, raw_resolve, resolve_symbol, AddressCache,
    Internals, LoadedImage, LogEntry, SymbolError,
};
use std::cell::Cell;

#[test]
fn resolved_symbol_is_cached() {
    let mut cache = AddressCache::new();
    let calls = Cell::new(0);
    let lookup = |s: &str| {
        calls.set(calls.get() + 1);
        if s == "il2cpp_init" { Ok(0x4000) } else { Err(SymbolError::NotFound(s.to_string())) }
    };
    assert!(matches!(resolve_symbol(&mut cache, "il2cpp_init", &lookup), Ok(0x4000)));
    assert!(matches!(resolve_symbol(&mut cache, "il2cpp_init", &lookup), Ok(0x4000)));
    assert_eq!(calls.get(), 1);
    assert_eq!(cache.get("il2cpp_init"), Some(0x4000));
}

#[test]
fn failed_lookup_is_not_cached() {
    let mut cache = AddressCache::new();
    let r = resolve_symbol(&mut cache, "missing", |s: &str| Err(SymbolError::NotFound(s.to_string())));
    match r {
        Err(e) => assert_eq!(e.message(), "Symbol not found: missing"),
        Ok(_) => panic!("expected an error"),
    }
    assert_eq!(cache.get("missing"), None);
}

#[test]
fn manual_cache_and_clear() {
    let mut cache = AddressCache::new();
    cache_symbol(&mut cache, "MGCopyAnswer", 0x1234);
    assert!(matches!(resolve_symbol(&mut cache, "MGCopyAnswer", |_s: &str| Ok(1)), Ok(0x1234)));
    cache_symbol(&mut cache, "MGCopyAnswer", 0x5678);
    assert_eq!(cache.get("MGCopyAnswer"), Some(0x5678));
    clear_cache(&mut cache);
    assert_eq!(cache.get("MGCopyAnswer"), None);
    assert!(matches!(resolve_symbol(&mut cache, "MGCopyAnswer", |_s: &str| Ok(7)), Ok(7)));
}

#[test]
fn symbol_error_messages() {
    assert_eq!(SymbolError::StringError.message(), "CString error");
    assert_eq!(SymbolError::NotFound("x".to_string()).message(), "Symbol not found: x");
}

#[test]
fn raw_resolve_checks_name_and_address() {
    assert!(matches!(raw_resolve("bad\0name", |_s: &str| 5), Err(SymbolError::StringError)));
    match raw_resolve("absent", |_s: &str| 0) {
        Err(SymbolError::NotFound(n)) => assert_eq!(n, "absent"),
        _ => panic!("expected NotFound"),
    }
    assert!(matches!(raw_resolve("present", |_s: &str| 0x9000), Ok(0x9000)));
}

fn images() -> Vec<LoadedImage> {
    vec![
        LoadedImage { path: None, base: Some(0x100) },
        LoadedImage { path: Some("/usr/lib/libc.so.6".to_string()), base: Some(0x200) },
        LoadedImage { path: Some("/data/app/GameAssembly.so".to_string()), base: None },
        LoadedImage { path: Some("/data/app2/GameAssembly.so".to_string()), base: Some(0x300) },
    ]
}

#[test]
fn image_base_first_match_with_base() {
    assert_eq!(find_image_base(&images(), "GameAssembly"), Some(0x300));
    assert_eq!(find_image_base(&images(), "libc"), Some(0x200));
    assert_eq!(find_image_base(&images(), "UnityFramework"), None);
    assert_eq!(find_image_path(&images(), "GameAssembly"), Some("/data/app/GameAssembly.so".to_string()));
    assert_eq!(find_image_path(&images(), "nothing"), None);
}

#[test]
fn image_base_is_cached() {
    let mut cache = AddressCache::new();
    let imgs = images();
    assert_eq!(get_image_base(&mut cache, "GameAssembly", |n: &str| find_image_base(&imgs, n)), Some(0x300));
    assert_eq!(get_image_base(&mut cache, "GameAssembly", |_n: &str| None), Some(0x300));
    assert_eq!(get_image_base(&mut cache, "Other", |_n: &str| None), None);
    assert_eq!(cache.get("Other"), None);
}

#[test]
fn promotion_reports() {
    let imgs = images();
    match ensure_global_visibility("Missing", &imgs, |_p: &str| Ok(())) {
        Some(LogEntry::Warning(m)) => {
            assert_eq!(m, "Could not find loaded library matching 'Missing'; symbol promotion skipped")
        }
        _ => panic!("expected a warning"),
    }
    match ensure_global_visibility("GameAssembly", &imgs, |_p: &str| Ok(())) {
        Some(LogEntry::Info(m)) => {
            assert_eq!(m, "Promoted '/data/app/GameAssembly.so' symbols to global visibility")
        }
        _ => panic!("expected a note"),
    }
    match promote_library_to_global("libc", &imgs, |_p: &str| Err("no such file".to_string())) {
        Some(LogEntry::Warning(m)) => {
            assert_eq!(m, "dlopen promotion failed for '/usr/lib/libc.so.6': no such file")
        }
        _ => panic!("expected a warning"),
    }
    let odd = vec![LoadedImage { path: Some("lib\0x".to_string()), base: None }];
    assert!(ensure_global_visibility("lib", &odd, |_p: &str| Ok(())).is_none());
}

#[test]
fn internal_calls_pass_through() {
    assert_eq!(Internals::resolve("UnityEngine.Application::get_version", |n: &str| n.len()), 36);
    let seen = Cell::new(0usize);
    Internals::add("My::call", 0xABC, |_n: &str, m: usize| seen.set(m));
    assert_eq!(seen.get(), 0xABC);
}

#[test]
fn last_store_wins_over_a_history() {
    let mut cache = AddressCache::new();
    cache_symbol(&mut cache, "il2cpp_init", 0x10);
    cache_symbol(&mut cache, "il2cpp_init", 0x20);
    let _ = resolve_symbol(&mut cache, "il2cpp_domain_get", |_s: &str| Ok(0x30));
    cache_symbol(&mut cache, "il2cpp_free", 0x40);
    let _ = resolve_symbol(&mut cache, "il2cpp_init", |_s: &str| Ok(0x99));
    let r = resolve_symbol(&mut cache, "il2cpp_init", |_s: &str| -> Result<usize, SymbolError> {
        panic!("a cached symbol is not looked up")
    });
    assert!(matches!(r, Ok(0x20)));
    assert_eq!(cache.get("il2cpp_init"), Some(0x20));
    assert_eq!(cache.get("il2cpp_domain_get"), Some(0x30));
}

#[test]
fn clear_forgets_until_rewritten() {
    let mut cache = AddressCache::new();
    cache_symbol(&mut cache, "il2cpp_init", 0x10);
    clear_cache(&mut cache);
    let _ = resolve_symbol(&mut cache, "il2cpp_init", |s: &str| Err(SymbolError::NotFound(s.to_string())));
    assert_eq!(cache.get("il2cpp_init"), None);
    let calls = Cell::new(0);
    let r = resolve_symbol(&mut cache, "il2cpp_init", |_s: &str| {
        calls.set(calls.get() + 1);
        Ok(0x50)
    });
    assert!(matches!(r, Ok(0x50)));
    assert_eq!(calls.get(), 1);
}
