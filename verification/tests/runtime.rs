use il2cpp_bridge_rs::application::{Application, ManagedString};
use il2cpp_bridge_rs::class::Class;
use il2cpp_bridge_rs::handles::{CameraEye, ForceMode, HumanBodyBones, LayerMask, MutPtr};
use il2cpp_bridge_rs::invoke::{
    invocation_error, is_message_getter, type_arguments, ExceptionMessage, FieldLocation,
    ReturnKind, ReturnRead,
};
use il2cpp_bridge_rs::model::{Arg, Field, Method, Property, Type};
use il2cpp_bridge_rs::startup::{
    after_attempt, missing_symbols_message, on_init, on_worker_end, CacheNext, CacheOutcome,
    InitCall, InitState, CACHE_INIT_MAX_ATTEMPTS,
};
use il2cpp_bridge_rs::symbols::LogEntry;

fn ty(name: &str, size: i32) -> Type {
    Type { address: 0, name: name.to_string(), size, qualified_name: None, class_name: None }
}

fn method(name: &str, args: usize, is_static: bool, instance: Option<usize>) -> Method {
    Method {
        address: 1,
        token: 0,
        name: name.to_string(),
        class: None,
        return_type: ty("UnityEngine.Vector3", 12),
        flags: 6,
        is_static,
        function: 0,
        rva: 0,
        va: 0,
        args: (0..args).map(|i| Arg { name: format!("a{}", i), type_info: ty("System.Int32", 4) }).collect(),
        is_generic: false,
        is_inflated: false,
        is_instance: !is_static,
        param_count: args as u8,
        declaring_type: 0,
        instance,
    }
}

fn class(name: &str, object: usize) -> Class {
    Class {
        address: 0,
        image: 0,
        token: 0,
        name: name.to_string(),
        parent: None,
        namespace: String::new(),
        is_enum: false,
        is_generic: true,
        is_inflated: false,
        is_interface: false,
        is_abstract: false,
        is_blittable: false,
        is_valuetype: false,
        flags: 0,
        rank: 0,
        instance_size: 0,
        array_element_size: 0,
        num_fields_count: 0,
        enum_basetype: 0,
        static_field_data: 0,
        assembly_name: String::new(),
        fields: Vec::new(),
        methods: Vec::new(),
        properties: Vec::new(),
        interfaces: Vec::new(),
        nested_types: Vec::new(),
        element_class: 0,
        declaring_type: 0,
        ty: 0,
        object,
    }
}

#[test]
fn init_call_per_state() {
    let mut s = InitState::Idle;
    assert!(matches!(on_init(&mut s), InitCall::StartWorker));
    assert!(matches!(s, InitState::Running));
    assert!(matches!(on_init(&mut s), InitCall::Queue));
    assert!(on_worker_end(&mut s, true));
    assert!(matches!(s, InitState::Done));
    assert!(matches!(on_init(&mut s), InitCall::RunNow));
    let mut f = InitState::Running;
    assert!(!on_worker_end(&mut f, false));
    assert!(matches!(f, InitState::Idle));
    assert!(matches!(on_init(&mut f), InitCall::StartWorker));
    for _ in 0..3 {
        assert!(matches!(on_init(&mut f), InitCall::Queue));
    }
    assert!(matches!(f, InitState::Running));
}

#[test]
fn cache_attempts_retry_then_give_up() {
    let (next, logs) = after_attempt(1, CacheOutcome::LoadFailed("Failed to get domain".to_string()));
    assert!(matches!(next, CacheNext::Retry));
    assert_eq!(logs.len(), 2);
    match &logs[0] {
        LogEntry::Error(m) => assert_eq!(m, "Cache init failed: Failed to get domain"),
        _ => panic!("expected an error"),
    }
    match &logs[1] {
        LogEntry::Info(m) => assert_eq!(m, "Cache initialization attempt 1/5 failed. Retrying in 3s..."),
        _ => panic!("expected a note"),
    }
    let (last, logs) = after_attempt(CACHE_INIT_MAX_ATTEMPTS, CacheOutcome::HydrationFailed("bad".to_string()));
    assert!(matches!(last, CacheNext::GiveUp));
    match &logs[0] {
        LogEntry::Error(m) => assert_eq!(m, "Cache init failed during class hydration: bad"),
        _ => panic!("expected an error"),
    }
    match &logs[1] {
        LogEntry::Error(m) => assert_eq!(m, "Cache initialization failed after all retry attempts."),
        _ => panic!("expected an error"),
    }
    let mut attempts = 0;
    for a in 1..=CACHE_INIT_MAX_ATTEMPTS {
        attempts += 1;
        let (n, _) = after_attempt(a, CacheOutcome::LoadFailed("x".to_string()));
        if matches!(n, CacheNext::GiveUp) {
            break;
        }
    }
    assert_eq!(attempts, 5);
}

#[test]
fn cache_ready_message() {
    let (next, logs) = after_attempt(2, CacheOutcome::Ready { assemblies: 3, classes: 120 });
    assert!(matches!(next, CacheNext::Ready));
    assert_eq!(logs.len(), 1);
    match &logs[0] {
        LogEntry::Info(m) => assert_eq!(m, "Cache initialized: 3 assemblies loaded, 120 classes hydrated"),
        _ => panic!("expected a note"),
    }
    assert_eq!(
        missing_symbols_message(&vec!["il2cpp_init".to_string(), "il2cpp_domain_get".to_string()]),
        "Failed to load IL2CPP API symbols: il2cpp_init, il2cpp_domain_get"
    );
}

#[test]
fn call_target_checks() {
    assert_eq!(method("Foo", 1, true, None).invocation_target(1).unwrap(), 0);
    assert_eq!(method("Foo", 0, false, Some(0x44)).invocation_target(0).unwrap(), 0x44);
    assert_eq!(
        method("Foo", 0, false, None).invocation_target(0).unwrap_err(),
        "Method 'Foo' is not static but no instance was provided. Use Object::method or set the instance manually."
    );
    assert_eq!(
        method("Foo", 2, true, None).invocation_target(1).unwrap_err(),
        "Argument count mismatch: expected 2, got 1"
    );
}

#[test]
fn return_value_reading() {
    let m = method("GetPos", 0, true, None);
    assert!(matches!(m.read_return(0, 8, ReturnKind::Reference, true, true), Ok(ReturnRead::Zero)));
    assert!(matches!(m.read_return(12, 8, ReturnKind::ValueType { value_size: 0 }, false, false), Ok(ReturnRead::Unboxed(12))));
    assert_eq!(
        m.read_return(4, 8, ReturnKind::ValueType { value_size: 0 }, false, false).unwrap_err(),
        "Method 'GetPos' returns 'UnityEngine.Vector3' (12 bytes), but caller requested 4 bytes"
    );
    assert_eq!(
        m.read_return(12, 8, ReturnKind::ValueType { value_size: 0 }, true, false).unwrap_err(),
        "Method 'GetPos' returned null for value type 'UnityEngine.Vector3'"
    );
    assert_eq!(
        m.read_return(12, 8, ReturnKind::ValueType { value_size: 0 }, false, true).unwrap_err(),
        "Method 'GetPos' returned a non-unboxable value for 'UnityEngine.Vector3'"
    );
    assert!(matches!(m.read_return(8, 8, ReturnKind::Unmanaged, false, false), Ok(ReturnRead::Pointer)));
    assert_eq!(
        m.read_return(4, 8, ReturnKind::Unmanaged, false, false).unwrap_err(),
        "Method 'GetPos' returns an unmanaged pointer-sized value, but caller requested 4 bytes"
    );
    assert_eq!(
        m.read_return(4, 8, ReturnKind::Reference, false, false).unwrap_err(),
        "Method 'GetPos' returns a reference type, but caller requested 4 bytes"
    );
    let mut n = method("Count", 0, true, None);
    n.return_type.size = 0;
    assert!(matches!(n.read_return(4, 8, ReturnKind::ValueType { value_size: 4 }, false, false), Ok(ReturnRead::Unboxed(4))));
}

#[test]
fn exception_errors() {
    assert!(is_message_getter(Some("get_Message")));
    assert!(!is_message_getter(None));
    assert_eq!(
        invocation_error(Some("get_Message"), &ExceptionMessage::Null),
        "Exception occurred while getting exception message"
    );
    assert_eq!(
        invocation_error(Some("Load"), &ExceptionMessage::Text("boom".to_string())),
        "IL2CPP exception during invocation of 'Load': boom"
    );
    assert_eq!(
        invocation_error(None, &ExceptionMessage::Rethrown),
        "IL2CPP exception during invocation of 'unknown': Exception thrown while getting exception message"
    );
    assert_eq!(
        invocation_error(Some("X"), &ExceptionMessage::Null),
        "IL2CPP exception during invocation of 'X': Exception message was null"
    );
    assert_eq!(
        invocation_error(Some("X"), &ExceptionMessage::Described("System.Exception".to_string())),
        "IL2CPP exception during invocation of 'X': System.Exception"
    );
}

fn field(is_static: bool, instance: Option<usize>) -> Field {
    let mut f = Field::from_metadata(1, "hp".to_string(), ty("System.Int32", 4), None, 0x10, if is_static { 0x16 } else { 0x6 });
    f.instance = instance;
    f
}

#[test]
fn field_locations() {
    assert!(matches!(field(true, None).read_location(Some(false)), Ok(FieldLocation::Static)));
    assert_eq!(field(true, None).read_location(Some(true)).unwrap_err(), "Cannot read static field of generic class");
    assert!(matches!(field(false, Some(0x1000)).read_location(None), Ok(FieldLocation::Instance(0x1010))));
    assert_eq!(
        field(false, None).write_location().unwrap_err(),
        "Field 'hp' is an instance field but no instance was provided. Use Object::field or set the instance manually."
    );
    assert!(matches!(field(true, None).write_location(), Ok(FieldLocation::Static)));
}

#[test]
fn property_accessor_calls() {
    let getter = method("get_Hp", 0, false, None);
    let mut p = Property::from_methods(Some(getter), None).unwrap();
    assert_eq!(
        p.getter_call().unwrap_err(),
        "Property 'Hp' is not static but no instance was provided. Use Object::property or set the instance manually."
    );
    p.instance = Some(0x500);
    assert_eq!(p.getter_call().unwrap().instance, Some(0x500));
    assert_eq!(p.setter_call().unwrap_err(), "Property 'Hp' does not have a setter");
}

#[test]
fn inflation_argument_checks() {
    let args = vec![class("Int32", 0x11), class("String", 0x22)];
    assert_eq!(type_arguments(&args).unwrap(), vec![0x11, 0x22]);
    let bad = vec![class("Int32", 0x11), class("Broken", 0)];
    assert_eq!(type_arguments(&bad).unwrap_err(), "Class 'Broken' (arg 1) has no Type object");
    let generic = class("List`1", 0x99);
    assert_eq!(generic.inflation_arguments(&args).unwrap(), vec![0x11, 0x22]);
    assert_eq!(generic.inflation_arguments(&vec![]).unwrap_err(), "No type arguments provided");
    let mut plain = class("Plain", 0x99);
    plain.is_generic = false;
    assert_eq!(
        plain.inflation_arguments(&args).unwrap_err(),
        "Class 'Plain' is not a generic type definition and cannot be inflated"
    );
    let untyped = class("Gen", 0);
    assert_eq!(untyped.inflation_arguments(&args).unwrap_err(), "Could not get Type object for class 'Gen'");
    let m = method("Make", 0, true, None);
    assert_eq!(m.inflation_arguments(&args).unwrap_err(), "Method 'Make' is not a generic method definition");
    let mut g = method("Make", 0, true, None);
    g.is_generic = true;
    assert_eq!(g.inflation_arguments(&args).unwrap(), vec![0x11, 0x22]);
}

#[test]
fn handles_and_enums() {
    let p: MutPtr<u8> = MutPtr::new(0);
    assert!(p.is_null());
    let q: MutPtr<u8> = MutPtr::new(0x10);
    assert!(!q.is_null());
    assert_eq!(q.as_ptr(), 0x10);
    assert_eq!(HumanBodyBones::Hips.value(), 0);
    assert_eq!(HumanBodyBones::UpperChest.value(), 54);
    assert_eq!(HumanBodyBones::LastBone.value(), 55);
    assert_eq!(ForceMode::Acceleration.value(), 5);
    assert_eq!(ForceMode::Impulse.value(), 1);
    assert_eq!(CameraEye::Mono.value(), 2);
    let m = LayerMask::from(8);
    assert_eq!(m.value, 8);
    assert_eq!(i32::from(m), 8);
}

#[test]
fn application_accessors() {
    let fetch = |name: &str| -> Result<String, String> {
        match name {
            "get_unityVersion" => Ok(String::new()),
            "get_version" => Ok("1.2.3".to_string()),
            "get_identifier" => Ok(String::new()),
            "get_bundleIdentifier" => Ok("com.example.game".to_string()),
            "get_persistentDataPath" => Err("Failed".to_string()),
            _ => Err("unknown".to_string()),
        }
    };
    assert_eq!(Application::unity_version(&fetch).unwrap(), "unknown");
    assert_eq!(Application::version(&fetch).unwrap(), "1.2.3");
    assert_eq!(Application::identifier(&fetch).unwrap(), "com.example.game");
    assert!(Application::data_path(&fetch).is_err());
    assert_eq!(Application::identifier(|_n: &str| Err("no".to_string())).unwrap(), "unknown.application");
    assert_eq!(Application::unity_version(|_n: &str| Ok("2022.3.1f1".to_string())).unwrap(), "2022.3.1f1");
    assert_eq!(Application::icall_name("get_version"), "UnityEngine.Application::get_version");
}

#[test]
fn application_string_getter() {
    let r = Application::get_string(
        "get_version",
        |full: &str| {
            assert_eq!(full, "UnityEngine.Application::get_version");
            Some(ManagedString::Text(Some("9.9".to_string())))
        },
        || None,
        |_m: &Method| Err("unused".to_string()),
    );
    assert_eq!(r.unwrap(), "9.9");
    let n = Application::get_string("get_version", |_f: &str| Some(ManagedString::Null), || None, |_m: &Method| Err("x".to_string()));
    assert_eq!(n.unwrap(), "");
    let no_class = Application::get_string("get_version", |_f: &str| None, || None, |_m: &Method| Err("x".to_string()));
    assert_eq!(no_class.unwrap_err(), "Class 'UnityEngine.Application' not found");
    let mut app_class = class("Application", 0);
    app_class.is_generic = false;
    let no_method = Application::get_string(
        "get_version",
        |_f: &str| None,
        || Some((class("Application", 0), Vec::new())),
        |_m: &Method| Err("x".to_string()),
    );
    assert_eq!(no_method.unwrap_err(), "Method 'get_version' not found");
    app_class.methods.push(method("get_version", 0, true, None));
    let called = Application::get_string(
        "get_version",
        |_f: &str| None,
        || {
            let mut c = class("Application", 0);
            c.methods.push(method("get_version", 0, true, None));
            Some((c, Vec::new()))
        },
        |m: &Method| {
            assert_eq!(m.name, "get_version");
            Ok(ManagedString::Text(None))
        },
    );
    assert_eq!(called.unwrap(), "");
    let failed = Application::get_string(
        "get_version",
        |_f: &str| None,
        || {
            let mut c = class("Application", 0);
            c.methods.push(method("get_version", 0, true, None));
            Some((c, Vec::new()))
        },
        |_m: &Method| Err("boom".to_string()),
    );
    assert_eq!(failed.unwrap_err(), "boom");
    assert_eq!(app_class.methods.len(), 1);
}
