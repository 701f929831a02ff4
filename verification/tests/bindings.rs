use dom_bindings::engine::{
    has_instance, initialize_global, DOMClass, Engine, GetProtoOrIfaceArray, JSPROP_ENUMERATE,
    JSPROP_GETTER, JSPROP_SETTER, DOM_PROTO_INSTANCE_CLASS_SLOT,
};
use dom_bindings::eventtarget::{EventTarget, EVENT_TARGET_INTERFACE_ID};
use dom_bindings::interface::{
    define_empty_prototype, instance_jsclass, prototype_jsclass, CreateInterfaceObjects2,
    DefineConstants, GlobalStaticData, InitIds, InterfaceObjectToString, InternJSString,
    ThrowingConstructor, ensure_interface_object, JSPropertySpec, NativeAccessor,
};
use dom_bindings::proxy::{GetArrayIndexFromId, GetPropertyOnPrototype};
use dom_bindings::tag::{can_unwrap_object, get_dom_class, unwrap};
use dom_bindings::values::{
    constant_to_jsval, domstring_to_jsval, jsval_to_str, ConstantSpec, ConstantVal, DOMString,
    EngineValue, EnumEntry, FindEnumStringIndex, JsId, NativeFn, NativeValue,
};
use dom_bindings::wrapper::{JSManaged, WrapNewBindingObject, WrapperCache};
use dom_bindings::xray::{JSPropertyDescriptor, XrayResolveProperty};

fn fresh_engine_with_target(engine: &mut Engine) -> JSManaged {
    EventTarget::new(engine).expect("wrapping a fresh event target must succeed")
}

#[test]
fn wrap_same_native_twice_yields_same_wrapper() {
    let mut engine = Engine::new();
    let m1 = fresh_engine_with_target(&mut engine);
    let w1 = m1.wrapper;
    // re-derive the native from the engine object: its cache points back
    let native = *m1.with_imm(&engine);
    let NativeValue::EventTargetValue(target) = native;
    assert_eq!(target.wrapper.wrapper, Some(w1));
    // wrapping again reuses the cached wrapper and allocates nothing
    let objects_before = engine.objects.len();
    let m2 = JSManaged::new(&mut engine, target).expect("rewrap");
    assert_eq!(m2.wrapper, w1);
    assert_eq!(engine.objects.len(), objects_before);
}

#[test]
fn wrapper_cache_starts_empty_and_records_once() {
    let mut cache = WrapperCache::new();
    assert_eq!(cache.get_wrapper(), None);
    cache.set_wrapper(7);
    assert_eq!(cache.get_wrapper(), Some(7));
}

#[test]
fn type_chain_check_accepts_own_interface_at_every_depth() {
    let mut engine = Engine::new();
    let m = fresh_engine_with_target(&mut engine);
    for depth in 0..3 {
        assert_eq!(
            can_unwrap_object(&engine, m.wrapper, EVENT_TARGET_INTERFACE_ID, depth),
            Ok(())
        );
    }
}

#[test]
fn type_chain_check_rejects_unrelated_interface_at_every_depth() {
    let mut engine = Engine::new();
    let m = fresh_engine_with_target(&mut engine);
    let unrelated: u32 = 9;
    for depth in 0..3 {
        assert_eq!(can_unwrap_object(&engine, m.wrapper, unrelated, depth), Err(()));
    }
}

#[test]
fn classify_rejects_plain_objects_and_reads_proxy_extra() {
    let mut engine = Engine::new();
    // the global carries no interface metadata
    assert!(get_dom_class(&engine, 0).is_err());
    // a proxy carries its metadata in the handler's extra data
    let extra = DOMClass { interface_chain: [4, 2, 1], unused: false, native_hooks: None };
    let proxy = engine.new_proxy_object(0, None, None, extra);
    let dc = get_dom_class(&engine, proxy).expect("proxy metadata");
    assert_eq!(dc.interface_chain, [4, 2, 1]);
    assert_eq!(can_unwrap_object(&engine, proxy, 2, 1), Ok(()));
    assert_eq!(can_unwrap_object(&engine, proxy, 2, 0), Err(()));
}

#[test]
fn unwrap_recovers_the_embedded_native() {
    let mut engine = Engine::new();
    let m = fresh_engine_with_target(&mut engine);
    let NativeValue::EventTargetValue(t) = *unwrap(&engine, m.wrapper);
    assert_eq!(t.wrapper.wrapper, Some(m.wrapper));
}

#[test]
fn with_mut_exchanges_the_stored_native() {
    let mut engine = Engine::new();
    let m = fresh_engine_with_target(&mut engine);
    let replacement = NativeValue::EventTargetValue(EventTarget {
        wrapper: WrapperCache { wrapper: Some(m.wrapper) },
    });
    let NativeValue::EventTargetValue(old) = m.with_mut(&mut engine, replacement);
    assert_eq!(old.wrapper.wrapper, Some(m.wrapper));
    let NativeValue::EventTargetValue(now) = *m.with_imm(&engine);
    assert_eq!(now.wrapper.wrapper, Some(m.wrapper));
}

#[test]
fn sanity_checks_measure_available_storage() {
    assert!(JSManaged::sanity_check(16));
    assert!(!JSManaged::sanity_check(17));
    assert!(JSManaged::sanity_check_proxy(13));
    assert!(!JSManaged::sanity_check_proxy(14));
}

#[test]
fn constant_values_round_trip_for_every_kind() {
    let double_bits = 3.25f64.to_bits();
    let cases = vec![
        ConstantVal::IntVal(-7),
        ConstantVal::UintVal(42),
        ConstantVal::DoubleVal(double_bits),
        ConstantVal::BoolVal(true),
        ConstantVal::BoolVal(false),
        ConstantVal::NullVal,
        ConstantVal::VoidVal,
    ];
    for c in cases {
        let v = constant_to_jsval(&c);
        let back = match v {
            EngineValue::IntValue(i) => ConstantVal::IntVal(i),
            EngineValue::UintValue(u) => ConstantVal::UintVal(u),
            EngineValue::DoubleValue(d) => ConstantVal::DoubleVal(d),
            EngineValue::BoolValue(b) => ConstantVal::BoolVal(b),
            EngineValue::NullValue => ConstantVal::NullVal,
            EngineValue::VoidValue => ConstantVal::VoidVal,
            _ => panic!("constant converted to a non-constant engine value"),
        };
        assert_eq!(back, c);
    }
    // the double comes back bit-for-bit
    match constant_to_jsval(&ConstantVal::DoubleVal(double_bits)) {
        EngineValue::DoubleValue(d) => assert_eq!(f64::from_bits(d), 3.25f64),
        _ => panic!("double constant lost its kind"),
    }
}

#[test]
fn defined_constants_are_readonly_and_permanent() {
    let mut engine = Engine::new();
    let obj = engine.new_object(0, None, None);
    let constants = vec![
        ConstantSpec { name: Some("ANSWER".to_string()), value: ConstantVal::UintVal(42) },
        ConstantSpec { name: None, value: ConstantVal::VoidVal },
        ConstantSpec { name: Some("AFTER_SENTINEL".to_string()), value: ConstantVal::NullVal },
    ];
    assert!(DefineConstants(&mut engine, obj, &constants));
    let key = JsId::StrId("ANSWER".to_string());
    // the value reads back
    let entry = engine.get_own_property(obj, &key).expect("constant installed");
    assert!(matches!(entry.value, EngineValue::UintValue(42)));
    // writing it has no effect
    assert!(!engine.set_property(obj, JsId::StrId("ANSWER".to_string()), EngineValue::UintValue(1)));
    let entry = engine.get_own_property(obj, &key).expect("constant still there");
    assert!(matches!(entry.value, EngineValue::UintValue(42)));
    // deleting it fails
    assert!(!engine.delete_property(obj, &key));
    assert!(engine.get_own_property(obj, &key).is_some());
    // the table stopped at the sentinel
    let after = JsId::StrId("AFTER_SENTINEL".to_string());
    assert!(engine.get_own_property(obj, &after).is_none());
}

#[test]
fn enum_resolution_is_exact_and_case_sensitive() {
    let values = vec![
        EnumEntry { value: "foo".to_string(), length: 3 },
        EnumEntry { value: "bar".to_string(), length: 3 },
        EnumEntry { value: "bazz".to_string(), length: 4 },
    ];
    let hit = EngineValue::StringValue("bar".to_string());
    assert_eq!(FindEnumStringIndex(&hit, &values), Ok(Some(1)));
    // no match is a structured not-found, distinct from an engine failure
    let wrong_case = EngineValue::StringValue("Bar".to_string());
    assert_eq!(FindEnumStringIndex(&wrong_case, &values), Ok(None));
    let prefix = EngineValue::StringValue("ba".to_string());
    assert_eq!(FindEnumStringIndex(&prefix, &values), Ok(None));
    let longer = EngineValue::StringValue("bazz".to_string());
    assert_eq!(FindEnumStringIndex(&longer, &values), Ok(Some(2)));
    // a value the engine cannot coerce to a string is a failure, not a no-match
    assert_eq!(FindEnumStringIndex(&EngineValue::ObjectValue(0), &values), Err(()));
    // primitive singletons coerce to their spellings first
    let null_entry = vec![EnumEntry { value: "null".to_string(), length: 4 }];
    assert_eq!(FindEnumStringIndex(&EngineValue::NullValue, &null_entry), Ok(Some(0)));
}

#[test]
fn interface_registration_is_idempotent() {
    let mut engine = Engine::new();
    let global = engine.global;
    initialize_global(&mut engine, global);
    let proto_class = engine.register_class(prototype_jsclass("EventTargetPrototype".to_string()));
    let dom_class = DOMClass {
        interface_chain: [EVENT_TARGET_INTERFACE_ID; 3],
        unused: false,
        native_hooks: None,
    };
    let first = ensure_interface_object(
        &mut engine,
        global,
        global,
        EVENT_TARGET_INTERFACE_ID as usize,
        None,
        Some(proto_class),
        None,
        Some(NativeFn::ThrowingNative),
        0,
        dom_class,
        None,
        None,
        None,
        None,
        &"EventTarget".to_string(),
    )
    .expect("first registration builds the pair");
    let objects_after_first = engine.objects.len();
    let global_props_after_first = engine.objects[global].props.len();
    let second = ensure_interface_object(
        &mut engine,
        global,
        global,
        EVENT_TARGET_INTERFACE_ID as usize,
        None,
        Some(proto_class),
        None,
        Some(NativeFn::ThrowingNative),
        0,
        dom_class,
        None,
        None,
        None,
        None,
        &"EventTarget".to_string(),
    )
    .expect("second registration reuses the pair");
    assert_eq!(first, second);
    // nothing was created and no duplicate property appeared
    assert_eq!(engine.objects.len(), objects_after_first);
    assert_eq!(engine.objects[global].props.len(), global_props_after_first);
    // the per-global table holds the pair
    let table = GetProtoOrIfaceArray(&engine, global);
    assert_eq!(table[EVENT_TARGET_INTERFACE_ID as usize], Some(first));
    // the prototype records its interface metadata in its reserved slot
    match &engine.objects[first].slots[DOM_PROTO_INSTANCE_CLASS_SLOT as usize] {
        EngineValue::DomClassValue(dc) => {
            assert_eq!(dc.interface_chain, [EVENT_TARGET_INTERFACE_ID; 3])
        },
        _ => panic!("expected interface metadata in the reserved slot"),
    }
}

#[test]
fn constructor_tostring_yields_literal_signature_on_exact_class() {
    let mut engine = Engine::new();
    let global = engine.global;
    let ctor_class = engine.register_class(prototype_jsclass("Foo".to_string()));
    let dom_class = DOMClass { interface_chain: [1; 3], unused: false, native_hooks: None };
    let ctor = CreateInterfaceObjects2(
        &mut engine,
        global,
        global,
        None,
        None,
        Some(ctor_class),
        None,
        0,
        dom_class,
        None,
        None,
        None,
        None,
        &"Foo".to_string(),
    )
    .expect("constructor built");
    // the toString override hangs off the constructor
    let ts_key = JsId::StrId("toString".to_string());
    let ts = match engine.get_own_property(ctor, &ts_key) {
        Some(entry) => match entry.value {
            EngineValue::ObjectValue(ts) => ts,
            _ => panic!("toString is not a function object"),
        },
        None => panic!("toString missing"),
    };
    // the constructor itself has the exact matching class
    let result = InterfaceObjectToString(&engine, ts, Some(ctor));
    match result {
        Ok(EngineValue::StringValue(s)) => {
            assert_eq!(s, "function Foo() {\n    [native code]\n}");
        },
        _ => panic!("toString failed on the matching class"),
    }
    // an unrelated object's class makes it fail rather than answer
    assert!(InterfaceObjectToString(&engine, ts, Some(global)).is_err());
    // and a missing receiver fails too
    assert!(InterfaceObjectToString(&engine, ts, None).is_err());
}

#[test]
fn registration_skips_existing_property() {
    let mut engine = Engine::new();
    let global = engine.global;
    engine.define_property(
        global,
        JsId::StrId("Foo".to_string()),
        EngineValue::IntValue(1),
        None,
        None,
        JSPROP_ENUMERATE,
    );
    let ctor_class = engine.register_class(prototype_jsclass("Foo".to_string()));
    let dom_class = DOMClass { interface_chain: [1; 3], unused: false, native_hooks: None };
    CreateInterfaceObjects2(
        &mut engine,
        global,
        global,
        None,
        None,
        Some(ctor_class),
        None,
        0,
        dom_class,
        None,
        None,
        None,
        None,
        &"Foo".to_string(),
    )
    .expect("constructor built");
    // the pre-existing property was left alone
    let key = JsId::StrId("Foo".to_string());
    let entry = engine.get_own_property(global, &key).expect("property");
    assert!(matches!(entry.value, EngineValue::IntValue(1)));
}

#[test]
fn proxy_forwarding_finds_prototype_property_with_proxy_as_receiver() {
    let mut engine = Engine::new();
    let proto = engine.new_object(0, None, None);
    engine.define_property(
        proto,
        JsId::StrId("x".to_string()),
        EngineValue::IntValue(7),
        None,
        None,
        JSPROP_ENUMERATE,
    );
    let extra = DOMClass { interface_chain: [0; 3], unused: false, native_hooks: None };
    let proxy = engine.new_proxy_object(0, Some(proto), None, extra);
    let key = JsId::StrId("x".to_string());
    match GetPropertyOnPrototype(&engine, proxy, &key, true) {
        Ok((true, Some(EngineValue::IntValue(7)))) => {},
        _ => panic!("prototype property not forwarded"),
    }
    // reporting-only lookups fetch no value
    match GetPropertyOnPrototype(&engine, proxy, &key, false) {
        Ok((true, None)) => {},
        _ => panic!("presence-only forwarding went wrong"),
    }
    // an absent property reports not-found without error
    let missing = JsId::StrId("y".to_string());
    assert!(matches!(GetPropertyOnPrototype(&engine, proxy, &missing, true), Ok((false, None))));
}

#[test]
fn proxy_forwarding_reports_not_found_without_prototype() {
    let mut engine = Engine::new();
    let extra = DOMClass { interface_chain: [0; 3], unused: false, native_hooks: None };
    let proxy = engine.new_proxy_object(0, None, None, extra);
    let key = JsId::StrId("x".to_string());
    assert!(matches!(GetPropertyOnPrototype(&engine, proxy, &key, true), Ok((false, None))));
}

#[test]
fn array_index_extraction_recognizes_integer_keys_only() {
    assert_eq!(GetArrayIndexFromId(&JsId::IntId(5)), Some(5));
    assert_eq!(GetArrayIndexFromId(&JsId::StrId("5".to_string())), None);
    assert_eq!(GetArrayIndexFromId(&JsId::StrId("length".to_string())), None);
    assert_eq!(GetArrayIndexFromId(&JsId::VoidId), None);
}

#[test]
fn string_marshalling_round_trips() {
    let s = DOMString::Str("hello".to_string());
    assert_eq!(s.to_str(), "hello");
    assert_eq!(DOMString::NullString.to_str(), "");
    match domstring_to_jsval(&s) {
        EngineValue::StringValue(t) => assert_eq!(t, "hello"),
        _ => panic!("present string must become an engine string"),
    }
    assert!(matches!(domstring_to_jsval(&DOMString::NullString), EngineValue::NullValue));
    assert_eq!(jsval_to_str(&EngineValue::StringValue("abc".to_string())), Ok("abc".to_string()));
    assert_eq!(jsval_to_str(&EngineValue::NullValue), Ok("null".to_string()));
    assert_eq!(jsval_to_str(&EngineValue::VoidValue), Ok("undefined".to_string()));
    assert_eq!(jsval_to_str(&EngineValue::BoolValue(true)), Ok("true".to_string()));
    assert_eq!(jsval_to_str(&EngineValue::BoolValue(false)), Ok("false".to_string()));
    assert_eq!(jsval_to_str(&EngineValue::ObjectValue(3)), Err(()));
}

#[test]
fn interning_fills_id_tables_up_to_sentinel() {
    let specs = vec![
        JSPropertySpec {
            name: Some("alpha".to_string()),
            flags: 0,
            getter: NativeAccessor { op: Some(NativeFn::OpaqueNative(1)), info: 0 },
            setter: NativeAccessor { op: None, info: 0 },
        },
        JSPropertySpec {
            name: None,
            flags: 0,
            getter: NativeAccessor { op: None, info: 0 },
            setter: NativeAccessor { op: None, info: 0 },
        },
    ];
    let mut ids = vec![JsId::VoidId, JsId::VoidId];
    assert!(InitIds(&specs, &mut ids));
    assert!(matches!(&ids[0], JsId::StrId(s) if s == "alpha"));
    assert!(matches!(&ids[1], JsId::VoidId));
    // the id array need only hold the entries before the sentinel
    let mut short_ids = vec![JsId::VoidId];
    assert!(InitIds(&specs, &mut short_ids));
    assert!(matches!(&short_ids[0], JsId::StrId(s) if s == "alpha"));
    assert!(matches!(InternJSString(&"zed".to_string()), Some(JsId::StrId(s)) if s == "zed"));
}

#[test]
fn throwing_constructor_always_fails() {
    let engine = Engine::new();
    assert!(ThrowingConstructor(&engine, Some(0)).is_err());
    assert!(ThrowingConstructor(&engine, None).is_err());
}

#[test]
fn empty_prototype_lands_on_global_and_registry() {
    let mut engine = Engine::new();
    let base = define_empty_prototype(&mut engine, "EventTargetPrototype".to_string(), None);
    let derived = define_empty_prototype(
        &mut engine,
        "NodePrototype".to_string(),
        Some("EventTargetPrototype".to_string()),
    );
    assert_eq!(engine.objects[derived].proto, Some(base));
    let key = JsId::StrId("NodePrototype".to_string());
    let entry = engine.get_own_property(engine.global, &key).expect("published");
    assert!(matches!(entry.value, EngineValue::ObjectValue(o) if o == derived));
    assert_eq!(engine.lookup_global_proto(&"EventTargetPrototype".to_string()), Some(base));
    assert_eq!(engine.lookup_global_proto(&"Absent".to_string()), None);
}

#[test]
fn instanceof_walks_the_prototype_chain() {
    let mut engine = Engine::new();
    let a = engine.new_object(0, None, None);
    let b = engine.new_object(0, Some(a), None);
    let c = engine.new_object(0, Some(b), None);
    assert!(has_instance(&engine, a, &EngineValue::ObjectValue(c)));
    assert!(has_instance(&engine, b, &EngineValue::ObjectValue(c)));
    assert!(!has_instance(&engine, c, &EngineValue::ObjectValue(a)));
    assert!(!has_instance(&engine, a, &EngineValue::IntValue(3)));
}

#[test]
fn xray_resolution_builds_fresh_accessors() {
    let mut engine = Engine::new();
    let attr = JSPropertySpec {
        name: Some("x".to_string()),
        flags: JSPROP_ENUMERATE,
        getter: NativeAccessor { op: Some(NativeFn::OpaqueNative(10)), info: 70 },
        setter: NativeAccessor { op: Some(NativeFn::OpaqueNative(11)), info: 71 },
    };
    let attrs = vec![(attr, JsId::StrId("x".to_string()))];
    let mut desc = JSPropertyDescriptor { attrs: 0, getter: None, setter: None };
    let id = JsId::StrId("x".to_string());
    assert!(XrayResolveProperty(&mut engine, 0, &id, &mut desc, None, Some(&attrs), None));
    assert!(desc.attrs & JSPROP_GETTER != 0);
    assert!(desc.attrs & JSPROP_SETTER != 0);
    let getter = desc.getter.expect("getter rebuilt");
    let setter = desc.setter.expect("setter rebuilt");
    assert!(matches!(
        engine.objects[getter].function,
        Some(ref f) if f.native == NativeFn::OpaqueNative(10) && f.nargs == 0
            && f.info == Some(70) && f.name.is_none()
    ));
    assert!(matches!(
        engine.objects[setter].function,
        Some(ref f) if f.native == NativeFn::OpaqueNative(11) && f.nargs == 1
            && f.info == Some(71) && f.name.is_none()
    ));
    // a second resolution builds new function objects: nothing is cached
    let mut desc2 = JSPropertyDescriptor { attrs: 0, getter: None, setter: None };
    assert!(XrayResolveProperty(&mut engine, 0, &id, &mut desc2, None, Some(&attrs), None));
    assert_ne!(desc2.getter, desc.getter);
    // a key the table does not name leaves the descriptor alone
    let mut desc3 = JSPropertyDescriptor { attrs: 0, getter: None, setter: None };
    let other = JsId::StrId("y".to_string());
    assert!(XrayResolveProperty(&mut engine, 0, &other, &mut desc3, None, Some(&attrs), None));
    assert!(desc3.getter.is_none());
}

#[test]
fn wrap_for_scope_hands_back_the_object_value() {
    let mut engine = Engine::new();
    let m = fresh_engine_with_target(&mut engine);
    let mut vp = EngineValue::VoidValue;
    assert!(WrapNewBindingObject(&engine, engine.global, m.wrapper, &mut vp));
    assert!(matches!(vp, EngineValue::ObjectValue(o) if o == m.wrapper));
}

#[test]
fn from_raw_carries_the_pointer_through() {
    let m = JSManaged::from_raw(12);
    assert_eq!(m.wrapper, 12);
}

#[test]
fn static_data_starts_empty() {
    let data = GlobalStaticData();
    assert!(data.proxy_handlers.is_empty());
    assert!(data.attribute_ids.is_empty());
    assert!(data.method_ids.is_empty());
    assert!(data.constant_ids.is_empty());
}

#[test]
fn instance_class_carries_interface_metadata() {
    let dom_class = DOMClass { interface_chain: [3, 2, 1], unused: false, native_hooks: None };
    let entry = instance_jsclass("Node".to_string(), Some(1), Some(2), dom_class);
    match entry {
        dom_bindings::engine::ClassEntry::Dom(d) => {
            assert_eq!(d.base.name, "Node");
            assert_eq!(d.dom_class.interface_chain, [3, 2, 1]);
            assert_eq!(d.base.finalize, Some(1));
            assert_eq!(d.base.trace, Some(2));
        },
        _ => panic!("instance classes carry interface metadata"),
    }
}

#[test]
fn prototype_builder_installs_methods_attributes_and_constants() {
    let mut engine = Engine::new();
    let global = engine.global;
    let proto_class = engine.register_class(prototype_jsclass("NodePrototype".to_string()));
    let methods = vec![
        dom_bindings::interface::JSFunctionSpec {
            name: Some("addEventListener".to_string()),
            call: NativeFn::OpaqueNative(21),
            nargs: 2,
            flags: 0,
        },
        dom_bindings::interface::JSFunctionSpec {
            name: None,
            call: NativeFn::OpaqueNative(0),
            nargs: 0,
            flags: 0,
        },
    ];
    let attributes = vec![
        JSPropertySpec {
            name: Some("nodeName".to_string()),
            flags: JSPROP_ENUMERATE,
            getter: NativeAccessor { op: Some(NativeFn::OpaqueNative(31)), info: 0 },
            setter: NativeAccessor { op: None, info: 0 },
        },
        JSPropertySpec {
            name: None,
            flags: 0,
            getter: NativeAccessor { op: None, info: 0 },
            setter: NativeAccessor { op: None, info: 0 },
        },
    ];
    let constants = vec![
        ConstantSpec { name: Some("ELEMENT_NODE".to_string()), value: ConstantVal::UintVal(1) },
        ConstantSpec { name: None, value: ConstantVal::VoidVal },
    ];
    let proto = dom_bindings::interface::CreateInterfacePrototypeObject(
        &mut engine,
        global,
        None,
        proto_class,
        Some(&methods),
        Some(&attributes),
        Some(&constants),
    )
    .expect("prototype built");
    // the method stands as a function object with the spec's native and arity
    let mkey = JsId::StrId("addEventListener".to_string());
    let mentry = engine.get_own_property(proto, &mkey).expect("method installed");
    let fid = match mentry.value {
        EngineValue::ObjectValue(f) => f,
        _ => panic!("method is not a function object"),
    };
    assert!(matches!(
        engine.objects[fid].function,
        Some(ref f) if f.native == NativeFn::OpaqueNative(21) && f.nargs == 2
            && f.name.as_deref() == Some("addEventListener")
    ));
    // the attribute stands as an accessor-backed property
    let akey = JsId::StrId("nodeName".to_string());
    let aentry = engine.get_own_property(proto, &akey).expect("attribute installed");
    assert_eq!(aentry.getter, Some(NativeFn::OpaqueNative(31)));
    assert_eq!(aentry.setter, None);
    // the constant stands with its converted value
    let ckey = JsId::StrId("ELEMENT_NODE".to_string());
    let centry = engine.get_own_property(proto, &ckey).expect("constant installed");
    assert!(matches!(centry.value, EngineValue::UintValue(1)));
}

#[test]
fn assignment_creates_missing_properties_as_plain_enumerable() {
    let mut engine = Engine::new();
    let obj = engine.new_object(0, None, None);
    let key = JsId::StrId("fresh".to_string());
    assert!(engine.set_property(obj, JsId::StrId("fresh".to_string()), EngineValue::IntValue(3)));
    let entry = engine.get_own_property(obj, &key).expect("created by assignment");
    assert!(matches!(entry.value, EngineValue::IntValue(3)));
    assert_eq!(entry.flags, JSPROP_ENUMERATE);
    // and overwriting a writable property succeeds
    assert!(engine.set_property(obj, JsId::StrId("fresh".to_string()), EngineValue::IntValue(4)));
    let entry = engine.get_own_property(obj, &key).expect("still there");
    assert!(matches!(entry.value, EngineValue::IntValue(4)));
}
