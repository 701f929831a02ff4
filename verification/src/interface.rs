//! The interface-object builder: static spec tables, identifier interning,
//! class descriptor construction, and the installation of methods, attributes
//! and constants onto prototype and constructor objects.

use vstd::prelude::*;

use crate::engine::{
    apply_define, has_own_prop, lemma_apply_define, own_prop, own_prop_idx, same_but_props,
    ClassEntry, ClassId, DOMClass, DOMJSClass, Engine, JSClass, PropEntry,
    JSCLASS_IS_INLINE_DOMJSCLASS, JSPROP_ENUMERATE, JSPROP_PERMANENT, JSPROP_READONLY,
    PROTOTYPE_ID_COUNT,
};
use crate::values::{
    id_eq, jsval_of_constant, jsval_to_str, lemma_id_eq_refl, str_of_jsval, ConstantSpec,
    EngineValue, JsId, NativeFn, ObjId,
};
use vstd::pervasive::unreached;
use vstd::string::StringExecFns;

verus! {

/// Reserved slot of a constructor's `toString` function that captures the
/// expected class of the receiver.
pub const TOSTRING_CLASS_RESERVED_SLOT: u32 = 0;

/// Reserved slot of a constructor's `toString` function that captures the
/// interface's display name.
pub const TOSTRING_NAME_RESERVED_SLOT: u32 = 1;

/// The attributes a manifest constant is installed with: enumerable,
/// read-only and permanent.
pub const CONSTANT_PROP_FLAGS: u32 = JSPROP_ENUMERATE | JSPROP_READONLY | JSPROP_PERMANENT;

/// One entry of an interface's method table.  A `None` name is the
/// end-of-table sentinel.
pub struct JSFunctionSpec {
    pub name: Option<String>,
    pub call: NativeFn,
    pub nargs: u16,
    pub flags: u32,
}

/// A native accessor hook together with its engine-level type metadata, as
/// attribute specs carry them.  The metadata is opaque to this layer.
pub struct NativeAccessor {
    pub op: Option<NativeFn>,
    pub info: u64,
}

/// One entry of an interface's attribute table.  A `None` name is the
/// end-of-table sentinel.
pub struct JSPropertySpec {
    pub name: Option<String>,
    pub flags: u32,
    pub getter: NativeAccessor,
    pub setter: NativeAccessor,
}

/// The property hook table an interface's proxy handler consults; the hooks
/// are host functions outside this layer, carried opaquely.
pub struct NativePropertyHooks {
    pub resolve_own_property: Option<u64>,
    pub resolve_property: Option<u64>,
    pub enumerate_own_properties: Option<u64>,
    pub enumerate_properties: Option<u64>,
    pub proto_hooks: Option<Box<NativePropertyHooks>>,
}

/// A native constructor function together with its property hooks.
pub struct JSNativeHolder {
    pub native: Option<NativeFn>,
    pub propertyHooks: Option<Box<NativePropertyHooks>>,
}

/// The full set of static tables the interface description generator emits
/// for one interface, each beside its lazily interned identifier array.
pub struct NativeProperties {
    pub staticMethods: Option<Vec<JSFunctionSpec>>,
    pub staticMethodIds: Option<Vec<JsId>>,
    pub staticAttributes: Option<Vec<JSPropertySpec>>,
    pub staticAttributeIds: Option<Vec<JsId>>,
    pub methods: Option<Vec<JSFunctionSpec>>,
    pub methodIds: Option<Vec<JsId>>,
    pub attributes: Option<Vec<JSPropertySpec>>,
    pub attributeIds: Option<Vec<JsId>>,
    pub unforgeableAttributes: Option<Vec<JSPropertySpec>>,
    pub unforgeableAttributeIds: Option<Vec<JsId>>,
    pub constants: Option<Vec<ConstantSpec>>,
    pub constantIds: Option<Vec<JsId>>,
}

/// Per-runtime caches derived lazily from the static tables — proxy handlers
/// and interned identifier arrays — keyed by interface identifier.
pub struct GlobalStaticData {
    pub proxy_handlers: Vec<(u32, u64)>,
    pub attribute_ids: Vec<(u32, Vec<JsId>)>,
    pub method_ids: Vec<(u32, Vec<JsId>)>,
    pub constant_ids: Vec<(u32, Vec<JsId>)>,
}

/// Fresh, empty per-runtime caches.
pub fn GlobalStaticData() -> (r: GlobalStaticData)
    ensures
        r.proxy_handlers@.len() == 0,
        r.attribute_ids@.len() == 0,
        r.method_ids@.len() == 0,
        r.constant_ids@.len() == 0,
{
    GlobalStaticData {
        proxy_handlers: Vec::new(),
        attribute_ids: Vec::new(),
        method_ids: Vec::new(),
        constant_ids: Vec::new(),
    }
}

/// Number of leading entries of a constant table before the end-of-table
/// sentinel.
pub open spec fn active_const_specs(s: Seq<ConstantSpec>) -> int
    decreases s.len(),
{
    if s.len() == 0 {
        0
    } else if s[0].name is None {
        0
    } else {
        1 + active_const_specs(s.drop_first())
    }
}

/// Number of leading entries of a method table before the end-of-table
/// sentinel.
pub open spec fn active_fn_specs(s: Seq<JSFunctionSpec>) -> int
    decreases s.len(),
{
    if s.len() == 0 {
        0
    } else if s[0].name is None {
        0
    } else {
        1 + active_fn_specs(s.drop_first())
    }
}

/// Number of leading entries of an attribute table before the end-of-table
/// sentinel.
pub open spec fn active_prop_specs(s: Seq<JSPropertySpec>) -> int
    decreases s.len(),
{
    if s.len() == 0 {
        0
    } else if s[0].name is None {
        0
    } else {
        1 + active_prop_specs(s.drop_first())
    }
}

/// The active prefix ends exactly at the first sentinel.
pub proof fn lemma_active_const_specs(s: Seq<ConstantSpec>, i: int)
    requires
        0 <= i <= s.len(),
        forall|j: int| 0 <= j < i ==> (#[trigger] s[j]).name is Some,
        i == s.len() || s[i].name is None,
    ensures
        active_const_specs(s) == i,
    decreases i,
{
    if s.len() == 0 {
    } else if i == 0 {
    } else {
        assert forall|j: int| 0 <= j < i - 1 implies (#[trigger] s.drop_first()[j]).name is Some by {
            assert(s.drop_first()[j] == s[j + 1]);
        }
        if i < s.len() {
            assert(s.drop_first()[i - 1] == s[i]);
        }
        lemma_active_const_specs(s.drop_first(), i - 1);
    }
}

/// The active prefix ends exactly at the first sentinel.
pub proof fn lemma_active_fn_specs(s: Seq<JSFunctionSpec>, i: int)
    requires
        0 <= i <= s.len(),
        forall|j: int| 0 <= j < i ==> (#[trigger] s[j]).name is Some,
        i == s.len() || s[i].name is None,
    ensures
        active_fn_specs(s) == i,
    decreases i,
{
    if s.len() == 0 {
    } else if i == 0 {
    } else {
        assert forall|j: int| 0 <= j < i - 1 implies (#[trigger] s.drop_first()[j]).name is Some by {
            assert(s.drop_first()[j] == s[j + 1]);
        }
        if i < s.len() {
            assert(s.drop_first()[i - 1] == s[i]);
        }
        lemma_active_fn_specs(s.drop_first(), i - 1);
    }
}

/// The active prefix ends exactly at the first sentinel.
pub proof fn lemma_active_prop_specs(s: Seq<JSPropertySpec>, i: int)
    requires
        0 <= i <= s.len(),
        forall|j: int| 0 <= j < i ==> (#[trigger] s[j]).name is Some,
        i == s.len() || s[i].name is None,
    ensures
        active_prop_specs(s) == i,
    decreases i,
{
    if s.len() == 0 {
    } else if i == 0 {
    } else {
        assert forall|j: int| 0 <= j < i - 1 implies (#[trigger] s.drop_first()[j]).name is Some by {
            assert(s.drop_first()[j] == s[j + 1]);
        }
        if i < s.len() {
            assert(s.drop_first()[i - 1] == s[i]);
        }
        lemma_active_prop_specs(s.drop_first(), i - 1);
    }
}

/// The active prefix lies within the table, each of its entries carries a
/// name, and the entry at its end, where one exists, is the sentinel.
pub proof fn lemma_active_prop_specs_bounds(s: Seq<JSPropertySpec>)
    ensures
        0 <= active_prop_specs(s) <= s.len(),
        active_prop_specs(s) < s.len() ==> s[active_prop_specs(s)].name is None,
    decreases s.len(),
{
    if s.len() > 0 && s[0].name is Some {
        lemma_active_prop_specs_bounds(s.drop_first());
        if active_prop_specs(s) < s.len() {
            assert(s.drop_first()[active_prop_specs(s) - 1] == s[active_prop_specs(s)]);
        }
    }
}

/// Interns a name as a stable engine identifier.  The modelled engine interns
/// by value, so interning cannot fail.
pub fn InternJSString(name: &String) -> (r: Option<JsId>)
    ensures
        match r {
            Some(id) => id == JsId::StrId(*name),
            None => false,
        },
{
    Some(JsId::StrId(name.clone()))
}

/// Interns the names of an attribute table into the id array, one slot per
/// entry, stopping without error at the null-name sentinel; the array need
/// only hold the entries before the sentinel, and its slots past them keep
/// their contents.
pub fn InitIds(specs: &Vec<JSPropertySpec>, ids: &mut Vec<JsId>) -> (r: bool)
    requires
        active_prop_specs(specs@) <= old(ids)@.len(),
    ensures
        r == true,
        final(ids)@.len() == old(ids)@.len(),
        forall|j: int|
            0 <= j < active_prop_specs(specs@) ==> final(ids)@[j] == JsId::StrId(
                (#[trigger] specs@[j]).name->Some_0,
            ),
        forall|j: int|
            active_prop_specs(specs@) <= j < old(ids)@.len() ==> final(ids)@[j] == old(ids)@[j],
{
    let n = specs.len();
    let mut i: usize = 0;
    while i < n
        invariant
            i <= n,
            n == specs@.len(),
            active_prop_specs(specs@) <= ids@.len(),
            ids@.len() == old(ids)@.len(),
            forall|j: int| 0 <= j < i ==> (#[trigger] specs@[j]).name is Some,
            forall|j: int|
                0 <= j < i ==> ids@[j] == JsId::StrId((#[trigger] specs@[j]).name->Some_0),
            forall|j: int| i <= j < ids@.len() ==> ids@[j] == old(ids)@[j],
        decreases n - i,
    {
        match &specs[i].name {
            None => {
                proof {
                    lemma_active_prop_specs(specs@, i as int);
                }
                return true;
            },
            Some(name) => {
                proof {
                    // the walk is still inside the active prefix, so the id
                    // table has a slot for this entry
                    lemma_active_prop_specs_bounds(specs@);
                    if active_prop_specs(specs@) <= i as int {
                        assert(specs@[active_prop_specs(specs@)].name is Some);
                    }
                }
                match InternJSString(name) {
                    Some(id) => {
                        ids[i] = id;
                    },
                    None => {
                        return false;
                    },
                }
            },
        }
        i = i + 1;
    }
    proof {
        lemma_active_prop_specs(specs@, n as int);
    }
    true
}

/// The class descriptor for an interface prototype object: a plain engine
/// class carrying only the `instanceof` hook.
pub fn prototype_jsclass(name: String) -> (r: ClassEntry)
    ensures
        r matches ClassEntry::Plain(c) && c.name@ == name@ && c.flags == 0 && c.finalize is None
            && c.trace is None && c.has_instance,
        r.wf(),
{
    let entry = ClassEntry::Plain(
        JSClass { name, flags: 0, finalize: None, trace: None, has_instance: true },
    );
    proof {
        assert(0u32 & 0x10u32 == 0u32) by (bit_vector);
    }
    entry
}

/// The class descriptor for interface instances: marked as carrying native
/// inline storage, with the interface metadata and the host's finalize and
/// trace hooks attached.
pub fn instance_jsclass(
    name: String,
    finalize: Option<u64>,
    trace: Option<u64>,
    dom_class: DOMClass,
) -> (r: ClassEntry)
    ensures
        r matches ClassEntry::Dom(d) && d.base.name@ == name@ && d.base.flags
            == JSCLASS_IS_INLINE_DOMJSCLASS && d.base.finalize == finalize && d.base.trace == trace
            && d.base.has_instance && d.dom_class == dom_class,
        r.wf(),
{
    let entry = ClassEntry::Dom(
        DOMJSClass {
            base: JSClass {
                name,
                flags: JSCLASS_IS_INLINE_DOMJSCLASS,
                finalize,
                trace,
                has_instance: true,
            },
            dom_class,
        },
    );
    proof {
        assert(0x10u32 & 0x10u32 != 0u32) by (bit_vector);
    }
    entry
}

/// Registers a prototype class under the given name, creates an empty
/// prototype object — parented to the named stashed prototype, or bare —
/// publishes it as an enumerable property of the global, and stashes it in
/// the global-prototype registry.
pub fn define_empty_prototype(engine: &mut Engine, name: String, proto: Option<String>) -> (r:
    ObjId)
    requires
        old(engine).wf(),
        match proto {
            Some(n) => crate::engine::proto_reg_idx(old(engine).global_protos@, n@) >= 0,
            None => true,
        },
    ensures
        final(engine).wf(),
        r == old(engine).objects@.len(),
        final(engine).valid_obj(r),
        final(engine).objects@.len() == old(engine).objects@.len() + 1,
        final(engine).classes@.len() == old(engine).classes@.len() + 1,
        final(engine).obj(r).class == old(engine).classes@.len(),
        final(engine).classes@[old(engine).classes@.len() as int] matches ClassEntry::Plain(c)
            && c.name@ == name@,
        match proto {
            Some(n) => final(engine).obj(r).proto == Some(
                old(engine).global_protos@[crate::engine::proto_reg_idx(
                    old(engine).global_protos@,
                    n@,
                )].1,
            ),
            None => final(engine).obj(r).proto is None,
        },
        final(engine).obj(r).parent == Some(old(engine).global),
        final(engine).props_of(r).len() == 0,
        final(engine).props_of(old(engine).global) == apply_define(
            old(engine).props_of(old(engine).global),
            PropEntry {
                key: JsId::StrId(name),
                value: EngineValue::ObjectValue(r),
                flags: JSPROP_ENUMERATE,
                getter: None,
                setter: None,
            },
        ),
        final(engine).global_protos@ == old(engine).global_protos@.push((name, r)),
        final(engine).global == old(engine).global,
{
    let cid = engine.register_class(prototype_jsclass(name.clone()));
    let parent_proto: Option<ObjId> = match &proto {
        Some(pname) => match engine.lookup_global_proto(pname) {
            Some(p) => Some(p),
            None => unreached(),
        },
        None => None,
    };
    let obj = engine.new_object(cid, parent_proto, Some(engine.global));
    let g = engine.global;
    engine.define_property(
        g,
        JsId::StrId(name.clone()),
        EngineValue::ObjectValue(obj),
        None,
        None,
        JSPROP_ENUMERATE,
    );
    engine.stash_global_proto(name, obj);
    obj
}

/// The property entry a constant-table entry installs.
pub open spec fn const_entry(c: ConstantSpec) -> PropEntry {
    PropEntry {
        key: JsId::StrId(c.name->Some_0),
        value: jsval_of_constant(c.value),
        flags: CONSTANT_PROP_FLAGS,
        getter: None,
        setter: None,
    }
}

/// Whether entry `j` is the last of the first `n` table entries that carries
/// its name.
pub open spec fn const_name_last_upto(s: Seq<ConstantSpec>, j: int, n: int) -> bool {
    forall|l: int| j < l < n ==> (#[trigger] s[l]).name->Some_0@ != s[j].name->Some_0@
}

/// Whether a key matches none of the first `n` constant names.
pub open spec fn key_outside_consts_upto(k2: JsId, s: Seq<ConstantSpec>, n: int) -> bool {
    forall|j: int| 0 <= j < n ==> !id_eq(k2, JsId::StrId((#[trigger] s[j]).name->Some_0))
}

/// Every active constant stands installed: the last entry under each name
/// decides the property.
pub open spec fn defined_consts_hold(props: Seq<PropEntry>, s: Seq<ConstantSpec>) -> bool {
    forall|j: int|
        0 <= j < active_const_specs(s) && const_name_last_upto(s, j, active_const_specs(s))
            ==> has_own_prop(props, JsId::StrId((#[trigger] s[j]).name->Some_0)) && own_prop(
            props,
            JsId::StrId(s[j].name->Some_0),
        ) == const_entry(s[j])
}

/// Installs a constant table onto an object: each tagged value before the
/// null-name sentinel becomes a read-only, permanent, enumerable property
/// holding the matching engine value, on exactly the key the entry names.
/// Lookups under every other key are untouched.
pub fn DefineConstants(engine: &mut Engine, obj: ObjId, constants: &Vec<ConstantSpec>) -> (r: bool)
    requires
        old(engine).wf(),
        old(engine).valid_obj(obj),
    ensures
        r == true,
        final(engine).wf(),
        final(engine).frame_eq(*old(engine)),
        final(engine).objects@.len() == old(engine).objects@.len(),
        forall|k: int|
            0 <= k < old(engine).objects@.len() && k != obj ==> final(engine).objects@[k] == old(
                engine,
            ).objects@[k],
        same_but_props(final(engine).obj(obj), old(engine).obj(obj)),
        defined_consts_hold(final(engine).props_of(obj), constants@),
        forall|k2: JsId|
            #[trigger] key_outside_consts_upto(k2, constants@, active_const_specs(constants@))
                ==> own_prop_idx(final(engine).props_of(obj), k2) == own_prop_idx(
                old(engine).props_of(obj),
                k2,
            ) && (has_own_prop(old(engine).props_of(obj), k2) ==> own_prop(
                final(engine).props_of(obj),
                k2,
            ) == own_prop(old(engine).props_of(obj), k2)),
{
    let n = constants.len();
    let mut i: usize = 0;
    while i < n
        invariant
            i <= n,
            n == constants@.len(),
            engine.wf(),
            engine.valid_obj(obj),
            engine.frame_eq(*old(engine)),
            engine.objects@.len() == old(engine).objects@.len(),
            forall|k: int|
                0 <= k < old(engine).objects@.len() && k != obj ==> engine.objects@[k] == old(
                    engine,
                ).objects@[k],
            same_but_props(engine.obj(obj), old(engine).obj(obj)),
            forall|j: int| 0 <= j < i ==> (#[trigger] constants@[j]).name is Some,
            forall|j: int|
                0 <= j < i && const_name_last_upto(constants@, j, i as int) ==> has_own_prop(
                    engine.props_of(obj),
                    JsId::StrId((#[trigger] constants@[j]).name->Some_0),
                ) && own_prop(
                    engine.props_of(obj),
                    JsId::StrId(constants@[j].name->Some_0),
                ) == const_entry(constants@[j]),
            forall|k2: JsId|
                #[trigger] key_outside_consts_upto(k2, constants@, i as int) ==> own_prop_idx(
                    engine.props_of(obj),
                    k2,
                ) == own_prop_idx(old(engine).props_of(obj), k2) && (has_own_prop(
                    old(engine).props_of(obj),
                    k2,
                ) ==> own_prop(engine.props_of(obj), k2) == own_prop(
                    old(engine).props_of(obj),
                    k2,
                )),
        decreases n - i,
    {
        let cspec = &constants[i];
        match &cspec.name {
            None => {
                proof {
                    lemma_active_const_specs(constants@, i as int);
                }
                return true;
            },
            Some(name) => {
                let v = crate::values::constant_to_jsval(&cspec.value);
                let ghost pre = engine.props_of(obj);
                let ghost entry = const_entry(constants@[i as int]);
                engine.define_property(
                    obj,
                    JsId::StrId(name.clone()),
                    v,
                    None,
                    None,
                    CONSTANT_PROP_FLAGS,
                );
                proof {
                    assert(engine.props_of(obj) == apply_define(pre, entry));
                    assert forall|j: int|
                        0 <= j < i + 1 && const_name_last_upto(
                            constants@,
                            j,
                            i + 1 as int,
                        ) implies has_own_prop(
                        engine.props_of(obj),
                        JsId::StrId((#[trigger] constants@[j]).name->Some_0),
                    ) && own_prop(
                        engine.props_of(obj),
                        JsId::StrId(constants@[j].name->Some_0),
                    ) == const_entry(constants@[j]) by {
                        let kj = JsId::StrId(constants@[j].name->Some_0);
                        lemma_apply_define(pre, entry, kj);
                        if j == i {
                            lemma_id_eq_refl(kj);
                        } else {
                            assert(constants@[i as int].name->Some_0@
                                != constants@[j].name->Some_0@);
                        }
                    }
                    assert forall|k2: JsId|
                        #[trigger] key_outside_consts_upto(
                            k2,
                            constants@,
                            i + 1 as int,
                        ) implies own_prop_idx(engine.props_of(obj), k2) == own_prop_idx(
                        old(engine).props_of(obj),
                        k2,
                    ) && (has_own_prop(old(engine).props_of(obj), k2) ==> own_prop(
                        engine.props_of(obj),
                        k2,
                    ) == own_prop(old(engine).props_of(obj), k2)) by {
                        assert(!id_eq(k2, JsId::StrId(constants@[i as int].name->Some_0)));
                        assert(key_outside_consts_upto(k2, constants@, i as int));
                        lemma_apply_define(pre, entry, k2);
                    }
                }
            },
        }
        i = i + 1;
    }
    proof {
        lemma_active_const_specs(constants@, n as int);
    }
    true
}

/// A constant property, as the constant definer installs it, is both
/// write-blocked and delete-blocked: the engine's assignment swallows writes
/// to it and reports failure, and its deletion refuses — the round-tripped
/// value cannot be disturbed.
pub proof fn lemma_constant_locked(props: Seq<PropEntry>, k: JsId)
    requires
        has_own_prop(props, k),
        own_prop(props, k).flags == CONSTANT_PROP_FLAGS,
    ensures
        own_prop(props, k).flags & JSPROP_READONLY != 0,
        own_prop(props, k).flags & JSPROP_PERMANENT != 0,
{
    assert((1u32 | 2u32 | 4u32) & 2u32 != 0u32) by (bit_vector);
    assert((1u32 | 2u32 | 4u32) & 4u32 != 0u32) by (bit_vector);
}

/// Whether entry `j` is the last of the first `n` method entries carrying its
/// name.
pub open spec fn fn_name_last_upto(s: Seq<JSFunctionSpec>, j: int, n: int) -> bool {
    forall|l: int| j < l < n ==> (#[trigger] s[l]).name->Some_0@ != s[j].name->Some_0@
}

/// Whether a key matches none of the first `n` method names.
pub open spec fn key_outside_fns_upto(k2: JsId, s: Seq<JSFunctionSpec>, n: int) -> bool {
    forall|j: int| 0 <= j < n ==> !id_eq(k2, JsId::StrId((#[trigger] s[j]).name->Some_0))
}

/// A method stands installed on the object: an enumerable data property
/// holding a function object that carries the spec's native and arity.
pub open spec fn method_installed(e: Engine, obj: ObjId, m: JSFunctionSpec) -> bool {
    let k = JsId::StrId(m.name->Some_0);
    &&& has_own_prop(e.props_of(obj), k)
    &&& ({
        let p = own_prop(e.props_of(obj), k);
        &&& p.flags == JSPROP_ENUMERATE
        &&& p.getter is None
        &&& p.setter is None
        &&& match p.value {
            EngineValue::ObjectValue(f) => e.valid_obj(f) && (e.obj(f).function matches Some(fd)
                && crate::engine::function_data_is(
                fd,
                m.call,
                m.nargs as u32,
                m.flags,
                Some(m.name->Some_0@),
                None,
            )),
            _ => false,
        }
    })
}

/// Every active method stands installed: the last entry under each name
/// decides the property.
pub open spec fn defined_methods_hold(e: Engine, obj: ObjId, s: Seq<JSFunctionSpec>) -> bool {
    forall|j: int|
        0 <= j < active_fn_specs(s) && fn_name_last_upto(s, j, active_fn_specs(s))
            ==> method_installed(e, obj, (#[trigger] s[j]))
}

/// Installs a method table onto an object: each entry before the null-name
/// sentinel becomes an enumerable property holding a fresh function object
/// with the entry's native and arity.  Lookups under every other key are
/// untouched.
pub fn DefineMethods(engine: &mut Engine, obj: ObjId, methods: &Vec<JSFunctionSpec>) -> (r: bool)
    requires
        old(engine).wf(),
        old(engine).valid_obj(obj),
    ensures
        r == true,
        final(engine).wf(),
        final(engine).frame_eq(*old(engine)),
        old(engine).objects@.len() <= final(engine).objects@.len(),
        forall|k: int|
            0 <= k < old(engine).objects@.len() && k != obj ==> final(engine).objects@[k] == old(
                engine,
            ).objects@[k],
        same_but_props(final(engine).obj(obj), old(engine).obj(obj)),
        defined_methods_hold(*final(engine), obj, methods@),
        forall|k2: JsId|
            #[trigger] key_outside_fns_upto(k2, methods@, active_fn_specs(methods@))
                ==> own_prop_idx(final(engine).props_of(obj), k2) == own_prop_idx(
                old(engine).props_of(obj),
                k2,
            ) && (has_own_prop(old(engine).props_of(obj), k2) ==> own_prop(
                final(engine).props_of(obj),
                k2,
            ) == own_prop(old(engine).props_of(obj), k2)),
{
    let n = methods.len();
    let mut i: usize = 0;
    while i < n
        invariant
            i <= n,
            n == methods@.len(),
            engine.wf(),
            engine.valid_obj(obj),
            obj < old(engine).objects@.len(),
            engine.frame_eq(*old(engine)),
            old(engine).objects@.len() <= engine.objects@.len(),
            forall|k: int|
                0 <= k < old(engine).objects@.len() && k != obj ==> engine.objects@[k] == old(
                    engine,
                ).objects@[k],
            same_but_props(engine.obj(obj), old(engine).obj(obj)),
            forall|j: int| 0 <= j < i ==> (#[trigger] methods@[j]).name is Some,
            forall|j: int|
                0 <= j < i && fn_name_last_upto(methods@, j, i as int) ==> method_installed(
                    *engine,
                    obj,
                    (#[trigger] methods@[j]),
                ),
            forall|k2: JsId|
                #[trigger] key_outside_fns_upto(k2, methods@, i as int) ==> own_prop_idx(
                    engine.props_of(obj),
                    k2,
                ) == own_prop_idx(old(engine).props_of(obj), k2) && (has_own_prop(
                    old(engine).props_of(obj),
                    k2,
                ) ==> own_prop(engine.props_of(obj), k2) == own_prop(
                    old(engine).props_of(obj),
                    k2,
                )),
        decreases n - i,
    {
        let mspec = &methods[i];
        match &mspec.name {
            None => {
                proof {
                    lemma_active_fn_specs(methods@, i as int);
                }
                return true;
            },
            Some(name) => {
                let fid = engine.new_function(
                    mspec.call,
                    mspec.nargs as u32,
                    mspec.flags,
                    Some(name.clone()),
                    None,
                );
                let ghost mid = *engine;
                let ghost pre = engine.props_of(obj);
                let ghost entry = PropEntry {
                    key: JsId::StrId(methods@[i as int].name->Some_0),
                    value: EngineValue::ObjectValue(fid),
                    flags: JSPROP_ENUMERATE,
                    getter: None,
                    setter: None,
                };
                engine.define_property(
                    obj,
                    JsId::StrId(name.clone()),
                    EngineValue::ObjectValue(fid),
                    None,
                    None,
                    JSPROP_ENUMERATE,
                );
                proof {
                    assert(engine.props_of(obj) == apply_define(pre, entry));
                    assert forall|j: int|
                        0 <= j < i + 1 && fn_name_last_upto(
                            methods@,
                            j,
                            i + 1 as int,
                        ) implies method_installed(*engine, obj, (#[trigger] methods@[j])) by {
                        let kj = JsId::StrId(methods@[j].name->Some_0);
                        lemma_apply_define(pre, entry, kj);
                        if j == i {
                            lemma_id_eq_refl(kj);
                        } else {
                            assert(methods@[i as int].name->Some_0@ != methods@[j].name->Some_0@);
                            assert(method_installed(mid, obj, methods@[j]));
                        }
                    }
                    assert forall|k2: JsId|
                        #[trigger] key_outside_fns_upto(
                            k2,
                            methods@,
                            i + 1 as int,
                        ) implies own_prop_idx(engine.props_of(obj), k2) == own_prop_idx(
                        old(engine).props_of(obj),
                        k2,
                    ) && (has_own_prop(old(engine).props_of(obj), k2) ==> own_prop(
                        engine.props_of(obj),
                        k2,
                    ) == own_prop(old(engine).props_of(obj), k2)) by {
                        assert(!id_eq(k2, JsId::StrId(methods@[i as int].name->Some_0)));
                        assert(key_outside_fns_upto(k2, methods@, i as int));
                        lemma_apply_define(pre, entry, k2);
                    }
                }
            },
        }
        i = i + 1;
    }
    proof {
        lemma_active_fn_specs(methods@, n as int);
    }
    true
}

/// Whether entry `j` is the last of the first `n` attribute entries carrying
/// its name.
pub open spec fn prop_name_last_upto(s: Seq<JSPropertySpec>, j: int, n: int) -> bool {
    forall|l: int| j < l < n ==> (#[trigger] s[l]).name->Some_0@ != s[j].name->Some_0@
}

/// Whether a key matches none of the first `n` attribute names.
pub open spec fn key_outside_props_upto(k2: JsId, s: Seq<JSPropertySpec>, n: int) -> bool {
    forall|j: int| 0 <= j < n ==> !id_eq(k2, JsId::StrId((#[trigger] s[j]).name->Some_0))
}

/// The property entry an attribute spec installs: an accessor-backed
/// property carrying the spec's hooks and flags.
pub open spec fn attr_entry(a: JSPropertySpec) -> PropEntry {
    PropEntry {
        key: JsId::StrId(a.name->Some_0),
        value: EngineValue::VoidValue,
        flags: a.flags,
        getter: a.getter.op,
        setter: a.setter.op,
    }
}

/// Every active attribute stands installed: the last entry under each name
/// decides the property.
pub open spec fn defined_attrs_hold(props: Seq<PropEntry>, s: Seq<JSPropertySpec>) -> bool {
    forall|j: int|
        0 <= j < active_prop_specs(s) && prop_name_last_upto(s, j, active_prop_specs(s))
            ==> has_own_prop(props, JsId::StrId((#[trigger] s[j]).name->Some_0)) && own_prop(
            props,
            JsId::StrId(s[j].name->Some_0),
        ) == attr_entry(s[j])
}

/// Installs an attribute table onto an object: each entry before the
/// null-name sentinel becomes an accessor-backed property carrying the
/// entry's native hooks and flags.  Lookups under every other key are
/// untouched.
pub fn DefineProperties(engine: &mut Engine, obj: ObjId, properties: &Vec<JSPropertySpec>) -> (r:
    bool)
    requires
        old(engine).wf(),
        old(engine).valid_obj(obj),
    ensures
        r == true,
        final(engine).wf(),
        final(engine).frame_eq(*old(engine)),
        final(engine).objects@.len() == old(engine).objects@.len(),
        forall|k: int|
            0 <= k < old(engine).objects@.len() && k != obj ==> final(engine).objects@[k] == old(
                engine,
            ).objects@[k],
        same_but_props(final(engine).obj(obj), old(engine).obj(obj)),
        defined_attrs_hold(final(engine).props_of(obj), properties@),
        forall|k2: JsId|
            #[trigger] key_outside_props_upto(k2, properties@, active_prop_specs(properties@))
                ==> own_prop_idx(final(engine).props_of(obj), k2) == own_prop_idx(
                old(engine).props_of(obj),
                k2,
            ) && (has_own_prop(old(engine).props_of(obj), k2) ==> own_prop(
                final(engine).props_of(obj),
                k2,
            ) == own_prop(old(engine).props_of(obj), k2)),
{
    let n = properties.len();
    let mut i: usize = 0;
    while i < n
        invariant
            i <= n,
            n == properties@.len(),
            engine.wf(),
            engine.valid_obj(obj),
            engine.frame_eq(*old(engine)),
            engine.objects@.len() == old(engine).objects@.len(),
            forall|k: int|
                0 <= k < old(engine).objects@.len() && k != obj ==> engine.objects@[k] == old(
                    engine,
                ).objects@[k],
            same_but_props(engine.obj(obj), old(engine).obj(obj)),
            forall|j: int| 0 <= j < i ==> (#[trigger] properties@[j]).name is Some,
            forall|j: int|
                0 <= j < i && prop_name_last_upto(properties@, j, i as int) ==> has_own_prop(
                    engine.props_of(obj),
                    JsId::StrId((#[trigger] properties@[j]).name->Some_0),
                ) && own_prop(
                    engine.props_of(obj),
                    JsId::StrId(properties@[j].name->Some_0),
                ) == attr_entry(properties@[j]),
            forall|k2: JsId|
                #[trigger] key_outside_props_upto(k2, properties@, i as int) ==> own_prop_idx(
                    engine.props_of(obj),
                    k2,
                ) == own_prop_idx(old(engine).props_of(obj), k2) && (has_own_prop(
                    old(engine).props_of(obj),
                    k2,
                ) ==> own_prop(engine.props_of(obj), k2) == own_prop(
                    old(engine).props_of(obj),
                    k2,
                )),
        decreases n - i,
    {
        let pspec = &properties[i];
        match &pspec.name {
            None => {
                proof {
                    lemma_active_prop_specs(properties@, i as int);
                }
                return true;
            },
            Some(name) => {
                let getter = pspec.getter.op;
                let setter = pspec.setter.op;
                let flags = pspec.flags;
                let ghost pre = engine.props_of(obj);
                let ghost entry = attr_entry(properties@[i as int]);
                engine.define_property(
                    obj,
                    JsId::StrId(name.clone()),
                    EngineValue::VoidValue,
                    getter,
                    setter,
                    flags,
                );
                proof {
                    assert(engine.props_of(obj) == apply_define(pre, entry));
                    assert forall|j: int|
                        0 <= j < i + 1 && prop_name_last_upto(
                            properties@,
                            j,
                            i + 1 as int,
                        ) implies has_own_prop(
                        engine.props_of(obj),
                        JsId::StrId((#[trigger] properties@[j]).name->Some_0),
                    ) && own_prop(
                        engine.props_of(obj),
                        JsId::StrId(properties@[j].name->Some_0),
                    ) == attr_entry(properties@[j]) by {
                        let kj = JsId::StrId(properties@[j].name->Some_0);
                        lemma_apply_define(pre, entry, kj);
                        if j == i {
                            lemma_id_eq_refl(kj);
                        } else {
                            assert(properties@[i as int].name->Some_0@
                                != properties@[j].name->Some_0@);
                        }
                    }
                    assert forall|k2: JsId|
                        #[trigger] key_outside_props_upto(
                            k2,
                            properties@,
                            i + 1 as int,
                        ) implies own_prop_idx(engine.props_of(obj), k2) == own_prop_idx(
                        old(engine).props_of(obj),
                        k2,
                    ) && (has_own_prop(old(engine).props_of(obj), k2) ==> own_prop(
                        engine.props_of(obj),
                        k2,
                    ) == own_prop(old(engine).props_of(obj), k2)) by {
                        assert(!id_eq(k2, JsId::StrId(properties@[i as int].name->Some_0)));
                        assert(key_outside_props_upto(k2, properties@, i as int));
                        lemma_apply_define(pre, entry, k2);
                    }
                }
            },
        }
        i = i + 1;
    }
    proof {
        lemma_active_prop_specs(properties@, n as int);
    }
    true
}

/// The constructor stub for interfaces that exist only as named constant
/// holders: invoking it always signals failure.
pub fn ThrowingConstructor(_engine: &Engine, _this: Option<ObjId>) -> (r: Result<EngineValue, ()>)
    ensures
        r is Err,
{
    Err(())
}

/// What the constructor's `toString` yields: with a receiver of exactly the
/// class captured in the function's reserved slot, the literal signature
/// string built around the captured interface name; with no receiver, a
/// receiver of another class, or an unreadable captured name, a failure.
pub open spec fn interface_to_string_chars(e: Engine, callee: ObjId, this: Option<ObjId>) -> Result<
    Seq<char>,
    (),
> {
    match this {
        None => Err(()),
        Some(o) => match e.obj(callee).slots@[TOSTRING_CLASS_RESERVED_SLOT as int] {
            EngineValue::PrivateValue(cid) => if e.obj(o).class == cid {
                match str_of_jsval(e.obj(callee).slots@[TOSTRING_NAME_RESERVED_SLOT as int]) {
                    Some(nm) => Ok("function "@ + nm + "() {\n    [native code]\n}"@),
                    None => Err(()),
                }
            } else {
                Err(())
            },
            _ => Err(()),
        },
    }
}

/// The `toString` override installed on constructor objects: checks the
/// receiver's class against the class captured in the callee's reserved slot
/// and yields the literal, human-readable signature string only on a match.
pub fn InterfaceObjectToString(engine: &Engine, callee: ObjId, this: Option<ObjId>) -> (r: Result<
    EngineValue,
    (),
>)
    requires
        engine.wf(),
        engine.valid_obj(callee),
        match this {
            Some(o) => engine.valid_obj(o),
            None => true,
        },
    ensures
        match (r, interface_to_string_chars(*engine, callee, this)) {
            (Ok(EngineValue::StringValue(s)), Ok(t)) => s@ == t,
            (Err(()), Err(())) => true,
            _ => false,
        },
{
    let obj = match this {
        Some(o) => o,
        None => {
            return Err(());
        },
    };
    let cid: usize = match engine.get_reserved_slot(callee, TOSTRING_CLASS_RESERVED_SLOT) {
        EngineValue::PrivateValue(c) => *c,
        _ => {
            return Err(());
        },
    };
    if engine.objects[obj].class != cid {
        return Err(());
    }
    let name = match jsval_to_str(engine.get_reserved_slot(callee, TOSTRING_NAME_RESERVED_SLOT)) {
        Ok(s) => s,
        Err(()) => {
            return Err(());
        },
    };
    let mut out = "function ".to_owned();
    out.append(name.as_str());
    out.append("() {\n    [native code]\n}");
    Ok(EngineValue::StringValue(out))
}

/// Whether a property key is the string key spelled by the given characters.
pub open spec fn key_is_str(k: JsId, s: Seq<char>) -> bool {
    match k {
        JsId::StrId(t) => t@ == s,
        _ => false,
    }
}

/// Whether a key matches no active attribute name (vacuously, with no table).
pub open spec fn prop_clear(k: JsId, properties: Option<&Vec<JSPropertySpec>>) -> bool {
    match properties {
        Some(ps) => key_outside_props_upto(k, ps@, active_prop_specs(ps@)),
        None => true,
    }
}

/// Whether a key matches no active constant name (vacuously, with no table).
pub open spec fn const_clear(k: JsId, constants: Option<&Vec<ConstantSpec>>) -> bool {
    match constants {
        Some(cs) => key_outside_consts_upto(k, cs@, active_const_specs(cs@)),
        None => true,
    }
}

/// A plain data property with the given value and attributes stands under the
/// key.
pub open spec fn data_prop_with(props: Seq<PropEntry>, k: JsId, v: EngineValue, flags: u32) -> bool {
    &&& has_own_prop(props, k)
    &&& own_prop(props, k).value == v
    &&& own_prop(props, k).flags == flags
    &&& own_prop(props, k).getter is None
    &&& own_prop(props, k).setter is None
}

/// The constructor's `toString` override stands installed under the key: a
/// function object carrying the override native, with the expected class and
/// the interface name captured in its reserved slots.
pub open spec fn tostring_prop(e: Engine, c: ObjId, k: JsId, cid: ClassId, name: Seq<char>) -> bool {
    &&& has_own_prop(e.props_of(c), k)
    &&& own_prop(e.props_of(c), k).flags == 0
    &&& own_prop(e.props_of(c), k).getter is None
    &&& own_prop(e.props_of(c), k).setter is None
    &&& match own_prop(e.props_of(c), k).value {
        EngineValue::ObjectValue(ts) => {
            &&& e.valid_obj(ts)
            &&& (e.obj(ts).function matches Some(fd) && crate::engine::function_data_is(
                fd,
                NativeFn::InterfaceToStringNative,
                0,
                0,
                Some("toString"@),
                None,
            ))
            &&& e.obj(ts).slots@[TOSTRING_CLASS_RESERVED_SLOT as int] == EngineValue::PrivateValue(
                cid,
            )
            &&& (e.obj(ts).slots@[TOSTRING_NAME_RESERVED_SLOT as int] matches
                EngineValue::StringValue(nm) && nm@ == name)
        },
        _ => false,
    }
}

/// Creates an interface prototype object parented as given and installs its
/// methods, attributes and constants, in that order; on a name clash the
/// later table wins.
pub fn CreateInterfacePrototypeObject(
    engine: &mut Engine,
    global: ObjId,
    parentProto: Option<ObjId>,
    protoClass: ClassId,
    methods: Option<&Vec<JSFunctionSpec>>,
    properties: Option<&Vec<JSPropertySpec>>,
    constants: Option<&Vec<ConstantSpec>>,
) -> (r: Option<ObjId>)
    requires
        old(engine).wf(),
        old(engine).valid_obj(global),
        protoClass < old(engine).classes@.len(),
        match parentProto {
            Some(p) => old(engine).valid_obj(p),
            None => true,
        },
    ensures
        final(engine).wf(),
        final(engine).frame_eq(*old(engine)),
        old(engine).objects@.len() < final(engine).objects@.len(),
        forall|k: int|
            0 <= k < old(engine).objects@.len() ==> final(engine).objects@[k] == old(
                engine,
            ).objects@[k],
        r matches Some(p) && ({
            &&& p == old(engine).objects@.len()
            &&& final(engine).valid_obj(p)
            &&& final(engine).obj(p).class == protoClass
            &&& final(engine).obj(p).proto == parentProto
            &&& final(engine).obj(p).parent == Some(global)
            &&& final(engine).obj(p).function is None
            &&& !final(engine).obj(p).is_proxy
            &&& final(engine).obj(p).proxy_extra is None
            &&& final(engine).obj(p).iface_table@.len() == 0
            &&& match constants {
                Some(cs) => defined_consts_hold(final(engine).props_of(p), cs@),
                None => true,
            }
            &&& match properties {
                Some(ps) => forall|j: int|
                    0 <= j < active_prop_specs(ps@) && prop_name_last_upto(
                        ps@,
                        j,
                        active_prop_specs(ps@),
                    ) && const_clear(
                        JsId::StrId((#[trigger] ps@[j]).name->Some_0),
                        constants,
                    ) ==> has_own_prop(
                        final(engine).props_of(p),
                        JsId::StrId(ps@[j].name->Some_0),
                    ) && own_prop(final(engine).props_of(p), JsId::StrId(ps@[j].name->Some_0))
                        == attr_entry(ps@[j]),
                None => true,
            }
            &&& match methods {
                Some(ms) => forall|j: int|
                    0 <= j < active_fn_specs(ms@) && fn_name_last_upto(
                        ms@,
                        j,
                        active_fn_specs(ms@),
                    ) && prop_clear(JsId::StrId((#[trigger] ms@[j]).name->Some_0), properties)
                        && const_clear(JsId::StrId(ms@[j].name->Some_0), constants)
                        ==> method_installed(*final(engine), p, ms@[j]),
                None => true,
            }
        }),
{
    let p = engine.new_object(protoClass, parentProto, Some(global));
    let ghost e0 = *engine;
    if let Some(ms) = methods {
        DefineMethods(engine, p, ms);
    }
    let ghost e1 = *engine;
    if let Some(ps) = properties {
        DefineProperties(engine, p, ps);
    }
    let ghost e2 = *engine;
    if let Some(cs) = constants {
        DefineConstants(engine, p, cs);
    }
    proof {
        match methods {
            Some(ms) => {
                assert forall|j: int|
                    0 <= j < active_fn_specs(ms@) && fn_name_last_upto(
                        ms@,
                        j,
                        active_fn_specs(ms@),
                    ) && prop_clear(JsId::StrId((#[trigger] ms@[j]).name->Some_0), properties)
                        && const_clear(
                        JsId::StrId(ms@[j].name->Some_0),
                        constants,
                    ) implies method_installed(*engine, p, ms@[j]) by {
                    let k = JsId::StrId(ms@[j].name->Some_0);
                    assert(method_installed(e1, p, ms@[j]));
                    assert(method_installed(e2, p, ms@[j]));
                    assert(method_installed(*engine, p, ms@[j]));
                }
            },
            None => {},
        }
        match properties {
            Some(ps) => {
                assert forall|j: int|
                    0 <= j < active_prop_specs(ps@) && prop_name_last_upto(
                        ps@,
                        j,
                        active_prop_specs(ps@),
                    ) && const_clear(
                        JsId::StrId((#[trigger] ps@[j]).name->Some_0),
                        constants,
                    ) implies has_own_prop(
                    engine.props_of(p),
                    JsId::StrId(ps@[j].name->Some_0),
                ) && own_prop(engine.props_of(p), JsId::StrId(ps@[j].name->Some_0)) == attr_entry(
                    ps@[j],
                ) by {
                    let k = JsId::StrId(ps@[j].name->Some_0);
                    assert(has_own_prop(e2.props_of(p), k) && own_prop(e2.props_of(p), k)
                        == attr_entry(ps@[j]));
                }
            },
            None => {},
        }
    }
    Some(p)
}

/// Creates the constructor/interface object: a class-described object for an
/// exotic constructor or a native function object for an ordinary one,
/// installs the static methods, the `toString` override (capturing the
/// constructor class and the interface name in reserved slots), and the
/// constants, links constructor and prototype bidirectionally, and registers
/// the constructor on the receiver as an enumerable named property — unless a
/// property of that name already exists, in which case registration is a
/// no-op.
#[verifier::rlimit(60)]
pub fn CreateInterfaceObject(
    engine: &mut Engine,
    global: ObjId,
    receiver: ObjId,
    constructorClass: Option<ClassId>,
    constructorNative: Option<NativeFn>,
    ctorNargs: u32,
    proto: Option<ObjId>,
    staticMethods: Option<&Vec<JSFunctionSpec>>,
    constants: Option<&Vec<ConstantSpec>>,
    name: &String,
) -> (r: Option<ObjId>)
    requires
        old(engine).wf(),
        old(engine).valid_obj(global),
        old(engine).valid_obj(receiver),
        match constructorClass {
            Some(cid) => cid < old(engine).classes@.len(),
            None => constructorNative is Some,
        },
        match proto {
            Some(p) => old(engine).valid_obj(p),
            None => true,
        },
    ensures
        final(engine).wf(),
        final(engine).frame_eq(*old(engine)),
        old(engine).objects@.len() < final(engine).objects@.len(),
        forall|k: int|
            0 <= k < old(engine).objects@.len() && k != receiver && (match proto {
                Some(p) => k != p,
                None => true,
            }) ==> final(engine).objects@[k] == old(engine).objects@[k],
        same_but_props(final(engine).obj(receiver), old(engine).obj(receiver)),
        match proto {
            Some(p) => same_but_props(final(engine).obj(p), old(engine).obj(p)),
            None => true,
        },
        r matches Some(c) && ({
            &&& c == old(engine).objects@.len()
            &&& final(engine).valid_obj(c)
            &&& match constructorClass {
                Some(cid) => final(engine).obj(c).class == cid && final(engine).obj(c).proto
                    == Some(old(engine).function_prototype),
                None => final(engine).obj(c).function matches Some(fd)
                    && crate::engine::function_data_is(
                    fd,
                    constructorNative->Some_0,
                    ctorNargs,
                    crate::engine::JSFUN_CONSTRUCTOR,
                    Some(name@),
                    None,
                ),
            }
            &&& (match constructorClass {
                Some(cid) => forall|k: JsId|
                    #[trigger] key_is_str(k, "toString"@) && const_clear(k, constants)
                        ==> tostring_prop(*final(engine), c, k, cid, name@),
                None => true,
            })
            &&& match constants {
                Some(cs) => forall|j: int|
                    0 <= j < active_const_specs(cs@) && const_name_last_upto(
                        cs@,
                        j,
                        active_const_specs(cs@),
                    ) && (proto is Some ==> (#[trigger] cs@[j]).name->Some_0@ != "prototype"@)
                        ==> has_own_prop(
                        final(engine).props_of(c),
                        JsId::StrId(cs@[j].name->Some_0),
                    ) && own_prop(final(engine).props_of(c), JsId::StrId(cs@[j].name->Some_0))
                        == const_entry(cs@[j]),
                None => true,
            }
            &&& match proto {
                Some(p) => {
                    &&& forall|k: JsId|
                        #[trigger] key_is_str(k, "prototype"@) ==> data_prop_with(
                            final(engine).props_of(c),
                            k,
                            EngineValue::ObjectValue(p),
                            0,
                        )
                    &&& (p != receiver ==> forall|k: JsId|
                        #[trigger] key_is_str(k, "constructor"@) ==> data_prop_with(
                            final(engine).props_of(p),
                            k,
                            EngineValue::ObjectValue(c),
                            0,
                        ))
                    &&& (p != receiver ==> forall|k2: JsId|
                        !#[trigger] key_is_str(k2, "constructor"@) ==> own_prop_idx(
                            final(engine).props_of(p),
                            k2,
                        ) == own_prop_idx(old(engine).props_of(p), k2) && (has_own_prop(
                            old(engine).props_of(p),
                            k2,
                        ) ==> own_prop(final(engine).props_of(p), k2) == own_prop(
                            old(engine).props_of(p),
                            k2,
                        )))
                },
                None => true,
            }
            &&& ((proto is None || proto->Some_0 != receiver) ==> (if has_own_prop(
                old(engine).props_of(receiver),
                JsId::StrId(*name),
            ) {
                final(engine).props_of(receiver) == old(engine).props_of(receiver)
            } else {
                final(engine).props_of(receiver) == old(engine).props_of(receiver).push(
                    PropEntry {
                        key: JsId::StrId(*name),
                        value: EngineValue::ObjectValue(c),
                        flags: JSPROP_ENUMERATE,
                        getter: None,
                        setter: None,
                    },
                )
            }))
        }),
{
    proof {
        reveal_strlit("toString");
        reveal_strlit("prototype");
        reveal_strlit("constructor");
    }
    let constructor: ObjId = match constructorClass {
        Some(cid) => {
            let fp = engine.function_prototype;
            engine.new_object(cid, Some(fp), Some(global))
        },
        None => {
            let native = match constructorNative {
                Some(n) => n,
                None => unreached(),
            };
            engine.new_function(
                native,
                ctorNargs,
                crate::engine::JSFUN_CONSTRUCTOR,
                Some(name.clone()),
                None,
            )
        },
    };
    if let Some(ms) = staticMethods {
        DefineMethods(engine, constructor, ms);
    }
    let ghost e1 = *engine;
    if constructorClass.is_some() {
        let cid = match constructorClass {
            Some(cid) => cid,
            None => unreached(),
        };
        let ts = engine.new_function(
            NativeFn::InterfaceToStringNative,
            0,
            0,
            Some("toString".to_owned()),
            None,
        );
        engine.set_reserved_slot(ts, TOSTRING_CLASS_RESERVED_SLOT, EngineValue::PrivateValue(cid));
        engine.set_reserved_slot(
            ts,
            TOSTRING_NAME_RESERVED_SLOT,
            EngineValue::StringValue(name.clone()),
        );
        let ts_key = JsId::StrId("toString".to_owned());
        let ghost gts_key = ts_key;
        let ghost pre_ts = engine.props_of(constructor);
        engine.define_property(constructor, ts_key, EngineValue::ObjectValue(ts), None, None, 0);
        proof {
            let ts_entry = PropEntry {
                key: gts_key,
                value: EngineValue::ObjectValue(ts),
                flags: 0,
                getter: None,
                setter: None,
            };
            assert(engine.props_of(constructor) == apply_define(pre_ts, ts_entry));
            assert forall|k: JsId| #[trigger] key_is_str(k, "toString"@) implies tostring_prop(
                *engine,
                constructor,
                k,
                cid,
                name@,
            ) by {
                assert(id_eq(k, ts_entry.key));
                lemma_apply_define(pre_ts, ts_entry, k);
                assert(data_prop_with(
                    engine.props_of(constructor),
                    k,
                    EngineValue::ObjectValue(ts),
                    0,
                ));
                assert(engine.obj(ts).slots@[TOSTRING_CLASS_RESERVED_SLOT as int]
                    == EngineValue::PrivateValue(cid));
                assert(engine.obj(ts).slots@[TOSTRING_NAME_RESERVED_SLOT as int] matches
                    EngineValue::StringValue(nm) && nm@ == name@);
            }
        }
    }
    let ghost e2 = *engine;
    if let Some(cs) = constants {
        DefineConstants(engine, constructor, cs);
    }
    let ghost e3 = *engine;
    proof {
        // toString facts survive the constant definer for keys its table leaves alone
        if constructorClass is Some {
            let cid = constructorClass->Some_0;
            assert forall|k: JsId|
                #[trigger] key_is_str(k, "toString"@) && const_clear(k, constants) implies
                tostring_prop(e3, constructor, k, cid, name@) by {
                assert(tostring_prop(e2, constructor, k, cid, name@));
                assert(own_prop(e3.props_of(constructor), k) == own_prop(
                    e2.props_of(constructor),
                    k,
                ));
                assert forall|o: int| 0 <= o < e2.objects@.len() implies (
                #[trigger] e3.objects@[o]).function == e2.objects@[o].function
                    && e3.objects@[o].slots == e2.objects@[o].slots by {}
            }
        }
    }
    if let Some(p) = proto {
        let proto_key = JsId::StrId("prototype".to_owned());
        let ghost gproto_key = proto_key;
        let ghost pre_pk = engine.props_of(constructor);
        engine.define_property(constructor, proto_key, EngineValue::ObjectValue(p), None, None, 0);
        let ghost e3b = *engine;
        let ctor_key = JsId::StrId("constructor".to_owned());
        let ghost gctor_key = ctor_key;
        let ghost pre_ck = engine.props_of(p);
        engine.define_property(p, ctor_key, EngineValue::ObjectValue(constructor), None, None, 0);
        proof {
            let pk_entry = PropEntry {
                key: gproto_key,
                value: EngineValue::ObjectValue(p),
                flags: 0,
                getter: None,
                setter: None,
            };
            let ck_entry = PropEntry {
                key: gctor_key,
                value: EngineValue::ObjectValue(constructor),
                flags: 0,
                getter: None,
                setter: None,
            };
            assert(e3b.props_of(constructor) == apply_define(e3.props_of(constructor), pk_entry));
            assert(engine.props_of(p) == apply_define(pre_ck, ck_entry));
            if p != constructor {
                assert(engine.props_of(constructor) == e3b.props_of(constructor));
                assert(pre_ck == e3.props_of(p));
            }
            // the linkage properties themselves
            assert forall|k: JsId| #[trigger] key_is_str(k, "prototype"@) implies data_prop_with(
                engine.props_of(constructor),
                k,
                EngineValue::ObjectValue(p),
                0,
            ) by {
                assert(id_eq(k, pk_entry.key));
                lemma_apply_define(e3.props_of(constructor), pk_entry, k);
                assert(p != constructor);
            }
            assert forall|k: JsId| #[trigger] key_is_str(k, "constructor"@) implies data_prop_with(
                engine.props_of(p),
                k,
                EngineValue::ObjectValue(constructor),
                0,
            ) by {
                assert(id_eq(k, ck_entry.key));
                lemma_apply_define(pre_ck, ck_entry, k);
            }
            // everything else on the prototype is untouched
            assert forall|k2: JsId| !#[trigger] key_is_str(k2, "constructor"@) implies own_prop_idx(
                engine.props_of(p),
                k2,
            ) == own_prop_idx(pre_ck, k2) && (has_own_prop(pre_ck, k2) ==> own_prop(
                engine.props_of(p),
                k2,
            ) == own_prop(pre_ck, k2)) by {
                assert(!id_eq(k2, ck_entry.key));
                lemma_apply_define(pre_ck, ck_entry, k2);
            }
            // constants survive the linkage where their names differ
            if constants is Some {
                let cs = constants->Some_0;
                assert forall|j: int|
                    0 <= j < active_const_specs(cs@) && const_name_last_upto(
                        cs@,
                        j,
                        active_const_specs(cs@),
                    ) && (#[trigger] cs@[j]).name->Some_0@ != "prototype"@ implies has_own_prop(
                    engine.props_of(constructor),
                    JsId::StrId(cs@[j].name->Some_0),
                ) && own_prop(engine.props_of(constructor), JsId::StrId(cs@[j].name->Some_0))
                    == const_entry(cs@[j]) by {
                    let kj = JsId::StrId(cs@[j].name->Some_0);
                    assert(has_own_prop(e3.props_of(constructor), kj) && own_prop(
                        e3.props_of(constructor),
                        kj,
                    ) == const_entry(cs@[j]));
                    assert(!id_eq(kj, pk_entry.key));
                    lemma_apply_define(e3.props_of(constructor), pk_entry, kj);
                    assert(p != constructor);
                }
            }
            // the toString override survives the linkage
            if constructorClass is Some {
                let cid = constructorClass->Some_0;
                assert forall|k: JsId|
                    #[trigger] key_is_str(k, "toString"@) && const_clear(k, constants) implies
                    tostring_prop(*engine, constructor, k, cid, name@) by {
                    assert(tostring_prop(e3, constructor, k, cid, name@));
                    reveal_strlit("toString");
                    reveal_strlit("prototype");
                    reveal_strlit("constructor");
                    assert("toString"@.len() == 8);
                    assert("prototype"@.len() == 9);
                    assert("constructor"@.len() == 11);
                    assert(!id_eq(k, pk_entry.key));
                    lemma_apply_define(e3.props_of(constructor), pk_entry, k);
                    assert(p != constructor);
                    assert(own_prop(engine.props_of(constructor), k) == own_prop(
                        e3.props_of(constructor),
                        k,
                    ));
                    assert forall|o: int| 0 <= o < e3.objects@.len() implies (
                    #[trigger] engine.objects@[o]).function == e3.objects@[o].function
                        && engine.objects@[o].slots == e3.objects@[o].slots by {}
                }
            }
        }
    }
    let ghost e4 = *engine;
    let reg_key = JsId::StrId(name.clone());
    let ghost greg_key = reg_key;
    let already = engine.has_own_property(receiver, &reg_key);
    let ghost pre_reg = engine.props_of(receiver);
    if !already {
        engine.define_property(
            receiver,
            reg_key,
            EngineValue::ObjectValue(constructor),
            None,
            None,
            JSPROP_ENUMERATE,
        );
    }
    proof {
        let reg_entry = PropEntry {
            key: greg_key,
            value: EngineValue::ObjectValue(constructor),
            flags: JSPROP_ENUMERATE,
            getter: None,
            setter: None,
        };
        // registration leaves the constructor and the prototype alone
        assert(receiver != constructor);
        assert(engine.props_of(constructor) == e4.props_of(constructor));
        // carry the per-key facts across the registration step
        if constructorClass is Some {
            let cid = constructorClass->Some_0;
            assert forall|k: JsId|
                #[trigger] key_is_str(k, "toString"@) && const_clear(k, constants) implies
                tostring_prop(*engine, constructor, k, cid, name@) by {
                assert(tostring_prop(e4, constructor, k, cid, name@));
                assert(own_prop(engine.props_of(constructor), k) == own_prop(
                    e4.props_of(constructor),
                    k,
                ));
                assert forall|o: int| 0 <= o < e4.objects@.len() implies (
                #[trigger] engine.objects@[o]).function == e4.objects@[o].function
                    && engine.objects@[o].slots == e4.objects@[o].slots by {}
            }
        }
        if proto is None || proto->Some_0 != receiver {
            assert(pre_reg == old(engine).props_of(receiver));
            if already {
                assert(engine.props_of(receiver) == pre_reg);
            } else {
                assert(engine.props_of(receiver) == apply_define(pre_reg, reg_entry));
                crate::engine::lemma_own_prop_idx_char(pre_reg, greg_key);
                assert(engine.props_of(receiver) == pre_reg.push(reg_entry));
            }
        }
    }
    Some(constructor)
}

/// Builds the full object graph an interface needs on a global scope: the
/// prototype object (methods, attributes, constants, and the interface
/// metadata stashed in its reserved slot), the constructor/interface object
/// (static methods, `toString`, constants, bidirectional linkage,
/// registration on the receiver), and returns whichever of the two is more
/// specific — the prototype when one was built, else the constructor, else
/// nothing.
pub fn CreateInterfaceObjects2(
    engine: &mut Engine,
    global: ObjId,
    receiver: ObjId,
    protoProto: Option<ObjId>,
    protoClass: Option<ClassId>,
    constructorClass: Option<ClassId>,
    constructor: Option<NativeFn>,
    ctorNargs: u32,
    domClass: DOMClass,
    methods: Option<&Vec<JSFunctionSpec>>,
    properties: Option<&Vec<JSPropertySpec>>,
    constants: Option<&Vec<ConstantSpec>>,
    staticMethods: Option<&Vec<JSFunctionSpec>>,
    name: &String,
) -> (r: Option<ObjId>)
    requires
        old(engine).wf(),
        old(engine).valid_obj(global),
        old(engine).valid_obj(receiver),
        match protoProto {
            Some(p) => old(engine).valid_obj(p),
            None => true,
        },
        match protoClass {
            Some(pc) => pc < old(engine).classes@.len(),
            None => true,
        },
        match constructorClass {
            Some(cc) => cc < old(engine).classes@.len(),
            None => true,
        },
    ensures
        final(engine).wf(),
        final(engine).frame_eq(*old(engine)),
        old(engine).objects@.len() <= final(engine).objects@.len(),
        forall|k: int|
            0 <= k < old(engine).objects@.len() && k != receiver ==> final(engine).objects@[k]
                == old(engine).objects@[k],
        same_but_props(final(engine).obj(receiver), old(engine).obj(receiver)),
        (r is None <==> (protoClass is None && constructorClass is None && constructor is None)),
        r is None ==> *final(engine) == *old(engine),
        match protoClass {
            Some(pc) => r matches Some(p) && {
                &&& p == old(engine).objects@.len()
                &&& final(engine).valid_obj(p)
                &&& final(engine).obj(p).class == pc
                &&& final(engine).obj(p).proto == protoProto
                &&& final(engine).obj(p).slots@[crate::engine::DOM_PROTO_INSTANCE_CLASS_SLOT as int]
                    == EngineValue::DomClassValue(domClass)
            },
            None => match (constructorClass, constructor) {
                (None, None) => true,
                _ => r matches Some(c) && {
                    &&& c == old(engine).objects@.len()
                    &&& final(engine).valid_obj(c)
                    &&& match constructorClass {
                        Some(cid) => final(engine).obj(c).class == cid,
                        None => final(engine).obj(c).function matches Some(fd)
                            && crate::engine::function_data_is(
                            fd,
                            constructor->Some_0,
                            ctorNargs,
                            crate::engine::JSFUN_CONSTRUCTOR,
                            Some(name@),
                            None,
                        ),
                    }
                },
            },
        },
        (constructorClass is Some || constructor is Some) ==> has_own_prop(
            final(engine).props_of(receiver),
            JsId::StrId(*name),
        ) && (has_own_prop(old(engine).props_of(receiver), JsId::StrId(*name))
            ==> final(engine).props_of(receiver) == old(engine).props_of(receiver)),
{
    let mut proto: Option<ObjId> = None;
    if let Some(pc) = protoClass {
        let p = match CreateInterfacePrototypeObject(
            engine,
            global,
            protoProto,
            pc,
            methods,
            properties,
            constants,
        ) {
            Some(p) => p,
            None => {
                return None;
            },
        };
        engine.set_reserved_slot(
            p,
            crate::engine::DOM_PROTO_INSTANCE_CLASS_SLOT,
            EngineValue::DomClassValue(domClass),
        );
        proto = Some(p);
    }
    let ghost e1 = *engine;
    let mut interface: Option<ObjId> = None;
    if constructorClass.is_some() || constructor.is_some() {
        let itf = match CreateInterfaceObject(
            engine,
            global,
            receiver,
            constructorClass,
            constructor,
            ctorNargs,
            proto,
            staticMethods,
            constants,
            name,
        ) {
            Some(i) => i,
            None => {
                return None;
            },
        };
        interface = Some(itf);
        proof {
            let key = JsId::StrId(*name);
            assert(e1.props_of(receiver) == old(engine).props_of(receiver));
            crate::engine::lemma_own_prop_idx_char(e1.props_of(receiver), key);
            if !has_own_prop(e1.props_of(receiver), key) {
                let pushed = e1.props_of(receiver).push(
                    PropEntry {
                        key: JsId::StrId(*name),
                        value: EngineValue::ObjectValue(itf),
                        flags: JSPROP_ENUMERATE,
                        getter: None,
                        setter: None,
                    },
                );
                lemma_id_eq_refl(key);
                crate::engine::lemma_own_prop_idx_is(pushed, key, e1.props_of(receiver).len() as int);
            }
        }
    }
    if protoClass.is_some() {
        proto
    } else {
        interface
    }
}

/// The interface table entry a global holds for an interface identifier.
pub open spec fn cached_interface(e: Engine, global: ObjId, iface_id: int) -> Option<ObjId> {
    e.obj(global).iface_table@[iface_id]
}

/// What the caching builder returns, given the table's state and what a fresh
/// construction would yield: a cached pair is always reused.
pub open spec fn ensure_of(cached: Option<ObjId>, built: Option<ObjId>) -> Option<ObjId> {
    match cached {
        Some(w) => Some(w),
        None => built,
    }
}

/// Idempotent interface registration: once the per-global table holds the
/// interface's object, a further registration returns that same object —
/// whatever a rebuild would have produced — so a second call for the same
/// interface on the same global creates nothing and changes nothing.
pub proof fn lemma_interface_registration_idempotent(
    w: ObjId,
    built1: Option<ObjId>,
    built2: Option<ObjId>,
)
    ensures
        ensure_of(Some(w), built1) == Some(w),
        ensure_of(ensure_of(Some(w), built1), built2) == ensure_of(Some(w), built1),
{
}

/// The caching entry of the builder: the first time an interface is touched
/// on a global, its object graph is built and the result recorded in the
/// per-global interface table; afterwards the cached object is handed back
/// and the engine is left completely untouched.
pub fn ensure_interface_object(
    engine: &mut Engine,
    global: ObjId,
    receiver: ObjId,
    iface_id: usize,
    protoProto: Option<ObjId>,
    protoClass: Option<ClassId>,
    constructorClass: Option<ClassId>,
    constructor: Option<NativeFn>,
    ctorNargs: u32,
    domClass: DOMClass,
    methods: Option<&Vec<JSFunctionSpec>>,
    properties: Option<&Vec<JSPropertySpec>>,
    constants: Option<&Vec<ConstantSpec>>,
    staticMethods: Option<&Vec<JSFunctionSpec>>,
    name: &String,
) -> (r: Option<ObjId>)
    requires
        old(engine).wf(),
        old(engine).valid_obj(global),
        old(engine).valid_obj(receiver),
        old(engine).obj(global).global_initialized(),
        iface_id < PROTOTYPE_ID_COUNT,
        match protoProto {
            Some(p) => old(engine).valid_obj(p),
            None => true,
        },
        match protoClass {
            Some(pc) => pc < old(engine).classes@.len(),
            None => true,
        },
        match constructorClass {
            Some(cc) => cc < old(engine).classes@.len(),
            None => true,
        },
    ensures
        final(engine).wf(),
        final(engine).frame_eq(*old(engine)),
        old(engine).objects@.len() <= final(engine).objects@.len(),
        final(engine).obj(global).global_initialized(),
        cached_interface(*old(engine), global, iface_id as int) matches Some(w) ==> r == Some(w)
            && *final(engine) == *old(engine),
        r matches Some(c) ==> cached_interface(*final(engine), global, iface_id as int) == Some(
            c,
        ),
        cached_interface(*old(engine), global, iface_id as int) is None ==> match r {
            Some(c) => final(engine).valid_obj(c),
            None => true,
        },
        r is None <==> (cached_interface(*old(engine), global, iface_id as int) is None
            && protoClass is None && constructorClass is None && constructor is None),
        r is None ==> *final(engine) == *old(engine),
{
    let cached: Option<ObjId> = engine.objects[global].iface_table[iface_id];
    match cached {
        Some(w) => Some(w),
        None => {
            match CreateInterfaceObjects2(
                engine,
                global,
                receiver,
                protoProto,
                protoClass,
                constructorClass,
                constructor,
                ctorNargs,
                domClass,
                methods,
                properties,
                constants,
                staticMethods,
                name,
            ) {
                Some(c) => {
                    proof {
                        if global != receiver {
                            assert(engine.objects@[global as int] == old(
                                engine,
                            ).objects@[global as int]);
                        }
                        assert(engine.obj(global).global_initialized());
                    }
                    engine.set_proto_or_iface(global, iface_id, c);
                    Some(c)
                },
                None => None,
            }
        },
    }
}

} // verus!
