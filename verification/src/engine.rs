//! The engine object store.
//!
//! The scripting engine proper is an external collaborator; this module
//! models the slice of it that the binding layer relies on — objects with a
//! class, a prototype link, own properties and fixed inline storage — as an
//! explicit, owned store, so that every operation the layer performs against
//! the engine has an exact meaning.

use vstd::prelude::*;

use crate::values::{id_eq, jsid_eq, EngineValue, JsId, NativeFn, ObjId};

verus! {

/// Number of value-sized inline storage slots an engine object provides.
pub const MAX_FIXED_SLOTS: u32 = 16;

/// Inline storage slot that holds the native value of a plain object.
pub const DOM_OBJECT_SLOT: u32 = 0;

/// Inline storage slot that holds the native value of a proxy-backed object.
pub const DOM_PROXY_OBJECT_SLOT: u32 = 3;

/// Reserved slot of a prototype object that records which interface chain
/// the prototype is for.
pub const DOM_PROTO_INSTANCE_CLASS_SLOT: u32 = 2;

/// Length of every interface chain: the bounded depth of interface
/// inheritance this layer supports.
pub const MAX_PROTOTYPE_CHAIN: usize = 3;

/// Number of known interface identifiers; the per-global interface table has
/// one slot per identifier.
pub const PROTOTYPE_ID_COUNT: usize = 22;

/// Class flag marking a class whose instances embed a native value in their
/// inline storage.
pub const JSCLASS_IS_INLINE_DOMJSCLASS: u32 = 0x10;

/// Property flag: the property shows up in enumeration.
pub const JSPROP_ENUMERATE: u32 = 0x1;

/// Property flag: assignments to the property have no effect.
pub const JSPROP_READONLY: u32 = 0x2;

/// Property flag: the property cannot be deleted.
pub const JSPROP_PERMANENT: u32 = 0x4;

/// Property flag: the descriptor carries a getter function object.
pub const JSPROP_GETTER: u32 = 0x10;

/// Property flag: the descriptor carries a setter function object.
pub const JSPROP_SETTER: u32 = 0x20;

/// Property flag of an attribute spec: the accessors are native hooks rather
/// than function objects.
pub const JSPROP_NATIVE_ACCESSORS: u32 = 0x40;

/// Function flag: the native may be invoked as a constructor.
pub const JSFUN_CONSTRUCTOR: u32 = 0x200;

/// Per-interface metadata attached to every instance's class descriptor (for
/// plain objects) or to proxy-handler extra data (for proxy-backed objects).
///
/// `interface_chain[d]` names the interface this object implements at
/// ancestor depth `d`, most-derived first; comparing one entry is the sole
/// type-safety gate before the object's inline storage is reinterpreted.
/// Property hooks are host function tables outside this layer, carried
/// opaquely by id.
#[derive(Clone, Copy)]
pub struct DOMClass {
    pub interface_chain: [u32; 3],
    pub unused: bool,
    pub native_hooks: Option<u64>,
}

/// An engine class descriptor.  The finalize and trace hooks are opaque
/// host function pointers, carried by id; `has_instance` records whether the
/// class answers `instanceof` by walking the prototype chain.
pub struct JSClass {
    pub name: String,
    pub flags: u32,
    pub finalize: Option<u64>,
    pub trace: Option<u64>,
    pub has_instance: bool,
}

/// A class descriptor for instances that embed a native value: the engine
/// class together with the interface metadata.
pub struct DOMJSClass {
    pub base: JSClass,
    pub dom_class: DOMClass,
}

/// A registered class: either a plain engine class or one whose instances
/// carry native storage and interface metadata.
pub enum ClassEntry {
    Plain(JSClass),
    Dom(DOMJSClass),
}

impl ClassEntry {
    /// The engine class of the entry.
    pub open spec fn base(&self) -> JSClass {
        match self {
            ClassEntry::Plain(c) => *c,
            ClassEntry::Dom(d) => d.base,
        }
    }

    /// The flag marking native storage is set exactly on the entries that
    /// carry interface metadata.
    pub open spec fn wf(&self) -> bool {
        match self {
            ClassEntry::Plain(c) => c.flags & JSCLASS_IS_INLINE_DOMJSCLASS == 0,
            ClassEntry::Dom(d) => d.base.flags & JSCLASS_IS_INLINE_DOMJSCLASS != 0,
        }
    }
}

/// Identifier of a registered class inside the engine's class table.
pub type ClassId = usize;

/// One own property of an engine object.  Accessor hooks, where present, are
/// native functions.
pub struct PropEntry {
    pub key: JsId,
    pub value: EngineValue,
    pub flags: u32,
    pub getter: Option<NativeFn>,
    pub setter: Option<NativeFn>,
}

/// The callable payload of a function object: its native, arity and flags,
/// the name it displays (absent for anonymous accessors), and the engine-level
/// type metadata attached for the JIT, carried opaquely.
pub struct FunctionData {
    pub native: NativeFn,
    pub nargs: u32,
    pub flags: u32,
    pub name: Option<String>,
    pub info: Option<u64>,
}

/// The characters of an optional name.
pub open spec fn opt_chars(s: Option<String>) -> Option<Seq<char>> {
    match s {
        Some(t) => Some(t@),
        None => None,
    }
}

/// The function payload carries exactly these parts; its name is compared by
/// its characters.
pub open spec fn function_data_is(
    fd: FunctionData,
    native: NativeFn,
    nargs: u32,
    flags: u32,
    name: Option<Seq<char>>,
    info: Option<u64>,
) -> bool {
    &&& fd.native == native
    &&& fd.nargs == nargs
    &&& fd.flags == flags
    &&& opt_chars(fd.name) == name
    &&& fd.info == info
}

/// One object of the engine's store.
///
/// `proto` is fixed at creation and always refers to an older object, which
/// keeps every prototype chain finite.  `iface_table` is the per-global
/// interface/prototype table, empty until the global has been initialized.
pub struct EngineObject {
    pub class: ClassId,
    pub proto: Option<ObjId>,
    pub parent: Option<ObjId>,
    pub props: Vec<PropEntry>,
    pub slots: Vec<EngineValue>,
    pub function: Option<FunctionData>,
    pub is_proxy: bool,
    pub proxy_extra: Option<DOMClass>,
    pub iface_table: Vec<Option<ObjId>>,
}

impl EngineObject {
    pub open spec fn wf(&self, nclasses: nat, idx: nat) -> bool {
        &&& self.class < nclasses
        &&& match self.proto {
            Some(p) => p < idx,
            None => true,
        }
        &&& match self.parent {
            Some(p) => p < idx,
            None => true,
        }
        &&& self.slots@.len() == MAX_FIXED_SLOTS
        &&& (self.iface_table@.len() == 0 || self.iface_table@.len() == PROTOTYPE_ID_COUNT)
    }

    /// Whether the per-global interface table has been installed on this
    /// object.
    pub open spec fn global_initialized(&self) -> bool {
        self.iface_table@.len() == PROTOTYPE_ID_COUNT
    }
}

/// Index in `props` of the first entry whose key matches `id`, or -1 when no
/// entry does: the engine's own-property lookup.
pub open spec fn own_prop_idx(props: Seq<PropEntry>, id: JsId) -> int
    decreases props.len(),
{
    if props.len() == 0 {
        -1
    } else if id_eq(props[0].key, id) {
        0
    } else {
        let r = own_prop_idx(props.drop_first(), id);
        if r == -1 {
            -1
        } else {
            r + 1
        }
    }
}

/// Whether the object with these own properties owns a property keyed `id`.
pub open spec fn has_own_prop(props: Seq<PropEntry>, id: JsId) -> bool {
    own_prop_idx(props, id) >= 0
}

/// The own property keyed `id`.
pub open spec fn own_prop(props: Seq<PropEntry>, id: JsId) -> PropEntry
    recommends
        has_own_prop(props, id),
{
    props[own_prop_idx(props, id)]
}

/// What own-property lookup returns: the index is in range, its entry
/// matches, no earlier entry does; and a negative result means no entry
/// matches at all.
pub proof fn lemma_own_prop_idx_char(props: Seq<PropEntry>, id: JsId)
    ensures
        own_prop_idx(props, id) == -1 || (0 <= own_prop_idx(props, id) < props.len()),
        own_prop_idx(props, id) == -1 ==> forall|j: int|
            0 <= j < props.len() ==> !id_eq((#[trigger] props[j]).key, id),
        own_prop_idx(props, id) >= 0 ==> id_eq(props[own_prop_idx(props, id)].key, id),
        own_prop_idx(props, id) >= 0 ==> forall|j: int|
            0 <= j < own_prop_idx(props, id) ==> !id_eq((#[trigger] props[j]).key, id),
    decreases props.len(),
{
    if props.len() > 0 && !id_eq(props[0].key, id) {
        lemma_own_prop_idx_char(props.drop_first(), id);
        assert forall|j: int| 1 <= j < props.len() implies props.drop_first()[j - 1] == props[j] by {}
    }
}

/// Own-property lookup finds the first matching index: if no entry before
/// `i` matches and (`i` is past the end or entry `i` matches), the lookup
/// answers `i` (or "absent" when `i` is past the end).
pub proof fn lemma_own_prop_idx_is(props: Seq<PropEntry>, id: JsId, i: int)
    requires
        0 <= i <= props.len(),
        forall|j: int| 0 <= j < i ==> !id_eq((#[trigger] props[j]).key, id),
        i == props.len() || id_eq(props[i].key, id),
    ensures
        own_prop_idx(props, id) == if i == props.len() {
            -1
        } else {
            i
        },
    decreases i,
{
    if props.len() == 0 {
    } else if i == 0 {
    } else {
        assert forall|j: int| 0 <= j < i - 1 implies !id_eq(
            (#[trigger] props.drop_first()[j]).key,
            id,
        ) by {
            assert(props.drop_first()[j] == props[j + 1]);
        }
        if i < props.len() {
            assert(props.drop_first()[i - 1] == props[i]);
        }
        lemma_own_prop_idx_is(props.drop_first(), id, i - 1);
    }
}

use crate::values::{lemma_id_eq_sym, lemma_id_eq_trans};
use vstd::pervasive::unreached;

/// The first-match effect of a (re)defining write: the first entry with a
/// matching key is replaced, otherwise the new entry is appended.
pub open spec fn apply_define(s: Seq<PropEntry>, e: PropEntry) -> Seq<PropEntry> {
    let i = own_prop_idx(s, e.key);
    if i >= 0 {
        s.update(i, e)
    } else {
        s.push(e)
    }
}

/// A defining write installs exactly its entry under its key and leaves every
/// other key's lookup untouched.
pub proof fn lemma_apply_define(s: Seq<PropEntry>, e: PropEntry, k2: JsId)
    ensures
        id_eq(k2, e.key) ==> has_own_prop(apply_define(s, e), k2) && own_prop(
            apply_define(s, e),
            k2,
        ) == e,
        !id_eq(k2, e.key) ==> own_prop_idx(apply_define(s, e), k2) == own_prop_idx(s, k2),
        !id_eq(k2, e.key) && has_own_prop(s, k2) ==> own_prop(apply_define(s, e), k2) == own_prop(
            s,
            k2,
        ),
{
    let i = own_prop_idx(s, e.key);
    lemma_own_prop_idx_char(s, e.key);
    let s2 = apply_define(s, e);
    if i >= 0 {
        if id_eq(k2, e.key) {
            assert forall|j: int| 0 <= j < i implies !id_eq((#[trigger] s2[j]).key, k2) by {
                if id_eq(s2[j].key, k2) {
                    lemma_id_eq_trans(s[j].key, k2, e.key);
                }
            }
            lemma_id_eq_sym(k2, e.key);
            assert(id_eq(s2[i].key, k2));
            lemma_own_prop_idx_is(s2, k2, i);
        } else {
            let m = own_prop_idx(s, k2);
            lemma_own_prop_idx_char(s, k2);
            if m == -1 {
                assert forall|j: int| 0 <= j < s2.len() implies !id_eq(
                    (#[trigger] s2[j]).key,
                    k2,
                ) by {
                    if j == i {
                        if id_eq(e.key, k2) {
                            lemma_id_eq_sym(e.key, k2);
                        }
                    }
                }
                lemma_own_prop_idx_is(s2, k2, s2.len() as int);
            } else {
                if m == i {
                    lemma_id_eq_sym(s[i].key, k2);
                    lemma_id_eq_trans(k2, s[i].key, e.key);
                }
                assert forall|j: int| 0 <= j < m implies !id_eq((#[trigger] s2[j]).key, k2) by {
                    if j == i {
                        if id_eq(e.key, k2) {
                            lemma_id_eq_sym(e.key, k2);
                        }
                    }
                }
                assert(id_eq(s2[m].key, k2));
                lemma_own_prop_idx_is(s2, k2, m);
            }
        }
    } else {
        let n = s.len() as int;
        if id_eq(k2, e.key) {
            assert forall|j: int| 0 <= j < n implies !id_eq((#[trigger] s2[j]).key, k2) by {
                if id_eq(s2[j].key, k2) {
                    lemma_id_eq_trans(s[j].key, k2, e.key);
                }
            }
            lemma_id_eq_sym(k2, e.key);
            assert(id_eq(s2[n].key, k2));
            lemma_own_prop_idx_is(s2, k2, n);
        } else {
            let m = own_prop_idx(s, k2);
            lemma_own_prop_idx_char(s, k2);
            if m == -1 {
                assert forall|j: int| 0 <= j < s2.len() implies !id_eq(
                    (#[trigger] s2[j]).key,
                    k2,
                ) by {
                    if j == n {
                        if id_eq(e.key, k2) {
                            lemma_id_eq_sym(e.key, k2);
                        }
                    }
                }
                lemma_own_prop_idx_is(s2, k2, s2.len() as int);
            } else {
                assert(id_eq(s2[m].key, k2));
                lemma_own_prop_idx_is(s2, k2, m);
            }
        }
    }
}

/// The fields of two objects agree except possibly their own properties.
pub open spec fn same_but_props(a: EngineObject, b: EngineObject) -> bool {
    &&& a.class == b.class
    &&& a.proto == b.proto
    &&& a.parent == b.parent
    &&& a.slots == b.slots
    &&& a.function == b.function
    &&& a.is_proxy == b.is_proxy
    &&& a.proxy_extra == b.proxy_extra
    &&& a.iface_table == b.iface_table
}

/// The fields of two objects agree except possibly their inline storage.
pub open spec fn same_but_slots(a: EngineObject, b: EngineObject) -> bool {
    &&& a.class == b.class
    &&& a.proto == b.proto
    &&& a.parent == b.parent
    &&& a.props == b.props
    &&& a.function == b.function
    &&& a.is_proxy == b.is_proxy
    &&& a.proxy_extra == b.proxy_extra
    &&& a.iface_table == b.iface_table
}

/// The fields of two objects agree except possibly their interface table.
pub open spec fn same_but_iface(a: EngineObject, b: EngineObject) -> bool {
    &&& a.class == b.class
    &&& a.proto == b.proto
    &&& a.parent == b.parent
    &&& a.props == b.props
    &&& a.slots == b.slots
    &&& a.function == b.function
    &&& a.is_proxy == b.is_proxy
    &&& a.proxy_extra == b.proxy_extra
}

/// The engine: its registered classes, its object store, the distinguished
/// global and function-prototype objects, and the registry of prototype
/// objects stashed on the global by name.
pub struct Engine {
    pub classes: Vec<ClassEntry>,
    pub objects: Vec<EngineObject>,
    pub global: ObjId,
    pub function_class: ClassId,
    pub function_prototype: ObjId,
    pub global_protos: Vec<(String, ObjId)>,
}

impl Engine {
    /// Whether `o` names an object of the store.
    pub open spec fn valid_obj(self, o: ObjId) -> bool {
        o < self.objects@.len()
    }

    /// The object named `o`.
    pub open spec fn obj(self, o: ObjId) -> EngineObject {
        self.objects@[o as int]
    }

    /// The own properties of the object named `o`.
    pub open spec fn props_of(self, o: ObjId) -> Seq<PropEntry> {
        self.objects@[o as int].props@
    }

    /// Everything but the object store agrees.
    pub open spec fn frame_eq(self, other: Engine) -> bool {
        &&& self.classes == other.classes
    &&& self.global == other.global
        &&& self.function_class == other.function_class
        &&& self.function_prototype == other.function_prototype
        &&& self.global_protos == other.global_protos
    }

    pub open spec fn wf(self) -> bool {
        &&& self.valid_obj(self.global)
        &&& self.valid_obj(self.function_prototype)
        &&& self.function_class < self.classes@.len()
        &&& forall|i: int|
            0 <= i < self.objects@.len() ==> (#[trigger] self.objects@[i]).wf(
                self.classes@.len() as nat,
                i as nat,
            )
        &&& forall|i: int| 0 <= i < self.classes@.len() ==> (#[trigger] self.classes@[i]).wf()
        &&& forall|i: int|
            0 <= i < self.global_protos@.len() ==> (#[trigger] self.global_protos@[i]).1
                < self.objects@.len()
    }
}

/// A full bank of cleared inline storage slots.
fn make_slots() -> (r: Vec<EngineValue>)
    ensures
        r@.len() == MAX_FIXED_SLOTS,
        forall|i: int| 0 <= i < r@.len() ==> (#[trigger] r@[i]) is VoidValue,
{
    let mut v: Vec<EngineValue> = Vec::new();
    let mut i: usize = 0;
    while i < 16
        invariant
            i <= 16,
            v@.len() == i,
            forall|j: int| 0 <= j < i ==> (#[trigger] v@[j]) is VoidValue,
        decreases 16 - i,
    {
        v.push(EngineValue::VoidValue);
        i = i + 1;
    }
    v
}

impl Engine {
    /// A fresh engine: a global object and the engine-provided function
    /// prototype, nothing else.
    pub fn new() -> (r: Engine)
        ensures
            r.wf(),
            r.objects@.len() == 2,
            r.classes@.len() == 2,
            r.global == 0,
            r.function_class == 1,
            r.function_prototype == 1,
            r.props_of(0).len() == 0,
            r.props_of(1).len() == 0,
            r.obj(0).iface_table@.len() == 0,
            r.obj(0).proto is None,
            r.obj(1).proto is None,
            !r.obj(0).is_proxy,
            r.obj(0).proxy_extra is None,
            r.global_protos@.len() == 0,
    {
        let mut classes: Vec<ClassEntry> = Vec::new();
        classes.push(
            ClassEntry::Plain(
                JSClass {
                    name: "global".to_owned(),
                    flags: 0,
                    finalize: None,
                    trace: None,
                    has_instance: false,
                },
            ),
        );
        classes.push(
            ClassEntry::Plain(
                JSClass {
                    name: "Function".to_owned(),
                    flags: 0,
                    finalize: None,
                    trace: None,
                    has_instance: false,
                },
            ),
        );
        let mut objects: Vec<EngineObject> = Vec::new();
        objects.push(
            EngineObject {
                class: 0,
                proto: None,
                parent: None,
                props: Vec::new(),
                slots: make_slots(),
                function: None,
                is_proxy: false,
                proxy_extra: None,
                iface_table: Vec::new(),
            },
        );
        objects.push(
            EngineObject {
                class: 1,
                proto: None,
                parent: None,
                props: Vec::new(),
                slots: make_slots(),
                function: None,
                is_proxy: false,
                proxy_extra: None,
                iface_table: Vec::new(),
            },
        );
        let e = Engine {
            classes,
            objects,
            global: 0,
            function_class: 1,
            function_prototype: 1,
            global_protos: Vec::new(),
        };
        proof {
            assert(0u32 & 0x10u32 == 0u32) by (bit_vector);
        }
        e
    }

    /// Registers a class descriptor and returns its identifier.
    pub fn register_class(&mut self, c: ClassEntry) -> (r: ClassId)
        requires
            old(self).wf(),
            c.wf(),
        ensures
            final(self).wf(),
            r == old(self).classes@.len(),
            final(self).classes@ == old(self).classes@.push(c),
            final(self).objects == old(self).objects,
            final(self).global == old(self).global,
            final(self).function_class == old(self).function_class,
            final(self).function_prototype == old(self).function_prototype,
            final(self).global_protos == old(self).global_protos,
    {
        let id = self.classes.len();
        self.classes.push(c);
        proof {
            assert forall|i: int| 0 <= i < self.objects@.len() implies (
            #[trigger] self.objects@[i]).wf(self.classes@.len() as nat, i as nat) by {
                assert(old(self).objects@[i].wf(old(self).classes@.len() as nat, i as nat));
            }
        }
        id
    }

    /// Creates an object of the given class with the given prototype and
    /// parent: its properties empty, its inline storage cleared.
    pub fn new_object(&mut self, class: ClassId, proto: Option<ObjId>, parent: Option<ObjId>) -> (r:
        ObjId)
        requires
            old(self).wf(),
            class < old(self).classes@.len(),
            match proto {
                Some(p) => old(self).valid_obj(p),
                None => true,
            },
            match parent {
                Some(p) => old(self).valid_obj(p),
                None => true,
            },
        ensures
            final(self).wf(),
            final(self).frame_eq(*old(self)),
            r == old(self).objects@.len(),
            final(self).objects@.len() == old(self).objects@.len() + 1,
            forall|i: int|
                0 <= i < old(self).objects@.len() ==> final(self).objects@[i] == old(
                    self,
                ).objects@[i],
            final(self).obj(r).class == class,
            final(self).obj(r).proto == proto,
            final(self).obj(r).parent == parent,
            final(self).props_of(r).len() == 0,
            forall|i: int|
                0 <= i < MAX_FIXED_SLOTS ==> (#[trigger] final(self).obj(r).slots@[i]) is VoidValue,
            final(self).obj(r).function is None,
            !final(self).obj(r).is_proxy,
            final(self).obj(r).proxy_extra is None,
            final(self).obj(r).iface_table@.len() == 0,
    {
        let id = self.objects.len();
        self.objects.push(
            EngineObject {
                class,
                proto,
                parent,
                props: Vec::new(),
                slots: make_slots(),
                function: None,
                is_proxy: false,
                proxy_extra: None,
                iface_table: Vec::new(),
            },
        );
        proof {
            assert forall|i: int| 0 <= i < self.objects@.len() implies (
            #[trigger] self.objects@[i]).wf(self.classes@.len() as nat, i as nat) by {
                if i < id {
                    assert(old(self).objects@[i].wf(old(self).classes@.len() as nat, i as nat));
                }
            }
        }
        id
    }

    /// Creates a proxy-backed object: its property operations are intercepted
    /// by host handler logic, and the interface metadata rides in the
    /// handler's extra data.
    pub fn new_proxy_object(
        &mut self,
        class: ClassId,
        proto: Option<ObjId>,
        parent: Option<ObjId>,
        extra: DOMClass,
    ) -> (r: ObjId)
        requires
            old(self).wf(),
            class < old(self).classes@.len(),
            match proto {
                Some(p) => old(self).valid_obj(p),
                None => true,
            },
            match parent {
                Some(p) => old(self).valid_obj(p),
                None => true,
            },
        ensures
            final(self).wf(),
            final(self).frame_eq(*old(self)),
            r == old(self).objects@.len(),
            final(self).objects@.len() == old(self).objects@.len() + 1,
            forall|i: int|
                0 <= i < old(self).objects@.len() ==> final(self).objects@[i] == old(
                    self,
                ).objects@[i],
            final(self).obj(r).class == class,
            final(self).obj(r).proto == proto,
            final(self).obj(r).parent == parent,
            final(self).props_of(r).len() == 0,
            forall|i: int|
                0 <= i < MAX_FIXED_SLOTS ==> (#[trigger] final(self).obj(r).slots@[i]) is VoidValue,
            final(self).obj(r).function is None,
            final(self).obj(r).is_proxy,
            final(self).obj(r).proxy_extra == Some(extra),
            final(self).obj(r).iface_table@.len() == 0,
    {
        let id = self.objects.len();
        self.objects.push(
            EngineObject {
                class,
                proto,
                parent,
                props: Vec::new(),
                slots: make_slots(),
                function: None,
                is_proxy: true,
                proxy_extra: Some(extra),
                iface_table: Vec::new(),
            },
        );
        proof {
            assert forall|i: int| 0 <= i < self.objects@.len() implies (
            #[trigger] self.objects@[i]).wf(self.classes@.len() as nat, i as nat) by {
                if i < id {
                    assert(old(self).objects@[i].wf(old(self).classes@.len() as nat, i as nat));
                }
            }
        }
        id
    }

    /// Creates a function object carrying the given native, name and attached
    /// type metadata, parented to the global, with the engine's function
    /// prototype.
    pub fn new_function(
        &mut self,
        native: NativeFn,
        nargs: u32,
        flags: u32,
        name: Option<String>,
        info: Option<u64>,
    ) -> (r: ObjId)
        requires
            old(self).wf(),
        ensures
            final(self).wf(),
            final(self).frame_eq(*old(self)),
            r == old(self).objects@.len(),
            final(self).objects@.len() == old(self).objects@.len() + 1,
            forall|i: int|
                0 <= i < old(self).objects@.len() ==> final(self).objects@[i] == old(
                    self,
                ).objects@[i],
            final(self).obj(r).class == old(self).function_class,
            final(self).obj(r).proto == Some(old(self).function_prototype),
            final(self).props_of(r).len() == 0,
            forall|i: int|
                0 <= i < MAX_FIXED_SLOTS ==> (#[trigger] final(self).obj(r).slots@[i]) is VoidValue,
            final(self).obj(r).function matches Some(fd) && function_data_is(
                fd,
                native,
                nargs,
                flags,
                opt_chars(name),
                info,
            ),
            !final(self).obj(r).is_proxy,
            final(self).obj(r).proxy_extra is None,
            final(self).obj(r).iface_table@.len() == 0,
    {
        let fp = self.function_prototype;
        let g = self.global;
        let fc = self.function_class;
        let id = self.objects.len();
        self.objects.push(
            EngineObject {
                class: fc,
                proto: Some(fp),
                parent: Some(g),
                props: Vec::new(),
                slots: make_slots(),
                function: Some(FunctionData { native, nargs, flags, name, info }),
                is_proxy: false,
                proxy_extra: None,
                iface_table: Vec::new(),
            },
        );
        proof {
            assert forall|i: int| 0 <= i < self.objects@.len() implies (
            #[trigger] self.objects@[i]).wf(self.classes@.len() as nat, i as nat) by {
                if i < id {
                    assert(old(self).objects@[i].wf(old(self).classes@.len() as nat, i as nat));
                }
            }
        }
        id
    }

    /// Looks the key up among the object's own properties.
    pub fn find_own_prop(&self, obj: ObjId, key: &JsId) -> (r: Option<usize>)
        requires
            self.valid_obj(obj),
        ensures
            match r {
                Some(i) => own_prop_idx(self.props_of(obj), *key) == i,
                None => own_prop_idx(self.props_of(obj), *key) == -1,
            },
    {
        let props = &self.objects[obj].props;
        let n = props.len();
        let mut i: usize = 0;
        while i < n
            invariant
                n == props@.len(),
                i <= n,
                props@ == self.props_of(obj),
                forall|j: int| 0 <= j < i ==> !id_eq((#[trigger] props@[j]).key, *key),
            decreases n - i,
        {
            if jsid_eq(&props[i].key, key) {
                proof {
                    lemma_own_prop_idx_is(props@, *key, i as int);
                }
                return Some(i);
            }
            i = i + 1;
        }
        proof {
            lemma_own_prop_idx_is(props@, *key, props@.len() as int);
        }
        None
    }

    /// Whether the object owns a property with the given key.
    pub fn has_own_property(&self, obj: ObjId, key: &JsId) -> (r: bool)
        requires
            self.valid_obj(obj),
        ensures
            r == has_own_prop(self.props_of(obj), *key),
    {
        self.find_own_prop(obj, key).is_some()
    }

    /// The object's own property with the given key, if any.
    pub fn get_own_property(&self, obj: ObjId, key: &JsId) -> (r: Option<&PropEntry>)
        requires
            self.valid_obj(obj),
        ensures
            match r {
                Some(e) => has_own_prop(self.props_of(obj), *key) && *e == own_prop(
                    self.props_of(obj),
                    *key,
                ),
                None => !has_own_prop(self.props_of(obj), *key),
            },
    {
        match self.find_own_prop(obj, key) {
            Some(i) => {
                proof {
                    lemma_own_prop_idx_char(self.props_of(obj), *key);
                }
                Some(&self.objects[obj].props[i])
            },
            None => None,
        }
    }

    /// Defines (or redefines) an own property, as the engine's property
    /// definition does.
    pub fn define_property(
        &mut self,
        obj: ObjId,
        key: JsId,
        value: EngineValue,
        getter: Option<NativeFn>,
        setter: Option<NativeFn>,
        flags: u32,
    )
        requires
            old(self).wf(),
            old(self).valid_obj(obj),
        ensures
            final(self).wf(),
            final(self).frame_eq(*old(self)),
            final(self).objects@.len() == old(self).objects@.len(),
            forall|k: int|
                0 <= k < old(self).objects@.len() && k != obj ==> final(self).objects@[k] == old(
                    self,
                ).objects@[k],
            same_but_props(final(self).obj(obj), old(self).obj(obj)),
            final(self).props_of(obj) == apply_define(
                old(self).props_of(obj),
                PropEntry { key, value, flags, getter, setter },
            ),
    {
        let idx = self.find_own_prop(obj, &key);
        proof {
            lemma_own_prop_idx_char(self.props_of(obj), key);
        }
        let entry = PropEntry { key, value, flags, getter, setter };
        match idx {
            Some(i) => {
                self.objects[obj].props[i] = entry;
            },
            None => {
                self.objects[obj].props.push(entry);
            },
        }
        proof {
            assert forall|i2: int| 0 <= i2 < self.objects@.len() implies (
            #[trigger] self.objects@[i2]).wf(self.classes@.len() as nat, i2 as nat) by {
                assert(old(self).objects@[i2].wf(old(self).classes@.len() as nat, i2 as nat));
            }
        }
    }

    /// Assigns to an own property, with the engine's attribute semantics: a
    /// read-only property swallows the write and reports failure; a missing
    /// property is created as a plain enumerable one.  Assignment through
    /// native accessor hooks is outside this model.
    pub fn set_property(&mut self, obj: ObjId, key: JsId, value: EngineValue) -> (r: bool)
        requires
            old(self).wf(),
            old(self).valid_obj(obj),
        ensures
            final(self).wf(),
            final(self).frame_eq(*old(self)),
            final(self).objects@.len() == old(self).objects@.len(),
            forall|k: int|
                0 <= k < old(self).objects@.len() && k != obj ==> final(self).objects@[k] == old(
                    self,
                ).objects@[k],
            same_but_props(final(self).obj(obj), old(self).obj(obj)),
            ({
                let s = old(self).props_of(obj);
                let i = own_prop_idx(s, key);
                if i >= 0 && s[i].flags & JSPROP_READONLY != 0 {
                    r == false && final(self).props_of(obj) == s
                } else if i >= 0 {
                    r == true && final(self).props_of(obj) == s.update(
                        i,
                        PropEntry {
                            key: s[i].key,
                            value,
                            flags: s[i].flags,
                            getter: s[i].getter,
                            setter: s[i].setter,
                        },
                    )
                } else {
                    r == true && final(self).props_of(obj) == s.push(
                        PropEntry { key, value, flags: JSPROP_ENUMERATE, getter: None, setter: None },
                    )
                }
            }),
    {
        let idx = self.find_own_prop(obj, &key);
        proof {
            lemma_own_prop_idx_char(self.props_of(obj), key);
        }
        match idx {
            Some(i) => {
                if self.objects[obj].props[i].flags & JSPROP_READONLY != 0 {
                    return false;
                }
                self.objects[obj].props[i].value = value;
                proof {
                    assert forall|i2: int| 0 <= i2 < self.objects@.len() implies (
                    #[trigger] self.objects@[i2]).wf(self.classes@.len() as nat, i2 as nat) by {
                        assert(old(self).objects@[i2].wf(
                            old(self).classes@.len() as nat,
                            i2 as nat,
                        ));
                    }
                }
                true
            },
            None => {
                self.objects[obj].props.push(
                    PropEntry { key, value, flags: JSPROP_ENUMERATE, getter: None, setter: None },
                );
                proof {
                    assert forall|i2: int| 0 <= i2 < self.objects@.len() implies (
                    #[trigger] self.objects@[i2]).wf(self.classes@.len() as nat, i2 as nat) by {
                        assert(old(self).objects@[i2].wf(
                            old(self).classes@.len() as nat,
                            i2 as nat,
                        ));
                    }
                }
                true
            },
        }
    }

    /// Deletes an own property; a permanent property refuses.  Deleting an
    /// absent property succeeds vacuously.
    pub fn delete_property(&mut self, obj: ObjId, key: &JsId) -> (r: bool)
        requires
            old(self).wf(),
            old(self).valid_obj(obj),
        ensures
            final(self).wf(),
            final(self).frame_eq(*old(self)),
            final(self).objects@.len() == old(self).objects@.len(),
            forall|k: int|
                0 <= k < old(self).objects@.len() && k != obj ==> final(self).objects@[k] == old(
                    self,
                ).objects@[k],
            same_but_props(final(self).obj(obj), old(self).obj(obj)),
            ({
                let s = old(self).props_of(obj);
                let i = own_prop_idx(s, *key);
                if i == -1 {
                    r == true && final(self).props_of(obj) == s
                } else if s[i].flags & JSPROP_PERMANENT != 0 {
                    r == false && final(self).props_of(obj) == s
                } else {
                    r == true && final(self).props_of(obj) == s.remove(i)
                }
            }),
    {
        let idx = self.find_own_prop(obj, key);
        proof {
            lemma_own_prop_idx_char(self.props_of(obj), *key);
        }
        match idx {
            Some(i) => {
                if self.objects[obj].props[i].flags & JSPROP_PERMANENT != 0 {
                    return false;
                }
                self.objects[obj].props.remove(i);
                proof {
                    assert forall|i2: int| 0 <= i2 < self.objects@.len() implies (
                    #[trigger] self.objects@[i2]).wf(self.classes@.len() as nat, i2 as nat) by {
                        assert(old(self).objects@[i2].wf(
                            old(self).classes@.len() as nat,
                            i2 as nat,
                        ));
                    }
                }
                true
            },
            None => true,
        }
    }

    /// Reads a reserved inline storage slot.
    pub fn get_reserved_slot(&self, obj: ObjId, slot: u32) -> (r: &EngineValue)
        requires
            self.wf(),
            self.valid_obj(obj),
            slot < MAX_FIXED_SLOTS,
        ensures
            *r == self.obj(obj).slots@[slot as int],
    {
        proof {
            assert(self.objects@[obj as int].wf(self.classes@.len() as nat, obj as nat));
        }
        &self.objects[obj].slots[slot as usize]
    }

    /// Writes a reserved inline storage slot.
    pub fn set_reserved_slot(&mut self, obj: ObjId, slot: u32, v: EngineValue)
        requires
            old(self).wf(),
            old(self).valid_obj(obj),
            slot < MAX_FIXED_SLOTS,
        ensures
            final(self).wf(),
            final(self).frame_eq(*old(self)),
            final(self).objects@.len() == old(self).objects@.len(),
            forall|k: int|
                0 <= k < old(self).objects@.len() && k != obj ==> final(self).objects@[k] == old(
                    self,
                ).objects@[k],
            same_but_slots(final(self).obj(obj), old(self).obj(obj)),
            final(self).obj(obj).slots@ == old(self).obj(obj).slots@.update(slot as int, v),
    {
        proof {
            assert(old(self).objects@[obj as int].wf(old(self).classes@.len() as nat, obj as nat));
        }
        self.objects[obj].slots[slot as usize] = v;
        proof {
            assert forall|i2: int| 0 <= i2 < self.objects@.len() implies (
            #[trigger] self.objects@[i2]).wf(self.classes@.len() as nat, i2 as nat) by {
                assert(old(self).objects@[i2].wf(old(self).classes@.len() as nat, i2 as nat));
            }
        }
    }

    /// Exchanges the contents of a reserved inline storage slot, returning
    /// what the slot held.
    pub fn swap_reserved_slot(&mut self, obj: ObjId, slot: u32, v: EngineValue) -> (r: EngineValue)
        requires
            old(self).wf(),
            old(self).valid_obj(obj),
            slot < MAX_FIXED_SLOTS,
        ensures
            final(self).wf(),
            final(self).frame_eq(*old(self)),
            final(self).objects@.len() == old(self).objects@.len(),
            forall|k: int|
                0 <= k < old(self).objects@.len() && k != obj ==> final(self).objects@[k] == old(
                    self,
                ).objects@[k],
            same_but_slots(final(self).obj(obj), old(self).obj(obj)),
            final(self).obj(obj).slots@ == old(self).obj(obj).slots@.update(slot as int, v),
            r == old(self).obj(obj).slots@[slot as int],
    {
        proof {
            assert(old(self).objects@[obj as int].wf(old(self).classes@.len() as nat, obj as nat));
        }
        let r = self.objects[obj].slots[slot as usize].clone();
        self.objects[obj].slots[slot as usize] = v;
        proof {
            assert forall|i2: int| 0 <= i2 < self.objects@.len() implies (
            #[trigger] self.objects@[i2]).wf(self.classes@.len() as nat, i2 as nat) by {
                assert(old(self).objects@[i2].wf(old(self).classes@.len() as nat, i2 as nat));
            }
        }
        r
    }

    /// Stores a freshly built interface or prototype object in the global's
    /// interface table.
    pub fn set_proto_or_iface(&mut self, global: ObjId, index: usize, obj: ObjId)
        requires
            old(self).wf(),
            old(self).valid_obj(global),
            old(self).obj(global).global_initialized(),
            index < PROTOTYPE_ID_COUNT,
        ensures
            final(self).wf(),
            final(self).frame_eq(*old(self)),
            final(self).objects@.len() == old(self).objects@.len(),
            forall|k: int|
                0 <= k < old(self).objects@.len() && k != global ==> final(self).objects@[k] == old(
                    self,
                ).objects@[k],
            same_but_iface(final(self).obj(global), old(self).obj(global)),
            final(self).obj(global).iface_table@ == old(self).obj(global).iface_table@.update(
                index as int,
                Some(obj),
            ),
    {
        self.objects[global].iface_table[index] = Some(obj);
        proof {
            assert forall|i2: int| 0 <= i2 < self.objects@.len() implies (
            #[trigger] self.objects@[i2]).wf(self.classes@.len() as nat, i2 as nat) by {
                assert(old(self).objects@[i2].wf(old(self).classes@.len() as nat, i2 as nat));
            }
        }
    }

    /// Registers a named prototype object on the global scope's registry.
    pub fn stash_global_proto(&mut self, name: String, obj: ObjId)
        requires
            old(self).wf(),
            old(self).valid_obj(obj),
        ensures
            final(self).wf(),
            final(self).global_protos@ == old(self).global_protos@.push((name, obj)),
            final(self).objects == old(self).objects,
            final(self).classes == old(self).classes,
            final(self).global == old(self).global,
            final(self).function_class == old(self).function_class,
            final(self).function_prototype == old(self).function_prototype,
    {
        self.global_protos.push((name, obj));
    }

    /// Looks a stashed prototype up by name.
    pub fn lookup_global_proto(&self, name: &String) -> (r: Option<ObjId>)
        requires
            self.wf(),
        ensures
            match r {
                Some(o) => proto_reg_idx(self.global_protos@, name@) >= 0
                    && self.global_protos@[proto_reg_idx(self.global_protos@, name@)].1 == o
                    && self.valid_obj(o),
                None => proto_reg_idx(self.global_protos@, name@) == -1,
            },
    {
        let n = self.global_protos.len();
        let mut i: usize = 0;
        while i < n
            invariant
                self.wf(),
                n == self.global_protos@.len(),
                i <= n,
                forall|j: int| 0 <= j < i ==> (#[trigger] self.global_protos@[j]).0@ != name@,
            decreases n - i,
        {
            if self.global_protos[i].0.eq(name) {
                proof {
                    lemma_proto_reg_idx_is(self.global_protos@, name@, i as int);
                    assert(self.global_protos@[i as int].1 < self.objects@.len());
                }
                return Some(self.global_protos[i].1);
            }
            i = i + 1;
        }
        proof {
            lemma_proto_reg_idx_is(self.global_protos@, name@, n as int);
        }
        None
    }
}

/// Installs the per-global interface/prototype table on a freshly created
/// global: one empty slot per known interface identifier.
pub fn initialize_global(engine: &mut Engine, global: ObjId)
    requires
        old(engine).wf(),
        old(engine).valid_obj(global),
    ensures
        final(engine).wf(),
        final(engine).frame_eq(*old(engine)),
        final(engine).objects@.len() == old(engine).objects@.len(),
        forall|k: int|
            0 <= k < old(engine).objects@.len() && k != global ==> final(engine).objects@[k] == old(
                engine,
            ).objects@[k],
        same_but_iface(final(engine).obj(global), old(engine).obj(global)),
        final(engine).obj(global).global_initialized(),
        forall|i: int|
            0 <= i < PROTOTYPE_ID_COUNT ==> (#[trigger] final(engine).obj(
                global,
            ).iface_table@[i]) is None,
{
    let mut t: Vec<Option<ObjId>> = Vec::new();
    let mut i: usize = 0;
    while i < PROTOTYPE_ID_COUNT
        invariant
            i <= PROTOTYPE_ID_COUNT,
            t@.len() == i,
            forall|j: int| 0 <= j < i ==> (#[trigger] t@[j]) is None,
        decreases PROTOTYPE_ID_COUNT - i,
    {
        t.push(None);
        i = i + 1;
    }
    engine.objects[global].iface_table = t;
    proof {
        assert forall|i2: int| 0 <= i2 < engine.objects@.len() implies (
        #[trigger] engine.objects@[i2]).wf(engine.classes@.len() as nat, i2 as nat) by {
            assert(old(engine).objects@[i2].wf(old(engine).classes@.len() as nat, i2 as nat));
        }
    }
}

/// The per-global interface/prototype table of an initialized global.
pub fn GetProtoOrIfaceArray<'a>(engine: &'a Engine, global: ObjId) -> (r: &'a Vec<Option<ObjId>>)
    requires
        engine.valid_obj(global),
        engine.obj(global).global_initialized(),
    ensures
        *r == engine.obj(global).iface_table,
{
    &engine.objects[global].iface_table
}

/// Whether `target` appears on the prototype chain of `o` (including `o`
/// itself).  Chains are finite because a prototype link always points to an
/// older object.
pub open spec fn chain_contains(e: Engine, o: ObjId, target: ObjId) -> bool
    decreases o,
{
    if o == target {
        true
    } else {
        match e.objects@[o as int].proto {
            Some(p) => if p < o {
                chain_contains(e, p, target)
            } else {
                false
            },
            None => false,
        }
    }
}

/// Answers `instanceof`: walks the prototype chain of the candidate value's
/// object looking for the interface object.  A value that is not an object is
/// never an instance.
pub fn has_instance(engine: &Engine, obj: ObjId, v: &EngineValue) -> (r: bool)
    requires
        engine.wf(),
        engine.valid_obj(obj),
        match *v {
            EngineValue::ObjectValue(o) => engine.valid_obj(o),
            _ => true,
        },
    ensures
        r == match *v {
            EngineValue::ObjectValue(o) => chain_contains(*engine, o, obj),
            _ => false,
        },
{
    let start: ObjId = match v {
        EngineValue::ObjectValue(o) => *o,
        _ => {
            return false;
        },
    };
    let mut cur: ObjId = start;
    loop
        invariant
            engine.wf(),
            engine.valid_obj(cur),
            engine.valid_obj(obj),
            *v == EngineValue::ObjectValue(start),
            chain_contains(*engine, start, obj) == chain_contains(*engine, cur, obj),
        decreases cur,
    {
        if cur == obj {
            return true;
        }
        proof {
            assert(engine.objects@[cur as int].wf(engine.classes@.len() as nat, cur as nat));
        }
        match engine.objects[cur].proto {
            Some(p) => {
                cur = p;
            },
            None => {
                return false;
            },
        }
    }
}

/// Index in the global-prototype registry of the first entry with the given
/// name, or -1.
pub open spec fn proto_reg_idx(s: Seq<(String, ObjId)>, name: Seq<char>) -> int
    decreases s.len(),
{
    if s.len() == 0 {
        -1
    } else if s[0].0@ == name {
        0
    } else {
        let r = proto_reg_idx(s.drop_first(), name);
        if r == -1 {
            -1
        } else {
            r + 1
        }
    }
}

/// Registry lookup finds the first entry carrying the name.
pub proof fn lemma_proto_reg_idx_is(s: Seq<(String, ObjId)>, name: Seq<char>, i: int)
    requires
        0 <= i <= s.len(),
        forall|j: int| 0 <= j < i ==> (#[trigger] s[j]).0@ != name,
        i == s.len() || s[i].0@ == name,
    ensures
        proto_reg_idx(s, name) == if i == s.len() {
            -1
        } else {
            i
        },
    decreases i,
{
    if s.len() == 0 {
    } else if i == 0 {
    } else {
        assert forall|j: int| 0 <= j < i - 1 implies (#[trigger] s.drop_first()[j]).0@ != name by {
            assert(s.drop_first()[j] == s[j + 1]);
        }
        if i < s.len() {
            assert(s.drop_first()[i - 1] == s[i]);
        }
        lemma_proto_reg_idx_is(s.drop_first(), name, i - 1);
    }
}

} // verus!
