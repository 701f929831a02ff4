//! The type-tag gate: classifying an engine object as a native-storage
//! object, recovering its interface metadata, and the checked
//! reinterpretation of its inline storage.

use vstd::prelude::*;

use crate::engine::{
    ClassEntry, DOMClass, Engine, JSClass, DOM_OBJECT_SLOT, DOM_PROXY_OBJECT_SLOT,
    JSCLASS_IS_INLINE_DOMJSCLASS, MAX_PROTOTYPE_CHAIN,
};
use crate::values::{EngineValue, NativeValue, ObjId};
use vstd::pervasive::unreached;

verus! {

/// Whether the class marks instances that embed a native value in their
/// inline storage.
pub fn is_dom_class(clasp: &JSClass) -> (r: bool)
    ensures
        r == (clasp.flags & JSCLASS_IS_INLINE_DOMJSCLASS != 0),
{
    clasp.flags & JSCLASS_IS_INLINE_DOMJSCLASS != 0
}

/// Whether the object is a proxy whose handler carries interface metadata.
pub fn is_dom_proxy(engine: &Engine, obj: ObjId) -> (r: bool)
    requires
        engine.valid_obj(obj),
    ensures
        r == (engine.obj(obj).is_proxy && engine.obj(obj).proxy_extra is Some),
{
    let o = &engine.objects[obj];
    o.is_proxy && o.proxy_extra.is_some()
}

/// The interface metadata of an object, where it has any: read from the class
/// descriptor of a native-storage class, or from the proxy handler's extra
/// data of a recognized proxy.  An object with neither is not a native-backed
/// object.
pub open spec fn dom_class_of(e: Engine, obj: ObjId) -> Option<DOMClass> {
    match e.classes@[e.obj(obj).class as int] {
        ClassEntry::Dom(d) => Some(d.dom_class),
        ClassEntry::Plain(_) => match e.obj(obj).proxy_extra {
            Some(dc) => if e.obj(obj).is_proxy {
                Some(dc)
            } else {
                None
            },
            None => None,
        },
    }
}

/// Classifies the object: its interface metadata where it is a native-backed
/// object, an error where it is not.  This is the one polymorphic accessor
/// over the two metadata representations (class descriptor and proxy extra
/// data).
pub fn get_dom_class(engine: &Engine, obj: ObjId) -> (r: Result<DOMClass, ()>)
    requires
        engine.wf(),
        engine.valid_obj(obj),
    ensures
        match r {
            Ok(dc) => dom_class_of(*engine, obj) == Some(dc),
            Err(()) => dom_class_of(*engine, obj) is None,
        },
{
    proof {
        assert(engine.objects@[obj as int].wf(engine.classes@.len() as nat, obj as nat));
    }
    let clasp = &engine.classes[engine.objects[obj].class];
    match clasp {
        ClassEntry::Dom(d) => Ok(d.dom_class),
        ClassEntry::Plain(_) => {
            if is_dom_proxy(engine, obj) {
                match &engine.objects[obj].proxy_extra {
                    Some(dc) => Ok(*dc),
                    None => unreached(),
                }
            } else {
                Err(())
            }
        },
    }
}

/// The type check that gates storage reinterpretation: the object carries
/// interface metadata whose chain names `proto_id` at depth `proto_depth`.
pub open spec fn check_interface_spec(
    e: Engine,
    obj: ObjId,
    proto_id: u32,
    proto_depth: int,
) -> bool {
    match dom_class_of(e, obj) {
        Some(dc) => dc.interface_chain@[proto_depth] == proto_id,
        None => false,
    }
}

/// Checks that the object genuinely implements the interface `proto_id` at
/// ancestor depth `proto_depth`: classification composed with an exact-match
/// comparison against the bounded interface chain.  Callers must obtain this
/// check (or rely on a caller that has) before reinterpreting storage.
pub fn can_unwrap_object(engine: &Engine, obj: ObjId, proto_id: u32, proto_depth: usize) -> (r:
    Result<(), ()>)
    requires
        engine.wf(),
        engine.valid_obj(obj),
        proto_depth < MAX_PROTOTYPE_CHAIN,
    ensures
        r is Ok <==> check_interface_spec(*engine, obj, proto_id, proto_depth as int),
{
    match get_dom_class(engine, obj) {
        Ok(dom_class) => {
            if dom_class.interface_chain[proto_depth] == proto_id {
                Ok(())
            } else {
                Err(())
            }
        },
        Err(()) => Err(()),
    }
}

/// Which inline storage slot holds the native value: native-storage classes
/// embed it at the plain object slot, recognized proxies at the proxy slot.
pub open spec fn native_storage_slot(e: Engine, obj: ObjId) -> int {
    match e.classes@[e.obj(obj).class as int] {
        ClassEntry::Dom(_) => DOM_OBJECT_SLOT as int,
        ClassEntry::Plain(_) => DOM_PROXY_OBJECT_SLOT as int,
    }
}

/// The native value embedded in the object's inline storage, where the slot
/// its kind selects holds one.
pub open spec fn native_of(e: Engine, obj: ObjId) -> Option<NativeValue> {
    match e.obj(obj).slots@[native_storage_slot(e, obj)] {
        EngineValue::NativeStorage(n) => Some(n),
        _ => None,
    }
}

/// Reinterprets the object's inline storage as the embedded native value.
/// The interface metadata is a mandatory precondition: the storage is reached
/// only through the checked tag, never by a blind cast.
pub fn unwrap<'a>(engine: &'a Engine, obj: ObjId) -> (r: &'a NativeValue)
    requires
        engine.wf(),
        engine.valid_obj(obj),
        dom_class_of(*engine, obj) is Some,
        native_of(*engine, obj) is Some,
    ensures
        Some(*r) == native_of(*engine, obj),
{
    proof {
        assert(engine.objects@[obj as int].wf(engine.classes@.len() as nat, obj as nat));
    }
    let clasp = &engine.classes[engine.objects[obj].class];
    let slot: usize = match clasp {
        ClassEntry::Dom(_) => DOM_OBJECT_SLOT as usize,
        ClassEntry::Plain(_) => DOM_PROXY_OBJECT_SLOT as usize,
    };
    match &engine.objects[obj].slots[slot] {
        EngineValue::NativeStorage(n) => n,
        _ => unreached(),
    }
}

/// Type-chain soundness: an object that carries interface metadata passes the
/// interface check, at every depth, exactly for the interface its chain names
/// there, and fails there for every other interface identifier.
pub proof fn lemma_type_chain_soundness(e: Engine, obj: ObjId, depth: int, other: u32)
    requires
        dom_class_of(e, obj) is Some,
        0 <= depth < MAX_PROTOTYPE_CHAIN,
    ensures
        check_interface_spec(e, obj, dom_class_of(e, obj)->Some_0.interface_chain@[depth], depth),
        other != dom_class_of(e, obj)->Some_0.interface_chain@[depth] ==> !check_interface_spec(
            e,
            obj,
            other,
            depth,
        ),
{
}

} // verus!
