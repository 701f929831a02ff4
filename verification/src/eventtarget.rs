//! A minimal native type that carries a wrapper cache: the smallest consumer
//! of the binding layer, showing how a native value is wrapped, embedded and
//! recovered.

use vstd::prelude::*;

use crate::engine::{DOMClass, Engine, DOM_OBJECT_SLOT};
use crate::interface::instance_jsclass;
use crate::tag;
use crate::values::{EngineValue, NativeValue, ObjId};
use crate::wrapper::{BindingObject, CacheableWrapper, JSManaged, WrapperCache};

verus! {

/// The interface identifier the event-target example occupies in the
/// prototype table.
pub const EVENT_TARGET_INTERFACE_ID: u32 = 0;

/// A native event target: it owns nothing but its wrapper cache.
#[derive(Clone, Copy)]
pub struct EventTarget {
    pub wrapper: WrapperCache,
}

impl EventTarget {
    /// Creates a fresh native event target and wraps it; the engine object
    /// comes back as a typed handle.  A fresh cache holds no wrapper, so
    /// wrapping materializes one: the handle names a new object that embeds
    /// the native, whose cache records the handle back.
    pub fn new(engine: &mut Engine) -> (r: Option<JSManaged>)
        requires
            old(engine).wf(),
        ensures
            final(engine).wf(),
            r matches Some(m) && ({
                &&& m.wrapper == old(engine).objects@.len()
                &&& final(engine).valid_obj(m.wrapper)
                &&& tag::dom_class_of(*final(engine), m.wrapper) is Some
                &&& (tag::native_of(*final(engine), m.wrapper) matches Some(n)
                    && crate::values::native_cached_wrapper(n) == Some(m.wrapper))
            }),
    {
        let target = EventTarget { wrapper: WrapperCache::new() };
        match target.init_wrapper(engine) {
            Some(w) => Some(JSManaged::from_raw(w)),
            None => None,
        }
    }
}

impl CacheableWrapper for EventTarget {
    open spec fn cached_wrapper(&self) -> Option<ObjId> {
        self.wrapper.wrapper
    }

    fn get_wrappercache(&self) -> (r: &WrapperCache) {
        &self.wrapper
    }

    /// What the generated binding's wrap routine does: register the instance
    /// class, create the instance object in the given scope, record the
    /// wrapper in the native's own cache, and embed the native — cache and
    /// all — in the object's inline storage.
    fn wrap_object_shared(self, engine: &mut Engine, scope: ObjId) -> (r: Option<ObjId>)
        ensures
            r matches Some(w) && ({
                &&& w == old(engine).objects@.len()
                &&& final(engine).valid_obj(w)
                &&& tag::dom_class_of(*final(engine), w) is Some
                &&& (tag::native_of(*final(engine), w) matches Some(
                    NativeValue::EventTargetValue(t),
                ) && t.wrapper.wrapper == Some(w))
            }),
    {
        let mut this = self;
        let dom_class = DOMClass {
            interface_chain: [
                EVENT_TARGET_INTERFACE_ID,
                EVENT_TARGET_INTERFACE_ID,
                EVENT_TARGET_INTERFACE_ID,
            ],
            unused: false,
            native_hooks: None,
        };
        let entry = instance_jsclass("EventTarget".to_owned(), None, None, dom_class);
        let cid = engine.register_class(entry);
        let obj = engine.new_object(cid, None, Some(scope));
        this.wrapper.set_wrapper(obj);
        engine.set_reserved_slot(
            obj,
            DOM_OBJECT_SLOT,
            EngineValue::NativeStorage(NativeValue::EventTargetValue(this)),
        );
        Some(obj)
    }

    /// Materializes the wrapper in the native's own scope — the global — by
    /// the shared wrap routine; the routine records the wrapper in the cache
    /// before handing the object back.
    fn init_wrapper(self, engine: &mut Engine) -> (r: Option<ObjId>)
        ensures
            r matches Some(w) && ({
                &&& w == old(engine).objects@.len()
                &&& final(engine).valid_obj(w)
                &&& tag::dom_class_of(*final(engine), w) is Some
                &&& (tag::native_of(*final(engine), w) matches Some(n)
                    && crate::values::native_cached_wrapper(n) == Some(w))
            }),
    {
        let scope = engine.global;
        self.wrap_object_shared(engine, scope)
    }
}

impl BindingObject for EventTarget {
    /// The logical owner of an event target is its global scope.
    fn GetParentObject(&self, engine: &Engine) -> (r: ObjId) {
        engine.global
    }
}

} // verus!
