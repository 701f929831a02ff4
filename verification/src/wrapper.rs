//! The wrapper cache, the typed handle onto an engine object, and the
//! capabilities native types offer the binding layer.

use vstd::prelude::*;

use crate::engine::{
    same_but_slots, Engine, DOM_OBJECT_SLOT, DOM_PROXY_OBJECT_SLOT, MAX_FIXED_SLOTS,
};
use crate::tag;
use crate::values::{native_cached_wrapper, EngineValue, NativeValue, ObjId};
use vstd::pervasive::unreached;

verus! {

/// The one-per-native-object back-reference to that object's engine wrapper.
/// It is empty until the wrapper has been created, and once set it is the
/// memoization point that keeps wrapping idempotent.
pub struct WrapperCache {
    pub wrapper: Option<ObjId>,
}

impl WrapperCache {
    /// The cached wrapper, if one has been created.
    pub fn get_wrapper(&self) -> (r: Option<ObjId>)
        ensures
            r == self.wrapper,
    {
        self.wrapper
    }

    /// Records the freshly created wrapper.
    pub fn set_wrapper(&mut self, wrapper: ObjId)
        ensures
            final(self).wrapper == Some(wrapper),
    {
        self.wrapper = Some(wrapper);
    }

    /// A cache with no wrapper yet.
    pub fn new() -> (r: WrapperCache)
        ensures
            r.wrapper is None,
    {
        WrapperCache { wrapper: None }
    }
}

impl Clone for WrapperCache {
    fn clone(&self) -> (r: Self)
        ensures
            r == *self,
    {
        WrapperCache { wrapper: self.wrapper }
    }
}

impl Copy for WrapperCache {

}

/// The capability a native type offers the binding layer: expose its wrapper
/// cache, and materialize its wrapper into the engine.
pub trait CacheableWrapper: Sized {
    /// The wrapper recorded in the native's cache.
    spec fn cached_wrapper(&self) -> Option<ObjId>;

    /// The native's wrapper cache.
    fn get_wrappercache(&self) -> (r: &WrapperCache)
        ensures
            r.wrapper == self.cached_wrapper(),
    ;

    /// Wraps the native into the given scope, consuming it into the engine's
    /// storage.  A materialized wrapper holds the native in its checked
    /// storage, and the stored native's cache records that same wrapper: the
    /// assignment happens before the call returns.
    fn wrap_object_shared(self, engine: &mut Engine, scope: ObjId) -> (r: Option<ObjId>)
        requires
            old(engine).wf(),
            old(engine).valid_obj(scope),
        ensures
            final(engine).wf(),
            match r {
                Some(w) => {
                    &&& final(engine).valid_obj(w)
                    &&& old(engine).objects@.len() <= final(engine).objects@.len()
                    &&& tag::dom_class_of(*final(engine), w) is Some
                    &&& (tag::native_of(*final(engine), w) matches Some(n)
                        && native_cached_wrapper(n) == Some(w))
                },
                None => true,
            },
    ;

    /// Materializes the native's engine wrapper in its own scope, consuming
    /// the native into the engine's storage; the wrapper is assigned into the
    /// stored native's cache before the call returns.
    fn init_wrapper(self, engine: &mut Engine) -> (r: Option<ObjId>)
        requires
            old(engine).wf(),
        ensures
            final(engine).wf(),
            match r {
                Some(w) => {
                    &&& final(engine).valid_obj(w)
                    &&& old(engine).objects@.len() <= final(engine).objects@.len()
                    &&& tag::dom_class_of(*final(engine), w) is Some
                    &&& (tag::native_of(*final(engine), w) matches Some(n)
                        && native_cached_wrapper(n) == Some(w))
                },
                None => true,
            },
    ;
}

/// The capability of reporting a logical parent/owner object, used for scope
/// resolution when a wrapper is created.
pub trait BindingObject {
    /// The object whose scope owns this native.
    fn GetParentObject(&self, engine: &Engine) -> (r: ObjId)
        requires
            engine.wf(),
        ensures
            engine.valid_obj(r),
    ;
}

/// What wrapping yields, given the cache's state and the wrapper a fresh
/// construction would produce: a cached wrapper is always reused.
pub open spec fn wrap_of(cached: Option<ObjId>, fresh: Option<ObjId>) -> Option<ObjId> {
    match cached {
        Some(w) => Some(w),
        None => fresh,
    }
}

/// Identity preservation: wrapping a native whose cache already holds a
/// wrapper yields exactly that wrapper, whatever a fresh construction would
/// have produced — so wrapping the same native twice yields the same engine
/// object both times.
pub proof fn lemma_wrap_identity(w: ObjId, fresh1: Option<ObjId>, fresh2: Option<ObjId>)
    ensures
        wrap_of(Some(w), fresh1) == Some(w),
        wrap_of(wrap_of(Some(w), fresh1), fresh2) == wrap_of(Some(w), fresh1),
{
}

/// An opaque, copyable handle pairing a native value with its engine object.
#[derive(Clone, Copy)]
pub struct JSManaged {
    pub wrapper: ObjId,
}

impl JSManaged {
    /// Whether a native of the given size (in storage slots) fits the inline
    /// storage a plain object offers it.
    pub fn sanity_check(size_in_slots: u32) -> (r: bool)
        ensures
            r == (size_in_slots <= MAX_FIXED_SLOTS - DOM_OBJECT_SLOT),
    {
        size_in_slots <= MAX_FIXED_SLOTS - DOM_OBJECT_SLOT
    }

    /// Whether a native of the given size (in storage slots) fits the inline
    /// storage a proxy-backed object offers it.
    pub fn sanity_check_proxy(size_in_slots: u32) -> (r: bool)
        ensures
            r == (size_in_slots <= MAX_FIXED_SLOTS - DOM_PROXY_OBJECT_SLOT),
    {
        size_in_slots <= MAX_FIXED_SLOTS - DOM_PROXY_OBJECT_SLOT
    }

    /// Wraps a native value: reuses the cached wrapper when one exists,
    /// otherwise asks the native to materialize one, which records itself in
    /// the same cache before returning.  A construction routine that yields
    /// no wrapper violates a programmer invariant; that outcome is reported
    /// as `None` rather than as a partial handle.
    pub fn new<T: CacheableWrapper>(engine: &mut Engine, wrapped: T) -> (r: Option<JSManaged>)
        requires
            old(engine).wf(),
        ensures
            final(engine).wf(),
            match wrapped.cached_wrapper() {
                Some(w) => r == Some(JSManaged { wrapper: w }) && *final(engine) == *old(engine),
                None => match r {
                    Some(m) => {
                        &&& final(engine).valid_obj(m.wrapper)
                        &&& tag::dom_class_of(*final(engine), m.wrapper) is Some
                        &&& (tag::native_of(*final(engine), m.wrapper) matches Some(n)
                            && native_cached_wrapper(n) == Some(m.wrapper))
                    },
                    None => true,
                },
            },
            match r {
                Some(m) => wrap_of(wrapped.cached_wrapper(), Some(m.wrapper)) == Some(m.wrapper),
                None => true,
            },
    {
        let cached = wrapped.get_wrappercache().get_wrapper();
        match cached {
            Some(w) => Some(JSManaged { wrapper: w }),
            None => match wrapped.init_wrapper(engine) {
                Some(w) => Some(JSManaged { wrapper: w }),
                None => None,
            },
        }
    }

    /// Wraps an already-existing engine object with no identity lookup; the
    /// caller has established the object's interface through the type-tag
    /// check.
    pub fn from_raw(wrapper: ObjId) -> (r: JSManaged)
        ensures
            r.wrapper == wrapper,
    {
        JSManaged { wrapper }
    }

    /// Scoped immutable access to the native value behind the handle: the
    /// borrow cannot outlive the engine borrow it is carved from.
    pub fn with_imm<'a>(&self, engine: &'a Engine) -> (r: &'a NativeValue)
        requires
            engine.wf(),
            engine.valid_obj(self.wrapper),
            tag::dom_class_of(*engine, self.wrapper) is Some,
            tag::native_of(*engine, self.wrapper) is Some,
        ensures
            Some(*r) == tag::native_of(*engine, self.wrapper),
    {
        tag::unwrap(engine, self.wrapper)
    }

    /// Scoped mutable access to the native value behind the handle, expressed
    /// as an exchange: the replacement moves into the object's storage and
    /// the stored native moves out.  The replacement must keep the
    /// back-reference to this wrapper, so handle identity survives.
    pub fn with_mut(&self, engine: &mut Engine, replacement: NativeValue) -> (r: NativeValue)
        requires
            old(engine).wf(),
            old(engine).valid_obj(self.wrapper),
            tag::dom_class_of(*old(engine), self.wrapper) is Some,
            tag::native_of(*old(engine), self.wrapper) is Some,
            native_cached_wrapper(replacement) == Some(self.wrapper),
        ensures
            final(engine).wf(),
            final(engine).frame_eq(*old(engine)),
            final(engine).objects@.len() == old(engine).objects@.len(),
            forall|k: int|
                0 <= k < old(engine).objects@.len() && k != self.wrapper
                    ==> final(engine).objects@[k] == old(engine).objects@[k],
            same_but_slots(final(engine).obj(self.wrapper), old(engine).obj(self.wrapper)),
            Some(r) == tag::native_of(*old(engine), self.wrapper),
            tag::native_of(*final(engine), self.wrapper) == Some(replacement),
    {
        proof {
            assert(old(engine).objects@[self.wrapper as int].wf(
                old(engine).classes@.len() as nat,
                self.wrapper as nat,
            ));
        }
        let slot: u32 = match &engine.classes[engine.objects[self.wrapper].class] {
            crate::engine::ClassEntry::Dom(_) => DOM_OBJECT_SLOT,
            crate::engine::ClassEntry::Plain(_) => DOM_PROXY_OBJECT_SLOT,
        };
        let stored = engine.swap_reserved_slot(
            self.wrapper,
            slot,
            EngineValue::NativeStorage(replacement),
        );
        match stored {
            EngineValue::NativeStorage(n) => n,
            _ => unreached(),
        }
    }
}

/// Wraps a freshly created binding object into the calling scope and hands
/// back its value representation.  The model has a single scope, where the
/// engine's same-semantics re-wrap is the identity and always succeeds.
pub fn WrapNewBindingObject(
    engine: &Engine,
    _scope: ObjId,
    obj: ObjId,
    vp: &mut EngineValue,
) -> (r: bool)
    requires
        engine.valid_obj(obj),
    ensures
        r == true,
        *final(vp) == EngineValue::ObjectValue(obj),
{
    *vp = EngineValue::ObjectValue(obj);
    true
}

} // verus!
