//! Exotic property forwarding for proxy-backed objects: array-index key
//! extraction and forwarding unresolved lookups to the prototype.

use vstd::prelude::*;

use crate::engine::{has_own_prop, own_prop, Engine};
use crate::values::{EngineValue, JsId, ObjId};

verus! {

/// Extracts the array index of an integer-valued property key.  Whether a
/// literal `length`-like key or a decimal-string key should also count as
/// array-like is intentionally left undefined here, to be settled by the
/// interfaces that need indexed proxies; only integer keys are recognized.
pub fn GetArrayIndexFromId(id: &JsId) -> (r: Option<u32>)
    ensures
        r == match *id {
            JsId::IntId(i) => Some(i),
            _ => None::<u32>,
        },
{
    match id {
        JsId::IntId(i) => Some(*i),
        _ => None,
    }
}

/// Forwards a property lookup that the proxy did not resolve to its
/// prototype.
///
/// - With no prototype: reports not-found, without error.
/// - The prototype does not own the key: reports not-found.
/// - A value was requested and the owned property is a plain data property:
///   reports found with the property's value; the original object stands as
///   the receiver, which a data property ignores.
/// - A value was requested but the property is backed by a native accessor
///   hook: the hook comes from outside this layer, and the forwarding get is
///   reported as an engine failure.
/// - No value was requested: reports found without fetching one.
pub fn GetPropertyOnPrototype<'a>(
    engine: &'a Engine,
    proxy: ObjId,
    id: &JsId,
    want_value: bool,
) -> (r: Result<(bool, Option<&'a EngineValue>), ()>)
    requires
        engine.wf(),
        engine.valid_obj(proxy),
    ensures
        match engine.obj(proxy).proto {
            None => r matches Ok((found, vopt)) && found == false && vopt is None,
            Some(p) => match r {
                Ok((found, vopt)) => {
                    &&& found == has_own_prop(engine.props_of(p), *id)
                    &&& if found && want_value {
                        own_prop(engine.props_of(p), *id).getter is None && match vopt {
                            Some(v) => *v == own_prop(engine.props_of(p), *id).value,
                            None => false,
                        }
                    } else {
                        vopt is None
                    }
                },
                Err(()) => has_own_prop(engine.props_of(p), *id) && want_value && own_prop(
                    engine.props_of(p),
                    *id,
                ).getter is Some,
            },
        },
{
    proof {
        assert(engine.objects@[proxy as int].wf(engine.classes@.len() as nat, proxy as nat));
    }
    let proto: ObjId = match engine.objects[proxy].proto {
        Some(p) => p,
        None => {
            return Ok((false, None));
        },
    };
    match engine.get_own_property(proto, id) {
        None => Ok((false, None)),
        Some(entry) => {
            if !want_value {
                return Ok((true, None));
            }
            match entry.getter {
                Some(_) => Err(()),
                None => Ok((true, Some(&entry.value))),
            }
        },
    }
}

} // verus!
