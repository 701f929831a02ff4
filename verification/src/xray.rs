//! Privileged-view attribute reconstruction: resolving a property on a
//! foreign view of an object by rebuilding fresh accessor function objects
//! from the static attribute table at every resolution.

use vstd::prelude::*;

use crate::engine::{Engine, JSPROP_GETTER, JSPROP_NATIVE_ACCESSORS, JSPROP_SETTER};
use crate::interface::JSPropertySpec;
use crate::values::{id_eq, jsid_eq, JsId, ObjId};

verus! {

/// A property descriptor under construction during a privileged resolution.
pub struct JSPropertyDescriptor {
    pub attrs: u32,
    pub getter: Option<ObjId>,
    pub setter: Option<ObjId>,
}

/// Index of the last attribute entry whose interned id matches the requested
/// key (a void id never matches), or -1 when none does.
pub open spec fn xray_match_idx(s: Seq<(JSPropertySpec, JsId)>, id: JsId) -> int
    decreases s.len(),
{
    if s.len() == 0 {
        -1
    } else {
        let last = s.len() - 1;
        if !(s[last].1 is VoidId) && id_eq(s[last].1, id) {
            last
        } else {
            xray_match_idx(s.drop_last(), id)
        }
    }
}

/// The descriptor attributes a resolved attribute carries: the spec's flags
/// with the native-accessor marker stripped and the getter (and, where a
/// setter exists, setter) markers added.
pub open spec fn xray_attrs_of(a: JSPropertySpec) -> u32 {
    if a.setter.op is Some {
        ((a.flags & !JSPROP_NATIVE_ACCESSORS) | JSPROP_GETTER) | JSPROP_SETTER
    } else {
        (a.flags & !JSPROP_NATIVE_ACCESSORS) | JSPROP_GETTER
    }
}

/// The descriptor reflects the attribute: fresh anonymous function objects
/// stand behind its getter and, exactly where the attribute defines one, its
/// setter, each carrying the accessor's native operation and its engine-level
/// type metadata.
pub open spec fn xray_desc_matches(e: Engine, d: JSPropertyDescriptor, a: JSPropertySpec) -> bool {
    &&& d.attrs == xray_attrs_of(a)
    &&& match d.getter {
        Some(g) => e.valid_obj(g) && (e.obj(g).function matches Some(fd)
            && crate::engine::function_data_is(
            fd,
            a.getter.op->Some_0,
            0,
            0,
            None,
            Some(a.getter.info),
        )),
        None => false,
    }
    &&& match a.setter.op {
        Some(sop) => d.setter matches Some(s) && e.valid_obj(s) && (e.obj(s).function matches Some(
            fd,
        ) && crate::engine::function_data_is(fd, sop, 1, 0, None, Some(a.setter.info))),
        None => d.setter is None,
    }
}

/// The last match, where there is one, lies inside the table.
proof fn lemma_xray_match_idx_range(s: Seq<(JSPropertySpec, JsId)>, id: JsId)
    ensures
        -1 <= xray_match_idx(s, id) < s.len(),
    decreases s.len(),
{
    if s.len() > 0 {
        let last = s.len() - 1;
        if !(!(s[last].1 is VoidId) && id_eq(s[last].1, id)) {
            lemma_xray_match_idx_range(s.drop_last(), id);
        }
    }
}

/// Extending the table by one entry moves the last match to that entry when
/// it matches, and keeps it otherwise.
proof fn lemma_xray_match_idx_step(s: Seq<(JSPropertySpec, JsId)>, id: JsId, i: int)
    requires
        0 <= i < s.len(),
    ensures
        xray_match_idx(s.take(i + 1), id) == if !(s[i].1 is VoidId) && id_eq(s[i].1, id) {
            i
        } else {
            xray_match_idx(s.take(i), id)
        },
{
    assert(s.take(i + 1).drop_last() =~= s.take(i));
    assert(s.take(i + 1)[i] == s[i]);
}

/// Resolves a property on a privileged (xray) view of a wrapper: scans the
/// attribute table for entries whose interned id matches the requested key
/// and, for the match, fills the descriptor with the attribute's flags and
/// freshly built getter and setter function objects — rebuilt on every
/// resolution, cached nowhere.  Each rebuilt accessor carries the
/// attribute's native operation and its engine-level type metadata.  The
/// method and constant tables play no part in attribute resolution.
pub fn XrayResolveProperty(
    engine: &mut Engine,
    _wrapper: ObjId,
    id: &JsId,
    desc: &mut JSPropertyDescriptor,
    _methods: Option<&Vec<(crate::interface::JSFunctionSpec, JsId)>>,
    attributes: Option<&Vec<(JSPropertySpec, JsId)>>,
    _constants: Option<&Vec<(crate::values::ConstantSpec, JsId)>>,
) -> (r: bool)
    requires
        old(engine).wf(),
        match attributes {
            Some(s) => forall|j: int|
                0 <= j < s@.len() && !((#[trigger] s@[j]).1 is VoidId) && id_eq(s@[j].1, *id)
                    ==> s@[j].0.getter.op is Some,
            None => true,
        },
    ensures
        r == true,
        final(engine).wf(),
        final(engine).frame_eq(*old(engine)),
        old(engine).objects@.len() <= final(engine).objects@.len(),
        forall|k: int|
            0 <= k < old(engine).objects@.len() ==> final(engine).objects@[k] == old(
                engine,
            ).objects@[k],
        match attributes {
            None => *final(engine) == *old(engine) && *final(desc) == *old(desc),
            Some(s) => {
                let m = xray_match_idx(s@, *id);
                if m == -1 {
                    *final(engine) == *old(engine) && *final(desc) == *old(desc)
                } else {
                    xray_desc_matches(*final(engine), *final(desc), s@[m].0)
                }
            },
        },
{
    let attrs = match attributes {
        Some(a) => a,
        None => {
            return true;
        },
    };
    let n = attrs.len();
    let mut i: usize = 0;
    while i < n
        invariant
            i <= n,
            n == attrs@.len(),
            engine.wf(),
            engine.frame_eq(*old(engine)),
            old(engine).objects@.len() <= engine.objects@.len(),
            forall|k: int|
                0 <= k < old(engine).objects@.len() ==> engine.objects@[k] == old(
                    engine,
                ).objects@[k],
            forall|j: int|
                0 <= j < attrs@.len() && !((#[trigger] attrs@[j]).1 is VoidId) && id_eq(
                    attrs@[j].1,
                    *id,
                ) ==> attrs@[j].0.getter.op is Some,
            ({
                let m = xray_match_idx(attrs@.take(i as int), *id);
                if m == -1 {
                    *engine == *old(engine) && *desc == *old(desc)
                } else {
                    xray_desc_matches(*engine, *desc, attrs@[m].0)
                }
            }),
        decreases n - i,
    {
        let entry = &attrs[i];
        let is_void = matches!(&entry.1, JsId::VoidId);
        let matches_id = jsid_eq(&entry.1, id);
        if !is_void && matches_id {
            let aspec = &entry.0;
            desc.attrs = aspec.flags & !JSPROP_NATIVE_ACCESSORS;
            let gop = match aspec.getter.op {
                Some(g) => g,
                None => vstd::pervasive::unreached(),
            };
            let fun = engine.new_function(gop, 0, 0, None, Some(aspec.getter.info));
            desc.getter = Some(fun);
            desc.attrs = desc.attrs | JSPROP_GETTER;
            match aspec.setter.op {
                Some(sop) => {
                    let sfun = engine.new_function(sop, 1, 0, None, Some(aspec.setter.info));
                    desc.setter = Some(sfun);
                    desc.attrs = desc.attrs | JSPROP_SETTER;
                },
                None => {
                    desc.setter = None;
                },
            }
        }
        proof {
            lemma_xray_match_idx_step(attrs@, *id, i as int);
            lemma_xray_match_idx_range(attrs@.take(i as int), *id);
            lemma_xray_match_idx_range(attrs@.take(i + 1 as int), *id);
            assert(attrs@.take(i + 1 as int)[i as int] == attrs@[i as int]);
        }
        i = i + 1;
    }
    proof {
        assert(attrs@.take(n as int) =~= attrs@);
    }
    true
}

} // verus!
