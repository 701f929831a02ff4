//! Engine values, property keys and the marshalling helpers that turn the
//! host's tagged data into engine values and back.
//!
//! The scripting engine itself (garbage collector, object model, C-level API)
//! is an external collaborator of this layer.  Its value representation is
//! modelled here as an explicit tagged union over plain data, so that every
//! marshalling rule of the binding layer can be stated and proved exactly.

use vstd::prelude::*;

verus! {

/// Identifier of an engine object inside the engine's object store.
///
/// The engine hands scripts opaque object handles; the model identifies an
/// object by its index in the store, so an identity comparison of handles is
/// an integer comparison.
pub type ObjId = usize;

/// A property key as the engine sees it: an integer key, an interned string
/// key, or the distinguished void key that matches nothing.
pub enum JsId {
    IntId(u32),
    StrId(String),
    VoidId,
}

/// Key equality: the relation the engine applies when it looks a property up.
/// Interned string keys compare by their characters.
pub open spec fn id_eq(a: JsId, b: JsId) -> bool {
    match (a, b) {
        (JsId::IntId(x), JsId::IntId(y)) => x == y,
        (JsId::StrId(s), JsId::StrId(t)) => s@ == t@,
        (JsId::VoidId, JsId::VoidId) => true,
        _ => false,
    }
}

pub proof fn lemma_id_eq_refl(a: JsId)
    ensures
        id_eq(a, a),
{
}

pub proof fn lemma_id_eq_sym(a: JsId, b: JsId)
    ensures
        id_eq(a, b) == id_eq(b, a),
{
}

pub proof fn lemma_id_eq_trans(a: JsId, b: JsId, c: JsId)
    requires
        id_eq(a, b),
        id_eq(b, c),
    ensures
        id_eq(a, c),
{
}

/// Decides `id_eq` on two property keys.
pub fn jsid_eq(a: &JsId, b: &JsId) -> (r: bool)
    ensures
        r == id_eq(*a, *b),
{
    match (a, b) {
        (JsId::IntId(x), JsId::IntId(y)) => x == y,
        (JsId::StrId(s), JsId::StrId(t)) => s.eq(t),
        (JsId::VoidId, JsId::VoidId) => true,
        _ => false,
    }
}

impl Clone for JsId {
    fn clone(&self) -> (r: Self)
        ensures
            r == *self,
    {
        match self {
            JsId::IntId(x) => JsId::IntId(*x),
            JsId::StrId(s) => JsId::StrId(s.clone()),
            JsId::VoidId => JsId::VoidId,
        }
    }
}

/// A native string value: either an owned character buffer or the
/// distinguished "null" marker.
pub enum DOMString {
    Str(String),
    NullString,
}

impl DOMString {
    /// The characters a native string stands for; the null marker reads as
    /// the empty sequence.
    pub open spec fn chars(&self) -> Seq<char> {
        match self {
            DOMString::Str(s) => s@,
            DOMString::NullString => Seq::<char>::empty(),
        }
    }

    /// Returns the owned characters of the string, or the empty string for
    /// the null marker.
    pub fn to_str(&self) -> (r: String)
        ensures
            r@ == self.chars(),
    {
        match self {
            DOMString::Str(s) => s.clone(),
            DOMString::NullString => String::new(),
        }
    }
}

/// A native function the engine can call back into.  The two natives this
/// layer supplies are enumerated; every hook supplied by the interface
/// description generator is opaque to this layer and carried by id.
#[derive(Clone, Copy, PartialEq, Eq, Structural, Debug)]
pub enum NativeFn {
    /// The constructor stub that rejects any construction attempt.
    ThrowingNative,
    /// The `toString` override installed on constructor objects.
    InterfaceToStringNative,
    /// A host hook outside this layer, identified opaquely.
    OpaqueNative(u64),
}

/// An engine value: the engine's uniform, garbage-collected value type.
///
/// A double is carried as its IEEE-754 bit pattern; this layer moves doubles
/// around but never computes with them.  `PrivateValue` models the engine's
/// private pointer payload (used here to stash class identities), and
/// `NativeStorage` models a native value embedded in an object's inline
/// storage.
pub enum EngineValue {
    NullValue,
    VoidValue,
    BoolValue(bool),
    IntValue(i32),
    UintValue(u32),
    DoubleValue(u64),
    StringValue(String),
    ObjectValue(ObjId),
    PrivateValue(usize),
    NativeStorage(NativeValue),
    DomClassValue(crate::engine::DOMClass),
}

impl Clone for EngineValue {
    fn clone(&self) -> (r: Self)
        ensures
            r == *self,
    {
        match self {
            EngineValue::NullValue => EngineValue::NullValue,
            EngineValue::VoidValue => EngineValue::VoidValue,
            EngineValue::BoolValue(b) => EngineValue::BoolValue(*b),
            EngineValue::IntValue(i) => EngineValue::IntValue(*i),
            EngineValue::UintValue(u) => EngineValue::UintValue(*u),
            EngineValue::DoubleValue(d) => EngineValue::DoubleValue(*d),
            EngineValue::StringValue(s) => EngineValue::StringValue(s.clone()),
            EngineValue::ObjectValue(o) => EngineValue::ObjectValue(*o),
            EngineValue::PrivateValue(p) => EngineValue::PrivateValue(*p),
            EngineValue::NativeStorage(n) => EngineValue::NativeStorage(*n),
            EngineValue::DomClassValue(c) => EngineValue::DomClassValue(*c),
        }
    }
}

/// A native value embedded in an engine object's inline storage: an explicit
/// tagged union of the native types that carry a wrapper, indexed by the
/// type-tag check before any access.
#[derive(Clone, Copy)]
pub enum NativeValue {
    EventTargetValue(crate::eventtarget::EventTarget),
}

/// The wrapper recorded in the native value's own cache.
pub open spec fn native_cached_wrapper(n: NativeValue) -> Option<ObjId> {
    match n {
        NativeValue::EventTargetValue(t) => t.wrapper.wrapper,
    }
}

/// A manifest constant's tagged value, as the interface description
/// generator supplies it.  The double kind carries an IEEE-754 bit pattern.
#[derive(Clone, Copy, PartialEq, Eq, Structural, Debug)]
pub enum ConstantVal {
    IntVal(i32),
    UintVal(u32),
    DoubleVal(u64),
    BoolVal(bool),
    NullVal,
    VoidVal,
}

/// One entry of an interface's constant table.  A `None` name is the
/// end-of-table sentinel.
pub struct ConstantSpec {
    pub name: Option<String>,
    pub value: ConstantVal,
}

/// The engine value a tagged constant converts to.
pub open spec fn jsval_of_constant(c: ConstantVal) -> EngineValue {
    match c {
        ConstantVal::NullVal => EngineValue::NullValue,
        ConstantVal::IntVal(i) => EngineValue::IntValue(i),
        ConstantVal::UintVal(u) => EngineValue::UintValue(u),
        ConstantVal::DoubleVal(d) => EngineValue::DoubleValue(d),
        ConstantVal::BoolVal(b) => EngineValue::BoolValue(b),
        ConstantVal::VoidVal => EngineValue::VoidValue,
    }
}

/// The tagged constant an engine value reads back as, where one exists.
pub open spec fn constant_of_jsval(v: EngineValue) -> Option<ConstantVal> {
    match v {
        EngineValue::NullValue => Some(ConstantVal::NullVal),
        EngineValue::IntValue(i) => Some(ConstantVal::IntVal(i)),
        EngineValue::UintValue(u) => Some(ConstantVal::UintVal(u)),
        EngineValue::DoubleValue(d) => Some(ConstantVal::DoubleVal(d)),
        EngineValue::BoolValue(b) => Some(ConstantVal::BoolVal(b)),
        EngineValue::VoidValue => Some(ConstantVal::VoidVal),
        _ => None,
    }
}

/// Converting a tagged constant of any kind to an engine value and reading
/// it back yields the constant unchanged.
pub proof fn lemma_constant_round_trip(c: ConstantVal)
    ensures
        constant_of_jsval(jsval_of_constant(c)) == Some(c),
{
}

/// Converts a tagged constant value to the matching engine value.
pub fn constant_to_jsval(c: &ConstantVal) -> (r: EngineValue)
    ensures
        r == jsval_of_constant(*c),
{
    match c {
        ConstantVal::NullVal => EngineValue::NullValue,
        ConstantVal::IntVal(i) => EngineValue::IntValue(*i),
        ConstantVal::UintVal(u) => EngineValue::UintValue(*u),
        ConstantVal::DoubleVal(d) => EngineValue::DoubleValue(*d),
        ConstantVal::BoolVal(b) => EngineValue::BoolValue(*b),
        ConstantVal::VoidVal => EngineValue::VoidValue,
    }
}

/// The engine's to-string coercion, as far as this layer needs it: strings
/// coerce to themselves and the primitive singletons to their literal
/// spellings.  Coercing a number or an object is beyond what constant and
/// enum marshalling needs and is reported as a coercion failure.
pub open spec fn str_of_jsval(v: EngineValue) -> Option<Seq<char>> {
    match v {
        EngineValue::StringValue(s) => Some(s@),
        EngineValue::NullValue => Some("null"@),
        EngineValue::VoidValue => Some("undefined"@),
        EngineValue::BoolValue(b) => Some(if b { "true"@ } else { "false"@ }),
        _ => None,
    }
}

/// Coerces an engine value to an owned native string, failing exactly where
/// the modelled coercion fails.
pub fn jsval_to_str(v: &EngineValue) -> (r: Result<String, ()>)
    ensures
        match r {
            Ok(s) => str_of_jsval(*v) == Some(s@),
            Err(()) => str_of_jsval(*v) is None,
        },
{
    match v {
        EngineValue::StringValue(s) => Ok(s.clone()),
        EngineValue::NullValue => Ok("null".to_owned()),
        EngineValue::VoidValue => Ok("undefined".to_owned()),
        EngineValue::BoolValue(b) => {
            if *b {
                Ok("true".to_owned())
            } else {
                Ok("false".to_owned())
            }
        },
        _ => Err(()),
    }
}

/// The engine value a native string converts to: the null marker maps to the
/// engine's null value, a present buffer to a fresh engine string.
pub open spec fn jsval_of_domstring(s: DOMString) -> EngineValue {
    match s {
        DOMString::NullString => EngineValue::NullValue,
        DOMString::Str(t) => EngineValue::StringValue(t),
    }
}

/// Converts a native string to the matching engine value.
pub fn domstring_to_jsval(s: &DOMString) -> (r: EngineValue)
    ensures
        match (s, r) {
            (DOMString::NullString, EngineValue::NullValue) => true,
            (DOMString::Str(t), EngineValue::StringValue(u)) => t@ == u@,
            _ => false,
        },
{
    match s {
        DOMString::NullString => EngineValue::NullValue,
        DOMString::Str(t) => EngineValue::StringValue(t.clone()),
    }
}

/// The failure this layer reports to native callers when an engine
/// operation refuses.
pub enum Error {
    FailureUnknown,
}

pub type ErrorResult = Result<(), Error>;

/// One entry of an enum's literal table: the literal's bytes and its length,
/// kept separately as the description generator emits them.
pub struct EnumEntry {
    pub value: String,
    pub length: usize,
}

impl EnumEntry {
    /// The recorded length is the literal's true length.
    pub open spec fn wf(&self) -> bool {
        self.length == self.value@.len()
    }
}

/// Resolves an engine value against a fixed list of enum literals: the value
/// is coerced to a string and the list is scanned for the first exact,
/// case-sensitive, whole-string match.  Returns the matching index; where no
/// literal matches, a structured not-found outcome distinct from a failed
/// coercion, so callers can fall back.
pub fn FindEnumStringIndex(v: &EngineValue, values: &Vec<EnumEntry>) -> (r: Result<
    Option<usize>,
    (),
>)
    requires
        forall|i: int| 0 <= i < values@.len() ==> (#[trigger] values@[i]).wf(),
    ensures
        match r {
            Ok(Some(i)) => {
                &&& str_of_jsval(*v) is Some
                &&& i < values@.len()
                &&& values@[i as int].value@ == str_of_jsval(*v)->Some_0
                &&& forall|j: int|
                    0 <= j < i ==> (#[trigger] values@[j]).value@ != str_of_jsval(*v)->Some_0
            },
            Ok(None) => str_of_jsval(*v) is Some && (forall|j: int|
                0 <= j < values@.len() ==> (#[trigger] values@[j]).value@ != str_of_jsval(
                    *v,
                )->Some_0),
            Err(()) => str_of_jsval(*v) is None,
        },
{
    let s = match jsval_to_str(v) {
        Ok(s) => s,
        Err(()) => {
            return Err(());
        },
    };
    let slen = s.as_str().unicode_len();
    let mut i: usize = 0;
    while i < values.len()
        invariant
            i <= values@.len(),
            slen == s@.len(),
            str_of_jsval(*v) == Some(s@),
            forall|i: int| 0 <= i < values@.len() ==> (#[trigger] values@[i]).wf(),
            forall|j: int| 0 <= j < i ==> (#[trigger] values@[j]).value@ != s@,
        decreases values@.len() - i,
    {
        let entry = &values[i];
        if entry.length == slen && entry.value.eq(&s) {
            return Ok(Some(i));
        }
        proof {
            if values@[i as int].value@ == s@ {
                assert(values@[i as int].length == s@.len());
            }
        }
        i = i + 1;
    }
    Ok(None)
}

} // verus!
