//! The value universe of the store.
//!
//! A [`Value`] wraps exactly one value of exactly one concrete type and keeps
//! that type's identity (the variant tag), so that a holder can be checked
//! against a caller-supplied expected type at read time. The [`Storable`]
//! trait ties each storable concrete type to its erased form: how a value is
//! wrapped, which holders it fits, and how it is read back.

use vstd::prelude::*;

verus! {

/// The bit pattern of a 64-bit floating-point number, carried as a plain
/// integer so that the store can hold it and hand it back unchanged.
#[derive(Clone, Copy, Debug, PartialEq, Eq, Structural)]
pub struct FloatBits {
    pub bits: u64,
}

/// A type-erased value holder: one value of one concrete type, together with
/// enough runtime type identity (the variant tag) to be checked against an
/// expected type later. The stored type is fixed until the holder is replaced
/// or dropped.
pub enum Value {
    Text(String),
    Int32(i32),
    Int64(i64),
    Bool(bool),
    Float(FloatBits),
    TextMap(Vec<(String, String)>),
}

/// A concrete type the store can hold. The spec functions say how a value of
/// the type is erased into a [`Value`], which holders carry such a value, and
/// what value a fitting holder carries; the proof obligations make erasure
/// and recovery exact inverses, so no two values of the type share an erased
/// form and no coercion from another stored type is possible.
pub trait Storable: Sized {
    /// The erased form of this value.
    spec fn wrap_spec(self) -> Value;

    /// Whether the holder `v` carries a value of this type.
    spec fn fits(v: Value) -> bool;

    /// The value that the holder `v` carries, meaningful when `fits(v)`.
    spec fn unwrap_spec(v: Value) -> Self;

    /// Erasing a value yields a holder of this type carrying that very value.
    proof fn lemma_wrap_round_trip(self)
        ensures
            Self::fits(self.wrap_spec()),
            Self::unwrap_spec(self.wrap_spec()) == self,
    ;

    /// A holder of this type is exactly the erased form of the value it carries.
    proof fn lemma_unwrap_round_trip(v: Value)
        requires
            Self::fits(v),
        ensures
            Self::unwrap_spec(v).wrap_spec() == v,
    ;

    /// Erase this value's type.
    fn wrap(self) -> (r: Value)
        ensures
            r == self.wrap_spec(),
    ;

    /// Recover a typed reference from a holder; succeeds exactly when the
    /// holder carries a value of this type.
    fn try_unwrap_ref(v: &Value) -> (r: Option<&Self>)
        ensures
            r is Some <==> Self::fits(*v),
            r matches Some(x) ==> *x == Self::unwrap_spec(*v),
    ;
}

impl Storable for i32 {
    open spec fn wrap_spec(self) -> Value {
        Value::Int32(self)
    }

    open spec fn fits(v: Value) -> bool {
        v is Int32
    }

    open spec fn unwrap_spec(v: Value) -> Self {
        match v {
            Value::Int32(x) => x,
            _ => arbitrary(),
        }
    }

    proof fn lemma_wrap_round_trip(self) {
    }

    proof fn lemma_unwrap_round_trip(v: Value) {
    }

    fn wrap(self) -> (r: Value) {
        Value::Int32(self)
    }

    fn try_unwrap_ref(v: &Value) -> (r: Option<&Self>) {
        match v {
            Value::Int32(x) => Some(x),
            _ => None,
        }
    }
}

impl Storable for i64 {
    open spec fn wrap_spec(self) -> Value {
        Value::Int64(self)
    }

    open spec fn fits(v: Value) -> bool {
        v is Int64
    }

    open spec fn unwrap_spec(v: Value) -> Self {
        match v {
            Value::Int64(x) => x,
            _ => arbitrary(),
        }
    }

    proof fn lemma_wrap_round_trip(self) {
    }

    proof fn lemma_unwrap_round_trip(v: Value) {
    }

    fn wrap(self) -> (r: Value) {
        Value::Int64(self)
    }

    fn try_unwrap_ref(v: &Value) -> (r: Option<&Self>) {
        match v {
            Value::Int64(x) => Some(x),
            _ => None,
        }
    }
}

impl Storable for String {
    open spec fn wrap_spec(self) -> Value {
        Value::Text(self)
    }

    open spec fn fits(v: Value) -> bool {
        v is Text
    }

    open spec fn unwrap_spec(v: Value) -> Self {
        match v {
            Value::Text(s) => s,
            _ => arbitrary(),
        }
    }

    proof fn lemma_wrap_round_trip(self) {
    }

    proof fn lemma_unwrap_round_trip(v: Value) {
    }

    fn wrap(self) -> (r: Value) {
        Value::Text(self)
    }

    fn try_unwrap_ref(v: &Value) -> (r: Option<&Self>) {
        match v {
            Value::Text(s) => Some(s),
            _ => None,
        }
    }
}

impl Storable for bool {
    open spec fn wrap_spec(self) -> Value {
        Value::Bool(self)
    }

    open spec fn fits(v: Value) -> bool {
        v is Bool
    }

    open spec fn unwrap_spec(v: Value) -> Self {
        match v {
            Value::Bool(b) => b,
            _ => arbitrary(),
        }
    }

    proof fn lemma_wrap_round_trip(self) {
    }

    proof fn lemma_unwrap_round_trip(v: Value) {
    }

    fn wrap(self) -> (r: Value) {
        Value::Bool(self)
    }

    fn try_unwrap_ref(v: &Value) -> (r: Option<&Self>) {
        match v {
            Value::Bool(b) => Some(b),
            _ => None,
        }
    }
}

impl Storable for FloatBits {
    open spec fn wrap_spec(self) -> Value {
        Value::Float(self)
    }

    open spec fn fits(v: Value) -> bool {
        v is Float
    }

    open spec fn unwrap_spec(v: Value) -> Self {
        match v {
            Value::Float(f) => f,
            _ => arbitrary(),
        }
    }

    proof fn lemma_wrap_round_trip(self) {
    }

    proof fn lemma_unwrap_round_trip(v: Value) {
    }

    fn wrap(self) -> (r: Value) {
        Value::Float(self)
    }

    fn try_unwrap_ref(v: &Value) -> (r: Option<&Self>) {
        match v {
            Value::Float(f) => Some(f),
            _ => None,
        }
    }
}

impl Storable for Vec<(String, String)> {
    open spec fn wrap_spec(self) -> Value {
        Value::TextMap(self)
    }

    open spec fn fits(v: Value) -> bool {
        v is TextMap
    }

    open spec fn unwrap_spec(v: Value) -> Self {
        match v {
            Value::TextMap(m) => m,
            _ => arbitrary(),
        }
    }

    proof fn lemma_wrap_round_trip(self) {
    }

    proof fn lemma_unwrap_round_trip(v: Value) {
    }

    fn wrap(self) -> (r: Value) {
        Value::TextMap(self)
    }

    fn try_unwrap_ref(v: &Value) -> (r: Option<&Self>) {
        match v {
            Value::TextMap(m) => Some(m),
            _ => None,
        }
    }
}

impl Value {
    /// Attempt to interpret this holder at the caller's expected type: a
    /// checked downcast that compares the stored type identity against `T`
    /// and never coerces. Absent exactly when the stored type is not `T`.
    pub fn downcast_ref<T: Storable>(&self) -> (r: Option<&T>)
        ensures
            r is Some <==> T::fits(*self),
            r matches Some(x) ==> *x == T::unwrap_spec(*self),
    {
        T::try_unwrap_ref(self)
    }
}

} // verus!
