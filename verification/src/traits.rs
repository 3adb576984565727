//! The types that a flag's value can have.

use crate::error::ConversionError;
use crate::text::to_chars;
use crate::value::{parse_text, Kind, Value};
use vstd::prelude::*;

verus! {

/// A type whose values can be registered as flags.
///
/// Such a type stands for one [`Kind`]; its values go into a [`Value`] of
/// that kind and come back out of it unchanged.
pub trait Flag: Copy {
    /// The kind of the values of this type.
    spec fn kind() -> Kind;

    /// This value as a store holds it.
    spec fn as_value(&self) -> Value;

    /// A value of this type is held as one of the type's kind.
    proof fn lemma_kind(&self)
        ensures
            self.as_value().kind() == Self::kind(),
    ;

    /// Two values of this type that a store holds alike are the same.
    proof fn lemma_same(&self, other: &Self)
        requires
            self.as_value() == other.as_value(),
        ensures
            *self == *other,
    ;

    /// Wraps the value for a store.
    fn into_value(self) -> (v: Value)
        ensures
            v == self.as_value(),
            v.kind() == Self::kind(),
    ;

    /// Takes a value of this type out of `v`; nothing where `v` is of
    /// another kind.
    fn from_value(v: Value) -> (r: Option<Self>)
        ensures
            r is Some <==> v.kind() == Self::kind(),
            r matches Some(x) ==> x.as_value() == v,
    ;

    /// Gives access to what `v` holds as a value of this type; nothing where
    /// `v` is of another kind. What is written through the access is what
    /// `v` holds afterwards.
    fn slot(v: &mut Value) -> (r: Option<&mut Self>)
        ensures
            r is Some <==> old(v).kind() == Self::kind(),
            match r {
                Some(x) => x.as_value() == *old(v) && *final(v) == final(x).as_value(),
                None => *final(v) == *old(v),
            },
    ;

    /// Reads `s` as a value of this type and puts it in place of `self`.
    ///
    /// Where `s` does not denote such a value, `self` stays as it is and the
    /// error names the kind.
    fn into_flag(&mut self, s: &str) -> (r: Result<(), ConversionError>)
        ensures
            match parse_text(Self::kind(), s@) {
                Some(v) => r is Ok && final(self).as_value() == v,
                None => r == Err::<(), ConversionError>(ConversionError { kind: Self::kind() })
                    && *final(self) == *old(self),
            },
    {
        let kind = (*self).into_value().kind();
        let text = to_chars(s);
        match Value::parse(kind, text.as_slice()) {
            Some(v) => match Self::from_value(v) {
                Some(x) => {
                    *self = x;
                    Ok(())
                },
                None => Err(ConversionError { kind }),
            },
            None => Err(ConversionError { kind }),
        }
    }
}

impl Flag for bool {
    open spec fn kind() -> Kind {
        Kind::Bool
    }

    open spec fn as_value(&self) -> Value {
        Value::Bool(*self)
    }

    proof fn lemma_kind(&self) {
    }

    proof fn lemma_same(&self, other: &Self) {
    }

    fn into_value(self) -> (v: Value) {
        Value::Bool(self)
    }

    fn from_value(v: Value) -> (r: Option<Self>) {
        match v {
            Value::Bool(x) => Some(x),
            _ => None,
        }
    }

    fn slot(v: &mut Value) -> (r: Option<&mut Self>) {
        match v {
            Value::Bool(x) => Some(x),
            _ => None,
        }
    }
}

impl Flag for i8 {
    open spec fn kind() -> Kind {
        Kind::I8
    }

    open spec fn as_value(&self) -> Value {
        Value::I8(*self)
    }

    proof fn lemma_kind(&self) {
    }

    proof fn lemma_same(&self, other: &Self) {
    }

    fn into_value(self) -> (v: Value) {
        Value::I8(self)
    }

    fn from_value(v: Value) -> (r: Option<Self>) {
        match v {
            Value::I8(x) => Some(x),
            _ => None,
        }
    }

    fn slot(v: &mut Value) -> (r: Option<&mut Self>) {
        match v {
            Value::I8(x) => Some(x),
            _ => None,
        }
    }
}

impl Flag for i16 {
    open spec fn kind() -> Kind {
        Kind::I16
    }

    open spec fn as_value(&self) -> Value {
        Value::I16(*self)
    }

    proof fn lemma_kind(&self) {
    }

    proof fn lemma_same(&self, other: &Self) {
    }

    fn into_value(self) -> (v: Value) {
        Value::I16(self)
    }

    fn from_value(v: Value) -> (r: Option<Self>) {
        match v {
            Value::I16(x) => Some(x),
            _ => None,
        }
    }

    fn slot(v: &mut Value) -> (r: Option<&mut Self>) {
        match v {
            Value::I16(x) => Some(x),
            _ => None,
        }
    }
}

impl Flag for i32 {
    open spec fn kind() -> Kind {
        Kind::I32
    }

    open spec fn as_value(&self) -> Value {
        Value::I32(*self)
    }

    proof fn lemma_kind(&self) {
    }

    proof fn lemma_same(&self, other: &Self) {
    }

    fn into_value(self) -> (v: Value) {
        Value::I32(self)
    }

    fn from_value(v: Value) -> (r: Option<Self>) {
        match v {
            Value::I32(x) => Some(x),
            _ => None,
        }
    }

    fn slot(v: &mut Value) -> (r: Option<&mut Self>) {
        match v {
            Value::I32(x) => Some(x),
            _ => None,
        }
    }
}

impl Flag for i64 {
    open spec fn kind() -> Kind {
        Kind::I64
    }

    open spec fn as_value(&self) -> Value {
        Value::I64(*self)
    }

    proof fn lemma_kind(&self) {
    }

    proof fn lemma_same(&self, other: &Self) {
    }

    fn into_value(self) -> (v: Value) {
        Value::I64(self)
    }

    fn from_value(v: Value) -> (r: Option<Self>) {
        match v {
            Value::I64(x) => Some(x),
            _ => None,
        }
    }

    fn slot(v: &mut Value) -> (r: Option<&mut Self>) {
        match v {
            Value::I64(x) => Some(x),
            _ => None,
        }
    }
}

impl Flag for i128 {
    open spec fn kind() -> Kind {
        Kind::I128
    }

    open spec fn as_value(&self) -> Value {
        Value::I128(*self)
    }

    proof fn lemma_kind(&self) {
    }

    proof fn lemma_same(&self, other: &Self) {
    }

    fn into_value(self) -> (v: Value) {
        Value::I128(self)
    }

    fn from_value(v: Value) -> (r: Option<Self>) {
        match v {
            Value::I128(x) => Some(x),
            _ => None,
        }
    }

    fn slot(v: &mut Value) -> (r: Option<&mut Self>) {
        match v {
            Value::I128(x) => Some(x),
            _ => None,
        }
    }
}

impl Flag for isize {
    open spec fn kind() -> Kind {
        Kind::Isize
    }

    open spec fn as_value(&self) -> Value {
        Value::Isize(*self)
    }

    proof fn lemma_kind(&self) {
    }

    proof fn lemma_same(&self, other: &Self) {
    }

    fn into_value(self) -> (v: Value) {
        Value::Isize(self)
    }

    fn from_value(v: Value) -> (r: Option<Self>) {
        match v {
            Value::Isize(x) => Some(x),
            _ => None,
        }
    }

    fn slot(v: &mut Value) -> (r: Option<&mut Self>) {
        match v {
            Value::Isize(x) => Some(x),
            _ => None,
        }
    }
}

impl Flag for u8 {
    open spec fn kind() -> Kind {
        Kind::U8
    }

    open spec fn as_value(&self) -> Value {
        Value::U8(*self)
    }

    proof fn lemma_kind(&self) {
    }

    proof fn lemma_same(&self, other: &Self) {
    }

    fn into_value(self) -> (v: Value) {
        Value::U8(self)
    }

    fn from_value(v: Value) -> (r: Option<Self>) {
        match v {
            Value::U8(x) => Some(x),
            _ => None,
        }
    }

    fn slot(v: &mut Value) -> (r: Option<&mut Self>) {
        match v {
            Value::U8(x) => Some(x),
            _ => None,
        }
    }
}

impl Flag for u16 {
    open spec fn kind() -> Kind {
        Kind::U16
    }

    open spec fn as_value(&self) -> Value {
        Value::U16(*self)
    }

    proof fn lemma_kind(&self) {
    }

    proof fn lemma_same(&self, other: &Self) {
    }

    fn into_value(self) -> (v: Value) {
        Value::U16(self)
    }

    fn from_value(v: Value) -> (r: Option<Self>) {
        match v {
            Value::U16(x) => Some(x),
            _ => None,
        }
    }

    fn slot(v: &mut Value) -> (r: Option<&mut Self>) {
        match v {
            Value::U16(x) => Some(x),
            _ => None,
        }
    }
}

impl Flag for u32 {
    open spec fn kind() -> Kind {
        Kind::U32
    }

    open spec fn as_value(&self) -> Value {
        Value::U32(*self)
    }

    proof fn lemma_kind(&self) {
    }

    proof fn lemma_same(&self, other: &Self) {
    }

    fn into_value(self) -> (v: Value) {
        Value::U32(self)
    }

    fn from_value(v: Value) -> (r: Option<Self>) {
        match v {
            Value::U32(x) => Some(x),
            _ => None,
        }
    }

    fn slot(v: &mut Value) -> (r: Option<&mut Self>) {
        match v {
            Value::U32(x) => Some(x),
            _ => None,
        }
    }
}

impl Flag for u64 {
    open spec fn kind() -> Kind {
        Kind::U64
    }

    open spec fn as_value(&self) -> Value {
        Value::U64(*self)
    }

    proof fn lemma_kind(&self) {
    }

    proof fn lemma_same(&self, other: &Self) {
    }

    fn into_value(self) -> (v: Value) {
        Value::U64(self)
    }

    fn from_value(v: Value) -> (r: Option<Self>) {
        match v {
            Value::U64(x) => Some(x),
            _ => None,
        }
    }

    fn slot(v: &mut Value) -> (r: Option<&mut Self>) {
        match v {
            Value::U64(x) => Some(x),
            _ => None,
        }
    }
}

impl Flag for u128 {
    open spec fn kind() -> Kind {
        Kind::U128
    }

    open spec fn as_value(&self) -> Value {
        Value::U128(*self)
    }

    proof fn lemma_kind(&self) {
    }

    proof fn lemma_same(&self, other: &Self) {
    }

    fn into_value(self) -> (v: Value) {
        Value::U128(self)
    }

    fn from_value(v: Value) -> (r: Option<Self>) {
        match v {
            Value::U128(x) => Some(x),
            _ => None,
        }
    }

    fn slot(v: &mut Value) -> (r: Option<&mut Self>) {
        match v {
            Value::U128(x) => Some(x),
            _ => None,
        }
    }
}

impl Flag for usize {
    open spec fn kind() -> Kind {
        Kind::Usize
    }

    open spec fn as_value(&self) -> Value {
        Value::Usize(*self)
    }

    proof fn lemma_kind(&self) {
    }

    proof fn lemma_same(&self, other: &Self) {
    }

    fn into_value(self) -> (v: Value) {
        Value::Usize(self)
    }

    fn from_value(v: Value) -> (r: Option<Self>) {
        match v {
            Value::Usize(x) => Some(x),
            _ => None,
        }
    }

    fn slot(v: &mut Value) -> (r: Option<&mut Self>) {
        match v {
            Value::Usize(x) => Some(x),
            _ => None,
        }
    }
}

} // verus!
