//! The values that a flag can hold.

use crate::number::{parse_int_within, parse_signed, parse_unsigned};
use vstd::prelude::*;

verus! {

/// The type of a flag's value.
#[derive(Clone, Copy, Debug, PartialEq, Eq, Structural)]
pub enum Kind {
    Bool,
    I8,
    I16,
    I32,
    I64,
    I128,
    Isize,
    U8,
    U16,
    U32,
    U64,
    U128,
    Usize,
}

/// A flag's value: a truth value, or an integer of one of Rust's integer
/// types.
#[derive(Clone, Copy, Debug, PartialEq, Eq, Structural)]
pub enum Value {
    Bool(bool),
    I8(i8),
    I16(i16),
    I32(i32),
    I64(i64),
    I128(i128),
    Isize(isize),
    U8(u8),
    U16(u16),
    U32(u32),
    U64(u64),
    U128(u128),
    Usize(usize),
}

impl Kind {
    /// Whether values of this kind can be negative.
    pub open spec fn signed(self) -> bool {
        self == Kind::I8 || self == Kind::I16 || self == Kind::I32 || self == Kind::I64 || self
            == Kind::I128 || self == Kind::Isize
    }

    /// The least number that a value of an integer kind can hold; 0 for the
    /// kind of truth values, which `number` reads as 0 and 1.
    pub open spec fn min(self) -> int {
        match self {
            Kind::I8 => i8::MIN as int,
            Kind::I16 => i16::MIN as int,
            Kind::I32 => i32::MIN as int,
            Kind::I64 => i64::MIN as int,
            Kind::I128 => i128::MIN as int,
            Kind::Isize => isize::MIN as int,
            _ => 0,
        }
    }

    /// The greatest number that a value of an integer kind can hold; 1 for
    /// the kind of truth values.
    pub open spec fn max(self) -> int {
        match self {
            Kind::Bool => 1,
            Kind::I8 => i8::MAX as int,
            Kind::I16 => i16::MAX as int,
            Kind::I32 => i32::MAX as int,
            Kind::I64 => i64::MAX as int,
            Kind::I128 => i128::MAX as int,
            Kind::Isize => isize::MAX as int,
            Kind::U8 => u8::MAX as int,
            Kind::U16 => u16::MAX as int,
            Kind::U32 => u32::MAX as int,
            Kind::U64 => u64::MAX as int,
            Kind::U128 => u128::MAX as int,
            Kind::Usize => usize::MAX as int,
        }
    }

    /// The name of the kind, as Rust writes the type.
    pub open spec fn name_text(self) -> Seq<char> {
        match self {
            Kind::Bool => "bool"@,
            Kind::I8 => "i8"@,
            Kind::I16 => "i16"@,
            Kind::I32 => "i32"@,
            Kind::I64 => "i64"@,
            Kind::I128 => "i128"@,
            Kind::Isize => "isize"@,
            Kind::U8 => "u8"@,
            Kind::U16 => "u16"@,
            Kind::U32 => "u32"@,
            Kind::U64 => "u64"@,
            Kind::U128 => "u128"@,
            Kind::Usize => "usize"@,
        }
    }

    /// The name of the kind, as Rust writes the type.
    pub fn name(self) -> (r: &'static str)
        ensures
            r@ == self.name_text(),
    {
        match self {
            Kind::Bool => "bool",
            Kind::I8 => "i8",
            Kind::I16 => "i16",
            Kind::I32 => "i32",
            Kind::I64 => "i64",
            Kind::I128 => "i128",
            Kind::Isize => "isize",
            Kind::U8 => "u8",
            Kind::U16 => "u16",
            Kind::U32 => "u32",
            Kind::U64 => "u64",
            Kind::U128 => "u128",
            Kind::Usize => "usize",
        }
    }
}

/// The truth value that `s` spells out, if it spells one.
pub open spec fn parse_bool(s: Seq<char>) -> Option<bool> {
    if s == seq!['t', 'r', 'u', 'e'] {
        Some(true)
    } else if s == seq!['f', 'a', 'l', 's', 'e'] {
        Some(false)
    } else {
        None
    }
}

/// The value of kind `kind` that the text `s` denotes, if it denotes one.
///
/// A truth value is written `true` or `false`. An integer is written in
/// decimal and must lie within the bounds of its kind.
pub open spec fn parse_text(kind: Kind, s: Seq<char>) -> Option<Value> {
    match kind {
        Kind::Bool => match parse_bool(s) {
            Some(b) => Some(Value::Bool(b)),
            None => None,
        },
        _ => match parse_int_within(s, kind.signed(), kind.min(), kind.max()) {
            Some(n) => Some(Value::number(kind, n)),
            None => None,
        },
    }
}

impl Value {
    /// The kind of this value.
    pub open spec fn spec_kind(self) -> Kind {
        match self {
            Value::Bool(_) => Kind::Bool,
            Value::I8(_) => Kind::I8,
            Value::I16(_) => Kind::I16,
            Value::I32(_) => Kind::I32,
            Value::I64(_) => Kind::I64,
            Value::I128(_) => Kind::I128,
            Value::Isize(_) => Kind::Isize,
            Value::U8(_) => Kind::U8,
            Value::U16(_) => Kind::U16,
            Value::U32(_) => Kind::U32,
            Value::U64(_) => Kind::U64,
            Value::U128(_) => Kind::U128,
            Value::Usize(_) => Kind::Usize,
        }
    }

    /// The kind of this value.
    #[verifier::when_used_as_spec(spec_kind)]
    pub fn kind(self) -> (k: Kind)
        ensures
            k == self.spec_kind(),
    {
        match self {
            Value::Bool(_) => Kind::Bool,
            Value::I8(_) => Kind::I8,
            Value::I16(_) => Kind::I16,
            Value::I32(_) => Kind::I32,
            Value::I64(_) => Kind::I64,
            Value::I128(_) => Kind::I128,
            Value::Isize(_) => Kind::Isize,
            Value::U8(_) => Kind::U8,
            Value::U16(_) => Kind::U16,
            Value::U32(_) => Kind::U32,
            Value::U64(_) => Kind::U64,
            Value::U128(_) => Kind::U128,
            Value::Usize(_) => Kind::Usize,
        }
    }

    /// The value of kind `kind` that holds the number `n`; for the kind of
    /// truth values, the one that says whether `n` is not zero.
    pub open spec fn number(kind: Kind, n: int) -> Value
        recommends
            kind.min() <= n <= kind.max(),
    {
        match kind {
            Kind::Bool => Value::Bool(n != 0),
            Kind::I8 => Value::I8(n as i8),
            Kind::I16 => Value::I16(n as i16),
            Kind::I32 => Value::I32(n as i32),
            Kind::I64 => Value::I64(n as i64),
            Kind::I128 => Value::I128(n as i128),
            Kind::Isize => Value::Isize(n as isize),
            Kind::U8 => Value::U8(n as u8),
            Kind::U16 => Value::U16(n as u16),
            Kind::U32 => Value::U32(n as u32),
            Kind::U64 => Value::U64(n as u64),
            Kind::U128 => Value::U128(n as u128),
            Kind::Usize => Value::Usize(n as usize),
        }
    }

    /// The opposite truth value; nothing for a value that is no truth value.
    pub open spec fn spec_toggled(self) -> Option<Value> {
        match self {
            Value::Bool(b) => Some(Value::Bool(!b)),
            _ => None,
        }
    }

    /// The opposite truth value; nothing for a value that is no truth value.
    #[verifier::when_used_as_spec(spec_toggled)]
    pub fn toggled(self) -> (r: Option<Value>)
        ensures
            r == self.spec_toggled(),
    {
        match self {
            Value::Bool(b) => Some(Value::Bool(!b)),
            _ => None,
        }
    }

    /// Reads `text` as a value of kind `kind`.
    pub fn parse(kind: Kind, text: &[char]) -> (r: Option<Value>)
        ensures
            r == parse_text(kind, text@),
    {
        match kind {
            Kind::Bool => {
                if text.len() == 4 && text[0] == 't' && text[1] == 'r' && text[2] == 'u' && text[3]
                    == 'e' {
                    assert(text@ =~= seq!['t', 'r', 'u', 'e']);
                    Some(Value::Bool(true))
                } else if text.len() == 5 && text[0] == 'f' && text[1] == 'a' && text[2] == 'l'
                    && text[3] == 's' && text[4] == 'e' {
                    assert(text@ =~= seq!['f', 'a', 'l', 's', 'e']);
                    Some(Value::Bool(false))
                } else {
                    None
                }
            },
            Kind::I8 => match parse_signed(text) {
                Some(n) => if i8::MIN as i128 <= n && n <= i8::MAX as i128 {
                    Some(Value::I8(n as i8))
                } else {
                    None
                },
                None => None,
            },
            Kind::I16 => match parse_signed(text) {
                Some(n) => if i16::MIN as i128 <= n && n <= i16::MAX as i128 {
                    Some(Value::I16(n as i16))
                } else {
                    None
                },
                None => None,
            },
            Kind::I32 => match parse_signed(text) {
                Some(n) => if i32::MIN as i128 <= n && n <= i32::MAX as i128 {
                    Some(Value::I32(n as i32))
                } else {
                    None
                },
                None => None,
            },
            Kind::I64 => match parse_signed(text) {
                Some(n) => if i64::MIN as i128 <= n && n <= i64::MAX as i128 {
                    Some(Value::I64(n as i64))
                } else {
                    None
                },
                None => None,
            },
            Kind::I128 => match parse_signed(text) {
                Some(n) => Some(Value::I128(n)),
                None => None,
            },
            Kind::Isize => match parse_signed(text) {
                Some(n) => if isize::MIN as i128 <= n && n <= isize::MAX as i128 {
                    Some(Value::Isize(n as isize))
                } else {
                    None
                },
                None => None,
            },
            Kind::U8 => match parse_unsigned(text) {
                Some(n) => if n <= u8::MAX as u128 {
                    Some(Value::U8(n as u8))
                } else {
                    None
                },
                None => None,
            },
            Kind::U16 => match parse_unsigned(text) {
                Some(n) => if n <= u16::MAX as u128 {
                    Some(Value::U16(n as u16))
                } else {
                    None
                },
                None => None,
            },
            Kind::U32 => match parse_unsigned(text) {
                Some(n) => if n <= u32::MAX as u128 {
                    Some(Value::U32(n as u32))
                } else {
                    None
                },
                None => None,
            },
            Kind::U64 => match parse_unsigned(text) {
                Some(n) => if n <= u64::MAX as u128 {
                    Some(Value::U64(n as u64))
                } else {
                    None
                },
                None => None,
            },
            Kind::U128 => match parse_unsigned(text) {
                Some(n) => Some(Value::U128(n)),
                None => None,
            },
            Kind::Usize => match parse_unsigned(text) {
                Some(n) => if n <= usize::MAX as u128 {
                    Some(Value::Usize(n as usize))
                } else {
                    None
                },
                None => None,
            },
        }
    }
}

} // verus!
