use vstd::prelude::*;

use crate::types::{CborValue, RadonKind, RadonTypes};

verus! {

/// Why an operator, a reducer or a script failed. Each error has a stable kind code.
#[derive(Debug, PartialEq)]
pub enum RadError {
    SourceScriptNotCBOR,
    SourceScriptNotArray,
    SourceScriptNotRADON,
    RequestTooManySources,
    /// A script holds more calls than allowed.
    ScriptTooManyCalls { calls: usize },
    /// No handler for this operator on this kind of value.
    UnsupportedOperator { input_kind: RadonKind, operator: u8 },
    /// The operator's arguments are missing or malformed; they are kept.
    WrongArguments { input_kind: RadonKind, operator: u8, args: Vec<CborValue> },
    /// A status reported by the retrieval transport.
    Http { status: u16 },
    Underflow,
    Overflow,
    MathDomain,
    DivisionByZero,
    WrongMixedCast { to: RadonKind },
    ArrayIndexNotFound { index: i128 },
    MapKeyNotFound,
    /// The reducer does not apply to this array, which is kept.
    UnsupportedReducer { array: Vec<RadonTypes>, reducer: u8 },
    UnsupportedOpNonHomogeneous { reducer: u8 },
    ModeTie,
    OutlierReveal,
    /// A filter's subscript returned something other than a boolean: its description.
    ArrayFilterWrongSubscript { value: String },
    /// Nested scripts went deeper than allowed.
    ScriptTooDeep { depth: u32 },
    /// A byte string is not valid UTF-8 text.
    NotUtf8,
    /// A text is neither `true` nor `false`.
    NotBooleanLike,
    /// A text is not an integer written in base 10.
    NotIntegerLike,
    /// A retrieved body is larger than allowed.
    ValueTooLarge { size: usize },
    Unknown,
}

impl RadError {
    /// The stable numeric kind of an error.
    pub open spec fn spec_code(self) -> u8 {
        match self {
            RadError::SourceScriptNotCBOR => 0x00,
            RadError::SourceScriptNotArray => 0x01,
            RadError::SourceScriptNotRADON => 0x02,
            RadError::RequestTooManySources => 0x10,
            RadError::ScriptTooManyCalls { .. } => 0x11,
            RadError::UnsupportedOperator { .. } => 0x20,
            RadError::WrongArguments { .. } => 0x20,
            RadError::Http { .. } => 0x21,
            RadError::Underflow => 0x22,
            RadError::Overflow => 0x23,
            RadError::MathDomain => 0x24,
            RadError::DivisionByZero => 0x25,
            RadError::WrongMixedCast { .. } => 0x30,
            RadError::ArrayIndexNotFound { .. } => 0x31,
            RadError::MapKeyNotFound => 0x32,
            RadError::UnsupportedReducer { .. } => 0x40,
            RadError::UnsupportedOpNonHomogeneous { .. } => 0x41,
            RadError::ModeTie => 0x50,
            RadError::OutlierReveal => 0x51,
            RadError::ArrayFilterWrongSubscript { .. } => 0x20,
            RadError::ScriptTooDeep { .. } => 0xE0,
            RadError::ValueTooLarge { .. } => 0xE0,
            RadError::NotUtf8 => 0xFF,
            RadError::NotBooleanLike => 0xFF,
            RadError::NotIntegerLike => 0xFF,
            RadError::Unknown => 0xFF,
        }
    }

    /// The stable numeric kind of this error.
    pub fn code(&self) -> (r: u8)
        ensures
            r == self.spec_code(),
    {
        match self {
            RadError::SourceScriptNotCBOR => 0x00,
            RadError::SourceScriptNotArray => 0x01,
            RadError::SourceScriptNotRADON => 0x02,
            RadError::RequestTooManySources => 0x10,
            RadError::ScriptTooManyCalls { .. } => 0x11,
            RadError::UnsupportedOperator { .. } => 0x20,
            RadError::WrongArguments { .. } => 0x20,
            RadError::Http { .. } => 0x21,
            RadError::Underflow => 0x22,
            RadError::Overflow => 0x23,
            RadError::MathDomain => 0x24,
            RadError::DivisionByZero => 0x25,
            RadError::WrongMixedCast { .. } => 0x30,
            RadError::ArrayIndexNotFound { .. } => 0x31,
            RadError::MapKeyNotFound => 0x32,
            RadError::UnsupportedReducer { .. } => 0x40,
            RadError::UnsupportedOpNonHomogeneous { .. } => 0x41,
            RadError::ModeTie => 0x50,
            RadError::OutlierReveal => 0x51,
            RadError::ArrayFilterWrongSubscript { .. } => 0x20,
            RadError::ScriptTooDeep { .. } => 0xE0,
            RadError::ValueTooLarge { .. } => 0xE0,
            RadError::NotUtf8 => 0xFF,
            RadError::NotBooleanLike => 0xFF,
            RadError::NotIntegerLike => 0xFF,
            RadError::Unknown => 0xFF,
        }
    }
}

} // verus!
