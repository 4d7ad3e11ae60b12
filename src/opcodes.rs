use vstd::prelude::*;

verus! {

/// The operators of the scripting language.
/// Their codes are part of the protocol: every node must read them alike.
#[derive(Debug, Clone, Copy, PartialEq, Eq, Structural)]
pub enum RadonOpCodes {
    Fail,
    Identity,
    ArrayCount,
    ArrayFilter,
    ArrayMap,
    ArrayReduce,
    ArraySort,
    BooleanNegate,
    BytesAsString,
    BytesHash,
    IntegerAbsolute,
    IntegerAsFloat,
    IntegerAsString,
    IntegerGreaterThan,
    IntegerLessThan,
    IntegerModulo,
    IntegerMultiply,
    IntegerNegate,
    IntegerPower,
    FloatAbsolute,
    FloatAsString,
    FloatCeiling,
    FloatGreaterThan,
    FloatFloor,
    FloatLessThan,
    FloatModulo,
    FloatMultiply,
    FloatNegate,
    FloatPower,
    FloatRound,
    FloatTruncate,
    MapKeys,
    StringAsBoolean,
    StringAsFloat,
    StringAsInteger,
    StringLength,
    StringMatch,
    StringToLowerCase,
    StringToUpperCase,
    MixedAsArray,
    MixedAsBoolean,
    MixedAsFloat,
    MixedAsInteger,
    MixedAsMap,
    MixedAsString,
    Get,
    BooleanAsString,
    IntegerAsMixed,
    FloatAsMixed,
    StringAsMixed,
    StringParseJSON,
    ArrayGet,
    MapGet,
    MapValues,
}

/// The operator with a given code, if there is one.
pub open spec fn spec_from_code(code: u8) -> Option<RadonOpCodes> {
    match code {
        0xFF => Some(RadonOpCodes::Fail),
        0x00 => Some(RadonOpCodes::Identity),
        0x10 => Some(RadonOpCodes::ArrayCount),
        0x11 => Some(RadonOpCodes::ArrayFilter),
        0x1A => Some(RadonOpCodes::ArrayMap),
        0x1B => Some(RadonOpCodes::ArrayReduce),
        0x1D => Some(RadonOpCodes::ArraySort),
        0x21 => Some(RadonOpCodes::BooleanNegate),
        0x30 => Some(RadonOpCodes::BytesAsString),
        0x31 => Some(RadonOpCodes::BytesHash),
        0x40 => Some(RadonOpCodes::IntegerAbsolute),
        0x41 => Some(RadonOpCodes::IntegerAsFloat),
        0x42 => Some(RadonOpCodes::IntegerAsString),
        0x43 => Some(RadonOpCodes::IntegerGreaterThan),
        0x44 => Some(RadonOpCodes::IntegerLessThan),
        0x46 => Some(RadonOpCodes::IntegerModulo),
        0x47 => Some(RadonOpCodes::IntegerMultiply),
        0x48 => Some(RadonOpCodes::IntegerNegate),
        0x49 => Some(RadonOpCodes::IntegerPower),
        0x50 => Some(RadonOpCodes::FloatAbsolute),
        0x51 => Some(RadonOpCodes::FloatAsString),
        0x52 => Some(RadonOpCodes::FloatCeiling),
        0x53 => Some(RadonOpCodes::FloatGreaterThan),
        0x54 => Some(RadonOpCodes::FloatFloor),
        0x55 => Some(RadonOpCodes::FloatLessThan),
        0x56 => Some(RadonOpCodes::FloatModulo),
        0x57 => Some(RadonOpCodes::FloatMultiply),
        0x58 => Some(RadonOpCodes::FloatNegate),
        0x59 => Some(RadonOpCodes::FloatPower),
        0x5B => Some(RadonOpCodes::FloatRound),
        0x5D => Some(RadonOpCodes::FloatTruncate),
        0x68 => Some(RadonOpCodes::MapKeys),
        0x70 => Some(RadonOpCodes::StringAsBoolean),
        0x72 => Some(RadonOpCodes::StringAsFloat),
        0x73 => Some(RadonOpCodes::StringAsInteger),
        0x74 => Some(RadonOpCodes::StringLength),
        0x75 => Some(RadonOpCodes::StringMatch),
        0x7D => Some(RadonOpCodes::StringToLowerCase),
        0x7E => Some(RadonOpCodes::StringToUpperCase),
        0x80 => Some(RadonOpCodes::MixedAsArray),
        0x81 => Some(RadonOpCodes::MixedAsBoolean),
        0x82 => Some(RadonOpCodes::MixedAsFloat),
        0x83 => Some(RadonOpCodes::MixedAsInteger),
        0x84 => Some(RadonOpCodes::MixedAsMap),
        0x85 => Some(RadonOpCodes::MixedAsString),
        0xA0 => Some(RadonOpCodes::Get),
        0xA1 => Some(RadonOpCodes::BooleanAsString),
        0xA2 => Some(RadonOpCodes::IntegerAsMixed),
        0xA3 => Some(RadonOpCodes::FloatAsMixed),
        0xA4 => Some(RadonOpCodes::StringAsMixed),
        0xA5 => Some(RadonOpCodes::StringParseJSON),
        0xA6 => Some(RadonOpCodes::ArrayGet),
        0xA7 => Some(RadonOpCodes::MapGet),
        0xA8 => Some(RadonOpCodes::MapValues),
        _ => None,
    }
}

impl RadonOpCodes {
    /// The stable 8-bit code of an operator.
    pub open spec fn spec_code(self) -> u8 {
        match self {
            RadonOpCodes::Fail => 0xFF,
            RadonOpCodes::Identity => 0x00,
            RadonOpCodes::ArrayCount => 0x10,
            RadonOpCodes::ArrayFilter => 0x11,
            RadonOpCodes::ArrayMap => 0x1A,
            RadonOpCodes::ArrayReduce => 0x1B,
            RadonOpCodes::ArraySort => 0x1D,
            RadonOpCodes::BooleanNegate => 0x21,
            RadonOpCodes::BytesAsString => 0x30,
            RadonOpCodes::BytesHash => 0x31,
            RadonOpCodes::IntegerAbsolute => 0x40,
            RadonOpCodes::IntegerAsFloat => 0x41,
            RadonOpCodes::IntegerAsString => 0x42,
            RadonOpCodes::IntegerGreaterThan => 0x43,
            RadonOpCodes::IntegerLessThan => 0x44,
            RadonOpCodes::IntegerModulo => 0x46,
            RadonOpCodes::IntegerMultiply => 0x47,
            RadonOpCodes::IntegerNegate => 0x48,
            RadonOpCodes::IntegerPower => 0x49,
            RadonOpCodes::FloatAbsolute => 0x50,
            RadonOpCodes::FloatAsString => 0x51,
            RadonOpCodes::FloatCeiling => 0x52,
            RadonOpCodes::FloatGreaterThan => 0x53,
            RadonOpCodes::FloatFloor => 0x54,
            RadonOpCodes::FloatLessThan => 0x55,
            RadonOpCodes::FloatModulo => 0x56,
            RadonOpCodes::FloatMultiply => 0x57,
            RadonOpCodes::FloatNegate => 0x58,
            RadonOpCodes::FloatPower => 0x59,
            RadonOpCodes::FloatRound => 0x5B,
            RadonOpCodes::FloatTruncate => 0x5D,
            RadonOpCodes::MapKeys => 0x68,
            RadonOpCodes::StringAsBoolean => 0x70,
            RadonOpCodes::StringAsFloat => 0x72,
            RadonOpCodes::StringAsInteger => 0x73,
            RadonOpCodes::StringLength => 0x74,
            RadonOpCodes::StringMatch => 0x75,
            RadonOpCodes::StringToLowerCase => 0x7D,
            RadonOpCodes::StringToUpperCase => 0x7E,
            RadonOpCodes::MixedAsArray => 0x80,
            RadonOpCodes::MixedAsBoolean => 0x81,
            RadonOpCodes::MixedAsFloat => 0x82,
            RadonOpCodes::MixedAsInteger => 0x83,
            RadonOpCodes::MixedAsMap => 0x84,
            RadonOpCodes::MixedAsString => 0x85,
            RadonOpCodes::Get => 0xA0,
            RadonOpCodes::BooleanAsString => 0xA1,
            RadonOpCodes::IntegerAsMixed => 0xA2,
            RadonOpCodes::FloatAsMixed => 0xA3,
            RadonOpCodes::StringAsMixed => 0xA4,
            RadonOpCodes::StringParseJSON => 0xA5,
            RadonOpCodes::ArrayGet => 0xA6,
            RadonOpCodes::MapGet => 0xA7,
            RadonOpCodes::MapValues => 0xA8,
        }
    }

    /// The stable 8-bit code of this operator.
    pub fn code(&self) -> (r: u8)
        ensures
            r == self.spec_code(),
    {
        match self {
            RadonOpCodes::Fail => 0xFF,
            RadonOpCodes::Identity => 0x00,
            RadonOpCodes::ArrayCount => 0x10,
            RadonOpCodes::ArrayFilter => 0x11,
            RadonOpCodes::ArrayMap => 0x1A,
            RadonOpCodes::ArrayReduce => 0x1B,
            RadonOpCodes::ArraySort => 0x1D,
            RadonOpCodes::BooleanNegate => 0x21,
            RadonOpCodes::BytesAsString => 0x30,
            RadonOpCodes::BytesHash => 0x31,
            RadonOpCodes::IntegerAbsolute => 0x40,
            RadonOpCodes::IntegerAsFloat => 0x41,
            RadonOpCodes::IntegerAsString => 0x42,
            RadonOpCodes::IntegerGreaterThan => 0x43,
            RadonOpCodes::IntegerLessThan => 0x44,
            RadonOpCodes::IntegerModulo => 0x46,
            RadonOpCodes::IntegerMultiply => 0x47,
            RadonOpCodes::IntegerNegate => 0x48,
            RadonOpCodes::IntegerPower => 0x49,
            RadonOpCodes::FloatAbsolute => 0x50,
            RadonOpCodes::FloatAsString => 0x51,
            RadonOpCodes::FloatCeiling => 0x52,
            RadonOpCodes::FloatGreaterThan => 0x53,
            RadonOpCodes::FloatFloor => 0x54,
            RadonOpCodes::FloatLessThan => 0x55,
            RadonOpCodes::FloatModulo => 0x56,
            RadonOpCodes::FloatMultiply => 0x57,
            RadonOpCodes::FloatNegate => 0x58,
            RadonOpCodes::FloatPower => 0x59,
            RadonOpCodes::FloatRound => 0x5B,
            RadonOpCodes::FloatTruncate => 0x5D,
            RadonOpCodes::MapKeys => 0x68,
            RadonOpCodes::StringAsBoolean => 0x70,
            RadonOpCodes::StringAsFloat => 0x72,
            RadonOpCodes::StringAsInteger => 0x73,
            RadonOpCodes::StringLength => 0x74,
            RadonOpCodes::StringMatch => 0x75,
            RadonOpCodes::StringToLowerCase => 0x7D,
            RadonOpCodes::StringToUpperCase => 0x7E,
            RadonOpCodes::MixedAsArray => 0x80,
            RadonOpCodes::MixedAsBoolean => 0x81,
            RadonOpCodes::MixedAsFloat => 0x82,
            RadonOpCodes::MixedAsInteger => 0x83,
            RadonOpCodes::MixedAsMap => 0x84,
            RadonOpCodes::MixedAsString => 0x85,
            RadonOpCodes::Get => 0xA0,
            RadonOpCodes::BooleanAsString => 0xA1,
            RadonOpCodes::IntegerAsMixed => 0xA2,
            RadonOpCodes::FloatAsMixed => 0xA3,
            RadonOpCodes::StringAsMixed => 0xA4,
            RadonOpCodes::StringParseJSON => 0xA5,
            RadonOpCodes::ArrayGet => 0xA6,
            RadonOpCodes::MapGet => 0xA7,
            RadonOpCodes::MapValues => 0xA8,
        }
    }

    /// The operator with the given code, if there is one.
    pub fn from_code(code: u8) -> (r: Option<RadonOpCodes>)
        ensures
            r == spec_from_code(code),
            r matches Some(op) ==> op.spec_code() == code,
            r is None ==> forall|op: RadonOpCodes| op.spec_code() != code,
    {
        match code {
            0xFF => Some(RadonOpCodes::Fail),
            0x00 => Some(RadonOpCodes::Identity),
            0x10 => Some(RadonOpCodes::ArrayCount),
            0x11 => Some(RadonOpCodes::ArrayFilter),
            0x1A => Some(RadonOpCodes::ArrayMap),
            0x1B => Some(RadonOpCodes::ArrayReduce),
            0x1D => Some(RadonOpCodes::ArraySort),
            0x21 => Some(RadonOpCodes::BooleanNegate),
            0x30 => Some(RadonOpCodes::BytesAsString),
            0x31 => Some(RadonOpCodes::BytesHash),
            0x40 => Some(RadonOpCodes::IntegerAbsolute),
            0x41 => Some(RadonOpCodes::IntegerAsFloat),
            0x42 => Some(RadonOpCodes::IntegerAsString),
            0x43 => Some(RadonOpCodes::IntegerGreaterThan),
            0x44 => Some(RadonOpCodes::IntegerLessThan),
            0x46 => Some(RadonOpCodes::IntegerModulo),
            0x47 => Some(RadonOpCodes::IntegerMultiply),
            0x48 => Some(RadonOpCodes::IntegerNegate),
            0x49 => Some(RadonOpCodes::IntegerPower),
            0x50 => Some(RadonOpCodes::FloatAbsolute),
            0x51 => Some(RadonOpCodes::FloatAsString),
            0x52 => Some(RadonOpCodes::FloatCeiling),
            0x53 => Some(RadonOpCodes::FloatGreaterThan),
            0x54 => Some(RadonOpCodes::FloatFloor),
            0x55 => Some(RadonOpCodes::FloatLessThan),
            0x56 => Some(RadonOpCodes::FloatModulo),
            0x57 => Some(RadonOpCodes::FloatMultiply),
            0x58 => Some(RadonOpCodes::FloatNegate),
            0x59 => Some(RadonOpCodes::FloatPower),
            0x5B => Some(RadonOpCodes::FloatRound),
            0x5D => Some(RadonOpCodes::FloatTruncate),
            0x68 => Some(RadonOpCodes::MapKeys),
            0x70 => Some(RadonOpCodes::StringAsBoolean),
            0x72 => Some(RadonOpCodes::StringAsFloat),
            0x73 => Some(RadonOpCodes::StringAsInteger),
            0x74 => Some(RadonOpCodes::StringLength),
            0x75 => Some(RadonOpCodes::StringMatch),
            0x7D => Some(RadonOpCodes::StringToLowerCase),
            0x7E => Some(RadonOpCodes::StringToUpperCase),
            0x80 => Some(RadonOpCodes::MixedAsArray),
            0x81 => Some(RadonOpCodes::MixedAsBoolean),
            0x82 => Some(RadonOpCodes::MixedAsFloat),
            0x83 => Some(RadonOpCodes::MixedAsInteger),
            0x84 => Some(RadonOpCodes::MixedAsMap),
            0x85 => Some(RadonOpCodes::MixedAsString),
            0xA0 => Some(RadonOpCodes::Get),
            0xA1 => Some(RadonOpCodes::BooleanAsString),
            0xA2 => Some(RadonOpCodes::IntegerAsMixed),
            0xA3 => Some(RadonOpCodes::FloatAsMixed),
            0xA4 => Some(RadonOpCodes::StringAsMixed),
            0xA5 => Some(RadonOpCodes::StringParseJSON),
            0xA6 => Some(RadonOpCodes::ArrayGet),
            0xA7 => Some(RadonOpCodes::MapGet),
            0xA8 => Some(RadonOpCodes::MapValues),
            _ => None,
        }
    }
}

} // verus!
