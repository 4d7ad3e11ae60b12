use vstd::prelude::*;

use crate::kinds::{decimal_of, integer_text};
use crate::error::RadError;
use crate::types::{CborValue, RadonKind, RadonTypes};

verus! {

/// The name of a kind of value.
pub open spec fn kind_text(k: RadonKind) -> Seq<char> {
    match k {
        RadonKind::Boolean => "RadonBoolean"@,
        RadonKind::Integer => "RadonInteger"@,
        RadonKind::Float => "RadonFloat"@,
        RadonKind::String => "RadonString"@,
        RadonKind::Bytes => "RadonBytes"@,
        RadonKind::Array => "RadonArray"@,
        RadonKind::Mapping => "RadonMap"@,
        RadonKind::Mixed => "RadonMixed"@,
        RadonKind::Error => "RadonError"@,
    }
}

/// The name of a kind of value.
pub fn kind_name(k: RadonKind) -> (r: String)
    ensures
        r@ == kind_text(k),
{
    String::from_str(
        match k {
            RadonKind::Boolean => "RadonBoolean",
            RadonKind::Integer => "RadonInteger",
            RadonKind::Float => "RadonFloat",
            RadonKind::String => "RadonString",
            RadonKind::Bytes => "RadonBytes",
            RadonKind::Array => "RadonArray",
            RadonKind::Mapping => "RadonMap",
            RadonKind::Mixed => "RadonMixed",
            RadonKind::Error => "RadonError",
        },
    )
}

/// How a value is described in messages: booleans, integers and text with their content,
/// doubles with their bit pattern, other values by their kind.
pub open spec fn value_text(v: RadonTypes) -> Seq<char> {
    "RadonTypes::"@ + kind_text(v.kind_of()) + match v {
        RadonTypes::Boolean(b) => "("@ + (if b {
            "true"@
        } else {
            "false"@
        }) + ")"@,
        RadonTypes::Integer(i) => "("@ + decimal_of(i as int) + ")"@,
        RadonTypes::Float(f) => "(bits "@ + decimal_of(f as int) + ")"@,
        RadonTypes::String(s) => "(\""@ + s@ + "\")"@,
        _ => Seq::empty(),
    }
}

/// The description of a value in messages.
pub fn describe_value(v: &RadonTypes) -> (r: String)
    ensures
        r@ == value_text(*v),
{
    let mut out = String::from_str("RadonTypes::");
    let k = kind_name(v.kind());
    out.append(k.as_str());
    match v {
        RadonTypes::Boolean(b) => {
            out.append("(");
            out.append(if *b { "true" } else { "false" });
            out.append(")");
        },
        RadonTypes::Integer(i) => {
            let d = integer_text(*i);
            out.append("(");
            out.append(d.as_str());
            out.append(")");
        },
        RadonTypes::Float(f) => {
            let d = integer_text(*f as i128);
            out.append("(bits ");
            out.append(d.as_str());
            out.append(")");
        },
        RadonTypes::String(s) => {
            out.append("(\"");
            out.append(s.as_str());
            out.append("\")");
        },
        _ => {},
    }
    assert(out@ =~= value_text(*v));
    out
}

/// The name of an operator, without the kind it applies to.
pub open spec fn operator_text(code: u8) -> Seq<char> {
    match code {
        0xFF => "Fail"@,
        0x00 => "Identity"@,
        0x10 => "Count"@,
        0x11 => "Filter"@,
        0x1A => "Map"@,
        0x1B => "Reduce"@,
        0x1D => "Sort"@,
        0x21 => "Negate"@,
        0x30 => "AsString"@,
        0x31 => "Hash"@,
        0x40 => "Absolute"@,
        0x41 => "AsFloat"@,
        0x42 => "AsString"@,
        0x43 => "GreaterThan"@,
        0x44 => "LessThan"@,
        0x46 => "Modulo"@,
        0x47 => "Multiply"@,
        0x48 => "Negate"@,
        0x49 => "Power"@,
        0x50 => "Absolute"@,
        0x51 => "AsString"@,
        0x52 => "Ceiling"@,
        0x53 => "GreaterThan"@,
        0x54 => "Floor"@,
        0x55 => "LessThan"@,
        0x56 => "Modulo"@,
        0x57 => "Multiply"@,
        0x58 => "Negate"@,
        0x59 => "Power"@,
        0x5B => "Round"@,
        0x5D => "Truncate"@,
        0x68 => "Keys"@,
        0x70 => "AsBoolean"@,
        0x72 => "AsFloat"@,
        0x73 => "AsInteger"@,
        0x74 => "Length"@,
        0x75 => "Match"@,
        0x7D => "ToLowerCase"@,
        0x7E => "ToUpperCase"@,
        0x80 => "AsArray"@,
        0x81 => "AsBoolean"@,
        0x82 => "AsFloat"@,
        0x83 => "AsInteger"@,
        0x84 => "AsMap"@,
        0x85 => "AsString"@,
        0xA0 => "Get"@,
        0xA1 => "AsString"@,
        0xA2 => "AsMixed"@,
        0xA3 => "AsMixed"@,
        0xA4 => "AsMixed"@,
        0xA5 => "ParseJSON"@,
        0xA6 => "Get"@,
        0xA7 => "Get"@,
        0xA8 => "Values"@,
        _ => "Unknown"@,
    }
}

/// The name of an operator, without the kind it applies to.
pub fn operator_name(code: u8) -> (r: String)
    ensures
        r@ == operator_text(code),
{
    String::from_str(
        match code {
            0xFF => "Fail",
            0x00 => "Identity",
            0x10 => "Count",
            0x11 => "Filter",
            0x1A => "Map",
            0x1B => "Reduce",
            0x1D => "Sort",
            0x21 => "Negate",
            0x30 => "AsString",
            0x31 => "Hash",
            0x40 => "Absolute",
            0x41 => "AsFloat",
            0x42 => "AsString",
            0x43 => "GreaterThan",
            0x44 => "LessThan",
            0x46 => "Modulo",
            0x47 => "Multiply",
            0x48 => "Negate",
            0x49 => "Power",
            0x50 => "Absolute",
            0x51 => "AsString",
            0x52 => "Ceiling",
            0x53 => "GreaterThan",
            0x54 => "Floor",
            0x55 => "LessThan",
            0x56 => "Modulo",
            0x57 => "Multiply",
            0x58 => "Negate",
            0x59 => "Power",
            0x5B => "Round",
            0x5D => "Truncate",
            0x68 => "Keys",
            0x70 => "AsBoolean",
            0x72 => "AsFloat",
            0x73 => "AsInteger",
            0x74 => "Length",
            0x75 => "Match",
            0x7D => "ToLowerCase",
            0x7E => "ToUpperCase",
            0x80 => "AsArray",
            0x81 => "AsBoolean",
            0x82 => "AsFloat",
            0x83 => "AsInteger",
            0x84 => "AsMap",
            0x85 => "AsString",
            0xA0 => "Get",
            0xA1 => "AsString",
            0xA2 => "AsMixed",
            0xA3 => "AsMixed",
            0xA4 => "AsMixed",
            0xA5 => "ParseJSON",
            0xA6 => "Get",
            0xA7 => "Get",
            0xA8 => "Values",
            _ => "Unknown",
        },
    )
}

/// The name of a reducer.
pub open spec fn reducer_text(code: u8) -> Seq<char> {
    match code {
        0x02 => "Mode"@,
        0x03 => "AverageMean"@,
        0x05 => "AverageMedian"@,
        0x07 => "DeviationStandard"@,
        0x0B => "HashConcatenate"@,
        0x0C => "Unwrap"@,
        0x00 => "Min"@,
        0x01 => "Max"@,
        0x04 => "AverageMeanWeighted"@,
        0x06 => "AverageMedianWeighted"@,
        0x08 => "DeviationAverageAbsolute"@,
        0x09 => "DeviationMedianAbsolute"@,
        0x0A => "DeviationMaximumAbsolute"@,
        _ => "Unknown"@,
    }
}

/// The name of a reducer.
pub fn reducer_name(code: u8) -> (r: String)
    ensures
        r@ == reducer_text(code),
{
    String::from_str(
        match code {
            0x02 => "Mode",
            0x03 => "AverageMean",
            0x05 => "AverageMedian",
            0x07 => "DeviationStandard",
            0x0B => "HashConcatenate",
            0x0C => "Unwrap",
            0x00 => "Min",
            0x01 => "Max",
            0x04 => "AverageMeanWeighted",
            0x06 => "AverageMedianWeighted",
            0x08 => "DeviationAverageAbsolute",
            0x09 => "DeviationMedianAbsolute",
            0x0A => "DeviationMaximumAbsolute",
            _ => "Unknown",
        },
    )
}

/// How a CBOR datum is shown in messages: text and integers with their content, doubles
/// with their bit pattern, byte strings and maps by their size.
pub open spec fn cbor_text(c: CborValue) -> Seq<char>
    decreases c, 0nat,
{
    match c {
        CborValue::Null => "Null"@,
        CborValue::Bool(b) => "Bool("@ + (if b {
            "true"@
        } else {
            "false"@
        }) + ")"@,
        CborValue::Integer(i) => "Integer("@ + decimal_of(i as int) + ")"@,
        CborValue::Float(f) => "Float(bits "@ + decimal_of(f as int) + ")"@,
        CborValue::Bytes(b) => "Bytes("@ + decimal_of(b@.len() as int) + " bytes)"@,
        CborValue::Text(t) => "Text(\""@ + t@ + "\")"@,
        CborValue::Array(xs) => "Array(["@ + cbor_items_text(xs, 0) + "])"@,
        CborValue::Mapping(es) => "Map("@ + decimal_of(es@.len() as int) + " entries)"@,
    }
}

/// The data from index `i` on, shown and separated by commas.
pub open spec fn cbor_items_text(xs: Vec<CborValue>, i: nat) -> Seq<char>
    decreases xs, xs@.len() - i,
{
    if i >= xs@.len() {
        Seq::empty()
    } else {
        (if i > 0 {
            ", "@
        } else {
            Seq::empty()
        }) + cbor_text(xs@[i as int]) + cbor_items_text(xs, i + 1)
    }
}

/// Appends how a CBOR datum is shown.
fn push_cbor_text(out: &mut String, c: &CborValue)
    ensures
        final(out)@ == old(out)@ + cbor_text(*c),
    decreases c,
{
    let ghost base = out@;
    match c {
        CborValue::Null => out.append("Null"),
        CborValue::Bool(b) => {
            out.append("Bool(");
            out.append(if *b { "true" } else { "false" });
            out.append(")");
        },
        CborValue::Integer(i) => {
            let d = integer_text(*i);
            out.append("Integer(");
            out.append(d.as_str());
            out.append(")");
        },
        CborValue::Float(f) => {
            let d = integer_text(*f as i128);
            out.append("Float(bits ");
            out.append(d.as_str());
            out.append(")");
        },
        CborValue::Bytes(b) => {
            let d = integer_text(b.len() as i128);
            out.append("Bytes(");
            out.append(d.as_str());
            out.append(" bytes)");
        },
        CborValue::Text(t) => {
            out.append("Text(\"");
            out.append(t.as_str());
            out.append("\")");
        },
        CborValue::Array(xs) => {
            out.append("Array([");
            push_cbor_items_text(out, xs);
            out.append("])");
        },
        CborValue::Mapping(es) => {
            let d = integer_text(es.len() as i128);
            out.append("Map(");
            out.append(d.as_str());
            out.append(" entries)");
        },
    }
    assert(out@ =~= base + cbor_text(*c));
}

/// Appends how the data are shown, separated by commas.
fn push_cbor_items_text(out: &mut String, xs: &Vec<CborValue>)
    ensures
        final(out)@ == old(out)@ + cbor_items_text(*xs, 0),
    decreases xs, 0nat,
{
    let ghost base = out@;
    let mut i: usize = 0;
    while i < xs.len()
        invariant
            i <= xs@.len(),
            out@ + cbor_items_text(*xs, i as nat) == base + cbor_items_text(*xs, 0),
        decreases xs@.len() - i,
    {
        let ghost before = out@;
        if i > 0 {
            out.append(", ");
        }
        push_cbor_text(out, &xs[i]);
        proof {
            assert(cbor_items_text(*xs, i as nat) == (if i > 0 {
                ", "@
            } else {
                Seq::empty()
            }) + cbor_text(xs@[i as int]) + cbor_items_text(*xs, (i + 1) as nat));
            assert(out@ + cbor_items_text(*xs, (i + 1) as nat) =~= before + cbor_items_text(
                *xs,
                i as nat,
            ));
        }
        i = i + 1;
    }
    assert(out@ + cbor_items_text(*xs, i as nat) =~= out@);
}

impl RadError {
    /// The message that describes an error.
    pub open spec fn message_text(self) -> Seq<char> {
        match self {
            RadError::WrongArguments { input_kind, operator, args } => "Wrong `"@ + kind_text(
                input_kind,
            ) + "::"@ + operator_text(operator) + "()` arguments: `["@ + cbor_items_text(args, 0)
                + "]`"@,
            RadError::ArrayFilterWrongSubscript { value } =>
                "ArrayFilter subscript output was not RadonBoolean (was `"@ + value@ + "`)"@,
            RadError::UnsupportedReducer { array, reducer } => "Reducer `RadonReducers::"@
                + reducer_text(reducer) + "` does not apply to this array of "@ + decimal_of(
                array@.len() as int,
            ) + " elements"@,
            RadError::UnsupportedOpNonHomogeneous { reducer } => "Reducer `RadonReducers::"@
                + reducer_text(reducer) + "` needs an array whose elements share one kind"@,
            RadError::UnsupportedOperator { input_kind, operator } => "Operator `"@
                + operator_text(operator) + "` is not supported on `"@ + kind_text(input_kind)
                + "`"@,
            RadError::ArrayIndexNotFound { index } => "No element at index "@ + decimal_of(
                index as int,
            ),
            RadError::ScriptTooManyCalls { calls } => "A script holds "@ + decimal_of(
                calls as int,
            ) + " calls, more than allowed"@,
            RadError::ScriptTooDeep { depth } => "Scripts nest "@ + decimal_of(depth as int)
                + " deep, more than allowed"@,
            RadError::ValueTooLarge { size } => "A body of "@ + decimal_of(size as int)
                + " bytes is larger than allowed"@,
            RadError::WrongMixedCast { to } => "The value cannot be read as `"@ + kind_text(to)
                + "`"@,
            RadError::Http { status } => "HTTP status "@ + decimal_of(status as int),
            RadError::SourceScriptNotCBOR => "The script is not CBOR"@,
            RadError::SourceScriptNotArray => "The script is not an array"@,
            RadError::SourceScriptNotRADON => "The script is not a list of calls"@,
            RadError::RequestTooManySources => "The request has too many sources"@,
            RadError::Underflow => "Underflow"@,
            RadError::Overflow => "Overflow"@,
            RadError::MathDomain => "The result is not a finite number"@,
            RadError::DivisionByZero => "Division by zero"@,
            RadError::MapKeyNotFound => "The map has no such key"@,
            RadError::ModeTie => "The mode is tied"@,
            RadError::OutlierReveal => "The reveal is an outlier"@,
            RadError::Unknown => "Unknown error"@,
            RadError::NotUtf8 => "The bytes are not UTF-8 text"@,
            RadError::NotBooleanLike => "The text is neither `true` nor `false`"@,
            RadError::NotIntegerLike => "The text is not a base-10 integer"@,
        }
    }

    /// The message that describes this error.
    pub fn message(&self) -> (r: String)
        ensures
            r@ == self.message_text(),
    {
        let mut out = String::new();
        let ghost base = out@;
        match self {
            RadError::WrongArguments { input_kind, operator, args } => {
                out.append("Wrong `");
                let k = kind_name(*input_kind);
                out.append(k.as_str());
                out.append("::");
                let o = operator_name(*operator);
                out.append(o.as_str());
                out.append("()` arguments: `[");
                push_cbor_items_text(&mut out, args);
                out.append("]`");
            },
            RadError::ArrayFilterWrongSubscript { value } => {
                out.append("ArrayFilter subscript output was not RadonBoolean (was `");
                out.append(value.as_str());
                out.append("`)");
            },
            RadError::UnsupportedReducer { array, reducer } => {
                out.append("Reducer `RadonReducers::");
                let n = reducer_name(*reducer);
                out.append(n.as_str());
                out.append("` does not apply to this array of ");
                let d = integer_text(array.len() as i128);
                out.append(d.as_str());
                out.append(" elements");
            },
            RadError::UnsupportedOpNonHomogeneous { reducer } => {
                out.append("Reducer `RadonReducers::");
                let n = reducer_name(*reducer);
                out.append(n.as_str());
                out.append("` needs an array whose elements share one kind");
            },
            RadError::UnsupportedOperator { input_kind, operator } => {
                out.append("Operator `");
                let o = operator_name(*operator);
                out.append(o.as_str());
                out.append("` is not supported on `");
                let k = kind_name(*input_kind);
                out.append(k.as_str());
                out.append("`");
            },
            RadError::ArrayIndexNotFound { index } => {
                out.append("No element at index ");
                let d = integer_text(*index);
                out.append(d.as_str());
            },
            RadError::ScriptTooManyCalls { calls } => {
                out.append("A script holds ");
                let d = integer_text(*calls as i128);
                out.append(d.as_str());
                out.append(" calls, more than allowed");
            },
            RadError::ScriptTooDeep { depth } => {
                out.append("Scripts nest ");
                let d = integer_text(*depth as i128);
                out.append(d.as_str());
                out.append(" deep, more than allowed");
            },
            RadError::ValueTooLarge { size } => {
                out.append("A body of ");
                let d = integer_text(*size as i128);
                out.append(d.as_str());
                out.append(" bytes is larger than allowed");
            },
            RadError::WrongMixedCast { to } => {
                out.append("The value cannot be read as `");
                let k = kind_name(*to);
                out.append(k.as_str());
                out.append("`");
            },
            RadError::Http { status } => {
                out.append("HTTP status ");
                let d = integer_text(*status as i128);
                out.append(d.as_str());
            },
            RadError::SourceScriptNotCBOR => out.append("The script is not CBOR"),
            RadError::SourceScriptNotArray => out.append("The script is not an array"),
            RadError::SourceScriptNotRADON => out.append("The script is not a list of calls"),
            RadError::RequestTooManySources => out.append("The request has too many sources"),
            RadError::Underflow => out.append("Underflow"),
            RadError::Overflow => out.append("Overflow"),
            RadError::MathDomain => out.append("The result is not a finite number"),
            RadError::DivisionByZero => out.append("Division by zero"),
            RadError::MapKeyNotFound => out.append("The map has no such key"),
            RadError::ModeTie => out.append("The mode is tied"),
            RadError::OutlierReveal => out.append("The reveal is an outlier"),
            RadError::Unknown => out.append("Unknown error"),
            RadError::NotUtf8 => out.append("The bytes are not UTF-8 text"),
            RadError::NotBooleanLike => out.append("The text is neither `true` nor `false`"),
            RadError::NotIntegerLike => out.append("The text is not a base-10 integer"),
        }
        assert(out@ =~= self.message_text());
        out
    }
}

} // verus!
