use vstd::prelude::*;

use crate::error::RadError;

verus! {

/// An uninterpreted CBOR datum, as found in script arguments and in `Mixed` values.
#[derive(Debug, PartialEq)]
pub enum CborValue {
    Null,
    Bool(bool),
    Integer(i128),
    /// IEEE-754 double, held as its bit pattern.
    Float(u64),
    Bytes(Vec<u8>),
    Text(String),
    Array(Vec<CborValue>),
    Mapping(Vec<(CborValue, CborValue)>),
}

/// A runtime value of the engine.
#[derive(Debug, PartialEq)]
pub enum RadonTypes {
    Boolean(bool),
    Integer(i128),
    /// IEEE-754 double, held as its bit pattern. The operators on doubles, the cast from
    /// CBOR, the reducers that compute a double and the codec refuse NaN and infinities.
    Float(u64),
    String(String),
    Bytes(Vec<u8>),
    Array(Vec<RadonTypes>),
    /// Entries in insertion order; keys are unique.
    Mapping(Vec<(String, RadonTypes)>),
    Mixed(CborValue),
    /// A failure, carried through the rest of a script as a value.
    Error(RadError),
}

/// The kind of a value, used for operator dispatch and homogeneity checks.
#[derive(Debug, Clone, Copy, PartialEq, Eq, Structural)]
pub enum RadonKind {
    Boolean,
    Integer,
    Float,
    String,
    Bytes,
    Array,
    Mapping,
    Mixed,
    Error,
}

impl RadonTypes {
    /// The kind of a value.
    pub open spec fn kind_of(self) -> RadonKind {
        match self {
            RadonTypes::Boolean(_) => RadonKind::Boolean,
            RadonTypes::Integer(_) => RadonKind::Integer,
            RadonTypes::Float(_) => RadonKind::Float,
            RadonTypes::String(_) => RadonKind::String,
            RadonTypes::Bytes(_) => RadonKind::Bytes,
            RadonTypes::Array(_) => RadonKind::Array,
            RadonTypes::Mapping(_) => RadonKind::Mapping,
            RadonTypes::Mixed(_) => RadonKind::Mixed,
            RadonTypes::Error(_) => RadonKind::Error,
        }
    }

    /// The kind tag of this value.
    pub fn kind(&self) -> (r: RadonKind)
        ensures
            r == self.kind_of(),
    {
        match self {
            RadonTypes::Boolean(_) => RadonKind::Boolean,
            RadonTypes::Integer(_) => RadonKind::Integer,
            RadonTypes::Float(_) => RadonKind::Float,
            RadonTypes::String(_) => RadonKind::String,
            RadonTypes::Bytes(_) => RadonKind::Bytes,
            RadonTypes::Array(_) => RadonKind::Array,
            RadonTypes::Mapping(_) => RadonKind::Mapping,
            RadonTypes::Mixed(_) => RadonKind::Mixed,
            RadonTypes::Error(_) => RadonKind::Error,
        }
    }
}

/// Structural equality of two CBOR data.
pub open spec fn same_cbor(a: CborValue, b: CborValue) -> bool
    decreases a,
{
    match (a, b) {
        (CborValue::Null, CborValue::Null) => true,
        (CborValue::Bool(x), CborValue::Bool(y)) => x == y,
        (CborValue::Integer(x), CborValue::Integer(y)) => x == y,
        (CborValue::Float(x), CborValue::Float(y)) => x == y,
        (CborValue::Bytes(x), CborValue::Bytes(y)) => x@ == y@,
        (CborValue::Text(x), CborValue::Text(y)) => x@ == y@,
        (CborValue::Array(x), CborValue::Array(y)) => x@.len() == y@.len() && forall|i: int|
            0 <= i < x@.len() ==> same_cbor(#[trigger] x@[i], y@[i]),
        (CborValue::Mapping(x), CborValue::Mapping(y)) => x@.len() == y@.len() && forall|i: int|
            0 <= i < x@.len() ==> same_cbor(#[trigger] x@[i].0, y@[i].0) && same_cbor(
                x@[i].1,
                y@[i].1,
            ),
        _ => false,
    }
}

/// Structural equality of two values: what it means for two values to be the same.
pub open spec fn same_value(a: RadonTypes, b: RadonTypes) -> bool
    decreases a,
{
    match (a, b) {
        (RadonTypes::Boolean(x), RadonTypes::Boolean(y)) => x == y,
        (RadonTypes::Integer(x), RadonTypes::Integer(y)) => x == y,
        (RadonTypes::Float(x), RadonTypes::Float(y)) => x == y,
        (RadonTypes::String(x), RadonTypes::String(y)) => x@ == y@,
        (RadonTypes::Bytes(x), RadonTypes::Bytes(y)) => x@ == y@,
        (RadonTypes::Array(x), RadonTypes::Array(y)) => x@.len() == y@.len() && forall|i: int|
            0 <= i < x@.len() ==> same_value(#[trigger] x@[i], y@[i]),
        (RadonTypes::Mapping(x), RadonTypes::Mapping(y)) => x@.len() == y@.len() && forall|i: int|
            0 <= i < x@.len() ==> (#[trigger] x@[i]).0@ == y@[i].0@ && same_value(
                x@[i].1,
                y@[i].1,
            ),
        (RadonTypes::Mixed(x), RadonTypes::Mixed(y)) => same_cbor(x, y),
        (RadonTypes::Error(x), RadonTypes::Error(y)) => same_error(x, y),
        _ => false,
    }
}

/// Two sequences of CBOR data are the same, element by element.
pub open spec fn same_cbors(a: Seq<CborValue>, b: Seq<CborValue>) -> bool {
    a.len() == b.len() && forall|i: int| 0 <= i < a.len() ==> same_cbor(#[trigger] a[i], b[i])
}

/// Structural equality of two errors, payloads included.
pub open spec fn same_error(x: RadError, y: RadError) -> bool
    decreases x,
{
    match (x, y) {
        (
            RadError::WrongArguments { input_kind: k1, operator: o1, args: a1 },
            RadError::WrongArguments { input_kind: k2, operator: o2, args: a2 },
        ) => k1 == k2 && o1 == o2 && a1@.len() == a2@.len() && forall|i: int|
            0 <= i < a1@.len() ==> same_cbor(#[trigger] a1@[i], a2@[i]),
        (
            RadError::ArrayFilterWrongSubscript { value: v1 },
            RadError::ArrayFilterWrongSubscript { value: v2 },
        ) => v1@ == v2@,
        (
            RadError::UnsupportedReducer { array: a1, reducer: r1 },
            RadError::UnsupportedReducer { array: a2, reducer: r2 },
        ) => r1 == r2 && a1@.len() == a2@.len() && forall|i: int|
            0 <= i < a1@.len() ==> same_value(#[trigger] a1@[i], a2@[i]),
        _ => x == y,
    }
}

/// A copy of an error, payload included.
pub fn clone_error(e: &RadError) -> (r: RadError)
    ensures
        same_error(r, *e),
    decreases e,
{
    match e {
        RadError::WrongArguments { input_kind, operator, args } => RadError::WrongArguments {
            input_kind: *input_kind,
            operator: *operator,
            args: clone_cbor_items(args),
        },
        RadError::ArrayFilterWrongSubscript { value } => RadError::ArrayFilterWrongSubscript {
            value: value.clone(),
        },
        RadError::UnsupportedReducer { array, reducer } => RadError::UnsupportedReducer {
            array: clone_values(array),
            reducer: *reducer,
        },
        RadError::SourceScriptNotCBOR => RadError::SourceScriptNotCBOR,
        RadError::SourceScriptNotArray => RadError::SourceScriptNotArray,
        RadError::SourceScriptNotRADON => RadError::SourceScriptNotRADON,
        RadError::RequestTooManySources => RadError::RequestTooManySources,
        RadError::ScriptTooManyCalls { calls } => RadError::ScriptTooManyCalls { calls: *calls },
        RadError::UnsupportedOperator { input_kind, operator } => RadError::UnsupportedOperator {
            input_kind: *input_kind,
            operator: *operator,
        },
        RadError::Http { status } => RadError::Http { status: *status },
        RadError::Underflow => RadError::Underflow,
        RadError::Overflow => RadError::Overflow,
        RadError::MathDomain => RadError::MathDomain,
        RadError::DivisionByZero => RadError::DivisionByZero,
        RadError::WrongMixedCast { to } => RadError::WrongMixedCast { to: *to },
        RadError::ArrayIndexNotFound { index } => RadError::ArrayIndexNotFound { index: *index },
        RadError::MapKeyNotFound => RadError::MapKeyNotFound,
        RadError::UnsupportedOpNonHomogeneous { reducer } => RadError::UnsupportedOpNonHomogeneous {
            reducer: *reducer,
        },
        RadError::ModeTie => RadError::ModeTie,
        RadError::OutlierReveal => RadError::OutlierReveal,
        RadError::ScriptTooDeep { depth } => RadError::ScriptTooDeep { depth: *depth },
        RadError::ValueTooLarge { size } => RadError::ValueTooLarge { size: *size },
        RadError::Unknown => RadError::Unknown,
        RadError::NotUtf8 => RadError::NotUtf8,
        RadError::NotBooleanLike => RadError::NotBooleanLike,
        RadError::NotIntegerLike => RadError::NotIntegerLike,
    }
}

/// A copy of a CBOR datum.
pub fn clone_cbor(c: &CborValue) -> (r: CborValue)
    ensures
        same_cbor(r, *c),
    decreases c,
{
    match c {
        CborValue::Null => CborValue::Null,
        CborValue::Bool(b) => CborValue::Bool(*b),
        CborValue::Integer(i) => CborValue::Integer(*i),
        CborValue::Float(f) => CborValue::Float(*f),
        CborValue::Bytes(b) => CborValue::Bytes(b.clone()),
        CborValue::Text(t) => CborValue::Text(t.clone()),
        CborValue::Array(items) => CborValue::Array(clone_cbor_items(items)),
        CborValue::Mapping(entries) => CborValue::Mapping(clone_cbor_entries(entries)),
    }
}

pub fn clone_cbor_items(items: &Vec<CborValue>) -> (r: Vec<CborValue>)
    ensures
        r@.len() == items@.len(),
        forall|j: int| 0 <= j < items@.len() ==> same_cbor(#[trigger] r@[j], items@[j]),
    decreases items, 0nat,
{
    let mut out: Vec<CborValue> = Vec::new();
    let mut i: usize = 0;
    while i < items.len()
        invariant
            i <= items@.len(),
            out@.len() == i,
            forall|j: int| 0 <= j < i ==> same_cbor(#[trigger] out@[j], items@[j]),
        decreases items@.len() - i,
    {
        let x = clone_cbor(&items[i]);
        out.push(x);
        i = i + 1;
    }
    out
}

fn clone_cbor_entries(entries: &Vec<(CborValue, CborValue)>) -> (r: Vec<(CborValue, CborValue)>)
    ensures
        r@.len() == entries@.len(),
        forall|j: int|
            0 <= j < entries@.len() ==> same_cbor(#[trigger] r@[j].0, entries@[j].0) && same_cbor(
                r@[j].1,
                entries@[j].1,
            ),
    decreases entries, 0nat,
{
    let mut out: Vec<(CborValue, CborValue)> = Vec::new();
    let mut i: usize = 0;
    while i < entries.len()
        invariant
            i <= entries@.len(),
            out@.len() == i,
            forall|j: int|
                0 <= j < i ==> same_cbor(#[trigger] out@[j].0, entries@[j].0) && same_cbor(
                    out@[j].1,
                    entries@[j].1,
                ),
        decreases entries@.len() - i,
    {
        let entry = &entries[i];
        proof {
            assert(decreases_to!(entries => entries@[i as int]));
        }
        let k = clone_cbor(&entry.0);
        let v = clone_cbor(&entry.1);
        out.push((k, v));
        i = i + 1;
    }
    out
}

/// A copy of a value.
pub fn clone_value(v: &RadonTypes) -> (r: RadonTypes)
    ensures
        same_value(r, *v),
    decreases v,
{
    match v {
        RadonTypes::Boolean(b) => RadonTypes::Boolean(*b),
        RadonTypes::Integer(i) => RadonTypes::Integer(*i),
        RadonTypes::Float(f) => RadonTypes::Float(*f),
        RadonTypes::String(s) => RadonTypes::String(s.clone()),
        RadonTypes::Bytes(b) => RadonTypes::Bytes(b.clone()),
        RadonTypes::Array(items) => RadonTypes::Array(clone_values(items)),
        RadonTypes::Mapping(entries) => RadonTypes::Mapping(clone_entries(entries)),
        RadonTypes::Mixed(c) => RadonTypes::Mixed(clone_cbor(c)),
        RadonTypes::Error(e) => RadonTypes::Error(clone_error(e)),
    }
}

fn clone_entries(entries: &Vec<(String, RadonTypes)>) -> (r: Vec<(String, RadonTypes)>)
    ensures
        r@.len() == entries@.len(),
        forall|j: int|
            0 <= j < entries@.len() ==> (#[trigger] r@[j]).0@ == entries@[j].0@ && same_value(
                r@[j].1,
                entries@[j].1,
            ),
    decreases entries, 0nat,
{
    let mut out: Vec<(String, RadonTypes)> = Vec::new();
    let mut i: usize = 0;
    while i < entries.len()
        invariant
            i <= entries@.len(),
            out@.len() == i,
            forall|j: int|
                0 <= j < i ==> (#[trigger] out@[j]).0@ == entries@[j].0@ && same_value(
                    out@[j].1,
                    entries@[j].1,
                ),
        decreases entries@.len() - i,
    {
        let entry = &entries[i];
        proof {
            assert(decreases_to!(entries => entries@[i as int]));
        }
        let k = entry.0.clone();
        let x = clone_value(&entry.1);
        out.push((k, x));
        i = i + 1;
    }
    out
}

/// A copy of a sequence of values.
pub fn clone_values(items: &Vec<RadonTypes>) -> (r: Vec<RadonTypes>)
    ensures
        r@.len() == items@.len(),
        forall|j: int| 0 <= j < items@.len() ==> same_value(#[trigger] r@[j], items@[j]),
    decreases items, 0nat,
{
    let mut out: Vec<RadonTypes> = Vec::new();
    let mut i: usize = 0;
    while i < items.len()
        invariant
            i <= items@.len(),
            out@.len() == i,
            forall|j: int| 0 <= j < i ==> same_value(#[trigger] out@[j], items@[j]),
        decreases items@.len() - i,
    {
        let x = clone_value(&items[i]);
        out.push(x);
        i = i + 1;
    }
    out
}

} // verus!
