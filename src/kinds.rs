use vstd::prelude::*;

use vstd::arithmetic::power::pow;

use crate::error::RadError;
use crate::opcodes::RadonOpCodes;
use vstd::utf8::{decode_utf8, valid_utf8};

use crate::codec::utf8_text;
use crate::reducers::{finite_bits, float_key, is_finite, sha256, sha256_of};
use crate::types::{
    clone_cbor, clone_value, same_cbor, same_cbors, same_value, CborValue, RadonKind, RadonTypes,
};

verus! {

/// The sign bit of an IEEE-754 double.
pub const SIGN_BIT: u64 = 0x8000_0000_0000_0000u64;

/// The lowercase form of a text, by Unicode's case mapping.
pub uninterp spec fn lowercase_of(s: Seq<char>) -> Seq<char>;

/// The uppercase form of a text, by Unicode's case mapping.
pub uninterp spec fn uppercase_of(s: Seq<char>) -> Seq<char>;

/// Relies on `str::to_lowercase`: the lowercase mapping of the text, a function of its
/// characters alone.
#[verifier::external_body]
fn to_lowercase(s: &String) -> (r: String)
    ensures
        r@ == lowercase_of(s@),
{
    s.to_lowercase()
}

/// Relies on `str::to_uppercase`: the uppercase mapping of the text, a function of its
/// characters alone.
#[verifier::external_body]
fn to_uppercase(s: &String) -> (r: String)
    ensures
        r@ == uppercase_of(s@),
{
    s.to_uppercase()
}

/// The decimal digit character for `d < 10`.
pub open spec fn digit_char(d: nat) -> char {
    ((48 + d) as u8) as char
}

/// The decimal digits of a natural number, most significant first, without leading zeros.
pub open spec fn digits_of(n: nat) -> Seq<char>
    decreases n,
{
    if n < 10 {
        seq![digit_char(n)]
    } else {
        digits_of(n / 10).push(digit_char(n % 10))
    }
}

/// The base-10 text of an integer, with a leading `-` when it is negative.
pub open spec fn decimal_of(i: int) -> Seq<char> {
    if i < 0 {
        seq!['-'] + digits_of((-i) as nat)
    } else {
        digits_of(i as nat)
    }
}

/// Relies on `ToString` for `i128`: its `Display` writes the integer in base 10, with a
/// leading `-` when negative and no leading zeros.
#[verifier::external_body]
pub(crate) fn integer_text(i: i128) -> (r: String)
    ensures
        r@ == decimal_of(i as int),
{
    i.to_string()
}

/// `c` is a decimal digit.
pub open spec fn is_digit(c: char) -> bool {
    '0' <= c && c <= '9'
}

/// The number that decimal digits stand for.
pub open spec fn digits_value(s: Seq<char>) -> int
    decreases s.len(),
{
    if s.len() == 0 {
        0
    } else {
        digits_value(s.drop_last()) * 10 + (s.last() as int - 48)
    }
}

/// `s` is one or more decimal digits.
pub open spec fn all_digits(s: Seq<char>) -> bool {
    s.len() > 0 && forall|i: int| 0 <= i < s.len() ==> is_digit(#[trigger] s[i])
}

/// The integer that a text writes in base 10: digits, after a `-` for a negative one.
pub open spec fn decimal_value(s: Seq<char>) -> Option<int> {
    if s.len() > 0 && s[0] == '-' {
        if all_digits(s.drop_first()) {
            Some(-digits_value(s.drop_first()))
        } else {
            None
        }
    } else if all_digits(s) {
        Some(digits_value(s))
    } else {
        None
    }
}

proof fn lemma_digits_grow(s: Seq<char>, k: int)
    requires
        0 <= k <= s.len(),
        forall|i: int| 0 <= i < s.len() ==> is_digit(#[trigger] s[i]),
    ensures
        0 <= digits_value(s.take(k)) <= digits_value(s),
    decreases s.len(),
{
    if k < s.len() {
        lemma_digits_grow(s.drop_last(), k);
        assert(s.drop_last().take(k) =~= s.take(k));
        assert(is_digit(s.last()));
    } else {
        assert(s.take(k) =~= s);
        if s.len() > 0 {
            lemma_digits_grow(s.drop_last(), s.len() - 1);
            assert(s.drop_last().take(s.len() - 1) =~= s.drop_last());
            assert(is_digit(s.last()));
        }
    }
}

/// The integer that a text writes in base 10.
fn parse_integer(s: &String) -> (r: Result<RadonTypes, RadError>)
    ensures
        match decimal_value(s@) {
            Some(n) => if in_i128(n) {
                r == Ok::<RadonTypes, RadError>(RadonTypes::Integer(n as i128))
            } else {
                r == Err::<RadonTypes, RadError>(RadError::Overflow)
            },
            None => r == Err::<RadonTypes, RadError>(RadError::NotIntegerLike),
        },
{
    let t = s.as_str();
    let n = t.unicode_len();
    if n == 0 {
        return Err(RadError::NotIntegerLike);
    }
    assert(t@ == s@);
    let first = t.get_char(0);
    let negative = first == '-';
    assert(negative == (s@[0] == '-'));
    let start: usize = if negative { 1 } else { 0 };
    let ghost body = s@.subrange(start as int, n as int);
    proof {
        if negative {
            assert(body =~= s@.drop_first());
        } else {
            assert(body =~= s@);
        }
    }
    if start == n {
        assert(s@.drop_first().len() == 0);
        assert(!all_digits(s@.drop_first()));
        assert(decimal_value(s@) is None);
        return Err(RadError::NotIntegerLike);
    }
    let mut i: usize = start;
    while i < n
        invariant
            start <= i <= n,
            n == s@.len(),
            t@ == s@,
            body == s@.subrange(start as int, n as int),
            negative ==> body == s@.drop_first() && s@[0] == '-',
            !negative ==> body == s@ && s@[0] != '-',
            forall|j: int| 0 <= j < i - start ==> is_digit(#[trigger] body[j]),
        decreases n - i,
    {
        let c = t.get_char(i);
        if !('0' <= c && c <= '9') {
            assert(!is_digit(body[i - start]));
            return Err(RadError::NotIntegerLike);
        }
        i = i + 1;
    }
    let mut acc: i128 = 0;
    let mut i: usize = start;
    assert(body.take(0) =~= Seq::<char>::empty());
    while i < n
        invariant
            start <= i <= n,
            n == s@.len(),
            t@ == s@,
            body == s@.subrange(start as int, n as int),
            negative ==> body == s@.drop_first() && s@[0] == '-',
            !negative ==> body == s@ && s@[0] != '-',
            body.len() > 0,
            forall|j: int| 0 <= j < body.len() ==> is_digit(#[trigger] body[j]),
            acc == if negative {
                -digits_value(body.take(i - start))
            } else {
                digits_value(body.take(i - start))
            },
        decreases n - i,
    {
        let c = t.get_char(i);
        let ghost k = i - start;
        assert(c == body[k]);
        assert(body.take(k + 1).drop_last() =~= body.take(k));
        assert(body.take(k + 1).last() == c);
        let d = (c as u32 - 48) as i128;
        proof {
            lemma_digits_grow(body, k + 1);
        }
        let next = match acc.checked_mul(10) {
            Some(m) => if negative {
                m.checked_sub(d)
            } else {
                m.checked_add(d)
            },
            None => None,
        };
        match next {
            Some(x) => {
                acc = x;
            },
            None => {
                proof {
                    assert(!in_i128(if negative {
                        -digits_value(body.take(k + 1))
                    } else {
                        digits_value(body.take(k + 1))
                    }));
                }
                return Err(RadError::Overflow);
            },
        }
        i = i + 1;
    }
    assert(body.take(n - start) =~= body);
    Ok(RadonTypes::Integer(acc))
}

/// The first argument, where it is an integer.
pub open spec fn int_arg(args: Seq<CborValue>) -> Option<i128> {
    if args.len() > 0 && args[0] is Integer {
        Some(args[0]->Integer_0)
    } else {
        None
    }
}

/// The first argument, where it is a double.
pub open spec fn float_arg(args: Seq<CborValue>) -> Option<u64> {
    if args.len() > 0 && args[0] is Float {
        Some(args[0]->Float_0)
    } else {
        None
    }
}

/// The first argument, where it is a text string.
pub open spec fn text_arg(args: Seq<CborValue>) -> Option<Seq<char>> {
    if args.len() > 0 && args[0] is Text {
        Some(args[0]->Text_0@)
    } else {
        None
    }
}

/// The failure for an operator that the kind of the value has no handler for.
pub open spec fn unsupported(v: RadonTypes, op: RadonOpCodes) -> Result<RadonTypes, RadError> {
    Err(RadError::UnsupportedOperator { input_kind: v.kind_of(), operator: op.spec_code() })
}

/// The failure for an operator whose arguments are missing or malformed: it keeps them.
pub open spec fn wrong_args(
    v: RadonTypes,
    op: RadonOpCodes,
    args: Seq<CborValue>,
    r: Result<RadonTypes, RadError>,
) -> bool {
    r matches Err(RadError::WrongArguments { input_kind, operator, args: kept }) && input_kind
        == v.kind_of() && operator == op.spec_code() && same_cbors(kept@, args)
}

/// `x` fits in an `i128`.
pub open spec fn in_i128(x: int) -> bool {
    i128::MIN <= x <= i128::MAX
}

/// The absolute value.
pub open spec fn abs(x: int) -> int {
    if x < 0 {
        -x
    } else {
        x
    }
}

/// The remainder of `a / b` with the division truncated toward zero: it has the sign of `a`.
pub open spec fn trunc_rem(a: int, b: int) -> int {
    if a >= 0 {
        abs(a) % abs(b)
    } else {
        -(abs(a) % abs(b))
    }
}

/// A double with its sign bit cleared.
pub open spec fn float_abs(b: u64) -> u64 {
    if b >= SIGN_BIT {
        (b - SIGN_BIT) as u64
    } else {
        b
    }
}

/// A double with its sign bit flipped.
pub open spec fn float_neg(b: u64) -> u64 {
    if b >= SIGN_BIT {
        (b - SIGN_BIT) as u64
    } else {
        (b + SIGN_BIT) as u64
    }
}

/// What an operator that is not applied to an array gives.
pub open spec fn scalar_outcome(
    v: RadonTypes,
    op: RadonOpCodes,
    args: Seq<CborValue>,
    r: Result<RadonTypes, RadError>,
) -> bool {
    match v {
        RadonTypes::Boolean(b) => match op {
            RadonOpCodes::BooleanNegate => r == Ok::<RadonTypes, RadError>(RadonTypes::Boolean(!b)),
            RadonOpCodes::BooleanAsString => r matches Ok(RadonTypes::String(t)) && t@ == (if b {
                "true"@
            } else {
                "false"@
            }),
            _ => r == unsupported(v, op),
        },
        RadonTypes::Integer(i) => integer_outcome(v, i, op, args, r),
        RadonTypes::Float(b) => float_outcome(v, b, op, args, r),
        RadonTypes::String(s) => match op {
            RadonOpCodes::StringLength => r == Ok::<RadonTypes, RadError>(
                RadonTypes::Integer(s@.len() as i128),
            ),
            RadonOpCodes::StringAsInteger => match decimal_value(s@) {
                Some(n) => if in_i128(n) {
                    r == Ok::<RadonTypes, RadError>(RadonTypes::Integer(n as i128))
                } else {
                    r == Err::<RadonTypes, RadError>(RadError::Overflow)
                },
                None => r == Err::<RadonTypes, RadError>(RadError::NotIntegerLike),
            },
            RadonOpCodes::StringAsBoolean => if s@ == "true"@ {
                r == Ok::<RadonTypes, RadError>(RadonTypes::Boolean(true))
            } else if s@ == "false"@ {
                r == Ok::<RadonTypes, RadError>(RadonTypes::Boolean(false))
            } else {
                r == Err::<RadonTypes, RadError>(RadError::NotBooleanLike)
            },
            RadonOpCodes::StringToLowerCase => r matches Ok(RadonTypes::String(t)) && t@
                == lowercase_of(s@),
            RadonOpCodes::StringToUpperCase => r matches Ok(RadonTypes::String(t)) && t@
                == uppercase_of(s@),
            _ => r == unsupported(v, op),
        },
        RadonTypes::Bytes(b) => match op {
            RadonOpCodes::BytesHash => r matches Ok(RadonTypes::Bytes(d)) && d@ == sha256_of(b@),
            RadonOpCodes::BytesAsString => if valid_utf8(b@) {
                r matches Ok(RadonTypes::String(t)) && t@ == decode_utf8(b@)
            } else {
                r == Err::<RadonTypes, RadError>(RadError::NotUtf8)
            },
            _ => r == unsupported(v, op),
        },
        RadonTypes::Mapping(entries) => mapping_outcome(v, entries@, op, args, r),
        RadonTypes::Mixed(c) => mixed_outcome(v, c, op, r),
        _ => r == unsupported(v, op),
    }
}

/// What an operator gives on an integer.
pub open spec fn integer_outcome(
    v: RadonTypes,
    i: i128,
    op: RadonOpCodes,
    args: Seq<CborValue>,
    r: Result<RadonTypes, RadError>,
) -> bool {
    match op {
        RadonOpCodes::IntegerAbsolute => if in_i128(abs(i as int)) {
            r == Ok::<RadonTypes, RadError>(RadonTypes::Integer(abs(i as int) as i128))
        } else {
            r == Err::<RadonTypes, RadError>(RadError::Overflow)
        },
        RadonOpCodes::IntegerAsString => r matches Ok(RadonTypes::String(t)) && t@ == decimal_of(
            i as int,
        ),
        RadonOpCodes::IntegerPower => match int_arg(args) {
            Some(e) => if e < 0 {
                wrong_args(v, op, args, r)
            } else if in_i128(pow(i as int, e as nat)) {
                r == Ok::<RadonTypes, RadError>(RadonTypes::Integer(pow(i as int, e as nat) as i128))
            } else {
                r == Err::<RadonTypes, RadError>(RadError::Overflow)
            },
            None => wrong_args(v, op, args, r),
        },
        RadonOpCodes::IntegerNegate => if in_i128(-i) {
            r == Ok::<RadonTypes, RadError>(RadonTypes::Integer((-i) as i128))
        } else {
            r == Err::<RadonTypes, RadError>(RadError::Overflow)
        },
        RadonOpCodes::IntegerGreaterThan => match int_arg(args) {
            Some(x) => r == Ok::<RadonTypes, RadError>(RadonTypes::Boolean(i > x)),
            None => wrong_args(v, op, args, r),
        },
        RadonOpCodes::IntegerLessThan => match int_arg(args) {
            Some(x) => r == Ok::<RadonTypes, RadError>(RadonTypes::Boolean(i < x)),
            None => wrong_args(v, op, args, r),
        },
        RadonOpCodes::IntegerModulo => match int_arg(args) {
            Some(x) => if x == 0 {
                r == Err::<RadonTypes, RadError>(RadError::DivisionByZero)
            } else if i == i128::MIN && x == -1 {
                r == Err::<RadonTypes, RadError>(RadError::Overflow)
            } else {
                r == Ok::<RadonTypes, RadError>(RadonTypes::Integer(trunc_rem(i as int, x as int) as i128))
            },
            None => wrong_args(v, op, args, r),
        },
        RadonOpCodes::IntegerMultiply => match int_arg(args) {
            Some(x) => if in_i128(i * x) {
                r == Ok::<RadonTypes, RadError>(RadonTypes::Integer((i * x) as i128))
            } else {
                r == Err::<RadonTypes, RadError>(RadError::Overflow)
            },
            None => wrong_args(v, op, args, r),
        },
        _ => r == unsupported(v, op),
    }
}

/// What an operator gives on a double.
pub open spec fn float_outcome(
    v: RadonTypes,
    b: u64,
    op: RadonOpCodes,
    args: Seq<CborValue>,
    r: Result<RadonTypes, RadError>,
) -> bool {
    let domain = Err::<RadonTypes, RadError>(RadError::MathDomain);
    match op {
        RadonOpCodes::FloatAbsolute => if is_finite(b) {
            r == Ok::<RadonTypes, RadError>(RadonTypes::Float(float_abs(b)))
        } else {
            r == domain
        },
        RadonOpCodes::FloatNegate => if is_finite(b) {
            r == Ok::<RadonTypes, RadError>(RadonTypes::Float(float_neg(b)))
        } else {
            r == domain
        },
        RadonOpCodes::FloatGreaterThan => match float_arg(args) {
            Some(x) => if is_finite(b) && is_finite(x) {
                r == Ok::<RadonTypes, RadError>(RadonTypes::Boolean(float_key(b) > float_key(x)))
            } else {
                r == domain
            },
            None => wrong_args(v, op, args, r),
        },
        RadonOpCodes::FloatLessThan => match float_arg(args) {
            Some(x) => if is_finite(b) && is_finite(x) {
                r == Ok::<RadonTypes, RadError>(RadonTypes::Boolean(float_key(b) < float_key(x)))
            } else {
                r == domain
            },
            None => wrong_args(v, op, args, r),
        },
        _ => r == unsupported(v, op),
    }
}

/// `i` is the index of the first entry under `key`.
pub open spec fn is_first_key(entries: Seq<(String, RadonTypes)>, key: Seq<char>, i: int) -> bool {
    &&& 0 <= i < entries.len()
    &&& entries[i].0@ == key
    &&& forall|j: int| 0 <= j < i ==> (#[trigger] entries[j]).0@ != key
}

/// The index of the first entry under `key`, if any.
pub open spec fn first_key(entries: Seq<(String, RadonTypes)>, key: Seq<char>) -> Option<int> {
    if exists|i: int| 0 <= i < entries.len() && (#[trigger] entries[i]).0@ == key {
        Some(choose|i: int| is_first_key(entries, key, i))
    } else {
        None
    }
}

/// What an operator gives on a map.
pub open spec fn mapping_outcome(
    v: RadonTypes,
    entries: Seq<(String, RadonTypes)>,
    op: RadonOpCodes,
    args: Seq<CborValue>,
    r: Result<RadonTypes, RadError>,
) -> bool {
    match op {
        RadonOpCodes::MapKeys => r matches Ok(RadonTypes::Array(ks)) && ks@.len() == entries.len()
            && forall|i: int|
            0 <= i < entries.len() ==> (#[trigger] ks@[i]) is String && ks@[i]->String_0@
                == entries[i].0@,
        RadonOpCodes::MapValues => r matches Ok(RadonTypes::Array(vs)) && vs@.len()
            == entries.len() && forall|i: int|
            0 <= i < entries.len() ==> same_value(#[trigger] vs@[i], entries[i].1),
        RadonOpCodes::MapGet => match text_arg(args) {
            Some(key) => match first_key(entries, key) {
                Some(i) => r is Ok && same_value(r->Ok_0, entries[i].1),
                None => r == Err::<RadonTypes, RadError>(RadError::MapKeyNotFound),
            },
            None => wrong_args(v, op, args, r),
        },
        _ => r == unsupported(v, op),
    }
}

/// What reading a CBOR map as a map gives: its keys must all be text.
pub open spec fn mixed_map_outcome(
    entries: Seq<(CborValue, CborValue)>,
    r: Result<RadonTypes, RadError>,
) -> bool {
    if forall|i: int| 0 <= i < entries.len() ==> (#[trigger] entries[i]).0 is Text {
        r matches Ok(RadonTypes::Mapping(es)) && es@.len() == entries.len() && forall|i: int|
            0 <= i < entries.len() ==> (#[trigger] es@[i]).0@ == entries[i].0->Text_0@
                && es@[i].1 is Mixed && same_cbor(es@[i].1->Mixed_0, entries[i].1)
    } else {
        r == Err::<RadonTypes, RadError>(RadError::WrongMixedCast { to: RadonKind::Mapping })
    }
}

/// What an operator gives on an uninterpreted CBOR value: the casts.
pub open spec fn mixed_outcome(
    v: RadonTypes,
    c: CborValue,
    op: RadonOpCodes,
    r: Result<RadonTypes, RadError>,
) -> bool {
    match op {
        RadonOpCodes::MixedAsBoolean => match c {
            CborValue::Bool(b) => r == Ok::<RadonTypes, RadError>(RadonTypes::Boolean(b)),
            _ => r == Err::<RadonTypes, RadError>(RadError::WrongMixedCast { to: RadonKind::Boolean }),
        },
        RadonOpCodes::MixedAsInteger => match c {
            CborValue::Integer(i) => r == Ok::<RadonTypes, RadError>(RadonTypes::Integer(i)),
            _ => r == Err::<RadonTypes, RadError>(RadError::WrongMixedCast { to: RadonKind::Integer }),
        },
        RadonOpCodes::MixedAsFloat => match c {
            CborValue::Float(b) => if is_finite(b) {
                r == Ok::<RadonTypes, RadError>(RadonTypes::Float(b))
            } else {
                r == Err::<RadonTypes, RadError>(RadError::MathDomain)
            },
            _ => r == Err::<RadonTypes, RadError>(RadError::WrongMixedCast { to: RadonKind::Float }),
        },
        RadonOpCodes::MixedAsString => match c {
            CborValue::Text(t) => r matches Ok(RadonTypes::String(s)) && s@ == t@,
            _ => r == Err::<RadonTypes, RadError>(RadError::WrongMixedCast { to: RadonKind::String }),
        },
        RadonOpCodes::MixedAsArray => match c {
            CborValue::Array(items) => r matches Ok(RadonTypes::Array(xs)) && xs@.len()
                == items@.len() && forall|i: int|
                0 <= i < items@.len() ==> (#[trigger] xs@[i]) is Mixed && same_cbor(
                    xs@[i]->Mixed_0,
                    items@[i],
                ),
            _ => r == Err::<RadonTypes, RadError>(RadError::WrongMixedCast { to: RadonKind::Array }),
        },
        RadonOpCodes::MixedAsMap => match c {
            CborValue::Mapping(entries) => mixed_map_outcome(entries@, r),
            _ => r == Err::<RadonTypes, RadError>(RadError::WrongMixedCast { to: RadonKind::Mapping }),
        },
        _ => r == unsupported(v, op),
    }
}

fn int_arg_of(args: &Vec<CborValue>, from: usize) -> (r: Option<i128>)
    requires
        from <= args@.len(),
    ensures
        r == int_arg(args@.skip(from as int)),
{
    if from < args.len() {
        match &args[from] {
            CborValue::Integer(i) => Some(*i),
            _ => None,
        }
    } else {
        None
    }
}

fn float_arg_of(args: &Vec<CborValue>, from: usize) -> (r: Option<u64>)
    requires
        from <= args@.len(),
    ensures
        r == float_arg(args@.skip(from as int)),
{
    if from < args.len() {
        match &args[from] {
            CborValue::Float(b) => Some(*b),
            _ => None,
        }
    } else {
        None
    }
}

fn unsupported_of(v: &RadonTypes, op: RadonOpCodes) -> (r: Result<RadonTypes, RadError>)
    ensures
        r == unsupported(*v, op),
{
    Err(RadError::UnsupportedOperator { input_kind: v.kind(), operator: op.code() })
}

fn wrong_args_of(v: &RadonTypes, op: RadonOpCodes, args: &Vec<CborValue>, from: usize) -> (r:
    Result<RadonTypes, RadError>)
    requires
        from <= args@.len(),
    ensures
        wrong_args(*v, op, args@.skip(from as int), r),
{
    Err(
        RadError::WrongArguments {
            input_kind: v.kind(),
            operator: op.code(),
            args: copy_args(args, from),
        },
    )
}

/// A copy of the arguments from `from` on.
pub fn copy_args(args: &Vec<CborValue>, from: usize) -> (r: Vec<CborValue>)
    requires
        from <= args@.len(),
    ensures
        same_cbors(r@, args@.skip(from as int)),
{
    let mut out: Vec<CborValue> = Vec::new();
    let mut i: usize = from;
    while i < args.len()
        invariant
            from <= i <= args@.len(),
            out@.len() == i - from,
            forall|j: int| 0 <= j < out@.len() ==> same_cbor(#[trigger] out@[j], args@[j + from]),
        decreases args@.len() - i,
    {
        out.push(clone_cbor(&args[i]));
        i = i + 1;
    }
    out
}

/// Applies an operator to a value that is not an array; `args@.skip(from)` are its arguments.
pub fn operate_scalar(v: &RadonTypes, op: RadonOpCodes, args: &Vec<CborValue>, from: usize) -> (r:
    Result<RadonTypes, RadError>)
    requires
        from <= args@.len(),
    ensures
        scalar_outcome(*v, op, args@.skip(from as int), r),
{
    match v {
        RadonTypes::Boolean(b) => match op {
            RadonOpCodes::BooleanNegate => Ok(RadonTypes::Boolean(!*b)),
            RadonOpCodes::BooleanAsString => Ok(
                RadonTypes::String(
                    if *b {
                        String::from_str("true")
                    } else {
                        String::from_str("false")
                    },
                ),
            ),
            _ => unsupported_of(v, op),
        },
        RadonTypes::Integer(i) => {
            let i = *i;
            match op {
                RadonOpCodes::IntegerAbsolute => if i == i128::MIN {
                    Err(RadError::Overflow)
                } else if i < 0 {
                    Ok(RadonTypes::Integer(-i))
                } else {
                    Ok(RadonTypes::Integer(i))
                },
                RadonOpCodes::IntegerAsString => Ok(RadonTypes::String(integer_text(i))),
                RadonOpCodes::IntegerPower => match int_arg_of(args, from) {
                    Some(e) => if e < 0 {
                        wrong_args_of(v, op, args, from)
                    } else {
                        match power(i, e) {
                            Some(p) => Ok(RadonTypes::Integer(p)),
                            None => Err(RadError::Overflow),
                        }
                    },
                    None => wrong_args_of(v, op, args, from),
                },
                RadonOpCodes::IntegerNegate => if i == i128::MIN {
                    Err(RadError::Overflow)
                } else {
                    Ok(RadonTypes::Integer(-i))
                },
                RadonOpCodes::IntegerGreaterThan => match int_arg_of(args, from) {
                    Some(x) => Ok(RadonTypes::Boolean(i > x)),
                    None => wrong_args_of(v, op, args, from),
                },
                RadonOpCodes::IntegerLessThan => match int_arg_of(args, from) {
                    Some(x) => Ok(RadonTypes::Boolean(i < x)),
                    None => wrong_args_of(v, op, args, from),
                },
                RadonOpCodes::IntegerModulo => match int_arg_of(args, from) {
                    Some(x) => if x == 0 {
                        Err(RadError::DivisionByZero)
                    } else if i == i128::MIN && x == -1 {
                        Err(RadError::Overflow)
                    } else {
                        Ok(RadonTypes::Integer(remainder(i, x)))
                    },
                    None => wrong_args_of(v, op, args, from),
                },
                RadonOpCodes::IntegerMultiply => match int_arg_of(args, from) {
                    Some(x) => match i.checked_mul(x) {
                        Some(p) => Ok(RadonTypes::Integer(p)),
                        None => Err(RadError::Overflow),
                    },
                    None => wrong_args_of(v, op, args, from),
                },
                _ => unsupported_of(v, op),
            }
        },
        RadonTypes::Float(b) => {
            let b = *b;
            match op {
                RadonOpCodes::FloatAbsolute => if !finite_bits(b) {
                    Err(RadError::MathDomain)
                } else if b >= SIGN_BIT {
                    Ok(RadonTypes::Float(b - SIGN_BIT))
                } else {
                    Ok(RadonTypes::Float(b))
                },
                RadonOpCodes::FloatNegate => if !finite_bits(b) {
                    Err(RadError::MathDomain)
                } else if b >= SIGN_BIT {
                    Ok(RadonTypes::Float(b - SIGN_BIT))
                } else {
                    Ok(RadonTypes::Float(b + SIGN_BIT))
                },
                RadonOpCodes::FloatGreaterThan => match float_arg_of(args, from) {
                    Some(x) => if finite_bits(b) && finite_bits(x) {
                        Ok(RadonTypes::Boolean(float_key_cmp(b, x) > 0))
                    } else {
                        Err(RadError::MathDomain)
                    },
                    None => wrong_args_of(v, op, args, from),
                },
                RadonOpCodes::FloatLessThan => match float_arg_of(args, from) {
                    Some(x) => if finite_bits(b) && finite_bits(x) {
                        Ok(RadonTypes::Boolean(float_key_cmp(b, x) < 0))
                    } else {
                        Err(RadError::MathDomain)
                    },
                    None => wrong_args_of(v, op, args, from),
                },
                _ => unsupported_of(v, op),
            }
        },
        RadonTypes::String(s) => match op {
            RadonOpCodes::StringLength => Ok(RadonTypes::Integer(s.unicode_len() as i128)),
            RadonOpCodes::StringAsInteger => parse_integer(s),
            RadonOpCodes::StringAsBoolean => {
                let yes = String::from_str("true");
                let no = String::from_str("false");
                if s.eq(&yes) {
                    Ok(RadonTypes::Boolean(true))
                } else if s.eq(&no) {
                    Ok(RadonTypes::Boolean(false))
                } else {
                    Err(RadError::NotBooleanLike)
                }
            },
            RadonOpCodes::StringToLowerCase => Ok(RadonTypes::String(to_lowercase(s))),
            RadonOpCodes::StringToUpperCase => Ok(RadonTypes::String(to_uppercase(s))),
            _ => unsupported_of(v, op),
        },
        RadonTypes::Bytes(b) => match op {
            RadonOpCodes::BytesHash => Ok(RadonTypes::Bytes(sha256(b))),
            RadonOpCodes::BytesAsString => match utf8_text(b.clone()) {
                Some(t) => Ok(RadonTypes::String(t)),
                None => Err(RadError::NotUtf8),
            },
            _ => unsupported_of(v, op),
        },
        RadonTypes::Mapping(entries) => operate_mapping(v, entries, op, args, from),
        RadonTypes::Mixed(c) => match op {
            RadonOpCodes::MixedAsBoolean => match c {
                CborValue::Bool(b) => Ok(RadonTypes::Boolean(*b)),
                _ => Err(RadError::WrongMixedCast { to: RadonKind::Boolean }),
            },
            RadonOpCodes::MixedAsInteger => match c {
                CborValue::Integer(i) => Ok(RadonTypes::Integer(*i)),
                _ => Err(RadError::WrongMixedCast { to: RadonKind::Integer }),
            },
            RadonOpCodes::MixedAsFloat => match c {
                CborValue::Float(b) => if finite_bits(*b) {
                    Ok(RadonTypes::Float(*b))
                } else {
                    Err(RadError::MathDomain)
                },
                _ => Err(RadError::WrongMixedCast { to: RadonKind::Float }),
            },
            RadonOpCodes::MixedAsString => match c {
                CborValue::Text(t) => Ok(RadonTypes::String(t.clone())),
                _ => Err(RadError::WrongMixedCast { to: RadonKind::String }),
            },
            RadonOpCodes::MixedAsArray => match c {
                CborValue::Array(items) => Ok(mixed_array(items)),
                _ => Err(RadError::WrongMixedCast { to: RadonKind::Array }),
            },
            RadonOpCodes::MixedAsMap => match c {
                CborValue::Mapping(entries) => mixed_map(entries),
                _ => Err(RadError::WrongMixedCast { to: RadonKind::Mapping }),
            },
            _ => unsupported_of(v, op),
        },
        _ => unsupported_of(v, op),
    }
}

/// Beyond the first power, each power of a base of magnitude two or more at least doubles
/// the magnitude of every earlier one.
proof fn lemma_pow_grows(b: int, m: nat, n: nat)
    requires
        abs(b) >= 2,
        m < n,
    ensures
        abs(pow(b, n)) >= 2 * abs(pow(b, m)),
        abs(pow(b, m)) >= 1,
    decreases n,
{
    reveal(pow);
    lemma_pow_nonzero(b, m);
    let p = pow(b, (n - 1) as nat);
    assert(pow(b, n) == b * p);
    assert(abs(b * p) == abs(b) * abs(p)) by (nonlinear_arith);
    if m + 1 == n {
        assert(abs(b) * abs(p) >= 2 * abs(p)) by (nonlinear_arith)
            requires
                abs(b) >= 2,
                abs(p) >= 0,
        ;
    } else {
        lemma_pow_grows(b, m, (n - 1) as nat);
        assert(abs(b) * abs(p) >= abs(p)) by (nonlinear_arith)
            requires
                abs(b) >= 2,
                abs(p) >= 0,
        ;
    }
}

proof fn lemma_pow_nonzero(b: int, n: nat)
    requires
        abs(b) >= 1,
    ensures
        abs(pow(b, n)) >= 1,
    decreases n,
{
    reveal(pow);
    if n > 0 {
        lemma_pow_nonzero(b, (n - 1) as nat);
        let p = pow(b, (n - 1) as nat);
        assert(abs(b * p) >= 1) by (nonlinear_arith)
            requires
                abs(b) >= 1,
                abs(p) >= 1,
        ;
    }
}

proof fn lemma_pow_of_unit(b: int, n: nat)
    requires
        -1 <= b <= 1,
    ensures
        b == 0 ==> pow(b, n) == if n == 0 {
            1int
        } else {
            0int
        },
        b == 1 ==> pow(b, n) == 1,
        b == -1 ==> pow(b, n) == if n % 2 == 0 {
            1int
        } else {
            -1int
        },
    decreases n,
{
    reveal(pow);
    if n > 0 {
        lemma_pow_of_unit(b, (n - 1) as nat);
    }
}

/// `b` to the power `e`, or `None` where it does not fit in an `i128`.
fn power(b: i128, e: i128) -> (r: Option<i128>)
    requires
        e >= 0,
    ensures
        in_i128(pow(b as int, e as nat)) ==> r == Some(pow(b as int, e as nat) as i128),
        !in_i128(pow(b as int, e as nat)) ==> r is None,
{
    if -1 <= b && b <= 1 {
        proof {
            lemma_pow_of_unit(b as int, e as nat);
        }
        return if b == 1 || e == 0 {
            Some(1)
        } else if b == 0 {
            Some(0)
        } else if e % 2 == 0 {
            Some(1)
        } else {
            Some(-1)
        };
    }
    let mut acc: i128 = 1;
    let mut k: i128 = 0;
    proof {
        reveal(pow);
    }
    while k < e
        invariant
            0 <= k <= e,
            b < -1 || b > 1,
            acc as int == pow(b as int, k as nat),
        decreases e - k,
    {
        match acc.checked_mul(b) {
            Some(next) => {
                proof {
                    reveal(pow);
                    assert((((k + 1) as nat) - 1) as nat == k as nat);
                    assert(pow(b as int, (k + 1) as nat) == b * pow(b as int, k as nat));
                }
                acc = next;
                k = k + 1;
            },
            None => {
                proof {
                    reveal(pow);
                    let v = acc * b;
                    assert((((k + 1) as nat) - 1) as nat == k as nat);
                    assert(pow(b as int, (k + 1) as nat) == b * pow(b as int, k as nat));
                    assert(pow(b as int, (k + 1) as nat) == v);
                    if e > k + 1 {
                        lemma_pow_grows(b as int, (k + 1) as nat, e as nat);
                    }
                }
                return None;
            },
        }
    }
    Some(acc)
}

/// The magnitude of an integer, which fits in `u128` for every `i128`.
fn magnitude(a: i128) -> (r: u128)
    ensures
        r as int == abs(a as int),
{
    if a < 0 {
        (-(a + 1)) as u128 + 1
    } else {
        a as u128
    }
}

/// The remainder of `a / b`, the division truncated toward zero.
fn remainder(a: i128, b: i128) -> (r: i128)
    requires
        b != 0,
    ensures
        r as int == trunc_rem(a as int, b as int),
{
    let mb = magnitude(b);
    let m = magnitude(a) % mb;
    assert(m < mb);
    if a < 0 {
        -(m as i128)
    } else {
        m as i128
    }
}

/// An array of CBOR data as an array of uninterpreted values.
fn mixed_array(items: &Vec<CborValue>) -> (r: RadonTypes)
    ensures
        r matches RadonTypes::Array(xs) && xs@.len() == items@.len() && forall|i: int|
            0 <= i < items@.len() ==> (#[trigger] xs@[i]) is Mixed && same_cbor(
                xs@[i]->Mixed_0,
                items@[i],
            ),
{
    let mut out: Vec<RadonTypes> = Vec::new();
    let mut i: usize = 0;
    while i < items.len()
        invariant
            i <= items@.len(),
            out@.len() == i,
            forall|j: int|
                0 <= j < i ==> (#[trigger] out@[j]) is Mixed && same_cbor(out@[j]->Mixed_0, items@[j]),
        decreases items@.len() - i,
    {
        out.push(RadonTypes::Mixed(clone_cbor(&items[i])));
        i = i + 1;
    }
    RadonTypes::Array(out)
}

/// A CBOR map with text keys as a map of uninterpreted values.
fn mixed_map(entries: &Vec<(CborValue, CborValue)>) -> (r: Result<RadonTypes, RadError>)
    ensures
        mixed_map_outcome(entries@, r),
{
    let mut out: Vec<(String, RadonTypes)> = Vec::new();
    let mut i: usize = 0;
    while i < entries.len()
        invariant
            i <= entries@.len(),
            out@.len() == i,
            forall|j: int| 0 <= j < i ==> (#[trigger] entries@[j]).0 is Text,
            forall|j: int|
                0 <= j < i ==> (#[trigger] out@[j]).0@ == entries@[j].0->Text_0@ && out@[j].1 is Mixed
                    && same_cbor(out@[j].1->Mixed_0, entries@[j].1),
        decreases entries@.len() - i,
    {
        let key = match &entries[i].0 {
            CborValue::Text(t) => t.clone(),
            _ => {
                return Err(RadError::WrongMixedCast { to: RadonKind::Mapping });
            },
        };
        out.push((key, RadonTypes::Mixed(clone_cbor(&entries[i].1))));
        i = i + 1;
    }
    Ok(RadonTypes::Mapping(out))
}

/// The sign of `float_key(a) - float_key(b)`.
fn float_key_cmp(a: u64, b: u64) -> (r: i8)
    ensures
        r > 0 <==> float_key(a) > float_key(b),
        r < 0 <==> float_key(a) < float_key(b),
{
    let ka: i128 = if a >= SIGN_BIT {
        -((a - SIGN_BIT) as i128)
    } else {
        a as i128
    };
    let kb: i128 = if b >= SIGN_BIT {
        -((b - SIGN_BIT) as i128)
    } else {
        b as i128
    };
    if ka > kb {
        1
    } else if ka < kb {
        -1
    } else {
        0
    }
}

fn operate_mapping(
    v: &RadonTypes,
    entries: &Vec<(String, RadonTypes)>,
    op: RadonOpCodes,
    args: &Vec<CborValue>,
    from: usize,
) -> (r: Result<RadonTypes, RadError>)
    requires
        from <= args@.len(),
        *v == RadonTypes::Mapping(*entries),
    ensures
        mapping_outcome(*v, entries@, op, args@.skip(from as int), r),
{
    match op {
        RadonOpCodes::MapKeys => {
            let mut out: Vec<RadonTypes> = Vec::new();
            let mut i: usize = 0;
            while i < entries.len()
                invariant
                    i <= entries@.len(),
                    out@.len() == i,
                    forall|j: int|
                        0 <= j < i ==> (#[trigger] out@[j]) is String && out@[j]->String_0@
                            == entries@[j].0@,
                decreases entries@.len() - i,
            {
                out.push(RadonTypes::String(entries[i].0.clone()));
                i = i + 1;
            }
            Ok(RadonTypes::Array(out))
        },
        RadonOpCodes::MapValues => {
            let mut out: Vec<RadonTypes> = Vec::new();
            let mut i: usize = 0;
            while i < entries.len()
                invariant
                    i <= entries@.len(),
                    out@.len() == i,
                    forall|j: int| 0 <= j < i ==> same_value(#[trigger] out@[j], entries@[j].1),
                decreases entries@.len() - i,
            {
                out.push(clone_value(&entries[i].1));
                i = i + 1;
            }
            Ok(RadonTypes::Array(out))
        },
        RadonOpCodes::MapGet => {
            if from >= args.len() {
                return wrong_args_of(v, op, args, from);
            }
            let key = match &args[from] {
                CborValue::Text(t) => t,
                _ => {
                    return wrong_args_of(v, op, args, from);
                },
            };
            let ghost k = key@;
            assert(text_arg(args@.skip(from as int)) == Some(k));
            let mut i: usize = 0;
            while i < entries.len()
                invariant
                    i <= entries@.len(),
                    k == key@,
                    op == RadonOpCodes::MapGet,
                    text_arg(args@.skip(from as int)) == Some(k),
                    forall|j: int| 0 <= j < i ==> (#[trigger] entries@[j]).0@ != k,
                decreases entries@.len() - i,
            {
                if entries[i].0.eq(key) {
                    let r = clone_value(&entries[i].1);
                    proof {
                        let w = first_key(entries@, k);
                        assert(is_first_key(entries@, k, i as int));
                        assert(w == Some(i as int)) by {
                            let c = choose|c: int| is_first_key(entries@, k, c);
                            if c < i {
                            } else if c > i {
                                assert(entries@[i as int].0@ == k);
                            }
                        }
                    }
                    return Ok(r);
                }
                i = i + 1;
            }
            Err(RadError::MapKeyNotFound)
        },
        _ => unsupported_of(v, op),
    }
}

} // verus!
