use vstd::prelude::*;
use vstd::arithmetic::div_mod::lemma_fundamental_div_mod_converse;
use vstd::relations::{sorted_by, total_ordering};
use vstd::seq_lib::lemma_sorted_unique;

use crate::error::RadError;
use crate::types::{clone_value, clone_values, same_value, RadonKind, RadonTypes};

verus! {

/// The reducers that collapse an array into one value.
#[derive(Debug, Clone, Copy, PartialEq, Eq, Structural)]
pub enum RadonReducers {
    Mode,
    AverageMean,
    AverageMedian,
    DeviationStandard,
    HashConcatenate,
    Unwrap,
    Min,
    Max,
    AverageMeanWeighted,
    AverageMedianWeighted,
    DeviationAverageAbsolute,
    DeviationMedianAbsolute,
    DeviationMaximumAbsolute,
}

/// The reducer with a given code, if there is one.
pub open spec fn reducer_with_code(code: i128) -> Option<RadonReducers> {
    match code {
        0x02 => Some(RadonReducers::Mode),
        0x03 => Some(RadonReducers::AverageMean),
        0x05 => Some(RadonReducers::AverageMedian),
        0x07 => Some(RadonReducers::DeviationStandard),
        0x0B => Some(RadonReducers::HashConcatenate),
        0x0C => Some(RadonReducers::Unwrap),
        0x00 => Some(RadonReducers::Min),
        0x01 => Some(RadonReducers::Max),
        0x04 => Some(RadonReducers::AverageMeanWeighted),
        0x06 => Some(RadonReducers::AverageMedianWeighted),
        0x08 => Some(RadonReducers::DeviationAverageAbsolute),
        0x09 => Some(RadonReducers::DeviationMedianAbsolute),
        0x0A => Some(RadonReducers::DeviationMaximumAbsolute),
        _ => None,
    }
}

impl RadonReducers {
    /// The stable 8-bit code of a reducer.
    pub open spec fn spec_code(self) -> u8 {
        match self {
            RadonReducers::Mode => 0x02,
            RadonReducers::AverageMean => 0x03,
            RadonReducers::AverageMedian => 0x05,
            RadonReducers::DeviationStandard => 0x07,
            RadonReducers::HashConcatenate => 0x0B,
            RadonReducers::Unwrap => 0x0C,
            RadonReducers::Min => 0x00,
            RadonReducers::Max => 0x01,
            RadonReducers::AverageMeanWeighted => 0x04,
            RadonReducers::AverageMedianWeighted => 0x06,
            RadonReducers::DeviationAverageAbsolute => 0x08,
            RadonReducers::DeviationMedianAbsolute => 0x09,
            RadonReducers::DeviationMaximumAbsolute => 0x0A,
        }
    }

    /// The stable 8-bit code of this reducer.
    pub fn code(&self) -> (r: u8)
        ensures
            r == self.spec_code(),
    {
        match self {
            RadonReducers::Mode => 0x02,
            RadonReducers::AverageMean => 0x03,
            RadonReducers::AverageMedian => 0x05,
            RadonReducers::DeviationStandard => 0x07,
            RadonReducers::HashConcatenate => 0x0B,
            RadonReducers::Unwrap => 0x0C,
            RadonReducers::Min => 0x00,
            RadonReducers::Max => 0x01,
            RadonReducers::AverageMeanWeighted => 0x04,
            RadonReducers::AverageMedianWeighted => 0x06,
            RadonReducers::DeviationAverageAbsolute => 0x08,
            RadonReducers::DeviationMedianAbsolute => 0x09,
            RadonReducers::DeviationMaximumAbsolute => 0x0A,
        }
    }

    /// The reducer with the given code, if there is one.
    pub fn from_code(code: i128) -> (r: Option<RadonReducers>)
        ensures
            r == reducer_with_code(code),
            r matches Some(red) ==> red.spec_code() == code,
            r is None ==> forall|red: RadonReducers| red.spec_code() != code,
    {
        match code {
            0x02 => Some(RadonReducers::Mode),
            0x03 => Some(RadonReducers::AverageMean),
            0x05 => Some(RadonReducers::AverageMedian),
            0x07 => Some(RadonReducers::DeviationStandard),
            0x0B => Some(RadonReducers::HashConcatenate),
            0x0C => Some(RadonReducers::Unwrap),
            0x00 => Some(RadonReducers::Min),
            0x01 => Some(RadonReducers::Max),
            0x04 => Some(RadonReducers::AverageMeanWeighted),
            0x06 => Some(RadonReducers::AverageMedianWeighted),
            0x08 => Some(RadonReducers::DeviationAverageAbsolute),
            0x09 => Some(RadonReducers::DeviationMedianAbsolute),
            0x0A => Some(RadonReducers::DeviationMaximumAbsolute),
            _ => None,
        }
    }
}

/// The protocol changes that are in force, each of which enables more of the language.
#[derive(Debug, Clone, Copy, PartialEq, Eq, Structural, Default)]
pub struct ActiveWips {
    /// Enables the median reducer.
    pub wip0017: bool,
    /// Enables the hash-concatenate and unwrap reducers.
    pub wip0019: bool,
}

/// Floating-point arithmetic on IEEE-754 doubles, held as bit patterns.
/// Each method returns `None` where the result would not be finite.
pub trait FloatArithmetic {
    /// The arithmetic mean of the values.
    fn mean(&self, values: &Vec<u64>) -> Option<u64>;

    /// The population standard deviation of the values.
    fn deviation_standard(&self, values: &Vec<u64>) -> Option<u64>;

    /// The population standard deviation of the integers, as a double.
    fn deviation_standard_integers(&self, values: &Vec<i128>) -> Option<u64>;
}

/// The sequences hold the same values, position by position.
pub open spec fn same_values(a: Seq<RadonTypes>, b: Seq<RadonTypes>) -> bool {
    a.len() == b.len() && forall|i: int| 0 <= i < a.len() ==> same_value(#[trigger] a[i], b[i])
}

/// `r` is the failure of the reducer with this code on `s`, which keeps the array.
pub open spec fn unsupported_reducer(s: Seq<RadonTypes>, code: u8, r: Result<RadonTypes, RadError>) -> bool {
    &&& r is Err
    &&& r->Err_0 is UnsupportedReducer
    &&& r->Err_0->UnsupportedReducer_reducer == code
    &&& same_values(r->Err_0->UnsupportedReducer_array@, s)
}

/// The failure of the reducer with this code on `input`, keeping a copy of the array.
pub fn unsupported_reducer_error(input: &Vec<RadonTypes>, code: u8) -> (e: RadError)
    ensures
        unsupported_reducer(input@, code, Err(e)),
{
    RadError::UnsupportedReducer { array: clone_values(input), reducer: code }
}

/// All the elements share the kind of the first one.
pub open spec fn is_homogeneous(s: Seq<RadonTypes>) -> bool {
    forall|i: int| 0 <= i < s.len() ==> (#[trigger] s[i]).kind_of() == s[0].kind_of()
}

/// A non-empty array whose elements do not all share one kind.
pub open spec fn is_heterogeneous(s: Seq<RadonTypes>) -> bool {
    s.len() > 0 && !is_homogeneous(s)
}

/// Whether all the elements share the kind of the first one.
pub fn homogeneous(input: &Vec<RadonTypes>) -> (r: bool)
    ensures
        r == is_homogeneous(input@),
{
    if input.len() == 0 {
        return true;
    }
    let first = input[0].kind();
    let mut i: usize = 1;
    while i < input.len()
        invariant
            1 <= i <= input@.len(),
            first == input@[0].kind_of(),
            forall|j: int| 0 <= j < i ==> (#[trigger] input@[j]).kind_of() == first,
        decreases input@.len() - i,
    {
        if input[i].kind() != first {
            return false;
        }
        i = i + 1;
    }
    true
}

/// The single element of a one-element array.
pub fn unwrap(input: &Vec<RadonTypes>) -> (r: Result<RadonTypes, RadError>)
    ensures
        input@.len() == 1 ==> r is Ok && same_value(r->Ok_0, input@[0]),
        input@.len() != 1 ==> unsupported_reducer(input@, 0x0C, r),
{
    if input.len() != 1 {
        Err(unsupported_reducer_error(input, 0x0C))
    } else {
        Ok(clone_value(&input[0]))
    }
}


/// The kinds that reducers which compare elements accept.
pub open spec fn is_primitive(k: RadonKind) -> bool {
    k is Boolean || k is Integer || k is Float || k is String || k is Bytes
}

/// How many elements of `s` are the same as `x`.
pub open spec fn count_same(s: Seq<RadonTypes>, x: RadonTypes) -> nat
    decreases s.len(),
{
    if s.len() == 0 {
        0
    } else {
        count_same(s.drop_last(), x) + if same_value(s.last(), x) {
            1nat
        } else {
            0nat
        }
    }
}

/// The element at `i` occurs strictly more often than any value that differs from it.
pub open spec fn is_mode_at(s: Seq<RadonTypes>, i: int) -> bool {
    &&& 0 <= i < s.len()
    &&& forall|j: int|
        0 <= j < s.len() && !same_value(#[trigger] s[j], s[i]) ==> count_same(s, s[j])
            < count_same(s, s[i])
}

/// What the mode reducer gives on a homogeneous array.
pub open spec fn mode_outcome(s: Seq<RadonTypes>, r: Result<RadonTypes, RadError>) -> bool {
    if s.len() == 0 || !is_primitive(s[0].kind_of()) {
        unsupported_reducer(s, 0x02, r)
    } else if exists|i: int| is_mode_at(s, i) {
        r is Ok && exists|i: int| is_mode_at(s, i) && same_value(r->Ok_0, s[i])
    } else {
        r == Err::<RadonTypes, RadError>(RadError::ModeTie)
    }
}

proof fn lemma_count_same_congruent(s: Seq<RadonTypes>, x: RadonTypes, y: RadonTypes)
    requires
        is_primitive(x.kind_of()),
        same_value(x, y),
    ensures
        count_same(s, x) == count_same(s, y),
    decreases s.len(),
{
    if s.len() > 0 {
        lemma_count_same_congruent(s.drop_last(), x, y);
    }
}

fn bytes_equal(a: &Vec<u8>, b: &Vec<u8>) -> (r: bool)
    ensures
        r == (a@ == b@),
{
    if a.len() != b.len() {
        return false;
    }
    let mut i: usize = 0;
    while i < a.len()
        invariant
            i <= a@.len(),
            a@.len() == b@.len(),
            forall|j: int| 0 <= j < i ==> a@[j] == b@[j],
        decreases a@.len() - i,
    {
        if a[i] != b[i] {
            return false;
        }
        i = i + 1;
    }
    assert(a@ =~= b@);
    true
}

fn primitive_equal(a: &RadonTypes, b: &RadonTypes) -> (r: bool)
    requires
        is_primitive(a.kind_of()),
    ensures
        r == same_value(*a, *b),
{
    match (a, b) {
        (RadonTypes::Boolean(x), RadonTypes::Boolean(y)) => *x == *y,
        (RadonTypes::Integer(x), RadonTypes::Integer(y)) => *x == *y,
        (RadonTypes::Float(x), RadonTypes::Float(y)) => *x == *y,
        (RadonTypes::String(x), RadonTypes::String(y)) => x.eq(y),
        (RadonTypes::Bytes(x), RadonTypes::Bytes(y)) => bytes_equal(x, y),
        _ => false,
    }
}

fn count_in(input: &Vec<RadonTypes>, x: &RadonTypes) -> (r: usize)
    requires
        is_primitive(x.kind_of()),
    ensures
        r == count_same(input@, *x),
{
    let mut c: usize = 0;
    let mut i: usize = 0;
    while i < input.len()
        invariant
            i <= input@.len(),
            is_primitive(x.kind_of()),
            c == count_same(input@.take(i as int), *x),
            c <= i,
        decreases input@.len() - i,
    {
        assert(input@.take(i + 1).drop_last() =~= input@.take(i as int));
        if primitive_equal(x, &input[i]) {
            c = c + 1;
        }
        i = i + 1;
    }
    assert(input@.take(i as int) =~= input@);
    c
}

/// The most frequent element of a homogeneous array of primitives.
pub fn mode(input: &Vec<RadonTypes>) -> (r: Result<RadonTypes, RadError>)
    requires
        is_homogeneous(input@),
    ensures
        mode_outcome(input@, r),
{
    if input.len() == 0 || !is_primitive_kind(input[0].kind()) {
        return Err(unsupported_reducer_error(input, 0x02));
    }
    let ghost s = input@;
    let n = input.len();
    let mut best: usize = 0;
    let mut best_count = count_in(input, &input[0]);
    let mut i: usize = 1;
    while i < n
        invariant
            n == s.len(),
            s == input@,
            is_homogeneous(s),
            is_primitive(s[0].kind_of()),
            1 <= i <= n,
            best < n,
            best_count == count_same(s, s[best as int]),
            forall|j: int| 0 <= j < i ==> count_same(s, #[trigger] s[j]) <= best_count,
        decreases n - i,
    {
        assert(s[i as int].kind_of() == s[0].kind_of());
        let c = count_in(input, &input[i]);
        if c > best_count {
            best = i;
            best_count = c;
        }
        i = i + 1;
    }
    assert(s[best as int].kind_of() == s[0].kind_of());
    let mut j: usize = 0;
    while j < n
        invariant
            n == s.len(),
            s == input@,
            is_homogeneous(s),
            is_primitive(s[0].kind_of()),
            is_primitive(s[best as int].kind_of()),
            0 <= j <= n,
            best < n,
            best_count == count_same(s, s[best as int]),
            forall|k: int| 0 <= k < n ==> count_same(s, #[trigger] s[k]) <= best_count,
            forall|k: int|
                0 <= k < j && !same_value(#[trigger] s[k], s[best as int]) ==> count_same(s, s[k])
                    != best_count,
        decreases n - j,
    {
        assert(s[j as int].kind_of() == s[0].kind_of());
        if !primitive_equal(&input[j], &input[best]) {
            let c = count_in(input, &input[j]);
            if c == best_count {
                proof {
                    assert forall|i: int| !is_mode_at(s, i) by {
                        if is_mode_at(s, i) {
                            assert(s[i].kind_of() == s[0].kind_of());
                            if same_value(s[i], s[best as int]) {
                                lemma_count_same_congruent(s, s[i], s[best as int]);
                                assert(!same_value(s[j as int], s[i]));
                            } else {
                                assert(!same_value(s[best as int], s[i]));
                            }
                        }
                    }
                }
                return Err(RadError::ModeTie);
            }
        }
        j = j + 1;
    }
    let r = clone_value(&input[best]);
    assert(is_mode_at(s, best as int));
    Ok(r)
}

fn is_primitive_kind(k: RadonKind) -> (r: bool)
    ensures
        r == is_primitive(k),
{
    match k {
        RadonKind::Boolean | RadonKind::Integer | RadonKind::Float | RadonKind::String
        | RadonKind::Bytes => true,
        _ => false,
    }
}

/// The position of a finite double on the number line, read from its bit pattern:
/// the magnitude bits, negated when the sign bit is set. It orders finite doubles
/// as their values do, with both zeros at 0.
pub open spec fn float_key(bits: u64) -> int {
    if bits >= 0x8000_0000_0000_0000u64 {
        -((bits - 0x8000_0000_0000_0000u64) as int)
    } else {
        bits as int
    }
}

/// The bit pattern is that of a finite double: its exponent bits are not all set.
pub open spec fn is_finite(bits: u64) -> bool {
    (bits / 0x10_0000_0000_0000) % 0x800 != 0x7FF
}

/// Whether a bit pattern is that of a finite double.
pub fn finite_bits(bits: u64) -> (r: bool)
    ensures
        r == is_finite(bits),
{
    (bits / 0x10_0000_0000_0000) % 0x800 != 0x7FF
}

/// A double as a value, or a domain error where it is not finite.
pub open spec fn finite_result(bits: u64) -> Result<RadonTypes, RadError> {
    if is_finite(bits) {
        Ok(RadonTypes::Float(bits))
    } else {
        Err(RadError::MathDomain)
    }
}

/// A computed double as a value: infinities, NaN and a missing result are a domain error.
pub fn finite_float(computed: Option<u64>) -> (r: Result<RadonTypes, RadError>)
    ensures
        computed is Some && is_finite(computed->Some_0) ==> r == Ok::<RadonTypes, RadError>(
            RadonTypes::Float(computed->Some_0),
        ),
        !(computed is Some && is_finite(computed->Some_0)) ==> r == Err::<RadonTypes, RadError>(
            RadError::MathDomain,
        ),
{
    match computed {
        Some(b) => if finite_bits(b) {
            Ok(RadonTypes::Float(b))
        } else {
            Err(RadError::MathDomain)
        },
        None => Err(RadError::MathDomain),
    }
}

/// The number that an integer or a double stands for, as used to order and sum elements.
pub open spec fn key_of(v: RadonTypes) -> int {
    match v {
        RadonTypes::Integer(x) => x as int,
        RadonTypes::Float(b) => float_key(b),
        _ => 0,
    }
}

/// The sum of the integer elements.
pub open spec fn int_sum(s: Seq<RadonTypes>) -> int
    decreases s.len(),
{
    if s.len() == 0 {
        0
    } else {
        int_sum(s.drop_last()) + key_of(s.last())
    }
}

/// Every running sum of the elements, left to right, fits in an `i128`.
pub open spec fn sums_fit(s: Seq<RadonTypes>) -> bool {
    forall|k: int| 0 <= k <= s.len() ==> i128::MIN <= #[trigger] int_sum(s.take(k)) <= i128::MAX
}

/// `a / n` rounded to the nearest integer, ties to the even one.
pub open spec fn round_half_even(a: int, n: int) -> int {
    let q = a / n;
    let r = a % n;
    if 2 * r > n {
        q + 1
    } else if 2 * r < n {
        q
    } else if q % 2 == 0 {
        q
    } else {
        q + 1
    }
}

/// `a / n`, rounded to the nearest integer with ties to the even one.
pub fn divide_round_half_even(a: i128, n: i128) -> (r: i128)
    requires
        0 < n <= u64::MAX,
    ensures
        r == round_half_even(a as int, n as int),
{
    let q: i128;
    let rem: i128;
    if a >= 0 {
        q = a / n;
        rem = a % n;
        proof {
            assert(a == q * n + rem) by (nonlinear_arith)
                requires
                    a >= 0,
                    n > 0,
                    q == a / n,
                    rem == a % n,
            ;
            lemma_fundamental_div_mod_converse(a as int, n as int, q as int, rem as int);
        }
    } else {
        let m: i128 = -(a + 1);
        let q0: i128 = m / n;
        let r0: i128 = m % n;
        proof {
            assert(m == q0 * n + r0) by (nonlinear_arith)
                requires
                    m >= 0,
                    n > 0,
                    q0 == m / n,
                    r0 == m % n,
            ;
            assert(q0 <= m) by (nonlinear_arith)
                requires
                    m >= 0,
                    n > 0,
                    q0 == m / n,
            ;
        }
        q = -q0 - 1;
        rem = n - 1 - r0;
        proof {
            assert(a == q * n + rem) by (nonlinear_arith)
                requires
                    a == -(m + 1),
                    m == q0 * n + r0,
                    q == -q0 - 1,
                    rem == n - 1 - r0,
            ;
            lemma_fundamental_div_mod_converse(a as int, n as int, q as int, rem as int);
        }
    }
    proof {
        assert(q * n <= a) by (nonlinear_arith)
            requires
                a == q * n + rem,
                rem >= 0,
        ;
        if 2 * rem >= n {
            assert(n >= 2 || rem >= 1);
            assert(q < i128::MAX) by (nonlinear_arith)
                requires
                    a == q * n + rem,
                    0 <= rem < n,
                    2 * rem >= n,
                    a <= i128::MAX,
                    n > 0,
            ;
        }
    }
    if 2 * rem > n {
        q + 1
    } else if 2 * rem < n {
        q
    } else if q % 2 == 0 {
        q
    } else {
        q + 1
    }
}

/// What the mean reducer gives on a homogeneous array: integers give their mean rounded
/// half to even, doubles give what the floating-point unit computes.
pub open spec fn mean_outcome(s: Seq<RadonTypes>, r: Result<RadonTypes, RadError>) -> bool {
    exists|c: Option<u64>| #[trigger] mean_result(s, c, r)
}

/// What the mean reducer gives on a homogeneous array, given the mean `c` that
/// floating-point arithmetic computed where the elements are doubles.
pub open spec fn mean_result(
    s: Seq<RadonTypes>,
    c: Option<u64>,
    r: Result<RadonTypes, RadError>,
) -> bool {
    if s.len() == 0 {
        unsupported_reducer(s, 0x03, r)
    } else if s[0] is Integer {
        if sums_fit(s) {
            r == Ok::<RadonTypes, RadError>(
                RadonTypes::Integer(round_half_even(int_sum(s), s.len() as int) as i128),
            )
        } else {
            r == Err::<RadonTypes, RadError>(RadError::Overflow)
        }
    } else if s[0] is Float {
        r == computed_result(c)
    } else {
        unsupported_reducer(s, 0x03, r)
    }
}

/// The sum of an array of integers, or `None` where a running sum leaves `i128`.
fn checked_sum(input: &Vec<RadonTypes>) -> (r: Option<i128>)
    requires
        forall|i: int| 0 <= i < input@.len() ==> (#[trigger] input@[i]) is Integer,
    ensures
        r is Some <==> sums_fit(input@),
        r matches Some(x) ==> x == int_sum(input@),
{
    let ghost s = input@;
    let mut acc: i128 = 0;
    let mut i: usize = 0;
    assert(s.take(0) =~= Seq::<RadonTypes>::empty());
    while i < input.len()
        invariant
            s == input@,
            forall|i: int| 0 <= i < s.len() ==> (#[trigger] s[i]) is Integer,
            i <= s.len(),
            acc == int_sum(s.take(i as int)),
            forall|k: int| 0 <= k <= i ==> i128::MIN <= #[trigger] int_sum(s.take(k)) <= i128::MAX,
        decreases s.len() - i,
    {
        assert(s.take(i + 1).drop_last() =~= s.take(i as int));
        let x = match &input[i] {
            RadonTypes::Integer(x) => *x,
            _ => 0,
        };
        match acc.checked_add(x) {
            Some(next) => {
                acc = next;
            },
            None => {
                assert(!(i128::MIN <= int_sum(s.take(i + 1)) <= i128::MAX));
                return None;
            },
        }
        i = i + 1;
    }
    assert(s.take(s.len() as int) =~= s);
    Some(acc)
}

/// The arithmetic mean of a homogeneous array of integers, or of doubles given the mean
/// `computed` that floating-point arithmetic gave for them.
pub fn mean(input: &Vec<RadonTypes>, computed: Option<u64>) -> (r: Result<RadonTypes, RadError>)
    requires
        is_homogeneous(input@),
    ensures
        mean_result(input@, computed, r),
{
    if input.len() == 0 {
        return Err(unsupported_reducer_error(input, 0x03));
    }
    match &input[0] {
        RadonTypes::Integer(_) => {
            assert forall|i: int| 0 <= i < input@.len() implies (#[trigger] input@[i]) is Integer by {
                assert(input@[i].kind_of() == input@[0].kind_of());
            }
            match checked_sum(input) {
                Some(total) => Ok(
                    RadonTypes::Integer(divide_round_half_even(total, input.len() as i128)),
                ),
                None => Err(RadError::Overflow),
            }
        },
        RadonTypes::Float(_) => finite_float(computed),
        _ => Err(unsupported_reducer_error(input, 0x03)),
    }
}

/// The bit patterns of the doubles of an array.
fn float_bits(input: &Vec<RadonTypes>) -> (r: Vec<u64>)
    ensures
        r@.len() == input@.len(),
        forall|i: int|
            0 <= i < input@.len() ==> (#[trigger] input@[i] matches RadonTypes::Float(b) ==> r@[i]
                == b),
{
    let mut out: Vec<u64> = Vec::new();
    let mut i: usize = 0;
    while i < input.len()
        invariant
            i <= input@.len(),
            out@.len() == i,
            forall|j: int|
                0 <= j < i ==> (#[trigger] input@[j] matches RadonTypes::Float(b) ==> out@[j] == b),
        decreases input@.len() - i,
    {
        let b = match &input[i] {
            RadonTypes::Float(b) => *b,
            _ => 0,
        };
        out.push(b);
        i = i + 1;
    }
    out
}

/// The usual order on integers.
pub open spec fn int_leq() -> spec_fn(int, int) -> bool {
    |x: int, y: int| x <= y
}

/// The numbers that the elements stand for, in order of position.
pub open spec fn keys_of(s: Seq<RadonTypes>) -> Seq<int> {
    Seq::new(s.len(), |i: int| key_of(s[i]))
}

/// The numbers that the elements stand for, in ascending order.
pub open spec fn sorted_keys(s: Seq<RadonTypes>) -> Seq<int> {
    keys_of(s).sort_by(int_leq())
}

/// The integers of a sequence of `i128`s.
pub open spec fn as_ints(v: Seq<i128>) -> Seq<int> {
    v.map_values(|x: i128| x as int)
}

/// What the median reducer gives on a homogeneous array: the middle element in ascending
/// order for an odd length; for an even length, the mean of the two middle elements.
pub open spec fn median_outcome(
    s: Seq<RadonTypes>,
    wips: ActiveWips,
    r: Result<RadonTypes, RadError>,
) -> bool {
    let n = s.len() as int;
    let m = sorted_keys(s);
    if !wips.wip0017 || n == 0 || !(s[0] is Integer || s[0] is Float) {
        unsupported_reducer(s, 0x05, r)
    } else if n % 2 == 1 {
        if s[0] is Integer {
            r == Ok::<RadonTypes, RadError>(RadonTypes::Integer(m[n / 2] as i128))
        } else {
            exists|j: int|
                0 <= j < n && (#[trigger] s[j]) is Float && key_of(s[j]) == m[n / 2] && (forall|
                    i: int,
                | 0 <= i < j ==> key_of(#[trigger] s[i]) != m[n / 2]) && r == finite_result(
                    s[j]->Float_0,
                )
        }
    } else if s[0] is Integer {
        let t = m[n / 2 - 1] + m[n / 2];
        if i128::MIN <= t <= i128::MAX {
            r == Ok::<RadonTypes, RadError>(RadonTypes::Integer(round_half_even(t, 2) as i128))
        } else {
            r == Err::<RadonTypes, RadError>(RadError::Overflow)
        }
    } else {
        r matches Ok(RadonTypes::Float(b)) && is_finite(b) || r == Err::<RadonTypes, RadError>(
            RadError::MathDomain,
        )
    }
}

proof fn lemma_int_leq_total()
    ensures
        total_ordering(int_leq()),
{
}

proof fn lemma_insert_multiset(g: Seq<int>, p: int, x: int)
    requires
        0 <= p <= g.len(),
    ensures
        g.insert(p, x).to_multiset() =~= g.to_multiset().insert(x),
{
    broadcast use vstd::seq_lib::group_to_multiset_ensures;
    broadcast use vstd::multiset::group_multiset_axioms;

    let h = g.insert(p, x);
    assert(h.remove(p) =~= g);
    assert(h[p] == x);
    assert(h.contains(x));
    assert(h.to_multiset().count(x) > 0);
}

/// The elements in ascending order.
fn sort_keys(keys: &Vec<i128>) -> (r: Vec<i128>)
    ensures
        as_ints(r@) == as_ints(keys@).sort_by(int_leq()),
{
    broadcast use vstd::seq_lib::group_to_multiset_ensures;

    let ghost k = as_ints(keys@);
    let mut out: Vec<i128> = Vec::new();
    let mut i: usize = 0;
    assert(k.take(0) =~= Seq::<int>::empty());
    assert(as_ints(out@) =~= Seq::<int>::empty());
    while i < keys.len()
        invariant
            k == as_ints(keys@),
            i <= keys@.len(),
            sorted_by(as_ints(out@), int_leq()),
            as_ints(out@).to_multiset() == k.take(i as int).to_multiset(),
        decreases keys@.len() - i,
    {
        let x = keys[i];
        let mut p: usize = 0;
        while p < out.len() && out[p] <= x
            invariant
                p <= out@.len(),
                forall|j: int| 0 <= j < p ==> out@[j] <= x,
            decreases out@.len() - p,
        {
            p = p + 1;
        }
        let ghost g = as_ints(out@);
        proof {
            assert(forall|a: int, b: int|
                0 <= a < b < g.len() ==> #[trigger] int_leq()(g[a], g[b]) ==> g[a] <= g[b]);
        }
        out.insert(p, x);
        proof {
            let h = as_ints(out@);
            assert(h =~= g.insert(p as int, x as int));
            assert forall|a: int, b: int| 0 <= a < b < h.len() implies #[trigger] int_leq()(
                h[a],
                h[b],
            ) by {
                if p < g.len() {
                    assert(g[p as int] > x);
                    assert(int_leq()(g[p as int], g[b - 1]) || b - 1 <= p);
                }
                if a < p && b > p {
                    assert(int_leq()(g[a], g[b - 1]));
                }
                if a > p {
                    assert(int_leq()(g[a - 1], g[b - 1]));
                }
                if a < p && b < p {
                    assert(int_leq()(g[a], g[b]));
                }
            }
            lemma_insert_multiset(g, p as int, x as int);
            assert(k.take(i + 1) =~= k.take(i as int).push(k[i as int]));
            assert(k[i as int] == x as int);
            vstd::seq_lib::to_multiset_build(k.take(i as int), x as int);
            assert(h.to_multiset() =~= k.take(i + 1).to_multiset());
        }
        i = i + 1;
    }
    proof {
        assert(k.take(keys@.len() as int) =~= k);
        lemma_int_leq_total();
        k.lemma_sort_by_ensures(int_leq());
        lemma_sorted_unique(as_ints(out@), k.sort_by(int_leq()), int_leq());
    }
    out
}

fn float_key_of(bits: u64) -> (r: i128)
    ensures
        r == float_key(bits),
{
    if bits >= 0x8000_0000_0000_0000u64 {
        -((bits - 0x8000_0000_0000_0000u64) as i128)
    } else {
        bits as i128
    }
}

/// The numbers that the elements stand for.
pub(crate) fn keys_vec(input: &Vec<RadonTypes>) -> (r: Vec<i128>)
    ensures
        as_ints(r@) == keys_of(input@),
{
    let mut out: Vec<i128> = Vec::new();
    let mut i: usize = 0;
    while i < input.len()
        invariant
            i <= input@.len(),
            out@.len() == i,
            forall|j: int| 0 <= j < i ==> out@[j] as int == key_of(#[trigger] input@[j]),
        decreases input@.len() - i,
    {
        let k = match &input[i] {
            RadonTypes::Integer(x) => *x,
            RadonTypes::Float(b) => float_key_of(*b),
            _ => 0,
        };
        out.push(k);
        i = i + 1;
    }
    assert(as_ints(out@) =~= keys_of(input@));
    out
}

/// The first double of the array that stands for `key`.
fn find_key(input: &Vec<RadonTypes>, key: i128) -> (r: usize)
    requires
        exists|j: int| 0 <= j < input@.len() && key_of(#[trigger] input@[j]) == key,
    ensures
        r < input@.len(),
        key_of(input@[r as int]) == key,
        forall|j: int| 0 <= j < r ==> key_of(#[trigger] input@[j]) != key,
{
    let mut i: usize = 0;
    while i < input.len()
        invariant
            i <= input@.len(),
            forall|j: int| 0 <= j < i ==> key_of(#[trigger] input@[j]) != key,
            exists|j: int| 0 <= j < input@.len() && key_of(#[trigger] input@[j]) == key,
        decreases input@.len() - i,
    {
        let k = match &input[i] {
            RadonTypes::Integer(x) => *x,
            RadonTypes::Float(b) => float_key_of(*b),
            _ => 0,
        };
        if k == key {
            return i;
        }
        i = i + 1;
    }
    i
}

proof fn lemma_sorted_key_present(s: Seq<RadonTypes>, idx: int)
    requires
        0 <= idx < s.len(),
    ensures
        sorted_keys(s).len() == s.len(),
        exists|j: int| 0 <= j < s.len() && key_of(#[trigger] s[j]) == sorted_keys(s)[idx],
{
    broadcast use vstd::seq_lib::group_to_multiset_ensures;

    let k = keys_of(s);
    lemma_int_leq_total();
    k.lemma_sort_by_ensures(int_leq());
    let m = sorted_keys(s);
    assert(m.to_multiset() == k.to_multiset());
    assert(m.len() == m.to_multiset().len());
    assert(k.len() == k.to_multiset().len());
    assert(m.contains(m[idx]));
    assert(m.to_multiset().count(m[idx]) > 0);
    assert(k.contains(m[idx]));
    let j = choose|j: int| 0 <= j < k.len() && k[j] == m[idx];
    assert(key_of(s[j]) == m[idx]);
}

/// The median of a homogeneous array of integers or doubles, where the protocol enables it.
#[verifier::rlimit(50)]
pub fn median<F: FloatArithmetic>(input: &Vec<RadonTypes>, wips: &ActiveWips, unit: &F) -> (r:
    Result<RadonTypes, RadError>)
    requires
        is_homogeneous(input@),
    ensures
        median_outcome(input@, *wips, r),
{
    if !wips.wip0017 || input.len() == 0 {
        return Err(unsupported_reducer_error(input, 0x05));
    }
    let is_integer = match &input[0] {
        RadonTypes::Integer(_) => true,
        RadonTypes::Float(_) => false,
        _ => {
            return Err(unsupported_reducer_error(input, 0x05));
        },
    };
    let ghost s = input@;
    let n = input.len();
    let keys = keys_vec(input);
    let sorted = sort_keys(&keys);
    proof {
        lemma_sorted_key_present(s, (n / 2) as int);
        assert(as_ints(sorted@) == sorted_keys(s));
        assert(sorted@.len() == n);
    }
    if n % 2 == 1 {
        let m = sorted[n / 2];
        assert(m as int == sorted_keys(s)[(n / 2) as int]);
        if is_integer {
            Ok(RadonTypes::Integer(m))
        } else {
            let j = find_key(input, m);
            assert(s[j as int].kind_of() == s[0].kind_of());
            match &input[j] {
                RadonTypes::Float(b) => finite_float(Some(*b)),
                _ => Err(unsupported_reducer_error(input, 0x05)),
            }
        }
    } else {
        let a = sorted[n / 2 - 1];
        let b = sorted[n / 2];
        assert(a as int == sorted_keys(s)[(n / 2 - 1) as int]);
        assert(b as int == sorted_keys(s)[(n / 2) as int]);
        if is_integer {
            match a.checked_add(b) {
                Some(t) => Ok(RadonTypes::Integer(divide_round_half_even(t, 2))),
                None => Err(RadError::Overflow),
            }
        } else {
            proof {
                lemma_sorted_key_present(s, (n / 2 - 1) as int);
            }
            let ja = find_key(input, a);
            let jb = find_key(input, b);
            let mut pair: Vec<u64> = Vec::new();
            match &input[ja] {
                RadonTypes::Float(x) => pair.push(*x),
                _ => {},
            }
            match &input[jb] {
                RadonTypes::Float(x) => pair.push(*x),
                _ => {},
            }
            finite_float(unit.mean(&pair))
        }
    }
}

/// What the standard-deviation reducer gives on a homogeneous array.
pub open spec fn deviation_outcome(s: Seq<RadonTypes>, r: Result<RadonTypes, RadError>) -> bool {
    exists|c: Option<u64>| #[trigger] deviation_result(s, c, r)
}

/// A computed double as a value: a domain error where nothing finite was computed.
pub open spec fn computed_result(c: Option<u64>) -> Result<RadonTypes, RadError> {
    match c {
        Some(b) => finite_result(b),
        None => Err(RadError::MathDomain),
    }
}

/// What the standard-deviation reducer gives on a homogeneous array, given the deviation
/// `c` that floating-point arithmetic computed for its elements.
pub open spec fn deviation_result(
    s: Seq<RadonTypes>,
    c: Option<u64>,
    r: Result<RadonTypes, RadError>,
) -> bool {
    if s.len() == 0 || !(s[0] is Integer || s[0] is Float) {
        unsupported_reducer(s, 0x07, r)
    } else {
        r == computed_result(c)
    }
}

/// The population standard deviation of a homogeneous array of integers or doubles, given
/// the deviation `computed` that floating-point arithmetic gave for its elements.
pub fn deviation_standard(input: &Vec<RadonTypes>, computed: Option<u64>) -> (r: Result<
    RadonTypes,
    RadError,
>)
    requires
        is_homogeneous(input@),
    ensures
        deviation_result(input@, computed, r),
{
    if input.len() == 0 {
        return Err(unsupported_reducer_error(input, 0x07));
    }
    match &input[0] {
        RadonTypes::Integer(_) | RadonTypes::Float(_) => finite_float(computed),
        _ => Err(unsupported_reducer_error(input, 0x07)),
    }
}

/// Asks the floating-point unit for the deviation of an array of integers or doubles.
fn compute_deviation<F: FloatArithmetic>(input: &Vec<RadonTypes>, unit: &F) -> Option<u64> {
    if input.len() == 0 {
        return None;
    }
    match &input[0] {
        RadonTypes::Integer(_) => unit.deviation_standard_integers(&keys_vec(input)),
        RadonTypes::Float(_) => unit.deviation_standard(&float_bits(input)),
        _ => None,
    }
}

/// Asks the floating-point unit for the mean of an array of doubles.
fn compute_mean<F: FloatArithmetic>(input: &Vec<RadonTypes>, unit: &F) -> Option<u64> {
    if input.len() == 0 {
        return None;
    }
    match &input[0] {
        RadonTypes::Float(_) => unit.mean(&float_bits(input)),
        _ => None,
    }
}

/// The SHA-256 digest of a byte string.
pub uninterp spec fn sha256_of(data: Seq<u8>) -> Seq<u8>;

/// Relies on sha2's `Sha256::digest`: the SHA-256 digest of the bytes, 32 bytes long.
#[verifier::external_body]
pub(crate) fn sha256(data: &Vec<u8>) -> (r: Vec<u8>)
    ensures
        r@ == sha256_of(data@),
        r@.len() == 32,
{
    <sha2::Sha256 as sha2::Digest>::digest(data.as_slice()).to_vec()
}

/// The byte strings of the elements, one after the other.
pub open spec fn concat_bytes(s: Seq<RadonTypes>) -> Seq<u8>
    decreases s.len(),
{
    if s.len() == 0 {
        Seq::empty()
    } else {
        concat_bytes(s.drop_last()) + match s.last() {
            RadonTypes::Bytes(b) => b@,
            _ => Seq::empty(),
        }
    }
}

/// What the hash-concatenate reducer gives on a homogeneous array.
pub open spec fn hash_outcome(
    s: Seq<RadonTypes>,
    wips: ActiveWips,
    r: Result<RadonTypes, RadError>,
) -> bool {
    if !wips.wip0019 || (s.len() > 0 && !(s[0] is Bytes)) {
        unsupported_reducer(s, 0x0B, r)
    } else {
        r matches Ok(RadonTypes::Bytes(d)) && d@ == sha256_of(concat_bytes(s))
    }
}

/// The SHA-256 digest of the concatenated byte strings of a homogeneous array.
pub fn hash_concatenate(input: &Vec<RadonTypes>, wips: &ActiveWips) -> (r: Result<
    RadonTypes,
    RadError,
>)
    requires
        is_homogeneous(input@),
    ensures
        hash_outcome(input@, *wips, r),
{
    if !wips.wip0019 {
        return Err(unsupported_reducer_error(input, 0x0B));
    }
    if input.len() > 0 && !(input[0].kind() == RadonKind::Bytes) {
        return Err(unsupported_reducer_error(input, 0x0B));
    }
    let ghost s = input@;
    let mut data: Vec<u8> = Vec::new();
    let mut i: usize = 0;
    assert(s.take(0) =~= Seq::<RadonTypes>::empty());
    while i < input.len()
        invariant
            s == input@,
            is_homogeneous(s),
            s.len() > 0 ==> s[0] is Bytes,
            i <= s.len(),
            data@ == concat_bytes(s.take(i as int)),
        decreases s.len() - i,
    {
        assert(s.take(i + 1).drop_last() =~= s.take(i as int));
        assert(s[i as int].kind_of() == s[0].kind_of());
        match &input[i] {
            RadonTypes::Bytes(b) => {
                let mut k: usize = 0;
                let ghost before = data@;
                while k < b.len()
                    invariant
                        k <= b@.len(),
                        data@ == before + b@.take(k as int),
                    decreases b@.len() - k,
                {
                    data.push(b[k]);
                    k = k + 1;
                    assert(data@ =~= before + b@.take(k as int));
                }
                assert(b@.take(b@.len() as int) =~= b@);
            },
            _ => {},
        }
        i = i + 1;
    }
    assert(s.take(s.len() as int) =~= s);
    let digest = sha256(&data);
    Ok(RadonTypes::Bytes(digest))
}

/// What a reducer gives on an array that is empty or whose elements share one kind.
pub open spec fn reducer_outcome(
    s: Seq<RadonTypes>,
    reducer: RadonReducers,
    wips: ActiveWips,
    r: Result<RadonTypes, RadError>,
) -> bool {
    match reducer {
        RadonReducers::Mode => mode_outcome(s, r),
        RadonReducers::AverageMean => mean_outcome(s, r),
        RadonReducers::AverageMedian => median_outcome(s, wips, r),
        RadonReducers::DeviationStandard => deviation_outcome(s, r),
        RadonReducers::HashConcatenate => hash_outcome(s, wips, r),
        RadonReducers::Unwrap => if wips.wip0019 && s.len() == 1 {
            r is Ok && same_value(r->Ok_0, s[0])
        } else {
            unsupported_reducer(s, 0x0C, r)
        },
        _ => unsupported_reducer(s, reducer.spec_code(), r),
    }
}

/// Collapses an array into one value with the given reducer. An array whose elements do
/// not all share one kind is refused before the reducer is looked at.
pub fn reduce<F: FloatArithmetic>(
    input: &Vec<RadonTypes>,
    reducer: RadonReducers,
    wips: &ActiveWips,
    unit: &F,
) -> (r: Result<RadonTypes, RadError>)
    ensures
        is_heterogeneous(input@) ==> r == Err::<RadonTypes, RadError>(
            RadError::UnsupportedOpNonHomogeneous { reducer: reducer.spec_code() },
        ),
        !is_heterogeneous(input@) ==> reducer_outcome(input@, reducer, *wips, r),
{
    if !homogeneous(input) {
        return Err(RadError::UnsupportedOpNonHomogeneous { reducer: reducer.code() });
    }
    match reducer {
        RadonReducers::Mode => mode(input),
        RadonReducers::AverageMean => {
            let computed = compute_mean(input, unit);
            let r = mean(input, computed);
            assert(mean_result(input@, computed, r));
            r
        },
        RadonReducers::AverageMedian => median(input, wips, unit),
        RadonReducers::DeviationStandard => {
            let computed = compute_deviation(input, unit);
            let r = deviation_standard(input, computed);
            assert(deviation_result(input@, computed, r));
            r
        },
        RadonReducers::HashConcatenate => hash_concatenate(input, wips),
        RadonReducers::Unwrap => if wips.wip0019 {
            unwrap(input)
        } else {
            Err(unsupported_reducer_error(input, 0x0C))
        },
        _ => Err(unsupported_reducer_error(input, reducer.code())),
    }
}

} // verus!
