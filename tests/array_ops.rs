use witnet_rad::array::{count, filter, get, reduce};
use witnet_rad::error::RadError;
use witnet_rad::reducers::{ActiveWips, FloatArithmetic};
use witnet_rad::types::{CborValue, RadonKind, RadonTypes};

struct Ieee;

impl FloatArithmetic for Ieee {
    fn mean(&self, values: &Vec<u64>) -> Option<u64> {
        let sum: f64 = values.iter().map(|b| f64::from_bits(*b)).sum();
        let m = sum / values.len() as f64;
        if m.is_finite() { Some(m.to_bits()) } else { None }
    }

    fn deviation_standard(&self, values: &Vec<u64>) -> Option<u64> {
        let xs: Vec<f64> = values.iter().map(|b| f64::from_bits(*b)).collect();
        let n = xs.len() as f64;
        let m = xs.iter().sum::<f64>() / n;
        let d = (xs.iter().map(|x| (x - m) * (x - m)).sum::<f64>() / n).sqrt();
        if d.is_finite() { Some(d.to_bits()) } else { None }
    }

    fn deviation_standard_integers(&self, values: &Vec<i128>) -> Option<u64> {
        let bits: Vec<u64> = values.iter().map(|i| (*i as f64).to_bits()).collect();
        self.deviation_standard(&bits)
    }
}

fn float(x: f64) -> RadonTypes {
    RadonTypes::Float(x.to_bits())
}

fn call(op: u8, arg: i128) -> CborValue {
    CborValue::Array(vec![CborValue::Integer(op as i128), CborValue::Integer(arg)])
}

#[test]
fn test_array_count() {
    let input = vec![float(1.0), float(2.0)];
    let empty: Vec<RadonTypes> = vec![];
    assert_eq!(count(&input), 2);
    assert_eq!(count(&empty), 0);
}

#[test]
fn test_reduce_no_args() {
    let input = vec![float(1.0), float(2.0)];
    let result = reduce(&input, &vec![], &ActiveWips::default(), &Ieee);
    assert_eq!(
        &result.unwrap_err().message(),
        "Wrong `RadonArray::Reduce()` arguments: `[]`"
    );
}

#[test]
fn test_reduce_wrong_args() {
    let input = vec![float(1.0), float(2.0)];
    let args = vec![CborValue::Text(String::from("wrong"))];
    let result = reduce(&input, &args, &ActiveWips::default(), &Ieee);
    assert_eq!(
        &result.unwrap_err().message(),
        "Wrong `RadonArray::Reduce()` arguments: `[Text(\"wrong\")]`"
    );
}

#[test]
fn test_reduce_unknown_reducer() {
    let input = vec![float(1.0), float(2.0)];
    let args = vec![CborValue::Integer(-1)];
    let result = reduce(&input, &args, &ActiveWips::default(), &Ieee);
    assert_eq!(
        &result.unwrap_err().message(),
        "Wrong `RadonArray::Reduce()` arguments: `[Integer(-1)]`"
    );
}

#[test]
fn array_test_reduce_average_mean_float() {
    let input = vec![float(1.0), float(2.0)];
    let args = vec![CborValue::Integer(0x03)];
    let output = reduce(&input, &args, &ActiveWips::default(), &Ieee).unwrap();
    assert_eq!(output, float(1.5));
}

#[test]
fn test_map_integer_greater_than() {
    let input = vec![RadonTypes::Integer(2), RadonTypes::Integer(6)];
    let script = vec![call(0x43, 4)];
    let output = witnet_rad::array::map(&input, &script, &ActiveWips::default(), &Ieee).unwrap();
    let expected = RadonTypes::Array(vec![RadonTypes::Boolean(false), RadonTypes::Boolean(true)]);
    assert_eq!(output, expected);
}

#[test]
fn test_filter_integer_greater_than() {
    let input = vec![RadonTypes::Integer(2), RadonTypes::Integer(6)];
    let script = vec![call(0x43, 4)];
    let output = filter(&input, &script, &ActiveWips::default(), &Ieee).unwrap();
    assert_eq!(output, RadonTypes::Array(vec![RadonTypes::Integer(6)]));
}

#[test]
fn test_filter_negative() {
    let input = vec![RadonTypes::Integer(2), RadonTypes::Integer(6)];
    let script = vec![call(0x47, 4)];
    let result = filter(&input, &script, &ActiveWips::default(), &Ieee);
    let err = result.unwrap_err();
    assert_eq!(
        &err.message(),
        "ArrayFilter subscript output was not RadonBoolean (was `RadonTypes::RadonInteger(8)`)"
    );
    assert_eq!(err.code(), 0x20);
}

#[test]
fn get_returns_element_or_index_error() {
    let input = vec![RadonTypes::Integer(10), RadonTypes::Integer(20)];
    assert_eq!(get(&input, &vec![CborValue::Integer(1)]), Ok(RadonTypes::Integer(20)));
    assert_eq!(
        get(&input, &vec![CborValue::Integer(2)]),
        Err(RadError::ArrayIndexNotFound { index: 2 })
    );
    assert_eq!(
        get(&input, &vec![CborValue::Integer(-1)]),
        Err(RadError::ArrayIndexNotFound { index: -1 })
    );
    assert_eq!(
        get(&input, &vec![]),
        Err(RadError::WrongArguments { input_kind: RadonKind::Array, operator: 0xA6, args: vec![] })
    );
}

#[test]
fn map_propagates_element_errors() {
    let input = vec![RadonTypes::Integer(i128::MAX), RadonTypes::Integer(1)];
    let script = vec![call(0x47, 2)];
    assert_eq!(witnet_rad::array::map(&input, &script, &ActiveWips::default(), &Ieee), Err(RadError::Overflow));
}

#[test]
fn map_refuses_subscript_that_is_not_calls() {
    let input = vec![RadonTypes::Integer(1)];
    let script = vec![CborValue::Text(String::from("x"))];
    assert_eq!(
        witnet_rad::array::map(&input, &script, &ActiveWips::default(), &Ieee),
        Err(RadError::SourceScriptNotRADON)
    );
}

#[test]
fn map_of_empty_array_is_empty() {
    let input: Vec<RadonTypes> = vec![];
    let script = vec![call(0x43, 4)];
    assert_eq!(
        witnet_rad::array::map(&input, &script, &ActiveWips::default(), &Ieee),
        Ok(RadonTypes::Array(vec![]))
    );
}

#[test]
fn nested_maps_beyond_the_depth_limit_fail() {
    // The outer map runs its script at depth one; the eighth map inside it would run
    // its own script at depth nine, past the limit.
    let mut sub = CborValue::Integer(0x10);
    for _ in 0..8 {
        sub = CborValue::Array(vec![CborValue::Integer(0x1A), sub]);
    }
    let mut value = RadonTypes::Integer(1);
    for _ in 0..9 {
        value = RadonTypes::Array(vec![value]);
    }
    let input = vec![value];
    let result = witnet_rad::array::map(&input, &vec![sub], &ActiveWips::default(), &Ieee);
    assert_eq!(result, Err(RadError::ScriptTooDeep { depth: 9 }));
}
