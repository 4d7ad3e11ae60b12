use witnet_rad::error::RadError;
use witnet_rad::opcodes::RadonOpCodes;
use witnet_rad::reducers::{ActiveWips, FloatArithmetic};
use witnet_rad::script::{execute_radon_script, identity, operate, RadonCall};
use witnet_rad::types::{CborValue, RadonKind, RadonTypes};

struct Ieee;

impl FloatArithmetic for Ieee {
    fn mean(&self, values: &Vec<u64>) -> Option<u64> {
        let sum: f64 = values.iter().map(|b| f64::from_bits(*b)).sum();
        let m = sum / values.len() as f64;
        if m.is_finite() { Some(m.to_bits()) } else { None }
    }

    fn deviation_standard(&self, values: &Vec<u64>) -> Option<u64> {
        let xs: Vec<f64> = values.iter().map(|b| f64::from_bits(*b)).collect();
        let n = xs.len() as f64;
        let m = xs.iter().sum::<f64>() / n;
        let d = (xs.iter().map(|x| (x - m) * (x - m)).sum::<f64>() / n).sqrt();
        if d.is_finite() { Some(d.to_bits()) } else { None }
    }

    fn deviation_standard_integers(&self, values: &Vec<i128>) -> Option<u64> {
        let bits: Vec<u64> = values.iter().map(|i| (*i as f64).to_bits()).collect();
        self.deviation_standard(&bits)
    }
}

fn float(x: f64) -> RadonTypes {
    RadonTypes::Float(x.to_bits())
}

fn floats(xs: &[f64]) -> RadonTypes {
    RadonTypes::Array(xs.iter().map(|x| float(*x)).collect())
}

fn ints(xs: &[i128]) -> RadonTypes {
    RadonTypes::Array(xs.iter().map(|x| RadonTypes::Integer(*x)).collect())
}

fn with_int(op: RadonOpCodes, arg: i128) -> RadonCall {
    (op, Some(vec![CborValue::Integer(arg)]))
}

fn sub_call(op: RadonOpCodes, arg: i128) -> RadonCall {
    (
        op,
        Some(vec![CborValue::Array(vec![
            CborValue::Integer(RadonOpCodes::IntegerGreaterThan.code() as i128),
            CborValue::Integer(arg),
        ])]),
    )
}

fn run(input: RadonTypes, script: Vec<RadonCall>, wips: ActiveWips) -> Result<RadonTypes, RadError> {
    execute_radon_script(input, &script, &wips, &Ieee)
}

#[test]
fn test_identity() {
    let input = RadonTypes::String(String::from("Hello world!"));
    let expected = RadonTypes::String(String::from("Hello world!"));
    assert_eq!(identity(input).unwrap(), expected);
}

#[test]
fn test_operate() {
    let input = RadonTypes::String(String::from("Hello world!"));
    let expected = RadonTypes::String(String::from("Hello world!"));
    let call: RadonCall = (RadonOpCodes::Identity, None);
    assert_eq!(operate(input, &call, &ActiveWips::default(), &Ieee).unwrap(), expected);
}

#[test]
fn scenario_array_count() {
    let out = run(floats(&[1.0, 2.0]), vec![(RadonOpCodes::ArrayCount, None)], ActiveWips::default());
    assert_eq!(out, Ok(RadonTypes::Integer(2)));
}

#[test]
fn scenario_reduce_mean() {
    let out = run(floats(&[1.0, 2.0]), vec![with_int(RadonOpCodes::ArrayReduce, 0x03)], ActiveWips::default());
    assert_eq!(out, Ok(float(1.5)));
}

#[test]
fn scenario_map_with_predicate() {
    let out = run(ints(&[2, 6]), vec![sub_call(RadonOpCodes::ArrayMap, 4)], ActiveWips::default());
    assert_eq!(out, Ok(RadonTypes::Array(vec![RadonTypes::Boolean(false), RadonTypes::Boolean(true)])));
}

#[test]
fn scenario_filter_rejects_non_boolean() {
    let multiply = (
        RadonOpCodes::ArrayFilter,
        Some(vec![CborValue::Array(vec![
            CborValue::Integer(RadonOpCodes::IntegerMultiply.code() as i128),
            CborValue::Integer(4),
        ])]),
    );
    let out = run(ints(&[2, 6]), vec![multiply], ActiveWips::default());
    let err = out.unwrap_err();
    assert_eq!(
        err,
        RadError::ArrayFilterWrongSubscript { value: "RadonTypes::RadonInteger(8)".to_string() }
    );
    assert_eq!(err.code(), 0x20);
}

#[test]
fn scenario_median_gated() {
    let script = vec![with_int(RadonOpCodes::ArrayReduce, 0x05)];
    let off = run(floats(&[1.0, 2.0, 2.0]), vec![with_int(RadonOpCodes::ArrayReduce, 0x05)], ActiveWips { wip0017: false, wip0019: false });
    assert_eq!(off, Err(RadError::UnsupportedReducer { array: vec![float(1.0), float(2.0), float(2.0)], reducer: 0x05 }));
    assert_eq!(off.unwrap_err().code(), 0x40);
    let on = run(floats(&[1.0, 2.0, 2.0]), script, ActiveWips { wip0017: true, wip0019: false });
    assert_eq!(on, Ok(float(2.0)));
}

#[test]
fn scenario_mode() {
    let out = run(floats(&[1.0, 2.0, 2.0]), vec![with_int(RadonOpCodes::ArrayReduce, 0x02)], ActiveWips::default());
    assert_eq!(out, Ok(float(2.0)));
}

#[test]
fn scenario_non_homogeneous_reduce() {
    let input = RadonTypes::Array(vec![RadonTypes::Integer(1), float(2.0)]);
    let out = run(input, vec![with_int(RadonOpCodes::ArrayReduce, 0x03)], ActiveWips::default());
    assert_eq!(out, Err(RadError::UnsupportedOpNonHomogeneous { reducer: 0x03 }));
    assert_eq!(out.unwrap_err().code(), 0x41);
}

#[test]
fn trailing_identity_changes_nothing() {
    let script = vec![sub_call(RadonOpCodes::ArrayMap, 4)];
    let mut longer = vec![sub_call(RadonOpCodes::ArrayMap, 4)];
    longer.push((RadonOpCodes::Identity, None));
    assert_eq!(
        run(ints(&[2, 6]), script, ActiveWips::default()),
        run(ints(&[2, 6]), longer, ActiveWips::default())
    );
}

#[test]
fn error_values_pass_through_operators() {
    let e = RadonTypes::Error(RadError::ModeTie);
    for op in [RadonOpCodes::ArrayCount, RadonOpCodes::IntegerNegate, RadonOpCodes::Fail] {
        let call: RadonCall = (op, None);
        assert_eq!(
            operate(RadonTypes::Error(RadError::ModeTie), &call, &ActiveWips::default(), &Ieee),
            Ok(RadonTypes::Error(RadError::ModeTie))
        );
    }
    assert_eq!(
        run(e, vec![(RadonOpCodes::ArrayCount, None), (RadonOpCodes::StringLength, None)], ActiveWips::default()),
        Ok(RadonTypes::Error(RadError::ModeTie))
    );
}

#[test]
fn unsupported_operator_names_kind_and_code() {
    let out = run(RadonTypes::Boolean(true), vec![(RadonOpCodes::ArrayCount, None)], ActiveWips::default());
    assert_eq!(out, Err(RadError::UnsupportedOperator { input_kind: RadonKind::Boolean, operator: 0x10 }));
}

#[test]
fn scripts_longer_than_the_limit_are_refused() {
    let script: Vec<RadonCall> = (0..65).map(|_| (RadonOpCodes::Identity, None)).collect();
    assert_eq!(run(RadonTypes::Integer(1), script, ActiveWips::default()), Err(RadError::ScriptTooManyCalls { calls: 65 }));
    let script: Vec<RadonCall> = (0..64).map(|_| (RadonOpCodes::Identity, None)).collect();
    assert_eq!(run(RadonTypes::Integer(1), script, ActiveWips::default()), Ok(RadonTypes::Integer(1)));
}

#[test]
fn integer_operators() {
    let w = ActiveWips::default();
    assert_eq!(run(RadonTypes::Integer(-5), vec![(RadonOpCodes::IntegerAbsolute, None)], w), Ok(RadonTypes::Integer(5)));
    assert_eq!(run(RadonTypes::Integer(i128::MIN), vec![(RadonOpCodes::IntegerAbsolute, None)], w), Err(RadError::Overflow));
    assert_eq!(run(RadonTypes::Integer(7), vec![(RadonOpCodes::IntegerNegate, None)], w), Ok(RadonTypes::Integer(-7)));
    assert_eq!(run(RadonTypes::Integer(7), vec![with_int(RadonOpCodes::IntegerMultiply, -3)], w), Ok(RadonTypes::Integer(-21)));
    assert_eq!(run(RadonTypes::Integer(7), vec![with_int(RadonOpCodes::IntegerLessThan, 8)], w), Ok(RadonTypes::Boolean(true)));
    assert_eq!(run(RadonTypes::Integer(7), vec![with_int(RadonOpCodes::IntegerModulo, -3)], w), Ok(RadonTypes::Integer(1)));
    assert_eq!(run(RadonTypes::Integer(-3), vec![with_int(RadonOpCodes::IntegerPower, 3)], w), Ok(RadonTypes::Integer(-27)));
    assert_eq!(run(RadonTypes::Integer(5), vec![with_int(RadonOpCodes::IntegerPower, 0)], w), Ok(RadonTypes::Integer(1)));
    assert_eq!(run(RadonTypes::Integer(-2), vec![with_int(RadonOpCodes::IntegerPower, 127)], w), Ok(RadonTypes::Integer(i128::MIN)));
    assert_eq!(run(RadonTypes::Integer(2), vec![with_int(RadonOpCodes::IntegerPower, 127)], w), Err(RadError::Overflow));
    assert_eq!(run(RadonTypes::Integer(-1), vec![with_int(RadonOpCodes::IntegerPower, 1_000_000_000_000_001)], w), Ok(RadonTypes::Integer(-1)));
    assert_eq!(
        run(RadonTypes::Integer(2), vec![with_int(RadonOpCodes::IntegerPower, -1)], w),
        Err(RadError::WrongArguments { input_kind: RadonKind::Integer, operator: 0x49, args: vec![CborValue::Integer(-1)] })
    );
    assert_eq!(run(RadonTypes::Integer(-7), vec![with_int(RadonOpCodes::IntegerModulo, 3)], w), Ok(RadonTypes::Integer(-1)));
    assert_eq!(run(RadonTypes::Integer(5), vec![with_int(RadonOpCodes::IntegerModulo, 0)], w), Err(RadError::DivisionByZero));
    assert_eq!(run(RadonTypes::Integer(i128::MIN), vec![with_int(RadonOpCodes::IntegerModulo, -1)], w), Err(RadError::Overflow));
    assert_eq!(run(RadonTypes::Integer(i128::MIN), vec![with_int(RadonOpCodes::IntegerModulo, 7)], w), Ok(RadonTypes::Integer(i128::MIN % 7)));
    assert_eq!(
        run(RadonTypes::Integer(7), vec![(RadonOpCodes::IntegerMultiply, None)], w),
        Err(RadError::WrongArguments { input_kind: RadonKind::Integer, operator: 0x47, args: vec![] })
    );
}

#[test]
fn float_operators() {
    let w = ActiveWips::default();
    assert_eq!(run(float(-2.5), vec![(RadonOpCodes::FloatAbsolute, None)], w), Ok(float(2.5)));
    assert_eq!(run(float(2.5), vec![(RadonOpCodes::FloatNegate, None)], w), Ok(float(-2.5)));
    let gt = (RadonOpCodes::FloatGreaterThan, Some(vec![CborValue::Float((-3.0f64).to_bits())]));
    assert_eq!(run(float(-2.5), vec![gt], w), Ok(RadonTypes::Boolean(true)));
    let lt = (RadonOpCodes::FloatLessThan, Some(vec![CborValue::Float(1.0f64.to_bits())]));
    assert_eq!(run(float(-2.5), vec![lt], w), Ok(RadonTypes::Boolean(true)));
}

#[test]
fn map_and_mixed_operators() {
    let w = ActiveWips::default();
    let m = RadonTypes::Mapping(vec![
        (String::from("b"), RadonTypes::Integer(2)),
        (String::from("a"), RadonTypes::Boolean(true)),
    ]);
    let keys = run(m, vec![(RadonOpCodes::MapKeys, None)], w);
    assert_eq!(keys, Ok(RadonTypes::Array(vec![RadonTypes::String("b".into()), RadonTypes::String("a".into())])));
    let m = RadonTypes::Mapping(vec![(String::from("b"), RadonTypes::Integer(2))]);
    let get = (RadonOpCodes::MapGet, Some(vec![CborValue::Text("b".into())]));
    assert_eq!(run(m, vec![get], w), Ok(RadonTypes::Integer(2)));
    let m = RadonTypes::Mapping(vec![(String::from("b"), RadonTypes::Integer(2))]);
    let missing = (RadonOpCodes::MapGet, Some(vec![CborValue::Text("z".into())]));
    assert_eq!(run(m, vec![missing], w), Err(RadError::MapKeyNotFound));
    let mixed = RadonTypes::Mixed(CborValue::Integer(42));
    assert_eq!(run(mixed, vec![(RadonOpCodes::MixedAsInteger, None)], w), Ok(RadonTypes::Integer(42)));
    let mixed = RadonTypes::Mixed(CborValue::Text("x".into()));
    assert_eq!(
        run(mixed, vec![(RadonOpCodes::MixedAsInteger, None)], w),
        Err(RadError::WrongMixedCast { to: RadonKind::Integer })
    );
    let arr = RadonTypes::Mixed(CborValue::Array(vec![CborValue::Integer(1), CborValue::Bool(true)]));
    assert_eq!(
        run(arr, vec![(RadonOpCodes::MixedAsArray, None)], w),
        Ok(RadonTypes::Array(vec![
            RadonTypes::Mixed(CborValue::Integer(1)),
            RadonTypes::Mixed(CborValue::Bool(true))
        ]))
    );
    let map = RadonTypes::Mixed(CborValue::Mapping(vec![(CborValue::Text("k".into()), CborValue::Integer(3))]));
    assert_eq!(
        run(map, vec![(RadonOpCodes::MixedAsMap, None), (RadonOpCodes::MapValues, None)], w),
        Ok(RadonTypes::Array(vec![RadonTypes::Mixed(CborValue::Integer(3))]))
    );
    let bad = RadonTypes::Mixed(CborValue::Mapping(vec![(CborValue::Integer(1), CborValue::Integer(3))]));
    assert_eq!(
        run(bad, vec![(RadonOpCodes::MixedAsMap, None)], w),
        Err(RadError::WrongMixedCast { to: RadonKind::Mapping })
    );
    let digest = run(RadonTypes::Bytes(b"abc".to_vec()), vec![(RadonOpCodes::BytesHash, None)], w).unwrap();
    match digest {
        RadonTypes::Bytes(d) => {
            assert_eq!(d.len(), 32);
            assert_eq!(&d[..4], &[0xba, 0x78, 0x16, 0xbf]);
        }
        other => panic!("not bytes: {:?}", other),
    }
    assert_eq!(
        run(RadonTypes::Integer(-120), vec![(RadonOpCodes::IntegerAsString, None)], w),
        Ok(RadonTypes::String("-120".into()))
    );
    assert_eq!(
        run(RadonTypes::Integer(0), vec![(RadonOpCodes::IntegerAsString, None)], w),
        Ok(RadonTypes::String("0".into()))
    );
    assert_eq!(
        run(RadonTypes::Boolean(false), vec![(RadonOpCodes::BooleanAsString, None)], w),
        Ok(RadonTypes::String("false".into()))
    );
    assert_eq!(
        run(RadonTypes::Boolean(true), vec![(RadonOpCodes::BooleanNegate, None), (RadonOpCodes::BooleanAsString, None)], w),
        Ok(RadonTypes::String("false".into()))
    );
    let lower = run(RadonTypes::String("HeLLo Ä".into()), vec![(RadonOpCodes::StringToLowerCase, None)], w);
    assert_eq!(lower, Ok(RadonTypes::String("hello ä".into())));
    let upper = run(RadonTypes::String("HeLLo ä".into()), vec![(RadonOpCodes::StringToUpperCase, None)], w);
    assert_eq!(upper, Ok(RadonTypes::String("HELLO Ä".into())));
    assert_eq!(run(RadonTypes::Float(f64::NAN.to_bits()), vec![(RadonOpCodes::FloatNegate, None)], w), Err(RadError::MathDomain));
    assert_eq!(run(RadonTypes::Float(f64::INFINITY.to_bits()), vec![(RadonOpCodes::FloatAbsolute, None)], w), Err(RadError::MathDomain));
    let gt_nan = (RadonOpCodes::FloatGreaterThan, Some(vec![CborValue::Float(f64::NAN.to_bits())]));
    assert_eq!(run(float(1.0), vec![gt_nan], w), Err(RadError::MathDomain));
    assert_eq!(
        run(RadonTypes::Bytes("héllo".as_bytes().to_vec()), vec![(RadonOpCodes::BytesAsString, None)], w),
        Ok(RadonTypes::String("héllo".into()))
    );
    assert_eq!(
        run(RadonTypes::Bytes(vec![0x61, 0xFF]), vec![(RadonOpCodes::BytesAsString, None)], w),
        Err(RadError::NotUtf8)
    );
    assert_eq!(
        run(RadonTypes::String("true".into()), vec![(RadonOpCodes::StringAsBoolean, None)], w),
        Ok(RadonTypes::Boolean(true))
    );
    assert_eq!(
        run(RadonTypes::String("false".into()), vec![(RadonOpCodes::StringAsBoolean, None)], w),
        Ok(RadonTypes::Boolean(false))
    );
    assert_eq!(
        run(RadonTypes::String("True".into()), vec![(RadonOpCodes::StringAsBoolean, None)], w),
        Err(RadError::NotBooleanLike)
    );
    let as_int = |t: &str| run(RadonTypes::String(t.into()), vec![(RadonOpCodes::StringAsInteger, None)], w);
    assert_eq!(as_int("-120"), Ok(RadonTypes::Integer(-120)));
    assert_eq!(as_int("007"), Ok(RadonTypes::Integer(7)));
    assert_eq!(as_int("-170141183460469231731687303715884105728"), Ok(RadonTypes::Integer(i128::MIN)));
    assert_eq!(as_int("170141183460469231731687303715884105728"), Err(RadError::Overflow));
    assert_eq!(as_int("+1"), Err(RadError::NotIntegerLike));
    assert_eq!(as_int("-"), Err(RadError::NotIntegerLike));
    assert_eq!(as_int(""), Err(RadError::NotIntegerLike));
    assert_eq!(as_int("1a"), Err(RadError::NotIntegerLike));
    let nan = RadonTypes::Mixed(CborValue::Float(f64::NAN.to_bits()));
    assert_eq!(run(nan, vec![(RadonOpCodes::MixedAsFloat, None)], w), Err(RadError::MathDomain));
    let s = RadonTypes::String("héllo".into());
    assert_eq!(run(s, vec![(RadonOpCodes::StringLength, None)], w), Ok(RadonTypes::Integer(5)));
}

#[test]
fn sort_is_stable_and_follows_the_direction() {
    let w = ActiveWips::default();
    let asc = (RadonOpCodes::ArraySort, Some(vec![CborValue::Array(vec![]), CborValue::Bool(true)]));
    assert_eq!(run(ints(&[3, -1, 2, -1]), vec![asc], w), Ok(ints(&[-1, -1, 2, 3])));
    let desc = (RadonOpCodes::ArraySort, Some(vec![CborValue::Array(vec![]), CborValue::Bool(false)]));
    assert_eq!(run(ints(&[3, -1, 2]), vec![desc], w), Ok(ints(&[3, 2, -1])));
    // Both zeros stand for the same number and keep their order.
    let zeros = RadonTypes::Array(vec![float(1.0), float(-0.0), float(0.0), float(-2.0)]);
    let sorted = run(zeros, vec![(RadonOpCodes::ArraySort, None)], w);
    assert_eq!(sorted, Ok(RadonTypes::Array(vec![float(-2.0), float(-0.0), float(0.0), float(1.0)])));
    let words = RadonTypes::Array(vec![RadonTypes::String("b".into())]);
    assert_eq!(
        run(words, vec![(RadonOpCodes::ArraySort, None)], w),
        Err(RadError::UnsupportedOperator { input_kind: RadonKind::Array, operator: 0x1D })
    );
    let keyed = (RadonOpCodes::ArraySort, Some(vec![CborValue::Array(vec![CborValue::Text("k".into())])]));
    assert_eq!(
        run(ints(&[1]), vec![keyed], w),
        Err(RadError::WrongArguments {
            input_kind: RadonKind::Array,
            operator: 0x1D,
            args: vec![CborValue::Array(vec![CborValue::Text("k".into())])]
        })
    );
}
