use witnet_rad::error::RadError;
use witnet_rad::reducers::{deviation_standard, mean, reduce, ActiveWips, FloatArithmetic, RadonReducers};
use witnet_rad::types::RadonTypes;

struct Ieee;

impl FloatArithmetic for Ieee {
    fn mean(&self, values: &Vec<u64>) -> Option<u64> {
        let sum: f64 = values.iter().map(|b| f64::from_bits(*b)).sum();
        let m = sum / values.len() as f64;
        if m.is_finite() { Some(m.to_bits()) } else { None }
    }

    fn deviation_standard(&self, values: &Vec<u64>) -> Option<u64> {
        let xs: Vec<f64> = values.iter().map(|b| f64::from_bits(*b)).collect();
        let n = xs.len() as f64;
        let m = xs.iter().sum::<f64>() / n;
        let d = (xs.iter().map(|x| (x - m) * (x - m)).sum::<f64>() / n).sqrt();
        if d.is_finite() { Some(d.to_bits()) } else { None }
    }

    fn deviation_standard_integers(&self, values: &Vec<i128>) -> Option<u64> {
        let bits: Vec<u64> = values.iter().map(|i| (*i as f64).to_bits()).collect();
        self.deviation_standard(&bits)
    }
}

fn float(x: f64) -> RadonTypes {
    RadonTypes::Float(x.to_bits())
}

fn ints(xs: &[i128]) -> Vec<RadonTypes> {
    xs.iter().map(|x| RadonTypes::Integer(*x)).collect()
}

fn off() -> ActiveWips {
    ActiveWips { wip0017: false, wip0019: false }
}

fn on() -> ActiveWips {
    ActiveWips { wip0017: true, wip0019: true }
}

#[test]
fn mod_test_reduce_average_mean_float() {
    let input = vec![float(1.0), float(2.0)];
    let output = reduce(&input, RadonReducers::AverageMean, &off(), &Ieee).unwrap();
    assert_eq!(output, float(1.5));
}

#[test]
fn test_reduce_deviation_standard_float() {
    let input = vec![float(1.0), float(2.0)];
    let output = reduce(&input, RadonReducers::DeviationStandard, &off(), &Ieee).unwrap();
    assert_eq!(output, float(0.5));
}

#[test]
fn test_reduce_average_median_tapi_activation() {
    let input = vec![float(1.0), float(2.0), float(2.0)];
    let output = reduce(&input, RadonReducers::AverageMedian, &off(), &Ieee).unwrap_err();
    let expected_err = RadError::UnsupportedReducer {
        array: vec![float(1.0), float(2.0), float(2.0)],
        reducer: 0x05,
    };
    assert_eq!(output, expected_err);
    assert_eq!(
        &output.message(),
        "Reducer `RadonReducers::AverageMedian` does not apply to this array of 3 elements"
    );

    let wips = ActiveWips { wip0017: true, wip0019: false };
    let output = reduce(&input, RadonReducers::AverageMedian, &wips, &Ieee).unwrap();
    assert_eq!(output, float(2.0));
}

#[test]
fn test_reduce_mode_float() {
    let input = vec![float(1.0), float(2.0), float(2.0)];
    let output = reduce(&input, RadonReducers::Mode, &off(), &Ieee).unwrap();
    assert_eq!(output, float(2.0));
}

#[test]
fn heterogeneous_arrays_are_refused_by_every_reducer() {
    let input = vec![RadonTypes::Integer(1), float(2.0)];
    for red in [
        RadonReducers::Mode,
        RadonReducers::AverageMean,
        RadonReducers::AverageMedian,
        RadonReducers::DeviationStandard,
        RadonReducers::HashConcatenate,
        RadonReducers::Unwrap,
        RadonReducers::Min,
    ] {
        assert_eq!(
            reduce(&input, red, &on(), &Ieee),
            Err(RadError::UnsupportedOpNonHomogeneous { reducer: red.code() })
        );
    }
}

#[test]
fn integer_mean_rounds_half_to_even() {
    assert_eq!(
        reduce(&ints(&[1, 2]), RadonReducers::AverageMean, &off(), &Ieee),
        Ok(RadonTypes::Integer(2))
    );
    assert_eq!(
        reduce(&ints(&[1, 4]), RadonReducers::AverageMean, &off(), &Ieee),
        Ok(RadonTypes::Integer(2))
    );
    assert_eq!(
        reduce(&ints(&[-3, -2]), RadonReducers::AverageMean, &off(), &Ieee),
        Ok(RadonTypes::Integer(-2))
    );
    assert_eq!(
        reduce(&ints(&[1, 2, 2]), RadonReducers::AverageMean, &off(), &Ieee),
        Ok(RadonTypes::Integer(2))
    );
    assert_eq!(
        reduce(&ints(&[-7]), RadonReducers::AverageMean, &off(), &Ieee),
        Ok(RadonTypes::Integer(-7))
    );
}

#[test]
fn integer_mean_overflow_is_reported() {
    assert_eq!(
        reduce(&ints(&[i128::MAX, 1, -5]), RadonReducers::AverageMean, &off(), &Ieee),
        Err(RadError::Overflow)
    );
}

#[test]
fn empty_array_has_no_mean_or_mode() {
    let empty: Vec<RadonTypes> = vec![];
    assert_eq!(
        reduce(&empty, RadonReducers::AverageMean, &off(), &Ieee),
        Err(RadError::UnsupportedReducer { array: vec![], reducer: 0x03 })
    );
    assert_eq!(
        reduce(&empty, RadonReducers::Mode, &off(), &Ieee),
        Err(RadError::UnsupportedReducer { array: vec![], reducer: 0x02 })
    );
}

#[test]
fn mode_tie_is_an_error() {
    assert_eq!(
        reduce(&ints(&[1, 2, 2, 1]), RadonReducers::Mode, &off(), &Ieee),
        Err(RadError::ModeTie)
    );
    let words: Vec<RadonTypes> = ["a", "b", "b"].iter().map(|s| RadonTypes::String(s.to_string())).collect();
    assert_eq!(
        reduce(&words, RadonReducers::Mode, &off(), &Ieee),
        Ok(RadonTypes::String("b".to_string()))
    );
}

#[test]
fn median_of_integers() {
    assert_eq!(
        reduce(&ints(&[5, 1, 3]), RadonReducers::AverageMedian, &on(), &Ieee),
        Ok(RadonTypes::Integer(3))
    );
    assert_eq!(
        reduce(&ints(&[4, 1, 3, 10]), RadonReducers::AverageMedian, &on(), &Ieee),
        Ok(RadonTypes::Integer(4))
    );
    assert_eq!(
        reduce(&ints(&[2, 1, 5, 10]), RadonReducers::AverageMedian, &on(), &Ieee),
        Ok(RadonTypes::Integer(4))
    );
}

#[test]
fn median_of_floats_orders_negative_values() {
    let input = vec![float(-1.5), float(3.0), float(-4.0)];
    assert_eq!(reduce(&input, RadonReducers::AverageMedian, &on(), &Ieee), Ok(float(-1.5)));
    let even = vec![float(-1.0), float(3.0), float(-4.0), float(2.0)];
    assert_eq!(reduce(&even, RadonReducers::AverageMedian, &on(), &Ieee), Ok(float(0.5)));
}

#[test]
fn unwrap_needs_exactly_one_element() {
    let one = ints(&[9]);
    assert_eq!(reduce(&one, RadonReducers::Unwrap, &on(), &Ieee), Ok(RadonTypes::Integer(9)));
    assert_eq!(
        reduce(&one, RadonReducers::Unwrap, &off(), &Ieee),
        Err(RadError::UnsupportedReducer { array: ints(&[9]), reducer: 0x0C })
    );
    assert_eq!(
        reduce(&ints(&[1, 2]), RadonReducers::Unwrap, &on(), &Ieee),
        Err(RadError::UnsupportedReducer { array: ints(&[1, 2]), reducer: 0x0C })
    );
}

#[test]
fn hash_concatenate_digests_the_joined_bytes() {
    let input = vec![RadonTypes::Bytes(b"a".to_vec()), RadonTypes::Bytes(b"bc".to_vec())];
    let expected: Vec<u8> = vec![
        0xba, 0x78, 0x16, 0xbf, 0x8f, 0x01, 0xcf, 0xea, 0x41, 0x41, 0x40, 0xde, 0x5d, 0xae,
        0x22, 0x23, 0xb0, 0x03, 0x61, 0xa3, 0x96, 0x17, 0x7a, 0x9c, 0xb4, 0x10, 0xff, 0x61,
        0xf2, 0x00, 0x15, 0xad,
    ];
    assert_eq!(
        reduce(&input, RadonReducers::HashConcatenate, &on(), &Ieee),
        Ok(RadonTypes::Bytes(expected))
    );
    assert_eq!(
        reduce(&input, RadonReducers::HashConcatenate, &off(), &Ieee),
        Err(RadError::UnsupportedReducer {
            array: vec![RadonTypes::Bytes(b"a".to_vec()), RadonTypes::Bytes(b"bc".to_vec())],
            reducer: 0x0B
        })
    );
}

#[test]
fn deviation_of_integers() {
    assert_eq!(
        reduce(&ints(&[2, 4, 4, 4, 5, 5, 7, 9]), RadonReducers::DeviationStandard, &off(), &Ieee),
        Ok(float(2.0))
    );
}

#[test]
fn unimplemented_reducers_are_refused() {
    assert_eq!(
        reduce(&ints(&[1, 2]), RadonReducers::Max, &on(), &Ieee),
        Err(RadError::UnsupportedReducer { array: ints(&[1, 2]), reducer: 0x01 })
    );
}

struct Overflowing;

impl FloatArithmetic for Overflowing {
    fn mean(&self, _values: &Vec<u64>) -> Option<u64> {
        Some(f64::INFINITY.to_bits())
    }

    fn deviation_standard(&self, _values: &Vec<u64>) -> Option<u64> {
        Some(f64::NAN.to_bits())
    }

    fn deviation_standard_integers(&self, _values: &Vec<i128>) -> Option<u64> {
        None
    }
}

#[test]
fn non_finite_results_are_domain_errors() {
    let input = vec![float(1.0), float(2.0)];
    assert_eq!(reduce(&input, RadonReducers::AverageMean, &off(), &Overflowing), Err(RadError::MathDomain));
    assert_eq!(
        reduce(&input, RadonReducers::DeviationStandard, &off(), &Overflowing),
        Err(RadError::MathDomain)
    );
    assert_eq!(
        reduce(&ints(&[1, 2]), RadonReducers::DeviationStandard, &off(), &Overflowing),
        Err(RadError::MathDomain)
    );
    let huge = vec![float(f64::MAX), float(f64::MAX)];
    assert_eq!(reduce(&huge, RadonReducers::AverageMean, &off(), &Ieee), Err(RadError::MathDomain));
}

#[test]
fn mean_and_deviation_take_the_computed_double() {
    let input = vec![float(1.0), float(2.0)];
    assert_eq!(mean(&input, Some(1.5f64.to_bits())), Ok(float(1.5)));
    assert_eq!(mean(&input, None), Err(RadError::MathDomain));
    assert_eq!(mean(&input, Some(f64::NAN.to_bits())), Err(RadError::MathDomain));
    assert_eq!(mean(&ints(&[1, 2]), None), Ok(RadonTypes::Integer(2)));
    assert_eq!(deviation_standard(&input, Some(0.5f64.to_bits())), Ok(float(0.5)));
    assert_eq!(
        deviation_standard(&vec![RadonTypes::Boolean(true)], Some(0)),
        Err(RadError::UnsupportedReducer { array: vec![RadonTypes::Boolean(true)], reducer: 0x07 })
    );
}
