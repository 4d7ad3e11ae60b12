use witnet_rad::error::RadError;
use witnet_rad::opcodes::RadonOpCodes;
use witnet_rad::reducers::{ActiveWips, FloatArithmetic};
use witnet_rad::script::RadonCall;
use witnet_rad::stages::{retrieval_seed, retrieve_all, run_aggregation, run_tally, RadonReport, RetrievalKind};
use witnet_rad::types::{CborValue, RadonTypes};

struct Ieee;

impl FloatArithmetic for Ieee {
    fn mean(&self, values: &Vec<u64>) -> Option<u64> {
        let sum: f64 = values.iter().map(|b| f64::from_bits(*b)).sum();
        let m = sum / values.len() as f64;
        if m.is_finite() { Some(m.to_bits()) } else { None }
    }

    fn deviation_standard(&self, _values: &Vec<u64>) -> Option<u64> {
        None
    }

    fn deviation_standard_integers(&self, _values: &Vec<i128>) -> Option<u64> {
        None
    }
}

fn times(k: i128) -> Vec<RadonCall> {
    vec![(RadonOpCodes::IntegerMultiply, Some(vec![CborValue::Integer(k)]))]
}

#[test]
fn failed_sources_become_error_values_in_place() {
    let seeds = vec![RadonTypes::Integer(3), RadonTypes::Integer(i128::MAX), RadonTypes::Integer(-1)];
    let scripts = vec![times(2), times(2), times(5)];
    let out = retrieve_all(seeds, &scripts, &ActiveWips::default(), &Ieee);
    assert_eq!(
        out,
        vec![RadonTypes::Integer(6), RadonTypes::Error(RadError::Overflow), RadonTypes::Integer(-5)]
    );
}

#[test]
fn aggregation_reports_partial_failure() {
    let seeds = vec![RadonTypes::Integer(3), RadonTypes::Integer(i128::MAX)];
    let scripts = vec![times(2), times(2)];
    let count: Vec<RadonCall> = vec![(RadonOpCodes::ArrayCount, None)];
    let report = run_aggregation(seeds, &scripts, &count, &ActiveWips::default(), &Ieee);
    assert_eq!(report, RadonReport { result: RadonTypes::Integer(2), partial_failure: true });
}

#[test]
fn tally_runs_on_the_reveals() {
    let reveals = vec![
        RadonTypes::Float(1.0f64.to_bits()),
        RadonTypes::Float(2.0f64.to_bits()),
        RadonTypes::Float(2.0f64.to_bits()),
    ];
    let mode: Vec<RadonCall> = vec![(RadonOpCodes::ArrayReduce, Some(vec![CborValue::Integer(0x02)]))];
    let report = run_tally(reveals, &mode, &ActiveWips::default(), &Ieee);
    assert_eq!(
        report,
        RadonReport { result: RadonTypes::Float(2.0f64.to_bits()), partial_failure: false }
    );

    let reveals = vec![RadonTypes::Float(1.0f64.to_bits()), RadonTypes::Error(RadError::Overflow)];
    let report = run_tally(reveals, &mode, &ActiveWips::default(), &Ieee);
    assert_eq!(
        report,
        RadonReport {
            result: RadonTypes::Error(RadError::UnsupportedOpNonHomogeneous { reducer: 0x02 }),
            partial_failure: false
        }
    );
}

#[test]
fn seeds_follow_the_kind_of_source() {
    assert_eq!(retrieval_seed(RetrievalKind::Rng, vec![1, 2], None), RadonTypes::Bytes(vec![1, 2]));
    assert_eq!(
        retrieval_seed(RetrievalKind::HttpGet, vec![0x01], Some(CborValue::Integer(1))),
        RadonTypes::Mixed(CborValue::Integer(1))
    );
    assert_eq!(
        retrieval_seed(RetrievalKind::HttpPost, vec![0xFF], None),
        RadonTypes::Error(RadError::SourceScriptNotCBOR)
    );
    assert_eq!(
        retrieval_seed(RetrievalKind::Rng, vec![0; 65536], None),
        RadonTypes::Error(RadError::ValueTooLarge { size: 65536 })
    );
    assert_eq!(
        retrieval_seed(RetrievalKind::Rng, vec![0; 65535], None),
        RadonTypes::Bytes(vec![0; 65535])
    );
}
