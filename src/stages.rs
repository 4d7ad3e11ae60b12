use vstd::prelude::*;

use crate::error::RadError;
use crate::reducers::{ActiveWips, FloatArithmetic};
use crate::script::{execute_radon_script, script_outcome, RadonCall};
use crate::types::{CborValue, RadonTypes};

verus! {

/// The value that an outcome leaves: the result itself, or the failure as an error value.
pub open spec fn as_value(r: Result<RadonTypes, RadError>) -> RadonTypes {
    match r {
        Ok(x) => x,
        Err(e) => RadonTypes::Error(e),
    }
}

/// `v` is a value that running `script` on `seed` may leave, a failure kept as an error value.
pub open spec fn stage_value(
    script: Seq<RadonCall>,
    seed: RadonTypes,
    w: ActiveWips,
    v: RadonTypes,
) -> bool {
    exists|r: Result<RadonTypes, RadError>|
        #[trigger] script_outcome(script, seed, w, r) && v == as_value(r)
}

/// Some of the values are errors.
pub open spec fn has_error(vals: Seq<RadonTypes>) -> bool {
    exists|i: int| 0 <= i < vals.len() && (#[trigger] vals[i]) is Error
}

/// How many bytes a retrieved body may hold.
pub const MAX_BODY_SIZE: usize = 65535;

/// How a source's body was obtained.
#[derive(Debug, Clone, Copy, PartialEq, Eq, Structural)]
pub enum RetrievalKind {
    HttpGet,
    HttpPost,
    /// Random bytes.
    Rng,
}

/// The value a source's script starts from: random bytes as they are; an HTTP body as the
/// CBOR value it was parsed into, or an error where it could not be parsed. A body over the
/// size limit gives an error instead.
pub fn retrieval_seed(kind: RetrievalKind, body: Vec<u8>, parsed: Option<CborValue>) -> (r:
    RadonTypes)
    ensures
        body@.len() > MAX_BODY_SIZE ==> r == RadonTypes::Error(
            RadError::ValueTooLarge { size: body@.len() as usize },
        ),
        body@.len() <= MAX_BODY_SIZE && kind == RetrievalKind::Rng ==> r == RadonTypes::Bytes(body),
        body@.len() <= MAX_BODY_SIZE && kind != RetrievalKind::Rng ==> match parsed {
            Some(c) => r == RadonTypes::Mixed(c),
            None => r == RadonTypes::Error(RadError::SourceScriptNotCBOR),
        },
{
    if body.len() > MAX_BODY_SIZE {
        return RadonTypes::Error(RadError::ValueTooLarge { size: body.len() });
    }
    match kind {
        RetrievalKind::Rng => RadonTypes::Bytes(body),
        _ => match parsed {
            Some(c) => RadonTypes::Mixed(c),
            None => RadonTypes::Error(RadError::SourceScriptNotCBOR),
        },
    }
}

/// The outcome of a stage: its value, and whether some of its inputs had failed while the
/// stage itself succeeded.
#[derive(Debug, PartialEq)]
pub struct RadonReport {
    pub result: RadonTypes,
    pub partial_failure: bool,
}

/// Runs a script and keeps a failure as an error value.
fn run_stage<F: FloatArithmetic>(
    seed: RadonTypes,
    script: &Vec<RadonCall>,
    wips: &ActiveWips,
    unit: &F,
) -> (v: RadonTypes)
    ensures
        stage_value(script@, seed, *wips, v),
{
    let ghost s = seed;
    let res = execute_radon_script(seed, script, wips, unit);
    assert(script_outcome(script@, s, *wips, res));
    match res {
        Ok(x) => x,
        Err(e) => RadonTypes::Error(e),
    }
}

/// Whether some of the values are errors.
fn any_error(vals: &Vec<RadonTypes>) -> (r: bool)
    ensures
        r == has_error(vals@),
{
    let mut i: usize = 0;
    while i < vals.len()
        invariant
            i <= vals@.len(),
            forall|j: int| 0 <= j < i ==> !((#[trigger] vals@[j]) is Error),
        decreases vals@.len() - i,
    {
        if let RadonTypes::Error(_) = vals[i] {
            return true;
        }
        i = i + 1;
    }
    false
}

/// Runs the script of each source on the body fetched for it, in the order of the sources.
/// A source that fails leaves an error value in its place.
pub fn retrieve_all<F: FloatArithmetic>(
    seeds: Vec<RadonTypes>,
    scripts: &Vec<Vec<RadonCall>>,
    wips: &ActiveWips,
    unit: &F,
) -> (r: Vec<RadonTypes>)
    requires
        seeds@.len() == scripts@.len(),
    ensures
        r@.len() == seeds@.len(),
        forall|i: int|
            0 <= i < seeds@.len() ==> stage_value(scripts@[i]@, seeds@[i], *wips, #[trigger] r@[i]),
{
    let ghost all = seeds@;
    let mut rest = seeds;
    let mut out: Vec<RadonTypes> = Vec::new();
    let mut i: usize = 0;
    while i < scripts.len()
        invariant
            all.len() == scripts@.len(),
            i <= all.len(),
            rest@ == all.skip(i as int),
            out@.len() == i,
            forall|j: int|
                0 <= j < i ==> stage_value(scripts@[j]@, all[j], *wips, #[trigger] out@[j]),
        decreases all.len() - i,
    {
        assert(rest@.len() > 0);
        let seed = rest.remove(0);
        assert(seed == all[i as int]);
        let v = run_stage(seed, &scripts[i], wips, unit);
        out.push(v);
        i = i + 1;
        assert(rest@ =~= all.skip(i as int));
    }
    out
}

/// Retrieves every source, then runs the aggregation script on the array of what they gave.
pub fn run_aggregation<F: FloatArithmetic>(
    seeds: Vec<RadonTypes>,
    retrieve_scripts: &Vec<Vec<RadonCall>>,
    aggregate_script: &Vec<RadonCall>,
    wips: &ActiveWips,
    unit: &F,
) -> (r: RadonReport)
    requires
        seeds@.len() == retrieve_scripts@.len(),
    ensures
        exists|vals: Vec<RadonTypes>|
            #[trigger] stage_value(aggregate_script@, RadonTypes::Array(vals), *wips, r.result)
                && vals@.len() == seeds@.len() && (forall|i: int|
                0 <= i < seeds@.len() ==> stage_value(
                    retrieve_scripts@[i]@,
                    seeds@[i],
                    *wips,
                    #[trigger] vals@[i],
                )) && r.partial_failure == (has_error(vals@) && !(r.result is Error)),
{
    let retrieved = retrieve_all(seeds, retrieve_scripts, wips, unit);
    let failed = any_error(&retrieved);
    let ghost vals = retrieved;
    let result = run_stage(RadonTypes::Array(retrieved), aggregate_script, wips, unit);
    let ok = !matches!(result, RadonTypes::Error(_));
    RadonReport { result, partial_failure: failed && ok }
}

/// Runs the tally script on the array of the witnesses' reveals.
pub fn run_tally<F: FloatArithmetic>(
    reveals: Vec<RadonTypes>,
    tally_script: &Vec<RadonCall>,
    wips: &ActiveWips,
    unit: &F,
) -> (r: RadonReport)
    ensures
        stage_value(tally_script@, RadonTypes::Array(reveals), *wips, r.result),
        r.partial_failure == (has_error(reveals@) && !(r.result is Error)),
{
    let failed = any_error(&reveals);
    let result = run_stage(RadonTypes::Array(reveals), tally_script, wips, unit);
    let ok = !matches!(result, RadonTypes::Error(_));
    RadonReport { result, partial_failure: failed && ok }
}

} // verus!
