use vstd::prelude::*;

use crate::error::RadError;
use crate::operators::{
    filter_items, filter_outcome, get_item, get_outcome, map_items, map_outcome,
    reduce_call_outcome, reduce_with_args,
};
use crate::reducers::{ActiveWips, FloatArithmetic};
use crate::types::{CborValue, RadonTypes};

verus! {

/// The number of elements.
pub fn count(input: &Vec<RadonTypes>) -> (r: i128)
    ensures
        r == input@.len(),
{
    input.len() as i128
}

/// The element at the index that the first argument holds.
pub fn get(input: &Vec<RadonTypes>, args: &Vec<CborValue>) -> (r: Result<RadonTypes, RadError>)
    ensures
        get_outcome(input@, args@, r),
{
    let r = get_item(input, args, 0);
    assert(args@.skip(0) =~= args@);
    r
}

/// Collapses the array with the reducer whose code the first argument holds.
pub fn reduce<F: FloatArithmetic>(
    input: &Vec<RadonTypes>,
    args: &Vec<CborValue>,
    wips: &ActiveWips,
    unit: &F,
) -> (r: Result<RadonTypes, RadError>)
    ensures
        reduce_call_outcome(input@, args@, *wips, r),
{
    let r = reduce_with_args(input, args, 0, wips, unit);
    assert(args@.skip(0) =~= args@);
    r
}

/// Runs the script whose calls are `args` on a copy of each element, in order.
pub fn map<F: FloatArithmetic>(
    input: &Vec<RadonTypes>,
    args: &Vec<CborValue>,
    wips: &ActiveWips,
    unit: &F,
) -> (r: Result<RadonTypes, RadError>)
    ensures
        map_outcome(input@, args@, 0, *wips, r),
{
    let r = map_items(input, args, 0, 0, wips, unit);
    assert(args@.skip(0) =~= args@);
    r
}

/// Keeps the elements for which the script whose calls are `args` gives `true`.
pub fn filter<F: FloatArithmetic>(
    input: &Vec<RadonTypes>,
    args: &Vec<CborValue>,
    wips: &ActiveWips,
    unit: &F,
) -> (r: Result<RadonTypes, RadError>)
    ensures
        filter_outcome(input@, args@, 0, *wips, r),
{
    let r = filter_items(input, args, 0, 0, wips, unit);
    assert(args@.skip(0) =~= args@);
    r
}

} // verus!
