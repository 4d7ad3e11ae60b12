use vstd::prelude::*;

use crate::error::RadError;
use crate::operators::{call_args, call_op, decode_call_op, intermediate, operate_in, operate_outcome, MAX_CALLS};
use crate::opcodes::RadonOpCodes;
use crate::reducers::{ActiveWips, FloatArithmetic};
use crate::types::{clone_cbor, same_cbor, same_cbors, CborValue, RadonTypes};

verus! {

/// One call of a script: an operator and its arguments, if any.
pub type RadonCall = (RadonOpCodes, Option<Vec<CborValue>>);

/// The arguments of a call; none stands for an empty list.
pub open spec fn args_of(call: RadonCall) -> Seq<CborValue> {
    match call.1 {
        Some(a) => a@,
        None => Seq::empty(),
    }
}

/// `r` is an outcome of applying the calls of `script` one after the other to `v`,
/// stopping at the first failure.
pub open spec fn script_runs(
    script: Seq<RadonCall>,
    v: RadonTypes,
    w: ActiveWips,
    r: Result<RadonTypes, RadError>,
) -> bool
    decreases script.len(),
{
    if script.len() == 0 {
        r == Ok::<RadonTypes, RadError>(v)
    } else {
        exists|mid: Result<RadonTypes, RadError>|
            #[trigger] intermediate(mid) && operate_outcome(
                v,
                script[0].0,
                args_of(script[0]),
                0,
                w,
                mid,
            ) && match mid {
                Ok(x) => script_runs(script.drop_first(), x, w, r),
                Err(e) => r == Err::<RadonTypes, RadError>(e),
            }
    }
}

/// `r` is an outcome of executing `script` on `v`: a script longer than the limit is refused.
pub open spec fn script_outcome(
    script: Seq<RadonCall>,
    v: RadonTypes,
    w: ActiveWips,
    r: Result<RadonTypes, RadError>,
) -> bool {
    if script.len() > MAX_CALLS {
        r == Err::<RadonTypes, RadError>(RadError::ScriptTooManyCalls { calls: script.len() as usize })
    } else {
        script_runs(script, v, w, r)
    }
}

/// Returns its input.
pub fn identity(input: RadonTypes) -> (r: Result<RadonTypes, RadError>)
    ensures
        r == Ok::<RadonTypes, RadError>(input),
{
    Ok(input)
}

/// Applies one call to a value. An error value passes through every operator unchanged.
pub fn operate<F: FloatArithmetic>(
    input: RadonTypes,
    call: &RadonCall,
    wips: &ActiveWips,
    unit: &F,
) -> (r: Result<RadonTypes, RadError>)
    ensures
        operate_outcome(input, call.0, args_of(*call), 0, *wips, r),
        input is Error ==> r == Ok::<RadonTypes, RadError>(input),
{
    match &call.1 {
        Some(args) => {
            assert(args@.skip(0) =~= args@);
            operate_in(input, call.0, args, 0, 0, wips, unit)
        },
        None => {
            let no_args: Vec<CborValue> = Vec::new();
            let r = operate_in(input, call.0, &no_args, 0, 0, wips, unit);
            assert(no_args@.skip(0) =~= Seq::<CborValue>::empty());
            r
        },
    }
}

/// Applies the calls of a script one after the other, left to right, to `input`.
pub fn execute_radon_script<F: FloatArithmetic>(
    input: RadonTypes,
    script: &Vec<RadonCall>,
    wips: &ActiveWips,
    unit: &F,
) -> (r: Result<RadonTypes, RadError>)
    ensures
        script_outcome(script@, input, *wips, r),
{
    let ghost first = input;
    if script.len() > MAX_CALLS {
        return Err(RadError::ScriptTooManyCalls { calls: script.len() });
    }
    let mut v = input;
    let mut i: usize = 0;
    assert(script@.skip(0) =~= script@);
    while i < script.len()
        invariant
            i <= script@.len(),
            script@.len() <= MAX_CALLS,
            first == input,
            forall|r: Result<RadonTypes, RadError>|
                #[trigger] script_runs(script@.skip(i as int), v, *wips, r) ==> script_runs(
                    script@,
                    first,
                    *wips,
                    r,
                ),
        decreases script@.len() - i,
    {
        let ghost rest = script@.skip(i as int);
        let ghost here = v;
        assert(rest[0] == script@[i as int]);
        assert(rest.drop_first() =~= script@.skip(i + 1));
        let res = operate(v, &script[i], wips, unit);
        proof {
            assert(intermediate(res));
        }
        match res {
            Ok(x) => {
                v = x;
                proof {
                    assert forall|r: Result<RadonTypes, RadError>|
                        #[trigger] script_runs(script@.skip(i + 1), v, *wips, r) implies script_runs(
                        script@,
                        first,
                        *wips,
                        r,
                    ) by {
                        assert(script_runs(rest, here, *wips, r));
                    }
                }
            },
            Err(e) => {
                assert(script_runs(rest, here, *wips, Err(e)));
                return Err(e);
            },
        }
        i = i + 1;
    }
    assert(script@.skip(i as int) =~= Seq::<RadonCall>::empty());
    assert(script_runs(script@.skip(i as int), v, *wips, Ok(v)));
    Ok(v)
}

/// Reads a call written in CBOR: a bare operator code, or an array of the code and its
/// arguments. The arguments are copied.
pub fn unpack_radon_call(c: &CborValue) -> (r: Result<RadonCall, RadError>)
    ensures
        call_op(*c) is None ==> r == Err::<RadonCall, RadError>(RadError::SourceScriptNotRADON),
        call_op(*c) matches Some(op) ==> r is Ok && r->Ok_0.0 == op && same_cbors(
            args_of(r->Ok_0),
            call_args(*c),
        ),
{
    let op = match decode_call_op(c) {
        Some(op) => op,
        None => {
            return Err(RadError::SourceScriptNotRADON);
        },
    };
    match c {
        CborValue::Array(items) => {
            let mut args: Vec<CborValue> = Vec::new();
            let mut i: usize = 1;
            while i < items.len()
                invariant
                    1 <= i <= items@.len(),
                    args@.len() == i - 1,
                    forall|j: int|
                        0 <= j < i - 1 ==> same_cbor(#[trigger] args@[j], items@.skip(1)[j]),
                decreases items@.len() - i,
            {
                args.push(clone_cbor(&items[i]));
                i = i + 1;
            }
            if args.len() == 0 {
                Ok((op, None))
            } else {
                Ok((op, Some(args)))
            }
        },
        _ => Ok((op, None)),
    }
}

/// Reads a script written in CBOR: an array of calls.
pub fn unpack_script(c: &CborValue) -> (r: Result<Vec<RadonCall>, RadError>)
    ensures
        !(c is Array) ==> r == Err::<Vec<RadonCall>, RadError>(RadError::SourceScriptNotArray),
        c matches CborValue::Array(items) ==> {
            &&& (forall|i: int| 0 <= i < items@.len() ==> (#[trigger] call_op(items@[i])) is Some)
                <==> r is Ok
            &&& r matches Ok(calls) ==> calls@.len() == items@.len() && forall|i: int|
                0 <= i < items@.len() ==> (#[trigger] calls@[i]).0 == call_op(items@[i])->Some_0
                    && same_cbors(args_of(calls@[i]), call_args(items@[i]))
        },
{
    match c {
        CborValue::Array(items) => {
            let mut calls: Vec<RadonCall> = Vec::new();
            let mut i: usize = 0;
            while i < items.len()
                invariant
                    *c == CborValue::Array(*items),
                    i <= items@.len(),
                    calls@.len() == i,
                    forall|j: int| 0 <= j < i ==> (#[trigger] call_op(items@[j])) is Some,
                    forall|j: int|
                        0 <= j < i ==> (#[trigger] calls@[j]).0 == call_op(items@[j])->Some_0
                            && same_cbors(args_of(calls@[j]), call_args(items@[j])),
                decreases items@.len() - i,
            {
                match unpack_radon_call(&items[i]) {
                    Ok(call) => {
                        calls.push(call);
                    },
                    Err(e) => {
                        return Err(e);
                    },
                }
                i = i + 1;
            }
            Ok(calls)
        },
        _ => Err(RadError::SourceScriptNotArray),
    }
}

proof fn lemma_identity_suffix_runs(
    script: Seq<RadonCall>,
    id: RadonCall,
    v: RadonTypes,
    w: ActiveWips,
    r: Result<RadonTypes, RadError>,
)
    requires
        id.0 == RadonOpCodes::Identity,
    ensures
        script_runs(script.push(id), v, w, r) <==> script_runs(script, v, w, r),
    decreases script.len(),
{
    let longer = script.push(id);
    if script.len() == 0 {
        assert(longer.drop_first() =~= Seq::<RadonCall>::empty());
        assert(longer[0] == id);
        let ok = Ok::<RadonTypes, RadError>(v);
        assert(intermediate(ok));
        if script_runs(longer, v, w, r) {
            let mid = choose|mid: Result<RadonTypes, RadError>|
                #[trigger] intermediate(mid) && operate_outcome(
                    v,
                    longer[0].0,
                    args_of(longer[0]),
                    0,
                    w,
                    mid,
                ) && match mid {
                    Ok(x) => script_runs(longer.drop_first(), x, w, r),
                    Err(e) => r == Err::<RadonTypes, RadError>(e),
                };
            assert(mid == ok);
        }
        if script_runs(script, v, w, r) {
            assert(script_runs(longer.drop_first(), v, w, r));
        }
    } else {
        assert(longer.drop_first() =~= script.drop_first().push(id));
        assert(longer[0] == script[0]);
        if script_runs(longer, v, w, r) {
            let mid = choose|mid: Result<RadonTypes, RadError>|
                #[trigger] intermediate(mid) && operate_outcome(
                    v,
                    longer[0].0,
                    args_of(longer[0]),
                    0,
                    w,
                    mid,
                ) && match mid {
                    Ok(x) => script_runs(longer.drop_first(), x, w, r),
                    Err(e) => r == Err::<RadonTypes, RadError>(e),
                };
            if let Ok(x) = mid {
                lemma_identity_suffix_runs(script.drop_first(), id, x, w, r);
            }
            assert(intermediate(mid));
        }
        if script_runs(script, v, w, r) {
            let mid = choose|mid: Result<RadonTypes, RadError>|
                #[trigger] intermediate(mid) && operate_outcome(
                    v,
                    script[0].0,
                    args_of(script[0]),
                    0,
                    w,
                    mid,
                ) && match mid {
                    Ok(x) => script_runs(script.drop_first(), x, w, r),
                    Err(e) => r == Err::<RadonTypes, RadError>(e),
                };
            if let Ok(x) = mid {
                lemma_identity_suffix_runs(script.drop_first(), id, x, w, r);
            }
            assert(intermediate(mid));
        }
    }
}

proof fn lemma_error_runs(script: Seq<RadonCall>, e: RadError, w: ActiveWips, r: Result<RadonTypes, RadError>)
    ensures
        script_runs(script, RadonTypes::Error(e), w, r) <==> r == Ok::<RadonTypes, RadError>(
            RadonTypes::Error(e),
        ),
    decreases script.len(),
{
    let v = RadonTypes::Error(e);
    if script.len() > 0 {
        lemma_error_runs(script.drop_first(), e, w, r);
        let ok = Ok::<RadonTypes, RadError>(v);
        assert(intermediate(ok));
        assert(operate_outcome(v, script[0].0, args_of(script[0]), 0, w, ok));
        if script_runs(script, v, w, r) {
            let mid = choose|mid: Result<RadonTypes, RadError>|
                #[trigger] intermediate(mid) && operate_outcome(
                    v,
                    script[0].0,
                    args_of(script[0]),
                    0,
                    w,
                    mid,
                ) && match mid {
                    Ok(x) => script_runs(script.drop_first(), x, w, r),
                    Err(e) => r == Err::<RadonTypes, RadError>(e),
                };
            assert(mid == ok);
        }
    }
}

/// An error value passes through every script within the limit on calls unchanged: no
/// operator applies to it.
pub proof fn error_passes_through_law(
    script: Seq<RadonCall>,
    e: RadError,
    w: ActiveWips,
    r: Result<RadonTypes, RadError>,
)
    requires
        script.len() <= MAX_CALLS,
    ensures
        script_outcome(script, RadonTypes::Error(e), w, r) <==> r == Ok::<RadonTypes, RadError>(
            RadonTypes::Error(e),
        ),
{
    lemma_error_runs(script, e, w, r);
}

/// Appending an `Identity` call to a script changes none of its outcomes, for scripts short
/// enough that the longer one stays within the limit on calls.
pub proof fn identity_suffix_law(
    script: Seq<RadonCall>,
    id: RadonCall,
    v: RadonTypes,
    w: ActiveWips,
    r: Result<RadonTypes, RadError>,
)
    requires
        id.0 == RadonOpCodes::Identity,
        script.len() < MAX_CALLS,
    ensures
        script_outcome(script.push(id), v, w, r) <==> script_outcome(script, v, w, r),
{
    lemma_identity_suffix_runs(script, id, v, w, r);
}

} // verus!
