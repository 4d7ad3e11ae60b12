use vstd::prelude::*;

use crate::error::RadError;
use crate::kinds::{int_arg, operate_scalar, scalar_outcome, unsupported, wrong_args};
use crate::opcodes::{spec_from_code, RadonOpCodes};
use crate::reducers::{
    is_heterogeneous, reduce, reducer_outcome, reducer_with_code, ActiveWips, FloatArithmetic,
    RadonReducers,
};
use crate::reducers::{as_ints, homogeneous, is_homogeneous, key_of, keys_of, keys_vec};
use crate::sort::{sort_numbers, sort_outcome};
use crate::kinds::copy_args;
use crate::messages::{describe_value, value_text};
use crate::types::{clone_value, same_cbors, same_value, CborValue, RadonKind, RadonTypes};

verus! {

/// How deep scripts may nest inside `ArrayMap` and `ArrayFilter`.
pub const MAX_DEPTH: u32 = 8;

/// How many calls a script may hold.
pub const MAX_CALLS: usize = 64;

/// The operator of a call written in CBOR: a bare code, or an array that starts with one.
pub open spec fn call_op(c: CborValue) -> Option<RadonOpCodes> {
    match c {
        CborValue::Integer(i) => if 0 <= i <= 255 {
            spec_from_code(i as u8)
        } else {
            None
        },
        CborValue::Array(items) => if items@.len() > 0 && items@[0] is Integer {
            let i = items@[0]->Integer_0;
            if 0 <= i <= 255 {
                spec_from_code(i as u8)
            } else {
                None
            }
        } else {
            None
        },
        _ => None,
    }
}

/// The arguments of a call written in CBOR: what follows the code.
pub open spec fn call_args(c: CborValue) -> Seq<CborValue> {
    match c {
        CborValue::Array(items) => items@.skip(1),
        _ => Seq::empty(),
    }
}

/// Every element of `sub` is a call.
pub open spec fn all_calls(sub: Seq<CborValue>) -> bool {
    forall|i: int| 0 <= i < sub.len() ==> (#[trigger] call_op(sub[i])) is Some
}

/// How many more levels of nesting the limit allows below `depth`.
pub open spec fn depth_left(depth: nat) -> nat {
    if depth <= MAX_DEPTH {
        (MAX_DEPTH - depth) as nat
    } else {
        0
    }
}

/// `r` is an outcome of running the script `calls` on `v` at nesting depth `depth`.
pub open spec fn executes(
    calls: Seq<CborValue>,
    v: RadonTypes,
    depth: nat,
    w: ActiveWips,
    r: Result<RadonTypes, RadError>,
) -> bool
    decreases depth_left(depth), 4nat, 0nat,
{
    if calls.len() > MAX_CALLS {
        r == Err::<RadonTypes, RadError>(RadError::ScriptTooManyCalls { calls: calls.len() as usize })
    } else {
        runs(calls, v, depth, w, r)
    }
}

/// Marks the outcome of one call inside a script, so that proofs can name it.
pub open spec fn intermediate(mid: Result<RadonTypes, RadError>) -> bool {
    true
}

/// `r` is an outcome of applying the calls one after the other, left to right, stopping at
/// the first failure.
pub open spec fn runs(
    calls: Seq<CborValue>,
    v: RadonTypes,
    depth: nat,
    w: ActiveWips,
    r: Result<RadonTypes, RadError>,
) -> bool
    decreases depth_left(depth), 3nat, calls.len(),
{
    if calls.len() == 0 {
        r == Ok::<RadonTypes, RadError>(v)
    } else {
        match call_op(calls[0]) {
            None => r == Err::<RadonTypes, RadError>(RadError::SourceScriptNotRADON),
            Some(op) => exists|mid: Result<RadonTypes, RadError>|
                #[trigger] intermediate(mid) && operate_outcome(
                    v,
                    op,
                    call_args(calls[0]),
                    depth,
                    w,
                    mid,
                ) && match mid {
                    Ok(x) => runs(calls.drop_first(), x, depth, w, r),
                    Err(e) => r == Err::<RadonTypes, RadError>(e),
                },
        }
    }
}

/// `r` is an outcome of applying the operator `op` with arguments `args` to `v`.
/// An error value passes through every operator unchanged.
pub open spec fn operate_outcome(
    v: RadonTypes,
    op: RadonOpCodes,
    args: Seq<CborValue>,
    depth: nat,
    w: ActiveWips,
    r: Result<RadonTypes, RadError>,
) -> bool
    decreases depth_left(depth), 2nat, 0nat,
{
    if v is Error || op is Identity {
        r == Ok::<RadonTypes, RadError>(v)
    } else {
        match v {
            RadonTypes::Array(items) => array_outcome(v, items@, op, args, depth, w, r),
            _ => scalar_outcome(v, op, args, r),
        }
    }
}

/// `r` is an outcome of applying the operator `op` to an array.
pub open spec fn array_outcome(
    v: RadonTypes,
    items: Seq<RadonTypes>,
    op: RadonOpCodes,
    args: Seq<CborValue>,
    depth: nat,
    w: ActiveWips,
    r: Result<RadonTypes, RadError>,
) -> bool
    decreases depth_left(depth), 1nat, 0nat,
{
    match op {
        RadonOpCodes::ArrayCount => r == Ok::<RadonTypes, RadError>(
            RadonTypes::Integer(items.len() as i128),
        ),
        RadonOpCodes::ArrayGet => get_outcome(items, args, r),
        RadonOpCodes::ArrayReduce => reduce_call_outcome(items, args, w, r),
        RadonOpCodes::ArraySort => sort_call_outcome(items, args, r),
        RadonOpCodes::ArrayMap => map_outcome(items, args, depth, w, r),
        RadonOpCodes::ArrayFilter => filter_outcome(items, args, depth, w, r),
        _ => r == unsupported(v, op),
    }
}

/// `r` is an outcome of running the script `sub` on a copy of `item`.
pub open spec fn element_runs(
    sub: Seq<CborValue>,
    item: RadonTypes,
    depth: nat,
    w: ActiveWips,
    r: Result<RadonTypes, RadError>,
) -> bool
    decreases depth_left(depth), 5nat, 0nat,
{
    exists|seed: RadonTypes| #[trigger] same_value(seed, item) && executes(sub, seed, depth, w, r)
}

/// Running the script `sub` on a copy of `item` may succeed.
pub open spec fn element_succeeds(sub: Seq<CborValue>, item: RadonTypes, depth: nat, w: ActiveWips) -> bool
    decreases depth_left(depth), 6nat, 0nat,
{
    exists|y: RadonTypes|
        #[trigger] intermediate(Ok::<RadonTypes, RadError>(y)) && element_runs(
            sub,
            item,
            depth,
            w,
            Ok::<RadonTypes, RadError>(y),
        )
}

/// Running the script `sub` on a copy of `item` may give a boolean.
pub open spec fn element_decides(sub: Seq<CborValue>, item: RadonTypes, depth: nat, w: ActiveWips) -> bool
    decreases depth_left(depth), 6nat, 0nat,
{
    exists|b: bool|
        #[trigger] intermediate(Ok::<RadonTypes, RadError>(RadonTypes::Boolean(b)))
            && element_runs(
            sub,
            item,
            depth,
            w,
            Ok::<RadonTypes, RadError>(RadonTypes::Boolean(b)),
        )
}

/// `r` is an outcome of running the script `sub` on each element, in order, stopping at the
/// first element on which it fails.
pub open spec fn map_outcome(
    items: Seq<RadonTypes>,
    sub: Seq<CborValue>,
    depth: nat,
    w: ActiveWips,
    r: Result<RadonTypes, RadError>,
) -> bool
    decreases depth_left(depth), 0nat, 0nat,
{
    if !all_calls(sub) {
        r == Err::<RadonTypes, RadError>(RadError::SourceScriptNotRADON)
    } else if depth >= MAX_DEPTH {
        r == Err::<RadonTypes, RadError>(RadError::ScriptTooDeep { depth: (depth + 1) as u32 })
    } else {
        match r {
            Ok(out) => out is Array && out->Array_0@.len() == items.len() && forall|i: int|
                #![trigger out->Array_0@[i]]
                0 <= i < items.len() ==> element_runs(
                    sub,
                    items[i],
                    depth + 1,
                    w,
                    Ok::<RadonTypes, RadError>(out->Array_0@[i]),
                ),
            Err(e) => exists|k: int|
                #![trigger items[k]]
                0 <= k < items.len() && element_runs(
                    sub,
                    items[k],
                    depth + 1,
                    w,
                    Err::<RadonTypes, RadError>(e),
                ) && forall|j: int|
                    0 <= j < k ==> element_succeeds(sub, #[trigger] items[j], depth + 1, w),
        }
    }
}

/// The elements whose flag is set, in order.
pub open spec fn kept(items: Seq<RadonTypes>, keep: Seq<bool>) -> Seq<RadonTypes>
    decreases items.len(),
{
    if items.len() == 0 || keep.len() == 0 {
        Seq::empty()
    } else if keep.last() {
        kept(items.drop_last(), keep.drop_last()).push(items.last())
    } else {
        kept(items.drop_last(), keep.drop_last())
    }
}

/// How a filter's subscript may fail on an element: it fails, or gives a non-boolean.
pub open spec fn filter_failure(x: Result<RadonTypes, RadError>, e: RadError) -> bool {
    ||| x == Err::<RadonTypes, RadError>(e)
    ||| {
        &&& x is Ok
        &&& !(x->Ok_0 is Boolean)
        &&& e is ArrayFilterWrongSubscript
        &&& e->ArrayFilterWrongSubscript_value@ == value_text(x->Ok_0)
    }
}

/// `r` is an outcome of keeping the elements for which the script `sub` gives `true`,
/// stopping at the first element on which it fails or gives something other than a boolean.
pub open spec fn filter_outcome(
    items: Seq<RadonTypes>,
    sub: Seq<CborValue>,
    depth: nat,
    w: ActiveWips,
    r: Result<RadonTypes, RadError>,
) -> bool
    decreases depth_left(depth), 0nat, 0nat,
{
    if !all_calls(sub) {
        r == Err::<RadonTypes, RadError>(RadError::SourceScriptNotRADON)
    } else if depth >= MAX_DEPTH {
        r == Err::<RadonTypes, RadError>(RadError::ScriptTooDeep { depth: (depth + 1) as u32 })
    } else {
        match r {
            Ok(out) => out is Array && exists|keep: Seq<bool>|
                #![trigger kept(items, keep)]
                keep.len() == items.len() && (forall|i: int|
                    #![trigger keep[i]]
                    0 <= i < items.len() ==> element_runs(
                        sub,
                        items[i],
                        depth + 1,
                        w,
                        Ok::<RadonTypes, RadError>(RadonTypes::Boolean(keep[i])),
                    )) && out->Array_0@.len() == kept(items, keep).len() && forall|j: int|
                    0 <= j < out->Array_0@.len() ==> same_value(
                        #[trigger] out->Array_0@[j],
                        kept(items, keep)[j],
                    ),
            Err(e) => exists|k: int, x: Result<RadonTypes, RadError>|
                #![trigger items[k], filter_failure(x, e)]
                0 <= k < items.len() && element_runs(sub, items[k], depth + 1, w, x)
                    && filter_failure(x, e) && forall|j: int|
                    0 <= j < k ==> element_decides(sub, #[trigger] items[j], depth + 1, w),
        }
    }
}

/// The operator of a call written in CBOR.
pub fn decode_call_op(c: &CborValue) -> (r: Option<RadonOpCodes>)
    ensures
        r == call_op(*c),
{
    let code = match c {
        CborValue::Integer(i) => *i,
        CborValue::Array(items) => {
            if items.len() == 0 {
                return None;
            }
            match &items[0] {
                CborValue::Integer(i) => *i,
                _ => {
                    return None;
                },
            }
        },
        _ => {
            return None;
        },
    };
    if 0 <= code && code <= 255 {
        RadonOpCodes::from_code(code as u8)
    } else {
        None
    }
}

/// Whether every element of `calls@.skip(from)` is a call.
fn check_calls(calls: &Vec<CborValue>, from: usize) -> (r: bool)
    requires
        from <= calls@.len(),
    ensures
        r == all_calls(calls@.skip(from as int)),
{
    let ghost sub = calls@.skip(from as int);
    let mut i: usize = from;
    while i < calls.len()
        invariant
            from <= i <= calls@.len(),
            sub == calls@.skip(from as int),
            forall|j: int| 0 <= j < i - from ==> (#[trigger] call_op(sub[j])) is Some,
        decreases calls@.len() - i,
    {
        if decode_call_op(&calls[i]).is_none() {
            assert(sub[i - from] == calls@[i as int]);
            return false;
        }
        assert(sub[i - from] == calls@[i as int]);
        i = i + 1;
    }
    true
}

/// Applies the operator `op`, with arguments `args@.skip(from)`, to `input` at nesting depth
/// `depth`. An error value passes through unchanged.
pub fn operate_in<F: FloatArithmetic>(
    input: RadonTypes,
    op: RadonOpCodes,
    args: &Vec<CborValue>,
    from: usize,
    depth: u32,
    wips: &ActiveWips,
    unit: &F,
) -> (r: Result<RadonTypes, RadError>)
    requires
        from <= args@.len(),
        depth <= MAX_DEPTH,
    ensures
        operate_outcome(input, op, args@.skip(from as int), depth as nat, *wips, r),
    decreases depth_left(depth as nat), 2nat, 0nat,
{
    if let RadonTypes::Error(_) = input {
        return Ok(input);
    }
    if let RadonOpCodes::Identity = op {
        return Ok(input);
    }
    match &input {
        RadonTypes::Array(items) => operate_array(&input, items, op, args, from, depth, wips, unit),
        _ => operate_scalar(&input, op, args, from),
    }
}

/// Applies an operator to an array.
pub(crate) fn operate_array<F: FloatArithmetic>(
    v: &RadonTypes,
    items: &Vec<RadonTypes>,
    op: RadonOpCodes,
    args: &Vec<CborValue>,
    from: usize,
    depth: u32,
    wips: &ActiveWips,
    unit: &F,
) -> (r: Result<RadonTypes, RadError>)
    requires
        from <= args@.len(),
        depth <= MAX_DEPTH,
        *v == RadonTypes::Array(*items),
    ensures
        array_outcome(*v, items@, op, args@.skip(from as int), depth as nat, *wips, r),
    decreases depth_left(depth as nat), 1nat, 0nat,
{
    let ghost a = args@.skip(from as int);
    match op {
        RadonOpCodes::ArrayCount => Ok(RadonTypes::Integer(items.len() as i128)),
        RadonOpCodes::ArrayGet => get_item(items, args, from),
        RadonOpCodes::ArrayReduce => reduce_with_args(items, args, from, wips, unit),
        RadonOpCodes::ArraySort => sort_items(items, args, from),
        RadonOpCodes::ArrayMap => map_items(items, args, from, depth, wips, unit),
        RadonOpCodes::ArrayFilter => filter_items(items, args, from, depth, wips, unit),
        _ => Err(RadError::UnsupportedOperator { input_kind: RadonKind::Array, operator: op.code() }),
    }
}

/// The failure for array operators whose arguments are missing or malformed: it keeps them.
pub open spec fn array_wrong_args(
    op: RadonOpCodes,
    args: Seq<CborValue>,
    r: Result<RadonTypes, RadError>,
) -> bool {
    r matches Err(RadError::WrongArguments { input_kind, operator, args: kept }) && input_kind
        == RadonKind::Array && operator == op.spec_code() && same_cbors(kept@, args)
}

/// The direction that the arguments of `ArraySort` ask for: an empty list of keys, then
/// whether to sort ascending, which is the default.
pub open spec fn sort_direction(args: Seq<CborValue>) -> Option<bool> {
    if args.len() == 0 {
        Some(true)
    } else if args[0] matches CborValue::Array(keys) && keys@.len() == 0 {
        if args.len() == 1 {
            Some(true)
        } else if args[1] is Bool {
            Some(args[1]->Bool_0)
        } else {
            None
        }
    } else {
        None
    }
}

/// What `ArraySort` gives: integers or doubles, sorted stably by value.
pub open spec fn sort_call_outcome(
    items: Seq<RadonTypes>,
    args: Seq<CborValue>,
    r: Result<RadonTypes, RadError>,
) -> bool {
    match sort_direction(args) {
        Some(ascending) => if items.len() == 0 || (is_homogeneous(items) && (items[0] is Integer
            || items[0] is Float)) {
            r matches Ok(RadonTypes::Array(out)) && sort_outcome(items, ascending, out@)
        } else {
            r == Err::<RadonTypes, RadError>(
                RadError::UnsupportedOperator { input_kind: RadonKind::Array, operator: 0x1D },
            )
        },
        None => array_wrong_args(RadonOpCodes::ArraySort, args, r),
    }
}

/// Sorts an array of integers or doubles as the arguments `args@.skip(from)` ask.
pub(crate) fn sort_items(items: &Vec<RadonTypes>, args: &Vec<CborValue>, from: usize) -> (r: Result<
    RadonTypes,
    RadError,
>)
    requires
        from <= args@.len(),
    ensures
        sort_call_outcome(items@, args@.skip(from as int), r),
{
    let ghost a = args@.skip(from as int);

    let mut ascending = true;
    if from < args.len() {
        match &args[from] {
            CborValue::Array(keys) => {
                if keys.len() != 0 {
                    return Err(RadError::WrongArguments { input_kind: RadonKind::Array, operator: 0x1D, args: copy_args(args, from) });
                }
            },
            _ => {
                return Err(RadError::WrongArguments { input_kind: RadonKind::Array, operator: 0x1D, args: copy_args(args, from) });
            },
        }
        if from + 1 < args.len() {
            match &args[from + 1] {
                CborValue::Bool(b) => {
                    ascending = *b;
                },
                _ => {
                    return Err(RadError::WrongArguments { input_kind: RadonKind::Array, operator: 0x1D, args: copy_args(args, from) });
                },
            }
        }
    }
    assert(sort_direction(a) == Some(ascending));
    if items.len() > 0 {
        let numeric = match &items[0] {
            RadonTypes::Integer(_) | RadonTypes::Float(_) => true,
            _ => false,
        };
        if !numeric || !homogeneous(items) {
            return Err(RadError::UnsupportedOperator { input_kind: RadonKind::Array, operator: 0x1D });
        }
    }
    let keys = keys_vec(items);
    proof {
        assert(as_ints(keys@).len() == keys@.len());
        assert(keys_of(items@).len() == items@.len());
        assert forall|i: int| 0 <= i < items@.len() implies keys@[i] as int == key_of(
            #[trigger] items@[i],
        ) by {
            assert(as_ints(keys@)[i] == keys_of(items@)[i]);
            assert(as_ints(keys@)[i] == keys@[i] as int);
        }
    }
    Ok(RadonTypes::Array(sort_numbers(items, &keys, ascending)))
}

/// What `ArrayGet` gives: the element at the index that the first argument holds.
pub open spec fn get_outcome(
    items: Seq<RadonTypes>,
    args: Seq<CborValue>,
    r: Result<RadonTypes, RadError>,
) -> bool {
    match int_arg(args) {
        Some(i) => if 0 <= i < items.len() {
            r is Ok && same_value(r->Ok_0, items[i as int])
        } else {
            r == Err::<RadonTypes, RadError>(RadError::ArrayIndexNotFound { index: i })
        },
        None => array_wrong_args(RadonOpCodes::ArrayGet, args, r),
    }
}

/// What `ArrayReduce` gives: the reducer whose code the first argument holds, applied.
pub open spec fn reduce_call_outcome(
    items: Seq<RadonTypes>,
    args: Seq<CborValue>,
    w: ActiveWips,
    r: Result<RadonTypes, RadError>,
) -> bool {
    match int_arg(args) {
        Some(c) => match reducer_with_code(c) {
            Some(red) => if is_heterogeneous(items) {
                r == Err::<RadonTypes, RadError>(
                    RadError::UnsupportedOpNonHomogeneous { reducer: red.spec_code() },
                )
            } else {
                reducer_outcome(items, red, w, r)
            },
            None => array_wrong_args(RadonOpCodes::ArrayReduce, args, r),
        },
        None => array_wrong_args(RadonOpCodes::ArrayReduce, args, r),
    }
}

/// The element at the index given by the first argument of `args@.skip(from)`.
pub(crate) fn get_item(items: &Vec<RadonTypes>, args: &Vec<CborValue>, from: usize) -> (r: Result<
    RadonTypes,
    RadError,
>)
    requires
        from <= args@.len(),
    ensures
        get_outcome(items@, args@.skip(from as int), r),
{
    if from >= args.len() {
        return Err(RadError::WrongArguments { input_kind: RadonKind::Array, operator: 0xA6, args: copy_args(args, from) });
    }
    match &args[from] {
        CborValue::Integer(i) => {
            let i = *i;
            if 0 <= i && i < items.len() as i128 {
                Ok(clone_value(&items[i as usize]))
            } else {
                Err(RadError::ArrayIndexNotFound { index: i })
            }
        },
        _ => Err(RadError::WrongArguments { input_kind: RadonKind::Array, operator: 0xA6, args: copy_args(args, from) }),
    }
}

/// Applies the reducer whose code is the first argument of `args@.skip(from)`.
pub(crate) fn reduce_with_args<F: FloatArithmetic>(
    items: &Vec<RadonTypes>,
    args: &Vec<CborValue>,
    from: usize,
    wips: &ActiveWips,
    unit: &F,
) -> (r: Result<RadonTypes, RadError>)
    requires
        from <= args@.len(),
    ensures
        reduce_call_outcome(items@, args@.skip(from as int), *wips, r),
{
    if from >= args.len() {
        return Err(RadError::WrongArguments { input_kind: RadonKind::Array, operator: 0x1B, args: copy_args(args, from) });
    }
    match &args[from] {
        CborValue::Integer(c) => match RadonReducers::from_code(*c) {
            Some(red) => reduce(items, red, wips, unit),
            None => Err(RadError::WrongArguments { input_kind: RadonKind::Array, operator: 0x1B, args: copy_args(args, from) }),
        },
        _ => Err(RadError::WrongArguments { input_kind: RadonKind::Array, operator: 0x1B, args: copy_args(args, from) }),
    }
}

/// Runs the script `args@.skip(from)` on a copy of each element.
pub(crate) fn map_items<F: FloatArithmetic>(
    items: &Vec<RadonTypes>,
    args: &Vec<CborValue>,
    from: usize,
    depth: u32,
    wips: &ActiveWips,
    unit: &F,
) -> (r: Result<RadonTypes, RadError>)
    requires
        from <= args@.len(),
        depth <= MAX_DEPTH,
    ensures
        map_outcome(items@, args@.skip(from as int), depth as nat, *wips, r),
    decreases depth_left(depth as nat), 0nat, 0nat,
{
    let ghost sub = args@.skip(from as int);
    if !check_calls(args, from) {
        return Err(RadError::SourceScriptNotRADON);
    }
    if depth >= MAX_DEPTH {
        return Err(RadError::ScriptTooDeep { depth: depth + 1 });
    }
    let mut out: Vec<RadonTypes> = Vec::new();
    let mut i: usize = 0;
    while i < items.len()
        invariant
            i <= items@.len(),
            depth < MAX_DEPTH,
            from <= args@.len(),
            sub == args@.skip(from as int),
            all_calls(sub),
            out@.len() == i,
            forall|j: int|
                #![trigger out@[j]]
                0 <= j < i ==> element_runs(
                    sub,
                    items@[j],
                    (depth + 1) as nat,
                    *wips,
                    Ok::<RadonTypes, RadError>(out@[j]),
                ),
        decreases items@.len() - i,
    {
        let seed = clone_value(&items[i]);
        let ghost s = seed;
        let res = execute_cbor(args, from, seed, depth + 1, wips, unit);
        proof {
            assert(same_value(s, items@[i as int]) && executes(sub, s, (depth + 1) as nat, *wips, res));
            assert(element_runs(sub, items@[i as int], (depth + 1) as nat, *wips, res));
        }
        match res {
            Ok(x) => {
                out.push(x);
            },
            Err(e) => {
                proof {
                    assert forall|j: int| 0 <= j < i implies element_succeeds(
                        sub,
                        #[trigger] items@[j],
                        (depth + 1) as nat,
                        *wips,
                    ) by {
                        assert(intermediate(Ok::<RadonTypes, RadError>(out@[j])));
                    }
                }
                return Err(e);
            },
        }
        i = i + 1;
    }
    Ok(RadonTypes::Array(out))
}

/// Keeps a copy of each element for which the script `args@.skip(from)` gives `true`.
pub(crate) fn filter_items<F: FloatArithmetic>(
    items: &Vec<RadonTypes>,
    args: &Vec<CborValue>,
    from: usize,
    depth: u32,
    wips: &ActiveWips,
    unit: &F,
) -> (r: Result<RadonTypes, RadError>)
    requires
        from <= args@.len(),
        depth <= MAX_DEPTH,
    ensures
        filter_outcome(items@, args@.skip(from as int), depth as nat, *wips, r),
    decreases depth_left(depth as nat), 0nat, 0nat,
{
    let ghost sub = args@.skip(from as int);
    if !check_calls(args, from) {
        return Err(RadError::SourceScriptNotRADON);
    }
    if depth >= MAX_DEPTH {
        return Err(RadError::ScriptTooDeep { depth: depth + 1 });
    }
    let mut out: Vec<RadonTypes> = Vec::new();
    let ghost mut keep: Seq<bool> = Seq::empty();
    let mut i: usize = 0;
    while i < items.len()
        invariant
            i <= items@.len(),
            depth < MAX_DEPTH,
            from <= args@.len(),
            sub == args@.skip(from as int),
            all_calls(sub),
            keep.len() == i,
            forall|j: int|
                #![trigger keep[j]]
                0 <= j < i ==> element_runs(
                    sub,
                    items@[j],
                    (depth + 1) as nat,
                    *wips,
                    Ok::<RadonTypes, RadError>(RadonTypes::Boolean(keep[j])),
                ),
            out@.len() == kept(items@.take(i as int), keep).len(),
            forall|j: int|
                0 <= j < out@.len() ==> same_value(
                    #[trigger] out@[j],
                    kept(items@.take(i as int), keep)[j],
                ),
        decreases items@.len() - i,
    {
        let seed = clone_value(&items[i]);
        let ghost s = seed;
        let res = execute_cbor(args, from, seed, depth + 1, wips, unit);
        proof {
            assert(same_value(s, items@[i as int]) && executes(sub, s, (depth + 1) as nat, *wips, res));
            assert(element_runs(sub, items@[i as int], (depth + 1) as nat, *wips, res));
        }
        let ghost prev = kept(items@.take(i as int), keep);
        assert(items@.take(i + 1).drop_last() =~= items@.take(i as int));
        match res {
            Ok(RadonTypes::Boolean(b)) => {
                let ghost old_keep = keep;
                proof {
                    keep = keep.push(b);
                }
                if b {
                    let x = clone_value(&items[i]);
                    out.push(x);
                }
                proof {
                    let t = items@.take(i + 1);
                    assert(t.drop_last() =~= items@.take(i as int));
                    assert(keep.drop_last() =~= old_keep);
                    assert(t.last() == items@[i as int]);
                    assert(keep.last() == b);
                    assert(keep[i as int] == b);
                }
            },
            Ok(x) => {
                let ghost gx = x;
                let description = describe_value(&x);
                proof {
                    let ge = RadError::ArrayFilterWrongSubscript { value: description };
                    assert(filter_failure(Ok::<RadonTypes, RadError>(gx), ge));
                }
                proof {
                    assert forall|j: int| 0 <= j < i implies element_decides(
                        sub,
                        #[trigger] items@[j],
                        (depth + 1) as nat,
                        *wips,
                    ) by {
                        assert(intermediate(
                            Ok::<RadonTypes, RadError>(RadonTypes::Boolean(keep[j])),
                        ));
                    }
                }
                return Err(RadError::ArrayFilterWrongSubscript { value: description });
            },
            Err(e) => {
                proof {
                    assert(filter_failure(res, e));
                }
                proof {
                    assert forall|j: int| 0 <= j < i implies element_decides(
                        sub,
                        #[trigger] items@[j],
                        (depth + 1) as nat,
                        *wips,
                    ) by {
                        assert(intermediate(
                            Ok::<RadonTypes, RadError>(RadonTypes::Boolean(keep[j])),
                        ));
                    }
                }
                return Err(e);
            },
        }
        i = i + 1;
    }
    assert(items@.take(items@.len() as int) =~= items@);
    Ok(RadonTypes::Array(out))
}

/// Runs the script `calls@.skip(from)` on `seed` at nesting depth `depth`.
pub fn execute_cbor<F: FloatArithmetic>(
    calls: &Vec<CborValue>,
    from: usize,
    seed: RadonTypes,
    depth: u32,
    wips: &ActiveWips,
    unit: &F,
) -> (r: Result<RadonTypes, RadError>)
    requires
        from <= calls@.len(),
        depth <= MAX_DEPTH,
    ensures
        executes(calls@.skip(from as int), seed, depth as nat, *wips, r),
    decreases depth_left(depth as nat), 4nat, 0nat,
{
    let ghost script = calls@.skip(from as int);
    let ghost first = seed;
    if calls.len() - from > MAX_CALLS {
        return Err(RadError::ScriptTooManyCalls { calls: calls.len() - from });
    }
    let no_args: Vec<CborValue> = Vec::new();
    let mut v = seed;
    let mut i: usize = from;
    while i < calls.len()
        invariant
            from <= i <= calls@.len(),
            depth <= MAX_DEPTH,
            script == calls@.skip(from as int),
            script.len() <= MAX_CALLS,
            first == seed,
            no_args@.len() == 0,
            forall|r: Result<RadonTypes, RadError>|
                #[trigger] runs(calls@.skip(i as int), v, depth as nat, *wips, r) ==> runs(
                    script,
                    first,
                    depth as nat,
                    *wips,
                    r,
                ),
        decreases calls@.len() - i,
    {
        let ghost rest = calls@.skip(i as int);
        let ghost here = v;
        assert(rest[0] == calls@[i as int]);
        assert(rest.drop_first() =~= calls@.skip(i + 1));
        let op = match decode_call_op(&calls[i]) {
            Some(op) => op,
            None => {
                assert(runs(rest, here, depth as nat, *wips, Err(RadError::SourceScriptNotRADON)));
                assert(runs(script, first, depth as nat, *wips, Err(RadError::SourceScriptNotRADON)));
                assert(executes(script, first, depth as nat, *wips, Err(RadError::SourceScriptNotRADON)));
                return Err(RadError::SourceScriptNotRADON);
            },
        };
        let res = match &calls[i] {
            CborValue::Array(items) => operate_in(v, op, items, 1, depth, wips, unit),
            _ => operate_in(v, op, &no_args, 0, depth, wips, unit),
        };
        proof {
            assert(no_args@.skip(0) =~= Seq::<CborValue>::empty());
            assert(operate_outcome(here, op, call_args(rest[0]), depth as nat, *wips, res));
            assert(intermediate(res));
        }
        match res {
            Ok(x) => {
                v = x;
                proof {
                    assert forall|r: Result<RadonTypes, RadError>|
                        #[trigger] runs(calls@.skip(i + 1), v, depth as nat, *wips, r) implies runs(
                        script,
                        first,
                        depth as nat,
                        *wips,
                        r,
                    ) by {
                        assert(runs(rest, here, depth as nat, *wips, r));
                    }
                }
            },
            Err(e) => {
                assert(runs(rest, here, depth as nat, *wips, Err(e)));
                return Err(e);
            },
        }
        i = i + 1;
    }
    assert(calls@.skip(i as int) =~= Seq::<CborValue>::empty());
    assert(runs(calls@.skip(i as int), v, depth as nat, *wips, Ok(v)));
    Ok(v)
}

} // verus!
