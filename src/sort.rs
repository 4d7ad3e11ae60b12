use vstd::prelude::*;

use crate::reducers::key_of;
use crate::types::{clone_value, same_value, RadonTypes};

verus! {

/// `a` comes strictly before `b` in the chosen direction.
pub open spec fn key_before(a: int, b: int, ascending: bool) -> bool {
    if ascending {
        a < b
    } else {
        a > b
    }
}

/// `p` lists each index below `n` exactly once.
pub open spec fn is_permutation(p: Seq<int>, n: int) -> bool {
    &&& p.len() == n
    &&& forall|j: int| 0 <= j < p.len() ==> 0 <= #[trigger] p[j] < n
    &&& forall|j: int, k: int| 0 <= j < k < p.len() ==> p[j] != p[k]
}

/// Taking the elements in the order `p` lists them orders them by number in the chosen
/// direction, and keeps elements that stand for the same number in their original order.
pub open spec fn stably_sorted(items: Seq<RadonTypes>, p: Seq<int>, ascending: bool) -> bool {
    forall|j: int, k: int|
        0 <= j < k < p.len() ==> key_before(
            key_of(items[#[trigger] p[j]]),
            key_of(items[#[trigger] p[k]]),
            ascending,
        ) || (key_of(items[p[j]]) == key_of(items[p[k]]) && p[j] < p[k])
}

/// `out` holds copies of the elements, sorted stably by the numbers they stand for.
pub open spec fn sort_outcome(items: Seq<RadonTypes>, ascending: bool, out: Seq<RadonTypes>) -> bool {
    exists|p: Seq<int>|
        #[trigger] is_permutation(p, items.len() as int) && stably_sorted(items, p, ascending)
            && out.len() == items.len() && forall|j: int|
            0 <= j < out.len() ==> same_value(#[trigger] out[j], items[p[j]])
}

fn before(a: i128, b: i128, ascending: bool) -> (r: bool)
    ensures
        r == key_before(a as int, b as int, ascending),
{
    if ascending {
        a < b
    } else {
        a > b
    }
}

/// Copies of integers or doubles, sorted stably by value in the chosen direction.
pub fn sort_numbers(items: &Vec<RadonTypes>, keys: &Vec<i128>, ascending: bool) -> (r: Vec<RadonTypes>)
    requires
        keys@.len() == items@.len(),
        forall|i: int| 0 <= i < items@.len() ==> keys@[i] as int == key_of(#[trigger] items@[i]),
    ensures
        sort_outcome(items@, ascending, r@),
{
    let n = items.len();
    let mut out: Vec<RadonTypes> = Vec::new();
    let mut out_keys: Vec<i128> = Vec::new();
    let ghost mut p: Seq<int> = Seq::empty();
    let mut i: usize = 0;
    while i < n
        invariant
            n == items@.len(),
            keys@.len() == n,
            forall|t: int| 0 <= t < n ==> keys@[t] as int == key_of(#[trigger] items@[t]),
            i <= n,
            p.len() == i,
            out@.len() == i,
            out_keys@.len() == i,
            forall|j: int| 0 <= j < i ==> 0 <= #[trigger] p[j] < i,
            forall|j: int, k: int| 0 <= j < k < i ==> p[j] != p[k],
            forall|j: int| 0 <= j < i ==> same_value(#[trigger] out@[j], items@[p[j]]),
            forall|j: int| 0 <= j < i ==> (#[trigger] out_keys@[j]) as int == key_of(items@[p[j]]),
            stably_sorted(items@, p, ascending),
        decreases n - i,
    {
        let ki = keys[i];
        let mut pos: usize = 0;
        while pos < out_keys.len() && !before(ki, out_keys[pos], ascending)
            invariant
                pos <= out_keys@.len(),
                forall|j: int| 0 <= j < pos ==> !key_before(ki as int, #[trigger] out_keys@[j] as int, ascending),
            decreases out_keys@.len() - pos,
        {
            pos = pos + 1;
        }
        let ghost old_p = p;
        let ghost old_keys = out_keys@;
        let x = clone_value(&items[i]);
        out.insert(pos, x);
        out_keys.insert(pos, ki);
        proof {
            p = p.insert(pos as int, i as int);
            assert forall|j: int, k: int| 0 <= j < k < p.len() implies key_before(
                key_of(items@[#[trigger] p[j]]),
                key_of(items@[#[trigger] p[k]]),
                ascending,
            ) || (key_of(items@[p[j]]) == key_of(items@[p[k]]) && p[j] < p[k]) by {
                if j < pos && k == pos {
                    assert(!key_before(ki as int, old_keys[j] as int, ascending));
                } else if j == pos && k > pos {
                    assert(pos < old_keys.len());
                    assert(key_before(ki as int, old_keys[pos as int] as int, ascending));
                    if k - 1 > pos {
                        assert(key_before(
                            key_of(items@[old_p[pos as int]]),
                            key_of(items@[old_p[k - 1]]),
                            ascending,
                        ) || key_of(items@[old_p[pos as int]]) == key_of(items@[old_p[k - 1]]));
                    }
                } else if j < pos && k < pos {
                    assert(p[j] == old_p[j] && p[k] == old_p[k]);
                } else if j < pos && k > pos {
                    assert(p[j] == old_p[j] && p[k] == old_p[k - 1]);
                } else {
                    assert(p[j] == old_p[j - 1] && p[k] == old_p[k - 1]);
                }
            }
        }
        i = i + 1;
    }
    proof {
        assert(is_permutation(p, n as int));
    }
    out
}

} // verus!
