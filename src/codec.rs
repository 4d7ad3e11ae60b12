use vstd::prelude::*;

use vstd::arithmetic::div_mod::lemma_fundamental_div_mod_converse;

use vstd::utf8::{decode_utf8, encode_utf8, valid_utf8};

use crate::reducers::{finite_bits, is_finite};
use crate::types::{same_value, RadonTypes};

verus! {

/// `256` to the power `k`.
pub open spec fn pow256(k: nat) -> nat
    decreases k,
{
    if k == 0 {
        1
    } else {
        256 * pow256((k - 1) as nat)
    }
}

/// The last `k` bytes of `n` in big-endian order.
pub open spec fn be_bytes(n: nat, k: nat) -> Seq<u8>
    decreases k,
{
    if k == 0 {
        Seq::empty()
    } else {
        be_bytes(n / 256, (k - 1) as nat).push((n % 256) as u8)
    }
}

/// The number that big-endian bytes stand for.
pub open spec fn be_value(s: Seq<u8>) -> nat
    decreases s.len(),
{
    if s.len() == 0 {
        0
    } else {
        be_value(s.drop_last()) * 256 + s.last() as nat
    }
}

/// The shortest CBOR head of major type `major` for the number `n`.
pub open spec fn head(major: u8, n: nat) -> Seq<u8> {
    let m = major as nat * 32;
    if n < 24 {
        seq![(m + n) as u8]
    } else if n < 0x100 {
        seq![(m + 24) as u8] + be_bytes(n, 1)
    } else if n < 0x1_0000 {
        seq![(m + 25) as u8] + be_bytes(n, 2)
    } else if n < 0x1_0000_0000 {
        seq![(m + 26) as u8] + be_bytes(n, 4)
    } else {
        seq![(m + 27) as u8] + be_bytes(n, 8)
    }
}

/// The values that have a CBOR encoding here: booleans, integers in `[-2^64, 2^64)`,
/// finite doubles, byte strings, text strings, and arrays of such values.
pub open spec fn encodable(v: RadonTypes) -> bool
    decreases v,
{
    match v {
        RadonTypes::Boolean(_) => true,
        RadonTypes::Integer(i) => -0x1_0000_0000_0000_0000 <= i < 0x1_0000_0000_0000_0000,
        RadonTypes::Float(f) => is_finite(f),
        RadonTypes::Bytes(b) => b@.len() < 0x1_0000_0000_0000_0000,
        RadonTypes::String(t) => encode_utf8(t@).len() < 0x1_0000_0000_0000_0000,
        RadonTypes::Array(xs) => xs@.len() < 0x1_0000_0000_0000_0000 && forall|i: int|
            0 <= i < xs@.len() ==> encodable(#[trigger] xs@[i]),
        _ => false,
    }
}

/// The deterministic CBOR encoding of a value: booleans as simple values, integers in the
/// shortest major-0 or major-1 form, doubles always in eight bytes, byte strings as major 2
/// text as its UTF-8 bytes under major 3, and arrays as major 4 followed by their elements.
pub open spec fn encoding(v: RadonTypes) -> Seq<u8>
    decreases v, 0nat,
{
    match v {
        RadonTypes::Boolean(b) => seq![if b {
            0xF5u8
        } else {
            0xF4u8
        }],
        RadonTypes::Integer(i) => if i >= 0 {
            head(0, i as nat)
        } else {
            head(1, (-1 - i) as nat)
        },
        RadonTypes::Float(f) => seq![0xFBu8] + be_bytes(f as nat, 8),
        RadonTypes::Bytes(b) => head(2, b@.len()) + b@,
        RadonTypes::String(t) => head(3, encode_utf8(t@).len()) + encode_utf8(t@),
        RadonTypes::Array(xs) => head(4, xs@.len()) + items_from(xs, 0),
        _ => Seq::empty(),
    }
}

/// The encodings of the elements from index `i` on, one after the other.
pub open spec fn items_from(xs: Vec<RadonTypes>, i: nat) -> Seq<u8>
    decreases xs, xs@.len() - i,
{
    if i >= xs@.len() {
        Seq::empty()
    } else {
        encoding(xs@[i as int]) + items_from(xs, i + 1)
    }
}

/// `r` is what decoding `bytes` may give: a value whose encoding is exactly `bytes`, and
/// one whenever such a value exists.
pub open spec fn decode_outcome(bytes: Seq<u8>, r: Option<RadonTypes>) -> bool {
    &&& r matches Some(x) ==> encodable(x) && encoding(x) == bytes
    &&& (exists|x: RadonTypes| encodable(x) && #[trigger] encoding(x) == bytes) ==> r is Some
}

proof fn lemma_pow256(k: nat)
    ensures
        pow256(k) > 0,
        k == 1 ==> pow256(k) == 0x100,
        k == 2 ==> pow256(k) == 0x1_0000,
        k == 4 ==> pow256(k) == 0x1_0000_0000,
        k == 8 ==> pow256(k) == 0x1_0000_0000_0000_0000,
    decreases k,
{
    reveal_with_fuel(pow256, 9);
    if k > 0 {
        lemma_pow256((k - 1) as nat);
    }
}

proof fn lemma_be_bytes_len(n: nat, k: nat)
    ensures
        be_bytes(n, k).len() == k,
    decreases k,
{
    if k > 0 {
        lemma_be_bytes_len(n / 256, (k - 1) as nat);
    }
}

proof fn lemma_be_value_bound(s: Seq<u8>)
    ensures
        be_value(s) < pow256(s.len()),
    decreases s.len(),
{
    if s.len() > 0 {
        lemma_be_value_bound(s.drop_last());
        let a = be_value(s.drop_last());
        let p = pow256((s.len() - 1) as nat);
        assert(a * 256 + s.last() < p * 256) by (nonlinear_arith)
            requires
                a < p,
                s.last() < 256,
        ;
    }
}

/// Reading the bytes back gives the number they were written from.
proof fn lemma_be_round_trip(n: nat, k: nat)
    requires
        n < pow256(k),
    ensures
        be_value(be_bytes(n, k)) == n,
    decreases k,
{
    if k > 0 {
        let q = n / 256;
        let d = n % 256;
        assert(n == q * 256 + d);
        assert(q < pow256((k - 1) as nat)) by (nonlinear_arith)
            requires
                n < 256 * pow256((k - 1) as nat),
                q == n / 256,
        ;
        lemma_be_round_trip(q, (k - 1) as nat);
        let s = be_bytes(n, k);
        assert(s.drop_last() =~= be_bytes(q, (k - 1) as nat));
    }
}

/// Writing the number that bytes stand for gives those bytes.
proof fn lemma_be_canonical(s: Seq<u8>)
    ensures
        be_bytes(be_value(s), s.len()) == s,
    decreases s.len(),
{
    if s.len() > 0 {
        let a = be_value(s.drop_last());
        let d = s.last() as nat;
        lemma_fundamental_div_mod_converse(
            (a * 256 + d) as int,
            256,
            a as int,
            d as int,
        );
        lemma_be_canonical(s.drop_last());
        assert(s =~= s.drop_last().push(s.last()));
    }
}

/// Appends the last `k` bytes of `n`, most significant first.
fn push_be(out: &mut Vec<u8>, n: u64, k: u32)
    ensures
        final(out)@ == old(out)@ + be_bytes(n as nat, k as nat),
    decreases k,
{
    if k > 0 {
        push_be(out, n / 256, k - 1);
        out.push((n % 256) as u8);
        proof {
            assert(final(out)@ =~= old(out)@ + be_bytes(n as nat, k as nat));
        }
    }
}

/// Appends the shortest head of major type `major` for `n`.
fn push_head(out: &mut Vec<u8>, major: u8, n: u64)
    requires
        major < 8,
    ensures
        final(out)@ == old(out)@ + head(major, n as nat),
{
    let m: u8 = major * 32;
    if n < 24 {
        out.push(m + n as u8);
    } else if n < 0x100 {
        out.push(m + 24);
        push_be(out, n, 1);
    } else if n < 0x1_0000 {
        out.push(m + 25);
        push_be(out, n, 2);
    } else if n < 0x1_0000_0000 {
        out.push(m + 26);
        push_be(out, n, 4);
    } else {
        out.push(m + 27);
        push_be(out, n, 8);
    }
    assert(final(out)@ =~= old(out)@ + head(major, n as nat));
}

/// Appends the encoding of a value, where it has one here; returns whether it has.
fn encode_into(v: &RadonTypes, out: &mut Vec<u8>) -> (ok: bool)
    ensures
        ok == encodable(*v),
        ok ==> final(out)@ == old(out)@ + encoding(*v),
    decreases v,
{
    let ghost base = out@;
    match v {
        RadonTypes::Boolean(b) => {
            out.push(if *b { 0xF5 } else { 0xF4 });
            assert(out@ =~= base + encoding(*v));
            true
        },
        RadonTypes::Integer(i) => {
            let i = *i;
            if i >= 0 {
                if i >= 0x1_0000_0000_0000_0000 {
                    return false;
                }
                push_head(out, 0, i as u64);
            } else {
                if i < -0x1_0000_0000_0000_0000 {
                    return false;
                }
                push_head(out, 1, (-1 - i) as u64);
            }
            true
        },
        RadonTypes::Float(f) => {
            if !finite_bits(*f) {
                return false;
            }
            out.push(0xFB);
            push_be(out, *f, 8);
            assert(out@ =~= base + encoding(*v));
            true
        },
        RadonTypes::Bytes(b) => {
            push_head(out, 2, b.len() as u64);
            push_all(out, b.as_slice());
            assert(out@ =~= base + encoding(*v));
            true
        },
        RadonTypes::String(t) => {
            let b = t.as_str().as_bytes();
            push_head(out, 3, b.len() as u64);
            push_all(out, b);
            assert(out@ =~= base + encoding(*v));
            true
        },
        RadonTypes::Array(xs) => {
            push_head(out, 4, xs.len() as u64);
            let ok = encode_items(xs, out);
            assert(ok ==> out@ =~= base + encoding(*v));
            ok
        },
        _ => false,
    }
}

/// Appends bytes.
fn push_all(out: &mut Vec<u8>, b: &[u8])
    ensures
        final(out)@ == old(out)@ + b@,
{
    let ghost base = out@;
    let mut i: usize = 0;
    while i < b.len()
        invariant
            i <= b@.len(),
            out@ == base + b@.take(i as int),
        decreases b@.len() - i,
    {
        out.push(b[i]);
        i = i + 1;
        assert(out@ =~= base + b@.take(i as int));
    }
    assert(b@.take(b@.len() as int) =~= b@);
}

/// Appends the encodings of the elements, where they all have one; returns whether they have.
fn encode_items(xs: &Vec<RadonTypes>, out: &mut Vec<u8>) -> (ok: bool)
    ensures
        ok == (forall|i: int| 0 <= i < xs@.len() ==> encodable(#[trigger] xs@[i])),
        ok ==> final(out)@ == old(out)@ + items_from(*xs, 0),
    decreases xs, 0nat,
{
    let ghost base = out@;
    let mut i: usize = 0;
    while i < xs.len()
        invariant
            i <= xs@.len(),
            forall|j: int| 0 <= j < i ==> encodable(#[trigger] xs@[j]),
            out@ + items_from(*xs, i as nat) == base + items_from(*xs, 0),
        decreases xs@.len() - i,
    {
        let ghost before = out@;
        if !encode_into(&xs[i], out) {
            return false;
        }
        proof {
            assert(items_from(*xs, i as nat) == encoding(xs@[i as int]) + items_from(
                *xs,
                (i + 1) as nat,
            ));
            assert(out@ + items_from(*xs, (i + 1) as nat) =~= before + items_from(*xs, i as nat));
        }
        i = i + 1;
    }
    assert(out@ + items_from(*xs, i as nat) =~= out@);
    true
}

/// The CBOR encoding of a value; `None` for values that have none here.
pub fn encode(v: &RadonTypes) -> (r: Option<Vec<u8>>)
    ensures
        r is Some <==> encodable(*v),
        r matches Some(bytes) ==> bytes@ == encoding(*v),
{
    let mut out: Vec<u8> = Vec::new();
    if encode_into(v, &mut out) {
        assert(out@ =~= encoding(*v));
        Some(out)
    } else {
        None
    }
}

/// Relies on `String::from_utf8`: it accepts exactly the valid UTF-8 byte strings, and
/// returns the text they encode.
#[verifier::external_body]
pub(crate) fn utf8_text(bytes: Vec<u8>) -> (r: Option<String>)
    ensures
        r is Some <==> valid_utf8(bytes@),
        r matches Some(t) ==> t@ == decode_utf8(bytes@),
{
    String::from_utf8(bytes).ok()
}

proof fn lemma_pow256_small(k: nat)
    requires
        k <= 7,
    ensures
        pow256(k) <= 0x100_0000_0000_0000,
{
    reveal_with_fuel(pow256, 8);
}

/// The number that `k` bytes from `start` stand for, big-endian.
fn read_be(b: &Vec<u8>, start: usize, k: usize) -> (r: u64)
    requires
        start + k <= b@.len(),
        k <= 8,
    ensures
        r as nat == be_value(b@.subrange(start as int, start + k)),
    decreases k,
{
    if k == 0 {
        0
    } else {
        let a = read_be(b, start, k - 1);
        let len = b.len();
        assert(start + k <= len);
        let last = b[start + (k - 1)] as u64;
        let ghost s = b@.subrange(start as int, start + k);
        proof {
            assert(s.drop_last() =~= b@.subrange(start as int, start + k - 1));
            lemma_be_value_bound(s.drop_last());
            lemma_pow256_small((k - 1) as nat);
            assert(s.last() == b@[start + k - 1]);
        }
        assert(a * 256 + last <= u64::MAX) by (nonlinear_arith)
            requires
                a < 0x100_0000_0000_0000,
                last < 256,
        ;
        a * 256 + last
    }
}

/// The number of bytes after the first that a head with this additional information holds.
pub open spec fn head_extra(info: nat) -> nat {
    if info < 24 {
        0
    } else if info == 24 {
        1
    } else if info == 25 {
        2
    } else if info == 26 {
        4
    } else {
        8
    }
}

proof fn lemma_head_shape(m: u8, n: nat)
    requires
        m < 8,
        n < 0x1_0000_0000_0000_0000,
    ensures
        head(m, n).len() == 1 + head_extra((head(m, n)[0] % 32) as nat),
        head(m, n)[0] / 32 == m,
        head(m, n)[0] % 32 <= 27,
        head(m, n)[0] % 32 < 24 ==> n == head(m, n)[0] % 32,
        head(m, n)[0] % 32 >= 24 ==> be_value(head(m, n).subrange(1, head(m, n).len() as int)) == n,
        head(m, n)[0] % 32 == 24 ==> 24 <= n < 0x100,
        head(m, n)[0] % 32 == 25 ==> 0x100 <= n < 0x1_0000,
        head(m, n)[0] % 32 == 26 ==> 0x1_0000 <= n < 0x1_0000_0000,
        head(m, n)[0] % 32 == 27 ==> 0x1_0000_0000 <= n,
{
    let h = head(m, n);
    let k: nat = if n < 24 {
        0
    } else if n < 0x100 {
        1
    } else if n < 0x1_0000 {
        2
    } else if n < 0x1_0000_0000 {
        4
    } else {
        8
    };
    lemma_be_bytes_len(n, k);
    lemma_pow256(k);
    if k > 0 {
        assert(h.subrange(1, h.len() as int) =~= be_bytes(n, k));
        lemma_be_round_trip(n, k);
    }
}

/// Two heads followed by anything are equal only when their majors, numbers and tails are.
proof fn lemma_head_injective(m1: u8, n1: nat, r1: Seq<u8>, m2: u8, n2: nat, r2: Seq<u8>)
    requires
        m1 < 8,
        m2 < 8,
        n1 < 0x1_0000_0000_0000_0000,
        n2 < 0x1_0000_0000_0000_0000,
        head(m1, n1) + r1 == head(m2, n2) + r2,
    ensures
        m1 == m2,
        n1 == n2,
        r1 == r2,
{
    lemma_head_shape(m1, n1);
    lemma_head_shape(m2, n2);
    let h1 = head(m1, n1);
    let h2 = head(m2, n2);
    let all = h1 + r1;
    assert(all[0] == h1[0]);
    assert(all[0] == h2[0]);
    assert(h1.len() == h2.len());
    assert(h1 =~= all.subrange(0, h1.len() as int));
    assert(h2 =~= all.subrange(0, h2.len() as int));
    assert(r1 =~= all.subrange(h1.len() as int, all.len() as int));
    assert(r2 =~= all.subrange(h2.len() as int, all.len() as int));
}

/// The major type, number and length of the shortest-form head at `pos` in `b`.
fn decode_head(b: &Vec<u8>, pos: usize) -> (r: Option<(u8, u64, usize)>)
    requires
        pos <= b@.len(),
    ensures
        r matches Some((m, n, h)) ==> m < 8 && pos + h <= b@.len() && b@.subrange(
            pos as int,
            pos + h,
        ) == head(m, n as nat),
        forall|m: u8, n: nat|
            m < 8 && n < 0x1_0000_0000_0000_0000 && pos + head(m, n).len() <= b@.len()
                && b@.subrange(pos as int, pos + head(m, n).len()) == #[trigger] head(m, n) ==> r
                == Some((m, n as u64, head(m, n).len() as usize)),
{
    let len = b.len();
    if pos >= len {
        return None;
    }
    let f = b[pos];
    let major = f / 32;
    let info = f % 32;
    let extra: usize = if info < 24 {
        0
    } else if info == 24 {
        1
    } else if info == 25 {
        2
    } else if info == 26 {
        4
    } else if info == 27 {
        8
    } else {
        proof {
            assert forall|m: u8, n: nat|
                m < 8 && n < 0x1_0000_0000_0000_0000 && pos + head(m, n).len() <= b@.len()
                    && b@.subrange(pos as int, pos + head(m, n).len()) == #[trigger] head(
                    m,
                    n,
                ) implies false by {
                lemma_head_shape(m, n);
                assert(b@[pos as int] == head(m, n)[0]);
            }
        }
        return None;
    };
    if len - pos < 1 + extra {
        proof {
            assert forall|m: u8, n: nat|
                m < 8 && n < 0x1_0000_0000_0000_0000 && pos + head(m, n).len() <= b@.len()
                    && b@.subrange(pos as int, pos + head(m, n).len()) == #[trigger] head(
                    m,
                    n,
                ) implies false by {
                lemma_head_shape(m, n);
                assert(b@[pos as int] == head(m, n)[0]);
            }
        }
        return None;
    }
    let n: u64 = if extra == 0 {
        info as u64
    } else {
        read_be(b, pos + 1, extra)
    };
    let canonical = if extra == 0 {
        true
    } else if extra == 1 {
        n >= 24
    } else if extra == 2 {
        n >= 0x100
    } else if extra == 4 {
        n >= 0x1_0000
    } else {
        n >= 0x1_0000_0000
    };
    proof {
        if extra > 0 {
            lemma_be_value_bound(b@.subrange(pos + 1, pos + 1 + extra));
            lemma_pow256(extra as nat);
        }
        assert forall|m: u8, nn: nat|
            m < 8 && nn < 0x1_0000_0000_0000_0000 && pos + head(m, nn).len() <= b@.len()
                && b@.subrange(pos as int, pos + head(m, nn).len()) == #[trigger] head(
                m,
                nn,
            ) implies canonical && m == major && nn == n && head(m, nn).len() == 1 + extra by {
            lemma_head_shape(m, nn);
            let h = head(m, nn);
            assert(b@[pos as int] == h[0]);
            if extra > 0 {
                assert(h.subrange(1, h.len() as int) =~= b@.subrange(pos + 1, pos + 1 + extra));
            }
        }
    }
    if !canonical {
        return None;
    }
    proof {
        let h = head(major, n as nat);
        lemma_head_shape(major, n as nat);
        lemma_pow256(extra as nat);
        if extra > 0 {
            lemma_be_value_bound(b@.subrange(pos + 1, pos + 1 + extra));
            lemma_be_canonical(b@.subrange(pos + 1, pos + 1 + extra));
            lemma_be_bytes_len(n as nat, extra as nat);
        }
        assert(h[0] == b@[pos as int]);
        assert(b@.subrange(pos as int, pos + 1 + extra) =~= h);
    }
    Some((major, n, 1 + extra))
}

/// The major type of the head that starts the encoding of an integer, a string or an array.
pub open spec fn head_major(x: RadonTypes) -> u8 {
    match x {
        RadonTypes::Integer(i) => if i >= 0 {
            0u8
        } else {
            1u8
        },
        RadonTypes::Bytes(_) => 2u8,
        RadonTypes::String(_) => 3u8,
        _ => 4u8,
    }
}

/// The number in the head that starts the encoding of an integer, a string or an array.
pub open spec fn head_arg(x: RadonTypes) -> nat {
    match x {
        RadonTypes::Integer(i) => if i >= 0 {
            i as nat
        } else {
            (-1 - i) as nat
        },
        RadonTypes::Bytes(b) => b@.len(),
        RadonTypes::String(t) => encode_utf8(t@).len(),
        RadonTypes::Array(xs) => xs@.len(),
        _ => 0,
    }
}

/// What follows the head in the encoding of an integer, a string or an array.
pub open spec fn body_of(x: RadonTypes) -> Seq<u8> {
    match x {
        RadonTypes::Bytes(b) => b@,
        RadonTypes::String(t) => encode_utf8(t@),
        RadonTypes::Array(xs) => items_from(xs, 0),
        _ => Seq::empty(),
    }
}

/// The encoding of `x` stands in `b` from `pos` on.
pub open spec fn encoded_at(b: Seq<u8>, pos: int, x: RadonTypes) -> bool {
    &&& pos + encoding(x).len() <= b.len()
    &&& b.subrange(pos, pos + encoding(x).len()) == encoding(x)
}

/// What the first byte and the length of an encoding tell about the value.
proof fn lemma_encoding_shape(x: RadonTypes)
    requires
        encodable(x),
    ensures
        encoding(x).len() >= 1,
        x is Boolean <==> (encoding(x)[0] == 0xF4 || encoding(x)[0] == 0xF5),
        x is Boolean ==> encoding(x).len() == 1,
        x is Float <==> encoding(x)[0] == 0xFB,
        x is Float ==> encoding(x).len() == 9,
        !(x is Boolean || x is Float) ==> {
            &&& x is Integer || x is Bytes || x is String || x is Array
            &&& head_arg(x) < 0x1_0000_0000_0000_0000
            &&& encoding(x) == head(head_major(x), head_arg(x)) + body_of(x)
            &&& encoding(x)[0] / 32 == head_major(x)
        },
{
    match x {
        RadonTypes::Integer(i) => {
            lemma_head_shape(head_major(x), head_arg(x));
            assert(encoding(x) =~= head(head_major(x), head_arg(x)) + body_of(x));
        },
        RadonTypes::Float(f) => {
            lemma_be_bytes_len(f as nat, 8);
        },
        RadonTypes::Bytes(_) | RadonTypes::String(_) | RadonTypes::Array(_) => {
            lemma_head_shape(head_major(x), head_arg(x));
            assert(encoding(x)[0] == head(head_major(x), head_arg(x))[0]);
        },
        _ => {},
    }
}

/// An encoding followed by anything determines the value and what follows: no encoding is
/// the beginning of another.
pub proof fn lemma_prefix_injective(a: RadonTypes, b: RadonTypes, r1: Seq<u8>, r2: Seq<u8>)
    requires
        encodable(a),
        encodable(b),
        encoding(a) + r1 == encoding(b) + r2,
    ensures
        same_value(a, b),
        r1 == r2,
    decreases a, 0nat,
{
    lemma_encoding_shape(a);
    lemma_encoding_shape(b);
    let all = encoding(a) + r1;
    assert(all[0] == encoding(a)[0]);
    assert(all[0] == encoding(b)[0]);
    if a is Boolean || a is Float {
        let k = encoding(a).len() as int;
        assert(encoding(a) =~= all.subrange(0, k));
        assert(encoding(b) =~= all.subrange(0, k));
        assert(r1 =~= all.subrange(k, all.len() as int));
        assert(r2 =~= all.subrange(k, all.len() as int));
        if let (RadonTypes::Float(f), RadonTypes::Float(g)) = (a, b) {
            lemma_be_bytes_len(f as nat, 8);
            lemma_be_bytes_len(g as nat, 8);
            lemma_pow256(8);
            assert(be_bytes(f as nat, 8) =~= encoding(a).subrange(1, 9));
            assert(be_bytes(g as nat, 8) =~= encoding(b).subrange(1, 9));
            lemma_be_round_trip(f as nat, 8);
            lemma_be_round_trip(g as nat, 8);
        }
    } else {
        let ba = body_of(a);
        let bb = body_of(b);
        assert(all =~= head(head_major(a), head_arg(a)) + (ba + r1));
        assert(encoding(b) + r2 =~= head(head_major(b), head_arg(b)) + (bb + r2));
        lemma_head_injective(head_major(a), head_arg(a), ba + r1, head_major(b), head_arg(b), bb + r2);
        match (a, b) {
            (RadonTypes::Array(xs), RadonTypes::Array(ys)) => {
                lemma_items_prefix(xs, ys, 0, r1, r2);
            },
            _ => {
                if !(a is Integer) {
                    assert(ba.len() == bb.len());
                    assert(ba =~= (ba + r1).subrange(0, ba.len() as int));
                    assert(bb =~= (bb + r2).subrange(0, ba.len() as int));
                    assert(r1 =~= (ba + r1).subrange(ba.len() as int, (ba + r1).len() as int));
                    assert(r2 =~= (bb + r2).subrange(ba.len() as int, (bb + r2).len() as int));
                }
                if let (RadonTypes::String(x), RadonTypes::String(y)) = (a, b) {
                    vstd::utf8::encode_utf8_decode_utf8(x@);
                    vstd::utf8::encode_utf8_decode_utf8(y@);
                }
                if let (RadonTypes::Integer(i), RadonTypes::Integer(j)) = (a, b) {
                    assert(r1 =~= ba + r1);
                    assert(r2 =~= bb + r2);
                }
            },
        }
    }
}

proof fn lemma_items_prefix(xs: Vec<RadonTypes>, ys: Vec<RadonTypes>, i: nat, r1: Seq<u8>, r2: Seq<u8>)
    requires
        xs@.len() == ys@.len(),
        i <= xs@.len(),
        forall|j: int| 0 <= j < xs@.len() ==> encodable(#[trigger] xs@[j]),
        forall|j: int| 0 <= j < ys@.len() ==> encodable(#[trigger] ys@[j]),
        items_from(xs, i) + r1 == items_from(ys, i) + r2,
    ensures
        forall|j: int| i <= j < xs@.len() ==> same_value(#[trigger] xs@[j], ys@[j]),
        r1 == r2,
    decreases xs, xs@.len() - i,
{
    if i < xs@.len() {
        let x = xs@[i as int];
        let y = ys@[i as int];
        assert(items_from(xs, i) + r1 =~= encoding(x) + (items_from(xs, i + 1) + r1));
        assert(items_from(ys, i) + r2 =~= encoding(y) + (items_from(ys, i + 1) + r2));
        lemma_prefix_injective(x, y, items_from(xs, i + 1) + r1, items_from(ys, i + 1) + r2);
        lemma_items_prefix(xs, ys, i + 1, r1, r2);
    } else {
        assert(r1 =~= items_from(xs, i) + r1);
        assert(r2 =~= items_from(ys, i) + r2);
    }
}

/// Values with the same encoding are the same value.
pub proof fn lemma_encoding_injective(a: RadonTypes, b: RadonTypes)
    requires
        encodable(a),
        encodable(b),
        encoding(a) == encoding(b),
    ensures
        same_value(a, b),
{
    let e: Seq<u8> = Seq::empty();
    assert(encoding(a) + e =~= encoding(b) + e);
    lemma_prefix_injective(a, b, e, e);
}

proof fn lemma_head_at(b: Seq<u8>, pos: int, x: RadonTypes)
    requires
        encodable(x),
        !(x is Boolean || x is Float),
        0 <= pos,
        encoded_at(b, pos, x),
    ensures
        pos + head(head_major(x), head_arg(x)).len() <= b.len(),
        b.subrange(pos, pos + head(head_major(x), head_arg(x)).len()) == head(
            head_major(x),
            head_arg(x),
        ),
        b.subrange(
            pos + head(head_major(x), head_arg(x)).len(),
            pos + encoding(x).len(),
        ) == body_of(x),
{
    lemma_encoding_shape(x);
    let h = head(head_major(x), head_arg(x));
    let e = encoding(x);
    assert(h =~= e.subrange(0, h.len() as int));
    assert(body_of(x) =~= e.subrange(h.len() as int, e.len() as int));
    assert(b.subrange(pos, pos + h.len()) =~= e.subrange(0, h.len() as int));
    assert(b.subrange(pos + h.len(), pos + e.len()) =~= e.subrange(h.len() as int, e.len() as int));
}

/// The value whose encoding stands at `pos` in `b`, and where that encoding ends.
#[verifier::rlimit(100)]
fn decode_at(b: &Vec<u8>, pos: usize) -> (r: Option<(RadonTypes, usize)>)
    requires
        pos <= b@.len(),
    ensures
        r matches Some((x, end)) ==> pos < end <= b@.len() && encodable(x) && b@.subrange(
            pos as int,
            end as int,
        ) == encoding(x),
        forall|x: RadonTypes|
            encodable(x) && #[trigger] encoded_at(b@, pos as int, x) ==> r is Some && r->Some_0.1
                == pos + encoding(x).len(),
    decreases (b@.len() - pos) * 2 + 1,
{
    let len = b.len();
    if pos >= len {
        proof {
            assert forall|x: RadonTypes| encodable(x) implies !#[trigger] encoded_at(
                b@,
                pos as int,
                x,
            ) by {
                lemma_encoding_shape(x);
            }
        }
        return None;
    }
    let f = b[pos];
    if f == 0xF4 || f == 0xF5 {
        let v = RadonTypes::Boolean(f == 0xF5);
        proof {
            assert(b@.subrange(pos as int, pos + 1) =~= encoding(v));
            assert forall|x: RadonTypes|
                encodable(x) && #[trigger] encoded_at(b@, pos as int, x) implies encoding(x).len()
                == 1 by {
                lemma_encoding_shape(x);
                assert(b@[pos as int] == encoding(x)[0]);
            }
        }
        return Some((v, pos + 1));
    }
    if f == 0xFB {
        if len - pos < 9 {
            proof {
                assert forall|x: RadonTypes| encodable(x) implies !#[trigger] encoded_at(
                    b@,
                    pos as int,
                    x,
                ) by {
                    lemma_encoding_shape(x);
                    if encoded_at(b@, pos as int, x) {
                        assert(b@[pos as int] == encoding(x)[0]);
                    }
                }
            }
            return None;
        }
        let bits = read_be(b, pos + 1, 8);
        if !finite_bits(bits) {
            proof {
                let p = b@.subrange(pos + 1, pos + 9);
                lemma_be_canonical(p);
                assert forall|x: RadonTypes| encodable(x) implies !#[trigger] encoded_at(
                    b@,
                    pos as int,
                    x,
                ) by {
                    lemma_encoding_shape(x);
                    if encoded_at(b@, pos as int, x) {
                        assert(b@[pos as int] == encoding(x)[0]);
                        let fx = x->Float_0;
                        lemma_be_bytes_len(fx as nat, 8);
                        lemma_pow256(8);
                        assert(b@.subrange(pos as int, pos + 9) == encoding(x));
                        assert(p =~= encoding(x).subrange(1, 9));
                        assert(be_bytes(fx as nat, 8) =~= encoding(x).subrange(1, 9));
                        lemma_be_round_trip(fx as nat, 8);
                    }
                }
            }
            return None;
        }
        proof {
            let p = b@.subrange(pos + 1, pos + 9);
            lemma_be_canonical(p);
            assert(b@.subrange(pos as int, pos + 9) =~= seq![0xFBu8] + p);
            assert forall|x: RadonTypes|
                encodable(x) && #[trigger] encoded_at(b@, pos as int, x) implies encoding(x).len()
                == 9 by {
                lemma_encoding_shape(x);
                assert(b@[pos as int] == encoding(x)[0]);
            }
        }
        return Some((RadonTypes::Float(bits), pos + 9));
    }
    let hd = decode_head(b, pos);
    proof {
        assert forall|x: RadonTypes| encodable(x) && #[trigger] encoded_at(b@, pos as int, x) implies {
            &&& !(x is Boolean || x is Float)
            &&& hd == Some(
                (
                    head_major(x),
                    head_arg(x) as u64,
                    head(head_major(x), head_arg(x)).len() as usize,
                ),
            )
        } by {
            lemma_encoding_shape(x);
            assert(b@[pos as int] == encoding(x)[0]);
            if !(x is Boolean || x is Float) {
                lemma_head_at(b@, pos as int, x);
                assert(head_major(x) < 8);
            }
        }
    }
    let (major, n, h) = match hd {
        Some(t) => t,
        None => {
            return None;
        },
    };
    if major == 0 {
        let v = RadonTypes::Integer(n as i128);
        proof {
            assert(encoding(v) =~= head(0, n as nat));
        }
        return Some((v, pos + h));
    }
    if major == 1 {
        let v = RadonTypes::Integer(-1 - n as i128);
        proof {
            assert(encoding(v) =~= head(1, n as nat));
        }
        return Some((v, pos + h));
    }
    if major == 2 || major == 3 {
        if ((len - pos - h) as u64) < n {
            proof {
                assert forall|x: RadonTypes| encodable(x) implies !#[trigger] encoded_at(
                    b@,
                    pos as int,
                    x,
                ) by {
                    if encoded_at(b@, pos as int, x) {
                        lemma_encoding_shape(x);
                        lemma_head_at(b@, pos as int, x);
                    }
                }
            }
            return None;
        }
        let end = pos + h + n as usize;
        let mut rest: Vec<u8> = Vec::new();
        let mut i: usize = pos + h;
        while i < end
            invariant
                pos + h <= i <= end,
                end <= len,
                len == b@.len(),
                rest@ == b@.subrange(pos + h, i as int),
            decreases end - i,
        {
            rest.push(b[i]);
            i = i + 1;
            assert(rest@ =~= b@.subrange(pos + h, i as int));
        }
        proof {
            assert(b@.subrange(pos as int, end as int) =~= b@.subrange(pos as int, pos + h)
                + b@.subrange(pos + h, end as int));
        }
        if major == 2 {
            return Some((RadonTypes::Bytes(rest), end));
        }
        let ghost payload = rest@;
        match utf8_text(rest) {
            Some(t) => {
                proof {
                    vstd::utf8::decode_utf8_encode_utf8(payload);
                }
                return Some((RadonTypes::String(t), end));
            },
            None => {
                proof {
                    assert forall|x: RadonTypes| encodable(x) implies !#[trigger] encoded_at(
                        b@,
                        pos as int,
                        x,
                    ) by {
                        if encoded_at(b@, pos as int, x) {
                            lemma_encoding_shape(x);
                            lemma_head_at(b@, pos as int, x);
                            vstd::utf8::encode_utf8_valid_utf8(x->String_0@);
                        }
                    }
                }
                return None;
            },
        }
    }
    if major == 4 {
        match decode_items(b, pos + h, n) {
            Some((xs, end)) => {
                let ghost v = RadonTypes::Array(xs);
                proof {
                    assert(encoding(v) =~= head(4, n as nat) + items_from(xs, 0));
                    assert(b@.subrange(pos as int, end as int) =~= b@.subrange(pos as int, pos + h)
                        + b@.subrange(pos + h, end as int));
                    assert forall|x: RadonTypes|
                        encodable(x) && #[trigger] encoded_at(b@, pos as int, x) implies end == pos
                        + encoding(x).len() by {
                        lemma_encoding_shape(x);
                        lemma_head_at(b@, pos as int, x);
                        assert(items_arrive_at(b@, (pos + h) as int, x->Array_0));
                    }
                }
                return Some((RadonTypes::Array(xs), end));
            },
            None => {
                proof {
                    assert forall|x: RadonTypes| encodable(x) implies !#[trigger] encoded_at(
                        b@,
                        pos as int,
                        x,
                    ) by {
                        if encoded_at(b@, pos as int, x) {
                            lemma_encoding_shape(x);
                            lemma_head_at(b@, pos as int, x);
                            let ys = x->Array_0;
                            assert(items_arrive_at(b@, (pos + h) as int, ys));
                        }
                    }
                }
                return None;
            },
        }
    }
    None
}

/// The encodings of the elements of `ys` stand in `b` from `start` on.
pub open spec fn items_arrive_at(b: Seq<u8>, start: int, ys: Vec<RadonTypes>) -> bool {
    &&& forall|j: int| 0 <= j < ys@.len() ==> encodable(#[trigger] ys@[j])
    &&& start + items_from(ys, 0).len() <= b.len()
    &&& b.subrange(start, start + items_from(ys, 0).len()) == items_from(ys, 0)
}

/// The encodings of the elements of `s`, one after the other.
pub open spec fn concat_encodings(s: Seq<RadonTypes>) -> Seq<u8>
    decreases s.len(),
{
    if s.len() == 0 {
        Seq::empty()
    } else {
        concat_encodings(s.drop_last()) + encoding(s.last())
    }
}

proof fn lemma_concat_front(a: RadonTypes, s: Seq<RadonTypes>)
    ensures
        concat_encodings(seq![a] + s) == encoding(a) + concat_encodings(s),
    decreases s.len(),
{
    if s.len() == 0 {
        assert(seq![a] + s =~= seq![a]);
        assert(seq![a].drop_last() =~= Seq::<RadonTypes>::empty());
        assert(concat_encodings(Seq::<RadonTypes>::empty()) == Seq::<u8>::empty());
        assert(concat_encodings(seq![a]) == concat_encodings(seq![a].drop_last()) + encoding(a));
        assert(encoding(a) + Seq::<u8>::empty() =~= encoding(a));
        assert(Seq::<u8>::empty() + encoding(a) =~= encoding(a));
    } else {
        lemma_concat_front(a, s.drop_last());
        assert((seq![a] + s).drop_last() =~= seq![a] + s.drop_last());
        assert((seq![a] + s).last() == s.last());
        assert(encoding(a) + concat_encodings(s.drop_last()) + encoding(s.last()) =~= encoding(a)
            + (concat_encodings(s.drop_last()) + encoding(s.last())));
    }
}

proof fn lemma_items_concat(xs: Vec<RadonTypes>, i: nat)
    requires
        i <= xs@.len(),
    ensures
        items_from(xs, i) == concat_encodings(xs@.subrange(i as int, xs@.len() as int)),
    decreases xs@.len() - i,
{
    let rest = xs@.subrange(i as int, xs@.len() as int);
    if i < xs@.len() {
        lemma_items_concat(xs, i + 1);
        assert(rest =~= seq![xs@[i as int]] + xs@.subrange((i + 1) as int, xs@.len() as int));
        lemma_concat_front(xs@[i as int], xs@.subrange((i + 1) as int, xs@.len() as int));
    } else {
        assert(rest =~= Seq::<RadonTypes>::empty());
    }
}

/// `n` values whose encodings stand one after the other in `b` from `start` on, and where
/// the last of them ends.
fn decode_items(b: &Vec<u8>, start: usize, n: u64) -> (r: Option<(Vec<RadonTypes>, usize)>)
    requires
        start <= b@.len(),
    ensures
        r matches Some((xs, end)) ==> start <= end <= b@.len() && xs@.len() == n && (forall|
            j: int,
        | 0 <= j < xs@.len() ==> encodable(#[trigger] xs@[j])) && b@.subrange(
            start as int,
            end as int,
        ) == items_from(xs, 0),
        forall|ys: Vec<RadonTypes>|
            ys@.len() == n && #[trigger] items_arrive_at(b@, start as int, ys) ==> r is Some
                && r->Some_0.1 == start + items_from(ys, 0).len(),
    decreases (b@.len() - start) * 2 + 2,
{
    let len = b.len();
    let mut out: Vec<RadonTypes> = Vec::new();
    let mut p: usize = start;
    let mut i: u64 = 0;
    assert(b@.subrange(start as int, start as int) =~= concat_encodings(out@));
    while i < n
        invariant
            len == b@.len(),
            start <= p <= len,
            i <= n,
            out@.len() == i,
            forall|j: int| 0 <= j < out@.len() ==> encodable(#[trigger] out@[j]),
            b@.subrange(start as int, p as int) == concat_encodings(out@),
            forall|ys: Vec<RadonTypes>|
                ys@.len() == n && #[trigger] items_arrive_at(b@, start as int, ys) ==> {
                    &&& p + items_from(ys, i as nat).len() == start + items_from(ys, 0).len()
                    &&& b@.subrange(p as int, p + items_from(ys, i as nat).len()) == items_from(
                        ys,
                        i as nat,
                    )
                },
        decreases n - i,
    {
        let step = decode_at(b, p);
        proof {
            assert forall|ys: Vec<RadonTypes>|
                ys@.len() == n && #[trigger] items_arrive_at(b@, start as int, ys) implies {
                &&& step is Some
                &&& step->Some_0.1 == p + encoding(ys@[i as int]).len()
                &&& p + encoding(ys@[i as int]).len() + items_from(ys, (i + 1) as nat).len()
                    == start + items_from(ys, 0).len()
                &&& b@.subrange(
                    p + encoding(ys@[i as int]).len(),
                    p + encoding(ys@[i as int]).len() + items_from(ys, (i + 1) as nat).len(),
                ) == items_from(ys, (i + 1) as nat)
            } by {
                let y = ys@[i as int];
                let e = encoding(y);
                let tail = items_from(ys, (i + 1) as nat);
                let whole = items_from(ys, i as nat);
                assert(whole == e + tail);
                let w = b@.subrange(p as int, p + whole.len());
                assert(e =~= w.subrange(0, e.len() as int));
                assert(b@.subrange(p as int, p + e.len()) =~= w.subrange(0, e.len() as int));
                assert(encodable(y));
                assert(encoded_at(b@, p as int, y));
                assert(tail =~= w.subrange(e.len() as int, whole.len() as int));
                assert(b@.subrange(p + e.len(), p + e.len() + tail.len()) =~= w.subrange(
                    e.len() as int,
                    whole.len() as int,
                ));
            }
        }
        match step {
            Some((x, end)) => {
                proof {
                    assert(b@.subrange(start as int, end as int) =~= b@.subrange(
                        start as int,
                        p as int,
                    ) + b@.subrange(p as int, end as int));
                    assert((out@.push(x)).drop_last() =~= out@);
                }
                out.push(x);
                p = end;
                i = i + 1;
            },
            None => {
                return None;
            },
        }
    }
    proof {
        lemma_items_concat(out, 0);
        assert(out@.subrange(0, out@.len() as int) =~= out@);
        assert forall|ys: Vec<RadonTypes>|
            ys@.len() == n && #[trigger] items_arrive_at(b@, start as int, ys) implies p == start
            + items_from(ys, 0).len() by {
            assert(items_from(ys, n as nat).len() == 0);
        }
    }
    Some((out, p))
}

/// Decodes a value from its CBOR encoding. Only the shortest forms that `encode` writes are
/// read, so a value comes back exactly when the bytes are its encoding.
pub fn decode(bytes: &Vec<u8>) -> (r: Option<RadonTypes>)
    ensures
        decode_outcome(bytes@, r),
{
    let r = decode_at(bytes, 0);
    proof {
        assert forall|y: RadonTypes| encodable(y) && #[trigger] encoding(y) == bytes@ implies r is Some
            && r->Some_0.1 == bytes@.len() by {
            assert(bytes@.subrange(0, encoding(y).len() as int) =~= bytes@);
            assert(encoded_at(bytes@, 0, y));
        }
    }
    match r {
        Some((x, end)) => {
            if end == bytes.len() {
                assert(bytes@.subrange(0, end as int) =~= bytes@);
                Some(x)
            } else {
                None
            }
        },
        None => None,
    }
}

/// Values that are the same have the same bytes: the encoding depends on nothing but the
/// value.
pub proof fn same_value_same_encoding_law(a: RadonTypes, b: RadonTypes)
    requires
        same_value(a, b),
        encodable(a),
    ensures
        encodable(b),
        encoding(a) == encoding(b),
    decreases a, 0nat,
{
    if let (RadonTypes::Array(xs), RadonTypes::Array(ys)) = (a, b) {
        lemma_same_items(xs, ys, 0);
        assert forall|j: int| 0 <= j < ys@.len() implies encodable(#[trigger] ys@[j]) by {
            lemma_same_items(xs, ys, j as nat);
        }
    }
}

proof fn lemma_same_items(xs: Vec<RadonTypes>, ys: Vec<RadonTypes>, i: nat)
    requires
        xs@.len() == ys@.len(),
        i <= xs@.len(),
        forall|j: int| 0 <= j < xs@.len() ==> same_value(#[trigger] xs@[j], ys@[j]),
        forall|j: int| 0 <= j < xs@.len() ==> encodable(#[trigger] xs@[j]),
    ensures
        items_from(xs, i) == items_from(ys, i),
        i < xs@.len() ==> encodable(ys@[i as int]),
    decreases xs, xs@.len() - i,
{
    if i < xs@.len() {
        same_value_same_encoding_law(xs@[i as int], ys@[i as int]);
        lemma_same_items(xs, ys, i + 1);
    }
}

/// Decoding the encoding of a value gives that value back, for every value that has an
/// encoding here: booleans, integers in `[-2^64, 2^64)`, doubles, byte and text strings,
/// and arrays of such values.
pub proof fn decode_encode_law(v: RadonTypes, r: Option<RadonTypes>)
    requires
        encodable(v),
        decode_outcome(encoding(v), r),
    ensures
        r is Some,
        same_value(r->Some_0, v),
{
    assert(encodable(v) && encoding(v) == encoding(v));
    lemma_encoding_injective(r->Some_0, v);
}

} // verus!
