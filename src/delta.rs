//! Delta codec for application payloads.
//!
//! A delta is the byte-wise difference (modulo 256) between a new and an old
//! buffer, run-length encoded as `(count, value)` pairs.
use vstd::prelude::*;

verus! {

/// Byte `i` of `s`, or 0 past its end.
pub open spec fn byte_at(s: Seq<u8>, i: int) -> u8 {
    if 0 <= i < s.len() {
        s[i]
    } else {
        0
    }
}

/// `a - b` modulo 256.
pub open spec fn sub_mod(a: u8, b: u8) -> u8 {
    if a >= b {
        (a - b) as u8
    } else {
        (a - b + 256) as u8
    }
}

/// `a + b` modulo 256.
pub open spec fn add_mod(a: u8, b: u8) -> u8 {
    if a + b < 256 {
        (a + b) as u8
    } else {
        (a + b - 256) as u8
    }
}

pub open spec fn max_len(a: Seq<u8>, b: Seq<u8>) -> nat {
    if a.len() >= b.len() {
        a.len()
    } else {
        b.len()
    }
}

/// The byte-wise difference `new - old`, over the longer of the two buffers,
/// a missing byte counting as 0.
pub open spec fn diff(new: Seq<u8>, old: Seq<u8>) -> Seq<u8> {
    Seq::new(max_len(new, old), |i: int| sub_mod(byte_at(new, i), byte_at(old, i)))
}

/// `d` added byte-wise onto `old`; the result is as long as `d`.
pub open spec fn patch(old: Seq<u8>, d: Seq<u8>) -> Seq<u8> {
    Seq::new(d.len(), |i: int| add_mod(byte_at(old, i), d[i]))
}

/// `n` copies of `v`.
pub open spec fn run(v: u8, n: nat) -> Seq<u8> {
    Seq::new(n, |_i: int| v)
}

/// The bytes that a sequence of `(count, value)` pairs stands for; a trailing
/// odd byte is ignored.
pub open spec fn expand(pairs: Seq<u8>) -> Seq<u8>
    decreases pairs.len(),
{
    if pairs.len() < 2 {
        Seq::empty()
    } else if pairs.len() % 2 == 1 {
        expand(pairs.drop_last())
    } else {
        let n = pairs.len();
        expand(pairs.subrange(0, n - 2)) + run(pairs[n - 1], pairs[n - 2] as nat)
    }
}

/// The shape of an encoder's output: whole pairs, each count at least 1, and
/// two neighbouring pairs of one value only where the first has count 255.
pub open spec fn canonical(pairs: Seq<u8>) -> bool {
    &&& pairs.len() % 2 == 0
    &&& forall|k: int| 0 <= k < pairs.len() / 2 ==> #[trigger] pairs[2 * k] >= 1
    &&& forall|k: int|
        0 <= k && k + 1 < pairs.len() / 2 && #[trigger] pairs[2 * k + 1] == pairs[2 * k + 3]
            ==> pairs[2 * k] == 255
}

proof fn lemma_expand_push_pair(pairs: Seq<u8>, count: u8, value: u8)
    requires
        pairs.len() % 2 == 0,
    ensures
        expand(pairs.push(count).push(value)) == expand(pairs) + run(value, count as nat),
{
    let p = pairs.push(count).push(value);
    assert(p.subrange(0, p.len() - 2) =~= pairs);
}

proof fn lemma_run_split(v: u8, n: nat)
    requires
        n >= 1,
    ensures
        run(v, n) == run(v, (n - 1) as nat).push(v),
{
    assert(run(v, n) =~= run(v, (n - 1) as nat).push(v));
}

/// Appends the pair `(count, value)` to canonical output whose last pair, if
/// it has `value` too, is full.
fn push_pair(out: &mut Vec<u8>, count: u8, value: u8)
    requires
        canonical(old(out)@),
        count >= 1,
        old(out)@.len() >= 2 && old(out)@[old(out)@.len() - 1] == value ==> old(out)@[old(
            out,
        )@.len() - 2] == 255,
    ensures
        canonical(final(out)@),
        final(out)@ == old(out)@.push(count).push(value),
        expand(final(out)@) == expand(old(out)@) + run(value, count as nat),
{
    proof {
        lemma_expand_push_pair(out@, count, value);
    }
    let ghost prev = out@;
    out.push(count);
    out.push(value);
    proof {
        assert forall|k: int| 0 <= k < out@.len() / 2 implies #[trigger] out@[2 * k] >= 1 by {
            if k < prev.len() / 2 {
                assert(out@[2 * k] == prev[2 * k]);
            }
        }
        assert forall|k: int|
            0 <= k && k + 1 < out@.len() / 2 && #[trigger] out@[2 * k + 1] == out@[2 * k + 3]
                implies out@[2 * k] == 255 by {
            if k + 1 < prev.len() / 2 {
                assert(out@[2 * k + 1] == prev[2 * k + 1]);
                assert(out@[2 * k + 3] == prev[2 * k + 3]);
                assert(out@[2 * k] == prev[2 * k]);
            } else {
                assert(2 * k + 2 == prev.len());
            }
        }
    }
}

/// Run-length encodes `d` into `(count, value)` pairs, a new pair starting
/// whenever the value changes or the count reaches 255.
pub fn rle_encode(d: &[u8]) -> (r: Vec<u8>)
    ensures
        canonical(r@),
        expand(r@) == d@,
{
    let mut out: Vec<u8> = Vec::new();
    let mut value: u8 = 0;
    let mut count: u8 = 0;
    let mut i: usize = 0;
    while i < d.len()
        invariant
            0 <= i <= d.len(),
            canonical(out@),
            i == 0 ==> out@.len() == 0 && count == 0,
            i > 0 ==> count >= 1,
            expand(out@) + run(value, count as nat) == d@.subrange(0, i as int),
            out@.len() >= 2 && out@[out@.len() - 1] == value ==> out@[out@.len() - 2] == 255,
        decreases d.len() - i,
    {
        let b = d[i];
        proof {
            assert(d@.subrange(0, i + 1) =~= d@.subrange(0, i as int).push(b));
        }
        if i == 0 {
            value = b;
            count = 1;
            assert(run(value, 1) =~= seq![b]);
        } else if b != value {
            push_pair(&mut out, count, value);
            value = b;
            count = 1;
            assert(run(value, 1) =~= seq![b]);
        } else {
            if count == 255 {
                push_pair(&mut out, count, value);
                assert(expand(out@) + run(value, 0) =~= expand(out@));
                count = 0;
            }
            proof {
                lemma_run_split(value, (count + 1) as nat);
            }
            count = count + 1;
            assert(expand(out@) + run(value, count as nat) =~= (expand(out@) + run(
                value,
                (count - 1) as nat,
            )).push(b));
        }
        i = i + 1;
    }
    if count > 0 {
        push_pair(&mut out, count, value);
    } else {
        assert(expand(out@) + run(value, 0) =~= expand(out@));
    }
    assert(d@.subrange(0, d.len() as int) =~= d@);
    out
}

/// Expands `(count, value)` pairs back into bytes; a trailing odd byte is
/// ignored.
pub fn rle_decode(pairs: &[u8]) -> (r: Vec<u8>)
    ensures
        r@ == expand(pairs@),
{
    let mut out: Vec<u8> = Vec::new();
    let mut i: usize = 0;
    while i + 1 < pairs.len()
        invariant
            0 <= i <= pairs.len(),
            i % 2 == 0,
            out@ == expand(pairs@.subrange(0, i as int)),
        decreases pairs.len() - i,
    {
        let count = pairs[i];
        let value = pairs[i + 1];
        proof {
            let p = pairs@.subrange(0, i + 2);
            assert(p.subrange(0, p.len() - 2) =~= pairs@.subrange(0, i as int));
        }
        let ghost start = out@;
        let mut k: u8 = 0;
        while k < count
            invariant
                k <= count,
                out@ == start + run(value, k as nat),
            decreases count - k,
        {
            out.push(value);
            k = k + 1;
            assert(out@ =~= start + run(value, k as nat));
        }
        i = i + 2;
    }
    proof {
        if pairs.len() < 2 {
            assert(expand(pairs@.subrange(0, i as int)) == expand(pairs@));
        } else if pairs.len() % 2 == 1 {
            assert(pairs@.drop_last() =~= pairs@.subrange(0, i as int));
        } else {
            assert(pairs@.subrange(0, i as int) =~= pairs@);
        }
    }
    out
}

/// The delta of `new` against `old`: `diff(new, old)` run-length encoded.
pub fn to_delta(new: &[u8], old: &[u8]) -> (r: Vec<u8>)
    ensures
        canonical(r@),
        expand(r@) == diff(new@, old@),
{
    let n: usize = if new.len() >= old.len() {
        new.len()
    } else {
        old.len()
    };
    let mut d: Vec<u8> = Vec::new();
    let mut i: usize = 0;
    while i < n
        invariant
            n == max_len(new@, old@),
            0 <= i <= n,
            d@.len() == i,
            forall|j: int| 0 <= j < i ==> d@[j] == sub_mod(byte_at(new@, j), byte_at(old@, j)),
        decreases n - i,
    {
        let a: u8 = if i < new.len() {
            new[i]
        } else {
            0
        };
        let b: u8 = if i < old.len() {
            old[i]
        } else {
            0
        };
        d.push(a.wrapping_sub(b));
        i = i + 1;
    }
    assert(d@ =~= diff(new@, old@));
    rle_encode(d.as_slice())
}

/// Rebuilds a buffer from `old` and a delta made against it.
pub fn from_delta(old: &[u8], delta: &[u8]) -> (r: Vec<u8>)
    ensures
        r@ == patch(old@, expand(delta@)),
{
    let d = rle_decode(delta);
    let mut out: Vec<u8> = Vec::new();
    let mut i: usize = 0;
    while i < d.len()
        invariant
            0 <= i <= d@.len(),
            out@.len() == i,
            forall|j: int| 0 <= j < i ==> out@[j] == add_mod(byte_at(old@, j), d@[j]),
        decreases d.len() - i,
    {
        let base: u8 = if i < old.len() {
            old[i]
        } else {
            0
        };
        out.push(base.wrapping_add(d[i]));
        i = i + 1;
    }
    assert(out@ =~= patch(old@, d@));
    out
}

/// A delta made against `old` rebuilds `new` from `old`: the result holds
/// `new`, followed by zeros up to the length of `old` where `old` is longer.
pub proof fn lemma_delta_round_trip(new: Seq<u8>, old: Seq<u8>)
    ensures
        patch(old, diff(new, old)).len() == max_len(new, old),
        patch(old, diff(new, old)).subrange(0, new.len() as int) == new,
        forall|i: int|
            new.len() <= i < max_len(new, old) ==> #[trigger] patch(old, diff(new, old))[i] == 0,
        old.len() <= new.len() ==> patch(old, diff(new, old)) == new,
{
    let r = patch(old, diff(new, old));
    assert(r.subrange(0, new.len() as int) =~= new);
    if old.len() <= new.len() {
        assert(r =~= new);
    }
}

proof fn lemma_expand_front(a: u8, v: u8, rest: Seq<u8>)
    requires
        rest.len() % 2 == 0,
    ensures
        expand(seq![a, v] + rest) == run(v, a as nat) + expand(rest),
    decreases rest.len(),
{
    let p = seq![a, v] + rest;
    if rest.len() == 0 {
        assert(p =~= seq![a, v]);
        assert(p.subrange(0, 0) =~= Seq::<u8>::empty());
        assert(rest =~= Seq::<u8>::empty());
        assert(expand(Seq::<u8>::empty()) == Seq::<u8>::empty());
        assert(expand(p) == expand(p.subrange(0, 0)) + run(v, a as nat));
        assert(Seq::<u8>::empty() + run(v, a as nat) =~= run(v, a as nat));
        assert(run(v, a as nat) + expand(rest) =~= run(v, a as nat));
    } else {
        let n = rest.len();
        let init = rest.subrange(0, n - 2);
        lemma_expand_front(a, v, init);
        assert(p.subrange(0, p.len() - 2) =~= seq![a, v] + init);
        assert(p[p.len() - 1] == rest[n - 1]);
        assert(p[p.len() - 2] == rest[n - 2]);
        assert(p.len() % 2 == 0);
        assert(expand(p) == expand(p.subrange(0, p.len() - 2)) + run(rest[n - 1], rest[n - 2] as nat));
        assert(expand(rest) == expand(init) + run(rest[n - 1], rest[n - 2] as nat));
        assert(expand(p) =~= run(v, a as nat) + expand(rest));
    }
}

proof fn lemma_canonical_tail(p: Seq<u8>)
    requires
        canonical(p),
        p.len() >= 2,
    ensures
        canonical(p.subrange(2, p.len() as int)),
        p =~= seq![p[0], p[1]] + p.subrange(2, p.len() as int),
{
    let t = p.subrange(2, p.len() as int);
    assert forall|k: int| 0 <= k < t.len() / 2 implies #[trigger] t[2 * k] >= 1 by {
        assert(t[2 * k] == p[2 * (k + 1)]);
    }
    assert forall|k: int|
        0 <= k && k + 1 < t.len() / 2 && #[trigger] t[2 * k + 1] == t[2 * k + 3] implies t[2 * k]
        == 255 by {
        assert(t[2 * k + 1] == p[2 * (k + 1) + 1]);
        assert(t[2 * k + 3] == p[2 * (k + 1) + 3]);
        assert(t[2 * k] == p[2 * (k + 1)]);
    }
}

/// Where the leading run of `p` is not full, the byte after it differs.
proof fn lemma_after_short_run(p: Seq<u8>)
    requires
        canonical(p),
        p.len() >= 2,
        p[0] < 255,
        expand(p).len() > p[0],
    ensures
        expand(p)[p[0] as int] != p[1],
{
    let t = p.subrange(2, p.len() as int);
    lemma_canonical_tail(p);
    lemma_expand_front(p[0], p[1], t);
    if t.len() == 0 {
        assert(expand(t) =~= Seq::<u8>::empty());
    } else {
        lemma_canonical_tail(t);
        lemma_expand_front(t[0], t[1], t.subrange(2, t.len() as int));
        let z: int = 0;
        assert(t[0] == p[2 * (z + 1)]);
        assert(t[1] == p[2 * z + 3]);
        assert(p[2 * z + 1] != p[2 * z + 3]);
    }
}

/// Canonical run-length encodings are unique: two canonical sequences of
/// pairs that stand for the same bytes are equal. So the contract of
/// `rle_encode`, and with it that of `to_delta`, fixes the result.
pub proof fn lemma_canonical_unique(p: Seq<u8>, q: Seq<u8>)
    requires
        canonical(p),
        canonical(q),
        expand(p) == expand(q),
    ensures
        p == q,
    decreases p.len(),
{
    if p.len() == 0 || q.len() == 0 {
        let z: int = 0;
        if p.len() != 0 {
            lemma_canonical_tail(p);
            lemma_expand_front(p[0], p[1], p.subrange(2, p.len() as int));
            assert(p[2 * z] >= 1);
            assert(q =~= Seq::<u8>::empty());
            assert(expand(q) =~= Seq::<u8>::empty());
            assert(expand(p).len() >= 1);
        } else if q.len() != 0 {
            lemma_canonical_tail(q);
            lemma_expand_front(q[0], q[1], q.subrange(2, q.len() as int));
            assert(q[2 * z] >= 1);
            assert(p =~= Seq::<u8>::empty());
            assert(expand(p) =~= Seq::<u8>::empty());
            assert(expand(q).len() >= 1);
        }
        assert(p =~= q);
    } else {
        let s = expand(p);
        let pt = p.subrange(2, p.len() as int);
        let qt = q.subrange(2, q.len() as int);
        lemma_canonical_tail(p);
        lemma_canonical_tail(q);
        lemma_expand_front(p[0], p[1], pt);
        lemma_expand_front(q[0], q[1], qt);
        let z: int = 0;
        assert(p[2 * z] >= 1);
        assert(q[2 * z] >= 1);
        assert(s[0] == p[1]);
        assert(s[0] == q[1]);
        if p[0] < q[0] {
            assert(s[p[0] as int] == q[1]);
            lemma_after_short_run(p);
        } else if q[0] < p[0] {
            assert(s[q[0] as int] == p[1]);
            lemma_after_short_run(q);
        }
        assert(p[0] == q[0]);
        let n = p[0] as int;
        assert(expand(pt) =~= s.subrange(n, s.len() as int));
        assert(expand(qt) =~= s.subrange(n, s.len() as int));
        lemma_canonical_unique(pt, qt);
        assert(p =~= q);
    }
}

} // verus!
