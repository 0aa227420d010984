//! Small vector exercises.
use vstd::prelude::*;
use std::collections::HashSet;

verus! {

broadcast use vstd::std_specs::hash::group_hash_axioms;

/// Whether every element of `s` plus `n` stays within `i32`.
pub open spec fn sums_fit(s: Seq<i32>, n: i32) -> bool {
    forall|i: int| 0 <= i < s.len() ==> i32::MIN <= #[trigger] s[i] + n <= i32::MAX
}

/// `s` with `n` added to each element.
pub open spec fn shifted(s: Seq<i32>, n: i32) -> Seq<i32> {
    Seq::new(s.len(), |i: int| (s[i] + n) as i32)
}

/// `s` with every element after its first occurrence removed.
pub open spec fn dedup_seq(s: Seq<i32>) -> Seq<i32>
    decreases s.len(),
{
    if s.len() == 0 {
        Seq::empty()
    } else {
        let p = dedup_seq(s.drop_last());
        if p.contains(s.last()) {
            p
        } else {
            p.push(s.last())
        }
    }
}

pub proof fn lemma_dedup_contains(s: Seq<i32>, x: i32)
    ensures
        dedup_seq(s).contains(x) <==> s.contains(x),
    decreases s.len(),
{
    if s.len() > 0 {
        let t = s.drop_last();
        lemma_dedup_contains(t, x);
        let p = dedup_seq(t);
        if s.contains(x) && x != s.last() {
            let i = choose|i: int| 0 <= i < s.len() && s[i] == x;
            assert(t[i] == x);
        }
        if t.contains(x) {
            let i = choose|i: int| 0 <= i < t.len() && t[i] == x;
            assert(s[i] == x);
        }
        if !p.contains(s.last()) && x == s.last() {
            assert(p.push(s.last())[p.len() as int] == x);
        }
        if !p.contains(s.last()) && p.push(s.last()).contains(x) && x != s.last() {
            let i = choose|i: int| 0 <= i < p.len() + 1 && p.push(s.last())[i] == x;
            assert(p[i] == x);
        }
        if p.contains(x) {
            let i = choose|i: int| 0 <= i < p.len() && p[i] == x;
            assert(p.push(s.last())[i] == x);
        }
    }
}

/// A copy of `v` with `n` added to every element.
pub fn add_n(v: Vec<i32>, n: i32) -> (r: Vec<i32>)
    requires
        sums_fit(v@, n),
    ensures
        r@ == shifted(v@, n),
{
    let mut v = v;
    add_n_inplace(&mut v, n);
    v
}

/// Adds `n` to every element of `v`.
pub fn add_n_inplace(v: &mut Vec<i32>, n: i32)
    requires
        sums_fit(old(v)@, n),
    ensures
        final(v)@ == shifted(old(v)@, n),
{
    let len = v.len();
    let mut i: usize = 0;
    while i < len
        invariant
            len == old(v)@.len(),
            v@.len() == len,
            i <= len,
            sums_fit(old(v)@, n),
            forall|j: int| 0 <= j < i ==> #[trigger] v@[j] == old(v)@[j] + n,
            forall|j: int| i <= j < len ==> #[trigger] v@[j] == old(v)@[j],
        decreases len - i,
    {
        let x = v[i];
        assert(old(v)@[i as int] == x);
        v.set(i, x + n);
        i += 1;
    }
    assert(v@ =~= shifted(old(v)@, n));
}

/// Keeps the first occurrence of each value of `v`, in order.
pub fn dedup(v: &mut Vec<i32>)
    ensures
        final(v)@ == dedup_seq(old(v)@),
{
    let mut seen: HashSet<i32> = HashSet::new();
    let mut out: Vec<i32> = Vec::new();
    let len = v.len();
    let mut i: usize = 0;
    while i < len
        invariant
            len == v@.len(),
            i <= len,
            *v == *old(v),
            out@ == dedup_seq(v@.take(i as int)),
            forall|x: i32| seen@.contains(x) <==> #[trigger] v@.take(i as int).contains(x),
        decreases len - i,
    {
        let x = v[i];
        let ghost pre = v@.take(i as int);
        let ghost next = v@.take(i + 1);
        assert(next.drop_last() =~= pre);
        assert(next.last() == x);
        proof {
            lemma_dedup_contains(pre, x);
        }
        if !seen.contains(&x) {
            seen.insert(x);
            out.push(x);
        }
        assert forall|y: i32| seen@.contains(y) <==> #[trigger] next.contains(y) by {
            if next.contains(y) && y != x {
                let k = choose|k: int| 0 <= k < next.len() && next[k] == y;
                assert(pre[k] == y);
            }
            if pre.contains(y) {
                let k = choose|k: int| 0 <= k < pre.len() && pre[k] == y;
                assert(next[k] == y);
            }
            if y == x {
                assert(next[i as int] == y);
            }
        }
        i += 1;
    }
    assert(v@.take(len as int) =~= v@);
    *v = out;
}

} // verus!
