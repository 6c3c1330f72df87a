//! Sorted, duplicate-free sequences of integers, and the insertion that builds them.
use vstd::prelude::*;

verus! {

/// Each element is smaller than the next.
pub open spec fn strictly_increasing(s: Seq<u32>) -> bool {
    forall|i: int, j: int| 0 <= i < j < s.len() ==> s[i] < s[j]
}

/// `x` inserted at its place in the sorted sequence `t`, unless it is already there.
pub open spec fn insert_sorted(t: Seq<u32>, x: u32) -> Seq<u32>
    decreases t.len(),
{
    if t.len() == 0 {
        seq![x]
    } else if x < t[0] {
        seq![x] + t
    } else if x == t[0] {
        t
    } else {
        seq![t[0]] + insert_sorted(t.drop_first(), x)
    }
}

/// The elements of `s`, sorted ascending, each once: what `sort` then `dedup` leaves.
pub open spec fn sort_dedup(s: Seq<u32>) -> Seq<u32>
    decreases s.len(),
{
    if s.len() == 0 {
        Seq::empty()
    } else {
        insert_sorted(sort_dedup(s.drop_last()), s.last())
    }
}

/// Inserting into a strictly increasing sequence keeps it so and adds exactly the new value.
pub proof fn lemma_insert_sorted(t: Seq<u32>, x: u32)
    requires
        strictly_increasing(t),
    ensures
        strictly_increasing(insert_sorted(t, x)),
        forall|y: u32| #[trigger] insert_sorted(t, x).contains(y) <==> (t.contains(y) || y == x),
    decreases t.len(),
{
    if t.len() == 0 {
        assert(insert_sorted(t, x) =~= seq![x]);
        assert forall|y: u32| insert_sorted(t, x).contains(y) <==> (t.contains(y) || y == x) by {
            if insert_sorted(t, x).contains(y) {
                let k = choose|k: int| 0 <= k < insert_sorted(t, x).len() && insert_sorted(t, x)[k] == y;
                assert(k == 0);
            }
            if y == x {
                assert(insert_sorted(t, x)[0] == x);
            }
        }
    } else if x < t[0] {
        let r = seq![x] + t;
        assert forall|y: u32| r.contains(y) <==> (t.contains(y) || y == x) by {
            if r.contains(y) {
                let k = choose|k: int| 0 <= k < r.len() && r[k] == y;
                if k > 0 {
                    assert(t[k - 1] == y);
                }
            }
            if t.contains(y) {
                let k = choose|k: int| 0 <= k < t.len() && t[k] == y;
                assert(r[k + 1] == y);
            }
            if y == x {
                assert(r[0] == x);
            }
        }
    } else if x == t[0] {
        assert forall|y: u32| t.contains(y) <==> (t.contains(y) || y == x) by {
            if y == x {
                assert(t[0] == y);
            }
        }
    } else {
        let t1 = t.drop_first();
        assert(strictly_increasing(t1));
        lemma_insert_sorted(t1, x);
        let r1 = insert_sorted(t1, x);
        let r = seq![t[0]] + r1;
        assert forall|i: int| 0 <= i < r1.len() implies t[0] < #[trigger] r1[i] by {
            assert(r1.contains(r1[i]));
            if r1[i] != x {
                assert(t1.contains(r1[i]));
                let k = choose|k: int| 0 <= k < t1.len() && t1[k] == r1[i];
                assert(t[k + 1] == r1[i]);
            }
        }
        assert forall|i: int, j: int| 0 <= i < j < r.len() implies r[i] < r[j] by {
            if i > 0 {
                assert(r[i] == r1[i - 1]);
                assert(r[j] == r1[j - 1]);
            } else {
                assert(r[j] == r1[j - 1]);
            }
        }
        assert forall|y: u32| r.contains(y) <==> (t.contains(y) || y == x) by {
            if r.contains(y) {
                let k = choose|k: int| 0 <= k < r.len() && r[k] == y;
                if k > 0 {
                    assert(r1[k - 1] == y);
                    assert(r1.contains(y));
                    if y != x {
                        assert(t1.contains(y));
                        let m = choose|m: int| 0 <= m < t1.len() && t1[m] == y;
                        assert(t[m + 1] == y);
                    }
                } else {
                    assert(t[0] == y);
                }
            }
            if t.contains(y) {
                let k = choose|k: int| 0 <= k < t.len() && t[k] == y;
                if k > 0 {
                    assert(t1[k - 1] == y);
                    assert(t1.contains(y));
                    assert(r1.contains(y));
                    let m = choose|m: int| 0 <= m < r1.len() && r1[m] == y;
                    assert(r[m + 1] == y);
                } else {
                    assert(r[0] == y);
                }
            }
            if y == x {
                assert(r1.contains(x));
                let m = choose|m: int| 0 <= m < r1.len() && r1[m] == x;
                assert(r[m + 1] == x);
            }
        }
    }
}

/// `sort_dedup(s)` is sorted, free of duplicates, and holds exactly the elements of `s`.
pub proof fn lemma_sort_dedup(s: Seq<u32>)
    ensures
        strictly_increasing(sort_dedup(s)),
        forall|y: u32| sort_dedup(s).contains(y) <==> s.contains(y),
    decreases s.len(),
{
    if s.len() > 0 {
        lemma_sort_dedup(s.drop_last());
        lemma_insert_sorted(sort_dedup(s.drop_last()), s.last());
        assert forall|y: u32| sort_dedup(s).contains(y) <==> s.contains(y) by {
            if s.drop_last().contains(y) {
                let k = choose|k: int| 0 <= k < s.drop_last().len() && s.drop_last()[k] == y;
                assert(s[k] == y);
            }
            if s.contains(y) {
                let k = choose|k: int| 0 <= k < s.len() && s[k] == y;
                if k < s.len() - 1 {
                    assert(s.drop_last()[k] == y);
                }
            }
            if y == s.last() {
                assert(s[s.len() - 1] == y);
            }
        }
    }
}

/// Two sorted duplicate-free sequences with the same elements are equal.
pub proof fn lemma_sorted_unique(a: Seq<u32>, b: Seq<u32>)
    requires
        strictly_increasing(a),
        strictly_increasing(b),
        forall|y: u32| a.contains(y) <==> b.contains(y),
    ensures
        a == b,
    decreases a.len() + b.len(),
{
    if a.len() == 0 {
        if b.len() > 0 {
            assert(b.contains(b[0]));
        }
        assert(a =~= b);
    } else if b.len() == 0 {
        assert(a.contains(a[0]));
    } else {
        assert(a.contains(a[0]));
        assert(b.contains(b[0]));
        let ka = choose|k: int| 0 <= k < a.len() && a[k] == b[0];
        let kb = choose|k: int| 0 <= k < b.len() && b[k] == a[0];
        assert(a[0] == b[0]) by {
            if ka > 0 {
                assert(a[0] < a[ka]);
            }
            if kb > 0 {
                assert(b[0] < b[kb]);
            }
        }
        let a1 = a.drop_first();
        let b1 = b.drop_first();
        assert forall|y: u32| a1.contains(y) <==> b1.contains(y) by {
            if a1.contains(y) {
                let k = choose|k: int| 0 <= k < a1.len() && a1[k] == y;
                assert(a[k + 1] == y);
                assert(a.contains(y));
                let m = choose|m: int| 0 <= m < b.len() && b[m] == y;
                assert(a[0] < a[k + 1]);
                assert(m > 0);
                assert(b1[m - 1] == y);
            }
            if b1.contains(y) {
                let k = choose|k: int| 0 <= k < b1.len() && b1[k] == y;
                assert(b[k + 1] == y);
                assert(b.contains(y));
                let m = choose|m: int| 0 <= m < a.len() && a[m] == y;
                assert(b[0] < b[k + 1]);
                assert(m > 0);
                assert(a1[m - 1] == y);
            }
        }
        lemma_sorted_unique(a1, b1);
        assert(a =~= seq![a[0]] + a1);
        assert(b =~= seq![b[0]] + b1);
    }
}

/// The position where `x` belongs in the sorted `t`: the first index whose element is not
/// below `x`.
fn insertion_point(t: &Vec<u32>, x: u32) -> (p: usize)
    requires
        strictly_increasing(t@),
    ensures
        p <= t@.len(),
        forall|i: int| 0 <= i < p ==> t@[i] < x,
        p < t@.len() ==> x <= t@[p as int],
{
    let mut p: usize = 0;
    while p < t.len() && t[p] < x
        invariant
            p <= t@.len(),
            forall|i: int| 0 <= i < p ==> t@[i] < x,
        decreases t@.len() - p,
    {
        p = p + 1;
    }
    p
}

proof fn lemma_insert_sorted_at(t: Seq<u32>, x: u32, p: int)
    requires
        strictly_increasing(t),
        0 <= p <= t.len(),
        forall|i: int| 0 <= i < p ==> t[i] < x,
        p < t.len() ==> x <= t[p],
    ensures
        p < t.len() && t[p] == x ==> insert_sorted(t, x) == t,
        !(p < t.len() && t[p] == x) ==> insert_sorted(t, x) == t.take(p).push(x) + t.skip(p),
    decreases t.len(),
{
    if t.len() == 0 {
        assert(t.take(p).push(x) + t.skip(p) =~= seq![x]);
    } else if p == 0 {
        if x < t[0] {
            assert(t.take(p).push(x) + t.skip(p) =~= seq![x] + t);
        }
    } else {
        let t1 = t.drop_first();
        lemma_insert_sorted_at(t1, x, p - 1);
        if !(p < t.len() && t[p] == x) {
            assert(t.take(p).push(x) + t.skip(p) =~= seq![t[0]] + (t1.take(p - 1).push(x)
                + t1.skip(p - 1)));
        }
    }
}

/// Inserts `x` into the sorted, duplicate-free `t` unless it is already there.
pub fn insert_sorted_exec(t: &mut Vec<u32>, x: u32)
    requires
        strictly_increasing(old(t)@),
    ensures
        final(t)@ == insert_sorted(old(t)@, x),
        strictly_increasing(final(t)@),
{
    proof {
        lemma_insert_sorted(t@, x);
    }
    let p = insertion_point(t, x);
    proof {
        lemma_insert_sorted_at(t@, x, p as int);
    }
    if p < t.len() && t[p] == x {
        return;
    }
    t.insert(p, x);
    assert(t@ =~= old(t)@.take(p as int).push(x) + old(t)@.skip(p as int));
}

/// The elements of `s`, sorted ascending and without duplicates.
pub fn sort_dedup_exec(s: &Vec<u32>) -> (r: Vec<u32>)
    ensures
        r@ == sort_dedup(s@),
        strictly_increasing(r@),
{
    let mut r: Vec<u32> = Vec::new();
    let mut i: usize = 0;
    while i < s.len()
        invariant
            i <= s@.len(),
            r@ == sort_dedup(s@.subrange(0, i as int)),
            strictly_increasing(r@),
        decreases s@.len() - i,
    {
        proof {
            assert(s@.subrange(0, i + 1).drop_last() =~= s@.subrange(0, i as int));
        }
        insert_sorted_exec(&mut r, s[i]);
        i = i + 1;
    }
    assert(s@.subrange(0, s@.len() as int) =~= s@);
    r
}

} // verus!
