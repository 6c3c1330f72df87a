//! Sorting lists of strings in the order of `Ord` for `String`, and removing repeats.
use vstd::prelude::*;
use crate::text::{str_eq, to_chars};

verus! {

/// The character sequences of a list of strings.
pub open spec fn strs(v: Seq<String>) -> Seq<Seq<char>> {
    v.map_values(|s: String| s@)
}

/// `a` sorts before `b`: lexicographic order by code point, which is the byte order of
/// their UTF-8 encodings that `Ord` for `str` uses.
pub open spec fn lex_lt(a: Seq<char>, b: Seq<char>) -> bool
    decreases a.len(),
{
    if a.len() == 0 {
        b.len() > 0
    } else if b.len() == 0 {
        false
    } else if a[0] == b[0] {
        lex_lt(a.drop_first(), b.drop_first())
    } else {
        a[0] < b[0]
    }
}

/// Whether `a` sorts before `b`.
pub fn chars_lt(a: &[char], b: &[char]) -> (r: bool)
    ensures
        r == lex_lt(a@, b@),
{
    let mut i: usize = 0;
    assert(a@.skip(0) =~= a@);
    assert(b@.skip(0) =~= b@);
    while i < a.len() && i < b.len() && a[i] == b[i]
        invariant
            i <= a@.len(),
            i <= b@.len(),
            lex_lt(a@, b@) == lex_lt(a@.skip(i as int), b@.skip(i as int)),
        decreases a@.len() - i,
    {
        proof {
            assert(a@.skip(i as int).drop_first() =~= a@.skip(i + 1));
            assert(b@.skip(i as int).drop_first() =~= b@.skip(i + 1));
        }
        i = i + 1;
    }
    if i == a.len() {
        assert(a@.skip(i as int).len() == 0);
        i < b.len()
    } else if i == b.len() {
        assert(b@.skip(i as int).len() == 0);
        false
    } else {
        assert(a@.skip(i as int)[0] == a@[i as int]);
        assert(b@.skip(i as int)[0] == b@[i as int]);
        a[i] < b[i]
    }
}

/// Whether `a` sorts before `b`.
pub fn str_lt(a: &str, b: &str) -> (r: bool)
    ensures
        r == lex_lt(a@, b@),
{
    let x = to_chars(a);
    let y = to_chars(b);
    chars_lt(&x, &y)
}

/// `x` inserted into `t` before the first element that does not sort before it.
pub open spec fn ins(t: Seq<Seq<char>>, x: Seq<char>) -> Seq<Seq<char>>
    decreases t.len(),
{
    if t.len() == 0 || !lex_lt(t[0], x) {
        seq![x] + t
    } else {
        seq![t[0]] + ins(t.drop_first(), x)
    }
}

/// `s` sorted ascending, as `sort` on a list of strings leaves it.
pub open spec fn sort_strs(s: Seq<Seq<char>>) -> Seq<Seq<char>>
    decreases s.len(),
{
    if s.len() == 0 {
        Seq::empty()
    } else {
        ins(sort_strs(s.drop_last()), s.last())
    }
}

/// `s` with each run of equal neighbours reduced to one, as `dedup` leaves it.
pub open spec fn dedup_adj(s: Seq<Seq<char>>) -> Seq<Seq<char>>
    decreases s.len(),
{
    if s.len() <= 1 {
        s
    } else if s[s.len() - 2] == s.last() {
        dedup_adj(s.drop_last())
    } else {
        dedup_adj(s.drop_last()).push(s.last())
    }
}

proof fn lemma_ins_at(t: Seq<Seq<char>>, x: Seq<char>, p: int)
    requires
        0 <= p <= t.len(),
        forall|i: int| 0 <= i < p ==> lex_lt(#[trigger] t[i], x),
        p < t.len() ==> !lex_lt(t[p], x),
    ensures
        ins(t, x) == t.take(p).push(x) + t.skip(p),
    decreases t.len(),
{
    if t.len() == 0 || !lex_lt(t[0], x) {
        if p > 0 {
            assert(lex_lt(t[0], x));
        }
        assert(t.take(p).push(x) + t.skip(p) =~= seq![x] + t);
    } else {
        assert(p > 0);
        let t1 = t.drop_first();
        assert forall|i: int| 0 <= i < p - 1 implies lex_lt(#[trigger] t1[i], x) by {
            assert(t1[i] == t[i + 1]);
        }
        lemma_ins_at(t1, x, p - 1);
        assert(t.take(p).push(x) + t.skip(p) =~= seq![t[0]] + (t1.take(p - 1).push(x) + t1.skip(
            p - 1,
        )));
    }
}

/// Inserts `x` before the first element of `t` that does not sort before it.
fn insert_str(t: &mut Vec<String>, x: String)
    ensures
        strs(final(t)@) == ins(strs(old(t)@), x@),
{
    let mut p: usize = 0;
    while p < t.len() && str_lt(t[p].as_str(), x.as_str())
        invariant
            p <= t@.len(),
            forall|i: int| 0 <= i < p ==> lex_lt(#[trigger] strs(t@)[i], x@),
        decreases t@.len() - p,
    {
        p = p + 1;
    }
    proof {
        lemma_ins_at(strs(t@), x@, p as int);
    }
    let ghost xv = x@;
    t.insert(p, x);
    assert(strs(t@) =~= strs(old(t)@).take(p as int).push(xv) + strs(old(t)@).skip(p as int));
}

/// Sorts the list ascending.
pub fn sort_strings(v: &mut Vec<String>)
    ensures
        strs(final(v)@) == sort_strs(strs(old(v)@)),
{
    let mut r: Vec<String> = Vec::new();
    let mut i: usize = 0;
    while i < v.len()
        invariant
            i <= v@.len(),
            v@ == old(v)@,
            strs(r@) == sort_strs(strs(v@.subrange(0, i as int))),
        decreases v@.len() - i,
    {
        proof {
            assert(strs(v@.subrange(0, i + 1)).drop_last() =~= strs(v@.subrange(0, i as int)));
        }
        let x = v[i].clone();
        insert_str(&mut r, x);
        i = i + 1;
    }
    assert(v@.subrange(0, v@.len() as int) =~= v@);
    *v = r;
}

/// Removes each element equal to the one before it.
pub fn dedup_strings(v: &mut Vec<String>)
    ensures
        strs(final(v)@) == dedup_adj(strs(old(v)@)),
{
    let mut r: Vec<String> = Vec::new();
    let mut i: usize = 0;
    while i < v.len()
        invariant
            i <= v@.len(),
            v@ == old(v)@,
            strs(r@) == dedup_adj(strs(v@.subrange(0, i as int))),
            i > 0 ==> r@.len() > 0 && r@.last()@ == v@[i - 1]@,
        decreases v@.len() - i,
    {
        let ghost pre = strs(v@.subrange(0, i as int));
        let ghost nxt = strs(v@.subrange(0, i + 1));
        proof {
            assert(nxt.drop_last() =~= pre);
        }
        let ghost old_r = r@;
        if i == 0 {
            r.push(v[i].clone());
            assert(strs(r@) =~= nxt);
        } else if str_eq(r[r.len() - 1].as_str(), v[i].as_str()) {
            assert(nxt[nxt.len() - 2] == v@[i - 1]@);
        } else {
            assert(nxt[nxt.len() - 2] == v@[i - 1]@);
            r.push(v[i].clone());
            assert(strs(r@) =~= strs(old_r).push(v@[i as int]@));
        }
        i = i + 1;
    }
    assert(v@.subrange(0, v@.len() as int) =~= v@);
    *v = r;
}


/// `lex_lt` never holds of a sequence and itself.
pub proof fn lemma_lex_irrefl(a: Seq<char>)
    ensures
        !lex_lt(a, a),
    decreases a.len(),
{
    if a.len() > 0 {
        lemma_lex_irrefl(a.drop_first());
    }
}

/// Of two different sequences, one sorts before the other, and not both ways.
pub proof fn lemma_lex_total(a: Seq<char>, b: Seq<char>)
    ensures
        a != b ==> (lex_lt(a, b) || lex_lt(b, a)),
        !(lex_lt(a, b) && lex_lt(b, a)),
    decreases a.len(),
{
    if a.len() > 0 && b.len() > 0 {
        lemma_lex_total(a.drop_first(), b.drop_first());
        if a[0] == b[0] && a.drop_first() == b.drop_first() {
            assert(a =~= seq![a[0]] + a.drop_first());
            assert(b =~= seq![b[0]] + b.drop_first());
        }
    } else if a.len() == 0 && b.len() == 0 {
        assert(a =~= b);
    }
}

/// `lex_lt` is transitive.
pub proof fn lemma_lex_trans(a: Seq<char>, b: Seq<char>, c: Seq<char>)
    requires
        lex_lt(a, b),
        lex_lt(b, c),
    ensures
        lex_lt(a, c),
    decreases a.len(),
{
    if a.len() > 0 && b.len() > 0 && c.len() > 0 {
        if a[0] == b[0] && b[0] == c[0] {
            lemma_lex_trans(a.drop_first(), b.drop_first(), c.drop_first());
        }
    }
}

/// A list that is already strictly increasing is left as it is by sorting and by removing
/// neighbours that repeat.
pub proof fn lemma_increasing_fixed(s: Seq<Seq<char>>)
    requires
        forall|i: int, j: int| 0 <= i < j < s.len() ==> lex_lt(#[trigger] s[i], #[trigger] s[j]),
    ensures
        sort_strs(s) == s,
        dedup_adj(s) == s,
    decreases s.len(),
{
    if s.len() > 0 {
        let t = s.drop_last();
        assert forall|i: int, j: int| 0 <= i < j < t.len() implies lex_lt(
            #[trigger] t[i],
            #[trigger] t[j],
        ) by {
            assert(t[i] == s[i] && t[j] == s[j]);
        }
        lemma_increasing_fixed(t);
        assert forall|i: int| 0 <= i < t.len() implies lex_lt(#[trigger] t[i], s.last()) by {
            assert(t[i] == s[i]);
        }
        lemma_ins_at(t, s.last(), t.len() as int);
        assert(t.take(t.len() as int).push(s.last()) + t.skip(t.len() as int) =~= s);
        if s.len() >= 2 {
            assert(lex_lt(s[s.len() - 2], s[s.len() - 1]));
            if s[s.len() - 2] == s.last() {
                lemma_lex_irrefl(s.last());
            }
            assert(t.push(s.last()) =~= s);
        }
    }
}

} // verus!
