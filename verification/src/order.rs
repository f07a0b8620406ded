//! Lexicographic order on character sequences, as `Ord for String` orders
//! strings (UTF-8 byte order coincides with code-point order).

use vstd::prelude::*;
use crate::task_store::strings_view;

verus! {

/// -1, 0 or 1 as `a` sorts before, equal to or after `b`.
pub open spec fn seq_compare(a: Seq<char>, b: Seq<char>) -> int
    decreases a.len(),
{
    if a.len() == 0 && b.len() == 0 {
        0
    } else if a.len() == 0 {
        -1
    } else if b.len() == 0 {
        1
    } else if a[0] < b[0] {
        -1
    } else if a[0] > b[0] {
        1
    } else {
        seq_compare(a.drop_first(), b.drop_first())
    }
}

/// Executable `seq_compare`.
pub fn compare_chars(a: &[char], b: &[char]) -> (r: i8)
    ensures
        r == seq_compare(a@, b@),
{
    let mut i: usize = 0;
    assert(a@.skip(0) =~= a@);
    assert(b@.skip(0) =~= b@);
    while i < a.len() && i < b.len() && a[i] == b[i]
        invariant
            i <= a@.len(),
            i <= b@.len(),
            seq_compare(a@, b@) == seq_compare(a@.skip(i as int), b@.skip(i as int)),
        decreases a@.len() - i,
    {
        proof {
            assert(a@.skip(i as int).drop_first() =~= a@.skip(i + 1));
            assert(b@.skip(i as int).drop_first() =~= b@.skip(i + 1));
        }
        i = i + 1;
    }
    if i == a.len() && i == b.len() {
        0
    } else if i == a.len() {
        -1
    } else if i == b.len() {
        1
    } else if a[i] < b[i] {
        -1
    } else {
        1
    }
}

/// Executable `seq_compare` on strings.
pub fn compare_str(a: &str, b: &str) -> (r: i8)
    ensures
        r == seq_compare(a@, b@),
{
    let x = crate::text::to_chars(a);
    let y = crate::text::to_chars(b);
    compare_chars(&x, &y)
}

/// Comparing a sequence with itself gives 0.
pub proof fn lemma_compare_refl(a: Seq<char>)
    ensures
        seq_compare(a, a) == 0,
    decreases a.len(),
{
    if a.len() > 0 {
        lemma_compare_refl(a.drop_first());
    }
}

/// `seq_compare` is antisymmetric.
pub proof fn lemma_compare_antisym(a: Seq<char>, b: Seq<char>)
    ensures
        seq_compare(a, b) == -seq_compare(b, a),
    decreases a.len(),
{
    if a.len() > 0 && b.len() > 0 && a[0] == b[0] {
        lemma_compare_antisym(a.drop_first(), b.drop_first());
    }
}

/// Equal comparison means equal sequences.
pub proof fn lemma_compare_zero_eq(a: Seq<char>, b: Seq<char>)
    requires
        seq_compare(a, b) == 0,
    ensures
        a == b,
    decreases a.len(),
{
    if a.len() > 0 && b.len() > 0 {
        lemma_compare_zero_eq(a.drop_first(), b.drop_first());
        assert(a[0] == b[0]);
        assert(a =~= seq![a[0]] + a.drop_first());
        assert(b =~= seq![b[0]] + b.drop_first());
    }
}

/// `seq_compare` is transitive (as a preorder: `<=` chains).
pub proof fn lemma_compare_trans(a: Seq<char>, b: Seq<char>, c: Seq<char>)
    requires
        seq_compare(a, b) <= 0,
        seq_compare(b, c) <= 0,
    ensures
        seq_compare(a, c) <= 0,
        seq_compare(a, b) < 0 || seq_compare(b, c) < 0 ==> seq_compare(a, c) < 0,
    decreases a.len(),
{
    if a.len() > 0 && b.len() > 0 && c.len() > 0 {
        if a[0] == b[0] && b[0] == c[0] {
            lemma_compare_trans(a.drop_first(), b.drop_first(), c.drop_first());
        }
    }
}


/// Where an insertion sort puts `x` into the sorted `s`: after every element
/// that does not sort after it.
pub open spec fn str_insert_pos(s: Seq<Seq<char>>, x: Seq<char>) -> int
    decreases s.len(),
{
    if s.len() > 0 && seq_compare(s.last(), x) > 0 {
        str_insert_pos(s.drop_last(), x)
    } else {
        s.len() as int
    }
}

/// The strings in ascending order.
pub open spec fn sort_strs(s: Seq<Seq<char>>) -> Seq<Seq<char>>
    decreases s.len(),
{
    if s.len() == 0 {
        s
    } else {
        let t = sort_strs(s.drop_last());
        t.insert(str_insert_pos(t, s.last()), s.last())
    }
}

proof fn lemma_str_insert_pos_bounds(s: Seq<Seq<char>>, x: Seq<char>)
    ensures
        0 <= str_insert_pos(s, x) <= s.len(),
    decreases s.len(),
{
    if s.len() > 0 && seq_compare(s.last(), x) > 0 {
        lemma_str_insert_pos_bounds(s.drop_last(), x);
    }
}

/// Sorting keeps the number of strings.
pub proof fn lemma_sort_strs_len(s: Seq<Seq<char>>)
    ensures
        sort_strs(s).len() == s.len(),
    decreases s.len(),
{
    if s.len() > 0 {
        lemma_sort_strs_len(s.drop_last());
        lemma_str_insert_pos_bounds(sort_strs(s.drop_last()), s.last());
    }
}

proof fn lemma_strings_insert(v: Seq<String>, p: int, x: String)
    requires
        0 <= p <= v.len(),
    ensures
        strings_view(v.insert(p, x)) == strings_view(v).insert(p, x@),
{
    assert(strings_view(v.insert(p, x)) =~= strings_view(v).insert(p, x@));
}

/// Sorts strings in ascending order (`sort` on `Vec<String>`).
pub fn sort_strings(v: &Vec<String>) -> (r: Vec<String>)
    ensures
        strings_view(r@) == sort_strs(strings_view(v@)),
{
    let ghost all = strings_view(v@);
    let mut out: Vec<String> = Vec::new();
    let mut i: usize = 0;
    assert(all.take(0) =~= Seq::<Seq<char>>::empty());
    assert(strings_view(out@) =~= Seq::<Seq<char>>::empty());
    while i < v.len()
        invariant
            i <= v@.len(),
            all == strings_view(v@),
            strings_view(out@) == sort_strs(all.take(i as int)),
        decreases v@.len() - i,
    {
        let x = v[i].clone();
        let ghost cur = strings_view(out@);
        proof {
            lemma_sort_strs_len(all.take(i as int));
        }
        let mut j: usize = out.len();
        assert(cur.take(j as int) =~= cur);
        while j > 0 && compare_str(out[j - 1].as_str(), x.as_str()) > 0
            invariant
                j <= out@.len(),
                cur == strings_view(out@),
                str_insert_pos(cur, x@) == str_insert_pos(cur.take(j as int), x@),
            decreases j,
        {
            proof {
                assert(cur.take(j as int).drop_last() =~= cur.take(j - 1));
                assert(cur.take(j as int).last() == out@[j - 1]@);
            }
            j = j - 1;
        }
        proof {
            if j > 0 {
                assert(cur.take(j as int).last() == out@[j - 1]@);
            }
            assert(str_insert_pos(cur.take(j as int), x@) == j);
            assert(all.take(i + 1).drop_last() =~= all.take(i as int));
            assert(all.take(i + 1).last() == x@);
            lemma_strings_insert(out@, j as int, x);
        }
        out.insert(j, x);
        i = i + 1;
    }
    assert(all.take(v@.len() as int) =~= all);
    out
}

} // verus!
