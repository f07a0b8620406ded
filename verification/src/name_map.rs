//! Maps keyed by name, held as vectors of `(name, value)` pairs in strictly
//! increasing name order (the order in which a `BTreeMap<String, _>` lists
//! its entries).

use vstd::prelude::*;
use crate::order::{seq_compare, compare_str, lemma_compare_antisym, lemma_compare_trans, lemma_compare_zero_eq, lemma_compare_refl};

verus! {

/// The views of the pairs.
pub open spec fn pairs_view<V: View>(v: Seq<(String, V)>) -> Seq<(Seq<char>, V::V)> {
    v.map_values(|e: (String, V)| (e.0@, e.1@))
}

/// The names strictly increase.
pub open spec fn keys_sorted<W>(s: Seq<(Seq<char>, W)>) -> bool {
    forall|i: int, j: int| 0 <= i < j < s.len() ==> seq_compare(s[i].0, s[j].0) < 0
}

/// `s` lists the map `m` in name order.
pub open spec fn lists<W>(s: Seq<(Seq<char>, W)>, m: Map<Seq<char>, W>) -> bool {
    &&& keys_sorted(s)
    &&& forall|i: int| 0 <= i < s.len() ==> #[trigger] m.contains_key(s[i].0) && m[s[i].0] == s[i].1
    &&& forall|k: Seq<char>| #[trigger] m.contains_key(k) ==> exists|i: int| 0 <= i < s.len() && s[i].0 == k
}

/// The map a list of pairs describes (a later pair replaces an earlier one).
pub open spec fn pairs_map<W>(s: Seq<(Seq<char>, W)>) -> Map<Seq<char>, W>
    decreases s.len(),
{
    if s.len() == 0 {
        Map::empty()
    } else {
        pairs_map(s.drop_last()).insert(s.last().0, s.last().1)
    }
}

/// A sorted list lists the map it describes.
pub proof fn lemma_sorted_lists<W>(s: Seq<(Seq<char>, W)>)
    requires
        keys_sorted(s),
    ensures
        lists(s, pairs_map(s)),
    decreases s.len(),
{
    if s.len() > 0 {
        let d = s.drop_last();
        assert(keys_sorted(d));
        lemma_sorted_lists(d);
        let m = pairs_map(s);
        assert forall|i: int| 0 <= i < s.len() implies #[trigger] m.contains_key(s[i].0) && m[s[i].0] == s[i].1 by {
            if i < s.len() - 1 {
                assert(s[i] == d[i]);
                assert(pairs_map(d).contains_key(d[i].0));
                assert(seq_compare(s[i].0, s.last().0) < 0);
                if s[i].0 == s.last().0 {
                    lemma_compare_refl(s.last().0);
                }
            }
        }
        assert forall|k: Seq<char>| #[trigger] m.contains_key(k) implies exists|i: int| 0 <= i < s.len() && s[i].0 == k by {
            if k != s.last().0 {
                assert(pairs_map(d).contains_key(k));
                let i = choose|i: int| 0 <= i < d.len() && d[i].0 == k;
                assert(s[i] == d[i]);
            } else {
                assert(s[s.len() - 1].0 == k);
            }
        }
    }
}

/// Two sorted lists of the same map are the same list.
pub proof fn lemma_lists_unique<W>(s: Seq<(Seq<char>, W)>, t: Seq<(Seq<char>, W)>, m: Map<Seq<char>, W>)
    requires
        lists(s, m),
        lists(t, m),
    ensures
        s == t,
    decreases s.len(),
{
    lemma_lists_index(s, t, m);
    assert(s =~= t);
}

proof fn lemma_lists_index<W>(s: Seq<(Seq<char>, W)>, t: Seq<(Seq<char>, W)>, m: Map<Seq<char>, W>)
    requires
        lists(s, m),
        lists(t, m),
    ensures
        s.len() == t.len(),
        forall|i: int| 0 <= i < s.len() ==> s[i] == t[i],
    decreases s.len() + t.len(),
{
    if s.len() == 0 {
        if t.len() > 0 {
            assert(m.contains_key(t[0].0));
        }
    } else if t.len() == 0 {
        assert(m.contains_key(s[0].0));
    } else {
        // The last entries hold the largest key of the map.
        let ks = s.last().0;
        let kt = t.last().0;
        assert(m.contains_key(ks));
        assert(m.contains_key(kt));
        let js = choose|j: int| 0 <= j < t.len() && t[j].0 == ks;
        let it = choose|i: int| 0 <= i < s.len() && s[i].0 == kt;
        if js < t.len() - 1 {
            assert(seq_compare(t[js].0, kt) < 0);
            if it < s.len() - 1 {
                assert(seq_compare(s[it].0, ks) < 0);
                lemma_compare_antisym(ks, kt);
            } else {
                lemma_compare_refl(ks);
            }
        }
        if it < s.len() - 1 {
            assert(seq_compare(s[it].0, ks) < 0);
            lemma_compare_refl(kt);
        }
        assert(ks == kt);
        let m2 = m.remove(ks);
        let sd = s.drop_last();
        let td = t.drop_last();
        assert forall|i: int| 0 <= i < sd.len() implies #[trigger] m2.contains_key(sd[i].0) && m2[sd[i].0] == sd[i].1 by {
            assert(s[i] == sd[i]);
            assert(m.contains_key(s[i].0));
            assert(seq_compare(s[i].0, ks) < 0);
            if s[i].0 == ks {
                lemma_compare_refl(ks);
            }
        }
        assert forall|k: Seq<char>| #[trigger] m2.contains_key(k) implies exists|i: int| 0 <= i < sd.len() && sd[i].0 == k by {
            assert(m.contains_key(k));
            let i = choose|i: int| 0 <= i < s.len() && s[i].0 == k;
            assert(i != s.len() - 1);
            assert(sd[i] == s[i]);
        }
        assert forall|i: int| 0 <= i < td.len() implies #[trigger] m2.contains_key(td[i].0) && m2[td[i].0] == td[i].1 by {
            assert(t[i] == td[i]);
            assert(m.contains_key(t[i].0));
            assert(seq_compare(t[i].0, kt) < 0);
            if t[i].0 == kt {
                lemma_compare_refl(kt);
            }
        }
        assert forall|k: Seq<char>| #[trigger] m2.contains_key(k) implies exists|i: int| 0 <= i < td.len() && td[i].0 == k by {
            assert(m.contains_key(k));
            let i = choose|i: int| 0 <= i < t.len() && t[i].0 == k;
            assert(i != t.len() - 1);
            assert(td[i] == t[i]);
        }
        assert(keys_sorted(sd));
        assert(keys_sorted(td));
        lemma_lists_index(sd, td, m2);
        assert forall|i: int| 0 <= i < s.len() implies s[i] == t[i] by {
            if i < s.len() - 1 {
                assert(s[i] == sd[i] && t[i] == td[i]);
            } else {
                assert(m[ks] == s.last().1);
                assert(m[kt] == t.last().1);
            }
        }
    }
}

proof fn lemma_pairs_insert<V: View>(v: Seq<(String, V)>, p: int, x: (String, V))
    requires
        0 <= p <= v.len(),
    ensures
        pairs_view(v.insert(p, x)) == pairs_view(v).insert(p, (x.0@, x.1@)),
{
    assert(pairs_view(v.insert(p, x)) =~= pairs_view(v).insert(p, (x.0@, x.1@)));
}

proof fn lemma_pairs_update<V: View>(v: Seq<(String, V)>, p: int, x: (String, V))
    requires
        0 <= p < v.len(),
    ensures
        pairs_view(v.update(p, x)) == pairs_view(v).update(p, (x.0@, x.1@)),
{
    assert(pairs_view(v.update(p, x)) =~= pairs_view(v).update(p, (x.0@, x.1@)));
}

proof fn lemma_pairs_remove<V: View>(v: Seq<(String, V)>, p: int)
    requires
        0 <= p < v.len(),
    ensures
        pairs_view(v.remove(p)) == pairs_view(v).remove(p),
{
    assert(pairs_view(v.remove(p)) =~= pairs_view(v).remove(p));
}

/// The position where `key` is or would go: the first entry whose name is
/// not smaller.
fn lower_bound<V: View>(v: &Vec<(String, V)>, key: &str) -> (r: usize)
    requires
        keys_sorted(pairs_view(v@)),
    ensures
        r <= v@.len(),
        forall|j: int| 0 <= j < r ==> seq_compare(pairs_view(v@)[j].0, key@) < 0,
        r < v@.len() ==> seq_compare(pairs_view(v@)[r as int].0, key@) >= 0,
{
    let ghost s = pairs_view(v@);
    let mut i: usize = 0;
    while i < v.len() && compare_str(v[i].0.as_str(), key) < 0
        invariant
            i <= v@.len(),
            s == pairs_view(v@),
            forall|j: int| 0 <= j < i ==> seq_compare(s[j].0, key@) < 0,
        decreases v@.len() - i,
    {
        assert(s[i as int] == (v@[i as int].0@, v@[i as int].1@));
        i = i + 1;
    }
    if i < v.len() {
        assert(s[i as int] == (v@[i as int].0@, v@[i as int].1@));
    }
    i
}

/// The value stored under `key`.
pub fn get_named<'a, V: View>(v: &'a Vec<(String, V)>, key: &str, Ghost(m): Ghost<Map<Seq<char>, V::V>>) -> (r: Option<&'a V>)
    requires
        lists(pairs_view(v@), m),
    ensures
        match r {
            Some(x) => m.contains_key(key@) && x@ == m[key@],
            None => !m.contains_key(key@),
        },
{
    let ghost s = pairs_view(v@);
    let i = lower_bound(v, key);
    if i < v.len() && compare_str(v[i].0.as_str(), key) == 0 {
        proof {
            lemma_compare_zero_eq(s[i as int].0, key@);
        }
        assert(s[i as int] == (v@[i as int].0@, v@[i as int].1@));
        Some(&v[i].1)
    } else {
        proof {
            if m.contains_key(key@) {
                let j = choose|j: int| 0 <= j < s.len() && s[j].0 == key@;
                lemma_compare_refl(key@);
                if j >= i {
                    if j > i {
                        assert(seq_compare(s[i as int].0, s[j].0) < 0);
                        lemma_compare_trans(key@, s[i as int].0, s[j].0);
                        lemma_compare_antisym(s[i as int].0, key@);
                    }
                }
            }
        }
        None
    }
}

/// Stores `value` under `key`, replacing what was there.
pub fn put_named<V: View>(out: &mut Vec<(String, V)>, key: String, value: V, Ghost(m): Ghost<Map<Seq<char>, V::V>>)
    requires
        lists(pairs_view(old(out)@), m),
    ensures
        lists(pairs_view(final(out)@), m.insert(key@, value@)),
{
    let ghost s = pairs_view(out@);
    let ghost ev = (key@, value@);
    let i = lower_bound(out, key.as_str());
    let ghost m2 = m.insert(ev.0, ev.1);
    if i < out.len() && compare_str(out[i].0.as_str(), key.as_str()) == 0 {
        proof {
            lemma_compare_zero_eq(s[i as int].0, ev.0);
        }
        let ghost e = (key, value);
        out.set(i, (key, value));
        proof {
            lemma_pairs_update(old(out)@, i as int, e);
            let r = pairs_view(out@);
            assert(r == s.update(i as int, ev));
            assert forall|a: int, b: int| 0 <= a < b < r.len() implies seq_compare(r[a].0, r[b].0) < 0 by {
                assert(seq_compare(s[a].0, s[b].0) < 0);
            }
            assert forall|k: Seq<char>| #[trigger] m2.contains_key(k) implies exists|j: int| 0 <= j < r.len() && r[j].0 == k by {
                if k == ev.0 {
                    assert(r[i as int].0 == k);
                } else {
                    assert(m.contains_key(k));
                    let j = choose|j: int| 0 <= j < s.len() && s[j].0 == k;
                    assert(r[j].0 == k);
                }
            }
            assert forall|j: int| 0 <= j < r.len() implies #[trigger] m2.contains_key(r[j].0) && m2[r[j].0] == r[j].1 by {
                if j != i {
                    assert(m.contains_key(s[j].0));
                    if s[j].0 == ev.0 {
                        lemma_compare_refl(ev.0);
                        if j < i {
                            assert(seq_compare(s[j].0, s[i as int].0) < 0);
                        } else {
                            assert(seq_compare(s[i as int].0, s[j].0) < 0);
                        }
                    }
                }
            }
        }
    } else {
        proof {
            if i < out.len() {
                lemma_compare_antisym(s[i as int].0, ev.0);
            }
        }
        let ghost e = (key, value);
        out.insert(i, (key, value));
        proof {
            lemma_pairs_insert(old(out)@, i as int, e);
            let r = pairs_view(out@);
            assert(r == s.insert(i as int, ev));
            assert forall|a: int, b: int| 0 <= a < b < r.len() implies seq_compare(r[a].0, r[b].0) < 0 by {
                if a < i && b == i {
                } else if a < i && b > i {
                    assert(r[a] == s[a] && r[b] == s[b - 1]);
                    if (b - 1) as int > a {
                        assert(seq_compare(s[a].0, s[b - 1].0) < 0);
                    }
                } else if a == i {
                    assert(r[b] == s[b - 1]);
                    if b - 1 > i {
                        assert(seq_compare(s[i as int].0, s[b - 1].0) < 0);
                        lemma_compare_trans(ev.0, s[i as int].0, s[b - 1].0);
                    }
                } else if a > i {
                    assert(r[a] == s[a - 1] && r[b] == s[b - 1]);
                } else {
                    assert(r[a] == s[a] && r[b] == s[b]);
                }
            }
            assert forall|k: Seq<char>| #[trigger] m2.contains_key(k) implies exists|j: int| 0 <= j < r.len() && r[j].0 == k by {
                if k == ev.0 {
                    assert(r[i as int].0 == k);
                } else {
                    assert(m.contains_key(k));
                    let j = choose|j: int| 0 <= j < s.len() && s[j].0 == k;
                    if j < i {
                        assert(r[j].0 == k);
                    } else {
                        assert(r[j + 1].0 == k);
                    }
                }
            }
            assert forall|j: int| 0 <= j < r.len() implies #[trigger] m2.contains_key(r[j].0) && m2[r[j].0] == r[j].1 by {
                if j < i {
                    assert(r[j] == s[j]);
                    assert(m.contains_key(s[j].0));
                    if s[j].0 == ev.0 {
                        lemma_compare_refl(ev.0);
                    }
                } else if j > i {
                    assert(r[j] == s[j - 1]);
                    assert(m.contains_key(s[j - 1].0));
                    if s[j - 1].0 == ev.0 {
                        lemma_compare_refl(ev.0);
                        lemma_compare_antisym(ev.0, ev.0);
                        if j - 1 > i {
                            assert(seq_compare(s[i as int].0, s[j - 1].0) < 0);
                            lemma_compare_trans(ev.0, s[i as int].0, s[j - 1].0);
                        }
                    }
                }
            }
        }
    }
}

/// Removes the entry stored under `key`, returning its value.
pub fn remove_named<V: View>(out: &mut Vec<(String, V)>, key: &str, Ghost(m): Ghost<Map<Seq<char>, V::V>>) -> (r: Option<V>)
    requires
        lists(pairs_view(old(out)@), m),
    ensures
        lists(pairs_view(final(out)@), m.remove(key@)),
        match r {
            Some(x) => m.contains_key(key@) && x@ == m[key@],
            None => !m.contains_key(key@) && final(out)@ == old(out)@,
        },
{
    let ghost s = pairs_view(out@);
    let i = lower_bound(out, key);
    if i < out.len() && compare_str(out[i].0.as_str(), key) == 0 {
        proof {
            lemma_compare_zero_eq(s[i as int].0, key@);
        }
        let ghost before = out@;
        let (_, value) = out.remove(i);
        proof {
            lemma_pairs_remove(before, i as int);
            let r = pairs_view(out@);
            let m2 = m.remove(key@);
            assert(r == s.remove(i as int));
            assert forall|a: int, b: int| 0 <= a < b < r.len() implies seq_compare(r[a].0, r[b].0) < 0 by {
                if b < i {
                    assert(r[a] == s[a] && r[b] == s[b]);
                } else if a < i {
                    assert(r[a] == s[a] && r[b] == s[b + 1]);
                } else {
                    assert(r[a] == s[a + 1] && r[b] == s[b + 1]);
                }
            }
            assert forall|j: int| 0 <= j < r.len() implies #[trigger] m2.contains_key(r[j].0) && m2[r[j].0] == r[j].1 by {
                let jj = if j < i { j } else { j + 1 };
                assert(r[j] == s[jj]);
                assert(m.contains_key(s[jj].0));
                if s[jj].0 == key@ {
                    lemma_compare_refl(key@);
                    if jj < i {
                        assert(seq_compare(s[jj].0, s[i as int].0) < 0);
                    } else {
                        assert(seq_compare(s[i as int].0, s[jj].0) < 0);
                    }
                }
            }
            assert forall|k: Seq<char>| #[trigger] m2.contains_key(k) implies exists|j: int| 0 <= j < r.len() && r[j].0 == k by {
                assert(m.contains_key(k));
                let j = choose|j: int| 0 <= j < s.len() && s[j].0 == k;
                assert(j != i);
                if j < i {
                    assert(r[j].0 == k);
                } else {
                    assert(r[j - 1].0 == k);
                }
            }
            assert(s[i as int] == (before[i as int].0@, before[i as int].1@));
            assert(m.contains_key(s[i as int].0));
        }
        Some(value)
    } else {
        proof {
            if m.contains_key(key@) {
                let j = choose|j: int| 0 <= j < s.len() && s[j].0 == key@;
                lemma_compare_refl(key@);
                if j > i {
                    assert(seq_compare(s[i as int].0, s[j].0) < 0);
                    lemma_compare_trans(key@, s[i as int].0, s[j].0);
                    lemma_compare_antisym(s[i as int].0, key@);
                }
            }
            assert(m.remove(key@) =~= m);
        }
        None
    }
}

/// Whether an entry is stored under `key`.
pub fn has_named<V: View>(v: &Vec<(String, V)>, key: &str, Ghost(m): Ghost<Map<Seq<char>, V::V>>) -> (r: bool)
    requires
        lists(pairs_view(v@), m),
    ensures
        r == m.contains_key(key@),
{
    get_named(v, key, Ghost(m)).is_some()
}

/// The listing of a map in name order.
pub open spec fn listing<W>(m: Map<Seq<char>, W>) -> Seq<(Seq<char>, W)> {
    choose|s: Seq<(Seq<char>, W)>| lists(s, m)
}

/// A list in name order of a map is its listing.
pub proof fn lemma_listing<W>(s: Seq<(Seq<char>, W)>, m: Map<Seq<char>, W>)
    requires
        lists(s, m),
    ensures
        listing(m) == s,
{
    let l = listing(m);
    assert(lists(l, m));
    lemma_lists_unique(l, s, m);
}

/// A list in name order lists one map only.
pub proof fn lemma_lists_same_map<W>(s: Seq<(Seq<char>, W)>, m1: Map<Seq<char>, W>, m2: Map<Seq<char>, W>)
    requires
        lists(s, m1),
        lists(s, m2),
    ensures
        m1 == m2,
{
    assert forall|k: Seq<char>| m1.contains_key(k) <==> m2.contains_key(k) by {
        if m1.contains_key(k) {
            let i = choose|i: int| 0 <= i < s.len() && s[i].0 == k;
            assert(m2.contains_key(s[i].0));
        }
        if m2.contains_key(k) {
            let i = choose|i: int| 0 <= i < s.len() && s[i].0 == k;
            assert(m1.contains_key(s[i].0));
        }
    }
    assert forall|k: Seq<char>| m1.contains_key(k) implies m1[k] == m2[k] by {
        let i = choose|i: int| 0 <= i < s.len() && s[i].0 == k;
        assert(m1.contains_key(s[i].0));
        assert(m2.contains_key(s[i].0));
    }
    assert(m1 =~= m2);
}

/// The map a list in name order describes is the map it lists.
pub proof fn lemma_lists_pairs_map<W>(s: Seq<(Seq<char>, W)>, m: Map<Seq<char>, W>)
    requires
        lists(s, m),
    ensures
        pairs_map(s) == m,
{
    lemma_sorted_lists(s);
    lemma_lists_same_map(s, pairs_map(s), m);
}

} // verus!
