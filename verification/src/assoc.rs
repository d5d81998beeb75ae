//! Association lists with text keys, read as finite maps.
//!
//! The store keeps its entries and its schemes in vectors of `(key, value)`
//! pairs in which no key occurs twice. The contracts speak of the map that
//! such a list stands for; the lemmas here connect the two.

use vstd::prelude::*;

verus! {

/// No key occurs at two positions.
pub open spec fn distinct_keys<V>(s: Seq<(Seq<char>, V)>) -> bool {
    forall|i: int, j: int| 0 <= i < j < s.len() ==> (#[trigger] s[i]).0 != (#[trigger] s[j]).0
}

/// The key occurs at some position.
pub open spec fn has_key<V>(s: Seq<(Seq<char>, V)>, k: Seq<char>) -> bool {
    exists|i: int| 0 <= i < s.len() && (#[trigger] s[i]).0 == k
}

/// A position at which the key occurs, where there is one.
pub open spec fn position_of<V>(s: Seq<(Seq<char>, V)>, k: Seq<char>) -> int {
    choose|i: int| 0 <= i < s.len() && (#[trigger] s[i]).0 == k
}

/// The finite map that the list stands for.
pub open spec fn assoc_map<V>(s: Seq<(Seq<char>, V)>) -> Map<Seq<char>, V> {
    Map::new(|k: Seq<char>| has_key(s, k), |k: Seq<char>| s[position_of(s, k)].1)
}

/// The list after the key is bound to the value: the pair of an old key is
/// replaced where it stands, the pair of a new key comes last.
pub open spec fn assoc_put<V>(s: Seq<(Seq<char>, V)>, k: Seq<char>, v: V) -> Seq<(Seq<char>, V)> {
    if has_key(s, k) {
        s.update(position_of(s, k), (k, v))
    } else {
        s.push((k, v))
    }
}

/// The list after the key is taken out: its pair is removed where it stood,
/// and the pairs behind it move up.
pub open spec fn assoc_take<V>(s: Seq<(Seq<char>, V)>, k: Seq<char>) -> Seq<(Seq<char>, V)> {
    if has_key(s, k) {
        s.remove(position_of(s, k))
    } else {
        s
    }
}

/// With distinct keys, the pair at position `i` is the map's binding for its key.
pub proof fn lemma_assoc_at<V>(s: Seq<(Seq<char>, V)>, i: int)
    requires
        distinct_keys(s),
        0 <= i < s.len(),
    ensures
        assoc_map(s).dom().contains(s[i].0),
        assoc_map(s)[s[i].0] == s[i].1,
        position_of(s, s[i].0) == i,
{
    let k = s[i].0;
    assert(has_key(s, k));
    let p = position_of(s, k);
    assert(0 <= p < s.len() && s[p].0 == k);
    if p < i {
        assert(s[p].0 != s[i].0);
    } else if i < p {
        assert(s[i].0 != s[p].0);
    }
}

/// A key that occurs nowhere is outside the map's domain.
pub proof fn lemma_assoc_absent<V>(s: Seq<(Seq<char>, V)>, k: Seq<char>)
    requires
        forall|i: int| 0 <= i < s.len() ==> (#[trigger] s[i]).0 != k,
    ensures
        !assoc_map(s).dom().contains(k),
{
}

/// Appending a pair under a new key inserts it into the map.
pub proof fn lemma_assoc_push<V>(s: Seq<(Seq<char>, V)>, k: Seq<char>, v: V)
    requires
        distinct_keys(s),
        !has_key(s, k),
    ensures
        distinct_keys(s.push((k, v))),
        assoc_map(s.push((k, v))) == assoc_map(s).insert(k, v),
{
    let t = s.push((k, v));
    assert(distinct_keys(t)) by {
        assert forall|i: int, j: int| 0 <= i < j < t.len() implies (#[trigger] t[i]).0 != (
        #[trigger] t[j]).0 by {
            if j < s.len() {
                assert(s[i].0 != s[j].0);
            } else {
                assert(t[i] == s[i]);
            }
        }
    }
    assert forall|q: Seq<char>| #[trigger] assoc_map(t).dom().contains(q) <==> assoc_map(s).insert(k, v).dom().contains(q) by {
        if has_key(t, q) {
            let p = position_of(t, q);
            if p < s.len() {
                assert(s[p].0 == q);
            }
        }
        if has_key(s, q) {
            let p = position_of(s, q);
            assert(t[p].0 == q);
        }
        if q == k {
            assert(t[s.len() as int].0 == q);
        }
    }
    assert forall|q: Seq<char>| assoc_map(t).dom().contains(q) implies #[trigger] assoc_map(t)[q] == assoc_map(s).insert(k, v)[q] by {
        let p = position_of(t, q);
        lemma_assoc_at(t, p);
        if p < s.len() {
            assert(s[p] == t[p]);
            lemma_assoc_at(s, p);
        }
    }
    assert(assoc_map(t) =~= assoc_map(s).insert(k, v));
}

/// Replacing the value at position `i` rebinds that key in the map.
pub proof fn lemma_assoc_update<V>(s: Seq<(Seq<char>, V)>, i: int, v: V)
    requires
        distinct_keys(s),
        0 <= i < s.len(),
    ensures
        distinct_keys(s.update(i, (s[i].0, v))),
        assoc_map(s.update(i, (s[i].0, v))) == assoc_map(s).insert(s[i].0, v),
{
    let k = s[i].0;
    let t = s.update(i, (k, v));
    assert forall|a: int, b: int| 0 <= a < b < t.len() implies (#[trigger] t[a]).0 != (
    #[trigger] t[b]).0 by {
        assert(t[a].0 == s[a].0);
        assert(t[b].0 == s[b].0);
    }
    assert forall|q: Seq<char>| #[trigger] assoc_map(t).dom().contains(q) <==> assoc_map(s).insert(k, v).dom().contains(q) by {
        if has_key(t, q) {
            let p = position_of(t, q);
            assert(s[p].0 == q);
        }
        if has_key(s, q) {
            let p = position_of(s, q);
            assert(t[p].0 == q);
        }
        if q == k {
            assert(t[i].0 == q);
        }
    }
    assert forall|q: Seq<char>| assoc_map(t).dom().contains(q) implies #[trigger] assoc_map(t)[q] == assoc_map(s).insert(k, v)[q] by {
        let p = position_of(t, q);
        lemma_assoc_at(t, p);
        if p != i {
            assert(s[p] == t[p]);
            lemma_assoc_at(s, p);
        }
    }
    assert(assoc_map(t) =~= assoc_map(s).insert(k, v));
}

/// Taking out the pair at position `i` removes its key from the map.
pub proof fn lemma_assoc_remove<V>(s: Seq<(Seq<char>, V)>, i: int)
    requires
        distinct_keys(s),
        0 <= i < s.len(),
    ensures
        distinct_keys(s.remove(i)),
        assoc_map(s.remove(i)) == assoc_map(s).remove(s[i].0),
{
    let k = s[i].0;
    let t = s.remove(i);
    assert forall|a: int, b: int| 0 <= a < b < t.len() implies (#[trigger] t[a]).0 != (
    #[trigger] t[b]).0 by {
        let a0 = if a < i { a } else { a + 1 };
        let b0 = if b < i { b } else { b + 1 };
        assert(t[a] == s[a0]);
        assert(t[b] == s[b0]);
        assert(s[a0].0 != s[b0].0);
    }
    assert forall|q: Seq<char>| #[trigger] assoc_map(t).dom().contains(q) <==> assoc_map(s).remove(k).dom().contains(q) by {
        if has_key(t, q) {
            let p = position_of(t, q);
            let p0 = if p < i { p } else { p + 1 };
            assert(t[p] == s[p0]);
            assert(s[p0].0 == q);
            if q == k {
                if p0 < i {
                    assert(s[p0].0 != s[i].0);
                } else {
                    assert(s[i].0 != s[p0].0);
                }
            }
        }
        if has_key(s, q) && q != k {
            let p = position_of(s, q);
            let p1 = if p < i { p } else { p - 1 };
            assert(t[p1] == s[p]);
            assert(t[p1].0 == q);
        }
    }
    assert forall|q: Seq<char>| assoc_map(t).dom().contains(q) implies #[trigger] assoc_map(t)[q] == assoc_map(s).remove(k)[q] by {
        let p = position_of(t, q);
        lemma_assoc_at(t, p);
        let p0 = if p < i { p } else { p + 1 };
        assert(t[p] == s[p0]);
        lemma_assoc_at(s, p0);
    }
    assert(assoc_map(t) =~= assoc_map(s).remove(k));
}

} // verus!
