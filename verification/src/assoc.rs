//! Association sequences: the mathematical model shared by the containers
//! that store key/value pairs in insertion order with unique keys.

use vstd::prelude::*;

verus! {

/// The map described by a sequence of key/value pairs; a later pair wins.
pub open spec fn map_of<K, V>(s: Seq<(K, V)>) -> Map<K, V>
    decreases s.len(),
{
    if s.len() == 0 {
        Map::empty()
    } else {
        map_of(s.drop_last()).insert(s.last().0, s.last().1)
    }
}

/// No key occurs twice in the sequence.
pub open spec fn unique_keys<K, V>(s: Seq<(K, V)>) -> bool {
    forall|i: int, j: int| 0 <= i < j < s.len() ==> (#[trigger] s[i]).0 != (#[trigger] s[j]).0
}

/// A key is in the map exactly when some pair carries it.
pub proof fn lemma_map_of_dom<K, V>(s: Seq<(K, V)>)
    ensures
        forall|k: K|
            map_of(s).dom().contains(k) <==> exists|i: int| 0 <= i < s.len() && (#[trigger] s[i]).0
                == k,
    decreases s.len(),
{
    if s.len() > 0 {
        lemma_map_of_dom(s.drop_last());
        assert forall|k: K|
            map_of(s).dom().contains(k) <==> exists|i: int|
                0 <= i < s.len() && (#[trigger] s[i]).0 == k by {
            if map_of(s).dom().contains(k) {
                if k == s.last().0 {
                    assert(s[s.len() - 1].0 == k);
                } else {
                    assert(map_of(s.drop_last()).dom().contains(k));
                    let i = choose|i: int|
                        0 <= i < s.drop_last().len() && (#[trigger] s.drop_last()[i]).0 == k;
                    assert(s.drop_last()[i] == s[i]);
                    assert(s[i].0 == k);
                }
            }
            if exists|i: int| 0 <= i < s.len() && (#[trigger] s[i]).0 == k {
                let i = choose|i: int| 0 <= i < s.len() && (#[trigger] s[i]).0 == k;
                if i < s.len() - 1 {
                    assert(0 <= i < s.drop_last().len() && s.drop_last()[i].0 == k);
                    assert(map_of(s.drop_last()).dom().contains(k));
                    assert(map_of(s).dom().contains(k));
                } else {
                    assert(k == s.last().0);
                    assert(map_of(s).dom().contains(k));
                }
            }
        }
    }
}

/// With unique keys, each pair's key maps to that pair's value.
pub proof fn lemma_map_of_index<K, V>(s: Seq<(K, V)>, i: int)
    requires
        unique_keys(s),
        0 <= i < s.len(),
    ensures
        map_of(s).dom().contains(s[i].0),
        map_of(s)[s[i].0] == s[i].1,
    decreases s.len(),
{
    lemma_map_of_dom(s);
    if i < s.len() - 1 {
        assert(unique_keys(s.drop_last())) by {
            assert forall|a: int, b: int| 0 <= a < b < s.drop_last().len() implies (#[trigger] s.drop_last()[a]).0
                != (#[trigger] s.drop_last()[b]).0 by {
                assert(s[a] == s.drop_last()[a]);
                assert(s[b] == s.drop_last()[b]);
            }
        }
        lemma_map_of_index(s.drop_last(), i);
        assert(s[i] == s.drop_last()[i]);
        assert(s[i].0 != s.last().0);
    }
}

/// Replacing the pair at a key's position updates the map at that key.
pub proof fn lemma_map_of_update<K, V>(s: Seq<(K, V)>, i: int, k: K, v: V)
    requires
        unique_keys(s),
        0 <= i < s.len(),
        s[i].0 == k,
    ensures
        unique_keys(s.update(i, (k, v))),
        map_of(s.update(i, (k, v))) == map_of(s).insert(k, v),
    decreases s.len(),
{
    let t = s.update(i, (k, v));
    assert forall|a: int, b: int| 0 <= a < b < t.len() implies (#[trigger] t[a]).0 != (#[trigger] t[b]).0 by {
        assert(s[a].0 != s[b].0);
    }
    if i == s.len() - 1 {
        assert(t.drop_last() =~= s.drop_last());
        assert(map_of(t) =~= map_of(s).insert(k, v));
    } else {
        assert(unique_keys(s.drop_last())) by {
            assert forall|a: int, b: int| 0 <= a < b < s.drop_last().len() implies (#[trigger] s.drop_last()[a]).0
                != (#[trigger] s.drop_last()[b]).0 by {
                assert(s[a] == s.drop_last()[a]);
                assert(s[b] == s.drop_last()[b]);
            }
        }
        assert(t.drop_last() =~= s.drop_last().update(i, (k, v)));
        lemma_map_of_update(s.drop_last(), i, k, v);
        assert(s[i] == s.drop_last()[i]);
        assert(s.last().0 != k);
        assert(t.last() == s.last());
        assert(map_of(t) =~= map_of(s).insert(k, v));
    }
}

/// Removing the pair at a key's position removes that key from the map.
pub proof fn lemma_map_of_remove<K, V>(s: Seq<(K, V)>, i: int)
    requires
        unique_keys(s),
        0 <= i < s.len(),
    ensures
        unique_keys(s.remove(i)),
        map_of(s.remove(i)) == map_of(s).remove(s[i].0),
    decreases s.len(),
{
    let t = s.remove(i);
    assert forall|a: int, b: int| 0 <= a < b < t.len() implies (#[trigger] t[a]).0 != (#[trigger] t[b]).0 by {
        let sa: int = if a < i { a } else { a + 1 };
        let sb: int = if b < i { b } else { b + 1 };
        assert(t[a] == s[sa]);
        assert(t[b] == s[sb]);
        assert(s[sa].0 != s[sb].0);
    }
    assert(unique_keys(s.drop_last())) by {
        assert forall|a: int, b: int| 0 <= a < b < s.drop_last().len() implies (#[trigger] s.drop_last()[a]).0
            != (#[trigger] s.drop_last()[b]).0 by {
            assert(s[a] == s.drop_last()[a]);
            assert(s[b] == s.drop_last()[b]);
        }
    }
    lemma_map_of_dom(s.drop_last());
    if i == s.len() - 1 {
        assert(t =~= s.drop_last());
        assert(!map_of(s.drop_last()).dom().contains(s[i].0)) by {
            if map_of(s.drop_last()).dom().contains(s[i].0) {
                let j = choose|j: int|
                    0 <= j < s.drop_last().len() && (#[trigger] s.drop_last()[j]).0 == s[i].0;
                assert(s[j] == s.drop_last()[j]);
            }
        }
        assert(map_of(t) =~= map_of(s).remove(s[i].0));
    } else {
        lemma_map_of_remove(s.drop_last(), i);
        assert(s[i] == s.drop_last()[i]);
        assert(t.drop_last() =~= s.drop_last().remove(i));
        assert(t.last() == s.last());
        assert(s.last().0 != s[i].0);
        assert(map_of(t) =~= map_of(s).remove(s[i].0));
    }
}

/// Appending a pair with a fresh key inserts it into the map.
pub proof fn lemma_map_of_push<K, V>(s: Seq<(K, V)>, k: K, v: V)
    requires
        unique_keys(s),
        forall|i: int| 0 <= i < s.len() ==> (#[trigger] s[i]).0 != k,
    ensures
        unique_keys(s.push((k, v))),
        map_of(s.push((k, v))) == map_of(s).insert(k, v),
{
    let t = s.push((k, v));
    assert forall|a: int, b: int| 0 <= a < b < t.len() implies (#[trigger] t[a]).0 != (#[trigger] t[b]).0 by {
        if b < t.len() - 1 {
            assert(t[a] == s[a]);
            assert(t[b] == s[b]);
        } else {
            assert(t[a] == s[a]);
        }
    }
    assert(t.drop_last() =~= s);
}

/// The sequence with the first occurrence of one value taken out.
pub open spec fn remove_first<T>(s: Seq<T>, x: T) -> Seq<T>
    decreases s.len(),
{
    if s.len() == 0 {
        s
    } else if s[0] == x {
        s.drop_first()
    } else {
        seq![s[0]] + remove_first(s.drop_first(), x)
    }
}

/// Removing the element at the first position where a value occurs is
/// removing its first occurrence.
pub proof fn lemma_remove_first<T>(s: Seq<T>, x: T, i: int)
    requires
        0 <= i < s.len(),
        s[i] == x,
        forall|j: int| 0 <= j < i ==> s[j] != x,
    ensures
        remove_first(s, x) == s.remove(i),
    decreases s.len(),
{
    if i == 0 {
        assert(remove_first(s, x) =~= s.remove(0));
    } else {
        lemma_remove_first(s.drop_first(), x, i - 1);
        assert(remove_first(s, x) =~= s.remove(i));
    }
}

/// A value that occurs nowhere leaves the sequence unchanged when its first
/// occurrence is removed.
pub proof fn lemma_remove_first_absent<T>(s: Seq<T>, x: T)
    requires
        forall|j: int| 0 <= j < s.len() ==> s[j] != x,
    ensures
        remove_first(s, x) == s,
    decreases s.len(),
{
    if s.len() > 0 {
        lemma_remove_first_absent(s.drop_first(), x);
        assert(remove_first(s, x) =~= s);
    }
}

/// All the sequences joined, in order.
pub open spec fn concat_all<T>(s: Seq<Seq<T>>) -> Seq<T>
    decreases s.len(),
{
    if s.len() == 0 {
        Seq::empty()
    } else {
        concat_all(s.drop_last()) + s.last()
    }
}

/// A value is in the joined sequence exactly when it is in one of the parts.
pub proof fn lemma_concat_all_membership<T>(s: Seq<Seq<T>>)
    ensures
        forall|x: T|
            concat_all(s).contains(x) <==> exists|i: int|
                0 <= i < s.len() && (#[trigger] s[i]).contains(x),
    decreases s.len(),
{
    if s.len() > 0 {
        lemma_concat_all_membership(s.drop_last());
        assert forall|x: T|
            concat_all(s).contains(x) <==> exists|i: int|
                0 <= i < s.len() && (#[trigger] s[i]).contains(x) by {
            if concat_all(s).contains(x) {
                if s.last().contains(x) {
                    assert(s[s.len() - 1].contains(x));
                } else {
                    assert(concat_all(s.drop_last()).contains(x));
                    let i = choose|i: int|
                        0 <= i < s.drop_last().len() && (#[trigger] s.drop_last()[i]).contains(x);
                    assert(s[i].contains(x));
                }
            }
            if exists|i: int| 0 <= i < s.len() && (#[trigger] s[i]).contains(x) {
                let i = choose|i: int| 0 <= i < s.len() && (#[trigger] s[i]).contains(x);
                if i < s.len() - 1 {
                    assert(s.drop_last()[i].contains(x));
                    assert(concat_all(s.drop_last()).contains(x));
                    let j = choose|j: int|
                        0 <= j < concat_all(s.drop_last()).len() && concat_all(s.drop_last())[j]
                            == x;
                    assert(concat_all(s)[j] == x);
                } else {
                    let j = choose|j: int| 0 <= j < s.last().len() && s.last()[j] == x;
                    assert(concat_all(s)[concat_all(s.drop_last()).len() + j] == x);
                }
            }
        }
    }
}

/// Joining parts that hold no repeats, no two of which share a value, yields
/// a sequence that holds no repeats.
pub proof fn lemma_concat_all_no_duplicates<T>(s: Seq<Seq<T>>)
    requires
        forall|i: int| 0 <= i < s.len() ==> (#[trigger] s[i]).no_duplicates(),
        forall|i: int, j: int, x: T|
            #![trigger s[i].contains(x), s[j].contains(x)]
            0 <= i < j < s.len() ==> !(s[i].contains(x) && s[j].contains(x)),
    ensures
        concat_all(s).no_duplicates(),
    decreases s.len(),
{
    if s.len() > 0 {
        assert forall|i: int| 0 <= i < s.drop_last().len() implies (
        #[trigger] s.drop_last()[i]).no_duplicates() by {
            assert(s.drop_last()[i] == s[i]);
        }
        assert forall|i: int, j: int, x: T|
            #![trigger s.drop_last()[i].contains(x), s.drop_last()[j].contains(x)]
            0 <= i < j < s.drop_last().len() implies !(s.drop_last()[i].contains(x)
            && s.drop_last()[j].contains(x)) by {
            assert(s.drop_last()[i] == s[i]);
            assert(s.drop_last()[j] == s[j]);
        }
        lemma_concat_all_no_duplicates(s.drop_last());
        lemma_concat_all_membership(s.drop_last());
        let a = concat_all(s.drop_last());
        let b = s.last();
        assert forall|x: T| a.contains(x) implies !b.contains(x) by {
            let i = choose|i: int|
                0 <= i < s.drop_last().len() && (#[trigger] s.drop_last()[i]).contains(x);
            assert(s[i].contains(x));
            assert(s[s.len() - 1] == b);
        }
        assert forall|p: int, q: int| 0 <= p < q < concat_all(s).len() implies concat_all(s)[p]
            != concat_all(s)[q] by {
            if q < a.len() {
                assert(a[p] != a[q]);
            } else if p >= a.len() {
                assert(b[p - a.len()] != b[q - a.len()]);
            } else {
                assert(a.contains(a[p]));
                assert(concat_all(s)[q] == b[q - a.len()]);
                assert(b.contains(b[q - a.len()]));
            }
        }
    }
}

} // verus!
