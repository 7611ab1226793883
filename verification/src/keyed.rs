//! Association lists keyed by strings, viewed as finite maps.
//!
//! An entry list with pairwise distinct keys stands for the map from each key
//! to the value stored beside it.
use vstd::prelude::*;
use crate::text::str_eq;

verus! {

/// The mathematical entries of a list of (key, value) pairs.
pub open spec fn entries_view<T: View>(s: Seq<(String, T)>) -> Seq<(Seq<char>, T::V)> {
    s.map_values(|e: (String, T)| (e.0@, e.1@))
}

/// Index of the first entry with key `k`, or -1.
pub open spec fn index_of_key<W>(s: Seq<(Seq<char>, W)>, k: Seq<char>) -> int
    decreases s.len(),
{
    if s.len() == 0 {
        -1
    } else if s[0].0 == k {
        0
    } else {
        let r = index_of_key(s.drop_first(), k);
        if r < 0 { -1 } else { r + 1 }
    }
}

/// No key occurs twice.
pub open spec fn keys_unique<W>(s: Seq<(Seq<char>, W)>) -> bool {
    forall|i: int, j: int| 0 <= i < j < s.len() ==> s[i].0 != s[j].0
}

/// The map that an entry list stands for.
pub open spec fn as_map<W>(s: Seq<(Seq<char>, W)>) -> Map<Seq<char>, W> {
    Map::new(|k: Seq<char>| index_of_key(s, k) >= 0, |k: Seq<char>| s[index_of_key(s, k)].1)
}

/// The entry list after setting the value under `k`: the entry holding `k`
/// is updated in place, or a new entry is appended.
pub open spec fn put<W>(s: Seq<(Seq<char>, W)>, k: Seq<char>, v: W) -> Seq<(Seq<char>, W)> {
    let i = index_of_key(s, k);
    if i >= 0 {
        s.update(i, (k, v))
    } else {
        s.push((k, v))
    }
}

/// The keys of an entry list, in order.
pub open spec fn keys_of<W>(s: Seq<(Seq<char>, W)>) -> Seq<Seq<char>> {
    s.map_values(|e: (Seq<char>, W)| e.0)
}

pub proof fn lemma_index_of_key<W>(s: Seq<(Seq<char>, W)>, k: Seq<char>)
    ensures
        -1 <= index_of_key(s, k) < s.len(),
        index_of_key(s, k) >= 0 ==> s[index_of_key(s, k)].0 == k,
        index_of_key(s, k) >= 0 ==> forall|j: int| 0 <= j < index_of_key(s, k) ==> s[j].0 != k,
        index_of_key(s, k) < 0 ==> forall|j: int| 0 <= j < s.len() ==> s[j].0 != k,
    decreases s.len(),
{
    if s.len() > 0 && s[0].0 != k {
        lemma_index_of_key(s.drop_first(), k);
        assert forall|j: int| 1 <= j < s.len() implies s[j] == s.drop_first()[j - 1] by {}
    }
}

pub proof fn lemma_index_of_key_at<W>(s: Seq<(Seq<char>, W)>, k: Seq<char>, i: int)
    requires
        0 <= i < s.len(),
        s[i].0 == k,
        forall|j: int| 0 <= j < i ==> s[j].0 != k,
    ensures
        index_of_key(s, k) == i,
    decreases i,
{
    if i > 0 {
        lemma_index_of_key_at(s.drop_first(), k, i - 1);
    }
}

/// With unique keys, the entry holding `k` is the one found.
pub proof fn lemma_unique_index<W>(s: Seq<(Seq<char>, W)>, k: Seq<char>, i: int)
    requires
        keys_unique(s),
        0 <= i < s.len(),
        s[i].0 == k,
    ensures
        index_of_key(s, k) == i,
        as_map(s).dom().contains(k),
        as_map(s)[k] == s[i].1,
{
    lemma_index_of_key_at(s, k, i);
}

/// Appending an entry with a new key adds that key to the map.
pub proof fn lemma_push_new<W>(s: Seq<(Seq<char>, W)>, k: Seq<char>, v: W)
    requires
        keys_unique(s),
        !as_map(s).dom().contains(k),
    ensures
        keys_unique(s.push((k, v))),
        as_map(s.push((k, v))) == as_map(s).insert(k, v),
{
    lemma_index_of_key(s, k);
    let t = s.push((k, v));
    assert forall|j: int| 0 <= j < s.len() implies s[j].0 != k by {}
    assert forall|k2: Seq<char>| #[trigger] as_map(t).dom().contains(k2) == as_map(s).insert(k, v).dom().contains(k2)
        && (as_map(t).dom().contains(k2) ==> as_map(t)[k2] == as_map(s).insert(k, v)[k2]) by {
        lemma_index_of_key(s, k2);
        lemma_index_of_key(t, k2);
        if k2 == k {
            lemma_index_of_key_at(t, k, s.len() as int);
        } else if index_of_key(s, k2) >= 0 {
            lemma_index_of_key_at(t, k2, index_of_key(s, k2));
        }
    }
    assert(as_map(t) =~= as_map(s).insert(k, v));
}

/// Replacing the value of an existing entry updates that key in the map.
pub proof fn lemma_update_value<W>(s: Seq<(Seq<char>, W)>, i: int, v: W)
    requires
        keys_unique(s),
        0 <= i < s.len(),
    ensures
        keys_unique(s.update(i, (s[i].0, v))),
        as_map(s.update(i, (s[i].0, v))) == as_map(s).insert(s[i].0, v),
{
    let k = s[i].0;
    let t = s.update(i, (k, v));
    assert forall|k2: Seq<char>| #[trigger] as_map(t).dom().contains(k2) == as_map(s).insert(k, v).dom().contains(k2)
        && (as_map(t).dom().contains(k2) ==> as_map(t)[k2] == as_map(s).insert(k, v)[k2]) by {
        lemma_index_of_key(s, k2);
        lemma_index_of_key(t, k2);
        if k2 == k {
            lemma_unique_index(t, k, i);
        } else if index_of_key(s, k2) >= 0 {
            lemma_unique_index(t, k2, index_of_key(s, k2));
        } else if index_of_key(t, k2) >= 0 {
            lemma_unique_index(s, k2, index_of_key(t, k2));
        }
    }
    assert(as_map(t) =~= as_map(s).insert(k, v));
}

/// Removing an entry removes its key from the map.
pub proof fn lemma_remove_entry<W>(s: Seq<(Seq<char>, W)>, i: int)
    requires
        keys_unique(s),
        0 <= i < s.len(),
    ensures
        keys_unique(s.remove(i)),
        as_map(s.remove(i)) == as_map(s).remove(s[i].0),
{
    let k = s[i].0;
    let t = s.remove(i);
    assert forall|a: int, b: int| 0 <= a < b < t.len() implies t[a].0 != t[b].0 by {
        let a2 = if a < i { a } else { a + 1 };
        let b2 = if b < i { b } else { b + 1 };
        assert(t[a] == s[a2]);
        assert(t[b] == s[b2]);
    }
    assert forall|k2: Seq<char>| #[trigger] as_map(t).dom().contains(k2) == as_map(s).remove(k).dom().contains(k2)
        && (as_map(t).dom().contains(k2) ==> as_map(t)[k2] == as_map(s).remove(k)[k2]) by {
        lemma_index_of_key(s, k2);
        lemma_index_of_key(t, k2);
        if index_of_key(t, k2) >= 0 {
            let j = index_of_key(t, k2);
            let j2 = if j < i { j } else { j + 1 };
            assert(t[j] == s[j2]);
            lemma_unique_index(s, k2, j2);
        } else if index_of_key(s, k2) >= 0 && k2 != k {
            let j2 = index_of_key(s, k2);
            let j = if j2 < i { j2 } else { j2 - 1 };
            assert(t[j] == s[j2]);
        }
    }
    assert(as_map(t) =~= as_map(s).remove(k));
}

/// Keeping the entries that satisfy `p` keeps exactly the keys whose entry
/// satisfies it, with their values.
pub proof fn lemma_filter_as_map<W>(s: Seq<(Seq<char>, W)>, p: spec_fn((Seq<char>, W)) -> bool)
    requires
        keys_unique(s),
    ensures
        keys_unique(s.filter(p)),
        forall|k: Seq<char>| #[trigger]
            as_map(s.filter(p)).dom().contains(k) == (as_map(s).dom().contains(k) && p((k, as_map(s)[k]))),
        forall|k: Seq<char>| as_map(s.filter(p)).dom().contains(k) ==> #[trigger] as_map(s.filter(p))[k] == as_map(s)[k],
    decreases s.len(),
{
    if s.len() == 0 {
        assert(s.filter(p) =~= s);
    } else {
        let t = s.drop_last();
        let e = s.last();
        assert(s =~= t.push(e));
        lemma_filter_as_map(t, p);
        t.lemma_filter_push(e, p);
        lemma_index_of_key(t, e.0);
        assert forall|j: int| 0 <= j < t.len() implies t[j].0 != e.0 by {
            assert(s[j] == t[j]);
        }
        lemma_push_new(t, e.0, e.1);
        if p(e) {
            lemma_push_new(t.filter(p), e.0, e.1);
        }
    }
}

/// The keys of an entry list are exactly the domain of its map.
pub proof fn lemma_keys_are_domain<W>(s: Seq<(Seq<char>, W)>)
    requires
        keys_unique(s),
    ensures
        keys_of(s).no_duplicates(),
        keys_of(s).to_set() == as_map(s).dom(),
        as_map(s).dom().finite(),
        as_map(s).dom().len() == s.len(),
{
    let ks = keys_of(s);
    assert(ks.no_duplicates());
    assert forall|k: Seq<char>| #[trigger] ks.to_set().contains(k) == as_map(s).dom().contains(k) by {
        lemma_index_of_key(s, k);
        if ks.to_set().contains(k) {
            let j = choose|j: int| 0 <= j < ks.len() && ks[j] == k;
            assert(s[j].0 == k);
        }
        if index_of_key(s, k) >= 0 {
            assert(ks[index_of_key(s, k)] == k);
        }
    }
    assert(ks.to_set() =~= as_map(s).dom());
    ks.unique_seq_to_set();
}

/// Position of the entry with key `k` in a keyed vector.
pub fn find_key<T: View>(v: &Vec<(String, T)>, k: &str) -> (r: Option<usize>)
    ensures
        match r {
            Some(i) => i < v@.len() && i as int == index_of_key(entries_view(v@), k@),
            None => index_of_key(entries_view(v@), k@) < 0,
        },
{
    let ghost s = entries_view(v@);
    proof {
        lemma_index_of_key(s, k@);
    }
    let mut i: usize = 0;
    while i < v.len()
        invariant
            i <= v.len(),
            s == entries_view(v@),
            s.len() == v.len(),
            forall|j: int| 0 <= j < i ==> s[j].0 != k@,
        decreases v.len() - i,
    {
        if str_eq(v[i].0.as_str(), k) {
            proof {
                assert(s[i as int].0 == k@);
                lemma_index_of_key_at(s, k@, i as int);
            }
            return Some(i);
        }
        i = i + 1;
    }
    None
}

} // verus!

verus! {

/// Sets the value stored under `k`, adding the key when it is new.
pub fn upsert<T: View>(v: &mut Vec<(String, T)>, k: String, val: T)
    requires
        keys_unique(entries_view(old(v)@)),
    ensures
        keys_unique(entries_view(final(v)@)),
        as_map(entries_view(final(v)@)) == as_map(entries_view(old(v)@)).insert(k@, val@),
        entries_view(final(v)@) == put(entries_view(old(v)@), k@, val@),
{
    let ghost s = entries_view(v@);
    match find_key(v, k.as_str()) {
        Some(i) => {
            let _old_entry = v.remove(i);
            v.insert(i, (k, val));
            proof {
                lemma_index_of_key(s, k@);
                lemma_update_value(s, i as int, val@);
                assert(entries_view(v@) =~= s.update(i as int, (s[i as int].0, val@)));
            }
        },
        None => {
            let ghost kv = k@;
            v.push((k, val));
            proof {
                lemma_index_of_key(s, kv);
                lemma_push_new(s, kv, val@);
                assert(entries_view(v@) =~= s.push((kv, val@)));
            }
        },
    }
}

/// Removes the entry stored under `k`, if any.
pub fn remove_key<T: View>(v: &mut Vec<(String, T)>, k: &str)
    requires
        keys_unique(entries_view(old(v)@)),
    ensures
        keys_unique(entries_view(final(v)@)),
        as_map(entries_view(final(v)@)) == as_map(entries_view(old(v)@)).remove(k@),
{
    let ghost s = entries_view(v@);
    match find_key(v, k) {
        Some(i) => {
            let _gone = v.remove(i);
            proof {
                lemma_index_of_key(s, k@);
                lemma_remove_entry(s, i as int);
                assert(entries_view(v@) =~= s.remove(i as int));
            }
        },
        None => {
            proof {
                lemma_index_of_key(s, k@);
                assert(as_map(s).remove(k@) =~= as_map(s));
            }
        },
    }
}

} // verus!

verus! {

/// Two entry lists with the same keys in the same order find keys at the same place.
pub proof fn lemma_index_same_keys<A, B>(s1: Seq<(Seq<char>, A)>, s2: Seq<(Seq<char>, B)>, k: Seq<char>)
    requires
        s1.len() == s2.len(),
        forall|i: int| 0 <= i < s1.len() ==> s1[i].0 == s2[i].0,
    ensures
        index_of_key(s1, k) == index_of_key(s2, k),
    decreases s1.len(),
{
    if s1.len() > 0 && s1[0].0 != k {
        lemma_index_same_keys(s1.drop_first(), s2.drop_first(), k);
    }
}

} // verus!
