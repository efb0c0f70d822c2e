//! Maps from text keys to text values kept as lists of pairs (header maps,
//! environment variables): inserting replaces the value of a key already
//! present in place and appends a new key, so each key occurs once.
use vstd::prelude::*;
use crate::text::str_eq;

verus! {

/// View of a list of string pairs.
pub open spec fn pairs_view(v: Seq<(String, String)>) -> Seq<(Seq<char>, Seq<char>)> {
    v.map_values(|p: (String, String)| (p.0@, p.1@))
}

/// Position of the last entry with key `k`.
pub open spec fn key_index(m: Seq<(Seq<char>, Seq<char>)>, k: Seq<char>) -> Option<int>
    decreases m.len(),
{
    if m.len() == 0 {
        None
    } else if m.last().0 == k {
        Some(m.len() - 1)
    } else {
        key_index(m.drop_last(), k)
    }
}

/// The value of key `k`.
pub open spec fn lookup(m: Seq<(Seq<char>, Seq<char>)>, k: Seq<char>) -> Option<Seq<char>> {
    match key_index(m, k) {
        Some(i) => Some(m[i].1),
        None => None,
    }
}

/// Each key occurs at most once.
pub open spec fn distinct_keys(m: Seq<(Seq<char>, Seq<char>)>) -> bool {
    forall|a: int, b: int| 0 <= a < b < m.len() ==> (#[trigger] m[a]).0 != (#[trigger] m[b]).0
}

/// Insertion: a key already present gets the new value in place, a new key is
/// appended.
pub open spec fn insert_entry(m: Seq<(Seq<char>, Seq<char>)>, k: Seq<char>, v: Seq<char>) -> Seq<
    (Seq<char>, Seq<char>),
> {
    match key_index(m, k) {
        Some(i) => m.update(i, (k, v)),
        None => m.push((k, v)),
    }
}

/// The entries of `overrides` inserted one after the other into `base`.
pub open spec fn merge_entries(
    base: Seq<(Seq<char>, Seq<char>)>,
    overrides: Seq<(Seq<char>, Seq<char>)>,
) -> Seq<(Seq<char>, Seq<char>)>
    decreases overrides.len(),
{
    if overrides.len() == 0 {
        base
    } else {
        insert_entry(merge_entries(base, overrides.drop_last()), overrides.last().0, overrides.last().1)
    }
}

pub proof fn lemma_key_index(m: Seq<(Seq<char>, Seq<char>)>, k: Seq<char>)
    ensures
        match key_index(m, k) {
            Some(i) => 0 <= i < m.len() && m[i].0 == k && forall|j: int|
                i < j < m.len() ==> (#[trigger] m[j]).0 != k,
            None => forall|j: int| 0 <= j < m.len() ==> (#[trigger] m[j]).0 != k,
        },
    decreases m.len(),
{
    if m.len() > 0 {
        lemma_key_index(m.drop_last(), k);
        assert forall|j: int| 0 <= j < m.len() - 1 implies m[j] == m.drop_last()[j] by {}
    }
}

/// Where insertion leaves keys: the inserted key is at its old position, or
/// last when it is new; every other key stays at its position.
pub proof fn lemma_insert_positions(m: Seq<(Seq<char>, Seq<char>)>, k: Seq<char>, v: Seq<char>)
    ensures
        key_index(insert_entry(m, k, v), k) == Some(
            match key_index(m, k) {
                Some(i) => i,
                None => m.len() as int,
            },
        ),
        forall|k2: Seq<char>| k2 != k ==> #[trigger] key_index(insert_entry(m, k, v), k2) == key_index(m, k2),
{
    lemma_key_index(m, k);
    let r = insert_entry(m, k, v);
    lemma_key_index(r, k);
    match key_index(m, k) {
        Some(i) => {
            assert(r[i].0 == k);
            match key_index(r, k) {
                Some(x) => {
                    if x > i {
                        assert(r[x] == m[x]);
                    }
                },
                None => {
                    assert(r[i].0 == k);
                },
            }
        },
        None => {
            assert(r.last().0 == k);
            assert(r.drop_last() =~= m);
        },
    }
    assert forall|k2: Seq<char>| k2 != k implies #[trigger] key_index(insert_entry(m, k, v), k2) == key_index(m, k2) by {
        lemma_key_index(m, k2);
        lemma_key_index(r, k2);
        match key_index(m, k2) {
            Some(j) => {
                assert(r[j] == m[j]);
                if key_index(r, k2) != Some(j) {
                    let x = key_index(r, k2)->Some_0;
                    assert(r[x] == m[x] || r[x].0 == k);
                }
            },
            None => {
                if key_index(r, k2) is Some {
                    let x = key_index(r, k2)->Some_0;
                    assert(r[x] == m[x] || r[x].0 == k);
                }
            },
        }
    }
}

/// What insertion does to lookups: the inserted key reads back the inserted
/// value, every other key reads as before; keys stay distinct.
pub proof fn lemma_lookup_after_insert(m: Seq<(Seq<char>, Seq<char>)>, k: Seq<char>, v: Seq<char>)
    ensures
        lookup(insert_entry(m, k, v), k) == Some(v),
        forall|k2: Seq<char>| k2 != k ==> #[trigger] lookup(insert_entry(m, k, v), k2) == lookup(m, k2),
        distinct_keys(m) ==> distinct_keys(insert_entry(m, k, v)),
{
    lemma_key_index(m, k);
    let r = insert_entry(m, k, v);
    lemma_key_index(r, k);
    match key_index(m, k) {
        Some(i) => {
            assert(r[i].0 == k);
            let x = key_index(r, k)->Some_0;
            if x > i {
                assert(r[x] == m[x]);
            }
            if x < i {
                assert(r[i].0 == k);
            }
        },
        None => {},
    }
    assert forall|k2: Seq<char>| k2 != k implies #[trigger] lookup(insert_entry(m, k, v), k2) == lookup(
        m,
        k2,
    ) by {
        lemma_key_index(m, k2);
        lemma_key_index(r, k2);
        match key_index(m, k) {
            Some(i) => {
                match key_index(m, k2) {
                    Some(j) => {
                        assert(r[j] == m[j]);
                        if key_index(r, k2) != Some(j) {
                            let x = key_index(r, k2)->Some_0;
                            assert(r[x] == m[x]);
                        }
                    },
                    None => {
                        if key_index(r, k2) is Some {
                            let x = key_index(r, k2)->Some_0;
                            assert(r[x] == m[x]);
                        }
                    },
                }
            },
            None => {
                match key_index(m, k2) {
                    Some(j) => {
                        assert(r[j] == m[j]);
                        if key_index(r, k2) != Some(j) {
                            let x = key_index(r, k2)->Some_0;
                            assert(r[x] == m[x]);
                        }
                    },
                    None => {
                        if key_index(r, k2) is Some {
                            let x = key_index(r, k2)->Some_0;
                            assert(r[x] == m[x]);
                        }
                    },
                }
            },
        }
    }
    if distinct_keys(m) {
        assert forall|a: int, b: int| 0 <= a < b < r.len() implies (#[trigger] r[a]).0 != (
        #[trigger] r[b]).0 by {
            match key_index(m, k) {
                Some(i) => {
                    if a != i && b != i {
                        assert(r[a] == m[a] && r[b] == m[b]);
                    } else if a == i {
                        assert(r[b] == m[b]);
                    } else {
                        assert(r[a] == m[a]);
                    }
                },
                None => {
                    if b < m.len() {
                        assert(r[a] == m[a] && r[b] == m[b]);
                    } else {
                        assert(r[a] == m[a]);
                    }
                },
            }
        }
    }
}

/// What a merge reads back: a key given in `overrides` has its last value
/// there; any other key keeps its value in `base`. Distinct keys stay distinct.
pub proof fn lemma_merge_lookup(
    base: Seq<(Seq<char>, Seq<char>)>,
    overrides: Seq<(Seq<char>, Seq<char>)>,
    k: Seq<char>,
)
    ensures
        lookup(merge_entries(base, overrides), k) == match lookup(overrides, k) {
            Some(v) => Some(v),
            None => lookup(base, k),
        },
        distinct_keys(base) ==> distinct_keys(merge_entries(base, overrides)),
    decreases overrides.len(),
{
    if overrides.len() > 0 {
        let d = overrides.drop_last();
        lemma_merge_lookup(base, d, k);
        let m = merge_entries(base, d);
        lemma_lookup_after_insert(m, overrides.last().0, overrides.last().1);
        if overrides.last().0 != k {
            assert(lookup(insert_entry(m, overrides.last().0, overrides.last().1), k) == lookup(m, k));
            lemma_key_index(d, k);
            match key_index(d, k) {
                Some(j) => {
                    assert(overrides[j] == d[j]);
                },
                None => {},
            }
        }
    }
}

/// The position of key `k` (see `key_index`).
pub fn key_position(m: &Vec<(String, String)>, k: &str) -> (r: Option<usize>)
    ensures
        match r {
            Some(i) => key_index(pairs_view(m@), k@) == Some(i as int) && i < m@.len(),
            None => key_index(pairs_view(m@), k@) is None,
        },
{
    let ghost mv = pairs_view(m@);
    let mut i = m.len();
    assert(mv.subrange(0, i as int) =~= mv);
    while i > 0
        invariant
            i <= m@.len(),
            mv == pairs_view(m@),
            key_index(mv, k@) == key_index(mv.subrange(0, i as int), k@),
        decreases i,
    {
        let ghost sub = mv.subrange(0, i as int);
        assert(sub.last() == mv[i - 1]);
        assert(mv[i - 1].0 == m@[i - 1].0@);
        if str_eq(m[i - 1].0.as_str(), k) {
            return Some(i - 1);
        }
        assert(sub.drop_last() =~= mv.subrange(0, i - 1));
        i = i - 1;
    }
    None
}

/// Inserts an entry (see `insert_entry`).
pub fn insert_pair(m: &mut Vec<(String, String)>, k: String, v: String)
    ensures
        pairs_view(final(m)@) == insert_entry(pairs_view(old(m)@), k@, v@),
{
    let ghost mv = pairs_view(m@);
    let ghost kv = k@;
    let ghost vv = v@;
    let mut i = m.len();
    assert(mv.subrange(0, i as int) =~= mv);
    while i > 0
        invariant
            i <= m@.len(),
            mv == pairs_view(m@),
            kv == k@,
            vv == v@,
            mv == pairs_view(old(m)@),
            key_index(mv, kv) == key_index(mv.subrange(0, i as int), kv),
        decreases i,
    {
        let ghost sub = mv.subrange(0, i as int);
        assert(sub.last() == mv[i - 1]);
        assert(mv[i - 1].0 == m@[i - 1].0@);
        if str_eq(m[i - 1].0.as_str(), k.as_str()) {
            assert(key_index(sub, kv) == Some(i - 1));
            m.set(i - 1, (k, v));
            assert(pairs_view(m@) =~= mv.update(i - 1, (kv, vv)));
            return;
        }
        assert(sub.drop_last() =~= mv.subrange(0, i - 1));
        i = i - 1;
    }
    assert(mv.subrange(0, 0).len() == 0);
    m.push((k, v));
    assert(pairs_view(m@) =~= mv.push((kv, vv)));
}

/// Copies a list of pairs.
pub fn clone_pairs(v: &Vec<(String, String)>) -> (r: Vec<(String, String)>)
    ensures
        pairs_view(r@) == pairs_view(v@),
{
    let mut out: Vec<(String, String)> = Vec::new();
    let mut i: usize = 0;
    while i < v.len()
        invariant
            i <= v@.len(),
            out@.len() == i,
            pairs_view(out@) == pairs_view(v@).take(i as int),
        decreases v@.len() - i,
    {
        let ghost before = out@;
        out.push((v[i].0.clone(), v[i].1.clone()));
        assert(pairs_view(out@)[i as int] == pairs_view(v@)[i as int]);
        assert(pairs_view(out@) =~= pairs_view(v@).take(i + 1));
        i = i + 1;
    }
    assert(pairs_view(v@).take(i as int) =~= pairs_view(v@));
    out
}

/// `base` with the entries of `overrides` inserted in order (see
/// `merge_entries`): a later value of a key wins.
pub fn merge_pairs(base: &Vec<(String, String)>, overrides: &Vec<(String, String)>) -> (r: Vec<
    (String, String),
>)
    ensures
        pairs_view(r@) == merge_entries(pairs_view(base@), pairs_view(overrides@)),
{
    let mut out = clone_pairs(base);
    let ghost b = pairs_view(base@);
    let ghost o = pairs_view(overrides@);
    let mut i: usize = 0;
    assert(o.take(0) =~= Seq::<(Seq<char>, Seq<char>)>::empty());
    while i < overrides.len()
        invariant
            i <= overrides@.len(),
            b == pairs_view(base@),
            o == pairs_view(overrides@),
            pairs_view(out@) == merge_entries(b, o.take(i as int)),
        decreases overrides@.len() - i,
    {
        assert(o.take(i + 1).drop_last() =~= o.take(i as int));
        insert_pair(&mut out, overrides[i].0.clone(), overrides[i].1.clone());
        i = i + 1;
    }
    assert(o.take(i as int) =~= o);
    out
}

} // verus!
