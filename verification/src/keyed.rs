//! Keyed lists: the player's money, items, skills and equipment are each a
//! list of entries with an integer key and an integer value.  Seen abstractly,
//! such a list is a sequence of `(key, value)` pairs that is read by the first
//! entry carrying a key, with 0 for a key that does not occur.
use vstd::prelude::*;

verus! {

/// Some entry of `s` carries key `k`.
pub open spec fn has_key(s: Seq<(int, int)>, k: int) -> bool {
    exists|i: int| 0 <= i < s.len() && (#[trigger] s[i]).0 == k
}

/// The value of the first entry of `s` with key `k`, or 0 where there is none.
pub open spec fn lookup(s: Seq<(int, int)>, k: int) -> int
    decreases s.len(),
{
    if s.len() == 0 {
        0
    } else if s[0].0 == k {
        s[0].1
    } else {
        lookup(s.drop_first(), k)
    }
}

/// No two entries of `s` carry the same key.
pub open spec fn distinct_keys(s: Seq<(int, int)>) -> bool {
    forall|i: int, j: int| 0 <= i < j < s.len() ==> #[trigger] s[i].0 != #[trigger] s[j].0
}

/// Every value in `s` is at least 0.
pub open spec fn nonnegative_values(s: Seq<(int, int)>) -> bool {
    forall|i: int| 0 <= i < s.len() ==> 0 <= (#[trigger] s[i]).1
}

/// `s` without the entries whose key is `k`, in their order.
pub open spec fn remove_key(s: Seq<(int, int)>, k: int) -> Seq<(int, int)>
    decreases s.len(),
{
    if s.len() == 0 {
        s
    } else if s.last().0 != k {
        remove_key(s.drop_last(), k).push(s.last())
    } else {
        remove_key(s.drop_last(), k)
    }
}

/// The first entry with key `k` sits at index `i`: the lookup reads its value.
pub proof fn lemma_lookup_first(s: Seq<(int, int)>, k: int, i: int)
    requires
        0 <= i < s.len(),
        s[i].0 == k,
        forall|j: int| 0 <= j < i ==> (#[trigger] s[j]).0 != k,
    ensures
        lookup(s, k) == s[i].1,
    decreases i,
{
    if i > 0 {
        let t = s.drop_first();
        assert forall|j: int| 0 <= j < i - 1 implies (#[trigger] t[j]).0 != k by {
            assert(t[j] == s[j + 1]);
        }
        lemma_lookup_first(t, k, i - 1);
    }
}

/// A key that no entry carries reads as 0.
pub proof fn lemma_lookup_absent(s: Seq<(int, int)>, k: int)
    requires
        !has_key(s, k),
    ensures
        lookup(s, k) == 0,
    decreases s.len(),
{
    if s.len() > 0 {
        assert(s[0] == s[0]);
        let t = s.drop_first();
        assert forall|j: int| 0 <= j < t.len() implies (#[trigger] t[j]).0 != k by {
            assert(t[j] == s[j + 1]);
        }
        lemma_lookup_absent(t, k);
    }
}

/// Where keys are distinct, the entry at `i` is the one a lookup of its key reads.
pub proof fn lemma_lookup_distinct(s: Seq<(int, int)>, i: int)
    requires
        distinct_keys(s),
        0 <= i < s.len(),
    ensures
        lookup(s, s[i].0) == s[i].1,
{
    assert forall|j: int| 0 <= j < i implies (#[trigger] s[j]).0 != s[i].0 by {
        assert(s[j].0 != s[i].0);
    }
    lemma_lookup_first(s, s[i].0, i);
}

/// A lookup of a key that occurs reads the value of some entry with that key.
pub proof fn lemma_lookup_present(s: Seq<(int, int)>, k: int) -> (i: int)
    requires
        has_key(s, k),
    ensures
        0 <= i < s.len(),
        s[i].0 == k,
        lookup(s, k) == s[i].1,
    decreases s.len(),
{
    if s[0].0 == k {
        0
    } else {
        let t = s.drop_first();
        let w = choose|w: int| 0 <= w < s.len() && (#[trigger] s[w]).0 == k;
        assert(t[w - 1] == s[w]);
        let i = lemma_lookup_present(t, k);
        assert(t[i] == s[i + 1]);
        i + 1
    }
}

/// Lookups read values that occur in the list, or 0.
pub proof fn lemma_lookup_nonnegative(s: Seq<(int, int)>, k: int)
    requires
        nonnegative_values(s),
    ensures
        0 <= lookup(s, k),
{
    if has_key(s, k) {
        let i = lemma_lookup_present(s, k);
    } else {
        lemma_lookup_absent(s, k);
    }
}

/// Writing a new value into the entry at `i` changes what a lookup of its key
/// reads where that entry is the first with its key, and nothing else.
pub proof fn lemma_lookup_update(s: Seq<(int, int)>, i: int, v: int, k: int)
    requires
        0 <= i < s.len(),
    ensures
        lookup(s.update(i, (s[i].0, v)), k) == if k == s[i].0 && (forall|j: int|
            0 <= j < i ==> (#[trigger] s[j]).0 != k) {
            v
        } else {
            lookup(s, k)
        },
    decreases i,
{
    let u = s.update(i, (s[i].0, v));
    if i == 0 {
        if s[0].0 != k {
            assert(u.drop_first() =~= s.drop_first());
        }
    } else {
        assert(u[0] == s[0]);
        if s[0].0 != k {
            assert(u.drop_first() =~= s.drop_first().update(i - 1, (s[i].0, v)));
            lemma_lookup_update(s.drop_first(), i - 1, v, k);
            let t = s.drop_first();
            if forall|j: int| 0 <= j < i - 1 ==> (#[trigger] t[j]).0 != k {
                assert forall|j: int| 0 <= j < i implies (#[trigger] s[j]).0 != k by {
                    if j > 0 {
                        assert(s[j] == t[j - 1]);
                    }
                }
            } else {
                let j0 = choose|j: int| 0 <= j < i - 1 && (#[trigger] t[j]).0 == k;
                assert(s[j0 + 1] == t[j0]);
            }
        }
    }
}

/// Appending an entry changes only the lookup of its key, and only where the
/// key did not occur before.
pub proof fn lemma_lookup_push(s: Seq<(int, int)>, p: (int, int), k: int)
    ensures
        lookup(s.push(p), k) == if p.0 == k && !has_key(s, k) {
            p.1
        } else {
            lookup(s, k)
        },
{
    let u = s.push(p);
    if has_key(s, k) {
        let i = lemma_lookup_present(s, k);
        lemma_first_occurrence(s, k, i);
        let f = choose|f: int|
            0 <= f < s.len() && (#[trigger] s[f]).0 == k && forall|j: int|
                0 <= j < f ==> (#[trigger] s[j]).0 != k;
        lemma_lookup_first(s, k, f);
        assert(u[f] == s[f]);
        assert forall|j: int| 0 <= j < f implies (#[trigger] u[j]).0 != k by {
            assert(u[j] == s[j]);
        }
        lemma_lookup_first(u, k, f);
    } else if p.0 == k {
        assert forall|j: int| 0 <= j < s.len() implies (#[trigger] u[j]).0 != k by {
            assert(u[j] == s[j]);
        }
        lemma_lookup_first(u, k, s.len() as int);
    } else {
        lemma_lookup_absent(s, k);
        assert forall|j: int| 0 <= j < u.len() implies (#[trigger] u[j]).0 != k by {
            if j < s.len() {
                assert(u[j] == s[j]);
            }
        }
        assert(!has_key(u, k));
        lemma_lookup_absent(u, k);
    }
}

/// A key that occurs at `i` has a first occurrence at or before `i`.
pub proof fn lemma_first_occurrence(s: Seq<(int, int)>, k: int, i: int)
    requires
        0 <= i < s.len(),
        s[i].0 == k,
    ensures
        exists|f: int|
            0 <= f < s.len() && (#[trigger] s[f]).0 == k && forall|j: int|
                0 <= j < f ==> (#[trigger] s[j]).0 != k,
    decreases i,
{
    if exists|j: int| 0 <= j < i && (#[trigger] s[j]).0 == k {
        let j = choose|j: int| 0 <= j < i && (#[trigger] s[j]).0 == k;
        lemma_first_occurrence(s, k, j);
    } else {
        assert(s[i].0 == k);
    }
}

/// Removing the entries of one key makes it read as 0 and leaves the others.
pub proof fn lemma_lookup_remove_key(s: Seq<(int, int)>, k: int, k2: int)
    ensures
        lookup(remove_key(s, k), k2) == if k2 == k {
            0
        } else {
            lookup(s, k2)
        },
        !has_key(remove_key(s, k), k),
        forall|x: int| has_key(remove_key(s, k), x) <==> (x != k && has_key(s, x)),
    decreases s.len(),
{
    if s.len() == 0 {
        assert(!has_key(s, k));
        assert forall|x: int| !has_key(remove_key(s, k), x) by {}
        lemma_lookup_absent(s, k2);
    } else {
        let t = s.drop_last();
        lemma_lookup_remove_key(t, k, k2);
        lemma_lookup_push_last(s);
        let r = remove_key(t, k);
        if s.last().0 != k {
            lemma_lookup_push(r, s.last(), k2);
            lemma_lookup_push(t, s.last(), k2);
            assert forall|x: int| has_key(r.push(s.last()), x) <==> (x != k && has_key(s, x)) by {
                lemma_has_key_push(r, s.last(), x);
                lemma_has_key_push(t, s.last(), x);
            }
            lemma_has_key_push(r, s.last(), k);
        } else {
            lemma_lookup_push(t, s.last(), k2);
            assert forall|x: int| has_key(r, x) <==> (x != k && has_key(s, x)) by {
                lemma_has_key_push(t, s.last(), x);
            }
        }
    }
}

/// A sequence is its prefix with its last entry appended.
pub proof fn lemma_lookup_push_last(s: Seq<(int, int)>)
    requires
        s.len() > 0,
    ensures
        s == s.drop_last().push(s.last()),
{
    assert(s =~= s.drop_last().push(s.last()));
}

/// Appending an entry adds exactly its key to those that occur.
pub proof fn lemma_has_key_push(s: Seq<(int, int)>, p: (int, int), x: int)
    ensures
        has_key(s.push(p), x) <==> (p.0 == x || has_key(s, x)),
{
    let u = s.push(p);
    if has_key(s, x) {
        let i = choose|i: int| 0 <= i < s.len() && (#[trigger] s[i]).0 == x;
        assert(u[i] == s[i]);
    }
    if p.0 == x {
        assert(u[s.len() as int] == p);
    }
    if has_key(u, x) {
        let i = choose|i: int| 0 <= i < u.len() && (#[trigger] u[i]).0 == x;
        if i < s.len() {
            assert(u[i] == s[i]);
        }
    }
}


/// The index of the first entry with key `k` (meaningful where `k` occurs).
pub open spec fn first_index(s: Seq<(int, int)>, k: int) -> int {
    choose|i: int|
        0 <= i < s.len() && (#[trigger] s[i]).0 == k && forall|j: int|
            0 <= j < i ==> (#[trigger] s[j]).0 != k
}

/// `s` with the value of key `k` set to `v`: the first entry with that key is
/// rewritten, or a new entry is appended where the key does not occur.
pub open spec fn upsert(s: Seq<(int, int)>, k: int, v: int) -> Seq<(int, int)> {
    if has_key(s, k) {
        s.update(first_index(s, k), (k, v))
    } else {
        s.push((k, v))
    }
}

/// The first entry with an occurring key exists, and an index that is first is it.
pub proof fn lemma_first_index(s: Seq<(int, int)>, k: int)
    requires
        has_key(s, k),
    ensures
        0 <= first_index(s, k) < s.len(),
        s[first_index(s, k)].0 == k,
        forall|j: int| 0 <= j < first_index(s, k) ==> (#[trigger] s[j]).0 != k,
        lookup(s, k) == s[first_index(s, k)].1,
        forall|i: int|
            0 <= i < s.len() && s[i].0 == k && (forall|j: int|
                0 <= j < i ==> (#[trigger] s[j]).0 != k) ==> i == first_index(s, k),
{
    let w = choose|w: int| 0 <= w < s.len() && (#[trigger] s[w]).0 == k;
    lemma_first_occurrence(s, k, w);
    let f = first_index(s, k);
    lemma_lookup_first(s, k, f);
    assert forall|i: int|
        0 <= i < s.len() && s[i].0 == k && (forall|j: int|
            0 <= j < i ==> (#[trigger] s[j]).0 != k) implies i == f by {
        if i < f {
            assert(s[i].0 != k);
        }
        if f < i {
            assert(s[f].0 != k);
        }
    }
}

/// What an upsert does to lookups, to the keys that occur, and to distinctness.
pub proof fn lemma_upsert(s: Seq<(int, int)>, k: int, v: int)
    ensures
        forall|k2: int| #[trigger]
            lookup(upsert(s, k, v), k2) == if k2 == k {
                v
            } else {
                lookup(s, k2)
            },
        forall|x: int| #[trigger] has_key(upsert(s, k, v), x) <==> (x == k || has_key(s, x)),
        distinct_keys(s) ==> distinct_keys(upsert(s, k, v)),
        upsert(s, k, v).len() == if has_key(s, k) {
            s.len()
        } else {
            s.len() + 1
        },
{
    if has_key(s, k) {
        lemma_first_index(s, k);
        let f = first_index(s, k);
        let u = s.update(f, (k, v));
        assert forall|k2: int| #[trigger] lookup(u, k2) == if k2 == k {
            v
        } else {
            lookup(s, k2)
        } by {
            lemma_lookup_update(s, f, v, k2);
        }
        assert forall|x: int| #[trigger] has_key(u, x) <==> (x == k || has_key(s, x)) by {
            if has_key(s, x) {
                let i = choose|i: int| 0 <= i < s.len() && (#[trigger] s[i]).0 == x;
                assert(u[i].0 == s[i].0);
            }
            if has_key(u, x) {
                let i = choose|i: int| 0 <= i < u.len() && (#[trigger] u[i]).0 == x;
                assert(u[i].0 == s[i].0);
            }
            if x == k {
                assert(u[f].0 == k);
            }
        }
        if distinct_keys(s) {
            assert forall|i: int, j: int| 0 <= i < j < u.len() implies #[trigger] u[i].0
                != #[trigger] u[j].0 by {
                assert(u[i].0 == s[i].0 && u[j].0 == s[j].0);
                assert(s[i].0 != s[j].0);
            }
        }
    } else {
        assert forall|k2: int| #[trigger] lookup(s.push((k, v)), k2) == if k2 == k {
            v
        } else {
            lookup(s, k2)
        } by {
            lemma_lookup_push(s, (k, v), k2);
        }
        assert forall|x: int| #[trigger] has_key(s.push((k, v)), x) <==> (x == k || has_key(s, x)) by {
            lemma_has_key_push(s, (k, v), x);
        }
        if distinct_keys(s) {
            lemma_distinct_push(s, (k, v));
        }
    }
}

/// Appending an entry with a new key keeps keys distinct.
pub proof fn lemma_distinct_push(s: Seq<(int, int)>, p: (int, int))
    requires
        distinct_keys(s),
        !has_key(s, p.0),
    ensures
        distinct_keys(s.push(p)),
{
    let u = s.push(p);
    assert forall|i: int, j: int| 0 <= i < j < u.len() implies #[trigger] u[i].0
        != #[trigger] u[j].0 by {
        assert(u[i] == s[i]);
        if j < s.len() {
            assert(u[j] == s[j]);
            assert(s[i].0 != s[j].0);
        } else {
            assert(s[i] == s[i]);
        }
    }
}

/// Removing a key keeps keys distinct.
pub proof fn lemma_remove_key_distinct(s: Seq<(int, int)>, k: int)
    requires
        distinct_keys(s),
    ensures
        distinct_keys(remove_key(s, k)),
    decreases s.len(),
{
    if s.len() > 0 {
        let t = s.drop_last();
        assert(distinct_keys(t)) by {
            assert forall|i: int, j: int| 0 <= i < j < t.len() implies #[trigger] t[i].0
                != #[trigger] t[j].0 by {
                assert(t[i] == s[i] && t[j] == s[j]);
                assert(s[i].0 != s[j].0);
            }
        }
        lemma_remove_key_distinct(t, k);
        if s.last().0 != k {
            lemma_lookup_remove_key(t, k, k);
            assert(!has_key(t, s.last().0)) by {
                if has_key(t, s.last().0) {
                    let i = choose|i: int| 0 <= i < t.len() && (#[trigger] t[i]).0 == s.last().0;
                    assert(t[i] == s[i]);
                    assert(s[i].0 != s[s.len() - 1].0);
                }
            }
            lemma_distinct_push(remove_key(t, k), s.last());
        }
    }
}

/// An entry of a keyed list: a plain value with an integer key and a
/// nonnegative integer value, and nothing else.
pub trait KeyedEntry: Copy + Sized {
    spec fn key_of(&self) -> int;

    spec fn value_of(&self) -> int;

    /// The key of this entry.
    fn key(&self) -> (k: i64)
        ensures
            k as int == self.key_of(),
    ;

    /// The value of this entry.
    fn value(&self) -> (v: u32)
        ensures
            v as int == self.value_of(),
    ;

    /// This entry with another value.
    fn with_value(&self, v: u32) -> (e: Self)
        ensures
            e.key_of() == self.key_of(),
            e.value_of() == v as int,
    ;
}

/// Entries as `(key, value)` pairs.
pub open spec fn pairs<T: KeyedEntry>(s: Seq<T>) -> Seq<(int, int)> {
    s.map_values(|e: T| (e.key_of(), e.value_of()))
}

/// Appending an entry appends its pair.
pub proof fn lemma_pairs_push<T: KeyedEntry>(s: Seq<T>, e: T)
    ensures
        pairs(s.push(e)) == pairs(s).push((e.key_of(), e.value_of())),
{
    assert(pairs(s.push(e)) =~= pairs(s).push((e.key_of(), e.value_of())));
}

/// The index of the first entry of `v` with key `k`, if any.
pub fn find_index<T: KeyedEntry>(v: &Vec<T>, k: i64) -> (r: Option<usize>)
    ensures
        match r {
            Some(i) => {
                &&& has_key(pairs(v@), k as int)
                &&& i as int == first_index(pairs(v@), k as int)
                &&& (i as int) < v@.len()
                &&& v@[i as int].key_of() == k as int
                &&& lookup(pairs(v@), k as int) == v@[i as int].value_of()
            },
            None => !has_key(pairs(v@), k as int) && lookup(pairs(v@), k as int) == 0,
        },
{
    let n = v.len();
    let ghost p = pairs(v@);
    for i in 0..n
        invariant
            n == v@.len(),
            p == pairs(v@),
            forall|j: int| 0 <= j < i ==> (#[trigger] p[j]).0 != k as int,
    {
        if v[i].key() == k {
            proof {
                assert(p[i as int].0 == k as int);
                assert(has_key(p, k as int));
                lemma_first_index(p, k as int);
            }
            return Some(i);
        }
    }
    proof {
        assert(!has_key(p, k as int));
        lemma_lookup_absent(p, k as int);
    }
    None
}

/// The value of key `k` in `v`: that of its first entry, or 0.
pub fn value_of_key<T: KeyedEntry>(v: &Vec<T>, k: i64) -> (r: u32)
    ensures
        r as int == lookup(pairs(v@), k as int),
{
    match find_index(v, k) {
        Some(i) => v[i].value(),
        None => 0,
    }
}

/// Whether some entry of `v` has key `k`.
pub fn contains_key<T: KeyedEntry>(v: &Vec<T>, k: i64) -> (r: bool)
    ensures
        r == has_key(pairs(v@), k as int),
{
    find_index(v, k).is_some()
}

/// Sets the value of the entry at `i`.
pub fn set_value_at<T: KeyedEntry>(v: &mut Vec<T>, i: usize, val: u32)
    requires
        i < old(v)@.len(),
    ensures
        pairs(final(v)@) == pairs(old(v)@).update(i as int, (old(v)@[i as int].key_of(), val as int)),
{
    let e = v[i].with_value(val);
    v.set(i, e);
    assert(pairs(v@) =~= pairs(old(v)@).update(i as int, (old(v)@[i as int].key_of(), val as int)));
}

/// The entries of `v` whose key is not `k`, in their order.
pub fn remove_entries<T: KeyedEntry>(v: &Vec<T>, k: i64) -> (r: Vec<T>)
    ensures
        pairs(r@) == remove_key(pairs(v@), k as int),
{
    let mut r: Vec<T> = Vec::new();
    let n = v.len();
    let ghost p = pairs(v@);
    for i in 0..n
        invariant
            n == v@.len(),
            p == pairs(v@),
            pairs(r@) == remove_key(p.take(i as int), k as int),
    {
        let ghost before = r@;
        assert(p.take(i + 1).drop_last() =~= p.take(i as int));
        assert(p.take(i + 1).last() == p[i as int]);
        if v[i].key() != k {
            r.push(v[i]);
            proof {
                lemma_pairs_push(before, v@[i as int]);
            }
        }
    }
    assert(p.take(n as int) =~= p);
    r
}

} // verus!
