//! String-keyed association lists with unique keys, viewed as maps.
//!
//! Both the client's domain tables and the server's user table are held
//! this way; their contracts speak of the abstract [`Map`] each list
//! denotes.

use vstd::prelude::*;

verus! {

use crate::text::str_eq;

/// No two entries share a key.
pub open spec fn keys_unique<T>(s: Seq<(String, T)>) -> bool {
    forall|i: int, j: int| 0 <= i < j < s.len() ==> s[i].0@ != s[j].0@
}


/// Lexicographic order on keys, by code point: the order `String`'s own
/// comparison gives.
pub open spec fn str_lt(a: Seq<char>, b: Seq<char>) -> bool
    decreases a.len(),
{
    if b.len() == 0 {
        false
    } else if a.len() == 0 {
        true
    } else if a[0] != b[0] {
        (a[0] as u32) < (b[0] as u32)
    } else {
        str_lt(a.drop_first(), b.drop_first())
    }
}

proof fn lemma_str_lt_irreflexive(a: Seq<char>)
    ensures
        !str_lt(a, a),
    decreases a.len(),
{
    if a.len() > 0 {
        lemma_str_lt_irreflexive(a.drop_first());
    }
}

/// Keys strictly increase through the list.
pub open spec fn keys_sorted<T>(s: Seq<(String, T)>) -> bool {
    forall|i: int, j: int| 0 <= i < j < s.len() ==> str_lt(s[i].0@, s[j].0@)
}

/// Sorted keys are unique.
pub proof fn lemma_sorted_unique<T>(s: Seq<(String, T)>)
    requires
        keys_sorted(s),
    ensures
        keys_unique(s),
{
    assert forall|i: int, j: int| 0 <= i < j < s.len() implies s[i].0@ != s[j].0@ by {
        assert(str_lt(s[i].0@, s[j].0@));
        if s[i].0@ == s[j].0@ {
            lemma_str_lt_irreflexive(s[i].0@);
        }
    }
}

/// Some entry carries the key `k`.
pub open spec fn has_key<T>(s: Seq<(String, T)>, k: Seq<char>) -> bool {
    exists|i: int| 0 <= i < s.len() && s[i].0@ == k
}

/// The index of the entry carrying `k`, unique when keys are unique.
pub open spec fn idx_of<T>(s: Seq<(String, T)>, k: Seq<char>) -> int {
    choose|i: int| 0 <= i < s.len() && s[i].0@ == k
}

/// The map an association list denotes: each key to the view of its value.
pub open spec fn kv_map<T: View>(s: Seq<(String, T)>) -> Map<Seq<char>, T::V> {
    Map::new(|k: Seq<char>| has_key(s, k), |k: Seq<char>| s[idx_of(s, k)].1@)
}

/// Each entry of a unique-keyed list is the one its key resolves to.
pub proof fn lemma_kv_entry<T: View>(s: Seq<(String, T)>, i: int)
    requires
        keys_unique(s),
        0 <= i < s.len(),
    ensures
        has_key(s, s[i].0@),
        idx_of(s, s[i].0@) == i,
        kv_map(s).contains_key(s[i].0@),
        kv_map(s)[s[i].0@] == s[i].1@,
{
    assert(has_key(s, s[i].0@));
    let j = idx_of(s, s[i].0@);
    assert(0 <= j < s.len() && s[j].0@ == s[i].0@);
    if i < j {
        assert(s[i].0@ != s[j].0@);
    } else if j < i {
        assert(s[j].0@ != s[i].0@);
    }
}

/// The empty list denotes the empty map.
pub proof fn lemma_kv_empty<T: View>()
    ensures
        kv_map(Seq::<(String, T)>::empty()) =~= Map::<Seq<char>, T::V>::empty(),
{
}

/// Replacing the value of the entry at `i` by one under the same key
/// denotes inserting that value.
pub proof fn lemma_kv_update<T: View>(s: Seq<(String, T)>, i: int, p: (String, T))
    requires
        keys_unique(s),
        0 <= i < s.len(),
        p.0@ == s[i].0@,
    ensures
        keys_unique(s.update(i, p)),
        kv_map(s.update(i, p)) =~= kv_map(s).insert(p.0@, p.1@),
{
    let t = s.update(i, p);
    assert(forall|m: int| 0 <= m < t.len() ==> t[m].0@ == s[m].0@);
    assert forall|k: Seq<char>| #[trigger] has_key(t, k) implies has_key(s, k) by {
        let m = choose|m: int| 0 <= m < t.len() && t[m].0@ == k;
        assert(s[m].0@ == k);
    }
    assert forall|k: Seq<char>| #[trigger] has_key(s, k) implies has_key(t, k) by {
        let m = choose|m: int| 0 <= m < s.len() && s[m].0@ == k;
        assert(t[m].0@ == k);
    }
    assert(has_key(s, p.0@));
    assert forall|k: Seq<char>| #[trigger] kv_map(t).dom().contains(k) implies kv_map(t)[k]
        == kv_map(s).insert(p.0@, p.1@)[k] by {
        let m = idx_of(t, k);
        assert(0 <= m < t.len() && t[m].0@ == k);
        lemma_kv_entry(t, m);
        if k == p.0@ {
            lemma_kv_entry(t, i);
            assert(m == i);
        } else {
            assert(m != i);
            assert(s[m].0@ == k);
            lemma_kv_entry(s, m);
        }
    }
    assert(kv_map(t).dom() =~= kv_map(s).insert(p.0@, p.1@).dom());
}

/// Appending an entry under a fresh key denotes inserting it.
pub proof fn lemma_kv_push<T: View>(s: Seq<(String, T)>, p: (String, T))
    requires
        keys_unique(s),
        !has_key(s, p.0@),
    ensures
        keys_unique(s.push(p)),
        kv_map(s.push(p)) =~= kv_map(s).insert(p.0@, p.1@),
{
    let t = s.push(p);
    assert(forall|m: int| 0 <= m < s.len() ==> t[m] == s[m]);
    assert(t[s.len() as int] == p);
    assert forall|k: Seq<char>| #[trigger] has_key(t, k) implies (has_key(s, k) || k == p.0@) by {
        let m = choose|m: int| 0 <= m < t.len() && t[m].0@ == k;
        if m < s.len() {
            assert(s[m].0@ == k);
        }
    }
    assert forall|k: Seq<char>| #[trigger] has_key(s, k) implies has_key(t, k) by {
        let m = choose|m: int| 0 <= m < s.len() && s[m].0@ == k;
        assert(t[m].0@ == k);
    }
    assert(has_key(t, p.0@));
    assert forall|k: Seq<char>| #[trigger] kv_map(t).dom().contains(k) implies kv_map(t)[k]
        == kv_map(s).insert(p.0@, p.1@)[k] by {
        let m = idx_of(t, k);
        assert(0 <= m < t.len() && t[m].0@ == k);
        lemma_kv_entry(t, m);
        if k == p.0@ {
            lemma_kv_entry(t, s.len() as int);
            assert(m == s.len() as int);
        } else {
            assert(m < s.len());
            assert(s[m].0@ == k);
            lemma_kv_entry(s, m);
        }
    }
    assert(kv_map(t).dom() =~= kv_map(s).insert(p.0@, p.1@).dom());
}

/// Look a key up, yielding the value the denoted map carries for it.
pub fn kv_get<'a, T: View>(s: &'a Vec<(String, T)>, key: &str) -> (r: Option<&'a T>)
    requires
        keys_unique(s@),
    ensures
        match r {
            Some(t) => has_key(s@, key@) && kv_map(s@).contains_key(key@) && t@ == kv_map(
                s@,
            )[key@],
            None => !has_key(s@, key@) && !kv_map(s@).contains_key(key@),
        },
{
    let mut i: usize = 0;
    while i < s.len()
        invariant
            i <= s@.len(),
            keys_unique(s@),
            forall|j: int| 0 <= j < i ==> s@[j].0@ != key@,
        decreases s@.len() - i,
    {
        if str_eq(s[i].0.as_str(), key) {
            proof {
                lemma_kv_entry(s@, i as int);
            }
            return Some(&s[i].1);
        }
        i += 1;
    }
    None
}

/// The index of the entry carrying `key`, if any.
pub fn kv_find<T: View>(s: &Vec<(String, T)>, key: &str) -> (r: Option<usize>)
    requires
        keys_unique(s@),
    ensures
        match r {
            Some(i) => i < s@.len() && s@[i as int].0@ == key@ && idx_of(s@, key@) == i as int
                && has_key(s@, key@),
            None => !has_key(s@, key@),
        },
{
    let mut i: usize = 0;
    while i < s.len()
        invariant
            i <= s@.len(),
            keys_unique(s@),
            forall|j: int| 0 <= j < i ==> s@[j].0@ != key@,
        decreases s@.len() - i,
    {
        if str_eq(s[i].0.as_str(), key) {
            proof {
                lemma_kv_entry(s@, i as int);
            }
            return Some(i);
        }
        i += 1;
    }
    None
}

/// Insert a value under a key: the denoted map gains or replaces that
/// key's value, and no other key changes.
pub fn kv_insert<T: View>(s: &mut Vec<(String, T)>, key: String, value: T)
    requires
        keys_unique(old(s)@),
    ensures
        keys_unique(final(s)@),
        kv_map(final(s)@) == kv_map(old(s)@).insert(key@, value@),
{
    let found = kv_find(s, key.as_str());
    match found {
        Some(i) => {
            proof {
                lemma_kv_update(s@, i as int, (key, value));
            }
            s[i] = (key, value);
        },
        None => {
            proof {
                lemma_kv_push(s@, (key, value));
            }
            s.push((key, value));
        },
    }
}

} // verus!
