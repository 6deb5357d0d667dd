//! A small attribute map: a vector of key-value pairs with pairwise-distinct
//! keys, where inserting an existing key replaces its value in place.
use vstd::prelude::*;

verus! {

/// The view of a list of owned string pairs as a list of character-sequence
/// pairs.
pub open spec fn kv_views(s: Seq<(String, String)>) -> Seq<(Seq<char>, Seq<char>)> {
    s.map_values(|p: (String, String)| (p.0@, p.1@))
}

/// Whether some pair in `s` has key `k`.
pub open spec fn kvs_has_key(s: Seq<(Seq<char>, Seq<char>)>, k: Seq<char>) -> bool {
    exists|i: int| 0 <= i < s.len() && s[i].0 == k
}

/// The first position in `s` whose key is `k` (meaningful only when
/// `kvs_has_key(s, k)` holds).
pub open spec fn key_index(s: Seq<(Seq<char>, Seq<char>)>, k: Seq<char>) -> int
    decreases s.len(),
{
    if s.len() == 0 {
        0
    } else if s[0].0 == k {
        0
    } else {
        1 + key_index(s.drop_first(), k)
    }
}

/// All keys of `s` are pairwise distinct.
pub open spec fn kvs_unique_keys(s: Seq<(Seq<char>, Seq<char>)>) -> bool {
    forall|i: int, j: int| 0 <= i < j < s.len() ==> s[i].0 != s[j].0
}

/// What inserting `k -> v` leaves behind: the first pair with key `k` is
/// replaced in place, or the pair is appended when the key is new.
pub open spec fn kvs_upsert(
    s: Seq<(Seq<char>, Seq<char>)>,
    k: Seq<char>,
    v: Seq<char>,
) -> Seq<(Seq<char>, Seq<char>)> {
    if kvs_has_key(s, k) {
        s.update(key_index(s, k), (k, v))
    } else {
        s.push((k, v))
    }
}

proof fn lemma_key_index_first(s: Seq<(Seq<char>, Seq<char>)>, k: Seq<char>, j: int)
    requires
        0 <= j < s.len(),
        s[j].0 == k,
        forall|i: int| 0 <= i < j ==> s[i].0 != k,
    ensures
        key_index(s, k) == j,
    decreases j,
{
    if j > 0 {
        lemma_key_index_first(s.drop_first(), k, j - 1);
    }
}

/// Inserts `key -> value` into an attribute list with map semantics: the
/// first pair carrying the key has its value replaced, a new key is appended.
/// Distinct keys stay distinct either way.
pub(crate) fn upsert_attr(attrs: &mut Vec<(String, String)>, key: &str, value: &str)
    ensures
        kv_views(final(attrs)@) == kvs_upsert(kv_views(old(attrs)@), key@, value@),
        kvs_unique_keys(kv_views(old(attrs)@)) ==> kvs_unique_keys(kv_views(final(attrs)@)),
{
    let ghost kvs0 = kv_views(attrs@);
    let mut i: usize = 0;
    while i < attrs.len()
        invariant
            attrs@ == old(attrs)@,
            kvs0 == kv_views(attrs@),
            i <= attrs@.len(),
            forall|j: int| 0 <= j < i ==> kvs0[j].0 != key@,
        decreases attrs@.len() - i,
    {
        let pair = &attrs[i];
        let k: &String = &pair.0;
        let hit = str_eq(k.as_str(), key);
        if hit {
            proof {
                assert(attrs@[i as int].0@ == key@);
                assert(kvs0[i as int] == (attrs@[i as int].0@, attrs@[i as int].1@));
                assert(kvs0[i as int].0 == key@);
            }
            let new_pair = (key.to_owned(), value.to_owned());
            attrs.set(i, new_pair);
            proof {
                lemma_key_index_first(kvs0, key@, i as int);
                assert(kvs_has_key(kvs0, key@));
                assert(kv_views(attrs@) =~= kvs0.update(i as int, (key@, value@)));
                assert forall|p: int, q: int|
                    0 <= p < q < kv_views(attrs@).len() && kvs_unique_keys(kvs0) implies kv_views(
                    attrs@,
                )[p].0 != kv_views(attrs@)[q].0 by {
                    assert(kvs0[i as int].0 == key@);
                }
            }
            return ;
        }
        i += 1;
    }
    let new_pair = (key.to_owned(), value.to_owned());
    attrs.push(new_pair);
    proof {
        assert(!kvs_has_key(kvs0, key@));
        assert(kv_views(attrs@) =~= kvs0.push((key@, value@)));
        assert forall|p: int, q: int|
            0 <= p < q < kv_views(attrs@).len() && kvs_unique_keys(kvs0) implies kv_views(
            attrs@,
        )[p].0 != kv_views(attrs@)[q].0 by {
            if q == kvs0.len() {
                assert(kv_views(attrs@)[p].0 == kvs0[p].0);
            }
        }
    }
}

/// Character-by-character string equality.
pub(crate) fn str_eq(a: &str, b: &str) -> (r: bool)
    ensures
        r == (a@ == b@),
{
    let na = a.unicode_len();
    let nb = b.unicode_len();
    if na != nb {
        proof {
            assert(a@ != b@);
        }
        return false;
    }
    let mut i: usize = 0;
    while i < na
        invariant
            na == a@.len(),
            na == b@.len(),
            i <= na,
            forall|j: int| 0 <= j < i ==> a@[j] == b@[j],
        decreases na - i,
    {
        let ca = a.get_char(i);
        let cb = b.get_char(i);
        if ca != cb {
            return false;
        }
        i += 1;
    }
    proof {
        assert(a@ =~= b@);
    }
    true
}

} // verus!
