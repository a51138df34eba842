//! Facts about sequences of keyed entries, such as the registries the
//! library keeps in a `Vec` with one entry per key.

use vstd::prelude::*;

verus! {

/// The keys of the entries of `s`.
pub open spec fn keys_in<T, K>(s: Seq<T>, key: spec_fn(T) -> K) -> Set<K> {
    Set::new(|k: K| exists|a: int| 0 <= a < s.len() && key(#[trigger] s[a]) == k)
}

/// Removing entry `i` of a sequence whose entries have distinct keys keeps
/// the keys distinct, and leaves exactly the other keys, each on the entry
/// that held it.
pub proof fn lemma_remove_keyed<T, K>(s: Seq<T>, key: spec_fn(T) -> K, i: int)
    requires
        0 <= i < s.len(),
        forall|a: int, b: int| 0 <= a < b < s.len() ==> key(#[trigger] s[a]) != key(#[trigger] s[b]),
    ensures
        forall|a: int, b: int|
            0 <= a < b < s.remove(i).len() ==> key(#[trigger] s.remove(i)[a]) != key(#[trigger] s.remove(i)[b]),
        forall|a: int| 0 <= a < s.remove(i).len() ==> #[trigger] s.remove(i)[a] == s[if a < i { a } else { a + 1 }],
        keys_in(s.remove(i), key) == keys_in(s, key).remove(key(s[i])),
{
    let r = s.remove(i);
    assert forall|a: int, b: int| 0 <= a < b < r.len() implies key(#[trigger] r[a]) != key(#[trigger] r[b]) by {
        let a2 = if a < i { a } else { a + 1 };
        let b2 = if b < i { b } else { b + 1 };
        assert(r[a] == s[a2]);
        assert(r[b] == s[b2]);
    }
    assert forall|k: K| #[trigger] keys_in(r, key).contains(k) <==> keys_in(s, key).remove(key(s[i])).contains(k) by {
        if keys_in(r, key).contains(k) {
            let a = choose|a: int| 0 <= a < r.len() && key(#[trigger] r[a]) == k;
            let a2 = if a < i { a } else { a + 1 };
            assert(r[a] == s[a2]);
            assert(a2 != i);
        }
        if keys_in(s, key).remove(key(s[i])).contains(k) {
            let a = choose|a: int| 0 <= a < s.len() && key(#[trigger] s[a]) == k;
            assert(a != i);
            let a2 = if a < i { a } else { a - 1 };
            assert(r[a2] == s[a]);
        }
    }
    assert(keys_in(r, key) =~= keys_in(s, key).remove(key(s[i])));
}

} // verus!
