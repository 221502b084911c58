//! Ordered key/value entries, the model of a JSON object.
//!
//! An object is a sequence of entries whose keys are pairwise distinct.
//! Setting a key that is present replaces its value where it stands;
//! setting a new key appends an entry at the end.

use vstd::prelude::*;

verus! {

/// The keys of `o`, in order.
pub open spec fn keys_of<V>(o: Seq<(Seq<char>, V)>) -> Seq<Seq<char>> {
    o.map_values(|e: (Seq<char>, V)| e.0)
}

/// No key occurs twice in `o`.
pub open spec fn unique_keys<V>(o: Seq<(Seq<char>, V)>) -> bool {
    keys_of(o).no_duplicates()
}

/// Some entry of `o` has the key `k`.
pub open spec fn has_key<V>(o: Seq<(Seq<char>, V)>, k: Seq<char>) -> bool {
    exists|i: int| 0 <= i < o.len() && o[i].0 == k
}

/// The position of the entry with key `k` (meaningful when `has_key(o, k)`).
pub open spec fn key_index<V>(o: Seq<(Seq<char>, V)>, k: Seq<char>) -> int {
    choose|i: int| 0 <= i < o.len() && o[i].0 == k
}

/// `o` with `k` bound to `v`: in place when the key is present, appended when not.
pub open spec fn set_entry<V>(o: Seq<(Seq<char>, V)>, k: Seq<char>, v: V) -> Seq<(Seq<char>, V)> {
    if has_key(o, k) {
        o.update(key_index(o, k), (k, v))
    } else {
        o.push((k, v))
    }
}

/// The value bound to `k` in `o`, if any.
pub open spec fn lookup<V>(o: Seq<(Seq<char>, V)>, k: Seq<char>) -> Option<V> {
    if has_key(o, k) {
        Some(o[key_index(o, k)].1)
    } else {
        None
    }
}

/// Executable entries, seen through the views of their keys and values.
pub open spec fn view_entries<V: View>(s: Seq<(String, V)>) -> Seq<(Seq<char>, V::V)> {
    s.map_values(|e: (String, V)| (e.0@, e.1@))
}

/// In an object with distinct keys, the entry found at `i` is the one `key_index` names.
pub proof fn lemma_key_index_unique<V>(o: Seq<(Seq<char>, V)>, i: int)
    requires
        unique_keys(o),
        0 <= i < o.len(),
    ensures
        has_key(o, o[i].0),
        key_index(o, o[i].0) == i,
{
    let k = o[i].0;
    assert(keys_of(o)[i] == k);
    let j = key_index(o, k);
    assert(keys_of(o)[j] == k);
}

/// Setting a key keeps the keys distinct, and adds exactly that key to the key set.
pub proof fn lemma_set_entry_keys<V>(o: Seq<(Seq<char>, V)>, k: Seq<char>, v: V)
    requires
        unique_keys(o),
    ensures
        unique_keys(set_entry(o, k, v)),
        keys_of(set_entry(o, k, v)).to_set() == keys_of(o).to_set().insert(k),
        has_key(o, k) ==> set_entry(o, k, v).len() == o.len(),
        !has_key(o, k) ==> set_entry(o, k, v).len() == o.len() + 1,
{
    let r = set_entry(o, k, v);
    if has_key(o, k) {
        let i = key_index(o, k);
        assert(keys_of(r) =~= keys_of(o));
        assert(keys_of(o)[i] == k);
        assert(keys_of(o).to_set().insert(k) =~= keys_of(o).to_set());
    } else {
        assert(keys_of(r) =~= keys_of(o).push(k));
        assert forall|a: int, b: int|
            0 <= a < keys_of(r).len() && 0 <= b < keys_of(r).len() && a != b
            implies keys_of(r)[a] != keys_of(r)[b] by {
            if a == o.len() {
                assert(o[b].0 == keys_of(r)[b]);
            } else if b == o.len() {
                assert(o[a].0 == keys_of(r)[a]);
            }
        }
        assert(keys_of(r).to_set() =~= keys_of(o).to_set().insert(k)) by {
            assert forall|x: Seq<char>| keys_of(r).to_set().contains(x)
                <==> keys_of(o).to_set().insert(k).contains(x) by {
                if keys_of(r).to_set().contains(x) {
                    let j = choose|j: int| 0 <= j < keys_of(r).len() && keys_of(r)[j] == x;
                    if j < o.len() {
                        assert(keys_of(o)[j] == x);
                    }
                }
                if keys_of(o).to_set().contains(x) {
                    let j = choose|j: int| 0 <= j < keys_of(o).len() && keys_of(o)[j] == x;
                    assert(keys_of(r)[j] == x);
                }
                if x == k {
                    assert(keys_of(r)[o.len() as int] == x);
                }
            }
        }
    }
}

/// After setting `k` to `v`, looking up `k` gives `v` and every other key is unchanged.
pub proof fn lemma_set_entry_lookup<V>(o: Seq<(Seq<char>, V)>, k: Seq<char>, v: V, k2: Seq<char>)
    requires
        unique_keys(o),
    ensures
        lookup(set_entry(o, k, v), k) == Some(v),
        k2 != k ==> lookup(set_entry(o, k, v), k2) == lookup(o, k2),
{
    lemma_set_entry_keys(o, k, v);
    let r = set_entry(o, k, v);
    let p = if has_key(o, k) { key_index(o, k) } else { o.len() as int };
    assert(r[p].0 == k);
    lemma_key_index_unique(r, p);
    if k2 != k {
        if has_key(o, k2) {
            let j = key_index(o, k2);
            lemma_key_index_unique(o, j);
            assert(r[j] == o[j]);
            lemma_key_index_unique(r, j);
        } else {
            if has_key(r, k2) {
                let j = key_index(r, k2);
                assert(o[j].0 == k2);
            }
        }
    }
}

/// Binds `k` to `v` in `entries`: replaces the value in place where the key
/// is present, appends a new entry where it is not.
pub fn set_entry_exec<V: View>(entries: &mut Vec<(String, V)>, k: String, v: V)
    requires
        unique_keys(view_entries(old(entries)@)),
    ensures
        view_entries(final(entries)@) == set_entry(view_entries(old(entries)@), k@, v@),
{
    let ghost o = view_entries(entries@);
    let mut i: usize = 0;
    while i < entries.len()
        invariant
            i <= entries.len(),
            entries@ == old(entries)@,
            o == view_entries(entries@),
            unique_keys(o),
            forall|j: int| 0 <= j < i ==> o[j].0 != k@,
        decreases entries.len() - i,
    {
        if entries[i].0 == k {
            proof {
                lemma_key_index_unique(o, i as int);
            }
            let ghost kv = k@;
            let ghost vv = v@;
            entries[i] = (k, v);
            assert(view_entries(entries@) =~= o.update(i as int, (kv, vv)));
            return;
        }
        i += 1;
    }
    let ghost kv = k@;
    let ghost vv = v@;
    entries.push((k, v));
    assert(view_entries(entries@) =~= o.push((kv, vv)));
}

} // verus!
