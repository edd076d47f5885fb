use vstd::prelude::*;

verus! {

// Ordered maps, modelled as lists of entries: keys are unique and entries
// keep the order in which their keys were first inserted.

/// The model of an entry.
pub open spec fn entry_view<V: View>(e: (String, V)) -> (Seq<char>, V::V) {
    (e.0@, e.1@)
}

/// The model of a keyed list.
pub open spec fn entries_view<V: View>(m: Seq<(String, V)>) -> Seq<(Seq<char>, V::V)> {
    m.map_values(|e: (String, V)| entry_view(e))
}

/// Whether every key occurs once.
pub open spec fn keys_unique<W>(m: Seq<(Seq<char>, W)>) -> bool {
    forall|i: int, j: int| 0 <= i < j < m.len() ==> (#[trigger] m[i]).0 != (#[trigger] m[j]).0
}

pub open spec fn has_key<W>(m: Seq<(Seq<char>, W)>, k: Seq<char>) -> bool {
    exists|i: int| 0 <= i < m.len() && (#[trigger] m[i]).0 == k
}

/// The first position that holds a key.
pub open spec fn key_index<W>(m: Seq<(Seq<char>, W)>, k: Seq<char>) -> int {
    choose|i: int| 0 <= i < m.len() && (#[trigger] m[i]).0 == k && forall|j: int| 0 <= j < i ==> (#[trigger] m[j]).0 != k
}

/// Inserting into an ordered map: a present key has its value replaced in
/// place; a new key is appended.
pub open spec fn map_insert<W>(m: Seq<(Seq<char>, W)>, k: Seq<char>, v: W) -> Seq<(Seq<char>, W)> {
    if has_key(m, k) {
        m.update(key_index(m, k), (k, v))
    } else {
        m.push((k, v))
    }
}

/// Inserting every entry of a list in order.
pub open spec fn map_insert_all<W>(m: Seq<(Seq<char>, W)>, es: Seq<(Seq<char>, W)>) -> Seq<(Seq<char>, W)>
    decreases es.len(),
{
    if es.len() == 0 {
        m
    } else {
        map_insert(map_insert_all(m, es.drop_last()), es.last().0, es.last().1)
    }
}

/// Inserting keeps keys unique.
pub proof fn lemma_map_insert_keeps_keys_unique<W>(m: Seq<(Seq<char>, W)>, k: Seq<char>, v: W)
    requires
        keys_unique(m),
    ensures
        keys_unique(map_insert(m, k, v)),
        has_key(map_insert(m, k, v), k),
{
    let r = map_insert(m, k, v);
    if has_key(m, k) {
        let c = key_index(m, k);
        assert(r[c] == (k, v));
        assert forall|i: int, j: int| 0 <= i < j < r.len() implies (#[trigger] r[i]).0 != (#[trigger] r[j]).0 by {
            if i != c && j != c {
                assert(m[i].0 != m[j].0);
            } else if i == c {
                assert(m[i].0 != m[j].0);
            } else {
                assert(m[i].0 != m[j].0);
            }
        }
    } else {
        assert(r[m.len() as int] == (k, v));
        assert forall|i: int, j: int| 0 <= i < j < r.len() implies (#[trigger] r[i]).0 != (#[trigger] r[j]).0 by {
            if j == m.len() {
                assert(r[i] == m[i]);
            } else {
                assert(m[i].0 != m[j].0);
            }
        }
    }
}

/// Inserting every entry of a list keeps keys unique.
pub proof fn lemma_map_insert_all_keeps_keys_unique<W>(m: Seq<(Seq<char>, W)>, es: Seq<(Seq<char>, W)>)
    requires
        keys_unique(m),
    ensures
        keys_unique(map_insert_all(m, es)),
    decreases es.len(),
{
    if es.len() > 0 {
        lemma_map_insert_all_keeps_keys_unique(m, es.drop_last());
        lemma_map_insert_keeps_keys_unique(map_insert_all(m, es.drop_last()), es.last().0, es.last().1);
    }
}

} // verus!
