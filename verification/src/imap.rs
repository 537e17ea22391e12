//! The renderer's two ordered tables — the type graph snapshot and the alias
//! table — are `indexmap::IndexMap`s.  The map type is declared here and each
//! method the renderer calls gets a small trusted wrapper whose contract
//! speaks of the map's contents as a sequence of key/value pairs in insertion
//! order.

use vstd::prelude::*;
use indexmap::IndexMap;
use crate::schema::Schema;

verus! {

#[verifier::external_type_specification]
#[verifier::external_body]
#[verifier::reject_recursive_types(K)]
#[verifier::reject_recursive_types(V)]
#[verifier::reject_recursive_types(S)]
pub struct ExIndexMap<K, V, S>(IndexMap<K, V, S>);

/// The contents of an alias table: its `(name, body)` pairs in insertion
/// order, as string views.
pub uninterp spec fn alias_entries(m: IndexMap<String, String>) -> Seq<(Seq<char>, Seq<char>)>;

/// The contents of a type graph: its `(name, schema)` pairs in insertion
/// order, names as string views.
pub uninterp spec fn graph_entries(m: IndexMap<String, Schema>) -> Seq<(Seq<char>, Schema)>;

/// Whether some entry carries the key.
pub open spec fn has_key<V>(es: Seq<(Seq<char>, V)>, k: Seq<char>) -> bool {
    exists|i: int| 0 <= i < es.len() && (#[trigger] es[i]).0 == k
}

/// The position of the first entry carrying the key.
pub open spec fn first_key_index<V>(es: Seq<(Seq<char>, V)>, k: Seq<char>) -> int
    decreases es.len(),
{
    if es.len() == 0 {
        0
    } else if es[0].0 == k {
        0
    } else {
        1 + first_key_index(es.skip(1), k)
    }
}

/// The value of the first entry carrying the key.
pub open spec fn key_value<V>(es: Seq<(Seq<char>, V)>, k: Seq<char>) -> V {
    es[first_key_index(es, k)].1
}

/// What an insertion-ordered map's `insert` does to the contents: an
/// existing key keeps its place and has its value updated; a new key is
/// appended.
pub open spec fn spec_insert<V>(es: Seq<(Seq<char>, V)>, k: Seq<char>, v: V) -> Seq<
    (Seq<char>, V),
> {
    if has_key(es, k) {
        es.update(first_key_index(es, k), (k, v))
    } else {
        es.push((k, v))
    }
}

/// When the key is present, its first index is in range, carries the key,
/// and nothing before it does.
pub proof fn lemma_first_key_index<V>(es: Seq<(Seq<char>, V)>, k: Seq<char>)
    requires
        has_key(es, k),
    ensures
        0 <= first_key_index(es, k) < es.len(),
        es[first_key_index(es, k)].0 == k,
        forall|j: int| 0 <= j < first_key_index(es, k) ==> (#[trigger] es[j]).0 != k,
    decreases es.len(),
{
    if es.len() == 0 {
    } else if es[0].0 == k {
    } else {
        let tail = es.skip(1);
        assert(has_key(tail, k)) by {
            let i = choose|i: int| 0 <= i < es.len() && (#[trigger] es[i]).0 == k;
            assert(tail[i - 1] == es[i]);
        }
        lemma_first_key_index(tail, k);
        assert forall|j: int| 0 <= j < first_key_index(es, k) implies (#[trigger] es[j]).0
            != k by {
            if j > 0 {
                assert(tail[j - 1] == es[j]);
            }
        }
    }
}

/// After an insert the key is present and maps to the new value.
pub proof fn lemma_insert_found<V>(es: Seq<(Seq<char>, V)>, k: Seq<char>, v: V)
    ensures
        has_key(spec_insert(es, k, v), k),
        key_value(spec_insert(es, k, v), k) == v,
{
    let es2 = spec_insert(es, k, v);
    if has_key(es, k) {
        lemma_first_key_index(es, k);
        let i = first_key_index(es, k);
        assert(es2[i].0 == k);
        assert(has_key(es2, k));
        lemma_first_key_index(es2, k);
        let i2 = first_key_index(es2, k);
        if i2 < i {
            assert(es[i2] == es2[i2]);
        }
        assert(i2 == i);
    } else {
        let i = es.len() as int;
        assert(es2[i].0 == k);
        assert(has_key(es2, k));
        lemma_first_key_index(es2, k);
        let i2 = first_key_index(es2, k);
        if i2 < i {
            assert(es[i2] == es2[i2]);
            assert(has_key(es, k));
        }
        assert(i2 == i);
    }
}


/// The length of the longest key among the entries.
pub open spec fn max_key_len(es: Seq<(Seq<char>, Seq<char>)>) -> nat
    decreases es.len(),
{
    if es.len() == 0 {
        0
    } else {
        let m = max_key_len(es.drop_last());
        if es.last().0.len() > m {
            es.last().0.len()
        } else {
            m
        }
    }
}

/// A present key is never longer than the longest key.
pub proof fn lemma_key_len_bound(es: Seq<(Seq<char>, Seq<char>)>, k: Seq<char>)
    requires
        has_key(es, k),
    ensures
        k.len() <= max_key_len(es),
    decreases es.len(),
{
    let i = choose|i: int| 0 <= i < es.len() && (#[trigger] es[i]).0 == k;
    if i == es.len() - 1 {
    } else {
        assert(has_key(es.drop_last(), k)) by {
            assert(es.drop_last()[i] == es[i]);
        }
        lemma_key_len_bound(es.drop_last(), k);
    }
}

/// The candidate name lengthened with underscores until no entry carries
/// it; a name longer than every key is always free, so this terminates.
pub open spec fn spec_pad_name(es: Seq<(Seq<char>, Seq<char>)>, c: Seq<char>) -> Seq<char>
    decreases max_key_len(es) + 1 - c.len(),
    via spec_pad_name_decreases
{
    if has_key(es, c) {
        spec_pad_name(es, c.push('_'))
    } else {
        c
    }
}

#[via_fn]
proof fn spec_pad_name_decreases(es: Seq<(Seq<char>, Seq<char>)>, c: Seq<char>) {
    if has_key(es, c) {
        lemma_key_len_bound(es, c);
    }
}

/// The padded name is not a key of the table.
pub proof fn lemma_pad_fresh(es: Seq<(Seq<char>, Seq<char>)>, c: Seq<char>)
    ensures
        !has_key(es, spec_pad_name(es, c)),
    decreases max_key_len(es) + 1 - c.len(),
{
    if has_key(es, c) {
        lemma_key_len_bound(es, c);
        lemma_pad_fresh(es, c.push('_'));
    }
}

/// The name a fresh alias is synthesized under: the prefix followed by the
/// table's current size, lengthened if some entry already carries that
/// name, so that synthesis never disturbs an existing entry.
pub open spec fn spec_fresh_alias(es: Seq<(Seq<char>, Seq<char>)>, prefix: Seq<char>) -> Seq<
    char,
> {
    spec_pad_name(es, prefix + crate::strutil::dec_nat(es.len()))
}

// ---------------------------------------------------------------------------
// Alias table wrappers.
// ---------------------------------------------------------------------------

/// Relies on `IndexMap::new`: the new map is empty.
#[verifier::external_body]
pub fn aliases_new() -> (r: IndexMap<String, String>)
    ensures
        alias_entries(r) == Seq::<(Seq<char>, Seq<char>)>::empty(),
{
    IndexMap::new()
}

/// Relies on `IndexMap::len`: the number of entries.
#[verifier::external_body]
pub fn aliases_len(m: &IndexMap<String, String>) -> (r: usize)
    ensures
        r == alias_entries(*m).len(),
{
    m.len()
}

/// Relies on `IndexMap::get`: the value stored under the key, if any.
#[verifier::external_body]
pub fn aliases_get<'a>(m: &'a IndexMap<String, String>, k: &str) -> (r: Option<&'a String>)
    ensures
        has_key(alias_entries(*m), k@) ==> r is Some,
        has_key(alias_entries(*m), k@) ==> (r->0)@ == key_value(alias_entries(*m), k@),
        !has_key(alias_entries(*m), k@) ==> r is None,
{
    m.get(k)
}

/// Relies on `IndexMap::insert`: an existing key keeps its place and has its
/// value updated, a new key is appended last.
#[verifier::external_body]
pub fn aliases_insert(m: &mut IndexMap<String, String>, k: String, v: String)
    ensures
        alias_entries(*final(m)) == spec_insert(alias_entries(*old(m)), k@, v@),
{
    m.insert(k, v);
}

/// Relies on `IndexMap::get_index`: the entry at a position, in insertion
/// order.
#[verifier::external_body]
pub fn aliases_get_index<'a>(m: &'a IndexMap<String, String>, i: usize) -> (r: Option<
    (&'a String, &'a String),
>)
    ensures
        i < alias_entries(*m).len() ==> r is Some,
        i < alias_entries(*m).len() ==> (r->0).0@ == alias_entries(*m)[i as int].0,
        i < alias_entries(*m).len() ==> (r->0).1@ == alias_entries(*m)[i as int].1,
        i >= alias_entries(*m).len() ==> r is None,
{
    m.get_index(i)
}

// ---------------------------------------------------------------------------
// Type graph wrappers.
// ---------------------------------------------------------------------------

/// Relies on `IndexMap::new`: the new map is empty.
#[verifier::external_body]
pub fn graph_new() -> (r: IndexMap<String, Schema>)
    ensures
        graph_entries(r) == Seq::<(Seq<char>, Schema)>::empty(),
{
    IndexMap::new()
}

/// Relies on `IndexMap::len`: the number of entries.
#[verifier::external_body]
pub fn graph_len(m: &IndexMap<String, Schema>) -> (r: usize)
    ensures
        r == graph_entries(*m).len(),
{
    m.len()
}

/// Relies on `IndexMap::contains_key`: whether some entry carries the key.
#[verifier::external_body]
pub fn graph_contains(m: &IndexMap<String, Schema>, k: &str) -> (r: bool)
    ensures
        r == has_key(graph_entries(*m), k@),
{
    m.contains_key(k)
}

/// Relies on `IndexMap::get_index`: the entry at a position, in insertion
/// order.
#[verifier::external_body]
pub fn graph_get_index<'a>(m: &'a IndexMap<String, Schema>, i: usize) -> (r: Option<
    (&'a String, &'a Schema),
>)
    ensures
        i < graph_entries(*m).len() ==> r is Some,
        i < graph_entries(*m).len() ==> (r->0).0@ == graph_entries(*m)[i as int].0,
        i < graph_entries(*m).len() ==> *((r->0).1) == graph_entries(*m)[i as int].1,
        i >= graph_entries(*m).len() ==> r is None,
{
    m.get_index(i)
}

} // verus!
