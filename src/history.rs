//! The version history: an insertion-ordered map from version label to
//! revision, kept in a `LinkedHashMap`.

use linked_hash_map::LinkedHashMap;
use vstd::prelude::*;

verus! {

/// Ordered (label, revision) pairs, oldest insertion first.
pub type Entries = Seq<(Seq<char>, Seq<char>)>;

#[verifier::external_type_specification]
#[verifier::external_body]
#[verifier::reject_recursive_types(K)]
#[verifier::reject_recursive_types(V)]
#[verifier::reject_recursive_types(S)]
pub struct ExLinkedHashMap<K, V, S>(LinkedHashMap<K, V, S>);

/// The pairs that a map holds, in the order in which its iterators visit them.
pub uninterp spec fn entries_of(m: LinkedHashMap<String, String>) -> Entries;

/// `es` after inserting `k` with `v`: an earlier pair for `k` goes, and the
/// new pair stands last.
pub open spec fn put(es: Entries, k: Seq<char>, v: Seq<char>) -> Entries {
    without(es, k).push((k, v))
}

/// The pairs of `es` whose label is not `k`.
pub open spec fn without(es: Entries, k: Seq<char>) -> Entries {
    es.filter(|e: (Seq<char>, Seq<char>)| e.0 != k)
}

/// The revision stored for `k`, if any.
pub open spec fn lookup(es: Entries, k: Seq<char>) -> Option<Seq<char>>
    decreases es.len(),
{
    if es.len() == 0 {
        None
    } else if es.last().0 == k {
        Some(es.last().1)
    } else {
        lookup(es.drop_last(), k)
    }
}

/// The labels of `es`, in order.
pub open spec fn labels_of(es: Entries) -> Seq<Seq<char>> {
    es.map_values(|e: (Seq<char>, Seq<char>)| e.0)
}

/// After `k` is put with `v`, `k` maps to `v`.
pub proof fn lemma_lookup_put_same(es: Entries, k: Seq<char>, v: Seq<char>)
    ensures
        lookup(put(es, k, v), k) == Some(v),
{
    assert(put(es, k, v).drop_last() =~= without(es, k));
}

/// Leaving out the pairs of `k` changes what no other label maps to.
proof fn lemma_lookup_filter_other(es: Entries, k: Seq<char>, k2: Seq<char>)
    requires
        k2 != k,
    ensures
        lookup(without(es, k), k2) == lookup(es, k2),
    decreases es.len(),
{
    let f = without(es, k);
    reveal(Seq::filter);
    if es.len() > 0 {
        lemma_lookup_filter_other(es.drop_last(), k, k2);
        let sub = without(es.drop_last(), k);
        if es.last().0 != k {
            assert(f == sub.push(es.last()));
            assert(f.drop_last() =~= sub);
        } else {
            assert(f == sub);
        }
    }
}

/// Putting `k` changes what no other label maps to.
pub proof fn lemma_lookup_put_other(es: Entries, k: Seq<char>, v: Seq<char>, k2: Seq<char>)
    requires
        k2 != k,
    ensures
        lookup(put(es, k, v), k2) == lookup(es, k2),
{
    assert(put(es, k, v).drop_last() =~= without(es, k));
    lemma_lookup_filter_other(es, k, k2);
}

/// Every label that a history lists maps to a revision: a label picked
/// from the list always resolves.
pub proof fn label_always_resolves(es: Entries, i: int)
    requires
        0 <= i < es.len(),
    ensures
        lookup(es, labels_of(es)[i]) is Some,
    decreases es.len(),
{
    if es.last().0 != es[i].0 {
        assert(i < es.len() - 1);
        assert(es.drop_last()[i] == es[i]);
        label_always_resolves(es.drop_last(), i);
    }
}

/// Relies on `LinkedHashMap::new`: the new map is empty.
#[verifier::external_body]
fn map_new() -> (r: LinkedHashMap<String, String>)
    ensures
        entries_of(r) == Seq::<(Seq<char>, Seq<char>)>::empty(),
{
    LinkedHashMap::new()
}

/// Relies on `LinkedHashMap::insert`: a new key is attached at the back; an
/// existing key gets the new value and is moved to the back.
#[verifier::external_body]
fn map_insert(m: &mut LinkedHashMap<String, String>, k: String, v: String)
    ensures
        entries_of(*final(m)) == put(entries_of(*old(m)), k@, v@),
{
    m.insert(k, v);
}

/// Relies on `LinkedHashMap::get`: the value stored for the key.
#[verifier::external_body]
fn map_get(m: &LinkedHashMap<String, String>, k: &String) -> (r: Option<String>)
    ensures
        r.is_some() == lookup(entries_of(*m), k@).is_some(),
        r.is_some() ==> r.unwrap()@ == lookup(entries_of(*m), k@).unwrap(),
{
    m.get(k).cloned()
}

/// Relies on `LinkedHashMap::is_empty`: whether the map holds no pair.
#[verifier::external_body]
fn map_is_empty(m: &LinkedHashMap<String, String>) -> (r: bool)
    ensures
        r == (entries_of(*m).len() == 0),
{
    m.is_empty()
}

/// Relies on `LinkedHashMap::keys`: the keys, in the map's order.
#[verifier::external_body]
fn map_keys(m: &LinkedHashMap<String, String>) -> (r: Vec<String>)
    ensures
        r@.map_values(|s: String| s@) == labels_of(entries_of(*m)),
{
    m.keys().cloned().collect()
}

/// Version labels mapped to revisions, in order of insertion.
pub struct VersionHistory {
    map: LinkedHashMap<String, String>,
}

impl View for VersionHistory {
    type V = Entries;

    closed spec fn view(&self) -> Entries {
        entries_of(self.map)
    }
}

impl VersionHistory {
    /// An empty history.
    pub fn new() -> (r: VersionHistory)
        ensures
            r@ == Seq::<(Seq<char>, Seq<char>)>::empty(),
    {
        VersionHistory { map: map_new() }
    }

    /// Records `revision` for `label`, replacing and moving to the back an
    /// earlier record of the same label.
    pub fn insert(&mut self, label: String, revision: String)
        ensures
            final(self)@ == put(old(self)@, label@, revision@),
    {
        map_insert(&mut self.map, label, revision);
    }

    /// The revision recorded for `label`.
    pub fn get(&self, label: &String) -> (r: Option<String>)
        ensures
            r.is_some() == lookup(self@, label@).is_some(),
            r.is_some() ==> r.unwrap()@ == lookup(self@, label@).unwrap(),
    {
        map_get(&self.map, label)
    }

    /// Whether nothing is recorded.
    pub fn is_empty(&self) -> (r: bool)
        ensures
            r == (self@.len() == 0),
    {
        map_is_empty(&self.map)
    }

    /// The recorded labels, in order of insertion.
    pub fn labels(&self) -> (r: Vec<String>)
        ensures
            r@.map_values(|s: String| s@) == labels_of(self@),
    {
        map_keys(&self.map)
    }
}

} // verus!
