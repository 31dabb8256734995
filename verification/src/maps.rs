//! The insertion-ordered maps of the metadata, held in `indexmap::IndexMap`.

use vstd::prelude::*;
use indexmap::IndexMap;
use crate::model::{Agent, AgentV, PlatformId};

verus! {

/// `indexmap::IndexMap`, a hash map that keeps its entries in insertion order.
#[verifier::external_type_specification]
#[verifier::external_body]
#[verifier::reject_recursive_types(K)]
#[verifier::reject_recursive_types(V)]
#[verifier::reject_recursive_types(S)]
pub struct ExIndexMap<K, V, S>(IndexMap<K, V, S>);

/// The position of the first entry with key `k`, or -1.
pub open spec fn key_pos<K, V>(e: Seq<(K, V)>, k: K) -> int
    decreases e.len(),
{
    if e.len() == 0 {
        -1
    } else {
        let p = key_pos(e.drop_last(), k);
        if p >= 0 {
            p
        } else if e.last().0 == k {
            e.len() - 1
        } else {
            -1
        }
    }
}

/// The entries after `IndexMap::insert`: an entry with the same key keeps its place and takes
/// the new value, otherwise the pair goes last.
pub open spec fn entries_insert<K, V>(e: Seq<(K, V)>, k: K, v: V) -> Seq<(K, V)> {
    let p = key_pos(e, k);
    if p >= 0 {
        e.update(p, (k, v))
    } else {
        e.push((k, v))
    }
}

/// The entries after pushing `x` onto the list under key `k` (`entry(k).or_default().push(x)`).
pub open spec fn entries_push<K, X>(e: Seq<(K, Seq<X>)>, k: K, x: X) -> Seq<(K, Seq<X>)> {
    let p = key_pos(e, k);
    if p >= 0 {
        e.update(p, (k, e[p].1.push(x)))
    } else {
        e.push((k, seq![x]))
    }
}

/// The value under key `k`, if any.
pub open spec fn entries_get<K, V>(e: Seq<(K, V)>, k: K) -> Option<V> {
    let p = key_pos(e, k);
    if p >= 0 {
        Some(e[p].1)
    } else {
        None
    }
}

/// The entries of an agent map, in order: id and agent.
pub uninterp spec fn agent_entries(m: IndexMap<String, Agent>) -> Seq<(Seq<char>, AgentV)>;

/// The entries of a platform id map, in order.
pub uninterp spec fn platform_entries(m: IndexMap<PlatformId, Vec<String>>) -> Seq<
    (PlatformId, Seq<Seq<char>>),
>;

/// The entries of a map of raw properties, in order.
pub uninterp spec fn property_entries(m: IndexMap<String, Vec<String>>) -> Seq<
    (Seq<char>, Seq<Seq<char>>),
>;

/// The views of the strings of a vector.
pub open spec fn str_views(v: Seq<String>) -> Seq<Seq<char>> {
    v.map_values(|s: String| s@)
}

/// `IndexMap::new`: an empty agent map.
#[verifier::external_body]
pub(crate) fn agents_new() -> (m: IndexMap<String, Agent>)
    ensures
        agent_entries(m) == Seq::<(Seq<char>, AgentV)>::empty(),
{
    IndexMap::new()
}

/// `IndexMap::insert` on an agent map: an agent with the same id keeps its place and is
/// replaced, otherwise the agent goes last.
#[verifier::external_body]
pub(crate) fn agents_insert(m: &mut IndexMap<String, Agent>, id: String, agent: Agent)
    ensures
        agent_entries(*final(m)) == entries_insert(agent_entries(*old(m)), id@, agent@),
{
    m.insert(id, agent);
}

/// `IndexMap::get` on an agent map: the agent under `id`.
#[verifier::external_body]
pub(crate) fn agents_get<'a>(m: &'a IndexMap<String, Agent>, id: &str) -> (r: Option<&'a Agent>)
    ensures
        opt_agent_v(r) == entries_get(agent_entries(*m), id@),
{
    m.get(id)
}

/// The view of an optional agent reference.
pub open spec fn opt_agent_v(r: Option<&Agent>) -> Option<AgentV> {
    match r {
        Some(a) => Some(a@),
        None => None,
    }
}

/// `IndexMap::values` on an agent map, collected in order.
#[verifier::external_body]
pub(crate) fn agents_values<'a>(m: &'a IndexMap<String, Agent>) -> (r: Vec<&'a Agent>)
    ensures
        r@.len() == agent_entries(*m).len(),
        forall|i: int| 0 <= i < r@.len() ==> #[trigger] r@[i]@ == agent_entries(*m)[i].1,
{
    m.values().collect()
}

/// `IndexMap::new`: an empty platform id map.
#[verifier::external_body]
pub(crate) fn platforms_new() -> (m: IndexMap<PlatformId, Vec<String>>)
    ensures
        platform_entries(m) == Seq::<(PlatformId, Seq<Seq<char>>)>::empty(),
{
    IndexMap::new()
}

/// `entry(platform).or_default().push(id)` on a platform id map.
#[verifier::external_body]
pub(crate) fn platforms_push(m: &mut IndexMap<PlatformId, Vec<String>>, platform: PlatformId, id: String)
    ensures
        platform_entries(*final(m)) == entries_push(platform_entries(*old(m)), platform, id@),
{
    m.entry(platform).or_default().push(id);
}

/// `IndexMap::iter` on a platform id map, collected in order.
#[verifier::external_body]
pub(crate) fn platforms_iter<'a>(m: &'a IndexMap<PlatformId, Vec<String>>) -> (r: Vec<(&'a PlatformId, &'a Vec<String>)>)
    ensures
        r@.len() == platform_entries(*m).len(),
        forall|i: int|
            0 <= i < r@.len() ==> *(#[trigger] r@[i]).0 == platform_entries(*m)[i].0 && str_views(
                r@[i].1@,
            ) == platform_entries(*m)[i].1,
{
    m.iter().collect()
}

/// `IndexMap::new`: an empty map of raw properties.
#[verifier::external_body]
pub(crate) fn properties_new() -> (m: IndexMap<String, Vec<String>>)
    ensures
        property_entries(m) == Seq::<(Seq<char>, Seq<Seq<char>>)>::empty(),
{
    IndexMap::new()
}

/// `entry(key).or_default().push(value)` on a map of raw properties.
#[verifier::external_body]
pub(crate) fn properties_push(m: &mut IndexMap<String, Vec<String>>, key: String, value: String)
    ensures
        property_entries(*final(m)) == entries_push(property_entries(*old(m)), key@, value@),
{
    m.entry(key).or_default().push(value);
}

/// `IndexMap::iter` on a map of raw properties, collected in order.
#[verifier::external_body]
pub(crate) fn properties_iter<'a>(m: &'a IndexMap<String, Vec<String>>) -> (r: Vec<(&'a String, &'a Vec<String>)>)
    ensures
        r@.len() == property_entries(*m).len(),
        forall|i: int|
            0 <= i < r@.len() ==> (#[trigger] r@[i]).0@ == property_entries(*m)[i].0 && str_views(
                r@[i].1@,
            ) == property_entries(*m)[i].1,
{
    m.iter().collect()
}

/// Whether no key occurs twice among the entries.
pub open spec fn keys_distinct<K, V>(e: Seq<(K, V)>) -> bool {
    forall|i: int, j: int| 0 <= i < j < e.len() ==> (#[trigger] e[i]).0 != (#[trigger] e[j]).0
}

/// `key_pos` finds the key where it is, and gives -1 only when it is nowhere.
pub proof fn lemma_key_pos_found<K, V>(e: Seq<(K, V)>, k: K)
    ensures
        key_pos(e, k) >= 0 ==> key_pos(e, k) < e.len() && e[key_pos(e, k)].0 == k,
        key_pos(e, k) < 0 ==> key_pos(e, k) == -1 && forall|i: int| 0 <= i < e.len() ==> (#[trigger] e[i]).0 != k,
    decreases e.len(),
{
    if e.len() > 0 {
        lemma_key_pos_found(e.drop_last(), k);
        assert forall|i: int| 0 <= i < e.len() - 1 implies e[i] == e.drop_last()[i] by {}
    }
}

/// Pushing onto the list under a key keeps the keys distinct.
pub proof fn lemma_entries_push_distinct<K, X>(e: Seq<(K, Seq<X>)>, k: K, x: X)
    requires
        keys_distinct(e),
    ensures
        keys_distinct(entries_push(e, k, x)),
{
    lemma_key_pos_found(e, k);
    let r = entries_push(e, k, x);
    assert forall|i: int, j: int| 0 <= i < j < r.len() implies (#[trigger] r[i]).0 != (#[trigger] r[j]).0 by {
        if j == e.len() {
            assert(r[i] == e[i]);
        } else {
            assert(r[i].0 == e[i].0 && r[j].0 == e[j].0);
        }
    }
}

/// Inserting under a key keeps the keys distinct.
pub proof fn lemma_entries_insert_distinct<K, V>(e: Seq<(K, V)>, k: K, v: V)
    requires
        keys_distinct(e),
    ensures
        keys_distinct(entries_insert(e, k, v)),
{
    lemma_key_pos_found(e, k);
    let r = entries_insert(e, k, v);
    assert forall|i: int, j: int| 0 <= i < j < r.len() implies (#[trigger] r[i]).0 != (#[trigger] r[j]).0 by {
        if j == e.len() {
            assert(r[i] == e[i]);
        } else {
            assert(r[i].0 == e[i].0 && r[j].0 == e[j].0);
        }
    }
}

} // verus!
