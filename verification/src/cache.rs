//! Concurrent keyed stores for open documents and cached metadata records,
//! backed by `dashmap`. The maps are reached only through the trusted items
//! below; everything built on them is verified against these contracts.

use vstd::prelude::*;

use crate::document::Buffer;
use crate::entity::Entity;

verus! {

#[verifier::external_type_specification]
#[verifier::external_body]
#[verifier::reject_recursive_types(K)]
#[verifier::reject_recursive_types(V)]
#[verifier::reject_recursive_types(S)]
pub struct ExDashMap<K, V, S>(dashmap::DashMap<K, V, S>);

/// What a document map holds: its abstract contents as a map from document
/// identifiers to buffers.
pub uninterp spec fn buffer_map_view(m: dashmap::DashMap<String, Buffer>) -> Map<Seq<char>, Buffer>;

/// What an entity cache holds: its abstract contents as a map from cache keys
/// to records.
pub uninterp spec fn entity_map_view(m: dashmap::DashMap<String, Entity>) -> Map<Seq<char>, Entity>;

/// The empty document-map contents.
pub open spec fn no_buffers() -> Map<Seq<char>, Buffer> {
    Map::empty()
}

/// The empty entity-cache contents.
pub open spec fn no_entities() -> Map<Seq<char>, Entity> {
    Map::empty()
}

/// Relies on dashmap::DashMap::new: a freshly created map is empty.
#[verifier::external_body]
pub fn buffer_map_new() -> (r: dashmap::DashMap<String, Buffer>)
    ensures
        buffer_map_view(r) == no_buffers(),
{
    dashmap::DashMap::new()
}

/// Relies on dashmap::DashMap::insert: afterwards the key maps to the given
/// value, any earlier value for it overwritten; other entries are unchanged.
#[verifier::external_body]
pub fn buffer_map_insert(m: &mut dashmap::DashMap<String, Buffer>, k: String, v: Buffer)
    ensures
        buffer_map_view(*final(m)) == buffer_map_view(*old(m)).insert(k@, v),
{
    m.insert(k, v);
}

/// Relies on dashmap::DashMap::get: returns the value the key maps to, if
/// any. The value is handed out as a copy.
#[verifier::external_body]
pub fn buffer_map_get(m: &dashmap::DashMap<String, Buffer>, k: &String) -> (r: Option<Buffer>)
    ensures
        match r {
            Some(b) => buffer_map_view(*m).dom().contains(k@) && b == buffer_map_view(*m)[k@],
            None => !buffer_map_view(*m).dom().contains(k@),
        },
{
    m.get(k).map(|e| e.value().clone())
}

/// Relies on dashmap::DashMap::new: a freshly created map is empty.
#[verifier::external_body]
pub fn entity_map_new() -> (r: dashmap::DashMap<String, Entity>)
    ensures
        entity_map_view(r) == no_entities(),
{
    dashmap::DashMap::new()
}

/// Relies on dashmap::DashMap::insert: afterwards the key maps to the given
/// value, any earlier value for it overwritten; other entries are unchanged.
#[verifier::external_body]
pub fn entity_map_insert(m: &mut dashmap::DashMap<String, Entity>, k: String, v: Entity)
    ensures
        entity_map_view(*final(m)) == entity_map_view(*old(m)).insert(k@, v),
{
    m.insert(k, v);
}

/// Relies on dashmap::DashMap::iter: yields each entry exactly once, in an
/// unspecified order. The entries are handed out as copies.
#[verifier::external_body]
pub fn entity_map_entries(m: &dashmap::DashMap<String, Entity>) -> (r: Vec<(String, Entity)>)
    ensures
        forall|i: int, j: int| 0 <= i < j < r@.len() ==> r@[i].0@ != r@[j].0@,
        forall|i: int|
            0 <= i < r@.len() ==> entity_map_view(*m).contains_pair(r@[i].0@, r@[i].1),
        forall|k: Seq<char>|
            entity_map_view(*m).dom().contains(k) ==> exists|i: int|
                0 <= i < r@.len() && r@[i].0@ == k,
{
    let mut out = Vec::new();
    for e in m.iter() {
        out.push((e.key().clone(), e.value().clone()));
    }
    out
}

} // verus!
