use vstd::prelude::*;
use crate::message::Method;

pub mod dynamic_router;

verus! {

#[verifier::external_type_specification]
#[verifier::external_body]
#[verifier::reject_recursive_types(K)]
#[verifier::reject_recursive_types(V)]
pub struct ExCHashMap<K, V>(chashmap::CHashMap<K, V>);

/// What a concurrent route table holds: handler ids keyed by path and
/// method code.
pub uninterp spec fn route_contents(m: chashmap::CHashMap<(String, u8), u64>) -> Map<
    (Seq<char>, u8),
    u64,
>;

/// A table with no routes at all.
pub open spec fn empty_routes() -> Map<(Seq<char>, u8), u64> {
    Map::empty()
}

/// The handler id registered under a key, if any.
pub open spec fn route_lookup(
    m: Map<(Seq<char>, u8), u64>,
    path: Seq<char>,
    code: u8,
) -> Option<u64> {
    if m.dom().contains((path, code)) {
        Some(m[(path, code)])
    } else {
        None
    }
}

/// Relies on chashmap::CHashMap::new: a new map has no entries.
#[verifier::external_body]
pub(crate) fn route_map_new() -> (m: chashmap::CHashMap<(String, u8), u64>)
    ensures
        route_contents(m) == empty_routes(),
{
    chashmap::CHashMap::new()
}

/// Relies on chashmap::CHashMap::insert: replaces any existing entry
/// under the key.
#[verifier::external_body]
pub(crate) fn route_map_insert(
    m: &mut chashmap::CHashMap<(String, u8), u64>,
    path: &str,
    code: u8,
    handler: u64,
)
    ensures
        route_contents(*final(m)) == route_contents(*old(m)).insert((path@, code), handler),
{
    let _ = m.insert((path.to_owned(), code), handler);
}

/// Relies on chashmap::CHashMap::remove: takes out the entry under the
/// key; absence is not an error.
#[verifier::external_body]
pub(crate) fn route_map_remove(m: &mut chashmap::CHashMap<(String, u8), u64>, path: &str, code: u8)
    ensures
        route_contents(*final(m)) == route_contents(*old(m)).remove((path@, code)),
{
    let _ = m.remove(&(path.to_owned(), code));
}

/// Relies on chashmap::CHashMap::clear: leaves the map empty.
#[verifier::external_body]
pub(crate) fn route_map_clear(m: &mut chashmap::CHashMap<(String, u8), u64>)
    ensures
        route_contents(*final(m)) == empty_routes(),
{
    let _ = m.clear();
}

/// Relies on chashmap::CHashMap::get: the value under the key, if any.
#[verifier::external_body]
pub(crate) fn route_map_get(
    m: &chashmap::CHashMap<(String, u8), u64>,
    path: &str,
    code: u8,
) -> (r: Option<u64>)
    ensures
        r == route_lookup(route_contents(*m), path@, code),
{
    m.get(&(path.to_owned(), code)).map(|g| *g)
}

/// The routing capability: resolve a path and a method to a handler id.
pub trait Router {
    /// The table this router answers from.
    spec fn routes(&self) -> Map<(Seq<char>, u8), u64>;

    /// Resolve `path` and `method` by exact match.  Absence of a route is
    /// a normal answer, not an error.
    fn get_handler(&self, path: &str, method: Method) -> (r: Option<u64>)
        ensures
            r == route_lookup(self.routes(), path@, method.code_spec()),
    ;
}

/// Law: a lookup immediately after an insert returns the just-inserted
/// handler, the insert having silently replaced any earlier entry; a
/// lookup right after a removal returns nothing.
pub proof fn lemma_route_insert_then_lookup(
    m: Map<(Seq<char>, u8), u64>,
    path: Seq<char>,
    code: u8,
    handler: u64,
)
    ensures
        route_lookup(m.insert((path, code), handler), path, code) == Some(handler),
        route_lookup(m.remove((path, code)), path, code) is None,
{
}

/// Law: an insert or a removal under one key leaves lookups under every
/// other key unchanged.
pub proof fn lemma_route_other_keys_unchanged(
    m: Map<(Seq<char>, u8), u64>,
    path: Seq<char>,
    code: u8,
    handler: u64,
    other_path: Seq<char>,
    other_code: u8,
)
    requires
        (other_path, other_code) != (path, code),
    ensures
        route_lookup(m.insert((path, code), handler), other_path, other_code) == route_lookup(
            m,
            other_path,
            other_code,
        ),
        route_lookup(m.remove((path, code)), other_path, other_code) == route_lookup(
            m,
            other_path,
            other_code,
        ),
{
}

/// Law: after clearing, every lookup returns nothing, however many
/// entries the table held before.
pub proof fn lemma_route_clear_then_lookup(path: Seq<char>, code: u8)
    ensures
        route_lookup(Map::<(Seq<char>, u8), u64>::empty(), path, code) is None,
{
}

} // verus!
