use vstd::prelude::*;
use crate::message::Method;
use crate::router::{empty_routes, route_contents, route_lookup, route_map_clear, route_map_get,
    route_map_insert, route_map_new, route_map_remove};

verus! {

/// The routing plugin: a concurrent table from path and method to a
/// handler id.  During dispatch a match hands the context to that
/// handler; no match passes the context through untouched.
pub struct Router {
    routes: chashmap::CHashMap<(String, u8), u64>,
}

impl Router {
    /// The table's mathematical contents.
    pub closed spec fn table(&self) -> Map<(Seq<char>, u8), u64> {
        route_contents(self.routes)
    }

    pub fn new() -> (r: Router)
        ensures
            r.table() == empty_routes(),
    {
        Router { routes: route_map_new() }
    }

    /// Define a route (insert or replace).
    pub fn insert(&mut self, path: &str, method: Method, handler: u64)
        ensures
            final(self).table() == old(self).table().insert(
                (path@, method.code_spec()),
                handler,
            ),
    {
        let code = method.code();
        route_map_insert(&mut self.routes, path, code, handler);
    }

    /// Remove a route; absence is not an error.
    pub fn remove(&mut self, path: &str, method: Method)
        ensures
            final(self).table() == old(self).table().remove((path@, method.code_spec())),
    {
        let code = method.code();
        route_map_remove(&mut self.routes, path, code);
    }

    /// Remove all routes.
    pub fn clear(&mut self)
        ensures
            final(self).table() == empty_routes(),
    {
        route_map_clear(&mut self.routes);
    }

    /// The handler registered for a path and method, by exact match.
    /// Nothing registered is a normal answer, not an error.
    pub fn lookup(&self, path: &str, method: Method) -> (r: Option<u64>)
        ensures
            r == route_lookup(self.table(), path@, method.code_spec()),
    {
        let code = method.code();
        route_map_get(&self.routes, path, code)
    }
}

} // verus!
