use vstd::prelude::*;
use crate::message::Method;
use crate::router::{empty_routes, route_contents, route_lookup, route_map_clear, route_map_get,
    route_map_insert, route_map_new, route_map_remove, Router};

verus! {

/// A dynamic router: routes can be modified at runtime.  The table is a
/// concurrent map, so lookups during a write observe either the old or
/// the new entry, never a torn one.
pub struct DynamicRouter {
    routes: chashmap::CHashMap<(String, u8), u64>,
}

impl DynamicRouter {
    /// The table's mathematical contents.
    pub closed spec fn table(&self) -> Map<(Seq<char>, u8), u64> {
        route_contents(self.routes)
    }

    pub fn new() -> (r: DynamicRouter)
        ensures
            r.table() == empty_routes(),
    {
        DynamicRouter { routes: route_map_new() }
    }

    /// Define a route (insert or replace).
    pub fn insert(&mut self, path: &str, method: Method, handler: u64)
        ensures
            final(self).table() == old(self).table().insert(
                (path@, method.code_spec()),
                handler,
            ),
    {
        let code = method.code();
        route_map_insert(&mut self.routes, path, code, handler);
    }

    /// Remove a route.
    pub fn remote(&mut self, path: &str, method: Method)
        ensures
            final(self).table() == old(self).table().remove((path@, method.code_spec())),
    {
        let code = method.code();
        route_map_remove(&mut self.routes, path, code);
    }

    /// Remove all routes.
    pub fn clear(&mut self)
        ensures
            final(self).table() == empty_routes(),
    {
        route_map_clear(&mut self.routes);
    }
}

impl Router for DynamicRouter {
    open spec fn routes(&self) -> Map<(Seq<char>, u8), u64> {
        self.table()
    }

    fn get_handler(&self, path: &str, method: Method) -> (r: Option<u64>)
        ensures
            r == route_lookup(self.routes(), path@, method.code_spec()),
    {
        let code = method.code();
        route_map_get(&self.routes, path, code)
    }
}

} // verus!
