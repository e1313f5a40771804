use pemmican::message::Method;
use pemmican::plugins::router::Router as PluginRouter;
use pemmican::router::dynamic_router::DynamicRouter;
use pemmican::router::Router;

#[test]
fn lookup_after_insert_returns_handler() {
    let mut r = DynamicRouter::new();
    r.insert("/", Method::Get, 1);
    r.insert("/about", Method::Get, 2);
    assert_eq!(r.get_handler("/", Method::Get), Some(1));
    assert_eq!(r.get_handler("/about", Method::Get), Some(2));
}

#[test]
fn insert_overwrites_silently() {
    let mut r = DynamicRouter::new();
    r.insert("/", Method::Get, 1);
    r.insert("/", Method::Get, 9);
    assert_eq!(r.get_handler("/", Method::Get), Some(9));
}

#[test]
fn lookup_after_remove_returns_nothing() {
    let mut r = DynamicRouter::new();
    r.insert("/", Method::Get, 1);
    r.remote("/", Method::Get);
    assert_eq!(r.get_handler("/", Method::Get), None);
}

#[test]
fn lookup_is_exact_on_path_and_method() {
    let mut r = DynamicRouter::new();
    r.insert("/a", Method::Get, 1);
    assert_eq!(r.get_handler("/a", Method::Post), None);
    assert_eq!(r.get_handler("/a/", Method::Get), None);
    assert_eq!(r.get_handler("/A", Method::Get), None);
}

#[test]
fn clear_forgets_every_route() {
    let mut r = DynamicRouter::new();
    r.insert("/", Method::Get, 1);
    r.insert("/a", Method::Post, 2);
    r.insert("/b", Method::Head, 3);
    r.clear();
    assert_eq!(r.get_handler("/", Method::Get), None);
    assert_eq!(r.get_handler("/a", Method::Post), None);
    assert_eq!(r.get_handler("/b", Method::Head), None);
}

#[test]
fn plugin_router_table_behaves_alike() {
    let mut r = PluginRouter::new();
    r.insert("/x", Method::Put, 4);
    assert_eq!(r.lookup("/x", Method::Put), Some(4));
    r.remove("/x", Method::Put);
    assert_eq!(r.lookup("/x", Method::Put), None);
    r.insert("/y", Method::Get, 5);
    r.clear();
    assert_eq!(r.lookup("/y", Method::Get), None);
}
