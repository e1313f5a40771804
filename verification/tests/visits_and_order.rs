use pemmican::message::{Method, Request};
use pemmican::plugins::page_visits::PageVisits;
use pemmican::plugins::router::Router;
use pemmican::plugins::session::Session;
use pemmican::plugins::Plugin;
use pemmican::{Config, Event, Pemmican, Step};

fn req(method: Method, path: &str) -> Request {
    Request { method, path: String::from(path), headers: Vec::new(), body: Vec::new() }
}

fn counts(p: &Pemmican<()>, at: usize, url: &str) -> Option<u32> {
    match &p.plugins[at] {
        Plugin::PageVisits(pv) => pv.get(url),
        _ => panic!("the chain changed shape"),
    }
}

#[test]
fn page_visits_counts_directly() {
    let mut pv = PageVisits::new();
    assert_eq!(pv.get("/a"), None);
    pv.record("/a");
    pv.record("/a");
    pv.record("/b");
    assert_eq!(pv.get("/a"), Some(2));
    assert_eq!(pv.get("/b"), Some(1));
}

#[test]
fn n_dispatches_count_n_visits() {
    let mut p = Pemmican::new(
        Config::default(),
        vec![Plugin::PageVisits(PageVisits::new())],
        (),
    );
    let n = 25u32;
    let mut done = 0u32;
    while done < n {
        match p.call(req(Method::Get, "/page")) {
            Step::Done { response, .. } => assert_eq!(response.status, 404),
            _ => panic!("expected a finished response"),
        }
        done += 1;
    }
    assert_eq!(counts(&p, 0, "/page"), Some(n));
    assert_eq!(counts(&p, 0, "/other"), None);
}

#[test]
fn session_before_router_is_seen_by_handler() {
    let mut router = Router::new();
    router.insert("/", Method::Get, 0);
    let mut p = Pemmican::new(
        Config::default(),
        vec![
            Plugin::Session(Session::new(String::from("sid"), false, false)),
            Plugin::Router(router),
        ],
        (),
    );
    match p.call(req(Method::Get, "/")) {
        Step::Run { data, .. } => assert!(data.session_id.is_some()),
        _ => panic!("expected the handler to be scheduled"),
    }
}

#[test]
fn router_before_session_hides_session_from_handler() {
    let mut router = Router::new();
    router.insert("/", Method::Get, 0);
    let mut p = Pemmican::new(
        Config::default(),
        vec![
            Plugin::Router(router),
            Plugin::Session(Session::new(String::from("sid"), false, false)),
        ],
        (),
    );
    match p.call(req(Method::Get, "/")) {
        Step::Run { pending, data, .. } => {
            // the handler runs before the session plugin: no identity yet
            assert_eq!(data.session_id, None);
            // the session plugin still runs after the handler completes
            match p.resume(pending, Event::Succeeded(data)) {
                Step::Done { response, .. } => {
                    assert!(response.headers.iter().any(|h| h.0 == "Set-Cookie"));
                },
                _ => panic!("expected a finished response"),
            }
        },
        _ => panic!("expected the handler to be scheduled"),
    }
}
