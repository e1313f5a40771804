use pemmican::message::{Method, Request};
use pemmican::plugins::page_visits::PageVisits;
use pemmican::plugins::router::Router;
use pemmican::plugins::Plugin;
use pemmican::{Config, Event, Pemmican, Step, Task};

fn req(method: Method, path: &str) -> Request {
    Request { method, path: String::from(path), headers: Vec::new(), body: Vec::new() }
}

#[test]
fn hello_world_scenario() {
    let mut router = Router::new();
    router.insert("/", Method::Get, 7);
    let mut p = Pemmican::new(Config::default(), vec![Plugin::Router(router)], ());

    // a GET of the registered path runs the registered handler
    match p.call(req(Method::Get, "/")) {
        Step::Run { pending, task, mut data } => {
            assert!(matches!(task, Task::RunHandler(7)));
            data.response.status = 200;
            data.response.body = Some(b"Hello World!".to_vec());
            match p.resume(pending, Event::Succeeded(data)) {
                Step::Done { response, error } => {
                    assert_eq!(response.status, 200);
                    assert_eq!(response.body, Some(b"Hello World!".to_vec()));
                    assert!(error.is_none());
                },
                _ => panic!("expected a finished response"),
            }
        },
        _ => panic!("expected the handler to be scheduled"),
    }

    // an unregistered path is the default response, untouched
    match p.call(req(Method::Get, "/missing")) {
        Step::Done { response, error } => {
            assert_eq!(response.status, 404);
            assert_eq!(response.body, Some(Vec::new()));
            assert!(error.is_none());
        },
        _ => panic!("expected a finished response"),
    }

    // a method with no handler registered is likewise not found
    match p.call(req(Method::Post, "/")) {
        Step::Done { response, .. } => {
            assert_eq!(response.status, 404);
        },
        _ => panic!("expected a finished response"),
    }
}

#[test]
fn empty_chain_is_not_found() {
    let mut p = Pemmican::new(Config::default(), Vec::new(), ());
    match p.call(req(Method::Get, "/")) {
        Step::Done { response, error } => {
            assert_eq!(response.status, 404);
            assert_eq!(response.body, Some(Vec::new()));
            assert!(error.is_none());
        },
        _ => panic!("expected a finished response"),
    }
}

#[test]
fn handler_failure_yields_500() {
    let mut router = Router::new();
    router.insert("/", Method::Get, 0);
    let mut p = Pemmican::new(Config::default(), vec![Plugin::Router(router)], ());
    match p.call(req(Method::Get, "/")) {
        Step::Run { pending, .. } => {
            match p.resume(pending, Event::Failed(String::from("handler broke"))) {
                Step::Done { response, error } => {
                    assert_eq!(response.status, 500);
                    assert_eq!(response.body, Some(Vec::new()));
                    assert_eq!(error, Some(String::from("handler broke")));
                },
                _ => panic!("expected a finished response"),
            }
        },
        _ => panic!("expected the handler to be scheduled"),
    }
}

#[test]
fn failure_skips_later_plugins() {
    // an external plugin ahead of the visit counter fails: the counter,
    // the side effect downstream of the failure, must never run
    let mut p = Pemmican::new(
        Config::default(),
        vec![Plugin::External(0), Plugin::PageVisits(PageVisits::new())],
        (),
    );
    match p.call(req(Method::Get, "/page")) {
        Step::Run { pending, task, .. } => {
            assert!(matches!(task, Task::RunPlugin(0)));
            match p.resume(pending, Event::Failed(String::from("plugin broke"))) {
                Step::Done { response, .. } => assert_eq!(response.status, 500),
                _ => panic!("expected a finished response"),
            }
        },
        _ => panic!("expected the external plugin to be scheduled"),
    }
    match &p.plugins[1] {
        Plugin::PageVisits(pv) => assert_eq!(pv.get("/page"), None),
        _ => panic!("the chain changed shape"),
    }
}

#[test]
fn external_plugin_runs_in_order() {
    let mut p = Pemmican::new(Config::default(), vec![Plugin::External(3)], 41u32);
    assert_eq!(p.shared.state, 41);
    match p.call(req(Method::Get, "/")) {
        Step::Run { pending, task, mut data } => {
            assert!(matches!(task, Task::RunPlugin(3)));
            data.response.status = 204;
            match p.resume(pending, Event::Succeeded(data)) {
                Step::Done { response, .. } => assert_eq!(response.status, 204),
                _ => panic!("expected a finished response"),
            }
        },
        _ => panic!("expected the external plugin to be scheduled"),
    }
}
