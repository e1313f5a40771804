use pemmican::message::{Method, Request};
use pemmican::plugins::router::Router;
use pemmican::plugins::session::{cookie_value, Session};
use pemmican::plugins::Plugin;
use pemmican::{Config, Pemmican, Step, Task};

fn req_with_headers(method: Method, path: &str, headers: Vec<(&str, &str)>) -> Request {
    Request {
        method,
        path: String::from(path),
        headers: headers
            .into_iter()
            .map(|(n, v)| (String::from(n), String::from(v)))
            .collect(),
        body: Vec::new(),
    }
}

fn chain_with_route(session: Session) -> Pemmican<()> {
    let mut router = Router::new();
    router.insert("/", Method::Get, 0);
    Pemmican::new(
        Config::default(),
        vec![Plugin::Session(session), Plugin::Router(router)],
        (),
    )
}

fn header<'a>(headers: &'a [(String, String)], name: &str) -> Option<&'a str> {
    headers.iter().find(|p| p.0 == name).map(|p| p.1.as_str())
}

#[test]
fn fresh_session_mints_key_and_sets_cookie() {
    let mut p = chain_with_route(Session::new(String::from("sid"), false, false));
    match p.call(req_with_headers(Method::Get, "/", vec![])) {
        Step::Run { task, data, .. } => {
            assert!(matches!(task, Task::RunHandler(0)));
            let id = data.session_id.expect("a fresh session id");
            assert_eq!(id.chars().count(), 32);
            let set_cookie = header(&data.response.headers, "Set-Cookie")
                .expect("a session cookie on the response");
            assert_eq!(set_cookie, format!("sid={}; Path=/", id));
        },
        _ => panic!("expected the handler to be scheduled"),
    }
}

#[test]
fn secure_http_only_cookie_attributes() {
    let mut p = chain_with_route(Session::new(String::from("sid"), true, true));
    match p.call(req_with_headers(Method::Get, "/", vec![])) {
        Step::Run { data, .. } => {
            let id = data.session_id.expect("a fresh session id");
            let set_cookie = header(&data.response.headers, "Set-Cookie").expect("a cookie");
            assert_eq!(set_cookie, format!("sid={}; HttpOnly; Secure; Path=/", id));
        },
        _ => panic!("expected the handler to be scheduled"),
    }
}

#[test]
fn existing_cookie_is_adopted() {
    let mut p = chain_with_route(Session::new(String::from("sid"), false, false));
    let r = req_with_headers(Method::Get, "/", vec![("Cookie", "a=1; sid=abc123; b=2")]);
    match p.call(r) {
        Step::Run { data, .. } => {
            assert_eq!(data.session_id.as_deref(), Some("abc123"));
            assert_eq!(header(&data.response.headers, "Set-Cookie"), None);
        },
        _ => panic!("expected the handler to be scheduled"),
    }
}

#[test]
fn do_not_track_refuses_session() {
    let mut session = Session::new(String::from("sid"), false, false);
    session.respect_dnt_ad_absurdum();
    let mut p = chain_with_route(session);
    let r = req_with_headers(Method::Get, "/", vec![("Dnt", "1"), ("Cookie", "sid=abc")]);
    match p.call(r) {
        Step::Run { data, .. } => {
            assert_eq!(data.session_id, None);
            assert_eq!(header(&data.response.headers, "Tk"), Some("N"));
            assert_eq!(header(&data.response.headers, "Set-Cookie"), None);
        },
        _ => panic!("expected the handler to be scheduled"),
    }
}

#[test]
fn do_not_track_zero_still_gets_session() {
    let mut session = Session::new(String::from("sid"), false, false);
    session.respect_dnt_ad_absurdum();
    let mut p = chain_with_route(session);
    let r = req_with_headers(Method::Get, "/", vec![("Dnt", "0")]);
    match p.call(r) {
        Step::Run { data, .. } => {
            assert!(data.session_id.is_some());
        },
        _ => panic!("expected the handler to be scheduled"),
    }
}

#[test]
fn cookie_header_lookup() {
    assert_eq!(cookie_value("a=1; b=2", "b"), Some(String::from("2")));
    assert_eq!(cookie_value("a=1; b=2", "a"), Some(String::from("1")));
    assert_eq!(cookie_value("a=1;b=2", "b"), Some(String::from("2")));
    assert_eq!(cookie_value("  sid=xyz  ", "sid"), Some(String::from("xyz")));
    assert_eq!(cookie_value("sid=", "sid"), Some(String::from("")));
    assert_eq!(cookie_value("sid", "sid"), None);
    assert_eq!(cookie_value("", "sid"), None);
    assert_eq!(cookie_value("x=1", "sid"), None);
    assert_eq!(cookie_value("sid=first; sid=second", "sid"), Some(String::from("first")));
}
