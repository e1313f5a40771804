use std::sync::Arc;
use pemmican::message::{get_header, set_header, u64_to_dec, Method, Request, Response};
use pemmican::plugins::good_citizen::{GcReferrer, GoodCitizen};
use pemmican::plugins::PluginData;
use pemmican::{Config, Shared};

fn header<'a>(headers: &'a [(String, String)], name: &str) -> Option<&'a str> {
    headers.iter().find(|p| p.0 == name).map(|p| p.1.as_str())
}

fn blank_data() -> PluginData<()> {
    PluginData {
        shared: Arc::new(Shared::new(1, ())),
        request: Request {
            method: Method::Get,
            path: String::from("/"),
            headers: Vec::new(),
            body: Vec::new(),
        },
        response: Response { status: 404, headers: Vec::new(), body: None },
        session_id: None,
    }
}

#[test]
fn config_defaults() {
    let c = Config::default();
    assert_eq!(c.num_threads, 4);
    assert!(c.keep_alive);
    assert_eq!(c.shutdown_grace_millis, 1000);
}

#[test]
fn decimal_rendering() {
    assert_eq!(u64_to_dec(0), "0");
    assert_eq!(u64_to_dec(7), "7");
    assert_eq!(u64_to_dec(10), "10");
    assert_eq!(u64_to_dec(31536000), "31536000");
    assert_eq!(u64_to_dec(u64::MAX), "18446744073709551615");
}

#[test]
fn set_header_replaces_and_appends() {
    let mut hs: Vec<(String, String)> = Vec::new();
    set_header(&mut hs, "X-One", String::from("1"));
    set_header(&mut hs, "X-Two", String::from("2"));
    set_header(&mut hs, "X-One", String::from("one"));
    assert_eq!(hs.len(), 2);
    assert_eq!(get_header(&hs, "X-One").map(|s| s.as_str()), Some("one"));
    assert_eq!(get_header(&hs, "X-Two").map(|s| s.as_str()), Some("2"));
    assert_eq!(get_header(&hs, "x-one"), None);
}

#[test]
fn good_citizen_default_headers() {
    let gc = GoodCitizen::new();
    let data = gc.handle(blank_data());
    let hs = &data.response.headers;
    assert_eq!(
        header(hs, "Strict-Transport-Security"),
        Some("max-age=31536000; includeSubDomains"),
    );
    assert_eq!(header(hs, "Referrer-Policy"), Some("no-referrer"));
    assert_eq!(
        header(hs, "Content-Security-Policy"),
        Some("default-src https:; block-all-mixed-content; upgrade-insecure-requests;"),
    );
    assert_eq!(header(hs, "X-Content-Type-Options"), Some("nosniff"));
    assert_eq!(header(hs, "X-Xss-Protection"), Some("1; mode=block"));
    // the frame-options value is stored but not stamped by handle
    assert_eq!(header(hs, "X-Frame-Options"), None);
    // the response is otherwise untouched
    assert_eq!(data.response.status, 404);
    assert_eq!(data.response.body, None);
}

#[test]
fn good_citizen_disabled_headers_are_absent() {
    let mut gc = GoodCitizen::new();
    gc.disable_strict_transport_security();
    gc.disable_referrer_policy();
    gc.disable_content_security_policy();
    gc.disable_x_content_type_options();
    gc.disable_x_xss_protection();
    let data = gc.handle(blank_data());
    assert_eq!(data.response.headers.len(), 0);
}

#[test]
fn good_citizen_set_values_are_used() {
    let mut gc = GoodCitizen::new();
    gc.set_referrer_policy(GcReferrer::SameOrigin);
    gc.set_x_xss_protection(String::from("0"));
    let data = gc.handle(blank_data());
    let hs = &data.response.headers;
    assert_eq!(header(hs, "Referrer-Policy"), Some("same-origin"));
    assert_eq!(header(hs, "X-Xss-Protection"), Some("0"));
}
