use pemmican::message::{Method, Request};
use pemmican::plugins::htdocs::{FileOutcome, Htdocs};
use pemmican::plugins::Plugin;
use pemmican::{Config, Event, Pemmican, Step, Task};

fn req(method: Method, path: &str) -> Request {
    Request { method, path: String::from(path), headers: Vec::new(), body: Vec::new() }
}

fn header<'a>(headers: &'a [(String, String)], name: &str) -> Option<&'a str> {
    headers.iter().find(|p| p.0 == name).map(|p| p.1.as_str())
}

#[test]
fn candidate_paths_are_sanitised() {
    let h = Htdocs::new(String::from("/var/www"), None);
    assert_eq!(h.candidate_file("/a/b.html"), "/var/www/a/b.html");
    assert_eq!(h.candidate_file("/../etc/passwd"), "/var/www/etc/passwd");
    assert_eq!(h.candidate_file("/./a/../b"), "/var/www/a/b");
    assert_eq!(h.candidate_file("//a//"), "/var/www/a");
    assert_eq!(h.candidate_file("/"), "/var/www");
    let trailing = Htdocs::new(String::from("www/"), None);
    assert_eq!(trailing.candidate_file("/x"), "www/x");
}

#[test]
fn file_content_answers_the_request() {
    let h = Htdocs::new(String::from("/srv"), None);
    let mut p = Pemmican::new(Config::default(), vec![Plugin::Htdocs(h)], ());
    match p.call(req(Method::Get, "/hello.txt")) {
        Step::Run { pending, task, data } => {
            match &task {
                Task::ReadFile(path) => assert_eq!(path, "/srv/hello.txt"),
                _ => panic!("expected a file read"),
            }
            match p.resume(pending, Event::File(FileOutcome::Content(b"hi".to_vec()), data)) {
                Step::Done { response, .. } => {
                    assert_eq!(response.status, 200);
                    assert_eq!(response.body, Some(b"hi".to_vec()));
                    assert_eq!(header(&response.headers, "Content-Length"), Some("2"));
                },
                _ => panic!("expected a finished response"),
            }
        },
        _ => panic!("expected a file read to be scheduled"),
    }
}

#[test]
fn head_request_gets_no_body() {
    let h = Htdocs::new(String::from("/srv"), None);
    let mut p = Pemmican::new(Config::default(), vec![Plugin::Htdocs(h)], ());
    match p.call(req(Method::Head, "/hello.txt")) {
        Step::Run { pending, data, .. } => {
            match p.resume(pending, Event::File(FileOutcome::Content(b"hi".to_vec()), data)) {
                Step::Done { response, .. } => {
                    assert_eq!(response.status, 200);
                    assert_eq!(response.body, Some(Vec::new()));
                    assert_eq!(header(&response.headers, "Content-Length"), Some("2"));
                },
                _ => panic!("expected a finished response"),
            }
        },
        _ => panic!("expected a file read to be scheduled"),
    }
}

#[test]
fn missing_file_passes_through() {
    let h = Htdocs::new(String::from("/srv"), None);
    let mut p = Pemmican::new(Config::default(), vec![Plugin::Htdocs(h)], ());
    match p.call(req(Method::Get, "/none")) {
        Step::Run { pending, data, .. } => {
            match p.resume(pending, Event::File(FileOutcome::Missing, data)) {
                Step::Done { response, .. } => {
                    assert_eq!(response.status, 404);
                    assert_eq!(response.body, Some(Vec::new()));
                },
                _ => panic!("expected a finished response"),
            }
        },
        _ => panic!("expected a file read to be scheduled"),
    }
}

#[test]
fn unreadable_file_is_a_server_error() {
    let h = Htdocs::new(String::from("/srv"), None);
    let mut p = Pemmican::new(Config::default(), vec![Plugin::Htdocs(h)], ());
    match p.call(req(Method::Get, "/locked")) {
        Step::Run { pending, data, .. } => {
            match p.resume(pending, Event::File(FileOutcome::Unreadable, data)) {
                Step::Done { response, .. } => assert_eq!(response.status, 500),
                _ => panic!("expected a finished response"),
            }
        },
        _ => panic!("expected a file read to be scheduled"),
    }
}

#[test]
fn directory_with_index_reads_the_index_file() {
    let h = Htdocs::new(String::from("/srv"), Some(String::from("index.html")));
    let mut p = Pemmican::new(Config::default(), vec![Plugin::Htdocs(h)], ());
    match p.call(req(Method::Get, "/docs")) {
        Step::Run { pending, data, .. } => {
            match p.resume(pending, Event::File(FileOutcome::Directory, data)) {
                Step::Run { pending: pending2, task, data: data2 } => {
                    match &task {
                        Task::ReadFile(path) => assert_eq!(path, "/srv/docs/index.html"),
                        _ => panic!("expected a file read"),
                    }
                    let content = FileOutcome::Content(b"<html/>".to_vec());
                    match p.resume(pending2, Event::File(content, data2)) {
                        Step::Done { response, .. } => {
                            assert_eq!(response.status, 200);
                            assert_eq!(response.body, Some(b"<html/>".to_vec()));
                        },
                        _ => panic!("expected a finished response"),
                    }
                },
                _ => panic!("expected the index file to be tried"),
            }
        },
        _ => panic!("expected a file read to be scheduled"),
    }
}

#[test]
fn directory_without_index_passes_through() {
    let h = Htdocs::new(String::from("/srv"), None);
    let mut p = Pemmican::new(Config::default(), vec![Plugin::Htdocs(h)], ());
    match p.call(req(Method::Get, "/docs")) {
        Step::Run { pending, data, .. } => {
            match p.resume(pending, Event::File(FileOutcome::Directory, data)) {
                Step::Done { response, .. } => assert_eq!(response.status, 404),
                _ => panic!("expected a finished response"),
            }
        },
        _ => panic!("expected a file read to be scheduled"),
    }
}

#[test]
fn non_get_requests_pass_through() {
    let h = Htdocs::new(String::from("/srv"), None);
    let mut p = Pemmican::new(Config::default(), vec![Plugin::Htdocs(h)], ());
    match p.call(req(Method::Post, "/hello.txt")) {
        Step::Done { response, .. } => assert_eq!(response.status, 404),
        _ => panic!("expected a finished response"),
    }
}
