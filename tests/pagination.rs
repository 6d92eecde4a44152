use hydrolix_snapshot::http::{FetchError, HttpReply};
use hydrolix_snapshot::pagination::{decimal_text, parse_page, PageStep, Pager};

fn ok(body: &str) -> HttpReply {
    HttpReply::Received { status: 200, body: body.to_string() }
}

fn more(step: PageStep) -> Pager {
    match step {
        PageStep::More(p) => p,
        PageStep::Finished(_) => panic!("expected another page"),
    }
}

fn finished(step: PageStep) -> Result<String, FetchError> {
    match step {
        PageStep::Finished(r) => r,
        PageStep::More(_) => panic!("expected the call to end"),
    }
}

#[test]
fn decimal_text_writes_digits() {
    assert_eq!(decimal_text(0), "0");
    assert_eq!(decimal_text(7), "7");
    assert_eq!(decimal_text(10), "10");
    assert_eq!(decimal_text(18446744073709551615), "18446744073709551615");
}

#[test]
fn first_page_address() {
    let p = Pager::new("https://h/config/v1/orgs/o/projects");
    assert_eq!(p.page(), 1);
    assert_eq!(p.current_url(), "https://h/config/v1/orgs/o/projects?page=1");
}

#[test]
fn three_pages_concatenate_in_order() {
    let p = Pager::new("https://h/c");
    let p = more(p.on_reply(ok(r#"{"next":2,"count":3,"results":[{"a":1}]}"#)));
    assert_eq!(p.current_url(), "https://h/c?page=2");
    let p = more(p.on_reply(ok(r#"{"next":3,"count":3,"results":[{"b":2},{"c":"x"}]}"#)));
    assert_eq!(p.current_url(), "https://h/c?page=3");
    let r = finished(p.on_reply(ok(r#"{"next":0,"count":3,"results":[{"d":[1,2]}]}"#)));
    assert_eq!(r.ok().unwrap(), r#"[{"a":1},{"b":2},{"c":"x"},{"d":[1,2]}]"#);
}

#[test]
fn single_page_with_no_results_is_empty_array() {
    let p = Pager::new("u");
    let r = finished(p.on_reply(ok(r#"{"next":0,"count":0,"results":[]}"#)));
    assert_eq!(r.ok().unwrap(), "[]");
}

#[test]
fn unpaged_body_returned_verbatim() {
    let body = "[ {\"uuid\": \"x\"} , 3 ]";
    let p = Pager::new("u");
    let r = finished(p.on_reply(ok(body)));
    assert_eq!(r.ok().unwrap(), body);
}

#[test]
fn unpaged_body_on_later_page_drops_gathered_results() {
    let p = Pager::new("u");
    let p = more(p.on_reply(ok(r#"{"next":2,"count":2,"results":[{"a":1}]}"#)));
    let r = finished(p.on_reply(ok("not json")));
    assert_eq!(r.ok().unwrap(), "not json");
}

#[test]
fn status_error_on_second_page_aborts() {
    let p = Pager::new("u");
    let p = more(p.on_reply(ok(r#"{"next":2,"count":3,"results":[{"a":1}]}"#)));
    let r = finished(p.on_reply(HttpReply::Received { status: 503, body: "busy".to_string() }));
    match r {
        Err(FetchError::Status { url, status }) => {
            assert_eq!(url, "u?page=2");
            assert_eq!(status, 503);
        }
        _ => panic!("expected a status error"),
    }
}

#[test]
fn transport_error_aborts() {
    let p = Pager::new("u");
    let r = finished(p.on_reply(HttpReply::Failed("refused".to_string())));
    match r {
        Err(FetchError::Transport { url, message }) => {
            assert_eq!(url, "u?page=1");
            assert_eq!(message, "refused");
        }
        _ => panic!("expected a transport error"),
    }
}

#[test]
fn envelope_needs_every_member() {
    assert!(parse_page(r#"{"next":0,"count":1,"results":[{}]}"#).is_some());
    assert!(parse_page(r#"{"next":0,"results":[{}]}"#).is_none());
    assert!(parse_page(r#"{"next":4294967296,"count":1,"results":[]}"#).is_none());
    assert!(parse_page(r#"{"next":-1,"count":1,"results":[]}"#).is_none());
    assert!(parse_page(r#"{"next":0,"count":1,"results":[1]}"#).is_none());
    assert!(parse_page(r#"{"next":0,"count":1,"results":{}}"#).is_none());
    assert!(parse_page("[]").is_none());
    let p = parse_page(r#"{"count":7,"extra":true,"next":4294967295,"results":[{},{}]}"#).unwrap();
    assert_eq!(p.next, 4294967295);
    assert_eq!(p.count, 7);
    assert_eq!(p.results.len(), 2);
}
