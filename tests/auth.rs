use hydrolix_snapshot::auth::{AuthError, HydrolixAuth, HydrolixToken, Login, TokenCache};
use hydrolix_snapshot::http::HttpReply;
use hydrolix_snapshot::model::Machine;

const LOGIN: &str = r#"{"auth_token":{"access_token":"abc","expires_in":3600,"token_type":"Bearer"},"orgs":[{"uuid":"u1","name":"org1","cloud":"aws"}],"roles":["admin"],"email":"a@b.c","emailVerified":true}"#;

fn ok(body: &str) -> HttpReply {
    HttpReply::Received { status: 200, body: body.to_string() }
}

#[test]
fn test_token() {
    let x = HydrolixToken::new(0);
    assert!(x.hits == 0);
}

#[test]
fn login_example_yields_token() {
    let auth = HydrolixAuth::new("host", "user", "pw");
    let mut cache = TokenCache::new("host", 0);
    let t = auth.finish_login(&mut cache, ok(LOGIN), 5_000).ok().unwrap();
    assert_eq!(t.value, "abc");
    assert_eq!(t.org_list.len(), 1);
    assert_eq!(t.org_list[0].uuid, "u1");
    assert_eq!(t.org_list[0].name, "org1");
    assert_eq!(t.org_list[0].cloud, "aws");
    assert!(!t.org_list[0].kubernetes);
    assert_eq!(t.expires_at, 5_000 + 3_600_000);
    assert_eq!(t.hits, 0);
    assert_eq!(t.base_url, "host");
    assert_eq!(cache.current().value, "abc");
    assert_eq!(t.first_org(), "org1");
}

#[test]
fn repeated_lookups_count_hits() {
    let auth = HydrolixAuth::new("host", "user", "pw");
    let mut cache = TokenCache::new("host", 0);
    assert!(cache.lookup(0).is_none());
    auth.finish_login(&mut cache, ok(LOGIN), 0).ok().unwrap();
    for i in 1..100usize {
        let t = cache.lookup(i as u64).unwrap();
        assert_eq!(t.hits, i);
        assert_eq!(t.first_org(), "org1");
    }
}

#[test]
fn expired_token_is_refreshed_and_hits_reset() {
    let auth = HydrolixAuth::new("host", "user", "pw");
    let mut cache = TokenCache::new("host", 0);
    auth.finish_login(&mut cache, ok(LOGIN), 0).ok().unwrap();
    assert_eq!(cache.lookup(10).unwrap().hits, 1);
    assert_eq!(cache.lookup(20).unwrap().hits, 2);
    assert!(cache.lookup(3_600_000).is_none());
    let fresh = auth.finish_login(&mut cache, ok(LOGIN), 3_600_000).ok().unwrap();
    assert_eq!(fresh.hits, 0);
    assert_eq!(cache.lookup(3_600_001).unwrap().hits, 1);
}

#[test]
fn missing_lifetime_is_stale_at_once() {
    let body = r#"{"auth_token":{"access_token":"t"},"orgs":[],"roles":[],"email":"e","emailVerified":false}"#;
    let auth = HydrolixAuth::new("host", "user", "pw");
    let mut cache = TokenCache::new("host", 0);
    let t = auth.finish_login(&mut cache, ok(body), 42).ok().unwrap();
    assert_eq!(t.expires_at, 42);
    assert!(cache.lookup(42).is_none());
    assert_eq!(t.first_org(), "");
}

#[test]
fn huge_lifetime_saturates() {
    let body = r#"{"auth_token":{"access_token":"t","expires_in":18446744073709551615},"orgs":[],"roles":[],"email":"e","emailVerified":false}"#;
    let auth = HydrolixAuth::new("host", "user", "pw");
    let mut cache = TokenCache::new("host", 0);
    let t = auth.finish_login(&mut cache, ok(body), 1).ok().unwrap();
    assert_eq!(t.expires_at, u64::MAX);
}

#[test]
fn login_errors() {
    let auth = HydrolixAuth::new("host", "user", "pw");
    let mut cache = TokenCache::new("host", 7);
    match auth.finish_login(&mut cache, HttpReply::Failed("down".to_string()), 0) {
        Err(AuthError::Transport { url, username, message }) => {
            assert_eq!(url, "https://host/config/v1/login");
            assert_eq!(username, "user");
            assert_eq!(message, "down");
        }
        _ => panic!("expected a transport error"),
    }
    match auth.finish_login(&mut cache, HttpReply::Received { status: 401, body: LOGIN.to_string() }, 0) {
        Err(AuthError::Status { status, .. }) => assert_eq!(status, 401),
        _ => panic!("expected a status error"),
    }
    match auth.finish_login(&mut cache, ok(r#"{"auth_token":{}}"#), 0) {
        Err(AuthError::Parse { url, username }) => {
            assert_eq!(url, "https://host/config/v1/login");
            assert_eq!(username, "user");
        }
        _ => panic!("expected a parse error"),
    }
    let t = cache.current();
    assert_eq!(t.value, "");
    assert_eq!(t.expires_at, 7);
    assert_eq!(t.base_url, "host");
}

#[test]
fn login_schema() {
    assert!(Login::from_body(LOGIN).is_some());
    let k = r#"{"auth_token":{"access_token":"a","expires_in":null,"token_type":null},"orgs":[{"uuid":"u","name":"n","cloud":"c","kubernetes":true}],"roles":[],"email":"e","emailVerified":true}"#;
    let l = Login::from_body(k).unwrap();
    assert!(l.orgs[0].kubernetes);
    assert_eq!(l.expires_in, None);
    let bad_flag = r#"{"auth_token":{"access_token":"a"},"orgs":[{"uuid":"u","name":"n","cloud":"c","kubernetes":null}],"roles":[],"email":"e","emailVerified":true}"#;
    assert!(Login::from_body(bad_flag).is_none());
    let bad_roles = r#"{"auth_token":{"access_token":"a"},"orgs":[],"roles":[1],"email":"e","emailVerified":true}"#;
    assert!(Login::from_body(bad_roles).is_none());
    let no_email = r#"{"auth_token":{"access_token":"a"},"orgs":[],"roles":[],"emailVerified":true}"#;
    assert!(Login::from_body(no_email).is_none());
    let neg = r#"{"auth_token":{"access_token":"a","expires_in":-5},"orgs":[],"roles":[],"email":"e","emailVerified":true}"#;
    assert!(Login::from_body(neg).is_none());
}

#[test]
fn auth_addresses() {
    let m = Machine {
        base_url: "h.example".to_string(),
        username: "u".to_string(),
        password: "p".to_string(),
    };
    let auth = m.auth();
    assert_eq!(auth.login_url(), "https://h.example/config/v1/login");
    assert_eq!(auth.username(), "u");
    assert_eq!(auth.password(), "p");
    assert_eq!(auth.get_base_url(), "h.example");
}
