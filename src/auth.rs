use vstd::prelude::*;

use crate::http::{is_success, status_is_success, HttpReply, HttpReplyView};
use crate::json::{field_of, get_field, json_parse, parse_json, Json};

verus! {

/// An organization that a bearer token gives access to.
pub struct Org {
    pub uuid: String,
    pub name: String,
    pub cloud: String,
    pub kubernetes: bool,
}

pub struct OrgView {
    pub uuid: Seq<char>,
    pub name: Seq<char>,
    pub cloud: Seq<char>,
    pub kubernetes: bool,
}

impl View for Org {
    type V = OrgView;

    open spec fn view(&self) -> OrgView {
        OrgView {
            uuid: self.uuid@,
            name: self.name@,
            cloud: self.cloud@,
            kubernetes: self.kubernetes,
        }
    }
}

impl Org {
    pub fn duplicate(&self) -> (r: Org)
        ensures
            r@ == self@,
    {
        Org {
            uuid: self.uuid.clone(),
            name: self.name.clone(),
            cloud: self.cloud.clone(),
            kubernetes: self.kubernetes,
        }
    }
}

pub open spec fn orgs_view(orgs: Seq<Org>) -> Seq<OrgView> {
    orgs.map_values(|o: Org| o@)
}

fn duplicate_orgs(orgs: &Vec<Org>) -> (r: Vec<Org>)
    ensures
        orgs_view(r@) == orgs_view(orgs@),
{
    let mut out: Vec<Org> = Vec::new();
    let mut i: usize = 0;
    while i < orgs.len()
        invariant
            i <= orgs@.len(),
            out@.len() == i,
            forall|j: int| 0 <= j < i ==> (#[trigger] out@[j])@ == orgs@[j]@,
        decreases orgs@.len() - i,
    {
        out.push(orgs[i].duplicate());
        i = i + 1;
    }
    assert(orgs_view(out@) =~= orgs_view(orgs@));
    out
}

/// A bearer token: its value, the organizations it gives access to, the
/// instant after which it is stale (milliseconds on the caller's monotonic
/// clock), how many times the cache has served it, and the base URL it
/// was issued for.
pub struct HydrolixToken {
    pub value: String,
    pub org_list: Vec<Org>,
    pub expires_at: u64,
    pub hits: usize,
    pub base_url: String,
}

pub struct TokenView {
    pub value: Seq<char>,
    pub org_list: Seq<OrgView>,
    pub expires_at: u64,
    pub hits: usize,
    pub base_url: Seq<char>,
}

impl View for HydrolixToken {
    type V = TokenView;

    open spec fn view(&self) -> TokenView {
        TokenView {
            value: self.value@,
            org_list: orgs_view(self.org_list@),
            expires_at: self.expires_at,
            hits: self.hits,
            base_url: self.base_url@,
        }
    }
}

/// A token not yet issued: no value, no organizations, stale from `now` on.
pub open spec fn unissued(base_url: Seq<char>, now: u64) -> TokenView {
    TokenView {
        value: Seq::empty(),
        org_list: Seq::empty(),
        expires_at: now,
        hits: 0,
        base_url,
    }
}

/// The name of the first organization, or the empty text where there is none.
pub open spec fn first_org_name(t: TokenView) -> Seq<char> {
    if t.org_list.len() > 0 {
        t.org_list[0].name
    } else {
        Seq::empty()
    }
}

impl HydrolixToken {
    pub fn new(now: u64) -> (r: HydrolixToken)
        ensures
            r@ == unissued(Seq::empty(), now),
    {
        let r = HydrolixToken {
            value: String::new(),
            org_list: Vec::new(),
            expires_at: now,
            hits: 0,
            base_url: String::new(),
        };
        assert(r@.org_list =~= Seq::empty());
        r
    }

    pub fn first_org(self) -> (r: String)
        ensures
            r@ == first_org_name(self@),
    {
        if self.org_list.len() > 0 {
            self.org_list[0].name.clone()
        } else {
            String::new()
        }
    }

    pub fn duplicate(&self) -> (r: HydrolixToken)
        ensures
            r@ == self@,
    {
        HydrolixToken {
            value: self.value.clone(),
            org_list: duplicate_orgs(&self.org_list),
            expires_at: self.expires_at,
            hits: self.hits,
            base_url: self.base_url.clone(),
        }
    }
}


/// The cache entry: the most recently issued token and how often it has
/// been served. The caller keeps it behind one lock across a lookup, the
/// login that a miss calls for, and the store of its result.
pub struct TokenCache {
    token: HydrolixToken,
}

impl View for TokenCache {
    type V = TokenView;

    closed spec fn view(&self) -> TokenView {
        self.token@
    }
}

/// A lookup at `now`: a token that expires after `now` is served, its hit
/// count raised by one (held at the largest `usize`); any other is a miss and
/// leaves the entry as it is. Yields the entry after the lookup and what was
/// served.
pub open spec fn lookup_spec(c: TokenView, now: u64) -> (TokenView, Option<TokenView>) {
    if now < c.expires_at {
        let d = TokenView { hits: if c.hits < usize::MAX { (c.hits + 1) as usize } else { c.hits }, ..c };
        (d, Some(d))
    } else {
        (c, None)
    }
}

/// The entry after a fresh token is stored: that token, with no hits yet.
pub open spec fn stored(t: TokenView) -> TokenView {
    TokenView { hits: 0, ..t }
}

impl TokenCache {
    /// An entry holding a token not yet issued for `base_url`.
    pub fn new(base_url: &str, now: u64) -> (r: TokenCache)
        ensures
            r@ == unissued(base_url@, now),
    {
        let mut token = HydrolixToken::new(now);
        token.base_url = String::from_str(base_url);
        TokenCache { token }
    }

    /// The token held, as it stands.
    pub fn current(&self) -> (r: HydrolixToken)
        ensures
            r@ == self@,
    {
        self.token.duplicate()
    }

    /// Serves the cached token where it has not expired at `now`.
    pub fn lookup(&mut self, now: u64) -> (r: Option<HydrolixToken>)
        ensures
            final(self)@ == lookup_spec(old(self)@, now).0,
            match r {
                Some(t) => lookup_spec(old(self)@, now).1 == Some(t@),
                None => lookup_spec(old(self)@, now).1 is None,
            },
    {
        if now < self.token.expires_at {
            if self.token.hits < usize::MAX {
                self.token.hits = self.token.hits + 1;
            }
            Some(self.token.duplicate())
        } else {
            None
        }
    }

    /// Replaces the entry with a freshly issued token, whose hit count
    /// starts at zero, and returns a copy of it.
    pub fn store(&mut self, token: HydrolixToken) -> (r: HydrolixToken)
        ensures
            final(self)@ == stored(token@),
            r@ == stored(token@),
    {
        let mut token = token;
        token.hits = 0;
        let r = token.duplicate();
        self.token = token;
        r
    }
}

/// The entry after a lookup at each of `times` in turn, and whether every
/// one of them was served from the cache.
pub open spec fn lookup_all(c: TokenView, times: Seq<u64>) -> (TokenView, bool)
    decreases times.len(),
{
    if times.len() == 0 {
        (c, true)
    } else {
        let (d, served) = lookup_spec(c, times[0]);
        let (e, rest) = lookup_all(d, times.drop_first());
        (e, served is Some && rest)
    }
}

/// While the cached token has not expired, every lookup is served from the
/// cache, so no login is needed, and each raises the hit count by exactly one.
pub proof fn lemma_fresh_token_served(c: TokenView, times: Seq<u64>)
    requires
        forall|k: int| 0 <= k < times.len() ==> #[trigger] times[k] < c.expires_at,
        c.hits + times.len() <= usize::MAX,
    ensures
        lookup_all(c, times).1,
        lookup_all(c, times).0 == (TokenView { hits: (c.hits + times.len()) as usize, ..c }),
    decreases times.len(),
{
    if times.len() > 0 {
        assert(times[0] < c.expires_at);
        let d = lookup_spec(c, times[0]).0;
        let rest = times.drop_first();
        assert forall|k: int| 0 <= k < rest.len() implies #[trigger] rest[k] < d.expires_at by {
            assert(times[k + 1] < c.expires_at);
        }
        lemma_fresh_token_served(d, rest);
    }
}


pub open spec fn deref_opt(j: Option<&Json>) -> Option<Json> {
    match j {
        Some(x) => Some(*x),
        None => None,
    }
}

/// A member that must be a string.
pub open spec fn str_of(j: Option<Json>) -> Option<Seq<char>> {
    match j {
        Some(Json::Str(s)) => Some(s@),
        _ => None,
    }
}

/// A member that must be a boolean.
pub open spec fn bool_of(j: Option<Json>) -> Option<bool> {
    match j {
        Some(Json::Bool(b)) => Some(b),
        _ => None,
    }
}

/// A boolean member that is false where absent.
pub open spec fn flag_of(j: Option<Json>) -> Option<bool> {
    match j {
        None => Some(false),
        Some(Json::Bool(b)) => Some(b),
        _ => None,
    }
}

/// An optional unsigned member: absent or null gives `Some(None)`; a
/// non-negative 64-bit integer gives its value; anything else does not fit.
pub open spec fn opt_u64_of(j: Option<Json>) -> Option<Option<u64>> {
    match j {
        None => Some(None),
        Some(Json::Null) => Some(None),
        Some(Json::Number(n)) => match n.unsigned {
            Some(v) => Some(Some(v)),
            None => None,
        },
        _ => None,
    }
}

/// An optional string member: absent, null or a string.
pub open spec fn opt_str_ok(j: Option<Json>) -> bool {
    match j {
        None => true,
        Some(Json::Null) => true,
        Some(Json::Str(_)) => true,
        _ => false,
    }
}

/// An organization as the login response describes it: `uuid`, `name` and
/// `cloud` strings, and a `kubernetes` flag that is false where absent.
pub open spec fn org_of(j: Json) -> Option<OrgView> {
    match j {
        Json::Object(f) => {
            let uuid = str_of(field_of(f@, "uuid"@));
            let name = str_of(field_of(f@, "name"@));
            let cloud = str_of(field_of(f@, "cloud"@));
            let k = flag_of(field_of(f@, "kubernetes"@));
            if uuid is Some && name is Some && cloud is Some && k is Some {
                Some(OrgView { uuid: uuid->0, name: name->0, cloud: cloud->0, kubernetes: k->0 })
            } else {
                None
            }
        },
        _ => None,
    }
}

/// The organizations of an array, where each item is one.
pub open spec fn orgs_of(j: Option<Json>) -> Option<Seq<OrgView>> {
    match j {
        Some(Json::Array(items)) => if forall|i: int|
            0 <= i < items@.len() ==> (#[trigger] org_of(items@[i])) is Some {
            Some(items@.map_values(|o: Json| org_of(o)->0))
        } else {
            None
        },
        _ => None,
    }
}

/// An array of strings.
pub open spec fn is_str_array(j: Option<Json>) -> bool {
    match j {
        Some(Json::Array(items)) => forall|i: int|
            0 <= i < items@.len() ==> (#[trigger] items@[i]) is Str,
        _ => false,
    }
}

/// What a login response carries for the token.
pub struct LoginView {
    pub access_token: Seq<char>,
    pub expires_in: Option<u64>,
    pub orgs: Seq<OrgView>,
}

/// The login response that a document describes: an object with an
/// `auth_token` object (an `access_token` string, an optional unsigned
/// `expires_in`, an optional string `token_type`), an `orgs` array of
/// organizations, a `roles` array of strings, an `email` string and an
/// `emailVerified` boolean.
pub open spec fn login_of(doc: Json) -> Option<LoginView> {
    match doc {
        Json::Object(f) => {
            let auth = field_of(f@, "auth_token"@);
            let orgs = orgs_of(field_of(f@, "orgs"@));
            let shape_ok = is_str_array(field_of(f@, "roles"@)) && str_of(
                field_of(f@, "email"@),
            ) is Some && bool_of(field_of(f@, "emailVerified"@)) is Some;
            match auth {
                Some(Json::Object(a)) => {
                    let access = str_of(field_of(a@, "access_token"@));
                    let exp = opt_u64_of(field_of(a@, "expires_in"@));
                    if access is Some && exp is Some && opt_str_ok(field_of(a@, "token_type"@))
                        && orgs is Some && shape_ok {
                        Some(LoginView { access_token: access->0, expires_in: exp->0, orgs: orgs->0 })
                    } else {
                        None
                    }
                },
                _ => None,
            }
        },
        _ => None,
    }
}

/// The login response that a body holds, if it holds one.
pub open spec fn body_login(body: Seq<char>) -> Option<LoginView> {
    match json_parse(body) {
        Some(doc) => login_of(doc),
        None => None,
    }
}

fn text_of(j: Option<&Json>) -> (r: Option<String>)
    ensures
        match r {
            Some(s) => str_of(deref_opt(j)) == Some(s@),
            None => str_of(deref_opt(j)) is None,
        },
{
    match j {
        Some(Json::Str(s)) => Some(s.clone()),
        _ => None,
    }
}

fn bool_value(j: Option<&Json>) -> (r: Option<bool>)
    ensures
        r == bool_of(deref_opt(j)),
{
    match j {
        Some(Json::Bool(b)) => Some(*b),
        _ => None,
    }
}

fn flag_value(j: Option<&Json>) -> (r: Option<bool>)
    ensures
        r == flag_of(deref_opt(j)),
{
    match j {
        None => Some(false),
        Some(Json::Bool(b)) => Some(*b),
        _ => None,
    }
}

fn opt_u64_value(j: Option<&Json>) -> (r: Option<Option<u64>>)
    ensures
        r == opt_u64_of(deref_opt(j)),
{
    match j {
        None => Some(None),
        Some(Json::Null) => Some(None),
        Some(Json::Number(n)) => match n.unsigned {
            Some(v) => Some(Some(v)),
            None => None,
        },
        _ => None,
    }
}

fn is_opt_text(j: Option<&Json>) -> (r: bool)
    ensures
        r == opt_str_ok(deref_opt(j)),
{
    match j {
        None => true,
        Some(Json::Null) => true,
        Some(Json::Str(_)) => true,
        _ => false,
    }
}

fn org_value(j: &Json) -> (r: Option<Org>)
    ensures
        match r {
            Some(o) => org_of(*j) == Some(o@),
            None => org_of(*j) is None,
        },
{
    match j {
        Json::Object(f) => {
            let uuid = text_of(get_field(f, "uuid"));
            let name = text_of(get_field(f, "name"));
            let cloud = text_of(get_field(f, "cloud"));
            let k = flag_value(get_field(f, "kubernetes"));
            match (uuid, name, cloud, k) {
                (Some(uuid), Some(name), Some(cloud), Some(kubernetes)) => Some(
                    Org { uuid, name, cloud, kubernetes },
                ),
                _ => None,
            }
        },
        _ => None,
    }
}

fn orgs_value(j: Option<&Json>) -> (r: Option<Vec<Org>>)
    ensures
        match r {
            Some(v) => orgs_of(deref_opt(j)) == Some(orgs_view(v@)),
            None => orgs_of(deref_opt(j)) is None,
        },
{
    match j {
        Some(Json::Array(items)) => {
            let mut out: Vec<Org> = Vec::new();
            let mut i: usize = 0;
            while i < items.len()
                invariant
                    i <= items@.len(),
                    deref_opt(j) == Some(Json::Array(*items)),
                    out@.len() == i,
                    forall|k: int| 0 <= k < i ==> org_of(items@[k]) == Some((#[trigger] out@[k])@),
                decreases items@.len() - i,
            {
                match org_value(&items[i]) {
                    Some(o) => out.push(o),
                    None => {
                        assert(!(org_of(items@[i as int]) is Some));
                        return None;
                    },
                }
                i = i + 1;
            }
            assert forall|k: int| 0 <= k < items@.len() implies (#[trigger] org_of(items@[k])) is Some by {
                assert(org_of(items@[k]) == Some(out@[k]@));
            }
            assert(items@.map_values(|o: Json| org_of(o)->0) =~= orgs_view(out@));
            Some(out)
        },
        _ => None,
    }
}

fn is_text_array(j: Option<&Json>) -> (r: bool)
    ensures
        r == is_str_array(deref_opt(j)),
{
    match j {
        Some(Json::Array(items)) => {
            let mut i: usize = 0;
            while i < items.len()
                invariant
                    i <= items@.len(),
                    deref_opt(j) == Some(Json::Array(*items)),
                    forall|k: int| 0 <= k < i ==> (#[trigger] items@[k]) is Str,
                decreases items@.len() - i,
            {
                match &items[i] {
                    Json::Str(_) => {},
                    _ => {
                        assert(!(items@[i as int] is Str));
                        return false;
                    },
                }
                i = i + 1;
            }
            true
        },
        _ => false,
    }
}

/// What a login response carries for the token.
pub struct Login {
    pub access_token: String,
    pub expires_in: Option<u64>,
    pub orgs: Vec<Org>,
}

impl View for Login {
    type V = LoginView;

    open spec fn view(&self) -> LoginView {
        LoginView {
            access_token: self.access_token@,
            expires_in: self.expires_in,
            orgs: orgs_view(self.orgs@),
        }
    }
}

impl Login {
    /// Reads a login response out of a document.
    pub fn from_json(doc: &Json) -> (r: Option<Login>)
        ensures
            match r {
                Some(l) => login_of(*doc) == Some(l@),
                None => login_of(*doc) is None,
            },
    {
        match doc {
            Json::Object(f) => {
                let orgs = orgs_value(get_field(f, "orgs"));
                let shape_ok = is_text_array(get_field(f, "roles")) && text_of(
                    get_field(f, "email"),
                ).is_some() && bool_value(get_field(f, "emailVerified")).is_some();
                match get_field(f, "auth_token") {
                    Some(Json::Object(a)) => {
                        let access = text_of(get_field(a, "access_token"));
                        let exp = opt_u64_value(get_field(a, "expires_in"));
                        let kind_ok = is_opt_text(get_field(a, "token_type"));
                        match (access, exp, orgs) {
                            (Some(access_token), Some(expires_in), Some(orgs)) => {
                                if kind_ok && shape_ok {
                                    Some(Login { access_token, expires_in, orgs })
                                } else {
                                    None
                                }
                            },
                            _ => None,
                        }
                    },
                    _ => None,
                }
            },
            _ => None,
        }
    }

    /// Reads a login response out of a response body.
    pub fn from_body(body: &str) -> (r: Option<Login>)
        ensures
            match r {
                Some(l) => body_login(body@) == Some(l@),
                None => body_login(body@) is None,
            },
    {
        match parse_json(body) {
            Some(doc) => Login::from_json(&doc),
            None => None,
        }
    }
}


/// The instant at which a token issued at `now` goes stale: `expires_in`
/// seconds later (held at the largest instant), or `now` itself where the
/// response gives no lifetime.
pub open spec fn expiry(now: u64, expires_in: Option<u64>) -> u64 {
    match expires_in {
        None => now,
        Some(secs) => if now + secs * 1000 <= u64::MAX {
            (now + secs * 1000) as u64
        } else {
            u64::MAX
        },
    }
}

fn expiry_of(now: u64, expires_in: Option<u64>) -> (r: u64)
    ensures
        r == expiry(now, expires_in),
{
    match expires_in {
        None => now,
        Some(secs) => match secs.checked_mul(1000) {
            Some(ms) => match now.checked_add(ms) {
                Some(t) => t,
                None => u64::MAX,
            },
            None => {
                assert(now + secs * 1000 > u64::MAX) by (nonlinear_arith)
                    requires
                        secs * 1000 > u64::MAX,
                ;
                u64::MAX
            },
        },
    }
}

/// Why a login failed. Each carries the login address and the user name.
pub enum AuthError {
    Transport { url: String, username: String, message: String },
    Status { url: String, username: String, status: u16 },
    Parse { url: String, username: String },
}

pub enum AuthErrorView {
    Transport { url: Seq<char>, username: Seq<char>, message: Seq<char> },
    Status { url: Seq<char>, username: Seq<char>, status: u16 },
    Parse { url: Seq<char>, username: Seq<char> },
}

impl View for AuthError {
    type V = AuthErrorView;

    open spec fn view(&self) -> AuthErrorView {
        match self {
            AuthError::Transport { url, username, message } => AuthErrorView::Transport {
                url: url@,
                username: username@,
                message: message@,
            },
            AuthError::Status { url, username, status } => AuthErrorView::Status {
                url: url@,
                username: username@,
                status: *status,
            },
            AuthError::Parse { url, username } => AuthErrorView::Parse {
                url: url@,
                username: username@,
            },
        }
    }
}

/// The credentials for one management endpoint.
pub struct HydrolixAuth {
    base_url: String,
    username: String,
    password: String,
}

pub struct AuthView {
    pub base_url: Seq<char>,
    pub username: Seq<char>,
    pub password: Seq<char>,
}

impl View for HydrolixAuth {
    type V = AuthView;

    closed spec fn view(&self) -> AuthView {
        AuthView { base_url: self.base_url@, username: self.username@, password: self.password@ }
    }
}

/// The login address of a management endpoint.
pub open spec fn login_url(base_url: Seq<char>) -> Seq<char> {
    "https://"@ + base_url + "/config/v1/login"@
}

/// What a login exchange at `now` gives: a failed exchange, a non-2xx
/// status or a body that is not a login response is an error; otherwise the
/// token that the response describes, with no hits yet.
pub open spec fn login_outcome(a: AuthView, reply: HttpReplyView, now: u64) -> Result<
    TokenView,
    AuthErrorView,
> {
    let url = login_url(a.base_url);
    match reply {
        HttpReplyView::Failed(message) => Err(
            AuthErrorView::Transport { url, username: a.username, message },
        ),
        HttpReplyView::Received { status, body } => {
            if !is_success(status) {
                Err(AuthErrorView::Status { url, username: a.username, status })
            } else {
                match body_login(body) {
                    None => Err(AuthErrorView::Parse { url, username: a.username }),
                    Some(l) => Ok(
                        TokenView {
                            value: l.access_token,
                            org_list: l.orgs,
                            expires_at: expiry(now, l.expires_in),
                            hits: 0,
                            base_url: a.base_url,
                        },
                    ),
                }
            }
        },
    }
}

impl HydrolixAuth {
    pub fn new(base_url: &str, username: &str, password: &str) -> (r: HydrolixAuth)
        ensures
            r@ == (AuthView { base_url: base_url@, username: username@, password: password@ }),
    {
        HydrolixAuth {
            base_url: String::from_str(base_url),
            username: String::from_str(username),
            password: String::from_str(password),
        }
    }

    pub fn get_base_url(self) -> (r: String)
        ensures
            r@ == self@.base_url,
    {
        self.base_url
    }

    pub fn username(&self) -> (r: String)
        ensures
            r@ == self@.username,
    {
        self.username.clone()
    }

    pub fn password(&self) -> (r: String)
        ensures
            r@ == self@.password,
    {
        self.password.clone()
    }

    /// The address to send the login request to.
    pub fn login_url(&self) -> (r: String)
        ensures
            r@ == login_url(self@.base_url),
    {
        proof {
            reveal_strlit("https://");
            reveal_strlit("/config/v1/login");
        }
        let mut u = String::from_str("https://");
        u.append(self.base_url.as_str());
        u.append("/config/v1/login");
        assert(u@ =~= login_url(self@.base_url));
        u
    }

    /// Takes the reply to a login request sent at `now` after a cache miss.
    /// A token it yields replaces the cache entry; an error leaves the entry
    /// as it was.
    pub fn finish_login(&self, cache: &mut TokenCache, reply: HttpReply, now: u64) -> (r: Result<
        HydrolixToken,
        AuthError,
    >)
        ensures
            match r {
                Ok(t) => login_outcome(self@, reply@, now) == Ok::<TokenView, AuthErrorView>(t@)
                    && final(cache)@ == t@,
                Err(e) => login_outcome(self@, reply@, now) == Err::<TokenView, AuthErrorView>(e@)
                    && final(cache)@ == old(cache)@,
            },
    {
        let url = self.login_url();
        match reply {
            HttpReply::Failed(message) => Err(
                AuthError::Transport { url, username: self.username.clone(), message },
            ),
            HttpReply::Received { status, body } => {
                if !status_is_success(status) {
                    Err(AuthError::Status { url, username: self.username.clone(), status })
                } else {
                    match Login::from_body(body.as_str()) {
                        None => Err(AuthError::Parse { url, username: self.username.clone() }),
                        Some(l) => {
                            let Login { access_token, expires_in, orgs } = l;
                            let token = HydrolixToken {
                                value: access_token,
                                org_list: orgs,
                                expires_at: expiry_of(now, expires_in),
                                hits: 0,
                                base_url: self.base_url.clone(),
                            };
                            Ok(cache.store(token))
                        },
                    }
                }
            },
        }
    }
}

/// Once the cached token has expired, a lookup misses, so exactly one login
/// is made; the token that login yields is stored with no hits, and the next
/// lookup before it expires is served with a hit count of one.
pub proof fn lemma_expired_token_refreshed(
    c: TokenView,
    a: AuthView,
    reply: HttpReplyView,
    now: u64,
    later: u64,
    t: TokenView,
)
    requires
        c.expires_at <= now,
        login_outcome(a, reply, now) == Ok::<TokenView, AuthErrorView>(t),
        later < t.expires_at,
    ensures
        lookup_spec(c, now) == (c, None::<TokenView>),
        stored(t) == t,
        t.hits == 0,
        lookup_spec(t, later).1 == Some(TokenView { hits: 1, ..t }),
{
}

} // verus!
