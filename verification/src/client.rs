//! Thunder download client.
//!
//! Drives the 迅雷 CGI (exposed by the frontend server) through its `drive/v1`
//! REST API. [`ThunderClient`] says which HTTP request each operation owes and what
//! the reply means; sending is left to its caller.
//!
//! Local calls to the whitelisted `drive/v1/*` paths do not require the `pan_auth`
//! token, so every request is plain JSON with no signing.

use vstd::prelude::*;

use crate::api::{
    ApiCall, ApiCallView, ClientError, ErrorView, HttpRequest, HttpRequestView, LoginReply, Payload,
    PayloadView, Reply, ReplyView,
};
use crate::json::{parse_json, Json, JsonView};
use crate::text::{
    chars_of, find_chars, split_on, starts_with, trim, trim_end_of, trim_start_of, Strip,
};

verus! {

/// Web UI base prefix that every drive/v1 path hangs off of.
pub const API_PREFIX: &'static str = "/webman/3rdparty/pan-xunlei-com/index.cgi";

/// The storage space. The local download space is the empty string (the default
/// device space); `user#download` is only the task `type` discriminator, not the
/// space value.
pub const SPACE: &'static str = "";

pub const TASK_TYPE: &'static str = "user#download";

/// Narrows a task list to the tasks that are under way.
pub const ACTIVE_FILTERS: &'static str =
    "{\"phase\":{\"in\":\"PHASE_TYPE_PENDING,PHASE_TYPE_RUNNING\"}}";

// ---- the server's address -------------------------------------------------

/// Whether an address names its scheme.
pub open spec fn has_scheme(s: Seq<char>) -> bool {
    "http://"@.is_prefix_of(s) || "https://"@.is_prefix_of(s)
}

/// The server's address without blanks around it and slashes after it.
pub open spec fn bare_host(host: Seq<char>) -> Seq<char> {
    crate::text::strip_end(crate::text::trimmed(host), Strip::Slash)
}

/// The base of every URL: the server's address, with `http://` where it names no
/// scheme.
pub open spec fn base_of(host: Seq<char>) -> Seq<char> {
    if has_scheme(bare_host(host)) {
        bare_host(host)
    } else {
        "http://"@ + bare_host(host)
    }
}

/// The base of every URL: the server's address, with `http://` where it names no
/// scheme.
pub fn normalize_host(host: &str) -> (base: String)
    ensures
        base@ == base_of(host@),
{
    let h = trim_end_of(trim(host), Strip::Slash);
    if starts_with(h, "http://") || starts_with(h, "https://") {
        h.to_string()
    } else {
        let mut base = "http://".to_string();
        base.append(h);
        base
    }
}

// ---- the token ------------------------------------------------------------

/// `s` from the first place on at which `part` stands in it.
pub open spec fn from_first(s: Seq<char>, part: Seq<char>) -> Option<Seq<char>>
    decreases s.len(),
{
    if part.is_prefix_of(s) {
        Some(s)
    } else if s.len() == 0 {
        None
    } else {
        from_first(s.skip(1), part)
    }
}

/// Whether `c` can stand in a token: base64url segments joined by dots.
pub open spec fn token_char(c: char) -> bool {
    crate::json::ascii_alphanumeric(c) || c == '.' || c == '_' || c == '-'
}

/// The longest prefix of `s` that can stand in a token.
pub open spec fn token_prefix(s: Seq<char>) -> Seq<char>
    decreases s.len(),
{
    if s.len() > 0 && token_char(s[0]) {
        seq![s[0]] + token_prefix(s.skip(1))
    } else {
        Seq::empty()
    }
}

/// How often `c` stands in `s`.
pub open spec fn count_of(s: Seq<char>, c: char) -> nat
    decreases s.len(),
{
    if s.len() == 0 {
        0
    } else {
        count_of(s.drop_last(), c) + if s.last() == c {
            1nat
        } else {
            0nat
        }
    }
}

/// The token in the text of the homepage: what begins at the first `eyJ`, as far as
/// it can be a token, if it has three segments and is longer than 20 characters.
pub open spec fn token_in(html: Seq<char>) -> Option<Seq<char>> {
    match from_first(html, "eyJ"@) {
        Some(rest) => if count_of(token_prefix(rest), '.') == 2 && token_prefix(rest).len() > 20 {
            Some(token_prefix(rest))
        } else {
            None
        },
        None => None,
    }
}

proof fn lemma_from_first_found(s: Seq<char>, part: Seq<char>, at: int)
    requires
        crate::text::first_stands_at(s, part, at),
    ensures
        from_first(s, part) == Some(s.skip(at)),
    decreases s.len(),
{
    if at == 0 {
        assert(part.is_prefix_of(s));
        assert(s.skip(0) =~= s);
    } else {
        assert(!crate::text::stands_at(s, part, 0));
        assert(!part.is_prefix_of(s));
        let t = s.skip(1);
        assert(t.subrange(at - 1, at - 1 + part.len()) =~= s.subrange(at, at + part.len()));
        assert forall|j: int| 0 <= j < at - 1 implies !crate::text::stands_at(t, part, j) by {
            assert(!crate::text::stands_at(s, part, j + 1));
            if crate::text::stands_at(t, part, j) {
                assert(t.subrange(j, j + part.len()) =~= s.subrange(j + 1, j + 1 + part.len()));
            }
        }
        lemma_from_first_found(t, part, at - 1);
        assert(t.skip(at - 1) =~= s.skip(at));
    }
}

proof fn lemma_from_first_absent(s: Seq<char>, part: Seq<char>)
    requires
        !crate::text::holds_text(s, part),
    ensures
        from_first(s, part) is None,
    decreases s.len(),
{
    assert(!crate::text::stands_at(s, part, 0));
    assert(!part.is_prefix_of(s));
    if s.len() > 0 {
        let t = s.skip(1);
        assert forall|j: int| !crate::text::stands_at(t, part, j) by {
            assert(!crate::text::stands_at(s, part, j + 1));
            if crate::text::stands_at(t, part, j) {
                assert(t.subrange(j, j + part.len()) =~= s.subrange(j + 1, j + 1 + part.len()));
            }
        }
        lemma_from_first_absent(t, part);
    }
}

fn is_token_char(c: char) -> (yes: bool)
    ensures
        yes == token_char(c),
{
    (c >= 'a' && c <= 'z') || (c >= 'A' && c <= 'Z') || (c >= '0' && c <= '9') || c == '.' || c
        == '_' || c == '-'
}

/// Extract the `pan-auth` JWT the CGI injects into the homepage as
/// `uiauth(value){ return "<jwt>" }`. Matches the first `eyJ...` token.
pub fn scrape_pan_auth(html: &str) -> (token: Option<String>)
    ensures
        crate::api::opt_text(token) == token_in(html@),
{
    let chars = chars_of(html);
    let n = chars.len();
    match find_chars(&chars, &chars_of("eyJ")) {
        None => {
            proof {
                lemma_from_first_absent(html@, "eyJ"@);
            }
            None
        },
        Some(start) => {
            proof {
                lemma_from_first_found(html@, "eyJ"@, start as int);
            }
            let ghost rest = html@.skip(start as int);
            let mut end: usize = start;
            let mut dots: usize = 0;
            assert(rest.skip(0) =~= rest);
            assert(rest.take(0) + token_prefix(rest) =~= token_prefix(rest));
            while end < n && is_token_char(chars[end])
                invariant
                    n == chars@.len(),
                    chars@ == html@,
                    rest == html@.skip(start as int),
                    start <= end <= n,
                    dots <= end - start,
                    dots == count_of(rest.take(end - start), '.'),
                    token_prefix(rest) == rest.take(end - start) + token_prefix(
                        rest.skip(end - start),
                    ),
                decreases n - end,
            {
                let ghost k = end - start;
                assert(rest.skip(k)[0] == chars@[end as int]);
                assert(rest.skip(k).skip(1) =~= rest.skip(k + 1));
                assert(rest.take(k + 1).drop_last() =~= rest.take(k));
                assert(rest.take(k + 1) =~= rest.take(k).push(rest[k]));
                assert(rest.take(k) + (seq![rest[k]] + token_prefix(rest.skip(k + 1)))
                    =~= rest.take(k + 1) + token_prefix(rest.skip(k + 1)));
                if chars[end] == '.' {
                    dots = dots + 1;
                }
                end = end + 1;
            }
            assert(token_prefix(rest) =~= rest.take(end - start)) by {
                if end < n {
                    assert(rest.skip(end - start)[0] == chars@[end as int]);
                }
            }
            if dots == 2 && end - start > 20 {
                assert(html@.subrange(start as int, end as int) =~= rest.take(end - start));
                Some(html.substring_char(start, end).to_string())
            } else {
                None
            }
        },
    }
}

// ---- the client -----------------------------------------------------------

/// Where the server is, and what it has let the client in with.
#[derive(Debug, PartialEq)]
pub struct ThunderClient {
    /// e.g. `http://127.0.0.1:5055`
    base: String,
    /// The path of the Web UI homepage.
    home: String,
    /// Optional panel password → access_token cookie (only if the server was
    /// started with `--auth-password`). Localhost-no-auth leaves this None.
    cookie: Option<String>,
    /// The `pan-auth` JWT scraped from the Web UI homepage, cached lazily.
    /// Required by non-whitelisted endpoints (resource/list, singular task).
    pan_auth: Option<String>,
}

#[verifier::ext_equal]
pub struct ClientView {
    pub base: Seq<char>,
    pub home: Seq<char>,
    pub cookie: Option<Seq<char>>,
    pub pan_auth: Option<Seq<char>>,
}

impl View for ThunderClient {
    type V = ClientView;

    closed spec fn view(&self) -> ClientView {
        ClientView {
            base: self.base@,
            home: self.home@,
            cookie: crate::api::opt_text(self.cookie),
            pan_auth: crate::api::opt_text(self.pan_auth),
        }
    }
}

/// What an API call comes to next: the homepage has to be fetched for its token, or
/// the call itself can be sent.
#[derive(Debug, PartialEq)]
pub enum Step {
    FetchHome(HttpRequest),
    Send(HttpRequest),
}

pub enum StepView {
    FetchHome(HttpRequestView),
    Send(HttpRequestView),
}

impl View for Step {
    type V = StepView;

    open spec fn view(&self) -> StepView {
        match *self {
            Step::FetchHome(request) => StepView::FetchHome(request@),
            Step::Send(request) => StepView::Send(request@),
        }
    }
}

/// The full URL of an API path.
pub open spec fn api_url(base: Seq<char>, path: Seq<char>) -> Seq<char> {
    base + API_PREFIX@ + "/"@ + crate::text::strip_start(path, Strip::Slash)
}

/// The headers that every request of a client has.
pub open spec fn cookie_headers(cookie: Option<Seq<char>>) -> Seq<(Seq<char>, Seq<char>)> {
    match cookie {
        Some(c) => seq![("Cookie"@, c)],
        None => Seq::empty(),
    }
}

/// The request for the homepage.
pub open spec fn home_request(client: ClientView) -> HttpRequestView {
    HttpRequestView {
        method: "GET"@,
        url: client.base + client.home,
        headers: cookie_headers(client.cookie),
        body: PayloadView::Empty,
        follow_redirects: true,
    }
}

/// The request of an API call: the cookie where there is one, the token where the
/// call wants it, and the body as JSON.
pub open spec fn call_request(client: ClientView, call: ApiCallView) -> HttpRequestView {
    HttpRequestView {
        method: call.method,
        url: api_url(client.base, call.path),
        headers: if call.with_token && client.pan_auth is Some {
            cookie_headers(client.cookie).push(("pan-auth"@, client.pan_auth->0))
        } else {
            cookie_headers(client.cookie)
        },
        body: match call.body {
            Some(text) => PayloadView::Json(text),
            None => PayloadView::Empty,
        },
        follow_redirects: true,
    }
}

/// What an API call comes to next.
pub open spec fn next_step(client: ClientView, call: ApiCallView) -> StepView {
    if call.with_token && client.pan_auth is None {
        StepView::FetchHome(home_request(client))
    } else {
        StepView::Send(call_request(client, call))
    }
}

/// The request that exchanges the panel password for a cookie. The cookie comes with
/// the redirect that answers it, so that redirect is not followed.
pub open spec fn login_request(base: Seq<char>, password: Seq<char>) -> HttpRequestView {
    HttpRequestView {
        method: "POST"@,
        url: base + "/login"@,
        headers: Seq::empty(),
        body: PayloadView::Form(seq![("password"@, password)]),
        follow_redirects: false,
    }
}

/// The cookie in the reply to a login: the first pair of its `set-cookie` header.
pub open spec fn cookie_in(reply: LoginReply) -> Result<Seq<char>, ErrorView> {
    match reply {
        LoginReply::Failed(causes) => Err(
            ErrorView::LoginFailed(crate::text::texts(causes@)),
        ),
        LoginReply::Answer(None) => Err(ErrorView::NoCookie),
        LoginReply::Answer(Some(header)) => {
            let pair = crate::text::trimmed(crate::text::split(header@, ';')[0]);
            if pair.len() == 0 {
                Err(ErrorView::EmptyCookie)
            } else {
                Ok(pair)
            }
        },
    }
}

/// The token in the reply to a request for the homepage.
pub open spec fn token_reply_in(reply: ReplyView) -> Result<Seq<char>, ErrorView> {
    match reply {
        ReplyView::Text(html) => match token_in(html) {
            Some(token) => Ok(token),
            None => Err(ErrorView::NoToken),
        },
        ReplyView::Unread(causes) => Err(ErrorView::HomeUnread(causes)),
        ReplyView::Status { code, body, causes } => Err(ErrorView::HomeFailed(causes)),
        ReplyView::Failed(causes) => Err(ErrorView::HomeFailed(causes)),
    }
}

/// What the text of a response holds: a blank one is null, any other is read as
/// JSON.
pub open spec fn answer_in(text: Seq<char>) -> Result<JsonView, Seq<char>> {
    if crate::text::trimmed(text).len() == 0 {
        Ok(JsonView::Null)
    } else {
        crate::json::json_parsed(text)
    }
}

/// What the reply to an API call says, where `answer` is what the text of a
/// success holds.
pub open spec fn reply_means(
    call: ApiCallView,
    reply: ReplyView,
    answer: Result<JsonView, Seq<char>>,
) -> Result<JsonView, ErrorView> {
    match reply {
        ReplyView::Text(text) => match answer {
            Ok(v) => Ok(v),
            Err(cause) => Err(
                ErrorView::NotJson { method: call.method, path: call.path, text, cause },
            ),
        },
        ReplyView::Unread(causes) => Err(ErrorView::Unread(causes)),
        ReplyView::Status { code, body, causes } => Err(ErrorView::Api { code, body }),
        ReplyView::Failed(causes) => Err(
            ErrorView::Failed { method: call.method, path: call.path, causes },
        ),
    }
}

/// What the reply to an API call says.
pub open spec fn response_in(call: ApiCallView, reply: ReplyView) -> Result<JsonView, ErrorView> {
    reply_means(
        call,
        reply,
        match reply {
            ReplyView::Text(text) => answer_in(text),
            _ => Ok(JsonView::Null),
        },
    )
}

fn header(name: &str, value: &str) -> (pair: (String, String))
    ensures
        pair.0@ == name@,
        pair.1@ == value@,
{
    (name.to_string(), value.to_string())
}

impl ThunderClient {
    /// A client for the server at `host`, whose Web UI homepage is at `home`, and
    /// the login that it owes where the panel has a password.
    pub fn new(host: &str, home: &str, password: Option<&str>) -> (r: (
        ThunderClient,
        Option<HttpRequest>,
    ))
        ensures
            r.0@ == (ClientView {
                base: base_of(host@),
                home: home@,
                cookie: None,
                pan_auth: None,
            }),
            match (password, r.1) {
                (Some(pw), Some(login)) => login@ == login_request(base_of(host@), pw@),
                (None, None) => true,
                _ => false,
            },
    {
        let client = ThunderClient {
            base: normalize_host(host),
            home: home.to_string(),
            cookie: None,
            pan_auth: None,
        };
        match password {
            Some(pw) => {
                let login = client.login(pw);
                (client, Some(login))
            },
            None => (client, None),
        }
    }

    /// Exchange the panel password for an `access_token` cookie via `/login`. Redirects
    /// are not followed here; we just want the Set-Cookie header off the 303 response.
    pub fn login(&self, password: &str) -> (request: HttpRequest)
        ensures
            request@ == login_request(self@.base, password@),
    {
        let mut url = self.base.clone();
        url.append("/login");
        let mut fields: Vec<(String, String)> = Vec::new();
        fields.push(header("password", password));
        let request = HttpRequest {
            method: "POST".to_string(),
            url,
            headers: Vec::new(),
            body: Payload::Form(fields),
            follow_redirects: false,
        };
        proof {
            let view = login_request(self@.base, password@);
            assert(crate::api::pairs_view(fields@) =~= view.body->Form_0);
            assert(request@.headers =~= view.headers);
        }
        request
    }

    /// Keeps the cookie that the reply to a login brings.
    pub fn login_reply(&mut self, reply: LoginReply) -> (r: Result<(), ClientError>)
        ensures
            match cookie_in(reply) {
                Ok(cookie) => r is Ok && final(self)@ == (ClientView {
                    cookie: Some(cookie),
                    ..old(self)@
                }),
                Err(e) => r matches Err(x) && x@ == e && final(self)@ == old(self)@,
            },
    {
        match reply {
            LoginReply::Failed(causes) => Err(ClientError::LoginFailed(causes)),
            LoginReply::Answer(None) => Err(ClientError::NoCookie),
            LoginReply::Answer(Some(set_cookie)) => {
                // Keep just the `access_token=...` pair.
                let pairs = split_on(set_cookie.as_str(), ';');
                proof {
                    crate::text::lemma_split_nonempty(set_cookie@, ';');
                    assert(crate::text::texts(pairs@)[0] == pairs@[0]@);
                }
                let pair = trim(pairs[0].as_str());
                if pair.is_empty() {
                    return Err(ClientError::EmptyCookie);
                }
                self.cookie = Some(pair.to_string());
                Ok(())
            },
        }
    }

    /// Keeps the `pan-auth` token that the CGI injects into the Web UI homepage as
    /// `uiauth(value){ return "<jwt>" }`. The token is a 72h HS256 JWT; scraping it
    /// avoids having to reproduce the signing key.
    pub fn pan_auth_token(&mut self, reply: Reply) -> (r: Result<(), ClientError>)
        ensures
            match token_reply_in(reply@) {
                Ok(token) => r is Ok && final(self)@ == (ClientView {
                    pan_auth: Some(token),
                    ..old(self)@
                }),
                Err(e) => r matches Err(x) && x@ == e && final(self)@ == old(self)@,
            },
    {
        match reply {
            Reply::Text(html) => match scrape_pan_auth(html.as_str()) {
                Some(token) => {
                    self.pan_auth = Some(token);
                    Ok(())
                },
                None => Err(ClientError::NoToken),
            },
            Reply::Unread(causes) => Err(ClientError::HomeUnread(causes)),
            Reply::Status { causes, .. } => Err(ClientError::HomeFailed(causes)),
            Reply::Failed(causes) => Err(ClientError::HomeFailed(causes)),
        }
    }

    // ---- low-level transport ------------------------------------------------

    /// Build a full URL for an API path (relative to the CGI prefix).
    pub fn url(&self, path: &str) -> (url: String)
        ensures
            url@ == api_url(self@.base, path@),
    {
        let mut url = self.base.clone();
        url.append(API_PREFIX);
        url.append("/");
        url.append(trim_start_of(path, Strip::Slash));
        url
    }

    /// The auth cookie header if we have one.
    fn with_auth(&self) -> (headers: Vec<(String, String)>)
        ensures
            crate::api::pairs_view(headers@) == cookie_headers(self@.cookie),
    {
        let mut headers: Vec<(String, String)> = Vec::new();
        if let Some(c) = &self.cookie {
            headers.push(header("Cookie", c.as_str()));
        }
        assert(crate::api::pairs_view(headers@) =~= cookie_headers(self@.cookie));
        headers
    }

    /// What `call` comes to next. The `pan-auth` token is attached automatically
    /// (required by non-whitelisted endpoints, ignored by whitelisted ones); where
    /// it is not known yet, the homepage is fetched first.
    pub fn step(&self, call: &ApiCall) -> (step: Step)
        ensures
            step@ == next_step(self@, call@),
    {
        let mut headers = self.with_auth();
        if call.with_token {
            match &self.pan_auth {
                None => {
                    let mut url = self.base.clone();
                    url.append(self.home.as_str());
                    let request = HttpRequest {
                        method: "GET".to_string(),
                        url,
                        headers,
                        body: Payload::Empty,
                        follow_redirects: true,
                    };
                    assert(request@ =~= home_request(self@));
                    return Step::FetchHome(request);
                },
                Some(token) => {
                    let ghost before = headers@;
                    headers.push(header("pan-auth", token.as_str()));
                    assert(crate::api::pairs_view(headers@) =~= crate::api::pairs_view(before).push(
                        ("pan-auth"@, token@),
                    ));
                },
            }
        }
        let body = match &call.body {
            Some(text) => Payload::Json(text.clone()),
            None => Payload::Empty,
        };
        let request = HttpRequest {
            method: call.method.clone(),
            url: self.url(call.path.as_str()),
            headers,
            body,
            follow_redirects: true,
        };
        assert(request@ =~= call_request(self@, call@));
        Step::Send(request)
    }
}

/// What the reply to `call` says.
pub fn response(call: &ApiCall, reply: Reply) -> (r: Result<Json, ClientError>)
    ensures
        match (r, response_in(call@, reply@)) {
            (Ok(j), Ok(v)) => j@ == v,
            (Err(e), Err(w)) => e@ == w,
            _ => false,
        },
{
    match reply {
        Reply::Text(text) => {
            let answer = if trim(text.as_str()).is_empty() {
                Ok(Json::Null)
            } else {
                parse_json(text.as_str())
            };
            answered(call, text, answer)
        },
        Reply::Unread(causes) => Err(ClientError::Unread(causes)),
        Reply::Status { code, body, .. } => Err(ClientError::Api { code, body }),
        Reply::Failed(causes) => Err(
            ClientError::Failed { method: call.method.clone(), path: call.path.clone(), causes },
        ),
    }
}

/// What a success with the body `text` says, where `answer` is what the text holds.
pub fn answered(call: &ApiCall, text: String, answer: Result<Json, String>) -> (r: Result<
    Json,
    ClientError,
>)
    ensures
        match (r, reply_means(call@, ReplyView::Text(text@), crate::json::result_view(answer))) {
            (Ok(j), Ok(v)) => j@ == v,
            (Err(e), Err(w)) => e@ == w,
            _ => false,
        },
{
    match answer {
        Ok(v) => Ok(v),
        Err(cause) => Err(
            ClientError::NotJson {
                method: call.method.clone(),
                path: call.path.clone(),
                text,
                cause,
            },
        ),
    }
}

// ---- laws -----------------------------------------------------------------

/// The base of every URL names its scheme.
pub proof fn law_base_has_scheme(host: Seq<char>)
    ensures
        has_scheme(base_of(host)),
{
    let bare = bare_host(host);
    assert(("http://"@ + bare).subrange(0, "http://"@.len() as int) =~= "http://"@);
    assert("http://"@.is_prefix_of("http://"@ + bare));
}

/// Normalizing an address again changes nothing, provided that there is an address
/// left without blanks and slashes and that it does not end in a blank.
pub proof fn law_normalizing_is_idempotent(host: Seq<char>)
    requires
        bare_host(host).len() > 0,
        !crate::text::white_space(bare_host(host).last()),
    ensures
        base_of(base_of(host)) == base_of(host),
{
    let bare = bare_host(host);
    let base = base_of(host);
    law_base_has_scheme(host);
    reveal_strlit("http://");
    reveal_strlit("https://");
    crate::text::lemma_strip_end_is_prefix(crate::text::trimmed(host), Strip::Slash);
    assert(base[0] == 'h') by {
        if has_scheme(bare) {
            if "http://"@.is_prefix_of(bare) {
                assert(bare.subrange(0, "http://"@.len() as int)[0] == bare[0]);
            } else {
                assert(bare.subrange(0, "https://"@.len() as int)[0] == bare[0]);
            }
        }
    }
    assert(base.last() == bare.last());
    crate::text::lemma_trimmed_is_itself(base);
    assert(bare_host(base) == base);
}

/// Slashes before an API path make no difference.
pub proof fn law_leading_slash_is_ignored(base: Seq<char>, path: Seq<char>)
    ensures
        api_url(base, "/"@ + path) == api_url(base, path),
{
    reveal_strlit("/");
    assert(("/"@ + path).skip(1) =~= path);
}

proof fn lemma_token_prefix(s: Seq<char>)
    ensures
        token_prefix(s).is_prefix_of(s),
        forall|i: int| 0 <= i < token_prefix(s).len() ==> token_char(#[trigger] token_prefix(s)[i]),
        token_prefix(s).len() < s.len() ==> !token_char(s[token_prefix(s).len() as int]),
    decreases s.len(),
{
    if s.len() > 0 && token_char(s[0]) {
        let rest = s.skip(1);
        lemma_token_prefix(rest);
        let t = token_prefix(s);
        let u = token_prefix(rest);
        assert(u =~= rest.subrange(0, u.len() as int));
        assert(t =~= s.subrange(0, t.len() as int)) by {
            assert forall|i: int| 0 <= i < t.len() implies t[i] == s[i] by {
                if i > 0 {
                    assert(t[i] == u[i - 1]);
                    assert(u[i - 1] == rest[i - 1]);
                }
            }
        }
        assert forall|i: int| 0 <= i < t.len() implies token_char(#[trigger] t[i]) by {
            if i > 0 {
                assert(t[i] == u[i - 1]);
            }
        }
        if t.len() < s.len() {
            assert(s[t.len() as int] == rest[u.len() as int]);
        }
    } else {
        assert(Seq::<char>::empty() =~= s.subrange(0, 0));
    }
}

proof fn lemma_from_first_stands(s: Seq<char>, part: Seq<char>) -> (at: int)
    requires
        from_first(s, part) is Some,
    ensures
        0 <= at <= s.len(),
        from_first(s, part) == Some(s.skip(at)),
        part.is_prefix_of(s.skip(at)),
        forall|j: int| 0 <= j < at ==> !part.is_prefix_of(#[trigger] s.skip(j)),
    decreases s.len(),
{
    if part.is_prefix_of(s) {
        assert(s.skip(0) =~= s);
        0
    } else {
        let k = lemma_from_first_stands(s.skip(1), part);
        assert(s.skip(1).skip(k) =~= s.skip(k + 1));
        assert forall|j: int| 0 <= j < k + 1 implies !part.is_prefix_of(#[trigger] s.skip(j)) by {
            if j == 0 {
                assert(s.skip(0) =~= s);
            } else {
                assert(s.skip(1).skip(j - 1) =~= s.skip(j));
            }
        }
        k + 1
    }
}

/// A token that is scraped has the shape of a JWT: it begins with `eyJ`, is made of
/// base64url characters in three segments, is longer than 20 characters, and stands in
/// the page.
pub proof fn law_scraped_token_is_a_jwt(html: Seq<char>)
    requires
        token_in(html) is Some,
    ensures
        "eyJ"@.is_prefix_of(token_in(html)->0),
        forall|i: int|
            0 <= i < token_in(html)->0.len() ==> token_char(#[trigger] (token_in(html)->0)[i]),
        count_of(token_in(html)->0, '.') == 2,
        token_in(html)->0.len() > 20,
        crate::text::holds_text(html, token_in(html)->0),
{
    let token = token_in(html)->0;
    let at = lemma_from_first_stands(html, "eyJ"@);
    let rest = html.skip(at);
    lemma_token_prefix(rest);
    reveal_strlit("eyJ");
    assert(token =~= rest.subrange(0, token.len() as int));
    assert("eyJ"@ =~= rest.subrange(0, 3));
    assert(token.subrange(0, 3) =~= rest.subrange(0, 3));
    assert(html.subrange(at, at + token.len()) =~= token);
    assert(crate::text::stands_at(html, token, at));
}

/// The token is fetched once: with it at hand, every call is sent right away, and
/// carries it where it wants it.
pub proof fn law_token_is_fetched_once(client: ClientView, call: ApiCallView, token: Seq<char>)
    requires
        client.pan_auth == Some(token),
    ensures
        next_step(client, call) == StepView::Send(call_request(client, call)),
        call.with_token ==> call_request(client, call).headers.contains(("pan-auth"@, token)),
{
    let headers = call_request(client, call).headers;
    if call.with_token {
        assert(headers[headers.len() - 1] == ("pan-auth"@, token));
    }
}

/// A call that wants no token never waits for the homepage, and never carries one.
pub proof fn law_whitelisted_calls_need_no_token(client: ClientView, call: ApiCallView)
    requires
        !call.with_token,
    ensures
        next_step(client, call) == StepView::Send(call_request(client, call)),
        call_request(client, call).headers == cookie_headers(client.cookie),
{
}

/// Once logged in, every request carries the cookie.
pub proof fn law_cookie_goes_along(client: ClientView, call: ApiCallView, cookie: Seq<char>)
    requires
        client.cookie == Some(cookie),
    ensures
        home_request(client).headers.contains(("Cookie"@, cookie)),
        call_request(client, call).headers.contains(("Cookie"@, cookie)),
{
    assert(home_request(client).headers[0] == ("Cookie"@, cookie));
    assert(call_request(client, call).headers[0] == ("Cookie"@, cookie));
}

/// The cookie that is kept is a single pair: not empty, with no `;` in it and no
/// blank around it.
pub proof fn law_cookie_is_one_pair(reply: LoginReply)
    requires
        cookie_in(reply) is Ok,
    ensures
        cookie_in(reply)->Ok_0.len() > 0,
        !cookie_in(reply)->Ok_0.contains(';'),
        crate::text::trimmed(cookie_in(reply)->Ok_0) == cookie_in(reply)->Ok_0,
{
    if let LoginReply::Answer(Some(header)) = reply {
        let first = crate::text::split(header@, ';')[0];
        let front = crate::text::strip_start(first, Strip::Whitespace);
        let pair = crate::text::trimmed(first);
        crate::text::lemma_split_nonempty(header@, ';');
        crate::text::lemma_pieces_without_separator(header@, ';');
        crate::text::law_trim_is_idempotent(first);
        crate::text::lemma_strip_start_is_suffix(first, Strip::Whitespace);
        crate::text::lemma_strip_end_is_prefix(front, Strip::Whitespace);
        if pair.contains(';') {
            let i = choose|i: int| 0 <= i < pair.len() && pair[i] == ';';
            assert(front[i] == ';');
            assert(first[i + first.len() - front.len()] == ';');
        }
    }
}

/// A call is sent as it is: with its own method, path and body, with the cookie where
/// there is one, and with the token exactly where the call wants it. Only a call that
/// wants a token that is not known has the homepage fetched first.
pub proof fn law_calls_are_sent_as_they_are(client: ClientView, call: ApiCallView)
    ensures
        match next_step(client, call) {
            StepView::Send(r) => {
                &&& r.method == call.method
                &&& r.body == (match call.body {
                    Some(text) => PayloadView::Json(text),
                    None => PayloadView::Empty,
                })
                &&& r.headers == (match client.cookie {
                    Some(cookie) => seq![("Cookie"@, cookie)],
                    None => Seq::<(Seq<char>, Seq<char>)>::empty(),
                }) + (if call.with_token {
                    seq![("pan-auth"@, client.pan_auth->0)]
                } else {
                    Seq::<(Seq<char>, Seq<char>)>::empty()
                })
                &&& call.with_token ==> client.pan_auth is Some
                &&& r.follow_redirects
                &&& (call.path.len() == 0 || call.path[0] != '/') ==> r.url == client.base
                    + "/webman/3rdparty/pan-xunlei-com/index.cgi"@ + "/"@ + call.path
            },
            StepView::FetchHome(r) => {
                &&& call.with_token
                &&& client.pan_auth is None
                &&& r.method == "GET"@
                &&& r.url == client.base + client.home
                &&& r.body == PayloadView::Empty
                &&& r.headers == (match client.cookie {
                    Some(cookie) => seq![("Cookie"@, cookie)],
                    None => Seq::<(Seq<char>, Seq<char>)>::empty(),
                })
                &&& r.follow_redirects
            },
        },
{
    if let StepView::Send(r) = next_step(client, call) {
        let cookie = match client.cookie {
            Some(cookie) => seq![("Cookie"@, cookie)],
            None => Seq::<(Seq<char>, Seq<char>)>::empty(),
        };
        let token = if call.with_token {
            seq![("pan-auth"@, client.pan_auth->0)]
        } else {
            Seq::<(Seq<char>, Seq<char>)>::empty()
        };
        assert(r.headers =~= cookie + token);
    }
}

/// A login posts the password, and nothing else, to the server's login page, and takes
/// the answer itself, not the page that it leads to.
pub proof fn law_login_posts_the_password(base: Seq<char>, password: Seq<char>)
    ensures
        login_request(base, password).method == "POST"@,
        login_request(base, password).url == base + "/login"@,
        login_request(base, password).headers.len() == 0,
        login_request(base, password).body matches PayloadView::Form(fields) && fields.len() == 1
            && fields[0] == ("password"@, password),
        !login_request(base, password).follow_redirects,
{
}

/// The cookie that is kept is what stands before the first `;` of the header, without
/// blanks around it. Without one the login fails, and says why.
pub proof fn law_cookie_is_the_first_pair(reply: LoginReply, first: Seq<char>, rest: Seq<char>)
    requires
        !first.contains(';'),
    ensures
        match reply {
            LoginReply::Answer(Some(header)) => header@ == first || header@ == first + seq![';']
                + rest ==> cookie_in(reply) == if crate::text::trimmed(first).len() > 0 {
                Ok::<Seq<char>, ErrorView>(crate::text::trimmed(first))
            } else {
                Err::<Seq<char>, ErrorView>(ErrorView::EmptyCookie)
            },
            LoginReply::Answer(None) => cookie_in(reply) == Err::<Seq<char>, ErrorView>(
                ErrorView::NoCookie,
            ),
            LoginReply::Failed(causes) => cookie_in(reply) == Err::<Seq<char>, ErrorView>(
                ErrorView::LoginFailed(crate::text::texts(causes@)),
            ),
        },
{
    crate::text::lemma_split_whole(first, ';');
    crate::text::lemma_split_first(first, ';', rest);
}

/// A token on the homepage is found, whatever stands around it, provided that no `eyJ`
/// comes before it and no character of a token right after it.
pub proof fn law_token_on_the_page_is_found(
    before: Seq<char>,
    token: Seq<char>,
    after: Seq<char>,
)
    requires
        "eyJ"@.is_prefix_of(token),
        forall|i: int| 0 <= i < token.len() ==> token_char(#[trigger] token[i]),
        count_of(token, '.') == 2,
        token.len() > 20,
        forall|j: int|
            0 <= j < before.len() ==> !"eyJ"@.is_prefix_of(
                #[trigger] (before + token + after).skip(j),
            ),
        after.len() > 0 ==> !token_char(after[0]),
    ensures
        token_reply_in(ReplyView::Text(before + token + after)) == Ok::<Seq<char>, ErrorView>(
            token,
        ),
{
    let page = before + token + after;
    reveal_strlit("eyJ");
    assert(page.skip(before.len() as int) =~= token + after);
    assert((token + after).subrange(0, 3) =~= token.subrange(0, 3));
    assert("eyJ"@.is_prefix_of(page.skip(before.len() as int)));
    assert(from_first(page, "eyJ"@) is Some) by {
        lemma_from_first_at(page, "eyJ"@, before.len() as int);
    }
    let at = lemma_from_first_stands(page, "eyJ"@);
    assert(at == before.len());
    let rest = token + after;
    lemma_token_prefix(rest);
    let found = token_prefix(rest);
    assert(found =~= rest.subrange(0, found.len() as int));
    assert(found.len() == token.len()) by {
        if found.len() < token.len() {
            assert(rest[found.len() as int] == token[found.len() as int]);
        }
        if found.len() > token.len() {
            assert(found[token.len() as int] == after[0]);
        }
    }
    assert(found =~= token);
}

proof fn lemma_from_first_at(s: Seq<char>, part: Seq<char>, at: int)
    requires
        0 <= at <= s.len(),
        part.is_prefix_of(s.skip(at)),
    ensures
        from_first(s, part) is Some,
    decreases s.len(),
{
    if !part.is_prefix_of(s) {
        if at == 0 {
            assert(s.skip(0) =~= s);
        } else {
            assert(s.skip(1).skip(at - 1) =~= s.skip(at));
            lemma_from_first_at(s.skip(1), part, at - 1);
        }
    }
}

/// Without a token on it, a homepage is refused; one that could not be fetched or read
/// is reported with what lies behind that.
pub proof fn law_homepage_failures_are_told(
    html: Seq<char>,
    code: u16,
    body: Seq<char>,
    causes: Seq<Seq<char>>,
)
    ensures
        token_in(html) is None ==> token_reply_in(ReplyView::Text(html)) == Err::<
            Seq<char>,
            ErrorView,
        >(ErrorView::NoToken),
        token_reply_in(ReplyView::Unread(causes)) == Err::<Seq<char>, ErrorView>(
            ErrorView::HomeUnread(causes),
        ),
        token_reply_in(ReplyView::Status { code, body, causes }) == Err::<Seq<char>, ErrorView>(
            ErrorView::HomeFailed(causes),
        ),
        token_reply_in(ReplyView::Failed(causes)) == Err::<Seq<char>, ErrorView>(
            ErrorView::HomeFailed(causes),
        ),
{
}

/// A success says what its text holds as JSON, a blank one nothing; whatever else comes
/// back is an error, which tells of the call, the status or the text in question.
pub proof fn law_replies_mean_what_they_hold(
    call: ApiCallView,
    text: Seq<char>,
    code: u16,
    body: Seq<char>,
    causes: Seq<Seq<char>>,
)
    ensures
        response_in(call, ReplyView::Text(text)) == if crate::text::trimmed(text).len() == 0 {
            Ok::<JsonView, ErrorView>(JsonView::Null)
        } else {
            match crate::json::json_parsed(text) {
                Ok(v) => Ok::<JsonView, ErrorView>(v),
                Err(cause) => Err::<JsonView, ErrorView>(
                    ErrorView::NotJson { method: call.method, path: call.path, text, cause },
                ),
            }
        },
        response_in(call, ReplyView::Status { code, body, causes }) == Err::<JsonView, ErrorView>(
            ErrorView::Api { code, body },
        ),
        response_in(call, ReplyView::Failed(causes)) == Err::<JsonView, ErrorView>(
            ErrorView::Failed { method: call.method, path: call.path, causes },
        ),
        response_in(call, ReplyView::Unread(causes)) == Err::<JsonView, ErrorView>(
            ErrorView::Unread(causes),
        ),
{
}

/// An address is kept as it is, with `http://` before it exactly where it names neither
/// `http://` nor `https://`; blanks around it and slashes after it are dropped.
pub proof fn law_address_is_kept(
    before: Seq<char>,
    host: Seq<char>,
    slashes: Seq<char>,
    after: Seq<char>,
)
    requires
        host.len() > 0,
        !crate::text::white_space(host[0]),
        !crate::text::white_space(host.last()),
        host.last() != '/',
        forall|i: int| 0 <= i < before.len() ==> crate::text::white_space(#[trigger] before[i]),
        forall|i: int| 0 <= i < after.len() ==> crate::text::white_space(#[trigger] after[i]),
        forall|i: int| 0 <= i < slashes.len() ==> #[trigger] slashes[i] == '/',
    ensures
        base_of(before + host + slashes + after) == if "http://"@.is_prefix_of(host)
            || "https://"@.is_prefix_of(host) {
            host
        } else {
            "http://"@ + host
        },
{
    let address = host + slashes;
    assert(before + host + slashes + after =~= before + address + after);
    assert(address[0] == host[0]);
    if slashes.len() > 0 {
        assert(address.last() == slashes[slashes.len() - 1]);
    } else {
        assert(address =~= host);
    }
    crate::text::law_blanks_around_are_trimmed(before, address, after);
    let bare = crate::text::strip_end(address, Strip::Slash);
    crate::text::law_strip_end_takes_what_it_may(address, Strip::Slash);
    crate::text::lemma_strip_end_is_prefix(address, Strip::Slash);
    assert(bare.len() == host.len()) by {
        if bare.len() < host.len() {
            assert(address[host.len() - 1] == host.last());
        }
        if bare.len() > host.len() {
            assert(bare.last() == address[bare.len() - 1]);
            assert(address[bare.len() - 1] == slashes[bare.len() - 1 - host.len()]);
        }
    }
    assert(bare =~= host);
}

/// A token is made of letters and digits of ASCII, dots, underscores and hyphens.
pub proof fn law_token_characters(c: char)
    ensures
        token_char(c) <==> ('a' <= c <= 'z' || 'A' <= c <= 'Z' || '0' <= c <= '9' || c == '.' || c
            == '_' || c == '-'),
{
}

} // verus!
