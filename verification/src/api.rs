//! Requests against the drive API, the replies to them, and the errors that an
//! operation can end in.

use vstd::prelude::*;

use crate::number::unsigned_text;
use crate::text::contains_text;

verus! {

// ---- requests and replies -------------------------------------------------

/// A request against an API path.
#[derive(Debug, PartialEq)]
pub struct ApiCall {
    pub method: String,
    /// Relative to the CGI prefix (e.g. `drive/v1/tasks`).
    pub path: String,
    /// The JSON text of the body.
    pub body: Option<String>,
    /// Whether the `pan-auth` token goes along.
    pub with_token: bool,
}

#[verifier::ext_equal]
pub struct ApiCallView {
    pub method: Seq<char>,
    pub path: Seq<char>,
    pub body: Option<Seq<char>>,
    pub with_token: bool,
}

pub open spec fn opt_text(s: Option<String>) -> Option<Seq<char>> {
    match s {
        Some(s) => Some(s@),
        None => None,
    }
}

impl View for ApiCall {
    type V = ApiCallView;

    open spec fn view(&self) -> ApiCallView {
        ApiCallView {
            method: self.method@,
            path: self.path@,
            body: opt_text(self.body),
            with_token: self.with_token,
        }
    }
}

/// The body of an HTTP request.
#[derive(Debug, PartialEq)]
pub enum Payload {
    Empty,
    /// JSON text.
    Json(String),
    /// Form fields.
    Form(Vec<(String, String)>),
}

pub enum PayloadView {
    Empty,
    Json(Seq<char>),
    Form(Seq<(Seq<char>, Seq<char>)>),
}

pub open spec fn pairs_view(pairs: Seq<(String, String)>) -> Seq<(Seq<char>, Seq<char>)> {
    pairs.map_values(|p: (String, String)| (p.0@, p.1@))
}

impl View for Payload {
    type V = PayloadView;

    open spec fn view(&self) -> PayloadView {
        match *self {
            Payload::Empty => PayloadView::Empty,
            Payload::Json(text) => PayloadView::Json(text@),
            Payload::Form(fields) => PayloadView::Form(pairs_view(fields@)),
        }
    }
}

/// An HTTP request, ready to be sent.
#[derive(Debug, PartialEq)]
pub struct HttpRequest {
    pub method: String,
    pub url: String,
    pub headers: Vec<(String, String)>,
    pub body: Payload,
    /// Whether a redirect is followed; where not, the redirect itself is the response.
    pub follow_redirects: bool,
}

#[verifier::ext_equal]
pub struct HttpRequestView {
    pub method: Seq<char>,
    pub url: Seq<char>,
    pub headers: Seq<(Seq<char>, Seq<char>)>,
    pub body: PayloadView,
    pub follow_redirects: bool,
}

impl View for HttpRequest {
    type V = HttpRequestView;

    open spec fn view(&self) -> HttpRequestView {
        HttpRequestView {
            method: self.method@,
            url: self.url@,
            headers: pairs_view(self.headers@),
            body: self.body@,
            follow_redirects: self.follow_redirects,
        }
    }
}

/// What came back for an HTTP request. Why something failed is a list of messages, each
/// of which lies behind the one before.
#[derive(Debug, PartialEq)]
pub enum Reply {
    /// A success, with the text of its body.
    Text(String),
    /// A success whose body could not be read, and why.
    Unread(Vec<String>),
    /// An error status, with the text of its body and what the transport says of it.
    Status { code: u16, body: String, causes: Vec<String> },
    /// No response, and why.
    Failed(Vec<String>),
}

pub enum ReplyView {
    Text(Seq<char>),
    Unread(Seq<Seq<char>>),
    Status { code: u16, body: Seq<char>, causes: Seq<Seq<char>> },
    Failed(Seq<Seq<char>>),
}

impl View for Reply {
    type V = ReplyView;

    open spec fn view(&self) -> ReplyView {
        match *self {
            Reply::Text(text) => ReplyView::Text(text@),
            Reply::Unread(causes) => ReplyView::Unread(crate::text::texts(causes@)),
            Reply::Status { code, body, causes } => ReplyView::Status {
                code,
                body: body@,
                causes: crate::text::texts(causes@),
            },
            Reply::Failed(causes) => ReplyView::Failed(crate::text::texts(causes@)),
        }
    }
}

/// What came back for a login.
#[derive(Debug, PartialEq)]
pub enum LoginReply {
    /// A response, of whatever status, and its `set-cookie` header.
    Answer(Option<String>),
    /// No response, and why.
    Failed(Vec<String>),
}

// ---- errors ---------------------------------------------------------------

/// Why an operation failed.
#[derive(Debug, PartialEq)]
pub enum ClientError {
    /// The login got no response.
    LoginFailed(Vec<String>),
    /// The login response has no cookie.
    NoCookie,
    /// The login response has an empty cookie.
    EmptyCookie,
    /// The Web UI homepage could not be fetched.
    HomeFailed(Vec<String>),
    /// The Web UI homepage could not be read.
    HomeUnread(Vec<String>),
    /// The Web UI homepage holds no token.
    NoToken,
    /// The API answered with an error status.
    Api { code: u16, body: String },
    /// The request got no response.
    Failed { method: String, path: String, causes: Vec<String> },
    /// The response could not be read.
    Unread(Vec<String>),
    /// The response is not JSON.
    NotJson { method: String, path: String, text: String, cause: String },
    /// The device's time is missing from the answer, which is given as text.
    NoNow(String),
    /// The file has no direct link.
    NoLink(String),
    /// The sizes of the files add up to more than 64 bits hold.
    SizeOverflow,
}

pub enum ErrorView {
    LoginFailed(Seq<Seq<char>>),
    NoCookie,
    EmptyCookie,
    HomeFailed(Seq<Seq<char>>),
    HomeUnread(Seq<Seq<char>>),
    NoToken,
    Api { code: u16, body: Seq<char> },
    Failed { method: Seq<char>, path: Seq<char>, causes: Seq<Seq<char>> },
    Unread(Seq<Seq<char>>),
    NotJson { method: Seq<char>, path: Seq<char>, text: Seq<char>, cause: Seq<char> },
    NoNow(Seq<char>),
    NoLink(Seq<char>),
    SizeOverflow,
}

impl View for ClientError {
    type V = ErrorView;

    open spec fn view(&self) -> ErrorView {
        match *self {
            ClientError::LoginFailed(causes) => ErrorView::LoginFailed(
                crate::text::texts(causes@),
            ),
            ClientError::NoCookie => ErrorView::NoCookie,
            ClientError::EmptyCookie => ErrorView::EmptyCookie,
            ClientError::HomeFailed(causes) => ErrorView::HomeFailed(crate::text::texts(causes@)),
            ClientError::HomeUnread(causes) => ErrorView::HomeUnread(crate::text::texts(causes@)),
            ClientError::NoToken => ErrorView::NoToken,
            ClientError::Api { code, body } => ErrorView::Api { code, body: body@ },
            ClientError::Failed { method, path, causes } => ErrorView::Failed {
                method: method@,
                path: path@,
                causes: crate::text::texts(causes@),
            },
            ClientError::Unread(causes) => ErrorView::Unread(crate::text::texts(causes@)),
            ClientError::NotJson { method, path, text, cause } => ErrorView::NotJson {
                method: method@,
                path: path@,
                text: text@,
                cause: cause@,
            },
            ClientError::NoNow(answer) => ErrorView::NoNow(answer@),
            ClientError::NoLink(file) => ErrorView::NoLink(file@),
            ClientError::SizeOverflow => ErrorView::SizeOverflow,
        }
    }
}

/// What the body of an error answer hints at.
pub open spec fn api_hint(code: u16, body: Seq<char>) -> Seq<char> {
    if crate::text::holds_text(body, "SPACE_FOLDER_NOT_EXIST"@) || crate::text::holds_text(
        body,
        "WRONG_SPACE_TO_GET_FILE"@,
    ) {
        "\n  hint: the download space/folder is invalid — is the engine logged in and running?"@
    } else if crate::text::holds_text(body, "COPYRIGHT"@) {
        "\n  hint: this resource is blocked for copyright reasons (版权拦截)."@
    } else if crate::text::holds_text(body, "PARSE_TORRENT_FAILED"@) || crate::text::holds_text(
        body,
        "TORRENT_FAILED"@,
    ) {
        "\n  hint: failed to parse the torrent/magnet — the link may be dead or malformed."@
    } else if crate::text::holds_text(body, "VIP"@) || crate::text::holds_text(body, "vip"@) {
        "\n  hint: this may require a 迅雷 VIP account, or you hit the non-VIP daily task limit."@
    } else if code == 401 || code == 403 {
        "\n  hint: authentication rejected — pass --password if the panel has one set."@
    } else {
        ""@
    }
}

/// The message of an error answer: its status, its body and a hint.
pub open spec fn api_message(code: u16, body: Seq<char>) -> Seq<char> {
    "API error "@ + crate::number::decimal(code as int) + ": "@ + body + api_hint(code, body)
}

/// The message of an error answer: its status, its body and a hint.
pub fn map_api_error(code: u16, body: &str) -> (message: String)
    ensures
        message@ == api_message(code, body@),
{
    let hint = if contains_text(body, "SPACE_FOLDER_NOT_EXIST") || contains_text(
        body,
        "WRONG_SPACE_TO_GET_FILE",
    ) {
        "\n  hint: the download space/folder is invalid — is the engine logged in and running?"
    } else if contains_text(body, "COPYRIGHT") {
        "\n  hint: this resource is blocked for copyright reasons (版权拦截)."
    } else if contains_text(body, "PARSE_TORRENT_FAILED") || contains_text(body, "TORRENT_FAILED") {
        "\n  hint: failed to parse the torrent/magnet — the link may be dead or malformed."
    } else if contains_text(body, "VIP") || contains_text(body, "vip") {
        "\n  hint: this may require a 迅雷 VIP account, or you hit the non-VIP daily task limit."
    } else if code == 401 || code == 403 {
        "\n  hint: authentication rejected — pass --password if the panel has one set."
    } else {
        ""
    };
    let mut message = "API error ".to_string();
    message.append(unsigned_text(code as u64).as_str());
    message.append(": ");
    message.append(body);
    message.append(hint);
    message
}

/// What an error says.
pub open spec fn error_message(e: ErrorView) -> Seq<char> {
    match e {
        ErrorView::LoginFailed(_) => "login request failed"@,
        ErrorView::NoCookie => "login failed: no cookie returned (wrong password?)"@,
        ErrorView::EmptyCookie => "login failed: empty cookie"@,
        ErrorView::HomeFailed(_) => "fetch UI homepage for pan-auth token"@,
        ErrorView::HomeUnread(_) => "read UI homepage"@,
        ErrorView::NoToken =>
        "could not find pan-auth token in UI homepage (is the engine logged in?)"@,
        ErrorView::Api { code, body } => api_message(code, body),
        ErrorView::Failed { method, path, causes } => method + " "@ + path + " failed"@,
        ErrorView::Unread(_) => "read response body"@,
        ErrorView::NotJson { method, path, text, cause } => method + " "@ + path
            + ": response is not JSON: "@ + text,
        ErrorView::NoNow(answer) => "device/now: missing `now` field: "@ + answer,
        ErrorView::NoLink(file) => "no web_content_link for file "@ + file
            + " (not ready, or access restricted)"@,
        ErrorView::SizeOverflow => "the file sizes add up to more than 64 bits hold"@,
    }
}

/// What lies behind an error, one message behind the other.
pub open spec fn error_causes(e: ErrorView) -> Seq<Seq<char>> {
    match e {
        ErrorView::LoginFailed(causes) => causes,
        ErrorView::HomeFailed(causes) => causes,
        ErrorView::HomeUnread(causes) => causes,
        ErrorView::Failed { method, path, causes } => causes,
        ErrorView::Unread(causes) => causes,
        ErrorView::NotJson { method, path, text, cause } => seq![cause],
        _ => Seq::empty(),
    }
}

/// A copy of a list of texts.
fn copy_texts(list: &Vec<String>) -> (copy: Vec<String>)
    ensures
        crate::text::texts(copy@) == crate::text::texts(list@),
{
    let mut copy: Vec<String> = Vec::new();
    let n = list.len();
    let mut i: usize = 0;
    while i < n
        invariant
            n == list@.len(),
            i <= n,
            copy@.len() == i,
            forall|k: int| 0 <= k < i ==> (#[trigger] copy@[k])@ == list@[k]@,
        decreases n - i,
    {
        copy.push(list[i].clone());
        i = i + 1;
    }
    assert(crate::text::texts(copy@) =~= crate::text::texts(list@));
    copy
}

impl ClientError {
    /// What the error says.
    pub fn message(&self) -> (message: String)
        ensures
            message@ == error_message(self@),
    {
        match self {
            ClientError::LoginFailed(_) => "login request failed".to_string(),
            ClientError::NoCookie => {
                "login failed: no cookie returned (wrong password?)".to_string()
            },
            ClientError::EmptyCookie => "login failed: empty cookie".to_string(),
            ClientError::HomeFailed(_) => "fetch UI homepage for pan-auth token".to_string(),
            ClientError::HomeUnread(_) => "read UI homepage".to_string(),
            ClientError::NoToken => {
                "could not find pan-auth token in UI homepage (is the engine logged in?)".to_string()
            },
            ClientError::Api { code, body } => map_api_error(*code, body.as_str()),
            ClientError::Failed { method, path, .. } => {
                let mut message = method.clone();
                message.append(" ");
                message.append(path.as_str());
                message.append(" failed");
                message
            },
            ClientError::Unread(_) => "read response body".to_string(),
            ClientError::NotJson { method, path, text, .. } => {
                let mut message = method.clone();
                message.append(" ");
                message.append(path.as_str());
                message.append(": response is not JSON: ");
                message.append(text.as_str());
                message
            },
            ClientError::NoNow(answer) => {
                let mut message = "device/now: missing `now` field: ".to_string();
                message.append(answer.as_str());
                message
            },
            ClientError::NoLink(file) => {
                let mut message = "no web_content_link for file ".to_string();
                message.append(file.as_str());
                message.append(" (not ready, or access restricted)");
                message
            },
            ClientError::SizeOverflow => {
                "the file sizes add up to more than 64 bits hold".to_string()
            },
        }
    }

    /// What lies behind the error, one message behind the other.
    pub fn causes(&self) -> (causes: Vec<String>)
        ensures
            crate::text::texts(causes@) == error_causes(self@),
    {
        match self {
            ClientError::LoginFailed(causes) => copy_texts(causes),
            ClientError::HomeFailed(causes) => copy_texts(causes),
            ClientError::HomeUnread(causes) => copy_texts(causes),
            ClientError::Failed { causes, .. } => copy_texts(causes),
            ClientError::Unread(causes) => copy_texts(causes),
            ClientError::NotJson { cause, .. } => {
                let mut causes: Vec<String> = Vec::new();
                causes.push(cause.clone());
                assert(crate::text::texts(causes@) =~= seq![cause@]);
                causes
            },
            _ => {
                let causes: Vec<String> = Vec::new();
                assert(crate::text::texts(causes@) =~= Seq::<Seq<char>>::empty());
                causes
            },
        }
    }
}

/// The message of an error answer begins with its status and its whole body.
pub proof fn law_api_message_shows_the_answer(code: u16, body: Seq<char>)
    ensures
        ("API error "@ + crate::number::decimal(code as int) + ": "@ + body).is_prefix_of(
            api_message(code, body),
        ),
{
    let front = "API error "@ + crate::number::decimal(code as int) + ": "@ + body;
    assert(api_message(code, body) =~= front + api_hint(code, body));
    assert((front + api_hint(code, body)).subrange(0, front.len() as int) =~= front);
}

/// An error answer gets the hint of the first of the markers that its body holds; only
/// without any of them does the status count.
pub proof fn law_hints_go_by_the_answer(code: u16, body: Seq<char>)
    ensures
        ({
            let space = crate::text::holds_text(body, "SPACE_FOLDER_NOT_EXIST"@)
                || crate::text::holds_text(body, "WRONG_SPACE_TO_GET_FILE"@);
            let copyright = crate::text::holds_text(body, "COPYRIGHT"@);
            let torrent = crate::text::holds_text(body, "PARSE_TORRENT_FAILED"@)
                || crate::text::holds_text(body, "TORRENT_FAILED"@);
            let vip = crate::text::holds_text(body, "VIP"@) || crate::text::holds_text(
                body,
                "vip"@,
            );
            let front = "API error "@ + crate::number::decimal(code as int) + ": "@ + body;
            let hinted = |hint: Seq<char>| api_message(code, body) == front + hint;
            &&& space ==> hinted(
                "\n  hint: the download space/folder is invalid — is the engine logged in and running?"@,
            )
            &&& !space && copyright ==> hinted(
                "\n  hint: this resource is blocked for copyright reasons (版权拦截)."@,
            )
            &&& !space && !copyright && torrent ==> hinted(
                "\n  hint: failed to parse the torrent/magnet — the link may be dead or malformed."@,
            )
            &&& !space && !copyright && !torrent && vip ==> hinted(
                "\n  hint: this may require a 迅雷 VIP account, or you hit the non-VIP daily task limit."@,
            )
            &&& !space && !copyright && !torrent && !vip && (code == 401 || code == 403) ==> hinted(
                "\n  hint: authentication rejected — pass --password if the panel has one set."@,
            )
            &&& !space && !copyright && !torrent && !vip && code != 401 && code != 403 ==> hinted(
                ""@,
            )
        }),
{
}

/// The message of an error tells what it is about, and the causes are those that came
/// with it.
pub proof fn law_errors_tell_what_they_are_about(
    method: Seq<char>,
    path: Seq<char>,
    text: Seq<char>,
    cause: Seq<char>,
    causes: Seq<Seq<char>>,
)
    ensures
        error_message(ErrorView::Failed { method, path, causes }) == method + " "@ + path
            + " failed"@,
        error_causes(ErrorView::Failed { method, path, causes }) == causes,
        error_message(ErrorView::NotJson { method, path, text, cause }) == method + " "@ + path
            + ": response is not JSON: "@ + text,
        error_causes(ErrorView::NotJson { method, path, text, cause }) == seq![cause],
        error_causes(ErrorView::LoginFailed(causes)) == causes,
        error_causes(ErrorView::HomeFailed(causes)) == causes,
        error_causes(ErrorView::HomeUnread(causes)) == causes,
        error_causes(ErrorView::Unread(causes)) == causes,
        error_message(ErrorView::NoLink(text)) == "no web_content_link for file "@ + text
            + " (not ready, or access restricted)"@,
        error_message(ErrorView::NoNow(text)) == "device/now: missing `now` field: "@ + text,
{
}

} // verus!
