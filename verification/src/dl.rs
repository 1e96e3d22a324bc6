//! `thunder dl` — command-line download client.
//!
//! [`run`] works a command off in turns: each [`Turn`] says what to print and what to
//! do next, and the answer to that gives the next turn.

use vstd::prelude::*;

use crate::api::{ApiCall, ApiCallView, ClientError, ErrorView, Reply};
use crate::client::{response, ThunderClient};
use crate::drive::resolved_of;
use crate::json::{compact, parse_json, pretty, Json, JsonView};
use crate::model::{read_task_id, read_tasks, Resolved, ResolvedView};
use crate::number::{parse_error, unsigned_text};
use crate::output::{one, print_lines, Output, OutputView};
use crate::pick::{choose_files, parse_pick, Selection};
use crate::show::{can_cut_ids, resolved_json_text, resolved_table, task_table, tasks_json_text};
use crate::source::{passes_through, source_to_url};
use crate::text::to_uppercase;

verus! {

// ---- commands -------------------------------------------------------------

#[derive(Debug, Clone, PartialEq)]
pub struct DlConfig {
    /// Thunder server address
    pub host: String,
    /// Panel password (only if the server was started with --auth-password)
    pub password: Option<String>,
    /// Output raw JSON instead of formatted tables
    pub json: bool,
    pub command: DlCommand,
}

#[derive(Debug, Clone, PartialEq)]
pub enum DlCommand {
    /// Add a download from a magnet link, http(s) URL, or .torrent file
    Add(AddArgs),
    /// Resolve a link and print its file list without downloading
    Resolve { url: String },
    /// List download tasks
    List(ListArgs),
    /// Pause one or more tasks
    Pause { ids: Vec<String> },
    /// Resume one or more tasks
    Resume { ids: Vec<String> },
    /// Remove one or more tasks
    Rm(RmArgs),
    /// Escape hatch: send a raw request to any API path and print the response
    Raw(RawArgs),
}

#[derive(Debug, Clone, PartialEq)]
pub struct AddArgs {
    /// Magnet link, http(s) URL, or path to a .torrent file
    pub source: String,
    /// Task/folder name (defaults to the resolved name)
    pub name: Option<String>,
    /// Target cloud folder id ("" = default root)
    pub parent_folder_id: String,
    /// Download all files without prompting
    pub all: bool,
    /// Comma-separated file indices to download (e.g. 0,2,5)
    pub pick: Vec<i64>,
}

#[derive(Debug, Clone, PartialEq)]
pub struct ListArgs {
    /// Only show active (pending/running) tasks
    pub active: bool,
    /// Max tasks to fetch
    pub limit: u32,
}

#[derive(Debug, Clone, PartialEq)]
pub struct RmArgs {
    pub ids: Vec<String>,
    /// Also delete the downloaded files from disk
    pub delete_files: bool,
}

#[derive(Debug, Clone, PartialEq)]
pub struct RawArgs {
    /// HTTP method (GET, POST, PATCH, DELETE)
    pub method: String,
    /// API path relative to the CGI prefix, e.g. drive/v1/tasks?space=user%23download
    pub path: String,
    /// JSON request body
    pub body: Option<String>,
}

// ---- errors ---------------------------------------------------------------

/// Why a command failed.
#[derive(Debug, PartialEq)]
pub enum DlError {
    /// No client could be made.
    Connecting(ClientError),
    /// The link of a new task could not be resolved.
    Resolving(ClientError),
    /// The task could not be created.
    Creating(ClientError),
    /// A request failed.
    Client(ClientError),
    /// The source is a .torrent file.
    TorrentFile,
    /// The source is nothing that can be downloaded.
    UnknownSource(String),
    /// No task ids were given.
    NoIds,
    /// The body of a raw request is not JSON, and why.
    BadBody(String),
    /// What should be an index is none.
    BadIndex(String),
    /// The selection could not be read, and why.
    NoInput(String),
    /// The id of a task cannot be cut for the table.
    UncutId,
}

pub enum DlErrorView {
    Connecting(ErrorView),
    Resolving(ErrorView),
    Creating(ErrorView),
    Client(ErrorView),
    TorrentFile,
    UnknownSource(Seq<char>),
    NoIds,
    BadBody(Seq<char>),
    BadIndex(Seq<char>),
    NoInput(Seq<char>),
    UncutId,
}

impl View for DlError {
    type V = DlErrorView;

    open spec fn view(&self) -> DlErrorView {
        match *self {
            DlError::Connecting(e) => DlErrorView::Connecting(e@),
            DlError::Resolving(e) => DlErrorView::Resolving(e@),
            DlError::Creating(e) => DlErrorView::Creating(e@),
            DlError::Client(e) => DlErrorView::Client(e@),
            DlError::TorrentFile => DlErrorView::TorrentFile,
            DlError::UnknownSource(source) => DlErrorView::UnknownSource(source@),
            DlError::NoIds => DlErrorView::NoIds,
            DlError::BadBody(cause) => DlErrorView::BadBody(cause@),
            DlError::BadIndex(part) => DlErrorView::BadIndex(part@),
            DlError::NoInput(cause) => DlErrorView::NoInput(cause@),
            DlError::UncutId => DlErrorView::UncutId,
        }
    }
}

/// What an error says, from the outermost message to what lies behind it.
pub open spec fn client_chain(e: ErrorView) -> Seq<Seq<char>> {
    seq![crate::api::error_message(e)] + crate::api::error_causes(e)
}

/// What an error says, from the outermost message to what lies behind it.
pub open spec fn error_chain(e: DlErrorView) -> Seq<Seq<char>> {
    match e {
        DlErrorView::Connecting(e) => seq!["failed to create client"@] + client_chain(e),
        DlErrorView::Resolving(e) => seq!["failed to resolve link"@] + client_chain(e),
        DlErrorView::Creating(e) => seq!["failed to create task"@] + client_chain(e),
        DlErrorView::Client(e) => client_chain(e),
        DlErrorView::TorrentFile => seq![
            "uploading .torrent files is not yet wired up (needs a confirmed upload route).\nWorkaround: use the magnet link instead, or drop the .torrent into the panel once to confirm the route."@,
        ],
        DlErrorView::UnknownSource(source) => seq![
            "unrecognized source: "@ + source
                + " (expected magnet:, http(s)://, or a .torrent path)"@,
        ],
        DlErrorView::NoIds => seq!["no task ids given"@],
        DlErrorView::BadBody(cause) => seq!["--body is not valid JSON"@, cause],
        DlErrorView::BadIndex(part) => seq!["invalid index: "@ + part] + match crate::number::parse_problem(
            part,
            i64::MIN as int,
            i64::MAX as int,
        ) {
            Some(problem) => seq![problem],
            None => Seq::empty(),
        },
        DlErrorView::NoInput(cause) => seq![cause],
        DlErrorView::UncutId => seq!["a task id cannot be cut within a character"@],
    }
}

fn chain_of(context: Option<&str>, e: &ClientError) -> (chain: Vec<String>)
    ensures
        crate::text::texts(chain@) == (match context {
            Some(c) => seq![c@] + client_chain(e@),
            None => client_chain(e@),
        }),
{
    let mut chain: Vec<String> = Vec::new();
    if let Some(c) = context {
        chain.push(c.to_string());
    }
    chain.push(e.message());
    let ghost front = chain@;
    let mut causes = e.causes();
    let ghost all = causes@;
    chain.append(&mut causes);
    proof {
        assert(chain@ =~= front + all);
        let goal = match context {
            Some(c) => seq![c@] + client_chain(e@),
            None => client_chain(e@),
        };
        assert(crate::text::texts(chain@) =~= goal);
    }
    chain
}

fn lone(text: String) -> (chain: Vec<String>)
    ensures
        crate::text::texts(chain@) == seq![text@],
{
    let mut chain: Vec<String> = Vec::new();
    chain.push(text);
    assert(crate::text::texts(chain@) =~= seq![text@]);
    chain
}

impl DlError {
    /// What the error says, from the outermost message to what lies behind it.
    pub fn chain(&self) -> (chain: Vec<String>)
        ensures
            crate::text::texts(chain@) == error_chain(self@),
    {
        match self {
            DlError::Connecting(e) => chain_of(Some("failed to create client"), e),
            DlError::Resolving(e) => chain_of(Some("failed to resolve link"), e),
            DlError::Creating(e) => chain_of(Some("failed to create task"), e),
            DlError::Client(e) => chain_of(None, e),
            DlError::TorrentFile => lone(
                "uploading .torrent files is not yet wired up (needs a confirmed upload route).\nWorkaround: use the magnet link instead, or drop the .torrent into the panel once to confirm the route.".to_string(),
            ),
            DlError::UnknownSource(source) => {
                let mut text = "unrecognized source: ".to_string();
                text.append(source.as_str());
                text.append(" (expected magnet:, http(s)://, or a .torrent path)");
                lone(text)
            },
            DlError::NoIds => lone("no task ids given".to_string()),
            DlError::BadBody(cause) => {
                let mut chain = lone("--body is not valid JSON".to_string());
                let ghost before = chain@;
                chain.push(cause.clone());
                assert(crate::text::texts(chain@) =~= crate::text::texts(before).push(cause@));
                assert(crate::text::texts(chain@) =~= error_chain(self@));
                chain
            },
            DlError::BadIndex(part) => {
                let mut text = "invalid index: ".to_string();
                text.append(part.as_str());
                let mut chain = lone(text);
                let ghost before = chain@;
                if let Some(problem) = parse_error(part.as_str()) {
                    chain.push(problem);
                    assert(crate::text::texts(chain@) =~= crate::text::texts(before).push(
                        problem@,
                    ));
                }
                assert(crate::text::texts(chain@) =~= error_chain(self@));
                chain
            },
            DlError::NoInput(cause) => lone(cause.clone()),
            DlError::UncutId => lone("a task id cannot be cut within a character".to_string()),
        }
    }
}

// ---- turns ----------------------------------------------------------------

/// A command that waits for its client.
#[derive(Debug, PartialEq)]
pub struct Ready {
    pub json: bool,
    pub command: DlCommand,
}

/// A task that is about to be created, but for its files.
#[derive(Debug, PartialEq)]
pub struct NewTask {
    pub url: String,
    pub resolved: Resolved,
    pub name: Option<String>,
    pub parent_folder_id: String,
}

#[verifier::ext_equal]
pub struct NewTaskView {
    pub url: Seq<char>,
    pub resolved: ResolvedView,
    pub name: Option<Seq<char>>,
    pub parent_folder_id: Seq<char>,
}

impl View for NewTask {
    type V = NewTaskView;

    open spec fn view(&self) -> NewTaskView {
        NewTaskView {
            url: self.url@,
            resolved: self.resolved@,
            name: crate::api::opt_text(self.name),
            parent_folder_id: self.parent_folder_id@,
        }
    }
}

/// What the answer to a call is for.
#[derive(Debug, PartialEq)]
pub enum Purpose {
    /// To show what a link holds.
    Show { json: bool },
    /// To download what a link holds.
    Resolve {
        json: bool,
        url: String,
        name: Option<String>,
        parent_folder_id: String,
        all: bool,
        pick: Vec<i64>,
    },
    /// To create a task.
    Create,
    /// To list the tasks.
    List { json: bool },
    /// To pause or resume a task, and then the others.
    Toggle { pause: bool, id: String, rest: Vec<String> },
    /// To remove so many tasks.
    Remove { count: usize },
    /// To print the answer.
    Raw { json: bool },
}

#[verifier::ext_equal]
pub enum PurposeView {
    Show { json: bool },
    Resolve {
        json: bool,
        url: Seq<char>,
        name: Option<Seq<char>>,
        parent_folder_id: Seq<char>,
        all: bool,
        pick: Seq<i64>,
    },
    Create,
    List { json: bool },
    Toggle { pause: bool, id: Seq<char>, rest: Seq<Seq<char>> },
    Remove { count: nat },
    Raw { json: bool },
}

impl View for Purpose {
    type V = PurposeView;

    open spec fn view(&self) -> PurposeView {
        match *self {
            Purpose::Show { json } => PurposeView::Show { json },
            Purpose::Resolve { json, url, name, parent_folder_id, all, pick } => {
                PurposeView::Resolve {
                    json,
                    url: url@,
                    name: crate::api::opt_text(name),
                    parent_folder_id: parent_folder_id@,
                    all,
                    pick: pick@,
                }
            },
            Purpose::Create => PurposeView::Create,
            Purpose::List { json } => PurposeView::List { json },
            Purpose::Toggle { pause, id, rest } => PurposeView::Toggle {
                pause,
                id: id@,
                rest: crate::text::texts(rest@),
            },
            Purpose::Remove { count } => PurposeView::Remove { count: count as nat },
            Purpose::Raw { json } => PurposeView::Raw { json },
        }
    }
}

/// A call, and what its answer is for.
#[derive(Debug, PartialEq)]
pub struct Waiting {
    pub call: ApiCall,
    pub purpose: Purpose,
}

/// What a command does next.
#[derive(Debug, PartialEq)]
pub enum Next {
    /// Make a client for the server; then [`Ready::connected`].
    Connect { host: String, password: Option<String>, ready: Ready },
    /// Look whether the source exists as a path; then [`Ready::probed`].
    Probe { source: String, ready: Ready },
    /// Make the call; then [`Waiting::replied`].
    Call(Waiting),
    /// Look whether someone sits at a terminal; then [`NewTask::terminal`].
    AskTerminal(NewTask),
    /// Read a line; then [`NewTask::picked`].
    ReadLine(NewTask),
    /// Nothing: the command is done.
    Finish(Result<(), DlError>),
}

#[verifier::ext_equal]
pub enum NextView {
    Connect { host: Seq<char>, password: Option<Seq<char>>, ready: Ready },
    Probe { source: Seq<char>, ready: Ready },
    Call { call: ApiCallView, purpose: PurposeView },
    AskTerminal(NewTaskView),
    ReadLine(NewTaskView),
    Finish(Result<(), DlErrorView>),
}

impl View for Next {
    type V = NextView;

    open spec fn view(&self) -> NextView {
        match *self {
            Next::Connect { host, password, ready } => NextView::Connect {
                host: host@,
                password: crate::api::opt_text(password),
                ready,
            },
            Next::Probe { source, ready } => NextView::Probe { source: source@, ready },
            Next::Call(w) => NextView::Call { call: w.call@, purpose: w.purpose@ },
            Next::AskTerminal(task) => NextView::AskTerminal(task@),
            Next::ReadLine(task) => NextView::ReadLine(task@),
            Next::Finish(Ok(_)) => NextView::Finish(Ok(())),
            Next::Finish(Err(e)) => NextView::Finish(Err(e@)),
        }
    }
}

/// What a command prints, and what it does after that.
#[derive(Debug, PartialEq)]
pub struct Turn {
    pub output: Vec<Output>,
    pub next: Next,
}

#[verifier::ext_equal]
pub struct TurnView {
    pub output: Seq<OutputView>,
    pub next: NextView,
}

impl View for Turn {
    type V = TurnView;

    open spec fn view(&self) -> TurnView {
        TurnView { output: crate::output::outputs_view(self.output@), next: self.next@ }
    }
}

/// Nothing is printed, and `next` is done.
pub open spec fn silent(next: NextView) -> TurnView {
    TurnView { output: Seq::empty(), next }
}

/// The command fails.
pub open spec fn failed(e: DlErrorView) -> TurnView {
    silent(NextView::Finish(Err(e)))
}

/// The command is done once `output` is printed.
pub open spec fn finished(output: Seq<OutputView>) -> TurnView {
    TurnView { output, next: NextView::Finish(Ok(())) }
}

fn quiet(next: Next) -> (turn: Turn)
    ensures
        turn@ == silent(next@),
{
    let turn = Turn { output: Vec::new(), next };
    assert(turn@.output =~= Seq::<OutputView>::empty());
    turn
}

fn fail(e: DlError) -> (turn: Turn)
    ensures
        turn@ == failed(e@),
{
    quiet(Next::Finish(Err(e)))
}

// ---- commands at work -----------------------------------------------------

/// The call that pauses or resumes a task.
pub open spec fn toggle_call(pause: bool, id: Seq<char>) -> ApiCallView {
    crate::drive::operate_call(
        id,
        if pause {
            "{\"phase\":\"pause\"}"@
        } else {
            "{\"phase\":\"running\"}"@
        },
    )
}

/// Pauses or resumes the first of the tasks, once `output` is printed.
pub open spec fn toggle_first(output: Seq<OutputView>, pause: bool, ids: Seq<Seq<char>>) -> TurnView {
    if ids.len() == 0 {
        finished(output)
    } else {
        TurnView {
            output,
            next: NextView::Call {
                call: toggle_call(pause, ids[0]),
                purpose: PurposeView::Toggle { pause, id: ids[0], rest: ids.skip(1) },
            },
        }
    }
}

/// Pauses or resumes tasks, of which there must be one.
pub open spec fn toggle_all(pause: bool, ids: Seq<Seq<char>>) -> TurnView {
    if ids.len() == 0 {
        failed(DlErrorView::NoIds)
    } else {
        toggle_first(Seq::empty(), pause, ids)
    }
}

/// Removes tasks, of which there must be one.
pub open spec fn remove_all(ids: Seq<Seq<char>>, delete_files: bool) -> TurnView {
    if ids.len() == 0 {
        failed(DlErrorView::NoIds)
    } else {
        silent(
            NextView::Call {
                call: crate::drive::remove_call(ids, delete_files),
                purpose: PurposeView::Remove { count: ids.len() },
            },
        )
    }
}

/// Sends a raw request, where its body, if it has one, is JSON.
pub open spec fn raw_turn(
    json: bool,
    method: Seq<char>,
    path: Seq<char>,
    body: Option<Result<JsonView, Seq<char>>>,
) -> TurnView {
    match body {
        Some(Err(cause)) => failed(DlErrorView::BadBody(cause)),
        Some(Ok(v)) => silent(
            NextView::Call {
                call: crate::drive::token_call(
                    crate::text::uppercased(method),
                    path,
                    Some(crate::json::json_text(v)),
                ),
                purpose: PurposeView::Raw { json },
            },
        ),
        None => silent(
            NextView::Call {
                call: crate::drive::token_call(crate::text::uppercased(method), path, None),
                purpose: PurposeView::Raw { json },
            },
        ),
    }
}

/// Resolves a source for `purpose`, given whether it exists as a path.
pub open spec fn resolve_turn(source: Seq<char>, exists: bool, purpose: PurposeView) -> TurnView {
    match crate::source::source_result(source, exists) {
        Ok(url) => silent(NextView::Call { call: crate::drive::resolve_call(url), purpose }),
        Err(e) => failed(e),
    }
}

/// What the answer to the resolve call of a new task is for.
pub open spec fn add_purpose(json: bool, a: AddArgs) -> PurposeView {
    PurposeView::Resolve {
        json,
        url: a.source@,
        name: crate::api::opt_text(a.name),
        parent_folder_id: a.parent_folder_id@,
        all: a.all,
        pick: a.pick@,
    }
}

/// A command goes on with its client. What is no link is looked for as a path first.
pub open spec fn after_connect(ready: Ready) -> TurnView {
    match ready.command {
        DlCommand::Add(a) => if crate::source::is_link(a.source@) {
            resolve_turn(a.source@, false, add_purpose(ready.json, a))
        } else {
            silent(NextView::Probe { source: a.source@, ready })
        },
        DlCommand::Resolve { url } => if crate::source::is_link(url@) {
            resolve_turn(url@, false, PurposeView::Show { json: ready.json })
        } else {
            silent(NextView::Probe { source: url@, ready })
        },
        DlCommand::List(a) => silent(
            NextView::Call {
                call: crate::drive::list_call(a.active, a.limit),
                purpose: PurposeView::List { json: ready.json },
            },
        ),
        DlCommand::Pause { ids } => toggle_all(true, crate::text::texts(ids@)),
        DlCommand::Resume { ids } => toggle_all(false, crate::text::texts(ids@)),
        DlCommand::Rm(a) => remove_all(crate::text::texts(a.ids@), a.delete_files),
        DlCommand::Raw(a) => raw_turn(
            ready.json,
            a.method@,
            a.path@,
            match a.body {
                Some(b) => Some(crate::json::json_parsed(b@)),
                None => None,
            },
        ),
    }
}

/// A command goes on once its source was looked for as a path.
pub open spec fn after_probe(ready: Ready, exists: bool) -> TurnView {
    match ready.command {
        DlCommand::Add(a) => resolve_turn(a.source@, exists, add_purpose(ready.json, a)),
        DlCommand::Resolve { url } => resolve_turn(
            url@,
            exists,
            PurposeView::Show { json: ready.json },
        ),
        _ => after_connect(ready),
    }
}

/// Works a command off, in turns.
pub fn run(cfg: DlConfig) -> (turn: Turn)
    ensures
        turn@ == silent(
            NextView::Connect {
                host: cfg.host@,
                password: crate::api::opt_text(cfg.password),
                ready: (Ready { json: cfg.json, command: cfg.command }),
            },
        ),
{
    quiet(
        Next::Connect {
            host: cfg.host,
            password: cfg.password,
            ready: Ready { json: cfg.json, command: cfg.command },
        },
    )
}

impl Ready {
    /// Goes on once the client is made, or fails where none could be.
    pub fn connected(self, made: Result<(), ClientError>) -> (turn: Turn)
        ensures
            turn@ == (match made {
                Ok(_) => after_connect(self),
                Err(e) => failed(DlErrorView::Connecting(e@)),
            }),
    {
        if let Err(e) = made {
            return fail(DlError::Connecting(e));
        }
        match self.command {
            DlCommand::Add(a) => {
                if passes_through(a.source.as_str()) {
                    cmd_add(self.json, a, false)
                } else {
                    let source = a.source.clone();
                    quiet(
                        Next::Probe {
                            source,
                            ready: Ready { json: self.json, command: DlCommand::Add(a) },
                        },
                    )
                }
            },
            DlCommand::Resolve { url } => {
                if passes_through(url.as_str()) {
                    cmd_resolve(self.json, url.as_str(), false)
                } else {
                    let source = url.clone();
                    quiet(
                        Next::Probe {
                            source,
                            ready: Ready { json: self.json, command: DlCommand::Resolve { url } },
                        },
                    )
                }
            },
            DlCommand::List(a) => {
                let call = ThunderClient::list(a.active, a.limit);
                quiet(Next::Call(Waiting { call, purpose: Purpose::List { json: self.json } }))
            },
            DlCommand::Pause { ids } => cmd_state(ids, true),
            DlCommand::Resume { ids } => cmd_state(ids, false),
            DlCommand::Rm(a) => cmd_rm(&a.ids, a.delete_files),
            DlCommand::Raw(a) => cmd_raw(self.json, a),
        }
    }

    /// Goes on once the source was looked for as a path.
    pub fn probed(self, exists: bool) -> (turn: Turn)
        ensures
            turn@ == after_probe(self, exists),
    {
        match self.command {
            DlCommand::Add(a) => cmd_add(self.json, a, exists),
            DlCommand::Resolve { url } => cmd_resolve(self.json, url.as_str(), exists),
            command => (Ready { json: self.json, command }).connected(Ok(())),
        }
    }
}

fn cmd_add(json: bool, a: AddArgs, exists: bool) -> (turn: Turn)
    ensures
        turn@ == resolve_turn(a.source@, exists, add_purpose(json, a)),
{
    match source_to_url(a.source.as_str(), exists) {
        Ok(url) => {
            let call = ThunderClient::resolve(url.as_str());
            let purpose = Purpose::Resolve {
                json,
                url,
                name: a.name,
                parent_folder_id: a.parent_folder_id,
                all: a.all,
                pick: a.pick,
            };
            quiet(Next::Call(Waiting { call, purpose }))
        },
        Err(e) => fail(e),
    }
}

fn cmd_resolve(json: bool, source: &str, exists: bool) -> (turn: Turn)
    ensures
        turn@ == resolve_turn(source@, exists, PurposeView::Show { json }),
{
    match source_to_url(source, exists) {
        Ok(url) => {
            let call = ThunderClient::resolve(url.as_str());
            quiet(Next::Call(Waiting { call, purpose: Purpose::Show { json } }))
        },
        Err(e) => fail(e),
    }
}

fn cmd_state(ids: Vec<String>, pause: bool) -> (turn: Turn)
    ensures
        turn@ == toggle_all(pause, crate::text::texts(ids@)),
{
    if ids.len() == 0 {
        return fail(DlError::NoIds);
    }
    let turn = toggle_next(Vec::new(), pause, ids);
    assert(crate::output::outputs_view(Seq::<Output>::empty()) =~= Seq::<OutputView>::empty());
    turn
}

fn toggle_next(output: Vec<Output>, pause: bool, ids: Vec<String>) -> (turn: Turn)
    ensures
        turn@ == toggle_first(crate::output::outputs_view(output@), pause, crate::text::texts(ids@)),
{
    let mut rest = ids;
    if rest.len() == 0 {
        return Turn { output, next: Next::Finish(Ok(())) };
    }
    let id = rest.remove(0);
    assert(crate::text::texts(rest@) =~= crate::text::texts(ids@).skip(1));
    let call = if pause {
        ThunderClient::pause(id.as_str())
    } else {
        ThunderClient::resume(id.as_str())
    };
    Turn {
        output,
        next: Next::Call(Waiting { call, purpose: Purpose::Toggle { pause, id, rest } }),
    }
}

fn cmd_rm(ids: &Vec<String>, delete_files: bool) -> (turn: Turn)
    ensures
        turn@ == remove_all(crate::text::texts(ids@), delete_files),
{
    match ThunderClient::remove(ids, delete_files) {
        None => fail(DlError::NoIds),
        Some(call) => quiet(
            Next::Call(Waiting { call, purpose: Purpose::Remove { count: ids.len() } }),
        ),
    }
}

fn cmd_raw(json: bool, a: RawArgs) -> (turn: Turn)
    ensures
        turn@ == raw_turn(
            json,
            a.method@,
            a.path@,
            match a.body {
                Some(b) => Some(crate::json::json_parsed(b@)),
                None => None,
            },
        ),
{
    let body = match &a.body {
        Some(b) => Some(parse_json(b.as_str())),
        None => None,
    };
    raw_request(json, a.method.as_str(), a.path.as_str(), body)
}

/// Sends a raw request, where `body` is what its body was read as, if it has one.
pub fn raw_request(
    json: bool,
    method: &str,
    path: &str,
    body: Option<Result<Json, String>>,
) -> (turn: Turn)
    ensures
        turn@ == raw_turn(
            json,
            method@,
            path@,
            match body {
                Some(r) => Some(crate::json::result_view(r)),
                None => None,
            },
        ),
{
    let body = match body {
        Some(Err(cause)) => return fail(DlError::BadBody(cause)),
        Some(Ok(v)) => Some(v),
        None => None,
    };
    let call = ThunderClient::request(to_uppercase(method).as_str(), path, body);
    quiet(Next::Call(Waiting { call, purpose: Purpose::Raw { json } }))
}

// ---- answers --------------------------------------------------------------

/// What is printed of a resolved link.
pub open spec fn shown(json: bool, r: ResolvedView) -> Seq<OutputView> {
    if json {
        seq![OutputView::Line(crate::json::json_pretty(crate::show::resolved_json(r)))]
    } else {
        crate::output::printed(crate::show::resolved_lines(r))
    }
}

/// Creates a task for the files that were chosen, once `output` is printed.
pub open spec fn creation(
    output: Seq<OutputView>,
    task: NewTaskView,
    indices: Seq<i64>,
) -> TurnView {
    if crate::drive::selection_fits(task.resolved, indices) {
        TurnView {
            output,
            next: NextView::Call {
                call: crate::drive::add_call(
                    task.url,
                    task.resolved,
                    task.name,
                    task.parent_folder_id,
                    indices,
                ),
                purpose: PurposeView::Create,
            },
        }
    } else {
        TurnView {
            output,
            next: NextView::Finish(Err(DlErrorView::Creating(ErrorView::SizeOverflow))),
        }
    }
}

/// What a link holds, or why that is not known.
pub open spec fn resolution(answer: Result<JsonView, ErrorView>) -> Result<
    ResolvedView,
    ErrorView,
> {
    match answer {
        Ok(v) => crate::drive::resolved_result(v),
        Err(e) => Err(e),
    }
}

/// A link was resolved for a new task: it is shown, and the task created or, where it
/// is not settled which files it is to have, the terminal asked.
pub open spec fn resolved_turn(
    json: bool,
    task: NewTaskView,
    all: bool,
    pick: Seq<i64>,
) -> TurnView {
    let output = shown(json, task.resolved);
    if all || task.resolved.files.len() <= 1 {
        creation(output, task, Seq::empty())
    } else if pick.len() > 0 {
        creation(output, task, pick)
    } else {
        TurnView { output, next: NextView::AskTerminal(task) }
    }
}

/// What is printed of a list of tasks.
pub open spec fn listed(json: bool, tasks: Seq<crate::model::TaskView>) -> TurnView {
    if json {
        finished(seq![OutputView::Line(crate::json::json_pretty(crate::show::tasks_json(tasks)))])
    } else if crate::show::ids_cut(tasks) {
        finished(crate::output::printed(crate::show::list_lines(tasks)))
    } else {
        failed(DlErrorView::UncutId)
    }
}

/// What is printed once a task was paused or resumed, or could not be.
pub open spec fn toggled(
    pause: bool,
    id: Seq<char>,
    answer: Result<JsonView, ErrorView>,
) -> OutputView {
    match answer {
        Ok(_) => OutputView::Line(
            if pause {
                "paused: "@ + id
            } else {
                "resumed: "@ + id
            },
        ),
        Err(e) => OutputView::ErrLine(
            "failed on "@ + id + ": "@ + crate::api::error_message(e),
        ),
    }
}

/// What is printed once a task was created.
pub open spec fn created_line(id: Seq<char>) -> Seq<char> {
    if id.len() == 0 {
        "Task created."@
    } else {
        "Task created: "@ + id
    }
}

/// A command goes on with the answer to its call, or with why there is none.
pub open spec fn after_answer(
    purpose: PurposeView,
    answer: Result<JsonView, ErrorView>,
) -> TurnView {
    match purpose {
        PurposeView::Show { json } => match resolution(answer) {
            Ok(r) => finished(shown(json, r)),
            Err(e) => failed(DlErrorView::Client(e)),
        },
        PurposeView::Resolve { json, url, name, parent_folder_id, all, pick } => match resolution(
            answer,
        ) {
            Ok(resolved) => resolved_turn(
                json,
                NewTaskView { url, resolved, name, parent_folder_id },
                all,
                pick,
            ),
            Err(e) => failed(DlErrorView::Resolving(e)),
        },
        PurposeView::Create => match answer {
            Ok(v) => finished(
                seq![OutputView::Line(created_line(crate::model::task_id_in(v)))],
            ),
            Err(e) => failed(DlErrorView::Creating(e)),
        },
        PurposeView::List { json } => match answer {
            Ok(v) => listed(json, crate::model::tasks_in(v)),
            Err(e) => failed(DlErrorView::Client(e)),
        },
        PurposeView::Toggle { pause, id, rest } => toggle_first(
            seq![toggled(pause, id, answer)],
            pause,
            rest,
        ),
        PurposeView::Remove { count } => match answer {
            Ok(_) => finished(
                seq![
                    OutputView::Line(
                        "Removed "@ + crate::number::decimal(count as int) + " task(s)."@,
                    ),
                ],
            ),
            Err(e) => failed(DlErrorView::Client(e)),
        },
        PurposeView::Raw { json } => match answer {
            Ok(v) => finished(
                seq![
                    OutputView::Line(
                        if json {
                            crate::json::json_text(v)
                        } else {
                            crate::json::json_pretty(v)
                        },
                    ),
                ],
            ),
            Err(e) => failed(DlErrorView::Client(e)),
        },
    }
}

pub open spec fn answer_view(answer: Result<Json, ClientError>) -> Result<JsonView, ErrorView> {
    match answer {
        Ok(v) => Ok(v@),
        Err(e) => Err(e@),
    }
}

/// What came of a call: the reply to it says, where it could be made at all.
pub open spec fn outcome(call: ApiCallView, came: Result<Reply, ClientError>) -> Result<
    JsonView,
    ErrorView,
> {
    match came {
        Ok(reply) => crate::client::response_in(call, reply@),
        Err(e) => Err(e@),
    }
}

impl Waiting {
    /// Goes on with the reply to the call, or with why it could not be made.
    pub fn replied(self, came: Result<Reply, ClientError>) -> (turn: Turn)
        ensures
            turn@ == after_answer(self.purpose@, outcome(self.call@, came)),
    {
        let answer = match came {
            Ok(reply) => response(&self.call, reply),
            Err(e) => Err(e),
        };
        self.purpose.answered(answer)
    }
}

fn print_resolved(json: bool, r: &Resolved) -> (output: Vec<Output>)
    ensures
        crate::output::outputs_view(output@) == shown(json, r@),
{
    if json {
        one(Output::Line(resolved_json_text(r)))
    } else {
        print_lines(resolved_table(r))
    }
}

fn done(output: Vec<Output>) -> (turn: Turn)
    ensures
        turn@ == finished(crate::output::outputs_view(output@)),
{
    Turn { output, next: Next::Finish(Ok(())) }
}

fn resolved_answer(answer: Result<Json, ClientError>) -> (r: Result<Resolved, ClientError>)
    ensures
        match (r, resolution(answer_view(answer))) {
            (Ok(x), Ok(y)) => x@ == y,
            (Err(e), Err(w)) => e@ == w,
            _ => false,
        },
{
    match answer {
        Ok(v) => resolved_of(&v),
        Err(e) => Err(e),
    }
}

impl Purpose {
    /// Goes on with the answer to the call, or with why there is none.
    pub fn answered(self, answer: Result<Json, ClientError>) -> (turn: Turn)
        ensures
            turn@ == after_answer(self@, answer_view(answer)),
    {
        match self {
            Purpose::Show { json } => match resolved_answer(answer) {
                Ok(r) => done(print_resolved(json, &r)),
                Err(e) => fail(DlError::Client(e)),
            },
            Purpose::Resolve { json, url, name, parent_folder_id, all, pick } => {
                match resolved_answer(answer) {
                    Ok(resolved) => {
                        let output = print_resolved(json, &resolved);
                        let files = resolved.files.len();
                        let task = NewTask { url, resolved, name, parent_folder_id };
                        match choose_files(all, pick, files) {
                            Selection::Indices(indices) => {
                                assert(indices@.len() == 0 ==> indices@ =~= Seq::<i64>::empty());
                                task.create(output, &indices)
                            },
                            Selection::Ask => Turn { output, next: Next::AskTerminal(task) },
                        }
                    },
                    Err(e) => fail(DlError::Resolving(e)),
                }
            },
            Purpose::Create => match answer {
                Ok(v) => {
                    let id = read_task_id(&v);
                    if id.as_str().is_empty() {
                        done(one(Output::Line("Task created.".to_string())))
                    } else {
                        let mut line = "Task created: ".to_string();
                        line.append(id.as_str());
                        done(one(Output::Line(line)))
                    }
                },
                Err(e) => fail(DlError::Creating(e)),
            },
            Purpose::List { json } => match answer {
                Ok(v) => print_tasks(json, &v),
                Err(e) => fail(DlError::Client(e)),
            },
            Purpose::Toggle { pause, id, rest } => {
                let o = match answer {
                    Ok(_) => {
                        let mut line = if pause {
                            "paused: ".to_string()
                        } else {
                            "resumed: ".to_string()
                        };
                        line.append(id.as_str());
                        Output::Line(line)
                    },
                    Err(e) => {
                        let mut line = "failed on ".to_string();
                        line.append(id.as_str());
                        line.append(": ");
                        line.append(e.message().as_str());
                        Output::ErrLine(line)
                    },
                };
                toggle_next(one(o), pause, rest)
            },
            Purpose::Remove { count } => match answer {
                Ok(_) => {
                    let mut line = "Removed ".to_string();
                    line.append(unsigned_text(count as u64).as_str());
                    line.append(" task(s).");
                    done(one(Output::Line(line)))
                },
                Err(e) => fail(DlError::Client(e)),
            },
            Purpose::Raw { json } => match answer {
                Ok(v) => {
                    let text = if json {
                        compact(v)
                    } else {
                        pretty(v)
                    };
                    done(one(Output::Line(text)))
                },
                Err(e) => fail(DlError::Client(e)),
            },
        }
    }
}

fn print_tasks(json: bool, v: &Json) -> (turn: Turn)
    ensures
        turn@ == listed(json, crate::model::tasks_in(v@)),
{
    let tasks = read_tasks(v);
    if json {
        done(one(Output::Line(tasks_json_text(&tasks))))
    } else if can_cut_ids(&tasks) {
        done(print_lines(task_table(&tasks)))
    } else {
        fail(DlError::UncutId)
    }
}

// ---- choosing files -------------------------------------------------------

/// The prompt for the files to download.
pub open spec fn prompt(files: nat) -> Seq<char> {
    "Select files to download [Enter=all "@ + crate::number::decimal(files as int)
        + " file(s), e.g. 0,2,5]: "@
}

/// Whoever sits at the terminal is asked; where nobody does, all files are
/// downloaded.
pub open spec fn after_terminal(task: NewTaskView, is_terminal: bool) -> TurnView {
    if is_terminal {
        TurnView {
            output: seq![OutputView::Prompt(prompt(task.resolved.files.len()))],
            next: NextView::ReadLine(task),
        }
    } else {
        creation(
            seq![
                OutputView::ErrLine("(no --pick/--all and not a TTY: downloading all files)"@),
            ],
            task,
            Seq::empty(),
        )
    }
}

/// The files that a line names are downloaded; `indices` are what it was read as.
pub open spec fn chosen_turn(task: NewTaskView, indices: Result<Seq<i64>, Seq<char>>) -> TurnView {
    match indices {
        Ok(indices) => creation(Seq::empty(), task, indices),
        Err(part) => failed(DlErrorView::BadIndex(part)),
    }
}

/// The indices that a line names, as 64-bit numbers.
pub open spec fn picked_indices(line: Seq<char>) -> Result<Seq<i64>, Seq<char>> {
    match crate::pick::picked_in(line) {
        Ok(numbers) => Ok(numbers.map_values(|n: int| n as i64)),
        Err(part) => Err(part),
    }
}

impl NewTask {
    /// Goes on once it is known whether someone sits at a terminal.
    pub fn terminal(self, is_terminal: bool) -> (turn: Turn)
        ensures
            turn@ == after_terminal(self@, is_terminal),
    {
        if is_terminal {
            let mut text = "Select files to download [Enter=all ".to_string();
            text.append(unsigned_text(self.resolved.files.len() as u64).as_str());
            text.append(" file(s), e.g. 0,2,5]: ");
            Turn { output: one(Output::Prompt(text)), next: Next::ReadLine(self) }
        } else {
            let none: Vec<i64> = Vec::new();
            assert(none@ =~= Seq::<i64>::empty());
            self.create(
                one(
                    Output::ErrLine(
                        "(no --pick/--all and not a TTY: downloading all files)".to_string(),
                    ),
                ),
                &none,
            )
        }
    }

    /// Goes on with the line that was read, or with why none was.
    pub fn picked(self, line: Result<String, String>) -> (turn: Turn)
        ensures
            turn@ == (match line {
                Ok(line) => chosen_turn(self@, picked_indices(line@)),
                Err(cause) => failed(DlErrorView::NoInput(cause@)),
            }),
    {
        match line {
            Ok(line) => match parse_pick(line.as_str()) {
                Ok(indices) => {
                    proof {
                        let numbers = crate::pick::as_ints(indices@);
                        assert(numbers.map_values(|n: int| n as i64) =~= indices@);
                    }
                    let output: Vec<Output> = Vec::new();
                    assert(crate::output::outputs_view(output@) =~= Seq::<OutputView>::empty());
                    self.create(output, &indices)
                },
                Err(part) => fail(DlError::BadIndex(part)),
            },
            Err(cause) => fail(DlError::NoInput(cause)),
        }
    }

    /// Creates the task for the files with these indices, once `output` is printed.
    fn create(self, output: Vec<Output>, indices: &Vec<i64>) -> (turn: Turn)
        ensures
            turn@ == creation(crate::output::outputs_view(output@), self@, indices@),
    {
        let name = match &self.name {
            Some(s) => Some(s.as_str()),
            None => None,
        };
        match ThunderClient::add(
            self.url.as_str(),
            &self.resolved,
            name,
            self.parent_folder_id.as_str(),
            indices,
        ) {
            Some(call) => Turn {
                output,
                next: Next::Call(Waiting { call, purpose: Purpose::Create }),
            },
            None => Turn {
                output,
                next: Next::Finish(Err(DlError::Creating(ClientError::SizeOverflow))),
            },
        }
    }
}

// ---- laws -----------------------------------------------------------------

/// What a command does from a turn on, where its calls are answered with `answers`,
/// one after the other: the calls that it makes, what it prints, and what it comes to
/// in the end.
pub open spec fn session(turn: TurnView, answers: Seq<Result<JsonView, ErrorView>>) -> (
    Seq<ApiCallView>,
    Seq<OutputView>,
    NextView,
)
    decreases answers.len(),
{
    match turn.next {
        NextView::Call { call, purpose } => if answers.len() > 0 {
            let rest = session(after_answer(purpose, answers[0]), answers.skip(1));
            (seq![call] + rest.0, turn.output + rest.1, rest.2)
        } else {
            (Seq::empty(), turn.output, turn.next)
        },
        _ => (Seq::empty(), turn.output, turn.next),
    }
}

/// What is printed for tasks that are paused or resumed, one after the other.
pub open spec fn toggles(
    pause: bool,
    ids: Seq<Seq<char>>,
    answers: Seq<Result<JsonView, ErrorView>>,
) -> Seq<OutputView> {
    Seq::new(ids.len(), |i: int| toggled(pause, ids[i], answers[i]))
}

proof fn lemma_toggle_session(
    output: Seq<OutputView>,
    pause: bool,
    ids: Seq<Seq<char>>,
    answers: Seq<Result<JsonView, ErrorView>>,
)
    requires
        answers.len() == ids.len(),
    ensures
        session(toggle_first(output, pause, ids), answers) == (
            ids.map_values(|id: Seq<char>| toggle_call(pause, id)),
            output + toggles(pause, ids, answers),
            NextView::Finish(Ok(())),
        ),
    decreases ids.len(),
{
    let calls = ids.map_values(|id: Seq<char>| toggle_call(pause, id));
    let lines = toggles(pause, ids, answers);
    if ids.len() == 0 {
        assert(calls =~= Seq::<ApiCallView>::empty());
        assert(output + lines =~= output);
    } else {
        let rest = ids.skip(1);
        let more = answers.skip(1);
        let line = seq![toggled(pause, ids[0], answers[0])];
        lemma_toggle_session(line, pause, rest, more);
        assert(calls =~= seq![toggle_call(pause, ids[0])] + rest.map_values(
            |id: Seq<char>| toggle_call(pause, id),
        ));
        assert(output + lines =~= output + (line + toggles(pause, rest, more)));
    }
}

/// Pausing or resuming tries every task, in order, and says of each what came of it:
/// one that fails stops neither the others nor the command.
pub proof fn law_every_task_is_tried(
    pause: bool,
    ids: Seq<Seq<char>>,
    answers: Seq<Result<JsonView, ErrorView>>,
)
    requires
        ids.len() > 0,
        answers.len() == ids.len(),
    ensures
        session(toggle_all(pause, ids), answers) == (
            ids.map_values(|id: Seq<char>| toggle_call(pause, id)),
            toggles(pause, ids, answers),
            NextView::Finish(Ok(())),
        ),
{
    lemma_toggle_session(Seq::empty(), pause, ids, answers);
    assert(Seq::<OutputView>::empty() + toggles(pause, ids, answers) =~= toggles(
        pause,
        ids,
        answers,
    ));
}

/// To resolve a link downloads nothing: its answer is shown, and no call follows.
pub proof fn law_resolving_downloads_nothing(json: bool, answer: Result<JsonView, ErrorView>)
    ensures
        after_answer(PurposeView::Show { json }, answer).next is Finish,
{
}

/// Without a task to pause, resume or remove, nothing is sent.
pub proof fn law_no_ids_no_call(pause: bool, delete_files: bool)
    ensures
        toggle_all(pause, Seq::empty()) == failed(DlErrorView::NoIds),
        remove_all(Seq::empty(), delete_files) == failed(DlErrorView::NoIds),
{
}

/// The files that a new task is given without asking: none, which means all, or the
/// ones that were picked.
pub open spec fn asked_for(a: AddArgs, files: nat) -> Seq<i64> {
    if a.all || files <= 1 {
        Seq::empty()
    } else {
        a.pick@
    }
}

/// What was resolved is what is downloaded: two calls are made, of which the second
/// names the link of the first and what the answer to it says, and takes all files
/// where that was asked for or there is only one, and otherwise those that were picked.
pub proof fn law_add_downloads_what_was_asked_for(
    json: bool,
    a: AddArgs,
    v: JsonView,
    created: Result<JsonView, ErrorView>,
)
    requires
        crate::source::is_link(a.source@),
        a.all || crate::model::files_in(v).len() <= 1 || a.pick@.len() > 0,
        crate::drive::resolved_result(v) is Ok,
        crate::drive::selection_fits(
            crate::model::resolved_in(v),
            asked_for(a, crate::model::files_in(v).len()),
        ),
    ensures
        session(
            after_connect(Ready { json, command: DlCommand::Add(a) }),
            seq![Ok(v), created],
        ).0 == seq![
            crate::drive::resolve_call(a.source@),
            crate::drive::add_call(
                a.source@,
                crate::model::resolved_in(v),
                crate::api::opt_text(a.name),
                a.parent_folder_id@,
                asked_for(a, crate::model::files_in(v).len()),
            ),
        ],
{
    let answers = seq![Ok(v), created];
    let indices = asked_for(a, crate::model::files_in(v).len());
    let first = after_connect(Ready { json, command: DlCommand::Add(a) });
    let second = after_answer(add_purpose(json, a), Ok(v));
    let third = after_answer(PurposeView::Create, created);
    let add = crate::drive::add_call(
        a.source@,
        crate::model::resolved_in(v),
        crate::api::opt_text(a.name),
        a.parent_folder_id@,
        indices,
    );
    assert(answers.skip(1) =~= seq![created]);
    assert(seq![created].skip(1) =~= Seq::<Result<JsonView, ErrorView>>::empty());
    assert(session(third, Seq::empty()).0 =~= Seq::<ApiCallView>::empty());
    assert(session(second, seq![created]).0 =~= seq![add]);
    assert(session(first, answers).0 =~= seq![crate::drive::resolve_call(a.source@)] + session(
        second,
        seq![created],
    ).0);
}

/// Typed at the prompt, a list of indices is what the task is created for, and the
/// request has it as it was typed.
pub proof fn law_typed_selection_is_downloaded(task: NewTaskView, indices: Seq<i64>)
    requires
        indices.len() > 0,
    ensures
        chosen_turn(task, picked_indices(crate::drive::index_list(indices))) == creation(
            Seq::empty(),
            task,
            indices,
        ),
{
    crate::pick::law_index_list_reads_back(indices);
    let numbers = crate::pick::as_ints(indices);
    assert(numbers.map_values(|n: int| n as i64) =~= indices);
}

// ---- whole commands -------------------------------------------------------

/// What a command can be told from outside.
#[verifier::ext_equal]
pub enum Event {
    /// What came of its call.
    Answer(Result<JsonView, ErrorView>),
    /// Whether its source exists as a path.
    Probed(bool),
    /// Whether someone sits at a terminal.
    Terminal(bool),
    /// The line that was typed, or why there is none.
    Line(Result<Seq<char>, Seq<char>>),
}

/// What a command does from a turn on, where it is told `events`, one after the other:
/// the calls that it makes, what it prints, and what it comes to.
pub open spec fn play(turn: TurnView, events: Seq<Event>) -> (
    Seq<ApiCallView>,
    Seq<OutputView>,
    NextView,
)
    decreases events.len(),
{
    let made = match turn.next {
        NextView::Call { call, purpose } => seq![call],
        _ => Seq::empty(),
    };
    if events.len() == 0 {
        (made, turn.output, turn.next)
    } else {
        match (turn.next, events[0]) {
            (NextView::Call { call, purpose }, Event::Answer(answer)) => {
                let rest = play(after_answer(purpose, answer), events.skip(1));
                (made + rest.0, turn.output + rest.1, rest.2)
            },
            (NextView::Probe { source, ready }, Event::Probed(exists)) => {
                let rest = play(after_probe(ready, exists), events.skip(1));
                (made + rest.0, turn.output + rest.1, rest.2)
            },
            (NextView::AskTerminal(task), Event::Terminal(is_terminal)) => {
                let rest = play(after_terminal(task, is_terminal), events.skip(1));
                (made + rest.0, turn.output + rest.1, rest.2)
            },
            (NextView::ReadLine(task), Event::Line(Ok(line))) => {
                let rest = play(chosen_turn(task, picked_indices(line)), events.skip(1));
                (made + rest.0, turn.output + rest.1, rest.2)
            },
            (NextView::ReadLine(task), Event::Line(Err(cause))) => {
                let rest = play(failed(DlErrorView::NoInput(cause)), events.skip(1));
                (made + rest.0, turn.output + rest.1, rest.2)
            },
            _ => (made, turn.output, turn.next),
        }
    }
}

proof fn lemma_play_ends(turn: TurnView, events: Seq<Event>)
    requires
        turn.next is Finish,
    ensures
        play(turn, events) == (Seq::<ApiCallView>::empty(), turn.output, turn.next),
{
}

/// From a turn that makes one last call on, no other is made.
proof fn lemma_play_last_call(turn: TurnView, events: Seq<Event>)
    requires
        turn.next matches NextView::Call { call, purpose } && !(purpose is Resolve)
            && !(purpose is Toggle),
    ensures
        play(turn, events).0 == seq![turn.next->Call_call],
        events.len() == 0 ==> play(turn, events).1 == turn.output && play(turn, events).2
            == turn.next,
        events.len() > 0 && !(events[0] is Answer) ==> play(turn, events).1 == turn.output && play(
            turn,
            events,
        ).2 == turn.next,
        events.len() > 0 && events[0] is Answer ==> play(turn, events).1 == turn.output
            + after_answer(turn.next->Call_purpose, events[0]->Answer_0).output && play(
            turn,
            events,
        ).2 == after_answer(turn.next->Call_purpose, events[0]->Answer_0).next,
{
    if events.len() > 0 {
        if let Event::Answer(answer) = events[0] {
            let then = after_answer(turn.next->Call_purpose, answer);
            assert(then.next is Finish);
            lemma_play_ends(then, events.skip(1));
            assert(seq![turn.next->Call_call] + Seq::<ApiCallView>::empty() =~= seq![
                turn.next->Call_call,
            ]);
        }
    }
}

/// The calls that a turn of [`creation`] makes.
proof fn lemma_creation_calls(
    output: Seq<OutputView>,
    task: NewTaskView,
    indices: Seq<i64>,
    events: Seq<Event>,
)
    ensures
        play(creation(output, task, indices), events).0
            == if crate::drive::selection_fits(task.resolved, indices) {
            seq![
                crate::drive::add_call(
                    task.url,
                    task.resolved,
                    task.name,
                    task.parent_folder_id,
                    indices,
                ),
            ]
        } else {
            Seq::empty()
        },
{
    let turn = creation(output, task, indices);
    if crate::drive::selection_fits(task.resolved, indices) {
        lemma_play_last_call(turn, events);
    } else {
        lemma_play_ends(turn, events);
    }
}

/// The calls that a task makes whose files are asked for at the terminal.
proof fn lemma_asking_calls(output: Seq<OutputView>, task: NewTaskView, events: Seq<Event>)
    ensures
        ({
            let calls = play(TurnView { output, next: NextView::AskTerminal(task) }, events).0;
            calls.len() == 0 || exists|indices: Seq<i64>|
                calls == seq![
                    #[trigger] crate::drive::add_call(
                        task.url,
                        task.resolved,
                        task.name,
                        task.parent_folder_id,
                        indices,
                    ),
                ]
        }),
        events.len() > 0 && events[0] == Event::Terminal(false) && crate::drive::selection_fits(
            task.resolved,
            Seq::empty(),
        ) ==> play(TurnView { output, next: NextView::AskTerminal(task) }, events).0 == seq![
            crate::drive::add_call(
                task.url,
                task.resolved,
                task.name,
                task.parent_folder_id,
                Seq::empty(),
            ),
        ],
        forall|line: Seq<char>, indices: Seq<i64>|
            events.len() > 1 && events[0] == Event::Terminal(true) && events[1]
                == #[trigger] typed(line) && crate::pick::picked_in(line) == #[trigger] read_as(
                indices,
            ) && crate::drive::selection_fits(task.resolved, indices) ==> play(
                TurnView { output, next: NextView::AskTerminal(task) },
                events,
            ).0 == seq![
                crate::drive::add_call(
                    task.url,
                    task.resolved,
                    task.name,
                    task.parent_folder_id,
                    indices,
                ),
            ],
{
    let turn = TurnView { output, next: NextView::AskTerminal(task) };
    let none = Seq::<ApiCallView>::empty();
    if events.len() > 0 {
        if let Event::Terminal(is_terminal) = events[0] {
            let then = after_terminal(task, is_terminal);
            let rest = events.skip(1);
            assert(play(turn, events).0 =~= play(then, rest).0);
            if is_terminal {
                if rest.len() > 0 {
                    assert(rest[0] == events[1]);
                    if let Event::Line(r) = rest[0] {
                        match r {
                            Ok(line) => {
                                let chosen = chosen_turn(task, picked_indices(line));
                                assert(play(then, rest).0 =~= play(chosen, rest.skip(1)).0);
                                match picked_indices(line) {
                                    Ok(indices) => {
                                        lemma_creation_calls(
                                            Seq::empty(),
                                            task,
                                            indices,
                                            rest.skip(1),
                                        );
                                    },
                                    Err(part) => {
                                        lemma_play_ends(chosen, rest.skip(1));
                                    },
                                }
                                assert forall|indices: Seq<i64>|
                                    crate::pick::picked_in(line) == #[trigger] read_as(
                                        indices,
                                    ) implies picked_indices(line) == Ok::<Seq<i64>, Seq<char>>(
                                    indices,
                                ) by {
                                    assert(crate::pick::as_ints(indices).map_values(
                                        |n: int| n as i64,
                                    ) =~= indices);
                                }
                            },
                            Err(cause) => {
                                lemma_play_ends(
                                    failed(DlErrorView::NoInput(cause)),
                                    rest.skip(1),
                                );
                                assert(play(then, rest).0 =~= none);
                            },
                        }
                    }
                }
            } else {
                lemma_creation_calls(then.output, task, Seq::empty(), rest);
            }
        }
    }
}

/// A line was typed.
pub open spec fn typed(line: Seq<char>) -> Event {
    Event::Line(Ok(line))
}

/// A line names these indices.
pub open spec fn read_as(indices: Seq<i64>) -> Result<Seq<int>, Seq<char>> {
    Ok(crate::pick::as_ints(indices))
}

/// Whether the files with these indices, none of which means all, are the ones that a
/// new task is to have: all where that was asked for, where there is only one file, or
/// where nobody can be asked; and else those that were picked on the command line or
/// typed at the prompt.
pub open spec fn chosen_files(
    a: AddArgs,
    files: nat,
    events: Seq<Event>,
    indices: Seq<i64>,
) -> bool {
    if a.all || files <= 1 {
        indices.len() == 0
    } else if a.pick@.len() > 0 {
        indices == a.pick@
    } else {
        ||| events.len() > 1 && events[1] == Event::Terminal(false) && indices.len() == 0
        ||| events.len() > 2 && events[1] == Event::Terminal(true) && exists|line: Seq<char>|
            events[2] == #[trigger] typed(line) && crate::pick::picked_in(line) == read_as(indices)
    }
}

/// A call creates the task that an add command asked for, with the files of these
/// indices: from the command's own source, under its own name and in its own folder.
pub open spec fn creates_as_asked(
    call: ApiCallView,
    a: AddArgs,
    v: JsonView,
    indices: Seq<i64>,
) -> bool {
    crate::drive::creates(
        call,
        a.source@,
        crate::drive::asked_name(crate::api::opt_text(a.name), crate::model::resolved_in(v).name),
        a.parent_folder_id@,
        crate::model::files_in(v).len(),
        indices,
        crate::drive::size_of_choice(
            crate::model::files_in(v),
            crate::model::size_sum(crate::model::files_in(v)),
            indices,
        ),
    )
}

proof fn lemma_created_as_asked(a: AddArgs, v: JsonView, indices: Seq<i64>)
    requires
        crate::drive::resolved_result(v) is Ok,
    ensures
        creates_as_asked(
            crate::drive::add_call(
                a.source@,
                crate::model::resolved_in(v),
                crate::api::opt_text(a.name),
                a.parent_folder_id@,
                indices,
            ),
            a,
            v,
            indices,
        ),
{
    crate::model::law_total_is_the_sum(v);
    crate::drive::law_missing_answers_are_told(v, Seq::empty(), Seq::empty());
    crate::drive::law_creating_asks_for_what_is_given(
        a.source@,
        crate::model::resolved_in(v),
        crate::api::opt_text(a.name),
        a.parent_folder_id@,
        indices,
    );
}

proof fn lemma_add_unfolds(json: bool, a: AddArgs, v: JsonView, events: Seq<Event>)
    requires
        crate::source::is_link(a.source@),
        crate::drive::resolved_result(v) is Ok,
        events.len() > 0,
        events[0] == Event::Answer(Ok(v)),
    ensures
        ({
            let start = after_connect(Ready { json, command: DlCommand::Add(a) });
            let task = NewTaskView {
                url: a.source@,
                resolved: crate::model::resolved_in(v),
                name: crate::api::opt_text(a.name),
                parent_folder_id: a.parent_folder_id@,
            };
            let then = resolved_turn(json, task, a.all, a.pick@);
            play(start, events).0 == seq![crate::drive::resolve_call(a.source@)] + play(
                then,
                events.skip(1),
            ).0
        }),
{
}

/// Whatever an add command is told once its link is resolved, however its files are
/// chosen, it makes at most one more call, and that creates the task under the command's
/// own name and in the command's own folder.
pub proof fn law_name_and_folder_are_kept(
    json: bool,
    a: AddArgs,
    v: JsonView,
    events: Seq<Event>,
)
    requires
        crate::source::is_link(a.source@),
        crate::drive::resolved_result(v) is Ok,
        events.len() > 0,
        events[0] == Event::Answer(Ok(v)),
    ensures
        ({
            let calls = play(
                after_connect(Ready { json, command: DlCommand::Add(a) }),
                events,
            ).0;
            &&& 1 <= calls.len() <= 2
            &&& crate::drive::resolves(calls[0], a.source@)
            &&& calls.len() == 2 ==> exists|indices: Seq<i64>| #[trigger]
                creates_as_asked(calls[1], a, v, indices)
        }),
{
    let start = after_connect(Ready { json, command: DlCommand::Add(a) });
    let task = NewTaskView {
        url: a.source@,
        resolved: crate::model::resolved_in(v),
        name: crate::api::opt_text(a.name),
        parent_folder_id: a.parent_folder_id@,
    };
    let then = resolved_turn(json, task, a.all, a.pick@);
    let output = shown(json, task.resolved);
    let rest = events.skip(1);
    let calls = play(start, events).0;
    lemma_add_unfolds(json, a, v, events);
    crate::drive::law_resolving_asks_about_the_link(a.source@);
    let more = play(then, rest).0;
    if a.all || task.resolved.files.len() <= 1 {
        lemma_creation_calls(output, task, Seq::empty(), rest);
        lemma_created_as_asked(a, v, Seq::empty());
    } else if a.pick@.len() > 0 {
        lemma_creation_calls(output, task, a.pick@, rest);
        lemma_created_as_asked(a, v, a.pick@);
    } else {
        lemma_asking_calls(output, task, rest);
        if more.len() > 0 {
            let indices = choose|indices: Seq<i64>|
                more == seq![
                    #[trigger] crate::drive::add_call(
                        task.url,
                        task.resolved,
                        task.name,
                        task.parent_folder_id,
                        indices,
                    ),
                ];
            lemma_created_as_asked(a, v, indices);
            assert(creates_as_asked(more[0], a, v, indices));
        }
    }
    if calls.len() == 2 {
        assert(calls[1] == more[0]);
    }
}

/// An add command whose link resolves creates the task that it asked for, whichever way
/// its files are chosen: by flag, picked, typed at the prompt, or without a terminal.
/// The size is that of the chosen files, where they can be added up.
pub proof fn law_add_creates_the_task_asked_for(
    json: bool,
    a: AddArgs,
    v: JsonView,
    events: Seq<Event>,
    indices: Seq<i64>,
)
    requires
        crate::source::is_link(a.source@),
        crate::drive::resolved_result(v) is Ok,
        events.len() > 0,
        events[0] == Event::Answer(Ok(v)),
        chosen_files(a, crate::model::files_in(v).len(), events, indices),
        indices.len() == 0 || crate::model::sizes_fit(
            crate::model::files_in(v).filter(|f: crate::model::FileView| indices.contains(f.index)),
        ),
    ensures
        ({
            let calls = play(
                after_connect(Ready { json, command: DlCommand::Add(a) }),
                events,
            ).0;
            &&& calls.len() == 2
            &&& crate::drive::resolves(calls[0], a.source@)
            &&& creates_as_asked(calls[1], a, v, indices)
        }),
{
    let task = NewTaskView {
        url: a.source@,
        resolved: crate::model::resolved_in(v),
        name: crate::api::opt_text(a.name),
        parent_folder_id: a.parent_folder_id@,
    };
    let output = shown(json, task.resolved);
    let rest = events.skip(1);
    lemma_add_unfolds(json, a, v, events);
    crate::drive::law_resolving_asks_about_the_link(a.source@);
    lemma_created_as_asked(a, v, indices);
    assert(crate::drive::selection_fits(task.resolved, indices));
    if indices.len() == 0 {
        assert(indices =~= Seq::<i64>::empty());
    }
    if a.all || task.resolved.files.len() <= 1 {
        lemma_creation_calls(output, task, indices, rest);
    } else if a.pick@.len() > 0 {
        lemma_creation_calls(output, task, indices, rest);
    } else {
        lemma_asking_calls(output, task, rest);
        assert(rest[0] == events[1]);
        if events[1] == Event::Terminal(true) {
            assert(rest[1] == events[2]);
            let line = choose|line: Seq<char>|
                events[2] == #[trigger] typed(line) && crate::pick::picked_in(line) == read_as(
                    indices,
                );
            assert(rest[1] == typed(line));
        }
    }
}

/// What is no link is looked for as a path, and then refused: as a .torrent file where
/// there is such a path, and as unknown otherwise. Nothing is sent.
pub proof fn law_other_sources_are_refused(ready: Ready, source: Seq<char>, exists: bool)
    requires
        !crate::source::is_link(source),
        match ready.command {
            DlCommand::Add(a) => a.source@ == source,
            DlCommand::Resolve { url } => url@ == source,
            _ => false,
        },
    ensures
        after_connect(ready).output.len() == 0,
        after_connect(ready).next == (NextView::Probe { source, ready }),
        play(after_connect(ready), seq![Event::Probed(exists)]) == (
            Seq::<ApiCallView>::empty(),
            Seq::<OutputView>::empty(),
            NextView::Finish(
                Err(
                    if exists && crate::source::is_torrent_path(source) {
                        DlErrorView::TorrentFile
                    } else {
                        DlErrorView::UnknownSource(source)
                    },
                ),
            ),
        ),
{
    let events = seq![Event::Probed(exists)];
    let none = Seq::<ApiCallView>::empty();
    let silence = Seq::<OutputView>::empty();
    lemma_play_ends(after_probe(ready, exists), events.skip(1));
    assert(none + none =~= none);
    assert(silence + silence =~= silence);
}

/// A resolve command makes one call, about its own link, and shows what the answer says:
/// as JSON where that was asked for, and as a table otherwise.
pub proof fn law_resolve_command_shows_its_link(json: bool, url: String, v: JsonView)
    requires
        crate::source::is_link(url@),
        crate::drive::resolved_result(v) is Ok,
    ensures
        ({
            let (calls, output, end) = play(
                after_connect(Ready { json, command: DlCommand::Resolve { url } }),
                seq![Event::Answer(Ok(v))],
            );
            &&& calls.len() == 1
            &&& crate::drive::resolves(calls[0], url@)
            &&& end == NextView::Finish(Ok(()))
            &&& json ==> output == seq![
                OutputView::Line(
                    crate::json::json_pretty(
                        crate::show::resolved_json(crate::model::resolved_in(v)),
                    ),
                ),
            ]
            &&& !json ==> prints(
                output,
                crate::show::resolved_lines(crate::model::resolved_in(v)),
            )
        }),
{
    let start = after_connect(Ready { json, command: DlCommand::Resolve { url } });
    let events = seq![Event::Answer(Ok(v))];
    crate::drive::law_resolving_asks_about_the_link(url@);
    crate::drive::law_missing_answers_are_told(v, Seq::empty(), Seq::empty());
    lemma_play_last_call(start, events);
    let then = after_answer(PurposeView::Show { json }, Ok(v));
    assert(start.output + then.output =~= then.output);
}

/// Exactly these lines are printed, one after the other.
pub open spec fn prints(output: Seq<OutputView>, lines: Seq<Seq<char>>) -> bool {
    &&& output.len() == lines.len()
    &&& forall|i: int| 0 <= i < output.len() ==> #[trigger] output[i] == OutputView::Line(lines[i])
}

/// A list command asks for as many tasks as it was told, and has a filter exactly where
/// only the active ones were asked for. It shows every task of the answer: as JSON where
/// that was asked for, and else as a table.
pub proof fn law_list_command_lists_what_was_asked(json: bool, a: ListArgs, v: JsonView)
    ensures
        ({
            let (calls, output, end) = play(
                after_connect(Ready { json, command: DlCommand::List(a) }),
                seq![Event::Answer(Ok(v))],
            );
            let pieces = crate::text::split(calls[0].path, '&');
            &&& calls.len() == 1
            &&& calls[0].method == "GET"@
            &&& calls[0].body is None
            &&& calls[0].with_token
            &&& pieces.len() == (if a.active {
                4int
            } else {
                3int
            })
            &&& pieces[0] == "drive/v1/tasks?space="@
            &&& pieces[1] == "type="@ + crate::encode::url_encoded("user#download"@)
            &&& pieces[2] == "limit="@ + crate::number::decimal(a.limit as int)
            &&& (exists|i: int|
                0 <= i < pieces.len() && "filters="@.is_prefix_of(#[trigger] pieces[i]))
                <==> a.active
            &&& json ==> output == seq![
                OutputView::Line(
                    crate::json::json_pretty(
                        crate::show::tasks_json(crate::model::tasks_in(v)),
                    ),
                ),
            ] && end == NextView::Finish(Ok(()))
            &&& !json && crate::show::ids_cut(crate::model::tasks_in(v)) ==> prints(
                output,
                crate::show::list_lines(crate::model::tasks_in(v)),
            ) && end == NextView::Finish(Ok(()))
            &&& !json && !crate::show::ids_cut(crate::model::tasks_in(v)) ==> output.len() == 0
                && end == NextView::Finish(Err(DlErrorView::UncutId))
        }),
{
    let start = after_connect(Ready { json, command: DlCommand::List(a) });
    let events = seq![Event::Answer(Ok(v))];
    crate::drive::law_listing_filters_only_on_demand(a.active, a.limit);
    lemma_play_last_call(start, events);
    let then = after_answer(PurposeView::List { json }, Ok(v));
    assert(start.output + then.output =~= then.output);
    let call = play(start, events).0[0];
    assert(crate::text::split(call.path, '&') == crate::drive::list_pieces(a.active, a.limit));
}

/// A remove command names all of its tasks, in order, and has their files deleted
/// exactly where that was asked for. It tells how many tasks that were.
pub proof fn law_remove_command_removes_what_was_asked(json: bool, a: RmArgs, v: JsonView)
    requires
        a.ids@.len() > 0,
    ensures
        ({
            let (calls, output, end) = play(
                after_connect(Ready { json, command: DlCommand::Rm(a) }),
                seq![Event::Answer(Ok(v))],
            );
            let pieces = crate::text::split(calls[0].path, '&');
            &&& calls.len() == 1
            &&& calls[0].method == "DELETE"@
            &&& calls[0].body is None
            &&& calls[0].with_token
            &&& pieces.len() == 1 + a.ids@.len() + (if a.delete_files {
                1int
            } else {
                0int
            })
            &&& pieces[0] == "drive/v1/tasks?space="@
            &&& forall|i: int|
                0 <= i < a.ids@.len() ==> #[trigger] pieces[i + 1] == "task_ids="@
                    + crate::encode::url_encoded(a.ids@[i]@)
            &&& pieces.contains("delete_files=true"@) <==> a.delete_files
            &&& output == seq![
                OutputView::Line(
                    "Removed "@ + crate::number::decimal(a.ids@.len() as int) + " task(s)."@,
                ),
            ]
            &&& end == NextView::Finish(Ok(()))
        }),
{
    let start = after_connect(Ready { json, command: DlCommand::Rm(a) });
    let events = seq![Event::Answer(Ok(v))];
    let ids = crate::text::texts(a.ids@);
    crate::drive::law_remove_names_every_task(ids, a.delete_files);
    crate::drive::law_files_are_deleted_only_on_demand(ids, a.delete_files);
    lemma_play_last_call(start, events);
    let then = after_answer(PurposeView::Remove { count: ids.len() }, Ok(v));
    assert(start.output + then.output =~= then.output);
    let pieces = crate::text::split(play(start, events).0[0].path, '&');
    assert forall|i: int| 0 <= i < a.ids@.len() implies #[trigger] pieces[i + 1] == "task_ids="@
        + crate::encode::url_encoded(a.ids@[i]@) by {
        assert(pieces[i + 1] == crate::drive::id_param(ids[i]));
    }
}

/// A pause command sets the phase `pause` of every task that it names, in order, and a
/// resume command the phase `running`; each says of every task what came of it, and
/// neither fails.
pub proof fn law_state_commands_change_every_task(
    json: bool,
    pause: bool,
    ids: Vec<String>,
    answers: Seq<Result<JsonView, ErrorView>>,
)
    requires
        ids@.len() > 0,
        answers.len() == ids@.len(),
    ensures
        ({
            let command = if pause {
                DlCommand::Pause { ids }
            } else {
                DlCommand::Resume { ids }
            };
            let (calls, output, end) = session(after_connect(Ready { json, command }), answers);
            &&& calls.len() == ids@.len()
            &&& forall|i: int|
                0 <= i < ids@.len() ==> crate::drive::sets_phase(
                    #[trigger] calls[i],
                    ids@[i]@,
                    if pause {
                        "pause"@
                    } else {
                        "running"@
                    },
                )
            &&& output.len() == ids@.len()
            &&& forall|i: int|
                0 <= i < ids@.len() ==> #[trigger] output[i] == (match answers[i] {
                    Ok(_) => OutputView::Line(
                        (if pause {
                            "paused: "@
                        } else {
                            "resumed: "@
                        }) + ids@[i]@,
                    ),
                    Err(e) => OutputView::ErrLine(
                        "failed on "@ + ids@[i]@ + ": "@ + crate::api::error_message(e),
                    ),
                })
            &&& end == NextView::Finish(Ok(()))
        }),
{
    let all = crate::text::texts(ids@);
    law_every_task_is_tried(pause, all, answers);
    let calls = all.map_values(|id: Seq<char>| toggle_call(pause, id));
    assert forall|i: int| 0 <= i < ids@.len() implies crate::drive::sets_phase(
        #[trigger] calls[i],
        ids@[i]@,
        if pause {
            "pause"@
        } else {
            "running"@
        },
    ) by {
        crate::drive::law_operating_names_the_task(all[i]);
        assert(calls[i] == toggle_call(pause, all[i]));
    }
}

/// A raw command sends its own path and body, under its method in upper case, and prints
/// the whole answer: compact where JSON was asked for, and indented otherwise. A body
/// that is no JSON is not sent.
pub proof fn law_raw_command_sends_what_was_asked(json: bool, a: RawArgs, v: JsonView)
    ensures
        ({
            let (calls, output, end) = play(
                after_connect(Ready { json, command: DlCommand::Raw(a) }),
                seq![Event::Answer(Ok(v))],
            );
            let body = match a.body {
                Some(text) => Some(crate::json::json_parsed(text@)),
                None => None,
            };
            match body {
                Some(Err(cause)) => calls.len() == 0 && output.len() == 0 && end
                    == NextView::Finish(Err(DlErrorView::BadBody(cause))),
                _ => {
                    &&& calls.len() == 1
                    &&& calls[0].method == crate::text::uppercased(a.method@)
                    &&& calls[0].path == a.path@
                    &&& calls[0].with_token
                    &&& a.body is None ==> calls[0].body is None
                    &&& body matches Some(Ok(sent)) ==> calls[0].body == Some(
                        crate::json::json_text(sent),
                    )
                    &&& output == seq![
                        OutputView::Line(
                            if json {
                                crate::json::json_text(v)
                            } else {
                                crate::json::json_pretty(v)
                            },
                        ),
                    ]
                    &&& end == NextView::Finish(Ok(()))
                },
            }
        }),
{
    let start = after_connect(Ready { json, command: DlCommand::Raw(a) });
    let events = seq![Event::Answer(Ok(v))];
    let body = match a.body {
        Some(text) => Some(crate::json::json_parsed(text@)),
        None => None,
    };
    match body {
        Some(Err(cause)) => {
            lemma_play_ends(start, events);
        },
        _ => {
            lemma_play_last_call(start, events);
            let then = after_answer(PurposeView::Raw { json }, Ok(v));
            assert(start.output + then.output =~= then.output);
        },
    }
}

/// A command whose call fails ends there, and prints nothing more; the error says at
/// which step, where there are several. Only pausing and resuming go on.
pub proof fn law_failed_calls_end_the_command(purpose: PurposeView, e: ErrorView)
    requires
        !(purpose is Toggle),
    ensures
        after_answer(purpose, Err(e)).output.len() == 0,
        after_answer(purpose, Err(e)).next == NextView::Finish(
            Err(
                match purpose {
                    PurposeView::Resolve { .. } => DlErrorView::Resolving(e),
                    PurposeView::Create => DlErrorView::Creating(e),
                    _ => DlErrorView::Client(e),
                },
            ),
        ),
{
}

/// A created task is told, with its id where the answer gives one.
pub proof fn law_created_task_is_told(v: JsonView)
    ensures
        after_answer(PurposeView::Create, Ok(v)) == (TurnView {
            output: seq![
                OutputView::Line(
                    match v.field("task"@) {
                        Some(task) => match task.field("id"@) {
                            Some(JsonView::Str(id)) => if id.len() > 0 {
                                "Task created: "@ + id
                            } else {
                                "Task created."@
                            },
                            _ => "Task created."@,
                        },
                        None => "Task created."@,
                    },
                ),
            ],
            next: NextView::Finish(Ok(())),
        }),
{
}

/// An add command shows its link before it does anything else: as JSON where that was
/// asked for, and as a table otherwise.
pub proof fn law_add_shows_its_link(json: bool, a: AddArgs, v: JsonView)
    requires
        crate::source::is_link(a.source@),
        crate::drive::resolved_result(v) is Ok,
    ensures
        ({
            let output = play(
                after_connect(Ready { json, command: DlCommand::Add(a) }),
                seq![Event::Answer(Ok(v))],
            ).1;
            &&& json ==> output == seq![
                OutputView::Line(
                    crate::json::json_pretty(
                        crate::show::resolved_json(crate::model::resolved_in(v)),
                    ),
                ),
            ]
            &&& !json ==> prints(
                output,
                crate::show::resolved_lines(crate::model::resolved_in(v)),
            )
        }),
{
    let start = after_connect(Ready { json, command: DlCommand::Add(a) });
    let events = seq![Event::Answer(Ok(v))];
    crate::drive::law_missing_answers_are_told(v, Seq::empty(), Seq::empty());
    let then = after_answer(add_purpose(json, a), Ok(v));
    assert(events.skip(1) =~= Seq::<Event>::empty());
    assert(play(then, Seq::empty()).1 == then.output);
    assert(start.output + then.output =~= then.output);
}

/// A link needs no path: whether there is one makes no difference.
pub proof fn law_links_need_no_path(ready: Ready, exists: bool)
    requires
        match ready.command {
            DlCommand::Add(a) => crate::source::is_link(a.source@),
            DlCommand::Resolve { url } => crate::source::is_link(url@),
            _ => true,
        },
    ensures
        after_probe(ready, exists) == after_connect(ready),
        !(after_connect(ready).next is Probe),
{
}

/// Files whose sizes cannot be added up are not downloaded, and that is told.
pub proof fn law_oversized_selections_are_refused(
    output: Seq<OutputView>,
    task: NewTaskView,
    indices: Seq<i64>,
)
    requires
        indices.len() > 0,
        !crate::model::sizes_fit(
            task.resolved.files.filter(
                |f: crate::model::FileView| indices.contains(f.index),
            ),
        ),
    ensures
        creation(output, task, indices) == (TurnView {
            output,
            next: NextView::Finish(Err(DlErrorView::Creating(ErrorView::SizeOverflow))),
        }),
{
}

/// Whoever sits at the terminal is told how many files there are, and asked for them;
/// where nobody does, that is told, and a line that names no files, or cannot be read,
/// ends the command.
pub proof fn law_terminal_is_asked(
    task: NewTaskView,
    line: Seq<char>,
    part: Seq<char>,
)
    ensures
        after_terminal(task, true).output == seq![
            OutputView::Prompt(
                "Select files to download [Enter=all "@ + crate::number::decimal(
                    task.resolved.files.len() as int,
                ) + " file(s), e.g. 0,2,5]: "@,
            ),
        ],
        after_terminal(task, true).next == NextView::ReadLine(task),
        after_terminal(task, false).output == seq![
            OutputView::ErrLine("(no --pick/--all and not a TTY: downloading all files)"@),
        ],
        crate::pick::picked_in(line) == Err::<Seq<int>, Seq<char>>(part) ==> chosen_turn(
            task,
            picked_indices(line),
        ) == (TurnView {
            output: Seq::empty(),
            next: NextView::Finish(Err(DlErrorView::BadIndex(part))),
        }),
{
}

/// An error of a client is told under what the command was doing, with all that lies
/// behind it.
pub proof fn law_errors_are_told_whole(e: ErrorView)
    ensures
        error_chain(DlErrorView::Client(e)) == seq![crate::api::error_message(e)]
            + crate::api::error_causes(e),
        error_chain(DlErrorView::Connecting(e)) == seq!["failed to create client"@] + (seq![
            crate::api::error_message(e),
        ] + crate::api::error_causes(e)),
        error_chain(DlErrorView::Resolving(e)) == seq!["failed to resolve link"@] + (seq![
            crate::api::error_message(e),
        ] + crate::api::error_causes(e)),
        error_chain(DlErrorView::Creating(e)) == seq!["failed to create task"@] + (seq![
            crate::api::error_message(e),
        ] + crate::api::error_causes(e)),
{
}

/// What came of a call is what its reply says of it, and a call that could not be made
/// failed for the reason that it could not.
pub proof fn law_outcome_is_that_of_the_call(call: ApiCallView, reply: Reply, e: ClientError)
    ensures
        outcome(call, Ok(reply)) == crate::client::response_in(call, reply@),
        outcome(call, Err(e)) == Err::<JsonView, ErrorView>(e@),
{
}

} // verus!
