use thunder::api::{ApiCall, ClientError, Reply};
use thunder::client::ThunderClient;
use thunder::dl::{
    raw_request, run, AddArgs, DlCommand, DlConfig, DlError, ListArgs, NewTask, Next, Purpose,
    RawArgs, Ready, RmArgs, Turn, Waiting,
};
use thunder::json::{parse_json, Json};
use thunder::model::{Resolved, ResolvedFile, Task};
use thunder::output::Output;
use thunder::pick::{choose_files, parse_pick, Selection};
use thunder::show::{
    can_cut_id, can_cut_ids, cut_id, resolved_json_text, resolved_table, task_table,
    tasks_json_text,
};
use thunder::source::{has_torrent_extension, passes_through, source_to_url};

fn s(text: &str) -> String {
    text.to_string()
}

fn line(text: &str) -> Output {
    Output::Line(s(text))
}

fn ready(json: bool, command: DlCommand) -> Ready {
    Ready { json, command }
}

fn add(source: &str, all: bool, pick: Vec<i64>) -> DlCommand {
    DlCommand::Add(AddArgs {
        source: s(source),
        name: None,
        parent_folder_id: s(""),
        all,
        pick,
    })
}

fn file(index: i64, name: &str, size: i64) -> ResolvedFile {
    ResolvedFile { index, name: s(name), size, is_dir: false }
}

fn two_files() -> Resolved {
    Resolved {
        list_id: s("L"),
        name: s("T"),
        total_size: 2560,
        files: vec![file(0, "a", 1024), file(4, "b", 1536)],
    }
}

const TWO: &str = r#"{"list_id":"L","list":{"resources":[{"name":"T","is_dir":true,
    "dir":{"resources":[{"name":"a","file_index":0,"file_size":1024},
    {"name":"b","file_index":4,"file_size":1536}]}}]}}"#;

fn reply(text: &str) -> Result<Reply, ClientError> {
    Ok(Reply::Text(s(text)))
}

fn waiting(turn: Turn) -> Waiting {
    match turn.next {
        Next::Call(w) => w,
        other => panic!("{other:?}"),
    }
}

fn finished(turn: Turn) -> (Vec<Output>, Result<(), DlError>) {
    match turn.next {
        Next::Finish(r) => (turn.output, r),
        other => panic!("{other:?}"),
    }
}

fn connect(json: bool, command: DlCommand) -> Turn {
    ready(json, command).connected(Ok(()))
}

// ---- sources --------------------------------------------------------------

#[test]
fn links_pass_through() {
    for link in ["magnet:?xt=1", "http://a", "https://a", "ed2k://a", "ftp://a"] {
        assert!(passes_through(link));
        assert_eq!(source_to_url(link, false), Ok(s(link)));
        assert_eq!(source_to_url(link, true), Ok(s(link)));
    }
    assert!(!passes_through("Magnet:?xt=1"));
    assert!(!passes_through(" http://a"));
}

#[test]
fn torrent_files_and_other_sources_are_refused() {
    assert_eq!(source_to_url("a.torrent", true), Err(DlError::TorrentFile));
    assert_eq!(
        source_to_url("a.torrent", false),
        Err(DlError::UnknownSource(s("a.torrent")))
    );
    assert_eq!(source_to_url("a.txt", true), Err(DlError::UnknownSource(s("a.txt"))));
}

#[test]
fn the_extension_is_that_of_a_path() {
    let paths = [
        "a.torrent", "/x/a.torrent", "a.torrent/", "a.torrent/.", "a.torrent/..", ".torrent",
        "/x/.torrent", "a.b.torrent", "a.torrentx", "atorrent", "", "/", ".", "..", "a.torrent/b",
        "./a.torrent", "a.torrent//", "..torrent", "a/..torrent", "a.TORRENT", "版.torrent",
    ];
    for p in paths {
        let expected = std::path::Path::new(p).extension().map(|e| e == "torrent");
        assert_eq!(has_torrent_extension(p), expected.unwrap_or(false), "{p}");
    }
}

// ---- choosing files -------------------------------------------------------

fn indices(selection: Selection) -> Option<Vec<i64>> {
    match selection {
        Selection::Indices(i) => Some(i),
        Selection::Ask => None,
    }
}

#[test]
fn files_are_chosen_by_flag_pick_or_terminal() {
    assert_eq!(indices(choose_files(true, vec![1], 5)), Some(vec![]));
    assert_eq!(indices(choose_files(false, vec![1], 1)), Some(vec![]));
    assert_eq!(indices(choose_files(false, vec![1], 0)), Some(vec![]));
    assert_eq!(indices(choose_files(false, vec![1, 7], 2)), Some(vec![1, 7]));
    assert_eq!(indices(choose_files(false, vec![], 2)), None);
}

#[test]
fn a_line_picks_files() {
    assert_eq!(parse_pick("0,2,5\n"), Ok(vec![0, 2, 5]));
    assert_eq!(parse_pick(" 0 , 2 ,, 5 , "), Ok(vec![0, 2, 5]));
    assert_eq!(parse_pick(""), Ok(vec![]));
    assert_eq!(parse_pick(" \t\n"), Ok(vec![]));
    assert_eq!(parse_pick(",,"), Ok(vec![]));
    assert_eq!(parse_pick("1,x,y"), Err(s("x")));
    assert_eq!(parse_pick("1 2"), Err(s("1 2")));
    assert_eq!(parse_pick("9223372036854775808"), Err(s("9223372036854775808")));
}

#[test]
fn a_list_of_indices_reads_back() {
    for list in [vec![0], vec![0, 3, 5], vec![-1, i64::MIN, i64::MAX]] {
        assert_eq!(parse_pick(&thunder::drive::sub_file_index(&list)), Ok(list));
    }
}

// ---- tables ---------------------------------------------------------------

#[test]
fn a_resolved_link_is_shown_as_a_table() {
    assert_eq!(
        resolved_table(&two_files()),
        vec![
            s("Resolved: T"),
            s("Total: 2.5 KB  (2 file(s))"),
            s(" IDX        SIZE  NAME"),
            s("   0      1.0 KB  a"),
            s("   4      1.5 KB  b"),
        ]
    );
    let one = Resolved { name: s(""), total_size: 0, files: vec![file(0, "a", 0)], ..two_files() };
    assert_eq!(resolved_table(&one), vec![s("Resolved: (unnamed)")]);
    let unsized_file = Resolved { files: vec![file(12345, "a", 0), file(1, "b", 1)], ..two_files() };
    assert_eq!(resolved_table(&unsized_file)[3], "12345           -  a");
}

#[test]
fn a_resolved_link_is_shown_as_json() {
    let text = resolved_json_text(&two_files());
    assert_eq!(
        parse_json(&text),
        parse_json(
            r#"{"list_id":"L","name":"T","total_size":2560,"files":[
            {"index":0,"name":"a","size":1024,"is_dir":false},
            {"index":4,"name":"b","size":1536,"is_dir":false}]}"#
        )
    );
    assert!(text.starts_with("{\n  \"files\": [\n    {\n      \"index\": 0,\n"));
}

fn task(id: &str, phase: &str, speed: i64, message: &str) -> Task {
    Task {
        id: s(id),
        name: s("film"),
        file_size: 9,
        progress: 7,
        phase: s(phase),
        speed,
        message: s(message),
    }
}

#[test]
fn tasks_are_shown_as_a_table() {
    assert_eq!(task_table(&vec![]), vec![s("No tasks.")]);
    let tasks = vec![
        task("abcdefghijklmnopqrstuvwxyz", "PHASE_TYPE_RUNNING", 2048, ""),
        task("1", "PHASE_TYPE_ERROR", 0, "disk full"),
    ];
    assert!(can_cut_ids(&tasks));
    assert_eq!(
        task_table(&tasks),
        vec![
            s("ID                   PROG%  PHASE          SPEED  NAME"),
            s("abcdefghijklmnopqrst    7  RUNNING     2.0 KB/s  film"),
            s("1                       7  ERROR              -  film"),
            s("  └ disk full"),
        ]
    );
    assert_eq!(
        task_table(&tasks)[0],
        format!("{:<20} {:>4}%  {:<9} {:>10}  NAME", "ID", "PROG", "PHASE", "SPEED")
    );
}

#[test]
fn ids_are_cut_by_bytes_where_a_character_ends() {
    assert_eq!(cut_id("short"), "short");
    assert_eq!(cut_id("12345678901234567890"), "12345678901234567890");
    assert_eq!(cut_id("123456789012345678901"), "12345678901234567890");
    // 6 characters of 3 bytes and 2 letters make 20 bytes.
    assert_eq!(cut_id("版版版版版版abcd"), "版版版版版版ab");
    assert!(!can_cut_id("版版版版版版版版"));
    assert!(can_cut_id("版版版版版版"));
    assert!(!can_cut_ids(&vec![task("1", "", 0, ""), task("版版版版版版版版", "", 0, "")]));
}

#[test]
fn tasks_are_shown_as_json() {
    let text = tasks_json_text(&vec![task("1", "PHASE_TYPE_PAUSED", 3, "m")]);
    assert_eq!(
        parse_json(&text),
        parse_json(
            r#"[{"id":"1","name":"film","size":9,"progress":7,"phase":"PAUSED","speed":3,
            "message":"m"}]"#
        )
    );
    assert_eq!(tasks_json_text(&vec![]), "[]");
}

// ---- commands -------------------------------------------------------------

#[test]
fn a_command_begins_with_its_client() {
    let cfg = DlConfig {
        host: s("h"),
        password: Some(s("pw")),
        json: true,
        command: DlCommand::Resolve { url: s("magnet:x") },
    };
    let turn = run(cfg);
    assert_eq!(turn.output, vec![]);
    assert_eq!(
        turn.next,
        Next::Connect {
            host: s("h"),
            password: Some(s("pw")),
            ready: ready(true, DlCommand::Resolve { url: s("magnet:x") }),
        }
    );
}

#[test]
fn without_a_client_a_command_fails() {
    let turn = ready(false, add("magnet:x", true, vec![])).connected(Err(ClientError::NoCookie));
    let (output, r) = finished(turn);
    assert_eq!(output, vec![]);
    let e = r.unwrap_err();
    assert_eq!(
        e.chain(),
        vec![
            s("failed to create client"),
            s("login failed: no cookie returned (wrong password?)"),
        ]
    );
}

#[test]
fn a_link_is_shown_and_nothing_downloaded() {
    let w = waiting(connect(false, DlCommand::Resolve { url: s("magnet:x") }));
    assert_eq!(w.call, ThunderClient::resolve("magnet:x"));
    let (output, r) = finished(w.replied(reply(TWO)));
    assert_eq!(output[0], line("Resolved: T"));
    assert_eq!(output.len(), 5);
    assert_eq!(r, Ok(()));
    let w = waiting(connect(true, DlCommand::Resolve { url: s("magnet:x") }));
    let (output, _) = finished(w.replied(reply(TWO)));
    assert_eq!(output, vec![line(&resolved_json_text(&two_files()))]);
}

#[test]
fn a_link_that_cannot_be_resolved_is_reported() {
    let w = waiting(connect(false, DlCommand::Resolve { url: s("magnet:x") }));
    let (_, r) = finished(w.replied(Err(ClientError::NoToken)));
    assert_eq!(r, Err(DlError::Client(ClientError::NoToken)));
    let w = waiting(connect(false, add("magnet:x", true, vec![])));
    let (_, r) = finished(w.replied(Ok(Reply::Failed(vec![s("down"), s("deeper")]))));
    assert_eq!(
        r.unwrap_err().chain(),
        vec![s("failed to resolve link"), s("POST drive/v1/resource/list failed"), s("down"), s("deeper")]
    );
}

#[test]
fn what_is_no_link_is_looked_for_as_a_path() {
    for command in [add("x.torrent", false, vec![]), DlCommand::Resolve { url: s("x.torrent") }] {
        match connect(false, command).next {
            Next::Probe { source, ready } => {
                assert_eq!(source, "x.torrent");
                let (_, r) = finished(ready.probed(true));
                assert_eq!(r, Err(DlError::TorrentFile));
            },
            other => panic!("{other:?}"),
        }
    }
    let (_, r) = finished(ready(false, add("x", false, vec![])).probed(true));
    assert_eq!(
        r.unwrap_err().chain(),
        vec![s("unrecognized source: x (expected magnet:, http(s)://, or a .torrent path)")]
    );
    assert_eq!(
        ready(false, DlCommand::Resolve { url: s("ftp://x") }).probed(false),
        connect(false, DlCommand::Resolve { url: s("ftp://x") })
    );
    assert_eq!(
        ready(false, DlCommand::Pause { ids: vec![] }).probed(false),
        connect(false, DlCommand::Pause { ids: vec![] })
    );
}

fn created(c: &ApiCall) -> Json {
    assert_eq!(c.path, "drive/v1/task");
    parse_json(c.body.as_ref().unwrap()).unwrap()
}

#[test]
fn all_files_are_downloaded() {
    let w = waiting(connect(false, add("magnet:x", true, vec![4])));
    let turn = w.replied(reply(TWO));
    assert_eq!(turn.output.len(), 5);
    let w = waiting(turn);
    assert_eq!(
        w.call,
        ThunderClient::add("magnet:x", &two_files(), None, "", &vec![]).unwrap()
    );
    let (output, r) = finished(w.replied(reply("{\"task\":{\"id\":\"T1\"}}")));
    assert_eq!(output, vec![line("Task created: T1")]);
    assert_eq!(r, Ok(()));
}

#[test]
fn picked_files_are_downloaded() {
    let w = waiting(connect(false, add("magnet:x", false, vec![4])));
    let w = waiting(w.replied(reply(TWO)));
    let body = created(&w.call);
    assert_eq!(body.text_of("file_size"), "1536");
    assert_eq!(body.get("params").unwrap().text_of("sub_file_index"), "4");
    assert_eq!(body.get("params").unwrap().text_of("total_file_count"), "2");
    let (output, _) = finished(w.replied(reply("")));
    assert_eq!(output, vec![line("Task created.")]);
}

#[test]
fn a_task_that_cannot_be_created_is_reported() {
    let w = Waiting {
        call: ThunderClient::add("u", &two_files(), None, "", &vec![]).unwrap(),
        purpose: Purpose::Create,
    };
    let (_, r) = finished(w.replied(Ok(Reply::Status { code: 404, body: s("b"), causes: vec![s("c")] })));
    assert_eq!(r.unwrap_err().chain(), vec![s("failed to create task"), s("API error 404: b")]);
}

fn asked() -> NewTask {
    let w = waiting(connect(false, add("magnet:x", false, vec![])));
    match w.replied(reply(TWO)).next {
        Next::AskTerminal(task) => task,
        other => panic!("{other:?}"),
    }
}

#[test]
fn the_terminal_is_asked() {
    let turn = asked().terminal(true);
    assert_eq!(
        turn.output,
        vec![Output::Prompt(s("Select files to download [Enter=all 2 file(s), e.g. 0,2,5]: "))]
    );
    let task = match turn.next {
        Next::ReadLine(task) => task,
        other => panic!("{other:?}"),
    };
    let turn = task.picked(Ok(s("4\n")));
    assert_eq!(turn.output, vec![]);
    assert_eq!(
        waiting(turn).call,
        ThunderClient::add("magnet:x", &two_files(), None, "", &vec![4]).unwrap()
    );
    assert_eq!(
        waiting(asked().picked(Ok(s("\n")))).call,
        ThunderClient::add("magnet:x", &two_files(), None, "", &vec![]).unwrap()
    );
}

#[test]
fn without_a_terminal_all_files_are_downloaded() {
    let turn = asked().terminal(false);
    assert_eq!(
        turn.output,
        vec![Output::ErrLine(s("(no --pick/--all and not a TTY: downloading all files)"))]
    );
    assert_eq!(
        waiting(turn).call,
        ThunderClient::add("magnet:x", &two_files(), None, "", &vec![]).unwrap()
    );
}

#[test]
fn a_line_that_picks_nothing_sensible_is_refused() {
    let (_, r) = finished(asked().picked(Ok(s("0,b"))));
    assert_eq!(r, Err(DlError::BadIndex(s("b"))));
    for part in ["b", "1 2", "9223372036854775808", "-9223372036854775809"] {
        assert_eq!(
            DlError::BadIndex(s(part)).chain(),
            vec![format!("invalid index: {part}"), part.parse::<i64>().unwrap_err().to_string()]
        );
    }
    let (_, r) = finished(asked().picked(Err(s("closed"))));
    assert_eq!(r.unwrap_err().chain(), vec![s("closed")]);
}

#[test]
fn a_selection_that_is_too_large_is_refused() {
    let task = NewTask {
        url: s("u"),
        resolved: Resolved {
            files: vec![file(0, "a", i64::MAX), file(1, "b", 1)],
            ..two_files()
        },
        name: None,
        parent_folder_id: s(""),
    };
    let (_, r) = finished(task.picked(Ok(s("0,1"))));
    assert_eq!(r, Err(DlError::Creating(ClientError::SizeOverflow)));
}

#[test]
fn tasks_are_listed_on_command() {
    let list = |json: bool| {
        waiting(connect(json, DlCommand::List(ListArgs { active: true, limit: 3 })))
    };
    assert_eq!(list(false).call, ThunderClient::list(true, 3));
    let answer = "{\"tasks\":[{\"id\":\"1\",\"name\":\"n\",\"phase\":\"PHASE_TYPE_PENDING\"}]}";
    let (output, r) = finished(list(false).replied(reply(answer)));
    assert_eq!(output.len(), 2);
    assert_eq!(output[1], line("1                       0  PENDING            -  n"));
    assert_eq!(r, Ok(()));
    let (output, _) = finished(list(true).replied(reply(answer)));
    match &output[0] {
        Output::Line(text) => {
            let j = parse_json(text).unwrap();
            assert_eq!(j.as_array().unwrap()[0].text_of("phase"), "PENDING");
        },
        other => panic!("{other:?}"),
    }
    assert_eq!(finished(list(false).replied(reply(""))).0, vec![line("No tasks.")]);
    let uncut = "{\"tasks\":[{\"id\":\"版版版版版版版版\"}]}";
    assert_eq!(finished(list(false).replied(reply(uncut))), (vec![], Err(DlError::UncutId)));
    assert_eq!(
        DlError::UncutId.chain(),
        vec![s("a task id cannot be cut within a character")]
    );
    let (_, r) = finished(list(false).replied(Err(ClientError::NoToken)));
    assert_eq!(r, Err(DlError::Client(ClientError::NoToken)));
}

#[test]
fn every_task_is_paused_whatever_the_others_do() {
    let ids = vec![s("a"), s("b"), s("c")];
    let w = waiting(connect(false, DlCommand::Pause { ids }));
    assert_eq!(w.call, ThunderClient::pause("a"));
    let turn = w.replied(reply("{}"));
    assert_eq!(turn.output, vec![line("paused: a")]);
    let w = waiting(turn);
    assert_eq!(w.call, ThunderClient::pause("b"));
    let turn = w.replied(Ok(Reply::Failed(vec![s("down"), s("deeper")])));
    assert_eq!(
        turn.output,
        vec![Output::ErrLine(s("failed on b: PATCH drive/v1/task failed"))]
    );
    let w = waiting(turn);
    assert_eq!(w.call, ThunderClient::pause("c"));
    assert_eq!(finished(w.replied(reply(""))), (vec![line("paused: c")], Ok(())));
}

#[test]
fn tasks_are_resumed() {
    let w = waiting(connect(false, DlCommand::Resume { ids: vec![s("a")] }));
    assert_eq!(w.call, ThunderClient::resume("a"));
    assert_eq!(finished(w.replied(reply(""))), (vec![line("resumed: a")], Ok(())));
}

#[test]
fn tasks_are_removed_on_command() {
    let ids = vec![s("a"), s("b")];
    let args = RmArgs { ids: ids.clone(), delete_files: true };
    let w = waiting(connect(false, DlCommand::Rm(args)));
    assert_eq!(Some(&w.call), ThunderClient::remove(&ids, true).as_ref());
    assert_eq!(finished(w.replied(reply(""))), (vec![line("Removed 2 task(s).")], Ok(())));
}

#[test]
fn without_ids_nothing_is_sent() {
    let commands = [
        DlCommand::Pause { ids: vec![] },
        DlCommand::Resume { ids: vec![] },
        DlCommand::Rm(RmArgs { ids: vec![], delete_files: true }),
    ];
    for command in commands {
        assert_eq!(finished(connect(false, command)), (vec![], Err(DlError::NoIds)));
    }
    assert_eq!(DlError::NoIds.chain(), vec![s("no task ids given")]);
}

fn raw(json: bool, method: &str, body: Option<&str>) -> Turn {
    connect(
        json,
        DlCommand::Raw(RawArgs {
            method: s(method),
            path: s("drive/v1/tasks"),
            body: body.map(s),
        }),
    )
}

#[test]
fn raw_requests_are_sent() {
    let w = waiting(raw(true, "get", None));
    assert_eq!(w.call, ThunderClient::request("GET", "drive/v1/tasks", None));
    assert_eq!(finished(w.replied(reply("{\"a\": [1]}"))).0, vec![line("{\"a\":[1]}")]);
    let w = waiting(raw(false, "Post", Some(" {\"a\" : 1} ")));
    assert_eq!(w.call.method, "POST");
    assert_eq!(w.call.body, Some(s("{\"a\":1}")));
    assert_eq!(finished(w.replied(reply("{\"a\":1}"))).0, vec![line("{\n  \"a\": 1\n}")]);
    let w = waiting(raw(false, "delete", None));
    assert_eq!(finished(w.replied(reply("  "))).0, vec![line("null")]);
    assert_eq!(waiting(raw(false, "straße", None)).call.method, "STRASSE");
}

#[test]
fn raw_bodies_must_be_json() {
    let (_, r) = finished(raw(false, "POST", Some("{")));
    assert_eq!(
        r.unwrap_err().chain(),
        vec![s("--body is not valid JSON"), parse_json("{").unwrap_err()]
    );
    let turn = raw_request(false, "put", "p", Some(Err(s("why"))));
    assert_eq!(finished(turn).1, Err(DlError::BadBody(s("why"))));
    let w = waiting(raw_request(false, "put", "p", Some(Ok(Json::Null))));
    assert_eq!(w.call, ThunderClient::request("PUT", "p", Some(Json::Null)));
}

#[test]
fn torrent_files_have_a_workaround() {
    assert_eq!(
        DlError::TorrentFile.chain(),
        vec![s("uploading .torrent files is not yet wired up (needs a confirmed upload route).\nWorkaround: use the magnet link instead, or drop the .torrent into the panel once to confirm the route.")]
    );
}
