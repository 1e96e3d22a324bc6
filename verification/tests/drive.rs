use thunder::api::{ApiCall, ClientError, HttpRequest, Payload, Reply};
use thunder::client::ThunderClient;
use thunder::drive::{
    accepted, add_reply, cloud_file_link_reply, cloud_files_reply, device_now_reply, list_reply,
    now_of, resolve_reply, resolved_of, selected_size, sub_file_index,
};
use thunder::json::{parse_json, Json};
use thunder::model::{
    collect_leaves, json_to_cloud_file, json_to_task, read_files, resource_to_file, CloudFile,
    Resolved, ResolvedFile, Task,
};
use thunder::walk::Walk;

fn parsed(text: &str) -> Json {
    parse_json(text).unwrap()
}

fn file(index: i64, name: &str, size: i64) -> ResolvedFile {
    ResolvedFile { index, name: name.to_string(), size, is_dir: false }
}

fn torrent() -> Resolved {
    Resolved {
        list_id: "L".to_string(),
        name: "Title".to_string(),
        total_size: 60,
        files: vec![file(0, "a", 10), file(3, "b", 20), file(5, "c", 30)],
    }
}

fn call(method: &str, path: &str, body: Option<&str>) -> ApiCall {
    ApiCall {
        method: method.to_string(),
        path: path.to_string(),
        body: body.map(|b| b.to_string()),
        with_token: true,
    }
}

fn text(s: &str) -> Reply {
    Reply::Text(s.to_string())
}

const TREE: &str = r#"{
  "list_id": "L1",
  "list": { "resources": [
    { "name": "Top", "is_dir": true, "dir": { "resources": [
      { "name": "a.mkv", "file_index": 0, "file_size": "1000", "is_dir": false },
      { "name": "junk", "is_dir": true, "dir": { "resources": [
        { "name": "b.txt", "file_index": "1", "file_size": 5 }
      ] } },
      { "name": "empty", "is_dir": true },
      { "name": "c.srt", "file_index": 2, "file_size": " 7 " }
    ] } }
  ] }
}"#;

#[test]
fn the_device_time_is_asked_for_without_token() {
    let now = ThunderClient::device_now();
    assert_eq!(
        now,
        ApiCall {
            method: "GET".to_string(),
            path: "device/now".to_string(),
            body: None,
            with_token: false,
        }
    );
    assert_eq!(device_now_reply(&now, text("{\"now\": 17}")), Ok(17));
    assert_eq!(device_now_reply(&now, text("{\"now\": \"17\"}")), Ok(17));
    assert_eq!(
        device_now_reply(&now, text("{\"then\": 1}")),
        Err(ClientError::NoNow("{\"then\":1}".to_string()))
    );
    assert_eq!(now_of(Json::Null), Err(ClientError::NoNow("null".to_string())));
    assert!(matches!(device_now_reply(&now, text("x")), Err(ClientError::NotJson { .. })));
}

#[test]
fn a_link_is_resolved() {
    let c = ThunderClient::resolve("magnet:?xt=\"1\"");
    assert_eq!(c.method, "POST");
    assert_eq!(c.path, "drive/v1/resource/list");
    assert!(c.with_token);
    let body = parsed(c.body.as_ref().unwrap());
    assert_eq!(body.text_of("urls"), "magnet:?xt=\"1\"");
    assert_eq!(body.integer_of("page_size"), 2000);
    assert_eq!(body.integer_of("max_file_count"), 2000);
    assert_eq!(body.get("thumbnail_type").unwrap().as_str(), Some(""));
}

#[test]
fn a_tree_is_flattened_to_its_files() {
    let c = ThunderClient::resolve("magnet:x");
    assert_eq!(
        resolve_reply(&c, text(TREE)),
        Ok(Resolved {
            list_id: "L1".to_string(),
            name: "Top".to_string(),
            total_size: 1012,
            files: vec![file(0, "a.mkv", 1000), file(1, "b.txt", 5), file(2, "c.srt", 7)],
        })
    );
}

#[test]
fn leaves_of_two_lists_come_in_order() {
    let a = parsed("[{\"name\":\"1\"},{\"is_dir\":true}]");
    let b = parsed("[{\"name\":\"2\"}]");
    let mut out = Vec::new();
    collect_leaves(a.as_array().unwrap(), &mut out);
    collect_leaves(b.as_array().unwrap(), &mut out);
    assert_eq!(out, vec![file(0, "1", 0), file(0, "2", 0)]);
}

#[test]
fn what_holds_no_leaf_is_a_file_itself() {
    let v = parsed("{\"list\":{\"resources\":[{\"name\":\"d\",\"is_dir\":true,\"file_size\":9}]}}");
    assert_eq!(
        read_files(&v),
        vec![ResolvedFile { index: 0, name: "d".to_string(), size: 9, is_dir: true }]
    );
    assert_eq!(read_files(&parsed("{\"list\":{\"resources\":[]}}")), vec![]);
    assert_eq!(read_files(&parsed("{}")), vec![]);
    assert_eq!(
        resolved_of(&Json::Null),
        Ok(Resolved {
            list_id: String::new(),
            name: String::new(),
            total_size: 0,
            files: vec![],
        })
    );
    assert_eq!(resource_to_file(&Json::Null), file(0, "", 0));
}

#[test]
fn sizes_that_do_not_add_up_are_refused() {
    let v = parsed(
        "{\"list\":{\"resources\":[{\"file_size\":9223372036854775807},{\"file_size\":1}]}}",
    );
    assert_eq!(resolved_of(&v), Err(ClientError::SizeOverflow));
}

#[test]
fn resolving_fails_as_its_call_does() {
    let c = ThunderClient::resolve("magnet:x");
    let reply = Reply::Status { code: 500, body: "e".to_string(), causes: vec!["c".to_string()] };
    assert_eq!(
        resolve_reply(&c, reply),
        Err(ClientError::Api { code: 500, body: "e".to_string() })
    );
}

#[test]
fn indices_are_listed_with_commas() {
    assert_eq!(sub_file_index(&vec![0, 3, 5]), "0,3,5");
    assert_eq!(sub_file_index(&vec![-1]), "-1");
    assert_eq!(sub_file_index(&vec![]), "");
}

#[test]
fn the_selected_size_is_that_of_the_selected_files() {
    let r = torrent();
    assert_eq!(selected_size(&r, &vec![]), Some(60));
    assert_eq!(selected_size(&r, &vec![0, 5]), Some(40));
    assert_eq!(selected_size(&r, &vec![5, 5]), Some(30));
    assert_eq!(selected_size(&r, &vec![7]), Some(0));
    assert_eq!(selected_size(&r, &vec![0, 3, 5]), Some(60));
    let big = Resolved {
        files: vec![file(0, "a", i64::MAX), file(1, "b", 1)],
        ..torrent()
    };
    assert_eq!(selected_size(&big, &vec![0, 1]), None);
    assert_eq!(selected_size(&big, &vec![1]), Some(1));
}

#[test]
fn a_task_is_created() {
    let c = ThunderClient::add("magnet:x", &torrent(), Some("own"), "folder", &vec![0, 3]).unwrap();
    assert_eq!(
        c,
        call(
            "POST",
            "drive/v1/task",
            Some(concat_body(
                "{\"file_size\":\"30\",\"name\":\"own\",",
                "\"params\":{\"mime_type\":\"\",\"parent_folder_id\":\"folder\",\"sub_file_index\":\"0,3\",\"total_file_count\":\"3\",\"url\":\"magnet:x\"},",
                "\"space\":\"\",\"type\":\"user#download\"}",
            ).as_str()),
        )
    );
}

fn concat_body(a: &str, b: &str, c: &str) -> String {
    format!("{a}{b}{c}")
}

#[test]
fn a_task_has_the_name_of_its_link_by_default() {
    for name in [None, Some("")] {
        let c = ThunderClient::add("u", &torrent(), name, "", &vec![]).unwrap();
        let body = parsed(c.body.as_ref().unwrap());
        assert_eq!(body.text_of("name"), "Title");
        assert_eq!(body.text_of("file_size"), "60");
        assert_eq!(body.get("params").unwrap().text_of("sub_file_index"), "");
    }
}

#[test]
fn a_task_that_is_too_large_is_not_created() {
    let big = Resolved {
        files: vec![file(0, "a", i64::MAX), file(1, "b", 1)],
        ..torrent()
    };
    assert_eq!(ThunderClient::add("u", &big, None, "", &vec![0, 1]), None);
    assert!(ThunderClient::add("u", &big, None, "", &vec![]).is_some());
}

#[test]
fn a_new_task_has_an_id_or_none() {
    let c = ThunderClient::add("u", &torrent(), None, "", &vec![]).unwrap();
    assert_eq!(add_reply(&c, text("{\"task\":{\"id\":\"T\"}}")), Ok("T".to_string()));
    assert_eq!(add_reply(&c, text("{\"task\":{\"id\":5}}")), Ok(String::new()));
    assert_eq!(add_reply(&c, text("")), Ok(String::new()));
    assert!(add_reply(&c, Reply::Failed(vec!["x".to_string()])).is_err());
}

#[test]
fn tasks_are_listed() {
    assert_eq!(
        ThunderClient::list(false, 100),
        call("GET", "drive/v1/tasks?space=&type=user%23download&limit=100", None)
    );
    assert_eq!(
        ThunderClient::list(true, 5),
        call(
            "GET",
            "drive/v1/tasks?space=&type=user%23download&limit=5&filters=%7B%22phase%22%3A%7B%22in%22%3A%22PHASE_TYPE_PENDING%2CPHASE_TYPE_RUNNING%22%7D%7D",
            None,
        )
    );
}

#[test]
fn tasks_are_read() {
    let c = ThunderClient::list(false, 1);
    let reply = text(
        r#"{"tasks":[{"id":"1","name":"n","file_size":"9","progress":50,
            "phase":"PHASE_TYPE_RUNNING","params":{"download_speed":"77"},"message":"m"},{}]}"#,
    );
    let tasks = list_reply(&c, reply).unwrap();
    assert_eq!(
        tasks[0],
        Task {
            id: "1".to_string(),
            name: "n".to_string(),
            file_size: 9,
            progress: 50,
            phase: "PHASE_TYPE_RUNNING".to_string(),
            speed: 77,
            message: "m".to_string(),
        }
    );
    assert_eq!(tasks[0].phase_label(), "RUNNING");
    assert_eq!(tasks[1], json_to_task(&Json::Null));
    assert_eq!(tasks[1].phase_label(), "");
    assert_eq!(tasks.len(), 2);
    assert_eq!(list_reply(&c, text("{\"tasks\":{}}")), Ok(vec![]));
    assert_eq!(
        list_reply(&c, Reply::Unread(vec!["x".to_string()])),
        Err(ClientError::Unread(vec!["x".to_string()]))
    );
}

#[test]
fn a_phase_without_prefix_is_its_own_label() {
    let mut t = json_to_task(&Json::Null);
    t.phase = "DONE".to_string();
    assert_eq!(t.phase_label(), "DONE");
    t.phase = "PHASE_TYPE_PHASE_TYPE_X".to_string();
    assert_eq!(t.phase_label(), "PHASE_TYPE_X");
}

#[test]
fn tasks_are_paused_and_resumed() {
    let body = |phase: &str| {
        format!("{{\"id\":\"t\\\"1\",\"set_params\":{{\"spec\":\"{{\\\"phase\\\":\\\"{phase}\\\"}}\"}},\"space\":\"\",\"type\":\"user#download\"}}")
    };
    assert_eq!(
        ThunderClient::pause("t\"1"),
        call("PATCH", "drive/v1/task", Some(body("pause").as_str()))
    );
    assert_eq!(
        ThunderClient::resume("t\"1"),
        call("PATCH", "drive/v1/task", Some(body("running").as_str()))
    );
    let odd = ThunderClient::operate("1", "a\"b");
    let sent = parsed(odd.body.as_ref().unwrap());
    let inner = parsed(&sent.get("set_params").unwrap().text_of("spec"));
    assert_eq!(inner.text_of("phase"), "a\"b");
    assert_eq!(accepted(&odd, text("")), Ok(()));
    assert!(accepted(&odd, Reply::Failed(vec!["x".to_string()])).is_err());
}

#[test]
fn tasks_are_removed() {
    let ids = vec!["a&b".to_string(), "版".to_string()];
    assert_eq!(
        ThunderClient::remove(&ids, false),
        Some(call("DELETE", "drive/v1/tasks?space=&task_ids=a%26b&task_ids=%E7%89%88", None))
    );
    assert_eq!(
        ThunderClient::remove(&ids, true).unwrap().path,
        "drive/v1/tasks?space=&task_ids=a%26b&task_ids=%E7%89%88&delete_files=true"
    );
    assert_eq!(ThunderClient::remove(&vec![], true), None);
}

#[test]
fn a_delete_call_names_every_task() {
    let ids = vec!["&x=1".to_string(), "#".to_string(), "".to_string()];
    let path = ThunderClient::remove(&ids, true).unwrap().path;
    let pieces: Vec<&str> = path.split('&').collect();
    assert_eq!(
        pieces,
        vec![
            "drive/v1/tasks?space=",
            "task_ids=%26x%3D1",
            "task_ids=%23",
            "task_ids=",
            "delete_files=true",
        ]
    );
}

#[test]
fn cloud_folders_are_listed() {
    let c = ThunderClient::cloud_files("a/b c~", 200);
    assert_eq!(c, call("GET", "drive/v1/files?space=&parent_id=a%2Fb%20c~&limit=200", None));
    let reply = text(
        r#"{"files":[{"id":"1","name":"d","kind":"drive#folder"},
            {"id":"2","name":"f","kind":"drive#file","size":"12"}]}"#,
    );
    assert_eq!(
        cloud_files_reply(&c, reply),
        Ok(vec![
            CloudFile { id: "1".to_string(), name: "d".to_string(), size: 0, is_dir: true },
            CloudFile { id: "2".to_string(), name: "f".to_string(), size: 12, is_dir: false },
        ])
    );
    assert_eq!(cloud_files_reply(&c, text("{}")), Ok(vec![]));
    assert_eq!(json_to_cloud_file(&Json::Null).is_dir, false);
}

#[test]
fn a_cloud_file_has_a_link() {
    let c = ThunderClient::cloud_file_link("f1");
    assert_eq!(c, call("GET", "drive/v1/files/f1?space=", None));
    assert_eq!(
        cloud_file_link_reply(&c, text("{\"web_content_link\":\"https://x\"}"), "f1"),
        Ok("https://x".to_string())
    );
    assert_eq!(
        cloud_file_link_reply(&c, text("{}"), "f1"),
        Err(ClientError::NoLink("f1".to_string()))
    );
    assert!(cloud_file_link_reply(&c, Reply::Failed(vec!["x".to_string()]), "f1").is_err());
    assert_eq!(
        ThunderClient::download_to("https://x"),
        HttpRequest {
            method: "GET".to_string(),
            url: "https://x".to_string(),
            headers: vec![],
            body: Payload::Empty,
            follow_redirects: true,
        }
    );
}

fn entry(id: &str, name: &str, is_dir: bool) -> CloudFile {
    CloudFile { id: id.to_string(), name: name.to_string(), size: 1, is_dir }
}

/// Walks through a drive that holds what `contents` says, and brings no more of a folder
/// than is asked for.
fn walked(start: Walk, contents: fn(&str) -> Vec<CloudFile>) -> Vec<(String, CloudFile)> {
    let mut walk = start;
    while let Some(c) = walk.next() {
        let rest = c.path.strip_prefix("drive/v1/files?space=&parent_id=").unwrap();
        let (id, limit) = rest.split_once("&limit=").unwrap();
        let limit = limit.parse::<usize>().unwrap();
        walk.feed(Ok(contents(id).into_iter().take(limit).collect()));
    }
    walk.into_found()
}

fn drive(id: &str) -> Vec<CloudFile> {
    match id {
        "root" => vec![
            entry("a", "a.txt", false),
            entry("d1", "d1", true),
            entry("z", "z.txt", false),
        ],
        "d1" => vec![entry("d2", "d2", true), entry("b", "b.txt", false)],
        "d2" => vec![entry("c", "c.txt", false)],
        _ => vec![],
    }
}

#[test]
fn a_walk_finds_every_file_in_order() {
    let found = walked(ThunderClient::cloud_walk("root", ""), drive);
    let paths: Vec<&str> = found.iter().map(|f| f.0.as_str()).collect();
    assert_eq!(paths, vec!["a.txt", "d1/d2/c.txt", "d1/b.txt", "z.txt"]);
    let found = walked(ThunderClient::cloud_walk("d1", "top"), drive);
    let paths: Vec<&str> = found.iter().map(|f| f.0.as_str()).collect();
    assert_eq!(paths, vec!["top/d2/c.txt", "top/b.txt"]);
    assert_eq!(found[1].1, entry("b", "b.txt", false));
}

#[test]
fn a_walk_from_a_file_finds_it() {
    let lone = |id: &str, name: &str| {
        vec![(
            name.to_string(),
            CloudFile { id: id.to_string(), name: name.to_string(), size: 0, is_dir: false },
        )]
    };
    assert_eq!(walked(ThunderClient::cloud_walk("f", ""), drive), lone("f", "f"));
    assert_eq!(walked(ThunderClient::cloud_walk("f", "name"), drive), lone("f", "name"));
}

#[test]
fn an_empty_folder_holds_no_file() {
    fn one_empty(id: &str) -> Vec<CloudFile> {
        match id {
            "root" => vec![entry("e", "E", true)],
            _ => vec![],
        }
    }
    assert_eq!(walked(ThunderClient::cloud_walk("root", "d"), one_empty), vec![]);
    fn between(id: &str) -> Vec<CloudFile> {
        match id {
            "root" => vec![entry("a", "a", false), entry("e", "E", true), entry("z", "z", false)],
            _ => vec![],
        }
    }
    let found = walked(ThunderClient::cloud_walk("root", ""), between);
    let paths: Vec<&str> = found.iter().map(|f| f.0.as_str()).collect();
    assert_eq!(paths, vec!["a", "z"]);
}

fn numbered(count: usize) -> Vec<CloudFile> {
    (0..count).map(|n| entry(&n.to_string(), &format!("f{n}"), false)).collect()
}

#[test]
fn folders_of_any_size_are_found_whole() {
    fn sized(id: &str) -> Vec<CloudFile> {
        match id.strip_prefix("n") {
            Some(count) => numbered(count.parse::<usize>().unwrap()),
            None => vec![entry("n450", "big", true), entry("x", "x", false)],
        }
    }
    for count in [1, 199, 200, 201, 400, 401, 5000] {
        let found = walked(ThunderClient::cloud_walk(&format!("n{count}"), "d"), sized);
        assert_eq!(found.len(), count);
        assert_eq!(found[count - 1].0, format!("d/f{}", count - 1));
    }
    let found = walked(ThunderClient::cloud_walk("root", ""), sized);
    assert_eq!(found.len(), 451);
    assert_eq!(found[449].0, "big/f449");
    assert_eq!(found[450].0, "x");
}

#[test]
fn a_full_listing_is_asked_for_again() {
    let mut walk = ThunderClient::cloud_walk("f", "");
    assert_eq!(walk.next(), Some(ThunderClient::cloud_files("f", 200)));
    walk.feed(Ok(numbered(200)));
    assert_eq!(walk.next(), Some(ThunderClient::cloud_files("f", 400)));
    walk.feed(Ok(numbered(200)));
    assert_eq!(walk.next(), None);
    assert_eq!(walk.into_found().len(), 200);
}

#[test]
fn a_larger_listing_takes_nothing_away() {
    for fewer in [0, 1, 199] {
        let mut walk = ThunderClient::cloud_walk("f", "");
        walk.feed(Ok(numbered(200)));
        walk.feed(Ok(numbered(fewer)));
        assert_eq!(walk.next(), None);
        assert_eq!(walk.into_found().len(), 200);
    }
    // Nor does one that is full, though shorter than one before.
    let mut walk = ThunderClient::cloud_walk("f", "");
    walk.feed(Ok(numbered(500)));
    walk.feed(Ok(numbered(400)));
    assert_eq!(walk.next(), Some(ThunderClient::cloud_files("f", 800)));
    walk.feed(Ok(vec![]));
    assert_eq!(walk.into_found().len(), 500);
}

#[test]
fn a_listing_that_fails_brings_nothing_new() {
    let mut walk = ThunderClient::cloud_walk("f", "n");
    walk.feed(Err(ClientError::NoToken));
    assert_eq!(walk.next(), None);
    assert_eq!(walk.into_found()[0].0, "n");
    // A folder that cannot be listed is found under its own path.
    let mut walk = ThunderClient::cloud_walk("f", "n");
    walk.feed(Ok(vec![entry("d", "D", true), entry("z", "z", false)]));
    walk.feed(Err(ClientError::NoToken));
    assert_eq!(walk.next(), None);
    let lone = CloudFile { id: "d".to_string(), name: "n/D".to_string(), size: 0, is_dir: false };
    assert_eq!(
        walk.into_found(),
        vec![("n/D".to_string(), lone), ("n/z".to_string(), entry("z", "z", false))]
    );
    // What was listed before stays known.
    let mut walk = ThunderClient::cloud_walk("f", "n");
    walk.feed(Ok(numbered(200)));
    walk.feed(Err(ClientError::NoToken));
    assert_eq!(walk.next(), None);
    assert_eq!(walk.into_found().len(), 200);
}

#[test]
fn values_are_percent_encoded() {
    // Every byte but letters, digits and four marks becomes `%XX`.
    for n in 0..0x800u32 {
        if let Some(c) = char::from_u32(n) {
            let id = c.to_string();
            let path = ThunderClient::cloud_files(&id, 0).path;
            let mut expected = String::new();
            for b in id.bytes() {
                if b.is_ascii_alphanumeric() || b == b'-' || b == b'.' || b == b'_' || b == b'~' {
                    expected.push(b as char);
                } else {
                    expected.push_str(&format!("%{b:02X}"));
                }
            }
            assert_eq!(path, format!("drive/v1/files?space=&parent_id={expected}&limit=0"));
        }
    }
}
