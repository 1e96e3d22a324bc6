//! The operations of the drive API: what each one asks for, and what the answer to
//! it says.

use vstd::prelude::*;

use crate::api::{
    ApiCall, ApiCallView, ClientError, ErrorView, HttpRequest, HttpRequestView, Payload, PayloadView,
    Reply,
};
use crate::client::{response, ThunderClient, ACTIVE_FILTERS, SPACE, TASK_TYPE};
use crate::encode::url_encode;
use crate::json::{compact, with_field, with_text, Json, JsonView};
use crate::model::{
    read_cloud_files, read_now, read_resolved, read_task_id, read_tasks, total_size, CloudFile,
    FileView, Resolved, ResolvedFile, ResolvedView, Task,
};
use crate::number::{signed_text, unsigned_text};
use crate::text::join_with;

verus! {

/// A call that carries the token.
pub open spec fn token_call(
    method: Seq<char>,
    path: Seq<char>,
    body: Option<Seq<char>>,
) -> ApiCallView {
    ApiCallView { method, path, body, with_token: true }
}

/// The body of a call is JSON for `v`, provided that `v` is plain enough to be read
/// back.
pub open spec fn sends(call: ApiCallView, v: JsonView) -> bool {
    crate::json::plain(v, crate::json::NESTING as nat) ==> call.body is Some
        && crate::json::reads_as(call.body->0, v)
}

/// The call for the device's time.
pub open spec fn device_now_call() -> ApiCallView {
    ApiCallView { method: "GET"@, path: "device/now"@, body: None, with_token: false }
}

/// What a resolve request says.
pub open spec fn resolve_body(url: Seq<char>) -> JsonView {
    JsonView::Object(
        Map::<Seq<char>, JsonView>::empty().insert("urls"@, JsonView::Str(url)).insert(
            "page_size"@,
            JsonView::Int(2000),
        ).insert("thumbnail_type"@, JsonView::Str(""@)).insert(
            "max_file_count"@,
            JsonView::Int(2000),
        ),
    )
}

/// The call that resolves a link.
pub open spec fn resolve_call(url: Seq<char>) -> ApiCallView {
    token_call(
        "POST"@,
        "drive/v1/resource/list"@,
        Some(crate::json::json_text(resolve_body(url))),
    )
}

/// The indices in decimal, with commas between them.
pub open spec fn index_list(indices: Seq<i64>) -> Seq<char> {
    crate::text::join(indices.map_values(|i: i64| crate::number::decimal(i as int)), ","@)
}

/// The files whose index is among `indices`.
pub open spec fn selected(files: Seq<FileView>, indices: Seq<i64>) -> Seq<FileView> {
    files.filter(|f: FileView| indices.contains(f.index))
}

/// Whether the size of the selected files can be told.
pub open spec fn selection_fits(resolved: ResolvedView, indices: Seq<i64>) -> bool {
    indices.len() == 0 || crate::model::sizes_fit(selected(resolved.files, indices))
}

/// The size of the selected files; none selected means all.
pub open spec fn selected_total(resolved: ResolvedView, indices: Seq<i64>) -> int {
    if indices.len() == 0 {
        resolved.total_size as int
    } else {
        crate::model::size_sum(selected(resolved.files, indices))
    }
}

/// The name of a new task: the one that was asked for, or the link's own.
pub open spec fn task_name(resolved: ResolvedView, name: Option<Seq<char>>) -> Seq<char> {
    match name {
        Some(s) => if s.len() > 0 {
            s
        } else {
            resolved.name
        },
        None => resolved.name,
    }
}

/// The parameters of a new task. All of them are strings, even numeric ones.
pub open spec fn add_params(
    url: Seq<char>,
    resolved: ResolvedView,
    parent_folder_id: Seq<char>,
    indices: Seq<i64>,
) -> JsonView {
    JsonView::Object(
        Map::<Seq<char>, JsonView>::empty().insert("url"@, JsonView::Str(url)).insert(
            "parent_folder_id"@,
            JsonView::Str(parent_folder_id),
        ).insert(
            "total_file_count"@,
            JsonView::Str(crate::number::decimal(resolved.files.len() as int)),
        ).insert("sub_file_index"@, JsonView::Str(index_list(indices))).insert(
            "mime_type"@,
            JsonView::Str(""@),
        ),
    )
}

/// What a create request says.
pub open spec fn add_body(
    url: Seq<char>,
    resolved: ResolvedView,
    name: Option<Seq<char>>,
    parent_folder_id: Seq<char>,
    indices: Seq<i64>,
) -> JsonView {
    JsonView::Object(
        Map::<Seq<char>, JsonView>::empty().insert("type"@, JsonView::Str(TASK_TYPE@)).insert(
            "name"@,
            JsonView::Str(task_name(resolved, name)),
        ).insert(
            "file_size"@,
            JsonView::Str(crate::number::decimal(selected_total(resolved, indices))),
        ).insert("space"@, JsonView::Str(SPACE@)).insert(
            "params"@,
            add_params(url, resolved, parent_folder_id, indices),
        ),
    )
}

/// The call that creates a task.
pub open spec fn add_call(
    url: Seq<char>,
    resolved: ResolvedView,
    name: Option<Seq<char>>,
    parent_folder_id: Seq<char>,
    indices: Seq<i64>,
) -> ApiCallView {
    token_call(
        "POST"@,
        "drive/v1/task"@,
        Some(
            crate::json::json_text(add_body(url, resolved, name, parent_folder_id, indices)),
        ),
    )
}

/// The call that lists a cloud folder.
pub open spec fn cloud_files_call(parent_id: Seq<char>, limit: u32) -> ApiCallView {
    token_call(
        "GET"@,
        "drive/v1/files?space="@ + crate::encode::url_encoded(SPACE@) + "&parent_id="@
            + crate::encode::url_encoded(parent_id) + "&limit="@ + crate::number::decimal(
            limit as int,
        ),
        None,
    )
}

/// The call for a cloud file's link.
pub open spec fn cloud_file_link_call(file_id: Seq<char>) -> ApiCallView {
    token_call(
        "GET"@,
        "drive/v1/files/"@ + file_id + "?space="@ + crate::encode::url_encoded(SPACE@),
        None,
    )
}

/// The call that lists tasks.
pub open spec fn list_call(only_active: bool, limit: u32) -> ApiCallView {
    let all = "drive/v1/tasks?space="@ + crate::encode::url_encoded(SPACE@) + "&type="@
        + crate::encode::url_encoded(TASK_TYPE@) + "&limit="@ + crate::number::decimal(
        limit as int,
    );
    token_call(
        "GET"@,
        if only_active {
            all + "&filters="@ + crate::encode::url_encoded(ACTIVE_FILTERS@)
        } else {
            all
        },
        None,
    )
}

/// What a request to change a task says. Note the double JSON encoding: `spec` is a
/// JSON *string*.
pub open spec fn operate_body(id: Seq<char>, spec_text: Seq<char>) -> JsonView {
    JsonView::Object(
        Map::<Seq<char>, JsonView>::empty().insert("id"@, JsonView::Str(id)).insert(
            "space"@,
            JsonView::Str(SPACE@),
        ).insert("type"@, JsonView::Str(TASK_TYPE@)).insert(
            "set_params"@,
            JsonView::Object(
                Map::<Seq<char>, JsonView>::empty().insert("spec"@, JsonView::Str(spec_text)),
            ),
        ),
    )
}

/// The call that changes a task.
pub open spec fn operate_call(id: Seq<char>, spec_text: Seq<char>) -> ApiCallView {
    token_call(
        "PATCH"@,
        "drive/v1/task"@,
        Some(crate::json::json_text(operate_body(id, spec_text))),
    )
}

/// The ids, each as a parameter of its own.
pub open spec fn id_params(ids: Seq<Seq<char>>) -> Seq<char>
    decreases ids.len(),
{
    if ids.len() == 0 {
        Seq::empty()
    } else {
        id_params(ids.drop_last()) + "&task_ids="@ + crate::encode::url_encoded(ids.last())
    }
}

/// The call that deletes tasks.
pub open spec fn remove_call(ids: Seq<Seq<char>>, delete_files: bool) -> ApiCallView {
    let path = "drive/v1/tasks?space="@ + crate::encode::url_encoded(SPACE@) + id_params(ids);
    token_call(
        "DELETE"@,
        if delete_files {
            path + "&delete_files=true"@
        } else {
            path
        },
        None,
    )
}

fn tokened(method: &str, path: String, body: Option<String>) -> (call: ApiCall)
    ensures
        call@ == token_call(method@, path@, crate::api::opt_text(body)),
{
    ApiCall { method: method.to_string(), path, body, with_token: true }
}

/// The files whose index is among `indices`.
fn select(files: &Vec<ResolvedFile>, indices: &Vec<i64>) -> (chosen: Vec<ResolvedFile>)
    ensures
        crate::model::files_view(chosen@) == selected(crate::model::files_view(files@), indices@),
{
    let ghost all = crate::model::files_view(files@);
    let ghost wanted = |f: FileView| indices@.contains(f.index);
    let mut chosen: Vec<ResolvedFile> = Vec::new();
    let n = files.len();
    let mut i: usize = 0;
    assert(all.take(0).filter(wanted) =~= Seq::<FileView>::empty()) by {
        reveal(Seq::filter);
    }
    assert(crate::model::files_view(chosen@) =~= Seq::<FileView>::empty());
    while i < n
        invariant
            n == files@.len(),
            all == crate::model::files_view(files@),
            wanted == |f: FileView| indices@.contains(f.index),
            i <= n,
            crate::model::files_view(chosen@) == all.take(i as int).filter(wanted),
        decreases n - i,
    {
        let file = &files[i];
        let ghost before = crate::model::files_view(chosen@);
        if holds_index(indices, file.index) {
            let copy = ResolvedFile {
                index: file.index,
                name: file.name.clone(),
                size: file.size,
                is_dir: file.is_dir,
            };
            chosen.push(copy);
            assert(crate::model::files_view(chosen@) =~= before.push(file@));
        }
        proof {
            reveal(Seq::filter);
            assert(all.take(i + 1).drop_last() =~= all.take(i as int));
            assert(all.take(i + 1).last() == file@);
        }
        i = i + 1;
    }
    assert(all.take(n as int) =~= all);
    chosen
}

/// Whether `index` is among `indices`.
fn holds_index(indices: &Vec<i64>, index: i64) -> (found: bool)
    ensures
        found == indices@.contains(index),
{
    let n = indices.len();
    let mut i: usize = 0;
    while i < n
        invariant
            n == indices@.len(),
            i <= n,
            forall|k: int| 0 <= k < i ==> indices@[k] != index,
        decreases n - i,
    {
        if indices[i] == index {
            return true;
        }
        i = i + 1;
    }
    false
}

/// The indices in decimal, with commas between them.
pub fn sub_file_index(indices: &Vec<i64>) -> (list: String)
    ensures
        list@ == index_list(indices@),
{
    let mut parts: Vec<String> = Vec::new();
    let n = indices.len();
    let mut i: usize = 0;
    while i < n
        invariant
            n == indices@.len(),
            i <= n,
            parts@.len() == i,
            forall|k: int|
                0 <= k < i ==> (#[trigger] parts@[k])@ == crate::number::decimal(
                    indices@[k] as int,
                ),
        decreases n - i,
    {
        parts.push(signed_text(indices[i]));
        i = i + 1;
    }
    assert(crate::text::texts(parts@) =~= indices@.map_values(
        |i: i64| crate::number::decimal(i as int),
    ));
    join_with(&parts, ",")
}

/// The size of the selected files, where it can be told; none selected means all.
pub fn selected_size(resolved: &Resolved, indices: &Vec<i64>) -> (size: Option<i64>)
    ensures
        size is Some <==> selection_fits(resolved@, indices@),
        size matches Some(n) ==> n == selected_total(resolved@, indices@),
{
    if indices.len() == 0 {
        Some(resolved.total_size)
    } else {
        total_size(&select(&resolved.files, indices))
    }
}

impl ThunderClient {
    /// A request against an API path, with the token.
    ///
    /// `path` is relative to the CGI prefix (e.g. `drive/v1/tasks`). `body`, when
    /// `Some`, is sent as a JSON request body.
    pub fn request(method: &str, path: &str, body: Option<Json>) -> (call: ApiCall)
        ensures
            call@ == token_call(
                method@,
                path@,
                match body {
                    Some(j) => Some(crate::json::json_text(j@)),
                    None => None,
                },
            ),
            body matches Some(j) ==> sends(call@, j@),
    {
        let text = match body {
            Some(j) => Some(compact(j)),
            None => None,
        };
        tokened(method, path.to_string(), text)
    }

    /// Like [`ThunderClient::request`] but without the `pan-auth` token — used for
    /// bootstrap/connectivity endpoints (e.g. `device/now`) that are on the engine's
    /// local whitelist and must work before login.
    pub fn request_no_auth(method: &str, path: &str, body: Option<Json>) -> (call: ApiCall)
        ensures
            call@ == (ApiCallView {
                method: method@,
                path: path@,
                body: match body {
                    Some(j) => Some(crate::json::json_text(j@)),
                    None => None,
                },
                with_token: false,
            }),
            body matches Some(j) ==> sends(call@, j@),
    {
        let text = match body {
            Some(j) => Some(compact(j)),
            None => None,
        };
        ApiCall { method: method.to_string(), path: path.to_string(), body: text, with_token: false }
    }

    /// GET device/now → server unix time (seconds). Also the cheapest way to confirm
    /// connectivity + that the engine is up. Whitelisted (no token).
    pub fn device_now() -> (call: ApiCall)
        ensures
            call@ == device_now_call(),
    {
        Self::request_no_auth("GET", "device/now", None)
    }

    /// Resolve a magnet / http(s) URL into its file list.
    /// POST drive/v1/resource/list (requires the pan-auth token).
    pub fn resolve(url: &str) -> (call: ApiCall)
        ensures
            call@ == resolve_call(url@),
            crate::json::reads_as(call@.body->0, resolve_body(url@)),
    {
        proof {
            reveal_with_fuel(crate::json::plain, 2);
            reveal_strlit("urls");
            reveal_strlit("page_size");
            reveal_strlit("thumbnail_type");
            reveal_strlit("max_file_count");
        }
        let fields: Vec<(String, Json)> = Vec::new();
        let fields = with_text(fields, "urls", url);
        let fields = with_field(fields, "page_size", Json::Int(2000));
        let fields = with_text(fields, "thumbnail_type", "");
        let fields = with_field(fields, "max_file_count", Json::Int(2000));
        Self::request("POST", "drive/v1/resource/list", Some(Json::Object(fields)))
    }

    /// Create a download task. POST drive/v1/task. `None` where the sizes of the
    /// selected files add up to more than 64 bits hold.
    ///
    /// `resolved` is the prior resolve result. `indices` selects which sub-files to
    /// download (empty = all). `name` overrides the task/folder name;
    /// `parent_folder_id` targets a cloud folder ("" = default root).
    pub fn add(
        url: &str,
        resolved: &Resolved,
        name: Option<&str>,
        parent_folder_id: &str,
        indices: &Vec<i64>,
    ) -> (call: Option<ApiCall>)
        ensures
            call is Some <==> selection_fits(resolved@, indices@),
            call matches Some(c) ==> c@ == add_call(
                url@,
                resolved@,
                match name {
                    Some(s) => Some(s@),
                    None => None,
                },
                parent_folder_id@,
                indices@,
            ) && crate::json::reads_as(
                c@.body->0,
                add_body(
                    url@,
                    resolved@,
                    match name {
                        Some(s) => Some(s@),
                        None => None,
                    },
                    parent_folder_id@,
                    indices@,
                ),
            ),
    {
        proof {
            reveal_with_fuel(crate::json::plain, 3);
            reveal_strlit("url");
            reveal_strlit("parent_folder_id");
            reveal_strlit("total_file_count");
            reveal_strlit("sub_file_index");
            reveal_strlit("mime_type");
            reveal_strlit("type");
            reveal_strlit("name");
            reveal_strlit("file_size");
            reveal_strlit("space");
            reveal_strlit("params");
        }
        let size = match selected_size(resolved, indices) {
            Some(size) => size,
            None => return None,
        };
        let task_name = match name {
            Some(s) => if s.is_empty() {
                resolved.name.as_str()
            } else {
                s
            },
            None => resolved.name.as_str(),
        };
        let params: Vec<(String, Json)> = Vec::new();
        let params = with_text(params, "url", url);
        let params = with_text(params, "parent_folder_id", parent_folder_id);
        let params = with_text(
            params,
            "total_file_count",
            unsigned_text(resolved.files.len() as u64).as_str(),
        );
        let params = with_text(params, "sub_file_index", sub_file_index(indices).as_str());
        let params = with_text(params, "mime_type", "");
        let fields: Vec<(String, Json)> = Vec::new();
        let fields = with_text(fields, "type", TASK_TYPE);
        let fields = with_text(fields, "name", task_name);
        let fields = with_text(fields, "file_size", signed_text(size).as_str());
        let fields = with_text(fields, "space", SPACE);
        let fields = with_field(fields, "params", Json::Object(params));
        Some(Self::request("POST", "drive/v1/task", Some(Json::Object(fields))))
    }

    /// List entries inside a cloud folder (parent_id empty = drive root).
    /// GET drive/v1/files?parent_id=..&space=
    pub fn cloud_files(parent_id: &str, limit: u32) -> (call: ApiCall)
        ensures
            call@ == cloud_files_call(parent_id@, limit),
    {
        let mut path = "drive/v1/files?space=".to_string();
        path.append(url_encode(SPACE).as_str());
        path.append("&parent_id=");
        path.append(url_encode(parent_id).as_str());
        path.append("&limit=");
        path.append(unsigned_text(limit as u64).as_str());
        tokened("GET", path, None)
    }

    /// Get the HTTPS direct-download link for a cloud file.
    /// GET drive/v1/files/{id} → `web_content_link`.
    pub fn cloud_file_link(file_id: &str) -> (call: ApiCall)
        ensures
            call@ == cloud_file_link_call(file_id@),
    {
        let mut path = "drive/v1/files/".to_string();
        path.append(file_id);
        path.append("?space=");
        path.append(url_encode(SPACE).as_str());
        tokened("GET", path, None)
    }

    /// Download a cloud file's bytes via its direct link (pure HTTP, no P2P): neither
    /// cookie nor token goes along.
    pub fn download_to(link: &str) -> (request: HttpRequest)
        ensures
            request@ == (HttpRequestView {
                method: "GET"@,
                url: link@,
                headers: Seq::empty(),
                body: PayloadView::Empty,
                follow_redirects: true,
            }),
    {
        let request = HttpRequest {
            method: "GET".to_string(),
            url: link.to_string(),
            headers: Vec::new(),
            body: Payload::Empty,
            follow_redirects: true,
        };
        assert(request@.headers =~= Seq::empty());
        request
    }

    /// List tasks. GET drive/v1/tasks?space=..&type=..&limit=..
    /// `only_active` narrows to pending+running via the `filters` param.
    pub fn list(only_active: bool, limit: u32) -> (call: ApiCall)
        ensures
            call@ == list_call(only_active, limit),
    {
        let mut path = "drive/v1/tasks?space=".to_string();
        path.append(url_encode(SPACE).as_str());
        path.append("&type=");
        path.append(url_encode(TASK_TYPE).as_str());
        path.append("&limit=");
        path.append(unsigned_text(limit as u64).as_str());
        if only_active {
            path.append("&filters=");
            path.append(url_encode(ACTIVE_FILTERS).as_str());
        }
        tokened("GET", path, None)
    }

    /// PATCH drive/v1/task with the phase that a task is to take.
    pub fn operate(id: &str, phase_action: &str) -> (call: ApiCall)
        ensures
            call@ == operate_call(
                id@,
                crate::json::json_text(crate::json::one_string("phase"@, phase_action@)),
            ),
            crate::json::alphanumeric(phase_action@) ==> crate::json::json_text(
                crate::json::one_string("phase"@, phase_action@),
            ) == crate::json::one_string_text("phase"@, phase_action@),
            crate::json::reads_as(
                crate::json::json_text(crate::json::one_string("phase"@, phase_action@)),
                crate::json::one_string("phase"@, phase_action@),
            ),
            crate::json::reads_as(
                call@.body->0,
                operate_body(
                    id@,
                    crate::json::json_text(crate::json::one_string("phase"@, phase_action@)),
                ),
            ),
    {
        proof {
            reveal_with_fuel(crate::json::plain, 3);
            reveal_strlit("spec");
            reveal_strlit("id");
            reveal_strlit("space");
            reveal_strlit("type");
            reveal_strlit("set_params");
        }
        let phase: Vec<(String, Json)> = Vec::new();
        let spec_text = compact(Json::Object(with_text(phase, "phase", phase_action)));
        proof {
            reveal_strlit("phase");
            assert(crate::json::alphanumeric("phase"@));
        }
        let set_params: Vec<(String, Json)> = Vec::new();
        let set_params = with_text(set_params, "spec", spec_text.as_str());
        let fields: Vec<(String, Json)> = Vec::new();
        let fields = with_text(fields, "id", id);
        let fields = with_text(fields, "space", SPACE);
        let fields = with_text(fields, "type", TASK_TYPE);
        let fields = with_field(fields, "set_params", Json::Object(set_params));
        Self::request("PATCH", "drive/v1/task", Some(Json::Object(fields)))
    }

    /// Pause a task. PATCH drive/v1/task with set_params.spec = {"phase":"pause"}.
    pub fn pause(id: &str) -> (call: ApiCall)
        ensures
            call@ == operate_call(id@, "{\"phase\":\"pause\"}"@),
            crate::json::reads_as(
                "{\"phase\":\"pause\"}"@,
                crate::json::one_string("phase"@, "pause"@),
            ),
            crate::json::reads_as(
                call@.body->0,
                operate_body(id@, "{\"phase\":\"pause\"}"@),
            ),
    {
        proof {
            reveal_strlit("phase");
            reveal_strlit("pause");
            reveal_strlit("{\"phase\":\"pause\"}");
            assert(crate::json::alphanumeric("pause"@));
            assert(crate::json::one_string_text("phase"@, "pause"@)
                =~= "{\"phase\":\"pause\"}"@);
        }
        Self::operate(id, "pause")
    }

    /// Resume a task. PATCH drive/v1/task with set_params.spec =
    /// {"phase":"running"}.
    pub fn resume(id: &str) -> (call: ApiCall)
        ensures
            call@ == operate_call(id@, "{\"phase\":\"running\"}"@),
            crate::json::reads_as(
                "{\"phase\":\"running\"}"@,
                crate::json::one_string("phase"@, "running"@),
            ),
            crate::json::reads_as(
                call@.body->0,
                operate_body(id@, "{\"phase\":\"running\"}"@),
            ),
    {
        proof {
            reveal_strlit("phase");
            reveal_strlit("running");
            reveal_strlit("{\"phase\":\"running\"}");
            assert(crate::json::alphanumeric("running"@));
            assert(crate::json::one_string_text("phase"@, "running"@)
                =~= "{\"phase\":\"running\"}"@);
        }
        Self::operate(id, "running")
    }

    /// Delete tasks. DELETE drive/v1/tasks?space=..&task_ids=a&task_ids=b. With no
    /// ids there is nothing to ask for.
    /// `delete_files` also removes downloaded data (schema-supported; may be ignored
    /// by the engine on this route).
    pub fn remove(ids: &Vec<String>, delete_files: bool) -> (call: Option<ApiCall>)
        ensures
            call is Some <==> ids@.len() > 0,
            call matches Some(c) ==> c@ == remove_call(crate::text::texts(ids@), delete_files),
    {
        if ids.len() == 0 {
            return None;
        }
        let mut path = "drive/v1/tasks?space=".to_string();
        path.append(url_encode(SPACE).as_str());
        let ghost start = path@;
        let ghost all = crate::text::texts(ids@);
        let n = ids.len();
        let mut i: usize = 0;
        assert(start + id_params(all.take(0)) =~= start);
        while i < n
            invariant
                n == ids@.len(),
                all == crate::text::texts(ids@),
                i <= n,
                path@ == start + id_params(all.take(i as int)),
            decreases n - i,
        {
            path.append("&task_ids=");
            path.append(url_encode(ids[i].as_str()).as_str());
            assert(all.take(i + 1).drop_last() =~= all.take(i as int));
            assert(all.take(i + 1).last() == ids@[i as int]@);
            i = i + 1;
            assert(path@ =~= start + id_params(all.take(i as int)));
        }
        assert(all.take(n as int) =~= all);
        if delete_files {
            path.append("&delete_files=true");
        }
        Some(tokened("DELETE", path, None))
    }
}

// ---- answers --------------------------------------------------------------

/// The time that an answer gives, or the error where it gives none.
pub open spec fn now_result(v: JsonView) -> Result<int, ErrorView> {
    match crate::model::now_in(v) {
        Some(n) => Ok(n),
        None => Err(ErrorView::NoNow(crate::json::json_text(v))),
    }
}

/// The time that an answer gives.
pub fn now_of(v: Json) -> (r: Result<i64, ClientError>)
    ensures
        match (r, now_result(v@)) {
            (Ok(n), Ok(m)) => n == m,
            (Err(e), Err(w)) => e@ == w,
            _ => false,
        },
{
    match read_now(&v) {
        Some(n) => Ok(n),
        None => Err(ClientError::NoNow(compact(v))),
    }
}

/// The device's time in the reply to its call.
pub fn device_now_reply(call: &ApiCall, reply: Reply) -> (r: Result<i64, ClientError>)
    ensures
        match crate::client::response_in(call@, reply@) {
            Ok(v) => match (r, now_result(v)) {
                (Ok(n), Ok(m)) => n == m,
                (Err(e), Err(w)) => e@ == w,
                _ => false,
            },
            Err(w) => r matches Err(e) && e@ == w,
        },
{
    match response(call, reply) {
        Ok(v) => now_of(v),
        Err(e) => Err(e),
    }
}

/// What an answer says of a link, or the error where its sizes cannot be added up.
pub open spec fn resolved_result(v: JsonView) -> Result<ResolvedView, ErrorView> {
    if crate::model::sizes_fit(crate::model::files_in(v)) {
        Ok(crate::model::resolved_in(v))
    } else {
        Err(ErrorView::SizeOverflow)
    }
}

/// What an answer says of a link.
pub fn resolved_of(v: &Json) -> (r: Result<Resolved, ClientError>)
    ensures
        match (r, resolved_result(v@)) {
            (Ok(x), Ok(y)) => x@ == y,
            (Err(e), Err(w)) => e@ == w,
            _ => false,
        },
{
    match read_resolved(v) {
        Some(resolved) => Ok(resolved),
        None => Err(ClientError::SizeOverflow),
    }
}

/// What the reply to a resolve call says of the link.
///
/// The answer is a recursive tree: the top-level resource is a directory whose
/// `dir.resources` hold children, which may themselves be dirs (torrents carry junk
/// subfolders). It is flattened to leaf files, preserving each file's flat global
/// `file_index` (the value `sub_file_index` wants).
pub fn resolve_reply(call: &ApiCall, reply: Reply) -> (r: Result<Resolved, ClientError>)
    ensures
        match crate::client::response_in(call@, reply@) {
            Ok(v) => match (r, resolved_result(v)) {
                (Ok(x), Ok(y)) => x@ == y,
                (Err(e), Err(w)) => e@ == w,
                _ => false,
            },
            Err(w) => r matches Err(e) && e@ == w,
        },
{
    match response(call, reply) {
        Ok(v) => resolved_of(&v),
        Err(e) => Err(e),
    }
}

/// The id of the new task in the reply to a create call, or the empty text.
pub fn add_reply(call: &ApiCall, reply: Reply) -> (r: Result<String, ClientError>)
    ensures
        match crate::client::response_in(call@, reply@) {
            Ok(v) => r matches Ok(id) && id@ == crate::model::task_id_in(v),
            Err(w) => r matches Err(e) && e@ == w,
        },
{
    match response(call, reply) {
        Ok(v) => Ok(read_task_id(&v)),
        Err(e) => Err(e),
    }
}

/// The entries in the reply to a call that lists a cloud folder.
pub fn cloud_files_reply(call: &ApiCall, reply: Reply) -> (r: Result<Vec<CloudFile>, ClientError>)
    ensures
        match crate::client::response_in(call@, reply@) {
            Ok(v) => r matches Ok(files) && crate::model::clouds_view(files@)
                == crate::model::cloud_files_in(v),
            Err(w) => r matches Err(e) && e@ == w,
        },
{
    match response(call, reply) {
        Ok(v) => Ok(read_cloud_files(&v)),
        Err(e) => Err(e),
    }
}

/// The link that an answer gives, or the error where it gives none.
pub open spec fn link_result(v: JsonView, file_id: Seq<char>) -> Result<Seq<char>, ErrorView> {
    if v.field_text("web_content_link"@).len() == 0 {
        Err(ErrorView::NoLink(file_id))
    } else {
        Ok(v.field_text("web_content_link"@))
    }
}

/// The link that an answer gives.
pub fn link_of(v: &Json, file_id: &str) -> (r: Result<String, ClientError>)
    ensures
        match (r, link_result(v@, file_id@)) {
            (Ok(x), Ok(y)) => x@ == y,
            (Err(e), Err(w)) => e@ == w,
            _ => false,
        },
{
    let link = v.text_of("web_content_link");
    if link.as_str().is_empty() {
        return Err(ClientError::NoLink(file_id.to_string()));
    }
    Ok(link)
}

/// The link in the reply to the call for it.
pub fn cloud_file_link_reply(call: &ApiCall, reply: Reply, file_id: &str) -> (r: Result<
    String,
    ClientError,
>)
    ensures
        match crate::client::response_in(call@, reply@) {
            Ok(v) => match (r, link_result(v, file_id@)) {
                (Ok(x), Ok(y)) => x@ == y,
                (Err(e), Err(w)) => e@ == w,
                _ => false,
            },
            Err(w) => r matches Err(e) && e@ == w,
        },
{
    match response(call, reply) {
        Ok(v) => link_of(&v, file_id),
        Err(e) => Err(e),
    }
}

/// The tasks in the reply to a list call.
pub fn list_reply(call: &ApiCall, reply: Reply) -> (r: Result<Vec<Task>, ClientError>)
    ensures
        match crate::client::response_in(call@, reply@) {
            Ok(v) => r matches Ok(tasks) && crate::model::tasks_view(tasks@)
                == crate::model::tasks_in(v),
            Err(w) => r matches Err(e) && e@ == w,
        },
{
    match response(call, reply) {
        Ok(v) => Ok(read_tasks(&v)),
        Err(e) => Err(e),
    }
}

/// Whether a call whose answer does not matter was accepted.
pub fn accepted(call: &ApiCall, reply: Reply) -> (r: Result<(), ClientError>)
    ensures
        match crate::client::response_in(call@, reply@) {
            Ok(v) => r is Ok,
            Err(w) => r matches Err(e) && e@ == w,
        },
{
    match response(call, reply) {
        Ok(_) => Ok(()),
        Err(e) => Err(e),
    }
}

// ---- laws -----------------------------------------------------------------

proof fn lemma_selecting_all(files: Seq<FileView>, indices: Seq<i64>)
    requires
        forall|i: int| 0 <= i < files.len() ==> indices.contains((#[trigger] files[i]).index),
    ensures
        selected(files, indices) == files,
    decreases files.len(),
{
    reveal(Seq::filter);
    if files.len() > 0 {
        let init = files.drop_last();
        assert forall|i: int| 0 <= i < init.len() implies indices.contains(
            (#[trigger] init[i]).index,
        ) by {
            assert(init[i] == files[i]);
        }
        lemma_selecting_all(init, indices);
        assert(indices.contains(files[files.len() - 1].index));
        assert(init.push(files.last()) =~= files);
    } else {
        assert(selected(files, indices) =~= files);
    }
}

/// To select every file is to select none: the size that a new task has is that of
/// the whole link.
pub proof fn law_selecting_all_is_selecting_none(v: JsonView, indices: Seq<i64>)
    requires
        resolved_result(v) is Ok,
        forall|i: int|
            0 <= i < crate::model::files_in(v).len() ==> indices.contains(
                (#[trigger] crate::model::files_in(v)[i]).index,
            ),
    ensures
        selection_fits(crate::model::resolved_in(v), indices),
        selected_total(crate::model::resolved_in(v), indices) == selected_total(
            crate::model::resolved_in(v),
            Seq::empty(),
        ),
{
    let files = crate::model::files_in(v);
    lemma_selecting_all(files, indices);
    assert(files.take(files.len() as int) =~= files);
    assert(i64::MIN <= crate::model::size_sum(files.take(files.len() as int)) <= i64::MAX);
}

/// Whether a value is an object all of whose fields are strings.
pub open spec fn only_strings(v: JsonView) -> bool {
    v matches JsonView::Object(fields) && forall|name: Seq<char>| #[trigger]
        fields.contains_key(name) ==> fields[name] is Str
}

/// The parameters of a new task are strings, all of them, and the size of the task is
/// a string that reads as that size.
pub proof fn law_task_parameters_are_strings(
    url: Seq<char>,
    resolved: ResolvedView,
    name: Option<Seq<char>>,
    parent_folder_id: Seq<char>,
    indices: Seq<i64>,
)
    requires
        selection_fits(resolved, indices),
    ensures
        only_strings(add_params(url, resolved, parent_folder_id, indices)),
        add_body(url, resolved, name, parent_folder_id, indices).field_integer("file_size"@)
            == selected_total(resolved, indices),
{
    let total = selected_total(resolved, indices);
    let files = selected(resolved.files, indices);
    assert(files.take(files.len() as int) =~= files);
    assert(indices.len() > 0 ==> i64::MIN <= crate::model::size_sum(
        files.take(files.len() as int),
    ) <= i64::MAX);
    crate::json::law_quoted_integer_is_the_integer(total as i64);
    reveal_strlit("file_size");
    reveal_strlit("space");
    reveal_strlit("params");
    let body = add_body(url, resolved, name, parent_folder_id, indices);
    assert("file_size"@.len() != "space"@.len() && "file_size"@.len() != "params"@.len());
    assert(body.field("file_size"@) == Some(JsonView::Str(crate::number::decimal(total))));
}

/// The parameter that names one task.
pub open spec fn id_param(id: Seq<char>) -> Seq<char> {
    "task_ids="@ + crate::encode::url_encoded(id)
}

proof fn lemma_id_params_split(start: Seq<char>, ids: Seq<Seq<char>>)
    requires
        !start.contains('&'),
    ensures
        crate::text::split(start + id_params(ids), '&') == seq![start] + ids.map_values(
            |id: Seq<char>| id_param(id),
        ),
    decreases ids.len(),
{
    let params = ids.map_values(|id: Seq<char>| id_param(id));
    if ids.len() == 0 {
        assert(start + id_params(ids) =~= start);
        crate::text::lemma_split_whole(start, '&');
        assert(seq![start] + params =~= seq![start]);
    } else {
        let init = ids.drop_last();
        let last = id_param(ids.last());
        lemma_id_params_split(start, init);
        reveal_strlit("&task_ids=");
        reveal_strlit("task_ids=");
        crate::encode::law_encoded_stays_in_its_parameter(ids.last());
        let encoded = crate::encode::url_encoded(ids.last());
        assert(!last.contains('&')) by {
            if last.contains('&') {
                let i = choose|i: int| 0 <= i < last.len() && last[i] == '&';
                if i >= "task_ids="@.len() {
                    assert(encoded[i - "task_ids="@.len()] == '&');
                }
            }
        }
        assert(start + id_params(ids) =~= (start + id_params(init)) + seq!['&'] + last);
        crate::text::lemma_split_last(start + id_params(init), '&', last);
        assert(seq![start] + params =~= (seq![start] + init.map_values(
            |id: Seq<char>| id_param(id),
        )).push(last));
    }
}

/// A delete call has one parameter for each task, in order, whatever the ids hold,
/// and one more where the files are to go too.
pub proof fn law_remove_names_every_task(ids: Seq<Seq<char>>, delete_files: bool)
    ensures
        crate::text::split(remove_call(ids, delete_files).path, '&') == seq![
            "drive/v1/tasks?space="@,
        ] + ids.map_values(|id: Seq<char>| id_param(id)) + if delete_files {
            seq!["delete_files=true"@]
        } else {
            Seq::empty()
        },
{
    let start = "drive/v1/tasks?space="@ + crate::encode::url_encoded(SPACE@);
    let params = ids.map_values(|id: Seq<char>| id_param(id));
    reveal_strlit("");
    reveal_strlit("drive/v1/tasks?space=");
    reveal_strlit("&delete_files=true");
    reveal_strlit("delete_files=true");
    assert(SPACE@ =~= Seq::<char>::empty());
    assert(vstd::utf8::encode_utf8(SPACE@) =~= Seq::<u8>::empty());
    assert(start =~= "drive/v1/tasks?space="@);
    lemma_id_params_split(start, ids);
    let all = seq![start] + params;
    if delete_files {
        assert(start + id_params(ids) + "&delete_files=true"@ =~= (start + id_params(ids)) + seq![
            '&',
        ] + "delete_files=true"@);
        crate::text::lemma_split_last(start + id_params(ids), '&', "delete_files=true"@);
        assert(all + seq!["delete_files=true"@] =~= all.push("delete_files=true"@));
    } else {
        assert(all + Seq::<Seq<char>>::empty() =~= all);
    }
}

/// A call resolves a link: it posts the link and asks for all of its files.
pub open spec fn resolves(call: ApiCallView, url: Seq<char>) -> bool {
    &&& call.method == "POST"@
    &&& call.path == "drive/v1/resource/list"@
    &&& call.with_token
    &&& exists|b: JsonView|
        {
            &&& call.body == Some(#[trigger] crate::json::json_text(b))
            &&& b.field("urls"@) == Some(JsonView::Str(url))
            &&& b.field("page_size"@) == Some(JsonView::Int(2000))
            &&& b.field("max_file_count"@) == Some(JsonView::Int(2000))
            &&& b.field("thumbnail_type"@) == Some(JsonView::Str(""@))
        }
}

/// Resolving asks about the link that is given.
pub proof fn law_resolving_asks_about_the_link(url: Seq<char>)
    ensures
        resolves(resolve_call(url), url),
{
    reveal_strlit("urls");
    reveal_strlit("page_size");
    reveal_strlit("thumbnail_type");
    reveal_strlit("max_file_count");
    let b = resolve_body(url);
    assert("thumbnail_type"@[0] != "max_file_count"@[0]);
    assert("urls"@.len() == 4 && "page_size"@.len() == 9 && "thumbnail_type"@.len() == 14
        && "max_file_count"@.len() == 14);
    assert(b.field("urls"@) == Some(JsonView::Str(url)));
    assert(b.field("page_size"@) == Some(JsonView::Int(2000)));
    assert(b.field("thumbnail_type"@) == Some(JsonView::Str(""@)));
    assert(resolve_call(url).body == Some(crate::json::json_text(b)));
}

/// The sizes of the files that a new task takes, added up: of all files where no index
/// is given, and otherwise of those whose index is.
pub open spec fn size_of_choice(files: Seq<FileView>, total: int, indices: Seq<i64>) -> int {
    if indices.len() == 0 {
        total
    } else {
        crate::model::size_sum(files.filter(|f: FileView| indices.contains(f.index)))
    }
}

/// A call creates a task: it posts the link, the task's name, its folder, how many files
/// the link has, which of them to take, and their size.
pub open spec fn creates(
    call: ApiCallView,
    url: Seq<char>,
    name: Seq<char>,
    parent_folder_id: Seq<char>,
    files: nat,
    indices: Seq<i64>,
    size: int,
) -> bool {
    &&& call.method == "POST"@
    &&& call.path == "drive/v1/task"@
    &&& call.with_token
    &&& exists|b: JsonView|
        {
            &&& call.body == Some(#[trigger] crate::json::json_text(b))
            &&& b.field("type"@) == Some(JsonView::Str("user#download"@))
            &&& b.field("space"@) == Some(JsonView::Str(""@))
            &&& b.field("name"@) == Some(JsonView::Str(name))
            &&& b.field("file_size"@) == Some(JsonView::Str(crate::number::decimal(size)))
            &&& b.field("params"@) is Some
            &&& b.field("params"@)->0.field("url"@) == Some(JsonView::Str(url))
            &&& b.field("params"@)->0.field("parent_folder_id"@) == Some(
                JsonView::Str(parent_folder_id),
            )
            &&& b.field("params"@)->0.field("total_file_count"@) == Some(
                JsonView::Str(crate::number::decimal(files as int)),
            )
            &&& b.field("params"@)->0.field("sub_file_index"@) == Some(
                JsonView::Str(
                    crate::text::join(
                        indices.map_values(|i: i64| crate::number::decimal(i as int)),
                        ","@,
                    ),
                ),
            )
            &&& b.field("params"@)->0.field("mime_type"@) == Some(JsonView::Str(""@))
        }
}

/// The name of a new task: the one that was asked for, unless that is empty, or else the
/// link's own.
pub open spec fn asked_name(name: Option<Seq<char>>, title: Seq<char>) -> Seq<char> {
    match name {
        Some(asked) => if asked.len() > 0 {
            asked
        } else {
            title
        },
        None => title,
    }
}

/// Creating a task asks for what it is given: the link, the name, the folder, the files
/// and their size.
pub proof fn law_creating_asks_for_what_is_given(
    url: Seq<char>,
    resolved: ResolvedView,
    name: Option<Seq<char>>,
    parent_folder_id: Seq<char>,
    indices: Seq<i64>,
)
    ensures
        creates(
            add_call(url, resolved, name, parent_folder_id, indices),
            url,
            asked_name(name, resolved.name),
            parent_folder_id,
            resolved.files.len(),
            indices,
            size_of_choice(resolved.files, resolved.total_size as int, indices),
        ),
{
    reveal_strlit("type");
    reveal_strlit("name");
    reveal_strlit("file_size");
    reveal_strlit("space");
    reveal_strlit("params");
    reveal_strlit("url");
    reveal_strlit("parent_folder_id");
    reveal_strlit("total_file_count");
    reveal_strlit("sub_file_index");
    reveal_strlit("mime_type");
    let b = add_body(url, resolved, name, parent_folder_id, indices);
    let p = add_params(url, resolved, parent_folder_id, indices);
    assert("type"@[0] != "name"@[0]);
    assert("parent_folder_id"@[0] != "total_file_count"@[0]);
    assert("type"@.len() == 4 && "name"@.len() == 4 && "file_size"@.len() == 9 && "space"@.len()
        == 5 && "params"@.len() == 6);
    assert("url"@.len() == 3 && "parent_folder_id"@.len() == 16 && "total_file_count"@.len() == 16
        && "sub_file_index"@.len() == 14 && "mime_type"@.len() == 9);
    assert(b.field("type"@) == Some(JsonView::Str("user#download"@)));
    assert(b.field("name"@) == Some(JsonView::Str(asked_name(name, resolved.name))));
    assert(b.field("space"@) == Some(JsonView::Str(""@)));
    assert(b.field("file_size"@) == Some(
        JsonView::Str(
            crate::number::decimal(
                size_of_choice(resolved.files, resolved.total_size as int, indices),
            ),
        ),
    ));
    assert(b.field("params"@) == Some(p));
    assert(p.field("url"@) == Some(JsonView::Str(url)));
    assert(p.field("parent_folder_id"@) == Some(JsonView::Str(parent_folder_id)));
    assert(p.field("total_file_count"@) == Some(
        JsonView::Str(crate::number::decimal(resolved.files.len() as int)),
    ));
    assert(p.field("sub_file_index"@) == Some(JsonView::Str(index_list(indices))));
    assert(add_call(url, resolved, name, parent_folder_id, indices).body == Some(
        crate::json::json_text(b),
    ));
}

/// A call sets the phase of a task: it sends the task's id, and the phase as JSON within
/// JSON.
pub open spec fn sets_phase(call: ApiCallView, id: Seq<char>, phase: Seq<char>) -> bool {
    &&& call.method == "PATCH"@
    &&& call.path == "drive/v1/task"@
    &&& call.with_token
    &&& exists|b: JsonView|
        {
            &&& call.body == Some(#[trigger] crate::json::json_text(b))
            &&& b.field("id"@) == Some(JsonView::Str(id))
            &&& b.field("space"@) == Some(JsonView::Str(""@))
            &&& b.field("type"@) == Some(JsonView::Str("user#download"@))
            &&& b.field("set_params"@) is Some
            &&& b.field("set_params"@)->0.field("spec"@) == Some(
                JsonView::Str(seq!['{', '"'] + "phase"@ + seq!['"', ':', '"'] + phase + seq!['"', '}']),
            )
        }
}

/// A task is changed by its id; pausing sets the phase `pause`, and resuming the phase
/// `running`.
pub proof fn law_operating_names_the_task(id: Seq<char>)
    ensures
        sets_phase(operate_call(id, "{\"phase\":\"pause\"}"@), id, "pause"@),
        sets_phase(operate_call(id, "{\"phase\":\"running\"}"@), id, "running"@),
{
    lemma_operating(id, "{\"phase\":\"pause\"}"@, "pause"@);
    lemma_operating(id, "{\"phase\":\"running\"}"@, "running"@);
}

proof fn lemma_operating(id: Seq<char>, spec_text: Seq<char>, phase: Seq<char>)
    requires
        (spec_text == "{\"phase\":\"pause\"}"@ && phase == "pause"@) || (spec_text
            == "{\"phase\":\"running\"}"@ && phase == "running"@),
    ensures
        sets_phase(operate_call(id, spec_text), id, phase),
{
    reveal_strlit("id");
    reveal_strlit("space");
    reveal_strlit("type");
    reveal_strlit("set_params");
    reveal_strlit("phase");
    reveal_strlit("pause");
    reveal_strlit("running");
    reveal_strlit("{\"phase\":\"pause\"}");
    reveal_strlit("{\"phase\":\"running\"}");
    assert("id"@.len() == 2 && "space"@.len() == 5 && "type"@.len() == 4 && "set_params"@.len()
        == 10);
    let b = operate_body(id, spec_text);
    let set = b.field("set_params"@)->0;
    assert(b.field("id"@) == Some(JsonView::Str(id)));
    assert(b.field("space"@) == Some(JsonView::Str(""@)));
    assert(b.field("type"@) == Some(JsonView::Str("user#download"@)));
    assert(b.field("set_params"@) is Some);
    assert(set.field("spec"@) == Some(JsonView::Str(spec_text)));
    assert(spec_text =~= seq!['{', '"'] + "phase"@ + seq!['"', ':', '"'] + phase + seq!['"', '}']);
    assert(operate_call(id, spec_text).body == Some(crate::json::json_text(b)));
}

/// The pieces of a path that asks with these parameters.
pub open spec fn asks_with(path: Seq<char>, pieces: Seq<Seq<char>>) -> bool {
    crate::text::split(path, '&') == pieces
}

proof fn lemma_no_ampersand(label: Seq<char>, value: Seq<char>)
    requires
        !label.contains('&'),
        !value.contains('&'),
    ensures
        !(label + value).contains('&'),
{
    let both = label + value;
    if both.contains('&') {
        let i = choose|i: int| 0 <= i < both.len() && both[i] == '&';
        if i < label.len() {
            assert(label[i] == '&');
        } else {
            assert(value[i - label.len()] == '&');
        }
    }
}

proof fn lemma_decimal_no_ampersand(n: int)
    ensures
        !crate::number::decimal(n).contains('&'),
{
    crate::number::lemma_decimal_chars(n);
    let s = crate::number::decimal(n);
    if s.contains('&') {
        let i = choose|i: int| 0 <= i < s.len() && s[i] == '&';
        assert(crate::number::is_digit(s[i]) || s[i] == '-');
    }
}

proof fn lemma_space_is_empty()
    ensures
        crate::encode::url_encoded(SPACE@) == Seq::<char>::empty(),
{
    reveal_strlit("");
    assert(SPACE@ =~= Seq::<char>::empty());
    assert(vstd::utf8::encode_utf8(SPACE@) =~= Seq::<u8>::empty());
    assert(crate::encode::url_encoded(SPACE@) =~= Seq::<char>::empty());
}

/// The parameters of a call that lists tasks.
pub open spec fn list_pieces(only_active: bool, limit: u32) -> Seq<Seq<char>> {
    seq![
        "drive/v1/tasks?space="@,
        "type="@ + crate::encode::url_encoded("user#download"@),
        "limit="@ + crate::number::decimal(limit as int),
    ] + if only_active {
        seq![
            "filters="@ + crate::encode::url_encoded(
                "{\"phase\":{\"in\":\"PHASE_TYPE_PENDING,PHASE_TYPE_RUNNING\"}}"@,
            ),
        ]
    } else {
        Seq::empty()
    }
}

/// A call that lists tasks asks for as many as it may, and has a filter exactly where
/// only the active ones are wanted.
pub proof fn law_listing_filters_only_on_demand(only_active: bool, limit: u32)
    ensures
        list_call(only_active, limit).method == "GET"@,
        list_call(only_active, limit).body is None,
        list_call(only_active, limit).with_token,
        asks_with(list_call(only_active, limit).path, list_pieces(only_active, limit)),
        (exists|i: int|
            0 <= i < list_pieces(only_active, limit).len() && "filters="@.is_prefix_of(
                #[trigger] list_pieces(only_active, limit)[i],
            )) <==> only_active,
{
    let start = "drive/v1/tasks?space="@;
    let kind = "type="@ + crate::encode::url_encoded("user#download"@);
    let count = "limit="@ + crate::number::decimal(limit as int);
    let filters = "filters="@ + crate::encode::url_encoded(ACTIVE_FILTERS@);
    reveal_strlit("drive/v1/tasks?space=");
    reveal_strlit("&type=");
    reveal_strlit("type=");
    reveal_strlit("&limit=");
    reveal_strlit("limit=");
    reveal_strlit("&filters=");
    reveal_strlit("filters=");
    lemma_space_is_empty();
    crate::encode::law_encoded_stays_in_its_parameter("user#download"@);
    crate::encode::law_encoded_stays_in_its_parameter(ACTIVE_FILTERS@);
    lemma_decimal_no_ampersand(limit as int);
    lemma_no_ampersand("type="@, crate::encode::url_encoded("user#download"@));
    lemma_no_ampersand("limit="@, crate::number::decimal(limit as int));
    lemma_no_ampersand("filters="@, crate::encode::url_encoded(ACTIVE_FILTERS@));
    crate::text::lemma_split_whole(start, '&');
    crate::text::lemma_split_last(start, '&', kind);
    let two = start + seq!['&'] + kind;
    crate::text::lemma_split_last(two, '&', count);
    let three = two + seq!['&'] + count;
    let pieces = list_pieces(only_active, limit);
    if only_active {
        crate::text::lemma_split_last(three, '&', filters);
        assert(list_call(only_active, limit).path =~= three + seq!['&'] + filters);
        assert(seq![start].push(kind).push(count).push(filters) =~= pieces);
        assert(pieces[3] == filters);
        assert(filters.subrange(0, "filters="@.len() as int) =~= "filters="@);
        assert("filters="@.is_prefix_of(pieces[3]));
    } else {
        assert(list_call(only_active, limit).path =~= three);
        assert(seq![start].push(kind).push(count) =~= pieces);
        assert forall|i: int| 0 <= i < pieces.len() implies !"filters="@.is_prefix_of(
            #[trigger] pieces[i],
        ) by {
            if "filters="@.is_prefix_of(pieces[i]) {
                assert(pieces[i].subrange(0, "filters="@.len() as int)[0] == pieces[i][0]);
                assert(i == 0 || i == 1 || i == 2);
                assert(pieces[0][0] == 'd' && pieces[1][0] == 't' && pieces[2][0] == 'l');
            }
        }
    }
}

/// A delete call has the parameter that deletes files exactly where that is wanted.
pub proof fn law_files_are_deleted_only_on_demand(ids: Seq<Seq<char>>, delete_files: bool)
    ensures
        remove_call(ids, delete_files).method == "DELETE"@,
        remove_call(ids, delete_files).body is None,
        remove_call(ids, delete_files).with_token,
        crate::text::split(remove_call(ids, delete_files).path, '&').contains(
            "delete_files=true"@,
        ) <==> delete_files,
{
    law_remove_names_every_task(ids, delete_files);
    let pieces = crate::text::split(remove_call(ids, delete_files).path, '&');
    let last = "delete_files=true"@;
    reveal_strlit("delete_files=true");
    reveal_strlit("drive/v1/tasks?space=");
    reveal_strlit("task_ids=");
    if delete_files {
        assert(pieces[pieces.len() - 1] == last);
    } else if pieces.contains(last) {
        let i = choose|i: int| 0 <= i < pieces.len() && pieces[i] == last;
        if i == 0 {
            assert(pieces[0] == "drive/v1/tasks?space="@);
            assert(pieces[0].len() != last.len());
        } else {
            assert(pieces[i] == id_param(ids[i - 1]));
            assert(pieces[i][0] == 't');
        }
    }
}

/// A call that lists a cloud folder names the folder, whatever its id holds, and the
/// number of entries that are wanted.
pub proof fn law_folder_listing_names_the_folder(parent_id: Seq<char>, limit: u32)
    ensures
        cloud_files_call(parent_id, limit).method == "GET"@,
        cloud_files_call(parent_id, limit).body is None,
        cloud_files_call(parent_id, limit).with_token,
        asks_with(
            cloud_files_call(parent_id, limit).path,
            seq![
                "drive/v1/files?space="@,
                "parent_id="@ + crate::encode::url_encoded(parent_id),
                "limit="@ + crate::number::decimal(limit as int),
            ],
        ),
{
    let start = "drive/v1/files?space="@;
    let parent = "parent_id="@ + crate::encode::url_encoded(parent_id);
    let count = "limit="@ + crate::number::decimal(limit as int);
    reveal_strlit("drive/v1/files?space=");
    reveal_strlit("&parent_id=");
    reveal_strlit("parent_id=");
    reveal_strlit("&limit=");
    reveal_strlit("limit=");
    lemma_space_is_empty();
    crate::encode::law_encoded_stays_in_its_parameter(parent_id);
    lemma_decimal_no_ampersand(limit as int);
    lemma_no_ampersand("parent_id="@, crate::encode::url_encoded(parent_id));
    lemma_no_ampersand("limit="@, crate::number::decimal(limit as int));
    crate::text::lemma_split_whole(start, '&');
    crate::text::lemma_split_last(start, '&', parent);
    crate::text::lemma_split_last(start + seq!['&'] + parent, '&', count);
    assert(cloud_files_call(parent_id, limit).path =~= start + seq!['&'] + parent + seq!['&']
        + count);
    assert(seq![start].push(parent).push(count) =~= seq![start, parent, count]);
}

/// The call for a link names the file in its path.
pub proof fn law_link_call_names_the_file(file_id: Seq<char>)
    ensures
        cloud_file_link_call(file_id).method == "GET"@,
        cloud_file_link_call(file_id).body is None,
        cloud_file_link_call(file_id).with_token,
        cloud_file_link_call(file_id).path == "drive/v1/files/"@ + file_id + "?space="@,
{
    lemma_space_is_empty();
    assert(cloud_file_link_call(file_id).path =~= "drive/v1/files/"@ + file_id + "?space="@);
}

/// The answers to a call give what their fields hold, or the error that says what is
/// missing.
pub proof fn law_missing_answers_are_told(v: JsonView, file_id: Seq<char>, link: Seq<char>)
    ensures
        now_result(v) == match crate::model::now_in(v) {
            Some(n) => Ok::<int, ErrorView>(n),
            None => Err::<int, ErrorView>(ErrorView::NoNow(crate::json::json_text(v))),
        },
        v.field("web_content_link"@) == Some(JsonView::Str(link)) && link.len() > 0 ==> link_result(
            v,
            file_id,
        ) == Ok::<Seq<char>, ErrorView>(link),
        link_result(v, file_id) is Ok ==> v.field("web_content_link"@) == Some(
            JsonView::Str(link_result(v, file_id)->Ok_0),
        ) && link_result(v, file_id)->Ok_0.len() > 0,
        link_result(v, file_id) is Err ==> link_result(v, file_id)->Err_0 == ErrorView::NoLink(
            file_id,
        ),
        crate::model::sizes_fit(crate::model::files_in(v)) ==> resolved_result(v) == Ok::<
            ResolvedView,
            ErrorView,
        >(crate::model::resolved_in(v)),
        !crate::model::sizes_fit(crate::model::files_in(v)) ==> resolved_result(v) == Err::<
            ResolvedView,
            ErrorView,
        >(ErrorView::SizeOverflow),
{
}

/// The device's time is asked for with a call that needs no token.
pub proof fn law_time_needs_no_token()
    ensures
        device_now_call().method == "GET"@,
        device_now_call().path == "device/now"@,
        device_now_call().body is None,
        !device_now_call().with_token,
{
}

} // verus!
