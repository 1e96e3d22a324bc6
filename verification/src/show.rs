//! What the commands print: tables, and JSON for scripts.

use vstd::prelude::*;

use crate::json::{pretty, with_field, with_text, Json, JsonView};
use crate::model::{FileView, Resolved, ResolvedFile, ResolvedView, Task, TaskView};
use crate::number::{align_left, align_right, signed_text, unsigned_text};
use crate::size::human_size;

verus! {

/// A size, or a dash where there is none to show.
pub open spec fn size_or_dash(bytes: int) -> Seq<char> {
    match crate::size::size_text(bytes) {
        Some(s) => s,
        None => "-"@,
    }
}

/// A speed, or a dash where there is none to show.
pub open spec fn speed_or_dash(bytes: int) -> Seq<char> {
    match crate::size::size_text(bytes) {
        Some(s) => s + "/s"@,
        None => "-"@,
    }
}

/// The line of a file in the table of a resolved link.
pub open spec fn file_line(f: FileView) -> Seq<char> {
    crate::number::right_aligned(crate::number::decimal(f.index as int), 4) + "  "@
        + crate::number::right_aligned(size_or_dash(f.size as int), 10) + "  "@ + f.name
}

/// The heading of the table of a resolved link.
pub open spec fn files_heading() -> Seq<char> {
    crate::number::right_aligned("IDX"@, 4) + "  "@ + crate::number::right_aligned("SIZE"@, 10)
        + "  NAME"@
}

/// The line that names a resolved link.
pub open spec fn title_line(r: ResolvedView) -> Seq<char> {
    "Resolved: "@ + if r.name.len() == 0 {
        "(unnamed)"@
    } else {
        r.name
    }
}

/// The line with the total size of a resolved link, where there is one.
pub open spec fn total_lines(r: ResolvedView) -> Seq<Seq<char>> {
    match crate::size::size_text(r.total_size as int) {
        Some(s) => seq![
            "Total: "@ + s + "  ("@ + crate::number::decimal(r.files.len() as int) + " file(s))"@,
        ],
        None => Seq::empty(),
    }
}

/// The lines that show a resolved link; its files are listed where there are
/// several.
pub open spec fn resolved_lines(r: ResolvedView) -> Seq<Seq<char>> {
    seq![title_line(r)] + total_lines(r) + if r.files.len() > 1 {
        seq![files_heading()] + r.files.map_values(|f: FileView| file_line(f))
    } else {
        Seq::empty()
    }
}

fn size_column(bytes: i64) -> (text: String)
    ensures
        text@ == size_or_dash(bytes as int),
{
    match human_size(bytes) {
        Some(s) => s,
        None => "-".to_string(),
    }
}

fn speed_column(bytes: i64) -> (text: String)
    ensures
        text@ == speed_or_dash(bytes as int),
{
    match human_size(bytes) {
        Some(s) => {
            let mut text = s;
            text.append("/s");
            text
        },
        None => "-".to_string(),
    }
}

fn file_row(f: &ResolvedFile) -> (line: String)
    ensures
        line@ == file_line(f@),
{
    let mut line = align_right(signed_text(f.index).as_str(), 4);
    line.append("  ");
    line.append(align_right(size_column(f.size).as_str(), 10).as_str());
    line.append("  ");
    line.append(f.name.as_str());
    line
}

/// The lines that show a resolved link.
pub fn resolved_table(r: &Resolved) -> (lines: Vec<String>)
    ensures
        crate::text::texts(lines@) == resolved_lines(r@),
{
    let mut lines: Vec<String> = Vec::new();
    let mut title = "Resolved: ".to_string();
    if r.name.as_str().is_empty() {
        title.append("(unnamed)");
    } else {
        title.append(r.name.as_str());
    }
    lines.push(title);
    assert(crate::text::texts(lines@) =~= seq![title_line(r@)]);
    if let Some(s) = human_size(r.total_size) {
        let mut total = "Total: ".to_string();
        total.append(s.as_str());
        total.append("  (");
        total.append(unsigned_text(r.files.len() as u64).as_str());
        total.append(" file(s))");
        lines.push(total);
    }
    assert(crate::text::texts(lines@) =~= seq![title_line(r@)] + total_lines(r@));
    let n = r.files.len();
    if n > 1 {
        let mut heading = align_right("IDX", 4);
        heading.append("  ");
        heading.append(align_right("SIZE", 10).as_str());
        heading.append("  NAME");
        lines.push(heading);
        let ghost head = crate::text::texts(lines@);
        let ghost rows = r@.files.map_values(|f: FileView| file_line(f));
        let mut i: usize = 0;
        assert(head + rows.take(0) =~= head);
        while i < n
            invariant
                n == r.files@.len(),
                rows == r@.files.map_values(|f: FileView| file_line(f)),
                i <= n,
                crate::text::texts(lines@) == head + rows.take(i as int),
            decreases n - i,
        {
            let ghost before = crate::text::texts(lines@);
            lines.push(file_row(&r.files[i]));
            assert(rows[i as int] == file_line(r.files@[i as int]@));
            assert(crate::text::texts(lines@) =~= before.push(rows[i as int]));
            i = i + 1;
            assert(crate::text::texts(lines@) =~= head + rows.take(i as int));
        }
        assert(crate::text::texts(lines@) =~= resolved_lines(r@));
    } else {
        assert(crate::text::texts(lines@) =~= resolved_lines(r@));
    }
    lines
}

/// A file of a resolved link, as JSON.
pub open spec fn file_json(f: FileView) -> JsonView {
    JsonView::Object(
        Map::<Seq<char>, JsonView>::empty().insert("index"@, JsonView::Int(f.index)).insert(
            "name"@,
            JsonView::Str(f.name),
        ).insert("size"@, JsonView::Int(f.size)).insert("is_dir"@, JsonView::Bool(f.is_dir)),
    )
}

/// A resolved link, as JSON.
pub open spec fn resolved_json(r: ResolvedView) -> JsonView {
    JsonView::Object(
        Map::<Seq<char>, JsonView>::empty().insert("list_id"@, JsonView::Str(r.list_id)).insert(
            "name"@,
            JsonView::Str(r.name),
        ).insert("total_size"@, JsonView::Int(r.total_size)).insert(
            "files"@,
            JsonView::Array(r.files.map_values(|f: FileView| file_json(f))),
        ),
    )
}

fn file_to_json(f: &ResolvedFile) -> (j: Json)
    ensures
        j@ == file_json(f@),
{
    let fields: Vec<(String, Json)> = Vec::new();
    let fields = with_field(fields, "index", Json::Int(f.index));
    let fields = with_text(fields, "name", f.name.as_str());
    let fields = with_field(fields, "size", Json::Int(f.size));
    let fields = with_field(fields, "is_dir", Json::Bool(f.is_dir));
    Json::Object(fields)
}

/// A resolved link, as JSON.
pub fn resolved_to_json(r: &Resolved) -> (j: Json)
    ensures
        j@ == resolved_json(r@),
{
    let mut files: Vec<Json> = Vec::new();
    let n = r.files.len();
    let mut i: usize = 0;
    while i < n
        invariant
            n == r.files@.len(),
            i <= n,
            files@.len() == i,
            forall|k: int| 0 <= k < i ==> (#[trigger] files@[k])@ == file_json(r.files@[k]@),
        decreases n - i,
    {
        files.push(file_to_json(&r.files[i]));
        i = i + 1;
    }
    assert(crate::json::items_view(files@) =~= r@.files.map_values(|f: FileView| file_json(f)));
    let fields: Vec<(String, Json)> = Vec::new();
    let fields = with_text(fields, "list_id", r.list_id.as_str());
    let fields = with_text(fields, "name", r.name.as_str());
    let fields = with_field(fields, "total_size", Json::Int(r.total_size));
    let fields = with_field(fields, "files", Json::Array(files));
    Json::Object(fields)
}

/// A resolved link, as the text of its JSON, for scripts to read.
pub fn resolved_json_text(r: &Resolved) -> (text: String)
    ensures
        text@ == crate::json::json_pretty(resolved_json(r@)),
        crate::json::reads_as(text@, resolved_json(r@)),
{
    proof {
        reveal_with_fuel(crate::json::plain, 4);
        reveal_strlit("list_id");
        reveal_strlit("name");
        reveal_strlit("total_size");
        reveal_strlit("files");
        reveal_strlit("index");
        reveal_strlit("size");
        reveal_strlit("is_dir");
        let files = r@.files.map_values(|f: FileView| file_json(f));
        assert forall|i: int| 0 <= i < files.len() implies crate::json::plain(
            #[trigger] files[i],
            98,
        ) by {
            assert(files[i] == file_json(r@.files[i]));
        }
    }
    pretty(resolved_to_json(r))
}

/// A task, as JSON.
pub open spec fn task_json(t: TaskView) -> JsonView {
    JsonView::Object(
        Map::<Seq<char>, JsonView>::empty().insert("id"@, JsonView::Str(t.id)).insert(
            "name"@,
            JsonView::Str(t.name),
        ).insert("size"@, JsonView::Int(t.file_size)).insert(
            "progress"@,
            JsonView::Int(t.progress),
        ).insert("phase"@, JsonView::Str(crate::model::phase_label(t.phase))).insert(
            "speed"@,
            JsonView::Int(t.speed),
        ).insert("message"@, JsonView::Str(t.message)),
    )
}

/// Tasks, as JSON.
pub open spec fn tasks_json(tasks: Seq<TaskView>) -> JsonView {
    JsonView::Array(tasks.map_values(|t: TaskView| task_json(t)))
}

fn task_to_json(t: &Task) -> (j: Json)
    ensures
        j@ == task_json(t@),
{
    let fields: Vec<(String, Json)> = Vec::new();
    let fields = with_text(fields, "id", t.id.as_str());
    let fields = with_text(fields, "name", t.name.as_str());
    let fields = with_field(fields, "size", Json::Int(t.file_size));
    let fields = with_field(fields, "progress", Json::Int(t.progress));
    let fields = with_text(fields, "phase", t.phase_label());
    let fields = with_field(fields, "speed", Json::Int(t.speed));
    let fields = with_text(fields, "message", t.message.as_str());
    Json::Object(fields)
}

/// Tasks, as JSON.
pub fn tasks_to_json(tasks: &Vec<Task>) -> (j: Json)
    ensures
        j@ == tasks_json(crate::model::tasks_view(tasks@)),
{
    let mut items: Vec<Json> = Vec::new();
    let n = tasks.len();
    let mut i: usize = 0;
    while i < n
        invariant
            n == tasks@.len(),
            i <= n,
            items@.len() == i,
            forall|k: int| 0 <= k < i ==> (#[trigger] items@[k])@ == task_json(tasks@[k]@),
        decreases n - i,
    {
        items.push(task_to_json(&tasks[i]));
        i = i + 1;
    }
    assert(crate::json::items_view(items@) =~= crate::model::tasks_view(tasks@).map_values(
        |t: TaskView| task_json(t),
    ));
    Json::Array(items)
}

/// Tasks, as the text of their JSON, for scripts to read.
pub fn tasks_json_text(tasks: &Vec<Task>) -> (text: String)
    ensures
        text@ == crate::json::json_pretty(tasks_json(crate::model::tasks_view(tasks@))),
        crate::json::reads_as(text@, tasks_json(crate::model::tasks_view(tasks@))),
{
    proof {
        reveal_with_fuel(crate::json::plain, 3);
        reveal_strlit("id");
        reveal_strlit("name");
        reveal_strlit("size");
        reveal_strlit("progress");
        reveal_strlit("phase");
        reveal_strlit("speed");
        reveal_strlit("message");
        let all = crate::model::tasks_view(tasks@);
        let items = all.map_values(|t: TaskView| task_json(t));
        assert forall|i: int| 0 <= i < items.len() implies crate::json::plain(
            #[trigger] items[i],
            99,
        ) by {
            assert(items[i] == task_json(all[i]));
        }
    }
    pretty(tasks_to_json(tasks))
}

/// How many bytes of an id the task table shows.
pub const ID_BYTES: usize = 20;

/// Whether an id can be cut for the table: it is short, or a character ends where
/// it is cut.
pub open spec fn id_cuts(id: Seq<char>) -> bool {
    let bytes = vstd::utf8::encode_utf8(id);
    bytes.len() <= ID_BYTES || vstd::utf8::is_char_boundary(bytes, ID_BYTES as int)
}

/// The part of an id that the table shows.
pub open spec fn short_id(id: Seq<char>) -> Seq<char> {
    let bytes = vstd::utf8::encode_utf8(id);
    if bytes.len() > ID_BYTES {
        vstd::utf8::decode_utf8(bytes.subrange(0, ID_BYTES as int))
    } else {
        id
    }
}

/// The heading of the task table.
pub open spec fn tasks_heading() -> Seq<char> {
    crate::number::left_aligned("ID"@, 20) + " "@ + crate::number::right_aligned("PROG"@, 4)
        + "%  "@ + crate::number::left_aligned("PHASE"@, 9) + " "@
        + crate::number::right_aligned("SPEED"@, 10) + "  NAME"@
}

/// The line of a task.
pub open spec fn task_line(t: TaskView) -> Seq<char> {
    crate::number::left_aligned(short_id(t.id), 20) + " "@ + crate::number::right_aligned(
        crate::number::decimal(t.progress as int),
        4,
    ) + "  "@ + crate::number::left_aligned(crate::model::phase_label(t.phase), 9) + " "@
        + crate::number::right_aligned(speed_or_dash(t.speed as int), 10) + "  "@ + t.name
}

/// The lines of a task: its own, and one for its message.
pub open spec fn task_lines(t: TaskView) -> Seq<Seq<char>> {
    if t.message.len() == 0 {
        seq![task_line(t)]
    } else {
        seq![task_line(t), "  └ "@ + t.message]
    }
}

/// The lines of several tasks.
pub open spec fn rows_of(tasks: Seq<TaskView>) -> Seq<Seq<char>>
    decreases tasks.len(),
{
    if tasks.len() == 0 {
        Seq::empty()
    } else {
        rows_of(tasks.drop_last()) + task_lines(tasks.last())
    }
}

/// The lines that show a list of tasks.
pub open spec fn list_lines(tasks: Seq<TaskView>) -> Seq<Seq<char>> {
    if tasks.len() == 0 {
        seq!["No tasks."@]
    } else {
        seq![tasks_heading()] + rows_of(tasks)
    }
}

/// Whether the ids of all tasks can be cut for the table.
pub open spec fn ids_cut(tasks: Seq<TaskView>) -> bool {
    forall|i: int| 0 <= i < tasks.len() ==> id_cuts((#[trigger] tasks[i]).id)
}

/// The part of an id that the table shows.
pub fn cut_id(id: &str) -> (short: &str)
    requires
        id_cuts(id@),
    ensures
        short@ == short_id(id@),
{
    if id.as_bytes().len() > ID_BYTES {
        let (short, rest) = id.split_at(ID_BYTES);
        proof {
            vstd::utf8::encode_utf8_decode_utf8(short@);
        }
        short
    } else {
        id
    }
}

/// Whether an id can be cut for the table.
pub fn can_cut_id(id: &str) -> (yes: bool)
    ensures
        yes == id_cuts(id@),
{
    let n = id.as_bytes().len();
    n <= ID_BYTES || id.is_char_boundary(ID_BYTES)
}

/// Whether the ids of all tasks can be cut for the table.
pub fn can_cut_ids(tasks: &Vec<Task>) -> (yes: bool)
    ensures
        yes == ids_cut(crate::model::tasks_view(tasks@)),
{
    let ghost all = crate::model::tasks_view(tasks@);
    let n = tasks.len();
    let mut i: usize = 0;
    while i < n
        invariant
            n == tasks@.len(),
            all == crate::model::tasks_view(tasks@),
            i <= n,
            forall|k: int| 0 <= k < i ==> id_cuts((#[trigger] all[k]).id),
        decreases n - i,
    {
        assert(all[i as int] == tasks@[i as int]@);
        if !can_cut_id(tasks[i].id.as_str()) {
            return false;
        }
        i = i + 1;
    }
    true
}

fn task_row(t: &Task) -> (line: String)
    requires
        id_cuts(t@.id),
    ensures
        line@ == task_line(t@),
{
    let mut line = align_left(cut_id(t.id.as_str()), 20);
    line.append(" ");
    line.append(align_right(signed_text(t.progress).as_str(), 4).as_str());
    line.append("  ");
    line.append(align_left(t.phase_label(), 9).as_str());
    line.append(" ");
    line.append(align_right(speed_column(t.speed).as_str(), 10).as_str());
    line.append("  ");
    line.append(t.name.as_str());
    line
}

/// The lines that show a list of tasks.
pub fn task_table(tasks: &Vec<Task>) -> (lines: Vec<String>)
    requires
        ids_cut(crate::model::tasks_view(tasks@)),
    ensures
        crate::text::texts(lines@) == list_lines(crate::model::tasks_view(tasks@)),
{
    let ghost all = crate::model::tasks_view(tasks@);
    let mut lines: Vec<String> = Vec::new();
    let n = tasks.len();
    if n == 0 {
        lines.push("No tasks.".to_string());
        assert(crate::text::texts(lines@) =~= list_lines(all));
        return lines;
    }
    let mut heading = align_left("ID", 20);
    heading.append(" ");
    heading.append(align_right("PROG", 4).as_str());
    heading.append("%  ");
    heading.append(align_left("PHASE", 9).as_str());
    heading.append(" ");
    heading.append(align_right("SPEED", 10).as_str());
    heading.append("  NAME");
    lines.push(heading);
    let ghost head = seq![tasks_heading()];
    assert(crate::text::texts(lines@) =~= head + rows_of(all.take(0)));
    let mut i: usize = 0;
    while i < n
        invariant
            n == tasks@.len(),
            all == crate::model::tasks_view(tasks@),
            ids_cut(all),
            i <= n,
            crate::text::texts(lines@) == head + rows_of(all.take(i as int)),
        decreases n - i,
    {
        let t = &tasks[i];
        assert(all[i as int] == t@);
        assert(all.take(i + 1).drop_last() =~= all.take(i as int));
        assert(all.take(i + 1).last() == t@);
        let ghost before = crate::text::texts(lines@);
        lines.push(task_row(t));
        if !t.message.as_str().is_empty() {
            let mut note = "  └ ".to_string();
            note.append(t.message.as_str());
            lines.push(note);
        }
        assert(crate::text::texts(lines@) =~= before + task_lines(t@));
        i = i + 1;
        assert(crate::text::texts(lines@) =~= head + rows_of(all.take(i as int)));
    }
    assert(all.take(n as int) =~= all);
    lines
}

// ---- laws -----------------------------------------------------------------

/// Whether a value is the JSON of a file.
pub open spec fn tells_file(v: JsonView, f: FileView) -> bool {
    &&& v.field("index"@) == Some(JsonView::Int(f.index))
    &&& v.field("name"@) == Some(JsonView::Str(f.name))
    &&& v.field("size"@) == Some(JsonView::Int(f.size))
    &&& v.field("is_dir"@) == Some(JsonView::Bool(f.is_dir))
}

/// The JSON of a resolved link tells its id, name and size, and of every file, in order,
/// its index, name and size.
pub proof fn law_json_tells_the_link(r: ResolvedView)
    ensures
        resolved_json(r).field("list_id"@) == Some(JsonView::Str(r.list_id)),
        resolved_json(r).field("name"@) == Some(JsonView::Str(r.name)),
        resolved_json(r).field("total_size"@) == Some(JsonView::Int(r.total_size)),
        resolved_json(r).field("files"@) matches Some(JsonView::Array(items)) && items.len()
            == r.files.len() && forall|i: int|
            0 <= i < items.len() ==> tells_file(#[trigger] items[i], r.files[i]),
{
    reveal_strlit("list_id");
    reveal_strlit("name");
    reveal_strlit("total_size");
    reveal_strlit("files");
    reveal_strlit("index");
    reveal_strlit("size");
    reveal_strlit("is_dir");
    assert("list_id"@.len() == 7 && "name"@.len() == 4 && "total_size"@.len() == 10
        && "files"@.len() == 5);
    assert("index"@.len() == 5 && "size"@.len() == 4 && "is_dir"@.len() == 6);
    assert("name"@[0] != "size"@[0]);
    let j = resolved_json(r);
    assert(j.field("list_id"@) == Some(JsonView::Str(r.list_id)));
    assert(j.field("name"@) == Some(JsonView::Str(r.name)));
    assert(j.field("total_size"@) == Some(JsonView::Int(r.total_size)));
    let items = r.files.map_values(|f: FileView| file_json(f));
    assert(j.field("files"@) == Some(JsonView::Array(items)));
    assert forall|i: int| 0 <= i < items.len() implies tells_file(#[trigger] items[i], r.files[i]) by {
        let f = r.files[i];
        assert(items[i] == file_json(f));
        assert(items[i].field("index"@) == Some(JsonView::Int(f.index)));
        assert(items[i].field("name"@) == Some(JsonView::Str(f.name)));
        assert(items[i].field("size"@) == Some(JsonView::Int(f.size)));
    }
}

/// Whether a value is the JSON of a task.
pub open spec fn tells_task(v: JsonView, t: TaskView) -> bool {
    &&& v.field("id"@) == Some(JsonView::Str(t.id))
    &&& v.field("name"@) == Some(JsonView::Str(t.name))
    &&& v.field("size"@) == Some(JsonView::Int(t.file_size))
    &&& v.field("progress"@) == Some(JsonView::Int(t.progress))
    &&& v.field("phase"@) == Some(JsonView::Str(crate::model::phase_label(t.phase)))
    &&& v.field("speed"@) == Some(JsonView::Int(t.speed))
    &&& v.field("message"@) == Some(JsonView::Str(t.message))
}

/// The JSON of a list of tasks tells of every task, in order, all that is known of it.
pub proof fn law_json_tells_every_task(tasks: Seq<TaskView>)
    ensures
        tasks_json(tasks) matches JsonView::Array(items) && items.len() == tasks.len()
            && forall|i: int|
            0 <= i < items.len() ==> tells_task(#[trigger] items[i], tasks[i]),
{
    reveal_strlit("id");
    reveal_strlit("name");
    reveal_strlit("size");
    reveal_strlit("progress");
    reveal_strlit("phase");
    reveal_strlit("speed");
    reveal_strlit("message");
    assert("id"@.len() == 2 && "name"@.len() == 4 && "size"@.len() == 4 && "progress"@.len() == 8
        && "phase"@.len() == 5 && "speed"@.len() == 5 && "message"@.len() == 7);
    assert("name"@[0] != "size"@[0] && "phase"@[0] != "speed"@[0]);
    let items = tasks.map_values(|t: TaskView| task_json(t));
    assert forall|i: int| 0 <= i < items.len() implies tells_task(#[trigger] items[i], tasks[i]) by {
        let t = tasks[i];
        assert(items[i] == task_json(t));
        assert(items[i].field("id"@) == Some(JsonView::Str(t.id)));
        assert(items[i].field("name"@) == Some(JsonView::Str(t.name)));
        assert(items[i].field("size"@) == Some(JsonView::Int(t.file_size)));
        assert(items[i].field("progress"@) == Some(JsonView::Int(t.progress)));
        assert(items[i].field("phase"@) == Some(
            JsonView::Str(crate::model::phase_label(t.phase)),
        ));
        assert(items[i].field("speed"@) == Some(JsonView::Int(t.speed)));
    }
}

/// The table of a resolved link begins with its name, then tells its size, where it has
/// one, and the number of its files, and then, where there are several, has a heading
/// and a row for every file, in order, with its index, its size and its name.
pub proof fn law_table_shows_the_link(r: ResolvedView)
    ensures
        resolved_lines(r).len() > 0,
        resolved_lines(r)[0] == "Resolved: "@ + (if r.name.len() == 0 {
            "(unnamed)"@
        } else {
            r.name
        }),
        resolved_lines(r).len() == 1 + (if r.total_size > 0 {
            1int
        } else {
            0int
        }) + (if r.files.len() > 1 {
            1 + r.files.len()
        } else {
            0
        }),
        r.total_size > 0 ==> resolved_lines(r)[1] == "Total: "@ + crate::size::size_text(
            r.total_size as int,
        )->0 + "  ("@ + crate::number::decimal(r.files.len() as int) + " file(s))"@,
        r.files.len() > 1 ==> forall|i: int|
            0 <= i < r.files.len() ==> #[trigger] resolved_lines(r)[resolved_lines(r).len()
                - r.files.len() + i] == crate::number::right_aligned(
                crate::number::decimal(r.files[i].index as int),
                4,
            ) + "  "@ + crate::number::right_aligned(
                if r.files[i].size > 0 {
                    crate::size::size_text(r.files[i].size as int)->0
                } else {
                    "-"@
                },
                10,
            ) + "  "@ + r.files[i].name,
{
    let lines = resolved_lines(r);
    if r.files.len() > 1 {
        let rows = r.files.map_values(|f: FileView| file_line(f));
        let head = seq![title_line(r)] + total_lines(r) + seq![files_heading()];
        assert(lines =~= head + rows);
        assert forall|i: int| 0 <= i < r.files.len() implies #[trigger] lines[lines.len()
            - r.files.len() + i] == file_line(r.files[i]) by {
            assert(lines[head.len() + i] == rows[i]);
        }
    }
}

/// The rows of two lists of tasks, one after the other, are those of the first and then
/// those of the second; a task has a row with its id, progress, phase, speed and name,
/// and one more with its message, where it has one.
pub proof fn law_every_task_has_its_row(a: Seq<TaskView>, b: Seq<TaskView>, t: TaskView)
    ensures
        rows_of(a + b) == rows_of(a) + rows_of(b),
        rows_of(seq![t])[0] == crate::number::left_aligned(short_id(t.id), 20) + " "@
            + crate::number::right_aligned(crate::number::decimal(t.progress as int), 4) + "  "@
            + crate::number::left_aligned(crate::model::phase_label(t.phase), 9) + " "@
            + crate::number::right_aligned(
            if t.speed > 0 {
                crate::size::size_text(t.speed as int)->0 + "/s"@
            } else {
                "-"@
            },
            10,
        ) + "  "@ + t.name,
        t.message.len() == 0 ==> rows_of(seq![t]).len() == 1,
        t.message.len() > 0 ==> rows_of(seq![t]).len() == 2 && rows_of(seq![t])[1] == "  └ "@
            + t.message,
        a.len() > 0 ==> list_lines(a) == seq![tasks_heading()] + rows_of(a),
        a.len() == 0 ==> list_lines(a) == seq!["No tasks."@],
    decreases b.len(),
{
    let one = seq![t];
    assert(one.drop_last() =~= Seq::<TaskView>::empty());
    assert(rows_of(one.drop_last()) == Seq::<Seq<char>>::empty());
    assert(rows_of(one) =~= task_lines(t));
    if b.len() == 0 {
        assert(a + b =~= a);
        assert(rows_of(a) + rows_of(b) =~= rows_of(a));
    } else {
        law_every_task_has_its_row(a, b.drop_last(), t);
        assert((a + b).drop_last() =~= a + b.drop_last());
        assert((a + b).last() == b.last());
        assert((rows_of(a) + rows_of(b.drop_last())) + task_lines(b.last()) =~= rows_of(a) + (
        rows_of(b.drop_last()) + task_lines(b.last())));
    }
}

/// An id of no more bytes than the table has room for is shown whole; of a longer one
/// that can be cut, the table shows its first bytes.
pub proof fn law_ids_are_cut_to_the_column(id: Seq<char>)
    requires
        id_cuts(id),
    ensures
        vstd::utf8::encode_utf8(id).len() <= 20 ==> short_id(id) == id,
        vstd::utf8::encode_utf8(id).len() > 20 ==> vstd::utf8::encode_utf8(short_id(id))
            == vstd::utf8::encode_utf8(id).take(20),
{
    let bytes = vstd::utf8::encode_utf8(id);
    if bytes.len() > 20 {
        vstd::utf8::encode_utf8_valid_utf8(id);
        vstd::utf8::valid_utf8_split(bytes, 20);
        assert(bytes.subrange(0, 20) =~= bytes.take(20));
        vstd::utf8::decode_utf8_encode_utf8(bytes.subrange(0, 20));
    }
}

} // verus!
