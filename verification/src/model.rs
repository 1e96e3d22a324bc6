//! What the drive API speaks of: resolved links, download tasks and cloud files,
//! and how each is read out of a JSON answer.

use vstd::prelude::*;

use crate::json::{as_i64, Json, JsonView};
use crate::text::{ends_with, starts_with};

verus! {

/// A resource (file) inside a resolved magnet/torrent/URL.
#[derive(Debug, Clone, PartialEq)]
pub struct ResolvedFile {
    pub index: i64,
    pub name: String,
    pub size: i64,
    pub is_dir: bool,
}

pub struct FileView {
    pub index: i64,
    pub name: Seq<char>,
    pub size: i64,
    pub is_dir: bool,
}

impl View for ResolvedFile {
    type V = FileView;

    open spec fn view(&self) -> FileView {
        FileView { index: self.index, name: self.name@, size: self.size, is_dir: self.is_dir }
    }
}

/// The outcome of resolving a link: an overall name plus the file list.
#[derive(Debug, Clone, PartialEq)]
pub struct Resolved {
    pub list_id: String,
    pub name: String,
    pub total_size: i64,
    pub files: Vec<ResolvedFile>,
}

#[verifier::ext_equal]
pub struct ResolvedView {
    pub list_id: Seq<char>,
    pub name: Seq<char>,
    pub total_size: i64,
    pub files: Seq<FileView>,
}

impl View for Resolved {
    type V = ResolvedView;

    open spec fn view(&self) -> ResolvedView {
        ResolvedView {
            list_id: self.list_id@,
            name: self.name@,
            total_size: self.total_size,
            files: files_view(self.files@),
        }
    }
}

pub open spec fn files_view(files: Seq<ResolvedFile>) -> Seq<FileView> {
    files.map_values(|f: ResolvedFile| f@)
}

/// A download task as seen when listing.
#[derive(Debug, Clone, PartialEq)]
pub struct Task {
    pub id: String,
    pub name: String,
    pub file_size: i64,
    /// 0-100.
    pub progress: i64,
    /// PHASE_TYPE_RUNNING / PENDING / PAUSED / ERROR / COMPLETE.
    pub phase: String,
    /// Bytes/sec, read from `params["download_speed"]`; 0 if absent.
    pub speed: i64,
    pub message: String,
}

#[verifier::ext_equal]
pub struct TaskView {
    pub id: Seq<char>,
    pub name: Seq<char>,
    pub file_size: i64,
    pub progress: i64,
    pub phase: Seq<char>,
    pub speed: i64,
    pub message: Seq<char>,
}

impl View for Task {
    type V = TaskView;

    open spec fn view(&self) -> TaskView {
        TaskView {
            id: self.id@,
            name: self.name@,
            file_size: self.file_size,
            progress: self.progress,
            phase: self.phase@,
            speed: self.speed,
            message: self.message@,
        }
    }
}

pub open spec fn tasks_view(tasks: Seq<Task>) -> Seq<TaskView> {
    tasks.map_values(|t: Task| t@)
}

pub const PHASE_PREFIX: &'static str = "PHASE_TYPE_";

/// A phase without the prefix that every phase of the API has.
pub open spec fn phase_label(phase: Seq<char>) -> Seq<char> {
    if PHASE_PREFIX@.is_prefix_of(phase) {
        phase.skip(PHASE_PREFIX@.len() as int)
    } else {
        phase
    }
}

impl Task {
    /// Human phase label, stripped of the `PHASE_TYPE_` prefix.
    pub fn phase_label(&self) -> (label: &str)
        ensures
            label@ == phase_label(self@.phase),
    {
        let phase = self.phase.as_str();
        if starts_with(phase, PHASE_PREFIX) {
            let n = phase.unicode_len();
            let k = PHASE_PREFIX.unicode_len();
            assert(phase@.subrange(k as int, n as int) =~= phase@.skip(k as int));
            phase.substring_char(k, n)
        } else {
            phase
        }
    }
}

/// A file entry in the cloud drive.
#[derive(Debug, Clone, PartialEq)]
pub struct CloudFile {
    pub id: String,
    pub name: String,
    pub size: i64,
    pub is_dir: bool,
}

#[verifier::ext_equal]
pub struct CloudView {
    pub id: Seq<char>,
    pub name: Seq<char>,
    pub size: i64,
    pub is_dir: bool,
}

impl View for CloudFile {
    type V = CloudView;

    open spec fn view(&self) -> CloudView {
        CloudView { id: self.id@, name: self.name@, size: self.size, is_dir: self.is_dir }
    }
}

pub open spec fn clouds_view(files: Seq<CloudFile>) -> Seq<CloudView> {
    files.map_values(|f: CloudFile| f@)
}

// ---- reading answers ------------------------------------------------------

/// The file that a resource of a resolved link describes.
pub open spec fn file_in(r: JsonView) -> FileView {
    FileView {
        index: r.field_integer("file_index"@) as i64,
        name: r.field_text("name"@),
        size: r.field_integer("file_size"@) as i64,
        is_dir: r.field_true("is_dir"@),
    }
}

/// The resources inside a directory resource.
pub open spec fn children_in(r: JsonView) -> Option<Seq<JsonView>> {
    match r.field("dir"@) {
        Some(dir) => dir.field_items("resources"@),
        None => None,
    }
}

pub proof fn lemma_children_are_smaller(r: JsonView)
    requires
        children_in(r) is Some,
    ensures
        decreases_to!(r => children_in(r)->0),
{
    let dir = r.field("dir"@)->0;
    crate::json::lemma_field_is_smaller(r->Object_0, "dir"@);
    crate::json::lemma_field_is_smaller(dir->Object_0, "resources"@);
    let list = dir.field("resources"@)->0;
    assert(decreases_to!(list => list->Array_0));
}

/// The files among `resources` and, for a directory, inside it, in order.
pub open spec fn leaves_in(resources: Seq<JsonView>) -> Seq<FileView>
    decreases resources,
{
    if resources.len() == 0 {
        Seq::empty()
    } else {
        leaves_in(resources.drop_last()) + leaves_of(resources.last())
    }
}

/// The files that one resource stands for: itself, or what a directory holds.
pub open spec fn leaves_of(r: JsonView) -> Seq<FileView>
    decreases r,
{
    if !r.field_true("is_dir"@) {
        seq![file_in(r)]
    } else if children_in(r) is Some {
        proof {
            lemma_children_are_smaller(r);
        }
        leaves_in(children_in(r)->0)
    } else {
        Seq::empty()
    }
}

/// The file that a resource of a resolved link describes.
pub fn resource_to_file(r: &Json) -> (file: ResolvedFile)
    ensures
        file@ == file_in(r@),
{
    ResolvedFile {
        index: r.integer_of("file_index"),
        name: r.text_of("name"),
        size: r.integer_of("file_size"),
        is_dir: r.is_true("is_dir"),
    }
}

/// Recursively walk a resource tree, appending leaf (non-dir) files. The
/// `file_index` on each leaf is a flat global index across the whole tree.
pub fn collect_leaves(resources: &Vec<Json>, out: &mut Vec<ResolvedFile>)
    ensures
        files_view(final(out)@) == files_view(old(out)@) + leaves_in(
            crate::json::items_view(resources@),
        ),
    decreases crate::json::items_view(resources@),
{
    let ghost all = crate::json::items_view(resources@);
    let ghost before = files_view(out@);
    let n = resources.len();
    let mut i: usize = 0;
    assert(all.take(0) =~= Seq::<JsonView>::empty());
    assert(before + leaves_in(all.take(0)) =~= before);
    while i < n
        invariant
            n == resources@.len(),
            all == crate::json::items_view(resources@),
            i <= n,
            files_view(out@) == before + leaves_in(all.take(i as int)),
        decreases n - i,
    {
        let r = &resources[i];
        let ghost so_far = files_view(out@);
        assert(all[i as int] == r@);
        assert(all.take(i + 1).drop_last() =~= all.take(i as int));
        assert(all.take(i + 1).last() == r@);
        if r.is_true("is_dir") {
            if let Some(dir) = r.get("dir") {
                if let Some(children) = dir.items_of("resources") {
                    proof {
                        lemma_children_are_smaller(r@);
                        assert(decreases_to!(all => all[i as int]));
                    }
                    collect_leaves(children, out);
                }
            }
        } else {
            out.push(resource_to_file(r));
            assert(files_view(out@) =~= so_far.push(file_in(r@)));
        }
        i = i + 1;
        assert(files_view(out@) =~= so_far + leaves_of(r@));
        assert(files_view(out@) =~= before + leaves_in(all.take(i as int)));
    }
    assert(all.take(n as int) =~= all);
}

/// The resources at the top of an answer to a resolve request.
pub open spec fn resources_in(v: JsonView) -> Option<Seq<JsonView>> {
    match v.field("list"@) {
        Some(list) => list.field_items("resources"@),
        None => None,
    }
}

/// The files in an answer to a resolve request: the leaves of the tree, or, where
/// it has none, the first resource itself.
pub open spec fn files_in(v: JsonView) -> Seq<FileView> {
    match resources_in(v) {
        Some(resources) => if leaves_in(resources).len() > 0 || resources.len() == 0 {
            leaves_in(resources)
        } else {
            seq![file_in(resources[0])]
        },
        None => Seq::empty(),
    }
}

/// The title in an answer to a resolve request: the name of the first resource.
pub open spec fn title_in(v: JsonView) -> Seq<char> {
    match resources_in(v) {
        Some(resources) => if resources.len() > 0 {
            resources[0].field_text("name"@)
        } else {
            Seq::empty()
        },
        None => Seq::empty(),
    }
}

/// The sizes of files, added up.
pub open spec fn size_sum(files: Seq<FileView>) -> int
    decreases files.len(),
{
    if files.len() == 0 {
        0
    } else {
        size_sum(files.drop_last()) + files.last().size
    }
}

/// Whether the sizes can be added up one after the other within 64 bits.
pub open spec fn sizes_fit(files: Seq<FileView>) -> bool {
    forall|k: int|
        0 <= k <= files.len() ==> i64::MIN <= #[trigger] size_sum(files.take(k)) <= i64::MAX
}

/// The sizes of files, added up, where every partial sum is within 64 bits.
pub fn total_size(files: &Vec<ResolvedFile>) -> (total: Option<i64>)
    ensures
        total is Some <==> sizes_fit(files_view(files@)),
        total matches Some(n) ==> n == size_sum(files_view(files@)),
{
    let ghost all = files_view(files@);
    let n = files.len();
    let mut total: i64 = 0;
    let mut i: usize = 0;
    assert(size_sum(all.take(0)) == 0);
    while i < n
        invariant
            n == files@.len(),
            all == files_view(files@),
            i <= n,
            total == size_sum(all.take(i as int)),
            forall|k: int|
                0 <= k <= i ==> i64::MIN <= #[trigger] size_sum(all.take(k)) <= i64::MAX,
        decreases n - i,
    {
        assert(all.take(i + 1).drop_last() =~= all.take(i as int));
        assert(all.take(i + 1).last() == files@[i as int]@);
        match total.checked_add(files[i].size) {
            Some(sum) => {
                total = sum;
            },
            None => {
                assert(!(i64::MIN <= size_sum(all.take(i + 1)) <= i64::MAX));
                return None;
            },
        }
        i = i + 1;
    }
    assert(all.take(n as int) =~= all);
    Some(total)
}

/// The files in an answer to a resolve request.
pub fn read_files(v: &Json) -> (files: Vec<ResolvedFile>)
    ensures
        files_view(files@) == files_in(v@),
{
    let mut files: Vec<ResolvedFile> = Vec::new();
    assert(files_view(files@) =~= Seq::<FileView>::empty());
    if let Some(list) = v.get("list") {
        if let Some(resources) = list.items_of("resources") {
            collect_leaves(resources, &mut files);
            assert(files_view(files@) =~= leaves_in(crate::json::items_view(resources@)));
            if files.len() == 0 && resources.len() > 0 {
                files.push(resource_to_file(&resources[0]));
                assert(files_view(files@) =~= seq![
                    file_in(crate::json::items_view(resources@)[0]),
                ]);
            }
        }
    }
    files
}

/// The title in an answer to a resolve request.
fn read_title(v: &Json) -> (title: String)
    ensures
        title@ == title_in(v@),
{
    if let Some(list) = v.get("list") {
        if let Some(resources) = list.items_of("resources") {
            if resources.len() > 0 {
                assert(crate::json::items_view(resources@)[0] == resources@[0]@);
                return resources[0].text_of("name");
            }
        }
    }
    String::new()
}

/// What an answer to a resolve request says of the link.
pub open spec fn resolved_in(v: JsonView) -> ResolvedView {
    ResolvedView {
        list_id: v.field_text("list_id"@),
        name: title_in(v),
        total_size: size_sum(files_in(v)) as i64,
        files: files_in(v),
    }
}

/// What an answer to a resolve request says of the link, where the sizes of its
/// files can be added up.
pub fn read_resolved(v: &Json) -> (resolved: Option<Resolved>)
    ensures
        resolved is Some <==> sizes_fit(files_in(v@)),
        resolved matches Some(r) ==> r@ == resolved_in(v@),
{
    let files = read_files(v);
    match total_size(&files) {
        Some(total_size) => {
            Some(
                Resolved { list_id: v.text_of("list_id"), name: read_title(v), total_size, files },
            )
        },
        None => None,
    }
}

/// The task that an entry of a task list describes.
pub open spec fn task_in(v: JsonView) -> TaskView {
    TaskView {
        id: v.field_text("id"@),
        name: v.field_text("name"@),
        file_size: v.field_integer("file_size"@) as i64,
        progress: v.field_integer("progress"@) as i64,
        phase: v.field_text("phase"@),
        speed: (match v.field("params"@) {
            Some(params) => params.field_integer("download_speed"@),
            None => 0,
        }) as i64,
        message: v.field_text("message"@),
    }
}

/// The task that an entry of a task list describes.
pub fn json_to_task(v: &Json) -> (task: Task)
    ensures
        task@ == task_in(v@),
{
    let speed = match v.get("params") {
        Some(params) => params.integer_of("download_speed"),
        None => 0,
    };
    Task {
        id: v.text_of("id"),
        name: v.text_of("name"),
        file_size: v.integer_of("file_size"),
        progress: v.integer_of("progress"),
        phase: v.text_of("phase"),
        speed,
        message: v.text_of("message"),
    }
}

/// The cloud file that an entry of a file list describes; a folder is one whose
/// kind ends with `folder`.
pub open spec fn cloud_file_in(v: JsonView) -> CloudView {
    CloudView {
        id: v.field_text("id"@),
        name: v.field_text("name"@),
        size: v.field_integer("size"@) as i64,
        is_dir: "folder"@.is_suffix_of(v.field_text("kind"@)),
    }
}

/// The cloud file that an entry of a file list describes.
pub fn json_to_cloud_file(v: &Json) -> (file: CloudFile)
    ensures
        file@ == cloud_file_in(v@),
{
    // Cloud files use kind "drive#folder" / "drive#file".
    let kind = v.text_of("kind");
    CloudFile {
        id: v.text_of("id"),
        name: v.text_of("name"),
        size: v.integer_of("size"),
        is_dir: ends_with(kind.as_str(), "folder"),
    }
}

/// The tasks in an answer to a list request.
pub open spec fn tasks_in(v: JsonView) -> Seq<TaskView> {
    match v.field_items("tasks"@) {
        Some(items) => items.map_values(|item: JsonView| task_in(item)),
        None => Seq::empty(),
    }
}

/// The tasks in an answer to a list request.
pub fn read_tasks(v: &Json) -> (tasks: Vec<Task>)
    ensures
        tasks_view(tasks@) == tasks_in(v@),
{
    let mut tasks: Vec<Task> = Vec::new();
    if let Some(items) = v.items_of("tasks") {
        let n = items.len();
        let mut i: usize = 0;
        while i < n
            invariant
                n == items@.len(),
                i <= n,
                tasks@.len() == i,
                forall|k: int| 0 <= k < i ==> (#[trigger] tasks@[k])@ == task_in(items@[k]@),
            decreases n - i,
        {
            tasks.push(json_to_task(&items[i]));
            i = i + 1;
        }
    }
    assert(tasks_view(tasks@) =~= tasks_in(v@));
    tasks
}

/// The files in an answer to a file list request.
pub open spec fn cloud_files_in(v: JsonView) -> Seq<CloudView> {
    match v.field_items("files"@) {
        Some(items) => items.map_values(|item: JsonView| cloud_file_in(item)),
        None => Seq::empty(),
    }
}

/// The files in an answer to a file list request.
pub fn read_cloud_files(v: &Json) -> (files: Vec<CloudFile>)
    ensures
        clouds_view(files@) == cloud_files_in(v@),
{
    let mut files: Vec<CloudFile> = Vec::new();
    if let Some(items) = v.items_of("files") {
        let n = items.len();
        let mut i: usize = 0;
        while i < n
            invariant
                n == items@.len(),
                i <= n,
                files@.len() == i,
                forall|k: int| 0 <= k < i ==> (#[trigger] files@[k])@ == cloud_file_in(items@[k]@),
            decreases n - i,
        {
            files.push(json_to_cloud_file(&items[i]));
            i = i + 1;
        }
    }
    assert(clouds_view(files@) =~= cloud_files_in(v@));
    files
}

/// The time in an answer to a request for the device's time.
pub open spec fn now_in(v: JsonView) -> Option<int> {
    match v.field("now"@) {
        Some(now) => now.integer(),
        None => None,
    }
}

/// The time in an answer to a request for the device's time.
pub fn read_now(v: &Json) -> (now: Option<i64>)
    ensures
        now == (match now_in(v@) {
            Some(n) => Some(n as i64),
            None => None,
        }),
{
    match v.get("now") {
        Some(now) => as_i64(now),
        None => None,
    }
}

/// The id in an answer to a create request, or the empty text.
pub open spec fn task_id_in(v: JsonView) -> Seq<char> {
    match v.field("task"@) {
        Some(task) => task.field_text("id"@),
        None => Seq::empty(),
    }
}

/// The id in an answer to a create request, or the empty text.
pub fn read_task_id(v: &Json) -> (id: String)
    ensures
        id@ == task_id_in(v@),
{
    match v.get("task") {
        Some(task) => task.text_of("id"),
        None => String::new(),
    }
}

// ---- laws -----------------------------------------------------------------

/// The label of a phase of the API is the phase without its prefix.
pub proof fn law_phase_label_strips_the_prefix(label: Seq<char>)
    ensures
        phase_label(PHASE_PREFIX@ + label) == label,
{
    let phase = PHASE_PREFIX@ + label;
    assert(phase.subrange(0, PHASE_PREFIX@.len() as int) =~= PHASE_PREFIX@);
    assert(phase.skip(PHASE_PREFIX@.len() as int) =~= label);
}

/// What is collected from a tree are files, never directories.
pub proof fn law_leaves_are_files(resources: Seq<JsonView>)
    ensures
        forall|i: int|
            0 <= i < leaves_in(resources).len() ==> !(#[trigger] leaves_in(resources)[i]).is_dir,
    decreases resources,
{
    if resources.len() > 0 {
        let init = resources.drop_last();
        let last = resources.last();
        law_leaves_are_files(init);
        if last.field_true("is_dir"@) && children_in(last) is Some {
            lemma_children_are_smaller(last);
            assert(decreases_to!(resources => resources[resources.len() - 1]));
            law_leaves_are_files(children_in(last)->0);
        }
        assert forall|i: int| 0 <= i < leaves_in(resources).len() implies !(#[trigger] leaves_in(
            resources,
        )[i]).is_dir by {
            if i < leaves_in(init).len() {
                assert(leaves_in(resources)[i] == leaves_in(init)[i]);
            } else {
                let k = i - leaves_in(init).len();
                assert(leaves_in(resources)[i] == leaves_of(last)[k]);
                if !last.field_true("is_dir"@) {
                    assert(leaves_of(last) == seq![file_in(last)]);
                    assert(leaves_of(last)[k] == file_in(last));
                } else if children_in(last) is Some {
                    assert(leaves_of(last) == leaves_in(children_in(last)->0));
                    assert(!leaves_in(children_in(last)->0)[k].is_dir);
                } else {
                    assert(leaves_of(last) == Seq::<FileView>::empty());
                }
            }
        }
    }
}

/// The files of two lists of resources, one after the other, are those of the first
/// and then those of the second.
pub proof fn law_leaves_keep_order(a: Seq<JsonView>, b: Seq<JsonView>)
    ensures
        leaves_in(a + b) == leaves_in(a) + leaves_in(b),
    decreases b.len(),
{
    if b.len() == 0 {
        assert(a + b =~= a);
        assert(leaves_in(a) + leaves_in(b) =~= leaves_in(a));
    } else {
        law_leaves_keep_order(a, b.drop_last());
        assert((a + b).drop_last() =~= a + b.drop_last());
        assert((a + b).last() == b.last());
        assert((leaves_in(a) + leaves_in(b.drop_last())) + leaves_of(b.last()) =~= leaves_in(a) + (
        leaves_in(b.drop_last()) + leaves_of(b.last())));
    }
}

/// A directory around resources makes no difference to the files that are found:
/// nesting is flattened.
pub proof fn law_nesting_is_flattened(r: JsonView)
    requires
        r.field_true("is_dir"@),
        children_in(r) is Some,
    ensures
        leaves_in(seq![r]) == leaves_in(children_in(r)->0),
{
    let all = seq![r];
    assert(all.drop_last() =~= Seq::<JsonView>::empty());
    assert(leaves_in(all.drop_last()) + leaves_of(r) =~= leaves_of(r));
}

/// The text of a field, or the empty text where it is none.
pub open spec fn text_at(v: JsonView, name: Seq<char>, text: Seq<char>) -> bool {
    match v.field(name) {
        Some(JsonView::Str(s)) => text == s,
        _ => text.len() == 0,
    }
}

/// The number in a field, or zero where it is none: a number as it is, and a string by
/// the number that it holds between blanks.
pub open spec fn number_at(v: JsonView, name: Seq<char>, number: i64) -> bool {
    match v.field(name) {
        Some(JsonView::Int(n)) => number == n,
        Some(JsonView::Str(s)) => match crate::number::number_within(
            crate::text::trimmed(s),
            i64::MIN as int,
            i64::MAX as int,
        ) {
            Some(n) => number == n,
            None => number == 0,
        },
        _ => number == 0,
    }
}

/// The resources of an answer stand in the field `resources` of its field `list`.
pub open spec fn lists(v: JsonView, resources: Seq<JsonView>) -> bool {
    exists|list: JsonView|
        v.field("list"@) == Some(list) && #[trigger] list.field("resources"@) == Some(
            JsonView::Array(resources),
        )
}

/// The title of a resolved link is the name of the first resource, be it a directory or
/// a plain file, and empty where that is no string.
pub proof fn law_title_is_the_first_name(v: JsonView, resources: Seq<JsonView>)
    requires
        lists(v, resources),
        resources.len() > 0,
    ensures
        text_at(resources[0], "name"@, resolved_in(v).name),
{
}

/// The id of a resolved list is the answer's, and empty where that is no string.
pub proof fn law_list_id_is_kept(v: JsonView)
    ensures
        text_at(v, "list_id"@, resolved_in(v).list_id),
{
}

/// A plain file among resources is found as itself: with its name, and with the index
/// and the size that its fields give, as numbers or quoted.
pub proof fn law_plain_file_is_found(r: JsonView, name: Seq<char>, index: i64, size: i64)
    requires
        r.field("is_dir"@) != Some(JsonView::Bool(true)),
        r.field("name"@) == Some(JsonView::Str(name)),
        r.field("file_index"@) == Some(JsonView::Int(index)) || r.field("file_index"@) == Some(
            JsonView::Str(crate::number::decimal(index as int)),
        ),
        r.field("file_size"@) == Some(JsonView::Int(size)) || r.field("file_size"@) == Some(
            JsonView::Str(crate::number::decimal(size as int)),
        ),
    ensures
        leaves_in(seq![r]) == seq![FileView { index, name, size, is_dir: false }],
{
    let all = seq![r];
    crate::json::law_quoted_integer_is_the_integer(index);
    crate::json::law_quoted_integer_is_the_integer(size);
    assert(all.drop_last() =~= Seq::<JsonView>::empty());
    assert(leaves_of(r) == seq![file_in(r)]);
    assert(leaves_in(all.drop_last()) + leaves_of(r) =~= leaves_of(r));
}

/// A file has what its resource says, each from the field of its own.
pub proof fn law_file_is_as_listed(r: JsonView)
    ensures
        text_at(r, "name"@, file_in(r).name),
        number_at(r, "file_index"@, file_in(r).index),
        number_at(r, "file_size"@, file_in(r).size),
        file_in(r).is_dir == (r.field("is_dir"@) == Some(JsonView::Bool(true))),
{
}

/// A directory without a list of resources holds no file.
pub proof fn law_bare_directory_holds_no_file(r: JsonView)
    requires
        r.field("is_dir"@) == Some(JsonView::Bool(true)),
        match r.field("dir"@) {
            Some(dir) => !(dir.field("resources"@) matches Some(JsonView::Array(_))),
            None => true,
        },
    ensures
        leaves_in(seq![r]).len() == 0,
{
    let all = seq![r];
    assert(all.drop_last() =~= Seq::<JsonView>::empty());
    assert(leaves_of(r) =~= Seq::<FileView>::empty());
    assert(leaves_in(all.drop_last()) + leaves_of(r) =~= leaves_of(r));
}

/// What is inside a directory stands in the field `resources` of its field `dir`.
pub proof fn law_directory_holds_its_resources(
    r: JsonView,
    dir: JsonView,
    resources: Seq<JsonView>,
)
    requires
        r.field("is_dir"@) == Some(JsonView::Bool(true)),
        r.field("dir"@) == Some(dir),
        dir.field("resources"@) == Some(JsonView::Array(resources)),
    ensures
        leaves_in(seq![r]) == leaves_in(resources),
{
    law_nesting_is_flattened(r);
}

/// The files of a resolved link are the leaves of its tree, where it has any. A tree
/// without leaves stands for its first resource, and an answer without resources for
/// nothing.
pub proof fn law_resolved_files_are_the_leaves(v: JsonView, resources: Seq<JsonView>)
    requires
        lists(v, resources),
    ensures
        resolved_in(v).files == files_in(v),
        leaves_in(resources).len() > 0 ==> files_in(v) == leaves_in(resources),
        leaves_in(resources).len() == 0 && resources.len() > 0 ==> files_in(v).len() == 1
            && files_in(v)[0] == file_in(resources[0]),
        resources.len() == 0 ==> files_in(v).len() == 0,
{
}

/// The total size of several files is that of some of them and the others together.
pub proof fn law_sizes_add_up(a: Seq<FileView>, b: Seq<FileView>)
    ensures
        size_sum(a + b) == size_sum(a) + size_sum(b),
        a.len() == 0 ==> size_sum(a) == 0,
        a.len() == 1 ==> size_sum(a) == a[0].size,
    decreases b.len(),
{
    if a.len() == 1 {
        assert(a.drop_last() =~= Seq::<FileView>::empty());
        assert(size_sum(a.drop_last()) == 0);
    }
    if b.len() == 0 {
        assert(a + b =~= a);
    } else {
        law_sizes_add_up(a, b.drop_last());
        assert((a + b).drop_last() =~= a + b.drop_last());
        assert((a + b).last() == b.last());
    }
}

/// The total size of a resolved link is the sum of its files' sizes, where that can be
/// told; and it can, where no size is negative and the sum is within 64 bits.
pub proof fn law_total_is_the_sum(v: JsonView)
    ensures
        sizes_fit(files_in(v)) ==> resolved_in(v).total_size == size_sum(files_in(v)),
        (forall|i: int| 0 <= i < files_in(v).len() ==> (#[trigger] files_in(v)[i]).size >= 0)
            && size_sum(files_in(v)) <= i64::MAX ==> sizes_fit(files_in(v)),
{
    let files = files_in(v);
    assert(files.take(files.len() as int) =~= files);
    if sizes_fit(files) {
        assert(i64::MIN <= size_sum(files.take(files.len() as int)) <= i64::MAX);
    }
    if (forall|i: int| 0 <= i < files.len() ==> (#[trigger] files[i]).size >= 0) && size_sum(files)
        <= i64::MAX {
        assert forall|k: int| 0 <= k <= files.len() implies i64::MIN <= #[trigger] size_sum(
            files.take(k),
        ) <= i64::MAX by {
            lemma_sizes_grow(files, k);
        }
    }
}

proof fn lemma_sizes_grow(files: Seq<FileView>, k: int)
    requires
        0 <= k <= files.len(),
        forall|i: int| 0 <= i < files.len() ==> (#[trigger] files[i]).size >= 0,
    ensures
        0 <= size_sum(files.take(k)) <= size_sum(files),
    decreases files.len() - k, k,
{
    lemma_sizes_nonnegative(files.take(k));
    if k < files.len() {
        lemma_sizes_grow(files, k + 1);
        assert(files.take(k + 1).drop_last() =~= files.take(k));
        assert(files[k].size >= 0);
    } else {
        assert(files.take(k) =~= files);
    }
}

proof fn lemma_sizes_nonnegative(files: Seq<FileView>)
    requires
        forall|i: int| 0 <= i < files.len() ==> (#[trigger] files[i]).size >= 0,
    ensures
        0 <= size_sum(files),
    decreases files.len(),
{
    if files.len() > 0 {
        assert forall|i: int| 0 <= i < files.drop_last().len() implies (
        #[trigger] files.drop_last()[i]).size >= 0 by {
            assert(files.drop_last()[i] == files[i]);
        }
        lemma_sizes_nonnegative(files.drop_last());
        assert(files[files.len() - 1].size >= 0);
    }
}

/// A task has what its entry says: each text and number from the field of its own, the
/// speed from the parameters.
pub proof fn law_task_is_as_listed(v: JsonView)
    ensures
        text_at(v, "id"@, task_in(v).id),
        text_at(v, "name"@, task_in(v).name),
        number_at(v, "file_size"@, task_in(v).file_size),
        number_at(v, "progress"@, task_in(v).progress),
        text_at(v, "phase"@, task_in(v).phase),
        text_at(v, "message"@, task_in(v).message),
        match v.field("params"@) {
            Some(params) => number_at(params, "download_speed"@, task_in(v).speed),
            None => task_in(v).speed == 0,
        },
{
}

/// Every task of an answer is read, in order.
pub proof fn law_every_task_is_read(v: JsonView, items: Seq<JsonView>)
    requires
        v.field("tasks"@) == Some(JsonView::Array(items)),
    ensures
        tasks_in(v).len() == items.len(),
        forall|i: int| 0 <= i < items.len() ==> #[trigger] tasks_in(v)[i] == task_in(items[i]),
{
}

/// A cloud file has what its entry says; it is a folder exactly where its kind ends
/// with `folder`.
pub proof fn law_cloud_file_is_as_listed(v: JsonView)
    ensures
        text_at(v, "id"@, cloud_file_in(v).id),
        text_at(v, "name"@, cloud_file_in(v).name),
        number_at(v, "size"@, cloud_file_in(v).size),
        match v.field("kind"@) {
            Some(JsonView::Str(kind)) => cloud_file_in(v).is_dir == "folder"@.is_suffix_of(kind),
            _ => !cloud_file_in(v).is_dir,
        },
{
    reveal_strlit("folder");
}

/// Every entry of a folder is read, in order.
pub proof fn law_every_cloud_file_is_read(v: JsonView, items: Seq<JsonView>)
    requires
        v.field("files"@) == Some(JsonView::Array(items)),
    ensures
        cloud_files_in(v).len() == items.len(),
        forall|i: int|
            0 <= i < items.len() ==> #[trigger] cloud_files_in(v)[i] == cloud_file_in(items[i]),
{
}

/// The device's time is the number in the field `now`, quoted or not; the id of a new
/// task is that of the field `task`.
pub proof fn law_answers_are_read_from_their_fields(
    v: JsonView,
    now: i64,
    task: JsonView,
    id: Seq<char>,
)
    ensures
        v.field("now"@) == Some(JsonView::Int(now)) || v.field("now"@) == Some(
            JsonView::Str(crate::number::decimal(now as int)),
        ) ==> now_in(v) == Some(now as int),
        now_in(v) == match v.field("now"@) {
            Some(now) => now.integer(),
            None => None,
        },
        v.field("task"@) == Some(task) && task.field("id"@) == Some(JsonView::Str(id))
            ==> task_id_in(v) == id,
        v.field("task"@) == Some(task) ==> text_at(task, "id"@, task_id_in(v)),
        v.field("task"@) is None ==> task_id_in(v).len() == 0,
{
    crate::json::law_quoted_integer_is_the_integer(now);
}

/// A phase without the API's prefix is its own label.
pub proof fn law_other_phases_are_kept(phase: Seq<char>)
    requires
        !"PHASE_TYPE_"@.is_prefix_of(phase),
    ensures
        phase_label(phase) == phase,
{
}

/// An answer without a list of resources resolves to nothing: no name, no file, no size.
pub proof fn law_no_resources_no_files(v: JsonView)
    requires
        match v.field("list"@) {
            Some(list) => !(list.field("resources"@) matches Some(JsonView::Array(_))),
            None => true,
        },
    ensures
        resolved_in(v).name.len() == 0,
        resolved_in(v).files.len() == 0,
        files_in(v).len() == 0,
        resolved_in(v).total_size == 0,
{
}

/// An answer without a list of tasks, or of files, has none.
pub proof fn law_no_list_no_entries(v: JsonView)
    ensures
        !(v.field("tasks"@) matches Some(JsonView::Array(_))) ==> tasks_in(v).len() == 0,
        !(v.field("files"@) matches Some(JsonView::Array(_))) ==> cloud_files_in(v).len() == 0,
{
}

} // verus!
