//! Collecting every file under a cloud folder, one folder listing at a time.
//!
//! A listing brings no more entries than were asked for. One that comes back full may
//! have left some out, so the folder is asked for again, with more entries.

use vstd::prelude::*;

use crate::api::{ApiCall, ClientError};
use crate::client::ThunderClient;
use crate::model::{CloudFile, CloudView};

verus! {

/// Something that a walk has still to deal with.
#[derive(Debug, PartialEq)]
pub enum Entry {
    /// A folder to be listed, or what the walk starts from, which may be a file.
    Folder {
        id: String,
        name: String,
        /// Whether it is not known yet to be a folder.
        is_start: bool,
        /// How many entries to ask for.
        limit: u32,
        /// The entries that were listed so far.
        known: Vec<CloudFile>,
    },
    /// A file, and its path.
    File { path: String, file: CloudFile },
}

#[verifier::ext_equal]
pub enum EntryView {
    Folder {
        id: Seq<char>,
        name: Seq<char>,
        is_start: bool,
        limit: u32,
        known: Seq<CloudView>,
    },
    File { path: Seq<char>, file: CloudView },
}

impl View for Entry {
    type V = EntryView;

    open spec fn view(&self) -> EntryView {
        match *self {
            Entry::Folder { id, name, is_start, limit, known } => EntryView::Folder {
                id: id@,
                name: name@,
                is_start,
                limit,
                known: crate::model::clouds_view(known@),
            },
            Entry::File { path, file } => EntryView::File { path: path@, file: file@ },
        }
    }
}

pub open spec fn entries_view(entries: Seq<Entry>) -> Seq<EntryView> {
    entries.map_values(|e: Entry| e@)
}

/// The files found, each with its path.
pub type Found = Seq<(Seq<char>, CloudView)>;

pub open spec fn found_view(found: Seq<(String, CloudFile)>) -> Found {
    found.map_values(|f: (String, CloudFile)| (f.0@, f.1@))
}

/// A walk through the cloud drive: what is still to be done, the next last, and what
/// was found.
#[derive(Debug, PartialEq)]
pub struct Walk {
    pending: Vec<Entry>,
    found: Vec<(String, CloudFile)>,
}

#[verifier::ext_equal]
pub struct WalkView {
    pub pending: Seq<EntryView>,
    pub found: Found,
}

impl View for Walk {
    type V = WalkView;

    closed spec fn view(&self) -> WalkView {
        WalkView { pending: entries_view(self.pending@), found: found_view(self.found@) }
    }
}

/// The path of an entry of a folder.
pub open spec fn child_path(folder: Seq<char>, name: Seq<char>) -> Seq<char> {
    if folder.len() == 0 {
        name
    } else {
        folder + "/"@ + name
    }
}

/// How many entries of a folder are asked for at first.
pub const WALK_LIMIT: u32 = 200;

/// How many entries are asked for after a listing of `limit` entries came back full.
pub open spec fn larger_limit(limit: u32) -> u32 {
    if limit <= u32::MAX / 2 {
        (2 * limit) as u32
    } else {
        u32::MAX
    }
}

/// A folder of which nothing is listed yet.
pub open spec fn unlisted(id: Seq<char>, name: Seq<char>, is_start: bool) -> EntryView {
    EntryView::Folder { id, name, is_start, limit: WALK_LIMIT, known: Seq::empty() }
}

/// What a folder's entry leaves to be done.
pub open spec fn child_entry(folder: Seq<char>, child: CloudView) -> EntryView {
    if child.is_dir {
        unlisted(child.id, child_path(folder, child.name), false)
    } else {
        EntryView::File { path: child_path(folder, child.name), file: child }
    }
}

/// What the entries of a folder leave to be done.
pub open spec fn child_entries(folder: Seq<char>, children: Seq<CloudView>) -> Seq<EntryView> {
    children.map_values(|c: CloudView| child_entry(folder, c))
}

/// What has no entries, and is not known to be a folder, or cannot be listed, is found
/// as a file, under its id where it has no name.
pub open spec fn lone_file(id: Seq<char>, name: Seq<char>) -> (Seq<char>, CloudView) {
    let file_name = if name.len() == 0 {
        id
    } else {
        name
    };
    (file_name, CloudView { id, name: file_name, size: 0, is_dir: false })
}

/// The walk once the files at the end of what is pending have been found.
pub open spec fn settle(pending: Seq<EntryView>, found: Found) -> WalkView
    decreases pending.len(),
{
    if pending.len() > 0 && pending.last() is File {
        settle(
            pending.drop_last(),
            found.push((pending.last()->path, pending.last()->file)),
        )
    } else {
        WalkView { pending, found }
    }
}

/// Whether a walk is at its end or waits for a folder's listing.
pub open spec fn settled(w: WalkView) -> bool {
    w.pending.len() > 0 ==> w.pending.last() is Folder
}

/// The longer of two listings of a folder, the later one where they are of one length.
pub open spec fn fuller(known: Seq<CloudView>, children: Seq<CloudView>) -> Seq<CloudView> {
    if children.len() < known.len() {
        known
    } else {
        children
    }
}

/// The walk once as much as can be is known of the entries of `id`, which may be a file
/// where `maybe_file` says so.
pub open spec fn walk_into(
    below: Seq<EntryView>,
    found: Found,
    id: Seq<char>,
    name: Seq<char>,
    maybe_file: bool,
    children: Seq<CloudView>,
) -> WalkView {
    if maybe_file && children.len() == 0 {
        settle(below, found.push(lone_file(id, name)))
    } else {
        settle(below + child_entries(name, children).reverse(), found)
    }
}

/// The walk once the folder that is next was listed. A listing that is full, with as
/// many entries as were asked for, is followed by a larger one, as far as there is one,
/// and a larger one that brings less takes nothing away. Where a listing failed, the walk
/// goes on with what is known, and where that is nothing, takes it for a file.
pub open spec fn walk_on(w: WalkView, listing: Option<Seq<CloudView>>) -> WalkView {
    if w.pending.len() == 0 {
        w
    } else {
        match w.pending.last() {
            EntryView::File { .. } => w,
            EntryView::Folder { id, name, is_start, limit, known } => match listing {
                Some(children) => if children.len() >= limit && limit < u32::MAX {
                    WalkView {
                        pending: w.pending.drop_last().push(
                            EntryView::Folder {
                                id,
                                name,
                                is_start: false,
                                limit: larger_limit(limit),
                                known: fuller(known, children),
                            },
                        ),
                        found: w.found,
                    }
                } else {
                    walk_into(
                        w.pending.drop_last(),
                        w.found,
                        id,
                        name,
                        is_start,
                        fuller(known, children),
                    )
                },
                None => walk_into(w.pending.drop_last(), w.found, id, name, true, known),
            },
        }
    }
}

proof fn lemma_settle_settles(pending: Seq<EntryView>, found: Found)
    ensures
        settled(settle(pending, found)),
    decreases pending.len(),
{
    if pending.len() > 0 && pending.last() is File {
        lemma_settle_settles(
            pending.drop_last(),
            found.push((pending.last()->path, pending.last()->file)),
        );
    }
}

/// The start of a walk.
pub open spec fn walk_start(file_id: Seq<char>, name: Seq<char>) -> WalkView {
    WalkView { pending: seq![unlisted(file_id, name, true)], found: Seq::empty() }
}

fn new_folder(id: String, name: String, is_start: bool) -> (entry: Entry)
    ensures
        entry@ == unlisted(id@, name@, is_start),
{
    let known: Vec<CloudFile> = Vec::new();
    assert(crate::model::clouds_view(known@) =~= Seq::<CloudView>::empty());
    Entry::Folder { id, name, is_start, limit: WALK_LIMIT, known }
}

impl ThunderClient {
    /// Recursively collect all leaf files under a cloud folder (or the file itself
    /// if `file_id` is a file).
    pub fn cloud_walk(file_id: &str, name: &str) -> (walk: Walk)
        ensures
            walk@ == walk_start(file_id@, name@),
            settled(walk@),
    {
        let mut pending: Vec<Entry> = Vec::new();
        let start = new_folder(file_id.to_string(), name.to_string(), true);
        pending.push(start);
        let walk = Walk { pending, found: Vec::new() };
        assert(walk@ =~= walk_start(file_id@, name@));
        walk
    }
}

impl Walk {
    /// The listing that the walk needs next, or `None` at its end.
    pub fn next(&self) -> (call: Option<ApiCall>)
        ensures
            call is Some <==> self@.pending.len() > 0 && self@.pending.last() is Folder,
            call matches Some(c) ==> c@ == crate::drive::cloud_files_call(
                self@.pending.last()->id,
                self@.pending.last()->limit,
            ),
    {
        let n = self.pending.len();
        if n == 0 {
            return None;
        }
        match &self.pending[n - 1] {
            Entry::Folder { id, limit, .. } => {
                Some(ThunderClient::cloud_files(id.as_str(), *limit))
            },
            Entry::File { .. } => None,
        }
    }

    /// Goes on with what the listing brought. One that failed brings nothing new; where
    /// nothing is known, it leaves a single file.
    pub fn feed(&mut self, listing: Result<Vec<CloudFile>, ClientError>)
        ensures
            final(self)@ == walk_on(
                old(self)@,
                match listing {
                    Ok(children) => Some(crate::model::clouds_view(children@)),
                    Err(_) => None,
                },
            ),
            settled(old(self)@) ==> settled(final(self)@),
    {
        let ghost before = self@;
        match self.pending.pop() {
            None => {
                assert(self@ =~= before);
            },
            Some(Entry::File { path, file }) => {
                self.pending.push(Entry::File { path, file });
                assert(self@ =~= before);
            },
            Some(Entry::Folder { id, name, is_start, limit, known }) => {
                let ghost below = before.pending.drop_last();
                assert(entries_view(self.pending@) =~= below);
                match listing {
                    Ok(children) => {
                        let full = children.len() as u64 >= limit as u64;
                        let more = if children.len() < known.len() {
                            known
                        } else {
                            children
                        };
                        if full && limit < u32::MAX {
                            let larger = if limit <= u32::MAX / 2 {
                                2 * limit
                            } else {
                                u32::MAX
                            };
                            let again = Entry::Folder {
                                id,
                                name,
                                is_start: false,
                                limit: larger,
                                known: more,
                            };
                            let ghost entry = again@;
                            self.pending.push(again);
                            assert(entries_view(self.pending@) =~= below.push(entry));
                        } else {
                            self.enter(id, name, is_start, more);
                        }
                    },
                    Err(_) => {
                        self.enter(id, name, true, known);
                    },
                }
            },
        }
    }

    /// Goes on into a folder of whose entries as much is known as can be.
    fn enter(&mut self, id: String, name: String, maybe_file: bool, children: Vec<CloudFile>)
        ensures
            final(self)@ == walk_into(
                old(self)@.pending,
                old(self)@.found,
                id@,
                name@,
                maybe_file,
                crate::model::clouds_view(children@),
            ),
            settled(final(self)@),
    {
        if maybe_file && children.len() == 0 {
            let ghost found = self.found@;
            let file_name = if name.as_str().is_empty() {
                id.clone()
            } else {
                name.clone()
            };
            self.found.push(
                (file_name.clone(), CloudFile { id, name: file_name, size: 0, is_dir: false }),
            );
            assert(found_view(self.found@) =~= found_view(found).push(lone_file(id@, name@)));
        } else {
            self.push_children(name.as_str(), children);
        }
        proof {
            lemma_settle_settles(self@.pending, self@.found);
        }
        self.settle_files();
    }

    /// Puts the entries of a folder before all else that is pending.
    fn push_children(&mut self, folder: &str, children: Vec<CloudFile>)
        ensures
            final(self)@ == (WalkView {
                pending: old(self)@.pending + child_entries(
                    folder@,
                    crate::model::clouds_view(children@),
                ).reverse(),
                found: old(self)@.found,
            }),
    {
        let ghost base = self@.pending;
        let ghost found = self.found@;
        let ghost entries = child_entries(folder@, crate::model::clouds_view(children@));
        let ghost all = children@;
        let mut left = children;
        assert(entries.skip(entries.len() as int) =~= Seq::<EntryView>::empty());
        assert(base + Seq::<EntryView>::empty().reverse() =~= base);
        while left.len() > 0
            invariant
                entries == child_entries(folder@, crate::model::clouds_view(all)),
                left@.len() <= all.len(),
                left@ == all.take(left@.len() as int),
                self.found@ == found,
                entries_view(self.pending@) == base + entries.skip(
                    left@.len() as int,
                ).reverse(),
            decreases left@.len(),
        {
            let ghost n = left@.len() as int;
            let ghost was = self.pending@;
            match left.pop() {
                None => {},
                Some(c) => {
                    assert(all[n - 1] == c);
                    assert(left@ =~= all.take(n - 1));
                    let path = if folder.is_empty() {
                        c.name.clone()
                    } else {
                        let mut path = folder.to_string();
                        path.append("/");
                        path.append(c.name.as_str());
                        path
                    };
                    if c.is_dir {
                        self.pending.push(new_folder(c.id, path, false));
                    } else {
                        self.pending.push(Entry::File { path, file: c });
                    }
                    assert(entries[n - 1] == child_entry(folder@, c@));
                    assert(entries_view(self.pending@) =~= entries_view(was).push(entries[n - 1]));
                    assert(entries.skip(n - 1).reverse() =~= entries.skip(n).reverse().push(
                        entries[n - 1],
                    ));
                    assert(entries_view(self.pending@) =~= base + entries.skip(n - 1).reverse());
                },
            }
        }
        assert(entries.skip(0) =~= entries);
    }

    /// Moves the files at the end of what is pending to what was found.
    fn settle_files(&mut self)
        ensures
            final(self)@ == settle(old(self)@.pending, old(self)@.found),
    {
        let ghost goal = settle(self@.pending, self@.found);
        let mut going = true;
        while going
            invariant
                goal == settle(self@.pending, self@.found),
                !going ==> self@ == goal,
            decreases self.pending@.len(), if going { 1int } else { 0int },
        {
            let ghost before = self@;
            match self.pending.pop() {
                None => {
                    going = false;
                    assert(self@ =~= before);
                },
                Some(Entry::Folder { id, name, is_start, limit, known }) => {
                    self.pending.push(Entry::Folder { id, name, is_start, limit, known });
                    assert(self@ =~= before);
                    assert(before.pending.last() is Folder);
                    going = false;
                },
                Some(Entry::File { path, file }) => {
                    let ghost found = self.found@;
                    assert(before.pending.last() == (EntryView::File { path: path@, file: file@ }));
                    self.found.push((path, file));
                    assert(found_view(self.found@) =~= found_view(found).push((path@, file@)));
                    assert(entries_view(self.pending@) =~= before.pending.drop_last());
                },
            }
        }
    }

    /// What the walk found.
    pub fn into_found(self) -> (found: Vec<(String, CloudFile)>)
        ensures
            found_view(found@) == self@.found,
    {
        self.found
    }
}

// ---- what a walk finds ----------------------------------------------------

/// What the drive holds: all entries of each folder.
pub type Drive = spec_fn(Seq<char>) -> Seq<CloudView>;

/// What a listing brings: the first `limit` entries of the folder, or as many as it
/// has.
pub open spec fn listing_of(drive: Drive, id: Seq<char>, limit: u32) -> Seq<CloudView> {
    if drive(id).len() <= limit {
        drive(id)
    } else {
        drive(id).take(limit as int)
    }
}

/// Whether every folder can be listed whole: a limit has 32 bits.
pub open spec fn listable(drive: Drive) -> bool {
    forall|id: Seq<char>| (#[trigger] drive(id)).len() <= u32::MAX
}

/// The files under an entry, where no folder lies deeper than `depth`: the file
/// itself, or all files under the folder's entries, in order. An empty folder holds
/// none; what the walk starts from is a file where it has no entries.
pub open spec fn files_under(drive: Drive, entry: EntryView, depth: nat) -> Option<Found>
    decreases depth, 0nat,
{
    match entry {
        EntryView::File { path, file } => Some(seq![(path, file)]),
        EntryView::Folder { id, name, is_start, .. } => if depth == 0 {
            None
        } else if is_start && drive(id).len() == 0 {
            Some(seq![lone_file(id, name)])
        } else {
            all_files_under(drive, child_entries(name, drive(id)), (depth - 1) as nat)
        },
    }
}

/// The files under several entries, one after the other.
pub open spec fn all_files_under(drive: Drive, entries: Seq<EntryView>, depth: nat) -> Option<Found>
    decreases depth, entries.len(),
{
    if entries.len() == 0 {
        Some(Seq::empty())
    } else {
        match (
            files_under(drive, entries[0], depth),
            all_files_under(drive, entries.skip(1), depth),
        ) {
            (Some(first), Some(rest)) => Some(first + rest),
            _ => None,
        }
    }
}

/// A walk after `steps` listings, each of which brought what the drive answers.
pub open spec fn walk_steps(drive: Drive, w: WalkView, steps: nat) -> WalkView
    decreases steps,
{
    if steps == 0 || w.pending.len() == 0 || w.pending.last() is File {
        w
    } else {
        let top = w.pending.last();
        walk_steps(
            drive,
            walk_on(w, Some(listing_of(drive, top->id, top->limit))),
            (steps - 1) as nat,
        )
    }
}

proof fn lemma_steps_add(drive: Drive, w: WalkView, a: nat, b: nat)
    ensures
        walk_steps(drive, w, a + b) == walk_steps(drive, walk_steps(drive, w, a), b),
    decreases a,
{
    if a == 0 {
    } else if w.pending.len() == 0 || w.pending.last() is File {
    } else {
        let top = w.pending.last();
        let next = walk_on(w, Some(listing_of(drive, top->id, top->limit)));
        lemma_steps_add(drive, next, (a - 1) as nat, b);
        assert((a - 1) as nat + b == (a + b - 1) as nat);
    }
}

/// Whether an entry can have come up in a walk through the drive.
spec fn fits(drive: Drive, entry: EntryView) -> bool {
    entry is Folder ==> entry->limit > 0 && entry->known.len() <= drive(entry->id).len()
}

/// The steps after which all entries of a folder on top of `below` are known.
proof fn lemma_folder_listed(
    drive: Drive,
    below: Seq<EntryView>,
    found: Found,
    folder: EntryView,
) -> (steps: nat)
    requires
        listable(drive),
        folder is Folder,
        fits(drive, folder),
    ensures
        walk_steps(drive, WalkView { pending: below.push(folder), found }, steps) == walk_into(
            below,
            found,
            folder->id,
            folder->name,
            folder->is_start,
            drive(folder->id),
        ),
    decreases u32::MAX - folder->limit,
{
    let w = WalkView { pending: below.push(folder), found };
    let id = folder->id;
    let name = folder->name;
    let limit = folder->limit;
    let children = listing_of(drive, id, limit);
    let next = walk_on(w, Some(children));
    assert(w.pending.drop_last() =~= below);
    assert(w.pending.last() == folder);
    assert(drive(id).len() <= u32::MAX);
    if children.len() >= limit && limit < u32::MAX {
        let again = EntryView::Folder {
            id,
            name,
            is_start: false,
            limit: larger_limit(limit),
            known: fuller(folder->known, children),
        };
        assert(next == (WalkView { pending: below.push(again), found }));
        let more = lemma_folder_listed(drive, below, found, again);
        assert(walk_steps(drive, w, more + 1) == walk_steps(drive, next, more));
        more + 1
    } else {
        assert(children == drive(id)) by {
            if drive(id).len() > limit {
                assert(children.len() == limit);
            }
        }
        assert(walk_steps(drive, next, 0) == next);
        assert(walk_steps(drive, w, 1) == next);
        1
    }
}

/// The steps that deal with one entry on top of `below`.
proof fn lemma_entry_done(
    drive: Drive,
    below: Seq<EntryView>,
    found: Found,
    entry: EntryView,
    depth: nat,
) -> (steps: nat)
    requires
        listable(drive),
        fits(drive, entry),
        files_under(drive, entry, depth) is Some,
    ensures
        walk_steps(drive, settle(below.push(entry), found), steps) == settle(
            below,
            found + files_under(drive, entry, depth)->0,
        ),
    decreases depth, 0nat,
{
    let top = below.push(entry);
    assert(top.drop_last() =~= below);
    assert(top.last() == entry);
    match entry {
        EntryView::File { path, file } => {
            assert(found + seq![(path, file)] =~= found.push((path, file)));
            0
        },
        EntryView::Folder { id, name, is_start, .. } => {
            let w = settle(top, found);
            assert(w == (WalkView { pending: top, found }));
            let first = lemma_folder_listed(drive, below, found, entry);
            let next = walk_into(below, found, id, name, is_start, drive(id));
            if is_start && drive(id).len() == 0 {
                assert(found + seq![lone_file(id, name)] =~= found.push(lone_file(id, name)));
                first
            } else {
                let entries = child_entries(name, drive(id));
                let more = lemma_entries_done(drive, below, found, entries, (depth - 1) as nat);
                assert(next == settle(below + entries.reverse(), found));
                lemma_steps_add(drive, w, first, more);
                first + more
            }
        },
    }
}

/// The steps that deal with several entries on top of `below`.
proof fn lemma_entries_done(
    drive: Drive,
    below: Seq<EntryView>,
    found: Found,
    entries: Seq<EntryView>,
    depth: nat,
) -> (steps: nat)
    requires
        listable(drive),
        forall|i: int| 0 <= i < entries.len() ==> fits(drive, #[trigger] entries[i]),
        all_files_under(drive, entries, depth) is Some,
    ensures
        walk_steps(drive, settle(below + entries.reverse(), found), steps) == settle(
            below,
            found + all_files_under(drive, entries, depth)->0,
        ),
    decreases depth, entries.len(),
{
    if entries.len() == 0 {
        assert(below + entries.reverse() =~= below);
        assert(found + Seq::<(Seq<char>, CloudView)>::empty() =~= found);
        0
    } else {
        let rest = entries.skip(1);
        let lower = below + rest.reverse();
        assert(below + entries.reverse() =~= lower.push(entries[0]));
        assert forall|i: int| 0 <= i < rest.len() implies fits(drive, #[trigger] rest[i]) by {
            assert(rest[i] == entries[i + 1]);
        }
        let first = files_under(drive, entries[0], depth)->0;
        let others = all_files_under(drive, rest, depth)->0;
        let a = lemma_entry_done(drive, lower, found, entries[0], depth);
        let b = lemma_entries_done(drive, below, found + first, rest, depth);
        lemma_steps_add(drive, settle(below + entries.reverse(), found), a, b);
        assert((found + first) + others =~= found + (first + others));
        a + b
    }
}

/// A walk comes to an end, and has then found every file under where it started,
/// each with its path and in the drive's order, however many entries a folder has,
/// provided that the folders are nested to some depth only. A listing need not bring
/// more than it was asked for.
pub proof fn law_walk_finds_every_file(
    drive: Drive,
    file_id: Seq<char>,
    name: Seq<char>,
    depth: nat,
)
    requires
        listable(drive),
        files_under(drive, unlisted(file_id, name, true), depth) is Some,
    ensures
        exists|steps: nat| #[trigger]
            walk_steps(drive, walk_start(file_id, name), steps) == (WalkView {
                pending: Seq::empty(),
                found: files_under(drive, unlisted(file_id, name, true), depth)->0,
            }),
{
    let start = unlisted(file_id, name, true);
    let nothing = Seq::<EntryView>::empty();
    let none = Seq::<(Seq<char>, CloudView)>::empty();
    let steps = lemma_entry_done(drive, nothing, none, start, depth);
    assert(nothing.push(start) =~= walk_start(file_id, name).pending);
    let all = files_under(drive, start, depth)->0;
    assert(none + all =~= all);
    assert(settle(nothing.push(start), none) == walk_start(file_id, name));
    assert(walk_steps(drive, walk_start(file_id, name), steps) == (WalkView {
        pending: nothing,
        found: all,
    }));
}

/// The paths of files, each with its file.
pub open spec fn files_at(folder: Seq<char>, files: Seq<CloudView>) -> Found {
    files.map_values(|f: CloudView| (child_path(folder, f.name), f))
}

proof fn lemma_files_stay_files(drive: Drive, folder: Seq<char>, files: Seq<CloudView>)
    requires
        forall|i: int| 0 <= i < files.len() ==> !(#[trigger] files[i]).is_dir,
    ensures
        all_files_under(drive, child_entries(folder, files), 0) == Some(files_at(folder, files)),
    decreases files.len(),
{
    let entries = child_entries(folder, files);
    if files.len() == 0 {
        assert(files_at(folder, files) =~= Seq::<(Seq<char>, CloudView)>::empty());
    } else {
        let rest = files.skip(1);
        assert forall|i: int| 0 <= i < rest.len() implies !(#[trigger] rest[i]).is_dir by {
            assert(rest[i] == files[i + 1]);
        }
        lemma_files_stay_files(drive, folder, rest);
        assert(entries.skip(1) =~= child_entries(folder, rest));
        assert(!files[0].is_dir);
        assert(entries[0] == child_entry(folder, files[0]));
        assert(files_under(drive, entries[0], 0) == Some(
            seq![(child_path(folder, files[0].name), files[0])],
        ));
        assert(seq![(child_path(folder, files[0].name), files[0])] + files_at(folder, rest)
            =~= files_at(folder, files));
    }
}

/// In a folder of files, each of them is found once, in order, however many there are.
pub proof fn law_every_file_of_a_folder_is_found(
    drive: Drive,
    folder: Seq<char>,
    name: Seq<char>,
)
    requires
        listable(drive),
        drive(folder).len() > 0,
        forall|i: int| 0 <= i < drive(folder).len() ==> !(#[trigger] drive(folder)[i]).is_dir,
    ensures
        exists|steps: nat| #[trigger]
            walk_steps(drive, walk_start(folder, name), steps) == (WalkView {
                pending: Seq::empty(),
                found: files_at(name, drive(folder)),
            }),
{
    lemma_files_stay_files(drive, name, drive(folder));
    law_walk_finds_every_file(drive, folder, name, 1);
}

/// A folder that is listed as one, and has no entries, holds no file.
pub proof fn law_empty_folders_hold_no_file(
    drive: Drive,
    folder: Seq<char>,
    child: CloudView,
    depth: nat,
)
    requires
        child.is_dir,
        drive(child.id).len() == 0,
        depth > 0,
    ensures
        files_under(drive, child_entry(folder, child), depth) == Some(
            Seq::<(Seq<char>, CloudView)>::empty(),
        ),
{
    let name = child_path(folder, child.name);
    assert(child_entries(name, drive(child.id)) =~= Seq::<EntryView>::empty());
}

/// A file that a listing names is found as it is listed, under its name in the folder;
/// a folder that it names is to be listed next, by its own id.
pub proof fn law_children_keep_their_names(folder: Seq<char>, child: CloudView)
    ensures
        folder.len() > 0 ==> child_path(folder, child.name) == folder + "/"@ + child.name,
        folder.len() == 0 ==> child_path(folder, child.name) == child.name,
        !child.is_dir ==> child_entry(folder, child) == (EntryView::File {
            path: child_path(folder, child.name),
            file: child,
        }),
        child.is_dir ==> child_entry(folder, child) == (EntryView::Folder {
            id: child.id,
            name: child_path(folder, child.name),
            is_start: false,
            limit: 200,
            known: Seq::empty(),
        }),
{
}

/// Where nothing is known of what cannot be listed, it is found as a single file of its
/// own id, under its name or, without one, under its id; where something is known, no
/// file is made up for it.
pub proof fn law_unlisted_folders_are_found(w: WalkView)
    requires
        w.pending.len() > 0,
        w.pending.last() is Folder,
    ensures
        w.pending.last()->known.len() == 0 ==> w.found.push(
            (
                if w.pending.last()->name.len() == 0 {
                    w.pending.last()->id
                } else {
                    w.pending.last()->name
                },
                CloudView {
                    id: w.pending.last()->id,
                    name: if w.pending.last()->name.len() == 0 {
                        w.pending.last()->id
                    } else {
                        w.pending.last()->name
                    },
                    size: 0,
                    is_dir: false,
                },
            ),
        ).is_prefix_of(walk_on(w, None).found),
{
    let top = w.pending.last();
    if top->known.len() == 0 {
        let found = w.found.push(lone_file(top->id, top->name));
        lemma_settle_keeps(w.pending.drop_last(), found);
    }
}

proof fn lemma_settle_keeps(pending: Seq<EntryView>, found: Found)
    ensures
        found.is_prefix_of(settle(pending, found).found),
    decreases pending.len(),
{
    if pending.len() > 0 && pending.last() is File {
        let more = found.push((pending.last()->path, pending.last()->file));
        lemma_settle_keeps(pending.drop_last(), more);
        let all = settle(pending, found).found;
        assert(more =~= all.subrange(0, more.len() as int));
        assert(found =~= all.subrange(0, found.len() as int)) by {
            assert forall|i: int| 0 <= i < found.len() implies found[i] == all[i] by {
                assert(more[i] == all.subrange(0, more.len() as int)[i]);
            }
        }
    } else {
        assert(found =~= found.subrange(0, found.len() as int));
    }
}

/// After a full listing the same folder is asked for again, with a larger limit, and
/// what is known of it does not shrink.
pub proof fn law_full_listings_are_repeated(w: WalkView, children: Seq<CloudView>)
    requires
        w.pending.len() > 0,
        w.pending.last() is Folder,
        0 < w.pending.last()->limit < u32::MAX,
        children.len() >= w.pending.last()->limit,
    ensures
        ({
            let before = w.pending.last();
            let next = walk_on(w, Some(children));
            &&& next.found == w.found
            &&& next.pending.len() == w.pending.len()
            &&& next.pending.last() is Folder
            &&& next.pending.last()->id == before->id
            &&& next.pending.last()->name == before->name
            &&& next.pending.last()->limit > before->limit
            &&& next.pending.last()->known.len() >= children.len()
            &&& next.pending.last()->known.len() >= before->known.len()
        }),
{
}

} // verus!
