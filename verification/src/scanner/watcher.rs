// Incremental library updates from file system changes.
//
// The watcher (and its 2 second debounce) runs in the caller, which also
// looks at the disk and the database. This module decides what a batch of
// changes means: which files to (re)read, which to drop, which folders were
// removed, and what the frontend is told afterwards.

use vstd::prelude::*;
use crate::text::{chars_eq_str, push_str, str_chars};

verus! {

/// The kind of a file system event.
#[derive(Debug, Clone, Copy, PartialEq, Eq, Structural)]
pub enum FsChangeKind {
    CreateOrModify,
    Remove,
    Other,
}

/// One path of a debounced event, with what the caller found out about it:
/// whether it is a supported audio file, whether it is a directory, whether
/// it has an extension, and, for a created or modified directory, the audio
/// files found in it.
#[derive(Debug, Clone)]
pub struct PathEvent {
    pub kind: FsChangeKind,
    pub path: String,
    pub is_audio: bool,
    pub is_dir: bool,
    pub has_extension: bool,
    pub dir_audio_files: Vec<String>,
}

/// What a batch of events asks for: files to read into the library, files
/// to drop from it, and removed directories. A file is in at most one of
/// the first two, and in each at most once.
pub struct ChangeSets {
    pub upsert: Vec<String>,
    pub remove: Vec<String>,
    pub dirs_removed: Vec<String>,
}

pub struct ChangeModel {
    pub upsert: Set<Seq<char>>,
    pub remove: Set<Seq<char>>,
    pub dirs_removed: Seq<Seq<char>>,
}

pub open spec fn texts(v: Seq<String>) -> Seq<Seq<char>> {
    v.map_values(|s: String| s@)
}

impl ChangeSets {
    pub open spec fn model(&self) -> ChangeModel {
        ChangeModel {
            upsert: texts(self.upsert@).to_set(),
            remove: texts(self.remove@).to_set(),
            dirs_removed: texts(self.dirs_removed@),
        }
    }

    /// No path is listed twice in `upsert` or in `remove`.
    pub open spec fn wf(&self) -> bool {
        texts(self.upsert@).no_duplicates() && texts(self.remove@).no_duplicates()
    }
}

/// An audio file was written: it is to be read, not dropped.
pub open spec fn file_written(m: ChangeModel, p: Seq<char>) -> ChangeModel {
    ChangeModel { upsert: m.upsert.insert(p), remove: m.remove.remove(p), dirs_removed: m.dirs_removed }
}

/// An audio file was removed: it is to be dropped, not read.
pub open spec fn file_removed(m: ChangeModel, p: Seq<char>) -> ChangeModel {
    ChangeModel { upsert: m.upsert.remove(p), remove: m.remove.insert(p), dirs_removed: m.dirs_removed }
}

pub open spec fn files_written(m: ChangeModel, files: Seq<Seq<char>>) -> ChangeModel
    decreases files.len(),
{
    if files.len() == 0 {
        m
    } else {
        file_written(files_written(m, files.drop_last()), files.last())
    }
}

/// The effect of one path event: written audio files (or the audio files of
/// a written directory) are read; a removed audio file is dropped; a removed
/// path without an extension is taken for a removed directory; anything else
/// is ignored.
pub open spec fn apply_event(m: ChangeModel, e: PathEvent) -> ChangeModel {
    match e.kind {
        FsChangeKind::CreateOrModify => if e.is_audio {
            file_written(m, e.path@)
        } else if e.is_dir {
            files_written(m, texts(e.dir_audio_files@))
        } else {
            m
        },
        FsChangeKind::Remove => if e.is_audio {
            file_removed(m, e.path@)
        } else if !e.has_extension {
            ChangeModel { dirs_removed: m.dirs_removed.push(e.path@), ..m }
        } else {
            m
        },
        FsChangeKind::Other => m,
    }
}

pub open spec fn no_changes() -> ChangeModel {
    ChangeModel { upsert: Set::empty(), remove: Set::empty(), dirs_removed: Seq::empty() }
}

pub open spec fn classify_spec(events: Seq<PathEvent>) -> ChangeModel
    decreases events.len(),
{
    if events.len() == 0 {
        no_changes()
    } else {
        apply_event(classify_spec(events.drop_last()), events.last())
    }
}

proof fn lemma_files_written_disjoint(m: ChangeModel, files: Seq<Seq<char>>)
    requires
        m.upsert.disjoint(m.remove),
    ensures
        files_written(m, files).upsert.disjoint(files_written(m, files).remove),
    decreases files.len(),
{
    if files.len() > 0 {
        lemma_files_written_disjoint(m, files.drop_last());
    }
}

/// No file is both to be read and to be dropped: whatever the events, the
/// files to add or update and the files to remove are disjoint.
pub proof fn lemma_classify_disjoint(events: Seq<PathEvent>)
    ensures
        classify_spec(events).upsert.disjoint(classify_spec(events).remove),
    decreases events.len(),
{
    if events.len() == 0 {
        assert(no_changes().upsert.disjoint(no_changes().remove));
    } else {
        lemma_classify_disjoint(events.drop_last());
        let m = classify_spec(events.drop_last());
        let e = events.last();
        if e.kind == FsChangeKind::CreateOrModify && !e.is_audio && e.is_dir {
            lemma_files_written_disjoint(m, texts(e.dir_audio_files@));
        }
    }
}

fn texts_equal(a: &String, b: &String) -> (r: bool)
    ensures
        r == (a@ == b@),
{
    let ac = str_chars(a.as_str());
    chars_eq_str(ac.as_slice(), b.as_str())
}

/// The position of `p` in `v`, if it is there.
fn index_of(v: &Vec<String>, p: &String) -> (r: Option<usize>)
    ensures
        match r {
            Some(i) => i < v@.len() && v@[i as int]@ == p@,
            None => !texts(v@).contains(p@),
        },
{
    let mut i: usize = 0;
    while i < v.len()
        invariant
            i <= v@.len(),
            forall|j: int| 0 <= j < i ==> v@[j]@ != p@,
        decreases v@.len() - i,
    {
        if texts_equal(&v[i], p) {
            return Some(i);
        }
        i = i + 1;
    }
    proof {
        if texts(v@).contains(p@) {
            let j = choose|j: int| 0 <= j < texts(v@).len() && texts(v@)[j] == p@;
            assert(v@[j]@ == p@);
        }
    }
    None
}

/// Adds `p` to a duplicate-free list unless it is there.
fn set_insert(v: &mut Vec<String>, p: &String)
    requires
        texts(old(v)@).no_duplicates(),
    ensures
        texts(final(v)@).no_duplicates(),
        texts(final(v)@).to_set() == texts(old(v)@).to_set().insert(p@),
{
    let ghost before = texts(v@);
    match index_of(v, p) {
        Some(i) => {
            assert(before[i as int] == p@);
            assert(before.to_set().insert(p@) =~= before.to_set());
        },
        None => {
            v.push(p.clone());
            assert(texts(v@) =~= before.push(p@));
            proof {
                before.lemma_push_to_set_commute(p@);
            }
        },
    }
}

/// Removes `p` from a duplicate-free list if it is there.
fn set_remove(v: &mut Vec<String>, p: &String)
    requires
        texts(old(v)@).no_duplicates(),
    ensures
        texts(final(v)@).no_duplicates(),
        texts(final(v)@).to_set() == texts(old(v)@).to_set().remove(p@),
{
    let ghost before = texts(v@);
    match index_of(v, p) {
        Some(i) => {
            v.remove(i);
            assert(texts(v@) =~= before.remove(i as int));
            proof {
                assert(before[i as int] == p@);
                assert forall|x: Seq<char>| #[trigger] texts(v@).to_set().contains(x) <==> before.to_set().remove(p@).contains(x) by {
                    if texts(v@).contains(x) {
                        let j = choose|j: int| 0 <= j < texts(v@).len() && texts(v@)[j] == x;
                        if j < i {
                            assert(before[j] == x);
                        } else {
                            assert(before[j + 1] == x);
                        }
                        assert(before.contains(x));
                    }
                    if before.contains(x) && x != p@ {
                        let j = choose|j: int| 0 <= j < before.len() && before[j] == x;
                        assert(j != i);
                        if j < i {
                            assert(texts(v@)[j] == x);
                        } else {
                            assert(texts(v@)[j - 1] == x);
                        }
                    }
                }
                assert(texts(v@).to_set() =~= before.to_set().remove(p@));
            }
        },
        None => {
            assert(before.to_set().remove(p@) =~= before.to_set());
        },
    }
}

impl ChangeSets {
    pub fn new() -> (c: ChangeSets)
        ensures
            c.wf(),
            c.model() == no_changes(),
    {
        let c = ChangeSets { upsert: Vec::new(), remove: Vec::new(), dirs_removed: Vec::new() };
        assert(texts(c.upsert@) =~= Seq::<Seq<char>>::empty());
        assert(texts(c.remove@) =~= Seq::<Seq<char>>::empty());
        assert(texts(c.upsert@).to_set() =~= Set::<Seq<char>>::empty());
        assert(texts(c.remove@).to_set() =~= Set::<Seq<char>>::empty());
        assert(texts(c.dirs_removed@) =~= Seq::<Seq<char>>::empty());
        c
    }

    fn write_file(&mut self, p: &String)
        requires
            old(self).wf(),
        ensures
            final(self).wf(),
            final(self).model() == file_written(old(self).model(), p@),
    {
        set_remove(&mut self.remove, p);
        set_insert(&mut self.upsert, p);
    }

    fn remove_file(&mut self, p: &String)
        requires
            old(self).wf(),
        ensures
            final(self).wf(),
            final(self).model() == file_removed(old(self).model(), p@),
    {
        set_remove(&mut self.upsert, p);
        set_insert(&mut self.remove, p);
    }

    /// Takes one path event into account.
    pub fn apply(&mut self, e: &PathEvent)
        requires
            old(self).wf(),
        ensures
            final(self).wf(),
            final(self).model() == apply_event(old(self).model(), *e),
    {
        match e.kind {
            FsChangeKind::CreateOrModify => {
                if e.is_audio {
                    self.write_file(&e.path);
                } else if e.is_dir {
                    let ghost start = self.model();
                    let mut i: usize = 0;
                    while i < e.dir_audio_files.len()
                        invariant
                            self.wf(),
                            i <= e.dir_audio_files@.len(),
                            self.model() == files_written(
                                start,
                                texts(e.dir_audio_files@).take(i as int),
                            ),
                        decreases e.dir_audio_files@.len() - i,
                    {
                        assert(texts(e.dir_audio_files@).take(i + 1).drop_last() =~= texts(
                            e.dir_audio_files@,
                        ).take(i as int));
                        self.write_file(&e.dir_audio_files[i]);
                        i = i + 1;
                    }
                    assert(texts(e.dir_audio_files@).take(i as int) =~= texts(e.dir_audio_files@));
                }
            },
            FsChangeKind::Remove => {
                if e.is_audio {
                    self.remove_file(&e.path);
                } else if !e.has_extension {
                    let ghost before = texts(self.dirs_removed@);
                    self.dirs_removed.push(e.path.clone());
                    assert(texts(self.dirs_removed@) =~= before.push(e.path@));
                }
            },
            FsChangeKind::Other => {},
        }
    }

    /// Whether there is anything to do.
    pub fn has_work(&self) -> (b: bool)
        ensures
            b == !(self.model().upsert.is_empty() && self.model().remove.is_empty()
                && self.model().dirs_removed.len() == 0),
    {
        proof {
            if self.upsert@.len() > 0 {
                assert(texts(self.upsert@).to_set().contains(texts(self.upsert@)[0]));
            }
            if self.remove@.len() > 0 {
                assert(texts(self.remove@).to_set().contains(texts(self.remove@)[0]));
            }
            if self.upsert@.len() == 0 {
                assert(texts(self.upsert@).to_set() =~= Set::<Seq<char>>::empty());
            }
            if self.remove@.len() == 0 {
                assert(texts(self.remove@).to_set() =~= Set::<Seq<char>>::empty());
            }
        }
        self.upsert.len() != 0 || self.remove.len() != 0 || self.dirs_removed.len() != 0
    }
}

/// Classify debounced file system events into files to add or update,
/// files to remove and removed directories.
pub fn classify_events(events: &[PathEvent]) -> (c: ChangeSets)
    ensures
        c.wf(),
        c.model() == classify_spec(events@),
{
    let mut c = ChangeSets::new();
    let mut i: usize = 0;
    while i < events.len()
        invariant
            i <= events@.len(),
            c.wf(),
            c.model() == classify_spec(events@.take(i as int)),
        decreases events@.len() - i,
    {
        assert(events@.take(i + 1).drop_last() =~= events@.take(i as int));
        c.apply(&events[i]);
        i = i + 1;
    }
    assert(events@.take(events@.len() as int) =~= events@);
    c
}

/// The SQL `LIKE` pattern for every track under a removed directory: the
/// path followed by a separator (`\`, unless it ends with one) and `%`.
pub fn directory_pattern(dir_path: &str) -> (s: String)
    ensures
        s@ == if dir_path@.len() > 0 && (dir_path@.last() == '\\' || dir_path@.last() == '/') {
            dir_path@ + "%"@
        } else {
            dir_path@ + "\\%"@
        },
{
    let cs = str_chars(dir_path);
    let n = cs.len();
    let mut s = String::from_str(dir_path);
    if n > 0 && (cs[n - 1] == '\\' || cs[n - 1] == '/') {
        push_str(&mut s, "%");
    } else {
        push_str(&mut s, "\\%");
    }
    s
}

/// Event payload sent to the frontend when the watcher detects changes
#[derive(Debug, Clone)]
pub struct WatcherChangeEvent {
    pub added: usize,
    pub updated: usize,
    pub removed: usize,
    pub errors: Vec<String>,
}

/// What became of one file to be read into the library.
pub enum UpsertResult {
    /// Stored under `track_id` (new, or an update of a known track); an id of
    /// 0 or less marks a skipped duplicate.
    Stored { track_id: i64, was_new: bool },
    /// The database refused it, with this message.
    DbError(String),
    /// Its metadata could not be read.
    NoMetadata,
}

pub open spec fn errors_view(e: Seq<String>) -> Seq<Seq<char>> {
    texts(e)
}

impl WatcherChangeEvent {
    pub fn new() -> (ev: WatcherChangeEvent)
        ensures
            ev.added == 0 && ev.updated == 0 && ev.removed == 0 && ev.errors@.len() == 0,
    {
        WatcherChangeEvent { added: 0, updated: 0, removed: 0, errors: Vec::new() }
    }

    /// Counts a file read into the library, or records why it was not.
    pub fn record_upsert(&mut self, path: &str, r: &UpsertResult)
        requires
            old(self).added < usize::MAX,
            old(self).updated < usize::MAX,
        ensures
            final(self).removed == old(self).removed,
            match r {
                UpsertResult::Stored { track_id, was_new } => {
                    &&& final(self).errors == old(self).errors
                    &&& final(self).added == old(self).added + if *track_id > 0 && *was_new { 1int } else { 0 }
                    &&& final(self).updated == old(self).updated + if *track_id > 0 && !*was_new { 1int } else { 0 }
                },
                UpsertResult::DbError(e) => {
                    &&& final(self).added == old(self).added
                    &&& final(self).updated == old(self).updated
                    &&& errors_view(final(self).errors@) == errors_view(old(self).errors@).push(
                        "DB error for "@ + path@ + ": "@ + e@,
                    )
                },
                UpsertResult::NoMetadata => {
                    &&& final(self).added == old(self).added
                    &&& final(self).updated == old(self).updated
                    &&& errors_view(final(self).errors@) == errors_view(old(self).errors@).push(
                        "Failed to read metadata: "@ + path@,
                    )
                },
            },
    {
        match r {
            UpsertResult::Stored { track_id, was_new } => {
                if *track_id > 0 {
                    if *was_new {
                        self.added = self.added + 1;
                    } else {
                        self.updated = self.updated + 1;
                    }
                }
            },
            UpsertResult::DbError(e) => {
                let mut m = String::from_str("DB error for ");
                push_str(&mut m, path);
                push_str(&mut m, ": ");
                push_str(&mut m, e.as_str());
                let ghost before = errors_view(self.errors@);
                self.errors.push(m);
                assert(errors_view(self.errors@) =~= before.push(m@));
            },
            UpsertResult::NoMetadata => {
                let mut m = String::from_str("Failed to read metadata: ");
                push_str(&mut m, path);
                let ghost before = errors_view(self.errors@);
                self.errors.push(m);
                assert(errors_view(self.errors@) =~= before.push(m@));
            },
        }
    }

    /// Counts a removed file (`Ok(true)` when a track was deleted), or
    /// records the database error.
    pub fn record_file_removal(&mut self, path: &str, r: &Result<bool, String>)
        requires
            old(self).removed < usize::MAX,
        ensures
            final(self).added == old(self).added,
            final(self).updated == old(self).updated,
            match r {
                Ok(deleted) => final(self).errors == old(self).errors && final(self).removed == old(
                    self,
                ).removed + if *deleted { 1int } else { 0 },
                Err(e) => final(self).removed == old(self).removed && errors_view(
                    final(self).errors@,
                ) == errors_view(old(self).errors@).push("DB remove error for "@ + path@ + ": "@ + e@),
            },
    {
        match r {
            Ok(deleted) => {
                if *deleted {
                    self.removed = self.removed + 1;
                }
            },
            Err(e) => {
                let mut m = String::from_str("DB remove error for ");
                push_str(&mut m, path);
                push_str(&mut m, ": ");
                push_str(&mut m, e.as_str());
                let ghost before = errors_view(self.errors@);
                self.errors.push(m);
                assert(errors_view(self.errors@) =~= before.push(m@));
            },
        }
    }

    /// Counts the tracks deleted under a removed directory, or records the
    /// database error.
    pub fn record_dir_removal(&mut self, dir: &str, r: &Result<usize, String>)
        requires
            r matches Ok(n) ==> old(self).removed + *n <= usize::MAX,
        ensures
            final(self).added == old(self).added,
            final(self).updated == old(self).updated,
            match r {
                Ok(n) => final(self).errors == old(self).errors && final(self).removed == old(
                    self,
                ).removed + *n,
                Err(e) => final(self).removed == old(self).removed && errors_view(
                    final(self).errors@,
                ) == errors_view(old(self).errors@).push(
                    "DB dir remove error for "@ + dir@ + ": "@ + e@,
                ),
            },
    {
        match r {
            Ok(n) => {
                self.removed = self.removed + *n;
            },
            Err(e) => {
                let mut m = String::from_str("DB dir remove error for ");
                push_str(&mut m, dir);
                push_str(&mut m, ": ");
                push_str(&mut m, e.as_str());
                let ghost before = errors_view(self.errors@);
                self.errors.push(m);
                assert(errors_view(self.errors@) =~= before.push(m@));
            },
        }
    }

    /// The frontend is told only when something was added, updated or removed.
    pub fn has_changes(&self) -> (b: bool)
        ensures
            b == (self.added > 0 || self.updated > 0 || self.removed > 0),
    {
        self.added > 0 || self.updated > 0 || self.removed > 0
    }
}

} // verus!
