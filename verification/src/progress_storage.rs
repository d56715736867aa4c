//! How far each file has been typed: one entry for each file, by its path.
//!
//! The storage keeps the entries in memory. Reading and writing the file
//! that holds them between sessions is left to the caller, who gets the
//! entries with [`ProgressStorage::entries`] and hands them back to
//! [`ProgressStorage::from_entries`].

use crate::format::{lower_hex, to_lower_hex};
use std::collections::hash_map::DefaultHasher;
use std::hash::Hasher;
use vstd::prelude::*;
use vstd::std_specs::hash::DefaultHasherAdditionalSpecFns;
use vstd::string::*;
use vstd::utf8::encode_utf8;

verus! {

/// The progress in one file.
#[derive(Debug, Clone)]
pub struct FileProgress {
    /// Path to the file.
    pub file_path: String,
    /// Hash of the file's content, by which a change of the file is noticed.
    pub content_hash: String,
    /// How far the file has been typed.
    pub position: usize,
    /// How many lines the view is scrolled down.
    pub scroll_offset: usize,
    /// When the file was last worked on, if that is known.
    pub last_accessed: Option<u64>,
}

/// What a [`FileProgress`] holds.
pub struct ProgressModel {
    pub file_path: Seq<char>,
    pub content_hash: Seq<char>,
    pub position: usize,
    pub scroll_offset: usize,
    pub last_accessed: Option<u64>,
}

impl View for FileProgress {
    type V = ProgressModel;

    open spec fn view(&self) -> ProgressModel {
        ProgressModel {
            file_path: self.file_path@,
            content_hash: self.content_hash@,
            position: self.position,
            scroll_offset: self.scroll_offset,
            last_accessed: self.last_accessed,
        }
    }
}

impl FileProgress {
    /// Progress in a view that is not scrolled, last worked on at an
    /// unknown time.
    pub fn new(file_path: String, content_hash: String, position: usize) -> (p: FileProgress)
        ensures
            p@ == (ProgressModel {
                file_path: file_path@,
                content_hash: content_hash@,
                position,
                scroll_offset: 0,
                last_accessed: None,
            }),
    {
        FileProgress { file_path, content_hash, position, scroll_offset: 0, last_accessed: None }
    }

    /// Progress in a view that is scrolled down by `scroll_offset` lines.
    pub fn with_scroll_offset(
        file_path: String,
        content_hash: String,
        position: usize,
        scroll_offset: usize,
    ) -> (p: FileProgress)
        ensures
            p@ == (ProgressModel {
                file_path: file_path@,
                content_hash: content_hash@,
                position,
                scroll_offset,
                last_accessed: None,
            }),
    {
        FileProgress { file_path, content_hash, position, scroll_offset, last_accessed: None }
    }

    /// Progress that was last worked on at `timestamp`.
    pub fn with_timestamp(file_path: String, content_hash: String, position: usize, timestamp: u64) -> (p:
        FileProgress)
        ensures
            p@ == (ProgressModel {
                file_path: file_path@,
                content_hash: content_hash@,
                position,
                scroll_offset: 0,
                last_accessed: Some(timestamp),
            }),
    {
        FileProgress { file_path, content_hash, position, scroll_offset: 0, last_accessed: Some(timestamp) }
    }

    /// Progress in a scrolled view that was last worked on at `timestamp`.
    pub fn with_scroll_offset_and_timestamp(
        file_path: String,
        content_hash: String,
        position: usize,
        scroll_offset: usize,
        timestamp: u64,
    ) -> (p: FileProgress)
        ensures
            p@ == (ProgressModel {
                file_path: file_path@,
                content_hash: content_hash@,
                position,
                scroll_offset,
                last_accessed: Some(timestamp),
            }),
    {
        FileProgress { file_path, content_hash, position, scroll_offset, last_accessed: Some(timestamp) }
    }
}

/// Whether `entries` has an entry for the path `k`.
pub open spec fn has_path(entries: Seq<FileProgress>, k: Seq<char>) -> bool {
    exists|i: int| 0 <= i < entries.len() && (#[trigger] entries[i]).file_path@ == k
}

/// The index of an entry for the path `k`.
pub open spec fn index_of(entries: Seq<FileProgress>, k: Seq<char>) -> int {
    choose|i: int| 0 <= i < entries.len() && (#[trigger] entries[i]).file_path@ == k
}

/// Whether no two entries have the same path.
pub open spec fn paths_distinct(entries: Seq<FileProgress>) -> bool {
    forall|i: int, j: int|
        0 <= i < j < entries.len() ==> (#[trigger] entries[i]).file_path@ != (#[trigger] entries[j]).file_path@
}

/// The entries as a map from each path to its progress.
pub open spec fn map_of(entries: Seq<FileProgress>) -> Map<Seq<char>, ProgressModel> {
    Map::new(|k: Seq<char>| has_path(entries, k), |k: Seq<char>| entries[index_of(entries, k)]@)
}

/// Where paths are distinct, the map holds each entry under its path.
pub proof fn lemma_entry_in_map(entries: Seq<FileProgress>, i: int)
    requires
        paths_distinct(entries),
        0 <= i < entries.len(),
    ensures
        map_of(entries).contains_key(entries[i].file_path@),
        map_of(entries)[entries[i].file_path@] == entries[i]@,
        index_of(entries, entries[i].file_path@) == i,
{
    let k = entries[i].file_path@;
    let j = index_of(entries, k);
    assert(entries[i].file_path@ == k);
    if i < j {
        assert(entries[i].file_path@ != entries[j].file_path@);
    } else if j < i {
        assert(entries[j].file_path@ != entries[i].file_path@);
    }
}

/// An entry under a new path adds its path to the map.
pub proof fn lemma_map_push(entries: Seq<FileProgress>, p: FileProgress)
    requires
        paths_distinct(entries),
        !has_path(entries, p.file_path@),
    ensures
        paths_distinct(entries.push(p)),
        map_of(entries.push(p)) == map_of(entries).insert(p.file_path@, p@),
{
    let after = entries.push(p);
    assert forall|i: int, j: int| 0 <= i < j < after.len() implies (#[trigger] after[i]).file_path@ != (
    #[trigger] after[j]).file_path@ by {
        if j == entries.len() {
            assert(entries[i].file_path@ != p.file_path@);
        } else {
            assert(after[i] == entries[i] && after[j] == entries[j]);
        }
    }
    assert forall|k: Seq<char>| #[trigger]
        map_of(after).contains_key(k) == map_of(entries).insert(p.file_path@, p@).contains_key(k) by {
        if has_path(entries, k) {
            let i = index_of(entries, k);
            assert(after[i].file_path@ == k);
        }
        if has_path(after, k) && k != p.file_path@ {
            let i = index_of(after, k);
            assert(entries[i].file_path@ == k);
        }
        assert(after[entries.len() as int].file_path@ == p.file_path@);
    }
    assert forall|k: Seq<char>| #[trigger] map_of(after).contains_key(k) implies map_of(after)[k] == map_of(
        entries,
    ).insert(p.file_path@, p@)[k] by {
        let i = index_of(after, k);
        lemma_entry_in_map(after, i);
        if i < entries.len() {
            lemma_entry_in_map(entries, i);
        }
    }
    assert(map_of(after) =~= map_of(entries).insert(p.file_path@, p@));
}

/// An entry in place of one with the same path replaces it in the map.
pub proof fn lemma_map_update(entries: Seq<FileProgress>, at: int, p: FileProgress)
    requires
        paths_distinct(entries),
        0 <= at < entries.len(),
        entries[at].file_path@ == p.file_path@,
    ensures
        paths_distinct(entries.update(at, p)),
        map_of(entries.update(at, p)) == map_of(entries).insert(p.file_path@, p@),
{
    let after = entries.update(at, p);
    assert forall|i: int, j: int| 0 <= i < j < after.len() implies (#[trigger] after[i]).file_path@ != (
    #[trigger] after[j]).file_path@ by {
        assert(entries[i].file_path@ != entries[j].file_path@);
    }
    assert forall|k: Seq<char>| #[trigger]
        map_of(after).contains_key(k) == map_of(entries).insert(p.file_path@, p@).contains_key(k) by {
        if has_path(entries, k) {
            let i = index_of(entries, k);
            assert(after[i].file_path@ == k);
        }
        if has_path(after, k) {
            let i = index_of(after, k);
            assert(entries[i].file_path@ == k);
        }
        assert(after[at].file_path@ == p.file_path@);
    }
    assert forall|k: Seq<char>| #[trigger] map_of(after).contains_key(k) implies map_of(after)[k] == map_of(
        entries,
    ).insert(p.file_path@, p@)[k] by {
        let i = index_of(after, k);
        lemma_entry_in_map(after, i);
        lemma_entry_in_map(entries, i);
    }
    assert(map_of(after) =~= map_of(entries).insert(p.file_path@, p@));
}

/// Without an entry its path is gone from the map.
pub proof fn lemma_map_remove(entries: Seq<FileProgress>, at: int)
    requires
        paths_distinct(entries),
        0 <= at < entries.len(),
    ensures
        paths_distinct(entries.remove(at)),
        map_of(entries.remove(at)) == map_of(entries).remove(entries[at].file_path@),
{
    let after = entries.remove(at);
    let gone = entries[at].file_path@;
    assert forall|i: int| 0 <= i < after.len() implies #[trigger] after[i] == entries[if i < at {
        i
    } else {
        i + 1
    }] by {}
    assert forall|i: int, j: int| 0 <= i < j < after.len() implies (#[trigger] after[i]).file_path@ != (
    #[trigger] after[j]).file_path@ by {
        let i2 = if i < at {
            i
        } else {
            i + 1
        };
        let j2 = if j < at {
            j
        } else {
            j + 1
        };
        assert(entries[i2].file_path@ != entries[j2].file_path@);
    }
    assert forall|k: Seq<char>| #[trigger]
        map_of(after).contains_key(k) == map_of(entries).remove(gone).contains_key(k) by {
        if has_path(entries, k) && k != gone {
            let i = index_of(entries, k);
            let i2 = if i < at {
                i
            } else {
                i - 1
            };
            assert(after[i2].file_path@ == k);
        }
        if has_path(after, k) {
            let i = index_of(after, k);
            let i2 = if i < at {
                i
            } else {
                i + 1
            };
            assert(entries[i2].file_path@ == k);
            if i2 < at {
                assert(entries[i2].file_path@ != entries[at].file_path@);
            } else {
                assert(entries[at].file_path@ != entries[i2].file_path@);
            }
        }
    }
    assert forall|k: Seq<char>| #[trigger] map_of(after).contains_key(k) implies map_of(after)[k] == map_of(
        entries,
    ).remove(gone)[k] by {
        let i = index_of(after, k);
        let i2 = if i < at {
            i
        } else {
            i + 1
        };
        lemma_entry_in_map(after, i);
        lemma_entry_in_map(entries, i2);
    }
    assert(map_of(after) =~= map_of(entries).remove(gone));
}

/// Where paths are distinct, the map has as many paths as there are entries.
pub proof fn lemma_map_len(entries: Seq<FileProgress>)
    requires
        paths_distinct(entries),
    ensures
        map_of(entries).dom().finite(),
        map_of(entries).len() == entries.len(),
    decreases entries.len(),
{
    if entries.len() == 0 {
        assert(map_of(entries) =~= Map::empty());
    } else {
        let front = entries.drop_last();
        let p = entries.last();
        assert forall|i: int, j: int| 0 <= i < j < front.len() implies (#[trigger] front[i]).file_path@ != (
        #[trigger] front[j]).file_path@ by {
            assert(entries[i].file_path@ != entries[j].file_path@);
        }
        lemma_map_len(front);
        if has_path(front, p.file_path@) {
            let i = index_of(front, p.file_path@);
            assert(entries[i].file_path@ != entries[entries.len() - 1].file_path@);
        }
        lemma_map_push(front, p);
        assert(front.push(p) =~= entries);
    }
}

/// The progress of the files that are worked on, and where it is kept
/// between sessions.
#[derive(Debug, Clone)]
pub struct ProgressStorage {
    entries: Vec<FileProgress>,
    storage_path: String,
}

impl View for ProgressStorage {
    type V = Map<Seq<char>, ProgressModel>;

    closed spec fn view(&self) -> Map<Seq<char>, ProgressModel> {
        map_of(self.entries@)
    }
}

impl ProgressStorage {
    /// No two entries are for the same path.
    pub closed spec fn wf(&self) -> bool {
        paths_distinct(self.entries@)
    }

    /// The path of the file in which the storage is kept.
    pub closed spec fn path(&self) -> Seq<char> {
        self.storage_path@
    }

    /// An empty storage that is kept in the file at `storage_path`.
    pub fn new(storage_path: &str) -> (s: ProgressStorage)
        ensures
            s.wf(),
            s@ == Map::<Seq<char>, ProgressModel>::empty(),
            s.path() == storage_path@,
    {
        let s = ProgressStorage { entries: Vec::new(), storage_path: storage_path.to_owned() };
        assert(s@ =~= Map::<Seq<char>, ProgressModel>::empty());
        s
    }

    /// Where the storage is kept.
    pub fn storage_path(&self) -> (p: &str)
        ensures
            p@ == self.path(),
    {
        self.storage_path.as_str()
    }

    /// Where the entry for the path `key` is, if there is one.
    fn find(&self, key: &String) -> (r: Option<usize>)
        ensures
            match r {
                Some(i) => i < self.entries@.len() && self.entries@[i as int].file_path@ == key@,
                None => !has_path(self.entries@, key@),
            },
    {
        let mut i: usize = 0;
        while i < self.entries.len()
            invariant
                i <= self.entries.len(),
                forall|j: int| 0 <= j < i ==> (#[trigger] self.entries@[j]).file_path@ != key@,
            decreases self.entries.len() - i,
        {
            if self.entries[i].file_path == *key {
                return Some(i);
            }
            i += 1;
        }
        None
    }

    /// Puts `progress` under its path, in place of what was there.
    pub fn insert(&mut self, progress: FileProgress)
        requires
            old(self).wf(),
        ensures
            final(self).wf(),
            final(self).path() == old(self).path(),
            final(self)@ == old(self)@.insert(progress.file_path@, progress@),
    {
        match self.find(&progress.file_path) {
            Some(i) => {
                proof {
                    lemma_map_update(self.entries@, i as int, progress);
                }
                self.entries[i] = progress;
            },
            None => {
                proof {
                    lemma_map_push(self.entries@, progress);
                }
                self.entries.push(progress);
            },
        }
    }

    /// Saves or updates the progress in a file.
    pub fn save_progress(&mut self, file_path: String, content_hash: String, position: usize)
        requires
            old(self).wf(),
        ensures
            final(self).wf(),
            final(self).path() == old(self).path(),
            final(self)@ == old(self)@.insert(
                file_path@,
                ProgressModel {
                    file_path: file_path@,
                    content_hash: content_hash@,
                    position,
                    scroll_offset: 0,
                    last_accessed: None,
                },
            ),
    {
        self.insert(FileProgress::new(file_path, content_hash, position));
    }

    /// Saves or updates the progress in a file with the scroll offset.
    pub fn save_progress_with_scroll_offset(
        &mut self,
        file_path: String,
        content_hash: String,
        position: usize,
        scroll_offset: usize,
    )
        requires
            old(self).wf(),
        ensures
            final(self).wf(),
            final(self).path() == old(self).path(),
            final(self)@ == old(self)@.insert(
                file_path@,
                ProgressModel {
                    file_path: file_path@,
                    content_hash: content_hash@,
                    position,
                    scroll_offset,
                    last_accessed: None,
                },
            ),
    {
        self.insert(FileProgress::with_scroll_offset(file_path, content_hash, position, scroll_offset));
    }

    /// Saves or updates the progress in a file with the time of the work.
    pub fn save_progress_with_timestamp(
        &mut self,
        file_path: String,
        content_hash: String,
        position: usize,
        timestamp: u64,
    )
        requires
            old(self).wf(),
        ensures
            final(self).wf(),
            final(self).path() == old(self).path(),
            final(self)@ == old(self)@.insert(
                file_path@,
                ProgressModel {
                    file_path: file_path@,
                    content_hash: content_hash@,
                    position,
                    scroll_offset: 0,
                    last_accessed: Some(timestamp),
                },
            ),
    {
        self.insert(FileProgress::with_timestamp(file_path, content_hash, position, timestamp));
    }

    /// Saves or updates the progress in a file with the scroll offset and
    /// the time of the work.
    pub fn save_progress_with_scroll_offset_and_timestamp(
        &mut self,
        file_path: String,
        content_hash: String,
        position: usize,
        scroll_offset: usize,
        timestamp: u64,
    )
        requires
            old(self).wf(),
        ensures
            final(self).wf(),
            final(self).path() == old(self).path(),
            final(self)@ == old(self)@.insert(
                file_path@,
                ProgressModel {
                    file_path: file_path@,
                    content_hash: content_hash@,
                    position,
                    scroll_offset,
                    last_accessed: Some(timestamp),
                },
            ),
    {
        self.insert(
            FileProgress::with_scroll_offset_and_timestamp(
                file_path,
                content_hash,
                position,
                scroll_offset,
                timestamp,
            ),
        );
    }

    /// The progress in the file at `file_path`, if any is stored.
    pub fn get_progress(&self, file_path: &str) -> (r: Option<&FileProgress>)
        requires
            self.wf(),
        ensures
            match r {
                Some(p) => self@.contains_key(file_path@) && p@ == self@[file_path@],
                None => !self@.contains_key(file_path@),
            },
    {
        let key = file_path.to_owned();
        match self.find(&key) {
            Some(i) => {
                proof {
                    lemma_entry_in_map(self.entries@, i as int);
                }
                Some(&self.entries[i])
            },
            None => None,
        }
    }

    /// Removes the progress in the file at `file_path` and returns it.
    pub fn remove_progress(&mut self, file_path: &str) -> (r: Option<FileProgress>)
        requires
            old(self).wf(),
        ensures
            final(self).wf(),
            final(self).path() == old(self).path(),
            final(self)@ == old(self)@.remove(file_path@),
            match r {
                Some(p) => old(self)@.contains_key(file_path@) && p@ == old(self)@[file_path@],
                None => !old(self)@.contains_key(file_path@),
            },
    {
        let key = file_path.to_owned();
        match self.find(&key) {
            Some(i) => {
                proof {
                    lemma_entry_in_map(self.entries@, i as int);
                    lemma_map_remove(self.entries@, i as int);
                }
                Some(self.entries.remove(i))
            },
            None => {
                assert(self@ =~= old(self)@.remove(file_path@));
                None
            },
        }
    }

    /// Removes all progress.
    pub fn clear(&mut self)
        ensures
            final(self).wf(),
            final(self).path() == old(self).path(),
            final(self)@ == Map::<Seq<char>, ProgressModel>::empty(),
    {
        self.entries = Vec::new();
        assert(self@ =~= Map::<Seq<char>, ProgressModel>::empty());
    }

    /// The number of files with progress.
    pub fn count(&self) -> (n: usize)
        requires
            self.wf(),
        ensures
            self@.dom().finite(),
            n == self@.len(),
    {
        proof {
            lemma_map_len(self.entries@);
        }
        self.entries.len()
    }

    /// Whether the file at `file_path` has changed since its progress was
    /// stored: whether its hash is no longer `current_hash`. A file without
    /// progress counts as changed.
    pub fn has_file_changed(&self, file_path: &str, current_hash: &str) -> (r: bool)
        requires
            self.wf(),
        ensures
            r == !(self@.contains_key(file_path@) && self@[file_path@].content_hash == current_hash@),
    {
        match self.get_progress(file_path) {
            Some(progress) => {
                let hash = current_hash.to_owned();
                !(progress.content_hash == hash)
            },
            None => true,
        }
    }

    /// The paths of all files with progress, each once, in no particular order.
    pub fn get_all_files(&self) -> (files: Vec<String>)
        requires
            self.wf(),
        ensures
            files@.len() == self@.len(),
            forall|i: int| 0 <= i < files@.len() ==> self@.contains_key(#[trigger] files@[i]@),
            forall|i: int, j: int| 0 <= i < j < files@.len() ==> (#[trigger] files@[i])@ != (#[trigger] files@[j])@,
            forall|k: Seq<char>|
                self@.contains_key(k) ==> exists|i: int| 0 <= i < files@.len() && (#[trigger] files@[i])@ == k,
    {
        let mut files: Vec<String> = Vec::new();
        let mut i: usize = 0;
        while i < self.entries.len()
            invariant
                i <= self.entries.len(),
                files@.len() == i,
                forall|j: int| 0 <= j < i ==> (#[trigger] files@[j])@ == self.entries@[j].file_path@,
            decreases self.entries.len() - i,
        {
            files.push(self.entries[i].file_path.clone());
            i += 1;
        }
        proof {
            lemma_map_len(self.entries@);
            assert forall|j: int| 0 <= j < files@.len() implies self@.contains_key(#[trigger] files@[j]@) by {
                lemma_entry_in_map(self.entries@, j);
            }
            assert forall|a: int, b: int| 0 <= a < b < files@.len() implies (#[trigger] files@[a])@ != (
            #[trigger] files@[b])@ by {
                assert(self.entries@[a].file_path@ != self.entries@[b].file_path@);
            }
            assert forall|k: Seq<char>| self@.contains_key(k) implies exists|j: int|
                0 <= j < files@.len() && (#[trigger] files@[j])@ == k by {
                let j = index_of(self.entries@, k);
                assert(files@[j]@ == k);
            }
        }
        files
    }

    /// The stored progress, entry by entry, for writing it out.
    pub fn entries(&self) -> (entries: &Vec<FileProgress>)
        requires
            self.wf(),
        ensures
            paths_distinct(entries@),
            map_of(entries@) == self@,
    {
        &self.entries
    }

    /// A storage kept at `storage_path` that holds `entries`; where two are
    /// for the same path, the later one counts.
    pub fn from_entries(storage_path: &str, entries: Vec<FileProgress>) -> (s: ProgressStorage)
        ensures
            s.wf(),
            s.path() == storage_path@,
            s@ == inserted_all(entries@, entries@.len() as int),
    {
        let mut s = ProgressStorage::new(storage_path);
        let mut entries = entries;
        let ghost all = entries@;
        let mut rest: Vec<FileProgress> = Vec::new();
        while entries.len() > 0
            invariant
                s.wf(),
                s.path() == storage_path@,
                entries@.len() + rest@.len() == all.len(),
                entries@ == all.take(entries@.len() as int),
                forall|j: int| 0 <= j < rest@.len() ==> (#[trigger] rest@[j])@ == all[all.len() - 1 - j]@,
            decreases entries.len(),
        {
            let p = entries.pop().unwrap();
            rest.push(p);
        }
        while rest.len() > 0
            invariant
                s.wf(),
                s.path() == storage_path@,
                rest@.len() <= all.len(),
                forall|j: int| 0 <= j < rest@.len() ==> (#[trigger] rest@[j])@ == all[all.len() - 1 - j]@,
                s@ == inserted_all(all, all.len() - rest@.len()),
            decreases rest.len(),
        {
            let p = rest.pop().unwrap();
            s.insert(p);
        }
        s
    }
}

/// The map after the first `n` of `entries` were put into an empty
/// storage, one after the other.
pub open spec fn inserted_all(entries: Seq<FileProgress>, n: int) -> Map<Seq<char>, ProgressModel>
    decreases n,
{
    if n <= 0 {
        Map::empty()
    } else {
        inserted_all(entries, n - 1).insert(entries[n - 1].file_path@, entries[n - 1]@)
    }
}

/// The hash of a text: what the default hasher of the standard library
/// gives for the text's bytes and a closing byte of 255.
pub open spec fn content_digest(content: Seq<char>) -> u64 {
    DefaultHasher::spec_finish(seq![encode_utf8(content), seq![255u8]])
}

/// The hash of `content`, in base 16. Equal texts have equal hashes.
pub fn compute_hash(content: &str) -> (hash: String)
    ensures
        hash@ == lower_hex(content_digest(content@) as int),
{
    let mut hasher = DefaultHasher::new();
    hasher.write(content.as_bytes());
    let end: Vec<u8> = vec![255u8];
    hasher.write(end.as_slice());
    assert(end@ =~= seq![255u8]);
    assert(hasher@ =~= seq![encode_utf8(content@), seq![255u8]]);
    to_lower_hex(hasher.finish())
}

} // verus!
