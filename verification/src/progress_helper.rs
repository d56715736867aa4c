//! Progress and the typing state together: taking note of how far a file
//! was typed, picking a file up where it was left, and saving only when
//! enough has changed.
//!
//! Nothing here touches the disk. A caller that keeps the storage in a
//! file writes it out after a function here has changed it.

use crate::code_state::{CodeState, byte_len, least};
use crate::format::lower_hex;
use crate::progress_storage::{FileProgress, ProgressModel, ProgressStorage, compute_hash, content_digest};
use vstd::prelude::*;
use vstd::string::*;

verus! {

/// The entry that stands for the typing state `code_state` of the file at
/// `file_path` with the hash `content_hash`.
pub open spec fn progress_of(file_path: Seq<char>, code_state: CodeState, content_hash: Seq<char>) -> ProgressModel {
    ProgressModel {
        file_path,
        content_hash,
        position: byte_len(code_state.printed_code@) as usize,
        scroll_offset: 0,
        last_accessed: None,
    }
}

/// The typing state of a file with the content `content`: picked up at
/// `position` characters, or at the end if that comes first, where the
/// storage holds progress for the content as it is now; at the start
/// otherwise.
pub open spec fn resumed_at(
    storage: Map<Seq<char>, ProgressModel>,
    file_path: Seq<char>,
    content: Seq<char>,
) -> int {
    if storage.contains_key(file_path) && storage[file_path].content_hash == lower_hex(
        content_digest(content) as int,
    ) {
        least(storage[file_path].position as int, content.len() as int)
    } else {
        0
    }
}

/// The typing state of the file at `file_path` with the content
/// `content`, and the content's hash. Stored progress is taken up if the
/// file has not changed since.
pub fn initialize_with_progress(file_path: &str, content: String, storage: &ProgressStorage) -> (r: (
    CodeState,
    String,
))
    requires
        storage.wf(),
    ensures
        r.1@ == lower_hex(content_digest(content@) as int),
        r.0.printed_code@ == content@.take(resumed_at(storage@, file_path@, content@)),
        r.0.current_code@ == content@.skip(resumed_at(storage@, file_path@, content@)),
{
    let current_hash = compute_hash(content.as_str());
    let mut position: usize = 0;
    match storage.get_progress(file_path) {
        Some(progress) => {
            if progress.content_hash == current_hash {
                position = progress.position;
            }
        },
        None => {},
    }
    let n = content.as_str().unicode_len();
    let k = if position < n {
        position
    } else {
        n
    };
    let printed_code = content.as_str().substring_char(0, k).to_owned();
    let current_code = content.as_str().substring_char(k, n).to_owned();
    (CodeState { current_code, printed_code }, current_hash)
}

/// Takes note of how far the file at `file_path` was typed.
pub fn save_progress(file_path: &str, code_state: &CodeState, content_hash: &str, storage: &mut ProgressStorage)
    requires
        old(storage).wf(),
    ensures
        final(storage).wf(),
        final(storage).path() == old(storage).path(),
        final(storage)@ == old(storage)@.insert(file_path@, progress_of(file_path@, *code_state, content_hash@)),
{
    let position = code_state.get_cursor_position();
    storage.save_progress(file_path.to_owned(), content_hash.to_owned(), position);
}

/// The storage kept at `storage_path` with what was read from there:
/// `loaded` holds the entries if reading went well. If it did not, the
/// storage starts empty.
pub fn load_or_create_storage(storage_path: &str, loaded: Option<Vec<FileProgress>>) -> (s: ProgressStorage)
    ensures
        s.wf(),
        s.path() == storage_path@,
        match loaded {
            Some(entries) => s@ == crate::progress_storage::inserted_all(entries@, entries@.len() as int),
            None => s@ == Map::<Seq<char>, ProgressModel>::empty(),
        },
{
    match loaded {
        Some(entries) => ProgressStorage::from_entries(storage_path, entries),
        None => ProgressStorage::new(storage_path),
    }
}

/// Saves only when the position has moved by at least `min_delta` since
/// the last save, forwards or backwards. A save has two steps with the
/// writing of the file between them: [`AutoSaveHelper::try_save`] or
/// [`AutoSaveHelper::force_save`], and [`AutoSaveHelper::note_saved`].
#[derive(Debug, Clone, Copy)]
pub struct AutoSaveHelper {
    pub last_saved_position: usize,
    pub min_delta: usize,
}

/// How far apart two positions are.
pub open spec fn distance(a: int, b: int) -> int {
    if a > b {
        a - b
    } else {
        b - a
    }
}

impl AutoSaveHelper {
    /// A helper that has last saved at position 0.
    pub fn new(min_delta: usize) -> (h: AutoSaveHelper)
        ensures
            h.last_saved_position == 0,
            h.min_delta == min_delta,
    {
        AutoSaveHelper { last_saved_position: 0, min_delta }
    }

    /// Whether the position has moved far enough for a save.
    pub fn should_save(&self, current_position: usize) -> (r: bool)
        ensures
            r == (distance(current_position as int, self.last_saved_position as int) >= self.min_delta),
    {
        let delta = if current_position > self.last_saved_position {
            current_position - self.last_saved_position
        } else {
            self.last_saved_position - current_position
        };
        delta >= self.min_delta
    }

    /// The first step of a save that waits for enough progress: if the
    /// position has moved far enough, takes note of the progress in the
    /// storage and tells that the storage is to be written out. The helper
    /// itself is unchanged until [`AutoSaveHelper::note_saved`] tells it
    /// that the writing went well.
    pub fn try_save(
        &self,
        file_path: &str,
        code_state: &CodeState,
        content_hash: &str,
        storage: &mut ProgressStorage,
    ) -> (due: bool)
        requires
            old(storage).wf(),
        ensures
            final(storage).wf(),
            final(storage).path() == old(storage).path(),
            due == (distance(byte_len(code_state.printed_code@) as int, self.last_saved_position as int)
                >= self.min_delta),
            due ==> final(storage)@ == old(storage)@.insert(
                file_path@,
                progress_of(file_path@, *code_state, content_hash@),
            ),
            !due ==> final(storage)@ == old(storage)@,
    {
        let current_position = code_state.get_cursor_position();
        if self.should_save(current_position) {
            save_progress(file_path, code_state, content_hash, storage);
            true
        } else {
            false
        }
    }

    /// The first step of a save that does not wait: takes note of the
    /// progress in the storage, which is then to be written out. The helper
    /// itself is unchanged until [`AutoSaveHelper::note_saved`] tells it
    /// that the writing went well.
    pub fn force_save(
        &self,
        file_path: &str,
        code_state: &CodeState,
        content_hash: &str,
        storage: &mut ProgressStorage,
    )
        requires
            old(storage).wf(),
        ensures
            final(storage).wf(),
            final(storage).path() == old(storage).path(),
            final(storage)@ == old(storage)@.insert(
                file_path@,
                progress_of(file_path@, *code_state, content_hash@),
            ),
    {
        save_progress(file_path, code_state, content_hash, storage);
    }

    /// The last step of a save: the storage was written out with the
    /// progress of `code_state`, so its position is the last one saved. A
    /// save whose writing failed is not noted, and is tried again at the
    /// next key.
    pub fn note_saved(&mut self, code_state: &CodeState)
        ensures
            final(self).last_saved_position == byte_len(code_state.printed_code@),
            final(self).min_delta == old(self).min_delta,
    {
        self.last_saved_position = code_state.get_cursor_position();
    }

    /// Forgets the last save, as when another file is taken up.
    pub fn reset(&mut self)
        ensures
            final(self).last_saved_position == 0,
            final(self).min_delta == old(self).min_delta,
    {
        self.last_saved_position = 0;
    }
}

/// The map without the paths among the first `n` of `gone`.
pub open spec fn without(storage: Map<Seq<char>, ProgressModel>, gone: Seq<String>, n: int) -> Map<
    Seq<char>,
    ProgressModel,
>
    decreases n,
{
    if n <= 0 {
        storage
    } else {
        without(storage, gone, n - 1).remove(gone[n - 1]@)
    }
}

/// How many of the first `n` of `gone` take a path from the map as they
/// are removed one after the other.
pub open spec fn removals(storage: Map<Seq<char>, ProgressModel>, gone: Seq<String>, n: int) -> nat
    decreases n,
{
    if n <= 0 {
        0
    } else {
        removals(storage, gone, n - 1) + if without(storage, gone, n - 1).contains_key(gone[n - 1]@) {
            1nat
        } else {
            0nat
        }
    }
}

/// Removes the progress of files that are no longer there: `missing` holds
/// the paths that were looked for and not found. Returns the number of
/// entries removed.
pub fn cleanup_old_progress(storage: &mut ProgressStorage, missing: &Vec<String>) -> (removed: usize)
    requires
        old(storage).wf(),
    ensures
        final(storage).wf(),
        final(storage).path() == old(storage).path(),
        final(storage)@ == without(old(storage)@, missing@, missing@.len() as int),
        removed == removals(old(storage)@, missing@, missing@.len() as int),
{
    let mut removed: usize = 0;
    let mut i: usize = 0;
    while i < missing.len()
        invariant
            i <= missing.len(),
            removed <= i,
            storage.wf(),
            storage.path() == old(storage).path(),
            storage@ == without(old(storage)@, missing@, i as int),
            removed == removals(old(storage)@, missing@, i as int),
        decreases missing.len() - i,
    {
        match storage.remove_progress(missing[i].as_str()) {
            Some(_) => {
                removed += 1;
            },
            None => {},
        }
        i += 1;
    }
    removed
}

} // verus!
