//! Removing the files of chosen artifacts.
use vstd::prelude::*;
use crate::CleanResult;
use crate::text::{chars_of, has_prefix, starts_with};

verus! {

/// The per-directory tracking files that the build tool writes; they go
/// whenever an artifact of their directory goes.
pub open spec fn metadata_files() -> Seq<Seq<char>> {
    seq!["_remote.repositories"@, "_maven.repositories"@, "resolver-status.properties"@]
}

/// A clean of the artifact named `base` removes the entry called `name`: the
/// name starts with `base` (case-sensitive, nothing required after it), or it
/// is one of the tracking files.
pub open spec fn selected(name: Seq<char>, base: Seq<char>) -> bool {
    starts_with(name, base) || metadata_files().contains(name)
}

/// The entries among `entries` that a clean of `base` removes, in order.
pub open spec fn selection(entries: Seq<Seq<char>>, base: Seq<char>) -> Seq<Seq<char>>
    decreases entries.len(),
{
    if entries.len() == 0 {
        Seq::empty()
    } else {
        let rest = selection(entries.drop_last(), base);
        if selected(entries.last(), base) {
            rest.push(entries.last())
        } else {
            rest
        }
    }
}

/// The entries among `entries` that a clean of `base` leaves, in order.
pub open spec fn remaining(entries: Seq<Seq<char>>, base: Seq<char>) -> Seq<Seq<char>>
    decreases entries.len(),
{
    if entries.len() == 0 {
        Seq::empty()
    } else {
        let rest = remaining(entries.drop_last(), base);
        if selected(entries.last(), base) {
            rest
        } else {
            rest.push(entries.last())
        }
    }
}

/// Whether `name` is one of the tracking files.
pub fn is_metadata_file(name: &str) -> (r: bool)
    ensures
        r == metadata_files().contains(name@),
{
    let n = name.to_owned();
    let known = [
        "_remote.repositories".to_owned(),
        "_maven.repositories".to_owned(),
        "resolver-status.properties".to_owned(),
    ];
    let mut k: usize = 0;
    while k < 3
        invariant
            k <= 3,
            n@ == name@,
            known@.len() == 3,
            forall|j: int| 0 <= j < 3 ==> #[trigger] known@[j]@ == metadata_files()[j],
            forall|j: int| 0 <= j < k ==> metadata_files()[j] != name@,
        decreases 3 - k,
    {
        if n == known[k] {
            assert(metadata_files()[k as int] == name@);
            return true;
        }
        k = k + 1;
    }
    false
}

/// Whether a clean of the artifact `base_name` removes the entry `file_name`.
pub fn should_delete(file_name: &str, base_name: &str) -> (r: bool)
    ensures
        r == selected(file_name@, base_name@),
{
    let name = chars_of(file_name);
    let base = chars_of(base_name);
    has_prefix(&name, &base) || is_metadata_file(file_name)
}

/// The names among `entries`, the names in one directory, that a clean of the
/// artifact `base_name` removes, in their order.
pub fn files_to_delete(entries: &Vec<String>, base_name: &str) -> (r: Vec<String>)
    ensures
        r.deep_view() == selection(entries.deep_view(), base_name@),
{
    let ghost all = entries.deep_view();
    let mut out: Vec<String> = Vec::new();
    let mut i: usize = 0;
    while i < entries.len()
        invariant
            i <= entries.len(),
            all == entries.deep_view(),
            all.len() == entries.len(),
            out.deep_view() == selection(all.take(i as int), base_name@),
        decreases entries.len() - i,
    {
        assert(all.take(i + 1).drop_last() =~= all.take(i as int));
        assert(all.take(i + 1).last() == all[i as int]);
        let ghost before = out.deep_view();
        if should_delete(entries[i].as_str(), base_name) {
            out.push(entries[i].clone());
            assert(out.deep_view() =~= before.push(all[i as int]));
        }
        i = i + 1;
    }
    assert(all.take(all.len() as int) =~= all);
    out
}

impl CleanResult {
    /// A result with nothing deleted and no errors.
    pub fn new() -> (r: CleanResult)
        ensures
            r.deleted_count == 0,
            r.errors@.len() == 0,
    {
        CleanResult { deleted_count: 0, errors: Vec::new() }
    }

    /// Counts one more deleted file; the count stays at `usize::MAX` once there.
    pub fn record_deletion(&mut self)
        ensures
            final(self).deleted_count == if old(self).deleted_count < usize::MAX {
                old(self).deleted_count + 1
            } else {
                old(self).deleted_count as int
            },
            final(self).errors@ == old(self).errors@,
    {
        if self.deleted_count < usize::MAX {
            self.deleted_count = self.deleted_count + 1;
        }
    }

    /// Counts the deletion of one file: a success adds to the count, a failure
    /// adds its message to the errors.
    pub fn record_outcome(&mut self, outcome: Result<(), String>)
        ensures
            match outcome {
                Ok(()) => final(self).deleted_count == if old(self).deleted_count < usize::MAX {
                    old(self).deleted_count + 1
                } else {
                    old(self).deleted_count as int
                } && final(self).errors@ == old(self).errors@,
                Err(m) => final(self).deleted_count == old(self).deleted_count && final(self).errors@
                    == old(self).errors@.push(m),
            },
    {
        match outcome {
            Ok(()) => self.record_deletion(),
            Err(m) => self.record_error(m),
        }
    }

    /// Adds `message` after the errors so far.
    pub fn record_error(&mut self, message: String)
        ensures
            final(self).deleted_count == old(self).deleted_count,
            final(self).errors@ == old(self).errors@.push(message),
    {
        self.errors.push(message);
    }
}

/// What looking at an item's folder gave.
#[derive(Clone, Debug)]
pub enum FolderListing {
    /// The folder does not exist.
    Missing,
    /// The folder exists but could not be listed; the message says why.
    Unreadable(String),
    /// The names of the folder's entries.
    Entries(Vec<String>),
}

/// The files to delete for the artifact `base_name`, given what its folder
/// held. A missing folder is already clean and gives nothing; an unreadable
/// one gives nothing and adds its message to the errors of `result`.
pub fn files_for_item(result: &mut CleanResult, listing: FolderListing, base_name: &str) -> (r: Vec<String>)
    ensures
        match listing {
            FolderListing::Missing => r@.len() == 0 && final(result).deleted_count == old(result).deleted_count
                && final(result).errors@ == old(result).errors@,
            FolderListing::Unreadable(m) => r@.len() == 0 && final(result).deleted_count
                == old(result).deleted_count && final(result).errors@ == old(result).errors@.push(m),
            FolderListing::Entries(e) => r.deep_view() == selection(e.deep_view(), base_name@)
                && final(result).deleted_count == old(result).deleted_count && final(result).errors@
                == old(result).errors@,
        },
{
    match listing {
        FolderListing::Missing => Vec::new(),
        FolderListing::Unreadable(m) => {
            result.record_error(m);
            Vec::new()
        },
        FolderListing::Entries(e) => files_to_delete(&e, base_name),
    }
}

/// Every entry of a directory is either removed or left by a clean of `base`,
/// and once the removed ones are gone a second clean of `base` removes nothing.
pub proof fn lemma_clean_twice_removes_nothing(entries: Seq<Seq<char>>, base: Seq<char>)
    ensures
        selection(entries, base).len() + remaining(entries, base).len() == entries.len(),
        selection(remaining(entries, base), base).len() == 0,
    decreases entries.len(),
{
    if entries.len() > 0 {
        lemma_clean_twice_removes_nothing(entries.drop_last(), base);
        let rest = remaining(entries.drop_last(), base);
        if !selected(entries.last(), base) {
            let r = rest.push(entries.last());
            assert(r.drop_last() =~= rest);
            assert(r.last() == entries.last());
        }
    }
}

} // verus!
