//! Discovering artifact files and judging which of them are corrupted.
use vstd::prelude::*;
use crate::InvalidArtifact;
use crate::text::{chars_of, contains, contains_chars, ends_with, has_suffix};

verus! {

/// Files below this many bytes are not whole packages.
pub const SIZE_THRESHOLD: u64 = 1024;

/// How many leading characters of a descriptor are searched for error-page text.
pub const PREVIEW_CHARS: usize = 1024;

/// The two kinds of artifact file that a scan looks at.
#[derive(Clone, Copy, Debug, PartialEq, Eq, Structural)]
pub enum ArtifactKind {
    /// A binary package, named `*.jar`.
    Package,
    /// A descriptor, named `*.pom`.
    Descriptor,
}

/// The suffix that names a file of kind `k`.
pub open spec fn suffix_of(k: ArtifactKind) -> Seq<char> {
    match k {
        ArtifactKind::Package => ".jar"@,
        ArtifactKind::Descriptor => ".pom"@,
    }
}

/// The kind of the file called `name`: its extension is `jar` or `pom`, and
/// something stands before the dot.
pub open spec fn kind_of(name: Seq<char>) -> Option<ArtifactKind> {
    if ends_with(name, suffix_of(ArtifactKind::Package)) && name.len() > suffix_of(
        ArtifactKind::Package,
    ).len() {
        Some(ArtifactKind::Package)
    } else if ends_with(name, suffix_of(ArtifactKind::Descriptor)) && name.len() > suffix_of(
        ArtifactKind::Descriptor,
    ).len() {
        Some(ArtifactKind::Descriptor)
    } else {
        None
    }
}

/// The name `name` without the suffix of its kind; unchanged where it has none.
pub open spec fn base_of(name: Seq<char>) -> Seq<char> {
    match kind_of(name) {
        Some(k) => name.subrange(0, name.len() - suffix_of(k).len()),
        None => name,
    }
}

/// A directory or file called `name` is hidden: its name starts with a dot.
pub open spec fn hidden(name: Seq<char>) -> bool {
    name.len() > 0 && name[0] == '.'
}

/// Whether the directory entry called `name` is hidden, and so left out of a scan
/// together with everything below it.
pub fn is_hidden(name: &str) -> (r: bool)
    ensures
        r == hidden(name@),
{
    let chars = chars_of(name);
    chars.len() > 0 && chars[0] == '.'
}

/// The kind of the file called `file_name`, or `None` where a scan ignores it.
pub fn artifact_kind(file_name: &str) -> (r: Option<ArtifactKind>)
    ensures
        r == kind_of(file_name@),
{
    let name = chars_of(file_name);
    let jar = chars_of(".jar");
    let pom = chars_of(".pom");
    if has_suffix(&name, &jar) && name.len() > jar.len() {
        Some(ArtifactKind::Package)
    } else if has_suffix(&name, &pom) && name.len() > pom.len() {
        Some(ArtifactKind::Descriptor)
    } else {
        None
    }
}

/// `file_name` without the suffix of its kind.
pub fn base_name_of(file_name: &str) -> (r: String)
    ensures
        r@ == base_of(file_name@),
{
    let n: usize = file_name.unicode_len();
    match artifact_kind(file_name) {
        Some(ArtifactKind::Package) => {
            let s = chars_of(".jar");
            file_name.substring_char(0, n - s.len()).to_owned()
        },
        Some(ArtifactKind::Descriptor) => {
            let s = chars_of(".pom");
            file_name.substring_char(0, n - s.len()).to_owned()
        },
        None => file_name.to_owned(),
    }
}

/// How many workers classify files: four for each processor, since the work
/// waits on the disk more than on the processor.
pub fn worker_count(cpus: usize) -> (r: usize)
    requires
        cpus <= usize::MAX / 4,
    ensures
        r == cpus * 4,
{
    cpus * 4
}

/// The message for a scan root that does not exist.
pub open spec fn missing_root_message(path: Seq<char>) -> Seq<char> {
    "repository path does not exist: "@ + path
}

/// The message for a scan root that is not a directory.
pub open spec fn not_directory_message(path: Seq<char>) -> Seq<char> {
    "path is not a directory: "@ + path
}

/// Whether a scan may start at `path`, given whether it exists and whether it
/// is a directory.
pub fn check_scan_root(path: &str, exists: bool, is_dir: bool) -> (r: Result<(), String>)
    ensures
        !exists ==> (r matches Err(e) && e@ == missing_root_message(path@)),
        exists && !is_dir ==> (r matches Err(e) && e@ == not_directory_message(path@)),
        exists && is_dir ==> r is Ok,
{
    if !exists {
        Err("repository path does not exist: ".to_owned().concat(path))
    } else if !is_dir {
        Err("path is not a directory: ".to_owned().concat(path))
    } else {
        Ok(())
    }
}

/// What reading a discovered file gave.
#[derive(Clone, Debug)]
pub enum FileProbe {
    /// The file's size in bytes.
    Size(u64),
    /// The file's whole text.
    Content(String),
    /// The file could not be read.
    Unreadable,
}

/// A discovered artifact file together with what reading it gave.
#[derive(Clone, Debug)]
pub struct ScannedFile {
    /// The directory that holds the file.
    pub folder: String,
    /// The file's name.
    pub file_name: String,
    /// What reading the file gave: its size for a package, its text for a
    /// descriptor.
    pub probe: FileProbe,
}

/// The reason given for a package that is too small.
pub open spec fn small_package_reason() -> Seq<char> {
    "JAR file smaller than 1024 bytes"@
}

/// The reason given for a descriptor that is an error page.
pub open spec fn error_page_reason() -> Seq<char> {
    "POM file holding a Harbor error page"@
}

/// The texts that give away an error page served in place of a descriptor.
pub open spec fn error_page_markers() -> Seq<Seq<char>> {
    seq!["<!DOCTYPE html>"@, "<title>Harbor</title>"@, "Login to Harbor"@]
}

/// The leading characters of `content` that are searched.
pub open spec fn preview(content: Seq<char>) -> Seq<char> {
    if content.len() <= PREVIEW_CHARS {
        content
    } else {
        content.take(PREVIEW_CHARS as int)
    }
}

/// One of the error-page markers occurs in the preview of `content`.
pub open spec fn is_error_page(content: Seq<char>) -> bool {
    exists|k: int| 0 <= k < error_page_markers().len() && contains(preview(content), error_page_markers()[k])
}

/// Why the file called `name`, read as `probe`, is corrupted, or `None` where it
/// is not judged so (this covers a file that could not be read).
pub open spec fn invalid_reason(name: Seq<char>, probe: FileProbe) -> Option<Seq<char>> {
    match (kind_of(name), probe) {
        (Some(ArtifactKind::Package), FileProbe::Size(n)) => if n < SIZE_THRESHOLD {
            Some(small_package_reason())
        } else {
            None
        },
        (Some(ArtifactKind::Descriptor), FileProbe::Content(c)) => if is_error_page(c@) {
            Some(error_page_reason())
        } else {
            None
        },
        _ => None,
    }
}

/// The record of an invalid artifact: folder, base name and reason.
pub type RecordView = (Seq<char>, Seq<char>, Seq<char>);

/// The record of `a`.
pub open spec fn record_view(a: InvalidArtifact) -> RecordView {
    (a.folder@, a.base_name@, a.reason@)
}

/// The record that the scan gives for `f`, where it is corrupted.
pub open spec fn record_of(f: ScannedFile) -> Option<RecordView> {
    match invalid_reason(f.file_name@, f.probe) {
        Some(reason) => Some((f.folder@, base_of(f.file_name@), reason)),
        None => None,
    }
}

/// The records of the corrupted files among `files`, in their order.
pub open spec fn records(files: Seq<ScannedFile>) -> Seq<RecordView>
    decreases files.len(),
{
    if files.len() == 0 {
        Seq::empty()
    } else {
        let rest = records(files.drop_last());
        match record_of(files.last()) {
            Some(r) => rest.push(r),
            None => rest,
        }
    }
}

/// Whether `content` holds an error-page marker among its first characters.
pub fn error_page_in(content: &str) -> (r: bool)
    ensures
        r == is_error_page(content@),
{
    let n: usize = content.unicode_len();
    let head = if n <= PREVIEW_CHARS {
        content
    } else {
        content.substring_char(0, PREVIEW_CHARS)
    };
    let text = chars_of(head);
    let markers = [chars_of("<!DOCTYPE html>"), chars_of("<title>Harbor</title>"), chars_of("Login to Harbor")];
    assert(text@ == preview(content@));
    let mut k: usize = 0;
    while k < 3
        invariant
            k <= 3,
            text@ == preview(content@),
            markers@.len() == 3,
            forall|j: int| 0 <= j < 3 ==> #[trigger] markers@[j]@ == error_page_markers()[j],
            forall|j: int| 0 <= j < k ==> !contains(preview(content@), #[trigger] error_page_markers()[j]),
        decreases 3 - k,
    {
        if contains_chars(&text, &markers[k]) {
            return true;
        }
        k = k + 1;
    }
    false
}

/// The invalid-artifact record for `file`, or `None` where it is not corrupted:
/// a package smaller than `SIZE_THRESHOLD` bytes, or a descriptor whose first
/// `PREVIEW_CHARS` characters hold an error-page marker.
pub fn classify_file(file: &ScannedFile) -> (r: Option<InvalidArtifact>)
    ensures
        match record_of(*file) {
            Some(rec) => r matches Some(a) && record_view(a) == rec,
            None => r is None,
        },
{
    let kind = artifact_kind(file.file_name.as_str());
    let reason = match (kind, &file.probe) {
        (Some(ArtifactKind::Package), FileProbe::Size(n)) => if *n < SIZE_THRESHOLD {
            Some("JAR file smaller than 1024 bytes".to_owned())
        } else {
            None
        },
        (Some(ArtifactKind::Descriptor), FileProbe::Content(c)) => if error_page_in(c.as_str()) {
            Some("POM file holding a Harbor error page".to_owned())
        } else {
            None
        },
        _ => None,
    };
    match reason {
        Some(reason) => Some(
            InvalidArtifact {
                folder: file.folder.clone(),
                base_name: base_name_of(file.file_name.as_str()),
                reason,
            },
        ),
        None => None,
    }
}

/// The invalid-artifact records of the corrupted files among `files`, in the
/// order of `files`.
pub fn classify_all(files: &Vec<ScannedFile>) -> (r: Vec<InvalidArtifact>)
    ensures
        r@.map_values(|a: InvalidArtifact| record_view(a)) == records(files@),
{
    let mut out: Vec<InvalidArtifact> = Vec::new();
    let mut i: usize = 0;
    while i < files.len()
        invariant
            i <= files.len(),
            out@.map_values(|a: InvalidArtifact| record_view(a)) == records(files@.take(i as int)),
        decreases files.len() - i,
    {
        assert(files@.take(i + 1).drop_last() =~= files@.take(i as int));
        assert(files@.take(i + 1).last() == files@[i as int]);
        let ghost before = out@;
        if let Some(a) = classify_file(&files[i]) {
            out.push(a);
            assert(out@ =~= before.push(a));
            assert(out@.map_values(|a: InvalidArtifact| record_view(a)) =~= before.map_values(
                |a: InvalidArtifact| record_view(a),
            ).push(record_view(a)));
        }
        i = i + 1;
    }
    assert(files@.take(files.len() as int) =~= files@);
    out
}

/// A file is a scan candidate when no directory on its way down from the scan
/// root (the root's own name first, the file's name last) is hidden and the
/// file's name is of an artifact kind; the file's own name may be hidden.
pub open spec fn candidate_path(names: Seq<Seq<char>>) -> bool {
    &&& names.len() > 0
    &&& forall|i: int| 0 <= i < names.len() - 1 ==> !hidden(#[trigger] names[i])
    &&& kind_of(names.last()) is Some
}

/// Whether the file reached through `names`, from the scan root's own name down
/// to the file's name, is looked at by a scan: nothing below a hidden directory
/// is, while a hidden file of an artifact kind in a visible directory is.
pub fn is_scan_candidate(names: &Vec<String>) -> (r: bool)
    ensures
        r == candidate_path(names.deep_view()),
{
    let ghost all = names.deep_view();
    if names.len() == 0 {
        return false;
    }
    let last: usize = names.len() - 1;
    let mut i: usize = 0;
    while i < last
        invariant
            i <= last,
            last == names.len() - 1,
            all == names.deep_view(),
            all.len() == names.len(),
            forall|j: int| 0 <= j < i ==> !hidden(#[trigger] all[j]),
        decreases last - i,
    {
        if is_hidden(names[i].as_str()) {
            assert(hidden(all[i as int]));
            return false;
        }
        i = i + 1;
    }
    artifact_kind(names[last].as_str()).is_some()
}

/// A file below a hidden directory is never looked at, whatever its name.
pub proof fn lemma_hidden_directory_not_entered(names: Seq<Seq<char>>, i: int)
    requires
        0 <= i < names.len() - 1,
        hidden(names[i]),
    ensures
        !candidate_path(names),
{
}

/// `files` names each file once.
pub open spec fn distinct_files(files: Seq<ScannedFile>) -> bool {
    forall|i: int, j: int|
        0 <= i < files.len() && 0 <= j < files.len() && i != j ==> (
        #[trigger] files[i].folder@,
        files[i].file_name@,
    ) != (#[trigger] files[j].folder@, files[j].file_name@)
}

/// A record is among those of `files` exactly when one of the files gives it.
pub proof fn lemma_records_contains(files: Seq<ScannedFile>, rec: RecordView)
    ensures
        records(files).contains(rec) <==> exists|j: int|
            0 <= j < files.len() && record_of(#[trigger] files[j]) == Some(rec),
    decreases files.len(),
{
    if files.len() > 0 {
        let init = files.drop_last();
        lemma_records_contains(init, rec);
        let rest = records(init);
        if records(files).contains(rec) {
            match record_of(files.last()) {
                Some(r) => {
                    let k = choose|k: int| 0 <= k < rest.push(r).len() && rest.push(r)[k] == rec;
                    if k == rest.len() {
                        assert(record_of(files[files.len() - 1]) == Some(rec));
                    } else {
                        assert(rest[k] == rec);
                        let j = choose|j: int| 0 <= j < init.len() && record_of(#[trigger] init[j]) == Some(rec);
                        assert(files[j] == init[j]);
                    }
                },
                None => {
                    let j = choose|j: int| 0 <= j < init.len() && record_of(#[trigger] init[j]) == Some(rec);
                    assert(files[j] == init[j]);
                },
            }
        }
        if exists|j: int| 0 <= j < files.len() && record_of(#[trigger] files[j]) == Some(rec) {
            let j = choose|j: int| 0 <= j < files.len() && record_of(#[trigger] files[j]) == Some(rec);
            if j == files.len() - 1 {
                assert(records(files) == rest.push(rec));
                assert(records(files)[rest.len() as int] == rec);
            } else {
                assert(init[j] == files[j]);
                let k = choose|k: int| 0 <= k < rest.len() && rest[k] == rec;
                match record_of(files.last()) {
                    Some(r) => assert(rest.push(r)[k] == rec),
                    None => {},
                }
            }
        }
    }
}

/// Two names of the same kind with the same base are the same name.
proof fn lemma_base_determines_name(a: Seq<char>, b: Seq<char>)
    requires
        kind_of(a) is Some,
        kind_of(a) == kind_of(b),
        base_of(a) == base_of(b),
    ensures
        a == b,
{
    let k = kind_of(a)->0;
    let n = suffix_of(k).len();
    assert(a =~= a.subrange(0, a.len() - n) + a.subrange(a.len() - n, a.len() as int));
    assert(b =~= b.subrange(0, b.len() - n) + b.subrange(b.len() - n, b.len() as int));
}

/// The two reasons differ.
proof fn lemma_reasons_differ()
    ensures
        small_package_reason() != error_page_reason(),
{
    reveal_strlit("JAR file smaller than 1024 bytes");
    reveal_strlit("POM file holding a Harbor error page");
    assert(small_package_reason()[0] != error_page_reason()[0]);
}

/// Among files named once each, a package whose size was read is reported as
/// too small exactly when its size is below `SIZE_THRESHOLD`.
pub proof fn lemma_package_reported_iff_small(files: Seq<ScannedFile>, i: int)
    requires
        distinct_files(files),
        0 <= i < files.len(),
        kind_of(files[i].file_name@) == Some(ArtifactKind::Package),
        files[i].probe is Size,
    ensures
        (files[i].probe->Size_0 < SIZE_THRESHOLD) <==> records(files).contains(
            (files[i].folder@, base_of(files[i].file_name@), small_package_reason()),
        ),
{
    let rec = (files[i].folder@, base_of(files[i].file_name@), small_package_reason());
    lemma_records_contains(files, rec);
    lemma_reasons_differ();
    if records(files).contains(rec) {
        let j = choose|j: int| 0 <= j < files.len() && record_of(#[trigger] files[j]) == Some(rec);
        lemma_base_determines_name(files[i].file_name@, files[j].file_name@);
        if j != i {
            assert((files[i].folder@, files[i].file_name@) != (files[j].folder@, files[j].file_name@));
        }
    } else {
        assert(record_of(files[i]) != Some(rec));
    }
}

/// Among files named once each, a descriptor whose text was read is reported
/// as an error page exactly when an error-page marker occurs in its first
/// `PREVIEW_CHARS` characters.
pub proof fn lemma_descriptor_reported_iff_marker(files: Seq<ScannedFile>, i: int)
    requires
        distinct_files(files),
        0 <= i < files.len(),
        kind_of(files[i].file_name@) == Some(ArtifactKind::Descriptor),
        files[i].probe is Content,
    ensures
        is_error_page(files[i].probe->Content_0@) <==> records(files).contains(
            (files[i].folder@, base_of(files[i].file_name@), error_page_reason()),
        ),
{
    let rec = (files[i].folder@, base_of(files[i].file_name@), error_page_reason());
    lemma_records_contains(files, rec);
    lemma_reasons_differ();
    if records(files).contains(rec) {
        let j = choose|j: int| 0 <= j < files.len() && record_of(#[trigger] files[j]) == Some(rec);
        lemma_base_determines_name(files[i].file_name@, files[j].file_name@);
        if j != i {
            assert((files[i].folder@, files[i].file_name@) != (files[j].folder@, files[j].file_name@));
        }
    } else {
        assert(record_of(files[i]) != Some(rec));
    }
}

} // verus!
