//! From the listing of a directory to the records of a project, in the
//! order of their creation.
//!
//! Records are ordered by creation time; where that ties, by modification
//! time, then by the time spent, then by name, names being ordered by their
//! bytes. The version of a record is read from its name, so records of one
//! name carry one version, and no order among versions is needed to break a
//! tie.

use vstd::prelude::*;
use vstd::string::StringSliceAdditionalSpecFns;
use vstd::utf8::{encode_utf8, encode_utf8_decode_utf8};
use crate::engine::{calculate_time_spent, ceiling, ceiling_millis, estimated};
use crate::project_file::ProjectFile;
use crate::time::{representable, Duration, Timestamp};
use crate::version::{extract_version, version_in_name, version_parts, Version};

verus! {

/// What the listing of a directory tells of one file.
#[derive(Clone, Debug, PartialEq, Eq)]
pub struct FileEntry {
    pub name: String,
    pub created_datetime: Timestamp,
    pub modified_datetime: Timestamp,
}

/// Whether `text` ends with `suffix`.
pub open spec fn ends_with(text: Seq<u8>, suffix: Seq<u8>) -> bool {
    &&& suffix.len() <= text.len()
    &&& text.subrange(text.len() - suffix.len(), text.len() as int) == suffix
}

/// Whether `first` comes before `second` where the two are compared byte by
/// byte, a text coming after each of its beginnings.
pub open spec fn bytes_before(first: Seq<u8>, second: Seq<u8>) -> bool
    decreases first.len(),
{
    if second.len() == 0 {
        false
    } else if first.len() == 0 {
        true
    } else if first[0] != second[0] {
        first[0] < second[0]
    } else {
        bytes_before(first.drop_first(), second.drop_first())
    }
}

/// Whether `first` comes before `second` in the order of the records.
pub open spec fn precedes(first: ProjectFile, second: ProjectFile) -> bool {
    if first.created_datetime@ != second.created_datetime@ {
        first.created_datetime@ < second.created_datetime@
    } else if first.modified_datetime@ != second.modified_datetime@ {
        first.modified_datetime@ < second.modified_datetime@
    } else if first.time_spent.millis != second.time_spent.millis {
        first.time_spent.millis < second.time_spent.millis
    } else {
        bytes_before(encode_utf8(first.name@), encode_utf8(second.name@))
    }
}

/// Whether the files stand in the order of the records: none comes before a
/// file that stands earlier.
pub open spec fn in_order(files: Seq<ProjectFile>) -> bool {
    forall|i: int, j: int| 0 <= i < j < files.len() ==> !precedes(files[j], files[i])
}

/// Whether `file` is the record of `entry` before any time was estimated:
/// the entry's name and times, the version that the name carries, and no
/// time spent.
pub open spec fn is_record_of(file: ProjectFile, entry: FileEntry) -> bool {
    &&& file.name@ == entry.name@
    &&& file.created_datetime == entry.created_datetime
    &&& file.modified_datetime == entry.modified_datetime
    &&& file.time_spent.millis == 0
    &&& version_parts(file.version) == version_in_name(entry.name@)
}

/// Whether `order` tells for each of `files` which of `entries` it is the
/// record of, each entry having exactly one record.
pub open spec fn is_arrangement(
    order: Seq<int>,
    files: Seq<ProjectFile>,
    entries: Seq<FileEntry>,
) -> bool {
    &&& order.len() == entries.len()
    &&& files.len() == entries.len()
    &&& order.no_duplicates()
    &&& forall|i: int|
        0 <= i < order.len() ==> 0 <= #[trigger] order[i] < entries.len() && is_record_of(
            files[i],
            entries[order[i]],
        )
}

/// Whether `files` are the records of `entries`, one for each entry, in the
/// order of the records.
pub open spec fn is_listing_of(files: Seq<ProjectFile>, entries: Seq<FileEntry>) -> bool {
    &&& in_order(files)
    &&& exists|order: Seq<int>| is_arrangement(order, files, entries)
}

/// Of two texts at most one comes before the other.
pub proof fn lemma_bytes_before_one_way(first: Seq<u8>, second: Seq<u8>)
    requires
        bytes_before(first, second),
    ensures
        !bytes_before(second, first),
    decreases first.len(),
{
    if first.len() > 0 && second.len() > 0 && first[0] == second[0] {
        lemma_bytes_before_one_way(first.drop_first(), second.drop_first());
    }
}

/// A text that comes before a second one comes before a third, or the third
/// comes before the second.
pub proof fn lemma_bytes_before_splits(first: Seq<u8>, second: Seq<u8>, third: Seq<u8>)
    requires
        bytes_before(first, second),
    ensures
        bytes_before(first, third) || bytes_before(third, second),
    decreases first.len(),
{
    if first.len() > 0 && third.len() > 0 && first[0] == second[0] && first[0] == third[0] {
        lemma_bytes_before_splits(first.drop_first(), second.drop_first(), third.drop_first());
    }
}

/// Two texts neither of which comes before the other are one text.
pub proof fn lemma_bytes_tie(first: Seq<u8>, second: Seq<u8>)
    requires
        !bytes_before(first, second),
        !bytes_before(second, first),
    ensures
        first == second,
    decreases first.len(),
{
    if first.len() > 0 && second.len() > 0 {
        lemma_bytes_tie(first.drop_first(), second.drop_first());
        assert(first =~= seq![first[0]] + first.drop_first());
        assert(second =~= seq![second[0]] + second.drop_first());
    } else {
        assert(first =~= second);
    }
}

/// Of two records at most one comes before the other.
pub proof fn lemma_precedes_one_way(first: ProjectFile, second: ProjectFile)
    requires
        precedes(first, second),
    ensures
        !precedes(second, first),
{
    if first.created_datetime@ == second.created_datetime@ && first.modified_datetime@
        == second.modified_datetime@ && first.time_spent.millis == second.time_spent.millis {
        lemma_bytes_before_one_way(encode_utf8(first.name@), encode_utf8(second.name@));
    }
}

/// A record that comes before a second one comes before a third, or the
/// third comes before the second.
pub proof fn lemma_precedes_splits(first: ProjectFile, second: ProjectFile, third: ProjectFile)
    requires
        precedes(first, second),
    ensures
        precedes(first, third) || precedes(third, second),
{
    if first.created_datetime@ == second.created_datetime@ && first.modified_datetime@
        == second.modified_datetime@ && first.time_spent.millis == second.time_spent.millis {
        lemma_bytes_before_splits(
            encode_utf8(first.name@),
            encode_utf8(second.name@),
            encode_utf8(third.name@),
        );
    }
}

/// The order of the records leaves nothing open among the records of a
/// listing: two of them neither of which comes before the other show the
/// same file, with the same time spent.
pub proof fn lemma_tie_is_same_file(
    first: ProjectFile,
    second: ProjectFile,
    first_entry: FileEntry,
    second_entry: FileEntry,
)
    requires
        is_record_of(first, first_entry),
        is_record_of(second, second_entry),
        !precedes(first, second),
        !precedes(second, first),
    ensures
        first.same_file(second),
        first.time_spent == second.time_spent,
{
    first.created_datetime.lemma_same_instant(second.created_datetime);
    first.modified_datetime.lemma_same_instant(second.modified_datetime);
    lemma_bytes_tie(encode_utf8(first.name@), encode_utf8(second.name@));
    encode_utf8_decode_utf8(first.name@);
    encode_utf8_decode_utf8(second.name@);
}

/// Whether the file at `path` belongs to the project: whether it is a
/// regular file whose path ends with the suffix of the project's files.
pub fn is_project_file(is_file: bool, path: &str, project_file_suffix: &str) -> (belongs: bool)
    ensures
        belongs == (is_file && ends_with(path.spec_bytes(), project_file_suffix.spec_bytes())),
{
    let text: &[u8] = path.as_bytes();
    let suffix: &[u8] = project_file_suffix.as_bytes();
    if !is_file || suffix.len() > text.len() {
        return false;
    }
    let offset: usize = text.len() - suffix.len();
    let ghost tail = text@.subrange(offset as int, text@.len() as int);
    let mut i: usize = 0;
    while i < suffix.len()
        invariant
            i <= suffix@.len(),
            is_file,
            text@ == path.spec_bytes(),
            suffix@ == project_file_suffix.spec_bytes(),
            text@.len() <= usize::MAX,
            offset + suffix@.len() == text@.len(),
            tail == text@.subrange(offset as int, text@.len() as int),
            forall|j: int| 0 <= j < i ==> tail[j] == suffix@[j],
        decreases suffix@.len() - i,
    {
        if text[offset + i] != suffix[i] {
            assert(tail[i as int] != suffix@[i as int]);
            return false;
        }
        i += 1;
    }
    assert(tail =~= suffix@);
    true
}

/// Whether `first` comes before `second`, byte by byte.
fn bytes_come_before(first: &[u8], second: &[u8]) -> (before: bool)
    ensures
        before == bytes_before(first@, second@),
{
    let mut i: usize = 0;
    assert(first@.skip(0) =~= first@);
    assert(second@.skip(0) =~= second@);
    while i < first.len() && i < second.len()
        invariant
            i <= first@.len(),
            i <= second@.len(),
            bytes_before(first@, second@) == bytes_before(first@.skip(i as int), second@.skip(i as int)),
        decreases first@.len() - i,
    {
        assert(first@.skip(i as int)[0] == first@[i as int]);
        assert(second@.skip(i as int)[0] == second@[i as int]);
        if first[i] != second[i] {
            return first[i] < second[i];
        }
        assert(first@.skip(i as int).drop_first() =~= first@.skip(i + 1));
        assert(second@.skip(i as int).drop_first() =~= second@.skip(i + 1));
        i += 1;
    }
    i < second.len()
}

/// Whether `first` comes before `second` in the order of the records.
pub fn comes_before(first: &ProjectFile, second: &ProjectFile) -> (before: bool)
    ensures
        before == precedes(*first, *second),
{
    let created: i64 = first.created_datetime.millis();
    let other_created: i64 = second.created_datetime.millis();
    let modified: i64 = first.modified_datetime.millis();
    let other_modified: i64 = second.modified_datetime.millis();
    if created != other_created {
        created < other_created
    } else if modified != other_modified {
        modified < other_modified
    } else if first.time_spent.millis != second.time_spent.millis {
        first.time_spent.millis < second.time_spent.millis
    } else {
        bytes_come_before(first.name.as_str().as_bytes(), second.name.as_str().as_bytes())
    }
}

/// Puts `file` among files that stand in order, behind every file that it
/// does not come before, and says where it now stands.
pub fn insert_in_order(project_files: &mut Vec<ProjectFile>, file: ProjectFile) -> (at: usize)
    requires
        in_order(old(project_files)@),
    ensures
        at <= old(project_files)@.len(),
        final(project_files)@ == old(project_files)@.insert(at as int, file),
        in_order(final(project_files)@),
        forall|i: int| 0 <= i < at ==> !precedes(file, old(project_files)@[i]),
        forall|i: int| at <= i < old(project_files)@.len() ==> precedes(file, old(project_files)@[i]),
{
    let mut at: usize = project_files.len();
    while at > 0 && comes_before(&file, &project_files[at - 1])
        invariant
            at <= project_files@.len(),
            project_files@ == old(project_files)@,
            forall|i: int| at <= i < project_files@.len() ==> precedes(file, project_files@[i]),
        decreases at,
    {
        at -= 1;
    }
    let ghost before = project_files@;
    proof {
        assert forall|i: int| 0 <= i < at implies !precedes(file, before[i]) by {
            if precedes(file, before[i]) {
                lemma_precedes_splits(file, before[i], before[at - 1]);
            }
        }
        assert forall|i: int| at <= i < before.len() implies !precedes(before[i], file) by {
            lemma_precedes_one_way(file, before[i]);
        }
    }
    project_files.insert(at, file);
    assert(in_order(project_files@)) by {
        let after = project_files@;
        assert forall|i: int, j: int| 0 <= i < j < after.len() implies !precedes(
            after[j],
            after[i],
        ) by {
            if i < at && j > at {
                assert(after[i] == before[i]);
                assert(after[j] == before[j - 1]);
            } else if i < at && j < at {
                assert(after[i] == before[i]);
                assert(after[j] == before[j]);
            } else if i > at {
                assert(after[i] == before[i - 1]);
                assert(after[j] == before[j - 1]);
            } else if i == at {
                assert(after[j] == before[j - 1]);
            } else {
                assert(after[i] == before[i]);
            }
        }
    }
    at
}

/// The records of the entries, each with the version that its name carries
/// and no time spent yet, in the order of the records.
pub fn initialize_project_files(entries: &[FileEntry]) -> (project_files: Vec<ProjectFile>)
    ensures
        project_files@.len() == entries@.len(),
        is_listing_of(project_files@, entries@),
{
    let n: usize = entries.len();
    let mut project_files: Vec<ProjectFile> = Vec::new();
    let ghost mut order: Seq<int> = Seq::empty();
    let mut k: usize = 0;
    while k < n
        invariant
            k <= n,
            n == entries@.len(),
            in_order(project_files@),
            is_arrangement(order, project_files@, entries@.take(k as int)),
        decreases n - k,
    {
        let entry: &FileEntry = &entries[k];
        let version: Option<Version> = extract_version(entry.name.as_str());
        let file: ProjectFile = ProjectFile::new(
            entry.name.clone(),
            entry.created_datetime,
            entry.modified_datetime,
            version,
        );
        let ghost before = project_files@;
        let ghost earlier = order;
        let at: usize = insert_in_order(&mut project_files, file);
        proof {
            order = earlier.insert(at as int, k as int);
            let shorter = entries@.take(k as int);
            let longer = entries@.take(k + 1);
            assert(longer[k as int] == entries@[k as int]);
            assert forall|i: int| 0 <= i < order.len() implies 0 <= #[trigger] order[i]
                < longer.len() && is_record_of(project_files@[i], longer[order[i]]) by {
                if i < at {
                    assert(order[i] == earlier[i]);
                    assert(project_files@[i] == before[i]);
                    assert(longer[earlier[i]] == shorter[earlier[i]]);
                } else if i > at {
                    assert(order[i] == earlier[i - 1]);
                    assert(project_files@[i] == before[i - 1]);
                    assert(longer[earlier[i - 1]] == shorter[earlier[i - 1]]);
                }
            }
            assert forall|i: int, j: int|
                0 <= i < order.len() && 0 <= j < order.len() && i != j implies order[i]
                != order[j] by {
                let a = if i < at {
                    i
                } else {
                    i - 1
                };
                let b = if j < at {
                    j
                } else {
                    j - 1
                };
                if i != at && j != at {
                    assert(order[i] == earlier[a]);
                    assert(order[j] == earlier[b]);
                } else if i == at {
                    assert(order[j] == earlier[b]);
                    assert(0 <= earlier[b] < k);
                } else {
                    assert(order[i] == earlier[a]);
                    assert(0 <= earlier[a] < k);
                }
            }
        }
        k += 1;
    }
    assert(entries@.take(n as int) =~= entries@);
    project_files
}

/// The records of the entries of a project, in the order of their creation,
/// with the time spent on each estimated. Two saves that lie
/// `max_minutes_between_saves` minutes or more apart are not counted as one
/// stretch of work; a limit of zero or less sets no such ceiling.
pub fn scan_project_files(entries: &[FileEntry], max_minutes_between_saves: i64) -> (project_files:
    Vec<ProjectFile>)
    requires
        representable(ceiling_millis(max_minutes_between_saves)),
    ensures
        project_files@.len() == entries@.len(),
        exists|listed: Seq<ProjectFile>, max_gap: Duration|
            is_listing_of(listed, entries@) && max_gap.millis == ceiling_millis(
                max_minutes_between_saves,
            ) && project_files@ == estimated(listed, max_gap),
{
    let mut project_files: Vec<ProjectFile> = initialize_project_files(entries);
    let max_time_between_saves: Duration = ceiling(max_minutes_between_saves);
    let ghost listed = project_files@;
    calculate_time_spent(&mut project_files, max_time_between_saves);
    assert(is_listing_of(listed, entries@) && max_time_between_saves.millis == ceiling_millis(
        max_minutes_between_saves,
    ) && project_files@ == estimated(listed, max_time_between_saves));
    project_files
}

} // verus!
