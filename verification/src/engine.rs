//! The estimate of the time spent on each file of a project.
//!
//! The files are taken in the order of their creation. For each file two
//! spans compete: the span from its creation to its last modification, and
//! the span from its creation to the creation of the file that follows it in
//! the same session. A span counts only where it is below the ceiling; the
//! second, where it counts, is the better witness of active work and wins.
//!
//! A span is taken as it is, also where it is negative because the clock was
//! set back between two saves.

use vstd::prelude::*;
use crate::project_file::ProjectFile;
use crate::time::{representable, Duration, MILLIS_PER_MINUTE};
use crate::version::{is_session_boundary, session_boundary};

verus! {

/// The span from the creation of a file to its last modification.
pub open spec fn own_span(file: ProjectFile) -> int {
    file.modified_datetime@ - file.created_datetime@
}

/// Whether file `i` has a successor that continues its session.
pub open spec fn continues(files: Seq<ProjectFile>, i: int) -> bool {
    &&& i + 1 < files.len()
    &&& !session_boundary(files[i].version, files[i + 1].version, true)
}

/// The span from the creation of file `i` to the creation of the next file.
pub open spec fn span_to_next(files: Seq<ProjectFile>, i: int) -> int {
    files[i + 1].created_datetime@ - files[i].created_datetime@
}

/// The time spent on file `i`, in milliseconds, under the ceiling `max_gap`.
pub open spec fn time_spent_on(files: Seq<ProjectFile>, i: int, max_gap: Duration) -> int {
    if continues(files, i) && span_to_next(files, i) < max_gap.millis {
        span_to_next(files, i)
    } else if own_span(files[i]) < max_gap.millis {
        own_span(files[i])
    } else {
        files[i].time_spent.millis as int
    }
}

/// The files with the time spent on each of them estimated.
pub open spec fn estimated(files: Seq<ProjectFile>, max_gap: Duration) -> Seq<ProjectFile> {
    Seq::new(files.len(), |i: int| files[i].with_millis_spent(time_spent_on(files, i, max_gap)))
}

/// The ceiling for a limit given in minutes: that many minutes, or the
/// longest span there is where the limit is zero or negative and so sets no
/// ceiling.
pub open spec fn ceiling_millis(max_minutes: i64) -> int {
    if max_minutes > 0 {
        max_minutes * MILLIS_PER_MINUTE
    } else {
        i64::MAX as int
    }
}

/// The sum of the time spent on `files`, in milliseconds.
pub open spec fn total_millis(files: Seq<ProjectFile>) -> int
    decreases files.len(),
{
    if files.len() == 0 {
        0
    } else {
        total_millis(files.drop_last()) + files.last().time_spent.millis
    }
}

/// The sum of the totals of `parts`, in milliseconds.
pub open spec fn sum_of_totals(parts: Seq<Seq<ProjectFile>>) -> int
    decreases parts.len(),
{
    if parts.len() == 0 {
        0
    } else {
        sum_of_totals(parts.drop_last()) + total_millis(parts.last())
    }
}

/// Whether a limit of `max_minutes` minutes sets a ceiling that is a
/// `Duration`.
pub fn ceiling_fits(max_minutes: i64) -> (fits: bool)
    ensures
        fits == representable(ceiling_millis(max_minutes)),
{
    max_minutes <= i64::MAX / MILLIS_PER_MINUTE
}

/// The ceiling that a limit of `max_minutes` minutes between two saves sets.
pub fn ceiling(max_minutes: i64) -> (max_gap: Duration)
    requires
        representable(ceiling_millis(max_minutes)),
    ensures
        max_gap.millis == ceiling_millis(max_minutes),
{
    if max_minutes > 0 {
        Duration::minutes(max_minutes)
    } else {
        Duration::max_value()
    }
}

/// Estimates the time spent on each of the files, which stand in the order
/// of their creation. Nothing but `time_spent` changes.
pub fn calculate_time_spent(project_files: &mut Vec<ProjectFile>, max_time_between_saves: Duration)
    ensures
        final(project_files)@ == estimated(old(project_files)@, max_time_between_saves),
{
    let n: usize = project_files.len();
    let mut i: usize = 0;
    while i < n
        invariant
            i <= n,
            project_files@.len() == n,
            old(project_files)@.len() == n,
            forall|k: int|
                0 <= k < i ==> project_files@[k] == estimated(
                    old(project_files)@,
                    max_time_between_saves,
                )[k],
            forall|k: int| i <= k < n ==> project_files@[k] == old(project_files)@[k],
        decreases n - i,
    {
        let own: Duration = project_files[i].modified_datetime.since(
            &project_files[i].created_datetime,
        );
        let mut spent: Duration = project_files[i].time_spent;
        if own.millis < max_time_between_saves.millis {
            spent = own;
        }
        if i + 1 < n && !is_session_boundary(
            &project_files[i].version,
            &project_files[i + 1].version,
            true,
        ) {
            let to_next: Duration = project_files[i + 1].created_datetime.since(
                &project_files[i].created_datetime,
            );
            if to_next.millis < max_time_between_saves.millis {
                spent = to_next;
            }
        }
        project_files[i].time_spent = spent;
        i += 1;
    }
    assert(project_files@ =~= estimated(old(project_files)@, max_time_between_saves));
}

/// The sum of the time spent on the files from index `start` up to, not
/// including, `end`, in milliseconds. So wide a sum never overflows.
pub fn millis_in_range(project_files: &[ProjectFile], start: usize, end: usize) -> (sum: i128)
    requires
        start <= end <= project_files@.len(),
    ensures
        sum == total_millis(project_files@.subrange(start as int, end as int)),
{
    let mut sum: i128 = 0;
    let mut i: usize = start;
    assert(project_files@.subrange(start as int, start as int) =~= Seq::<ProjectFile>::empty());
    while i < end
        invariant
            start <= i <= end <= project_files@.len(),
            sum == total_millis(project_files@.subrange(start as int, i as int)),
            -((i - start) * 0x8000_0000_0000_0000) <= sum <= (i - start) * 0x8000_0000_0000_0000,
        decreases end - i,
    {
        assert(project_files@.subrange(start as int, i + 1).drop_last()
            =~= project_files@.subrange(start as int, i as int));
        assert((i - start) * 0x8000_0000_0000_0000 <= 0xFFFF_FFFF_FFFF_FFFF
            * 0x8000_0000_0000_0000) by (nonlinear_arith)
            requires
                0 <= i - start <= 0xFFFF_FFFF_FFFF_FFFF,
        ;
        sum = sum + project_files[i].time_spent.millis as i128;
        i += 1;
    }
    sum
}

/// The sum of the time spent on all the files.
pub fn sum_project_durations(project_files: &[ProjectFile]) -> (total: Duration)
    requires
        representable(total_millis(project_files@)),
    ensures
        total.millis == total_millis(project_files@),
{
    assert(project_files@.subrange(0, project_files@.len() as int) =~= project_files@);
    let sum: i128 = millis_in_range(project_files, 0, project_files.len());
    Duration { millis: sum as i64 }
}

/// The total of two runs of files put together is the sum of their totals.
pub proof fn lemma_total_of_concat(first: Seq<ProjectFile>, second: Seq<ProjectFile>)
    ensures
        total_millis(first + second) == total_millis(first) + total_millis(second),
    decreases second.len(),
{
    if second.len() == 0 {
        assert(first + second =~= first);
    } else {
        assert((first + second).drop_last() =~= first + second.drop_last());
        lemma_total_of_concat(first, second.drop_last());
    }
}

/// However the files are cut into runs that follow each other, the totals of
/// the runs add up to the total of all the files.
pub proof fn lemma_total_of_parts(parts: Seq<Seq<ProjectFile>>)
    ensures
        total_millis(parts.flatten()) == sum_of_totals(parts),
    decreases parts.len(),
{
    if parts.len() > 0 {
        assert(parts.drop_last().push(parts.last()) =~= parts);
        parts.drop_last().lemma_flatten_push(parts.last());
        lemma_total_of_parts(parts.drop_last());
        lemma_total_of_concat(parts.drop_last().flatten(), parts.last());
    }
}

/// The total of one file alone is the time spent on it.
pub proof fn lemma_total_of_one(file: ProjectFile)
    ensures
        total_millis(seq![file]) == file.time_spent.millis,
{
    assert(seq![file].drop_last() =~= Seq::<ProjectFile>::empty());
    assert(total_millis(seq![file].drop_last()) == 0);
}

/// No span at or above the ceiling is ever taken for the time spent on a
/// file: the estimate is a span below the ceiling, or the file keeps the time
/// it had. Where the span to the next file fails the ceiling, the file's own
/// span still counts; where both fail, the file keeps the time it had.
pub proof fn lemma_ceiling_is_kept(files: Seq<ProjectFile>, i: int, max_gap: Duration)
    requires
        0 <= i < files.len(),
    ensures
        time_spent_on(files, i, max_gap) < max_gap.millis || time_spent_on(files, i, max_gap)
            == files[i].time_spent.millis,
        continues(files, i) && span_to_next(files, i) < max_gap.millis ==> time_spent_on(
            files,
            i,
            max_gap,
        ) == span_to_next(files, i),
        (!continues(files, i) || span_to_next(files, i) >= max_gap.millis) && own_span(files[i])
            < max_gap.millis ==> time_spent_on(files, i, max_gap) == own_span(files[i]),
        (!continues(files, i) || span_to_next(files, i) >= max_gap.millis) && own_span(files[i])
            >= max_gap.millis ==> time_spent_on(files, i, max_gap) == files[i].time_spent.millis,
{
}

/// An estimate changes nothing but the time spent.
pub proof fn lemma_estimate_keeps_files(files: Seq<ProjectFile>, i: int, max_gap: Duration)
    requires
        0 <= i < files.len(),
    ensures
        estimated(files, max_gap).len() == files.len(),
        estimated(files, max_gap)[i].created_datetime == files[i].created_datetime,
        estimated(files, max_gap)[i].modified_datetime == files[i].modified_datetime,
        estimated(files, max_gap)[i].name == files[i].name,
        estimated(files, max_gap)[i].version == files[i].version,
{
}

/// The last file never takes the span to a next file: its time is its own
/// span, where that is below the ceiling, and else the time it had.
pub proof fn lemma_last_file_keeps_own_span(files: Seq<ProjectFile>, max_gap: Duration)
    requires
        files.len() > 0,
    ensures
        time_spent_on(files, files.len() - 1, max_gap) == (if own_span(files.last())
            < max_gap.millis {
            own_span(files.last())
        } else {
            files.last().time_spent.millis as int
        }),
{
}

/// Estimating a second time changes nothing: the result of the first
/// estimate is a fixed point.
pub proof fn lemma_estimate_twice(files: Seq<ProjectFile>, max_gap: Duration)
    ensures
        estimated(estimated(files, max_gap), max_gap) == estimated(files, max_gap),
{
    let once = estimated(files, max_gap);
    let twice = estimated(once, max_gap);
    assert forall|i: int| 0 <= i < files.len() implies twice[i] == once[i] by {
        assert(own_span(once[i]) == own_span(files[i]));
        assert(continues(once, i) == continues(files, i));
        if i + 1 < files.len() {
            assert(span_to_next(once, i) == span_to_next(files, i));
        }
    }
    assert(twice =~= once);
}

} // verus!
