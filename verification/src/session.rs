//! The sessions of a project: runs of files that follow each other in one
//! unit of work.
//!
//! A session ends between two files where their versions show a minor or a
//! major bump, and where one of the two is versioned and the other is not.

use vstd::prelude::*;
use crate::engine::{continues, estimated, lemma_total_of_parts, sum_of_totals, total_millis};
use crate::project_file::ProjectFile;
use crate::time::Duration;
use crate::version::{is_session_boundary, session_boundary};

verus! {

/// A session: the files from index `start` up to, not including, `end`.
#[derive(Clone, Copy, Debug, PartialEq, Eq, Structural)]
pub struct Session {
    pub start: usize,
    pub end: usize,
}

impl Session {
    /// The session as a pair of indices.
    pub open spec fn view(&self) -> (int, int) {
        (self.start as int, self.end as int)
    }
}

/// The sessions as pairs of indices.
pub open spec fn spans(sessions: Seq<Session>) -> Seq<(int, int)> {
    Seq::new(sessions.len(), |k: int| sessions[k]@)
}

/// Whether a session ends with file `i`, because the file after it begins a
/// new one.
pub open spec fn ends_session(files: Seq<ProjectFile>, i: int) -> bool {
    &&& 0 <= i
    &&& i + 1 < files.len()
    &&& session_boundary(files[i].version, files[i + 1].version, false)
}

/// The sessions of `files`, in order, each as the pair of its first index
/// and the index after its last.
pub open spec fn sessions_of(files: Seq<ProjectFile>) -> Seq<(int, int)>
    decreases files.len(),
{
    let n = files.len() as int;
    if n == 0 {
        Seq::empty()
    } else if n == 1 {
        seq![(0int, 1int)]
    } else {
        let before = sessions_of(files.drop_last());
        if ends_session(files, n - 2) {
            before.push((n - 1, n))
        } else {
            before.drop_last().push((before.last().0, n))
        }
    }
}

/// The files of each session.
pub open spec fn session_files(files: Seq<ProjectFile>) -> Seq<Seq<ProjectFile>> {
    Seq::new(
        sessions_of(files).len(),
        |k: int| files.subrange(sessions_of(files)[k].0, sessions_of(files)[k].1),
    )
}

/// Whether `sessions` cut `files` into runs that follow each other without
/// a gap, none of them empty, each ending where a session ends and nowhere
/// before.
pub open spec fn is_partition(files: Seq<ProjectFile>, sessions: Seq<(int, int)>) -> bool {
    &&& files.len() == 0 <==> sessions.len() == 0
    &&& sessions.len() > 0 ==> sessions[0].0 == 0 && sessions.last().1 == files.len()
    &&& forall|k: int|
        0 <= k < sessions.len() ==> 0 <= (#[trigger] sessions[k]).0 < sessions[k].1 <= files.len()
    &&& forall|k: int|
        0 <= k < sessions.len() - 1 ==> (#[trigger] sessions[k]).1 == sessions[k + 1].0
            && ends_session(files, sessions[k].1 - 1)
    &&& forall|k: int, i: int|
        0 <= k < sessions.len() && (#[trigger] sessions[k]).0 <= i < sessions[k].1 - 1
            ==> !#[trigger] ends_session(files, i)
}

/// Cuts the files, which stand in the order of their creation, into their
/// sessions.
pub fn split_sessions(project_files: &[ProjectFile]) -> (sessions: Vec<Session>)
    ensures
        spans(sessions@) == sessions_of(project_files@),
{
    let n: usize = project_files.len();
    let mut sessions: Vec<Session> = Vec::new();
    if n == 0 {
        assert(spans(sessions@) =~= sessions_of(project_files@));
        return sessions;
    }
    let mut start: usize = 0;
    let mut i: usize = 1;
    assert(project_files@.take(1).len() == 1);
    assert(spans(sessions@).push((0int, 1int)) =~= seq![(0int, 1int)]);
    while i < n
        invariant
            1 <= i <= n,
            n == project_files@.len(),
            start < i,
            spans(sessions@).push((start as int, i as int)) == sessions_of(
                project_files@.take(i as int),
            ),
        decreases n - i,
    {
        let ghost shorter = project_files@.take(i as int);
        let ghost longer = project_files@.take(i + 1);
        let ghost before = spans(sessions@);
        assert(longer.drop_last() =~= shorter);
        assert(longer[i - 1] == project_files@[i - 1]);
        assert(longer[i as int] == project_files@[i as int]);
        if is_session_boundary(&project_files[i - 1].version, &project_files[i].version, false) {
            sessions.push(Session { start, end: i });
            start = i;
            assert(spans(sessions@) =~= before.push((sessions@.last().start as int, i as int)));
        } else {
            assert(before.push((start as int, i as int)).drop_last() =~= before);
        }
        i += 1;
    }
    assert(project_files@.take(n as int) =~= project_files@);
    let ghost before = spans(sessions@);
    sessions.push(Session { start, end: n });
    assert(spans(sessions@) =~= before.push((start as int, n as int)));
    sessions
}

/// The major and minor number under which a session is reported: those of
/// its first file, where that file is versioned.
pub fn session_label(first: &ProjectFile) -> (label: Option<(u64, u64)>)
    ensures
        label == first.major_minor(),
{
    match &first.version {
        Some(v) => Some((v.major, v.minor)),
        None => None,
    }
}

/// The sessions of any files cut them into runs that follow each other, each
/// ending where a session ends and nowhere before.
pub proof fn lemma_sessions_partition(files: Seq<ProjectFile>)
    ensures
        is_partition(files, sessions_of(files)),
    decreases files.len(),
{
    let n = files.len() as int;
    let sessions = sessions_of(files);
    if n >= 2 {
        let shorter = files.drop_last();
        let before = sessions_of(shorter);
        lemma_sessions_partition(shorter);
        assert(forall|i: int|
            0 <= i < n - 2 ==> ends_session(shorter, i) == ends_session(files, i));
        assert(!ends_session(shorter, n - 2));
        if ends_session(files, n - 2) {
            assert forall|k: int, i: int|
                0 <= k < sessions.len() && (#[trigger] sessions[k]).0 <= i < sessions[k].1 - 1
                implies !#[trigger] ends_session(files, i) by {
                if k < before.len() {
                    assert(sessions[k] == before[k]);
                    assert(!ends_session(shorter, i));
                }
            }
            assert forall|k: int| 0 <= k < sessions.len() - 1 implies (#[trigger] sessions[k]).1
                == sessions[k + 1].0 && ends_session(files, sessions[k].1 - 1) by {
                assert(sessions[k] == before[k]);
                if k < before.len() - 1 {
                    assert(sessions[k + 1] == before[k + 1]);
                    assert(ends_session(shorter, before[k].1 - 1));
                }
            }
        } else {
            let last = before.len() - 1;
            assert forall|k: int, i: int|
                0 <= k < sessions.len() && (#[trigger] sessions[k]).0 <= i < sessions[k].1 - 1
                implies !#[trigger] ends_session(files, i) by {
                if k < last {
                    assert(sessions[k] == before[k]);
                    assert(!ends_session(shorter, i));
                } else if i < n - 2 {
                    assert(before[last].0 <= i < before[last].1 - 1);
                    assert(!ends_session(shorter, i));
                }
            }
            assert forall|k: int| 0 <= k < sessions.len() - 1 implies (#[trigger] sessions[k]).1
                == sessions[k + 1].0 && ends_session(files, sessions[k].1 - 1) by {
                assert(sessions[k] == before[k]);
                assert(ends_session(shorter, before[k].1 - 1));
                if k + 1 < last {
                    assert(sessions[k + 1] == before[k + 1]);
                }
            }
        }
    }
}

/// Where a session ends before the last file, that file is a session of its
/// own, behind the sessions of the files before it.
proof fn lemma_last_file_opens_session(files: Seq<ProjectFile>)
    requires
        files.len() >= 2,
        ends_session(files, files.len() - 2),
    ensures
        session_files(files) == session_files(files.drop_last()).push(seq![files.last()]),
{
    let n = files.len() as int;
    let shorter = files.drop_last();
    let before = sessions_of(shorter);
    let parts = session_files(files);
    let earlier = session_files(shorter);
    lemma_sessions_partition(shorter);
    assert(sessions_of(files) == before.push((n - 1, n)));
    assert(parts.len() == earlier.len() + 1);
    assert forall|k: int| 0 <= k < earlier.len() implies parts[k] == earlier[k] by {
        assert(sessions_of(files)[k] == before[k]);
        assert(0 <= before[k].0 < before[k].1 <= n - 1);
        assert(files.subrange(before[k].0, before[k].1) =~= shorter.subrange(
            before[k].0,
            before[k].1,
        ));
    }
    assert(parts[earlier.len() as int] =~= seq![files.last()]);
    assert(parts =~= earlier.push(seq![files.last()]));
}

/// Where no session ends before the last file, that file joins the last
/// session of the files before it.
proof fn lemma_last_file_joins_session(files: Seq<ProjectFile>)
    requires
        files.len() >= 2,
        !ends_session(files, files.len() - 2),
    ensures
        session_files(files.drop_last()).len() > 0,
        session_files(files) == session_files(files.drop_last()).drop_last().push(
            session_files(files.drop_last()).last().push(files.last()),
        ),
{
    let n = files.len() as int;
    let shorter = files.drop_last();
    let before = sessions_of(shorter);
    let parts = session_files(files);
    let earlier = session_files(shorter);
    let last = before.len() - 1;
    lemma_sessions_partition(shorter);
    assert(sessions_of(files) == before.drop_last().push((before.last().0, n)));
    assert(parts.len() == earlier.len());
    assert forall|k: int| 0 <= k < last implies parts[k] == earlier[k] by {
        assert(sessions_of(files)[k] == before[k]);
        assert(0 <= before[k].0 < before[k].1 <= n - 1);
        assert(files.subrange(before[k].0, before[k].1) =~= shorter.subrange(
            before[k].0,
            before[k].1,
        ));
    }
    assert(before[last].1 == n - 1);
    assert(0 <= before[last].0 < n - 1);
    assert(parts[last] =~= earlier[last].push(files.last()));
    assert(parts =~= earlier.drop_last().push(earlier.last().push(files.last())));
}

/// The files of the sessions, put one after the other, are the files.
pub proof fn lemma_sessions_cover(files: Seq<ProjectFile>)
    ensures
        session_files(files).flatten() == files,
    decreases files.len(),
{
    let n = files.len() as int;
    let parts = session_files(files);
    if n == 0 {
        assert(parts =~= Seq::<Seq<ProjectFile>>::empty());
        assert(parts.flatten() =~= files);
    } else if n == 1 {
        assert(files.subrange(0, 1) =~= files);
        assert(parts[0] == files);
        assert(parts =~= seq![files]);
        parts.lemma_flatten_one_element();
    } else {
        let shorter = files.drop_last();
        let earlier = session_files(shorter);
        lemma_sessions_cover(shorter);
        if ends_session(files, n - 2) {
            lemma_last_file_opens_session(files);
            earlier.lemma_flatten_push(seq![files.last()]);
            assert(shorter + seq![files.last()] =~= files);
        } else {
            lemma_last_file_joins_session(files);
            let open = earlier.last();
            let kept = earlier.drop_last();
            assert(earlier =~= kept.push(open));
            kept.lemma_flatten_push(open);
            kept.lemma_flatten_push(open.push(files.last()));
            assert(kept.flatten() + open.push(files.last()) =~= (kept.flatten() + open).push(
                files.last(),
            ));
            assert(shorter.push(files.last()) =~= files);
        }
    }
}

/// The subtotals of the sessions add up to the total of all the files.
pub proof fn lemma_subtotals_add_up(files: Seq<ProjectFile>)
    ensures
        sum_of_totals(session_files(files)) == total_millis(files),
{
    lemma_sessions_cover(files);
    lemma_total_of_parts(session_files(files));
}

/// Estimating the time spent leaves the sessions as they are.
pub proof fn lemma_estimate_keeps_sessions(files: Seq<ProjectFile>, max_gap: Duration)
    ensures
        sessions_of(estimated(files, max_gap)) == sessions_of(files),
    decreases files.len(),
{
    let n = files.len() as int;
    if n >= 2 {
        let after = estimated(files, max_gap);
        lemma_estimate_keeps_sessions(files.drop_last(), max_gap);
        lemma_sessions_ignore_time_spent(after.drop_last(), estimated(files.drop_last(), max_gap));
        assert(ends_session(after, n - 2) == ends_session(files, n - 2));
    }
}

/// The sessions depend on the versions of the files alone.
pub proof fn lemma_sessions_ignore_time_spent(first: Seq<ProjectFile>, second: Seq<ProjectFile>)
    requires
        first.len() == second.len(),
        forall|i: int| 0 <= i < first.len() ==> first[i].version == second[i].version,
    ensures
        sessions_of(first) == sessions_of(second),
    decreases first.len(),
{
    let n = first.len() as int;
    if n >= 2 {
        lemma_sessions_ignore_time_spent(first.drop_last(), second.drop_last());
        assert(ends_session(first, n - 2) == ends_session(second, n - 2));
    }
}

/// Two files that follow each other within one session count as one
/// stretch of work: the estimate for the first may take the span between
/// them.
pub proof fn lemma_session_continues(files: Seq<ProjectFile>, i: int)
    requires
        0 <= i,
        i + 1 < files.len(),
        !ends_session(files, i),
    ensures
        continues(files, i),
{
}

} // verus!
