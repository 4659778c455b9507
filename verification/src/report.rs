//! The report on a project: one row for each file, a heading with the
//! subtotal above each versioned session, and the total at the end.

use std::fmt::Write;
use chrono::TimeZone;
use vstd::prelude::*;
use vstd::string::StringExecFns;
use crate::engine::{millis_in_range, sum_project_durations, total_millis};
use crate::project_file::ProjectFile;
use crate::session::{
    is_partition,
    lemma_sessions_partition,
    session_files,
    session_label,
    sessions_of,
    spans,
    split_sessions,
    Session,
};
use crate::text::{
    decimal,
    duration_text,
    format_duration,
    left_aligned,
    push_decimal,
    push_duration,
    push_left_aligned,
};
use crate::time::{representable, Duration};

verus! {

/// The width of the column that shows when a file was created.
pub const START_TIME_WIDTH: usize = 21;

/// The width of the column that shows the time spent on a file.
pub const DURATION_WIDTH: usize = 13;

/// How the creation time of a file is shown: day of the week, month, day of
/// the month and time of day.
pub const START_TIME_LAYOUT: &'static str = "%a %b %e %T";

/// The texts that the strings hold.
pub open spec fn texts(lines: Seq<String>) -> Seq<Seq<char>> {
    Seq::new(lines.len(), |i: int| lines[i]@)
}

/// The line above the rows of a report.
pub open spec fn heading_text() -> Seq<char> {
    left_aligned("Start time"@, START_TIME_WIDTH as int) + seq![' '] + left_aligned(
        "Duration"@,
        DURATION_WIDTH as int,
    ) + " Name"@
}

/// The row of a file, which shows when it was created, the time spent on it
/// and its name.
pub open spec fn row_text(start_time: Seq<char>, file: ProjectFile) -> Seq<char> {
    left_aligned(start_time, START_TIME_WIDTH as int) + seq![' '] + left_aligned(
        duration_text(file.time_spent.millis as int),
        DURATION_WIDTH as int,
    ) + seq![' '] + file.name@
}

/// The line above the rows of a versioned session, with its subtotal.
pub open spec fn session_heading_text(major: u64, minor: u64, subtotal: int) -> Seq<char> {
    "Version "@ + decimal(major as nat) + seq!['.'] + decimal(minor as nat) + ".x - "@
        + duration_text(subtotal)
}

/// The rows of the files from index `from` up to, not including, `to`.
pub open spec fn rows(
    files: Seq<ProjectFile>,
    start_times: Seq<Seq<char>>,
    from: int,
    to: int,
) -> Seq<Seq<char>> {
    Seq::new((to - from) as nat, |k: int| row_text(start_times[from + k], files[from + k]))
}

/// The lines of one session: its heading, where its first file is versioned,
/// the rows of its files, and an empty line.
pub open spec fn session_block(
    files: Seq<ProjectFile>,
    start_times: Seq<Seq<char>>,
    session: (int, int),
) -> Seq<Seq<char>> {
    let above = match files[session.0].major_minor() {
        Some((major, minor)) => seq![
            session_heading_text(
                major,
                minor,
                total_millis(files.subrange(session.0, session.1)),
            ),
        ],
        None => Seq::empty(),
    };
    above + rows(files, start_times, session.0, session.1) + seq![Seq::<char>::empty()]
}

/// The lines of the sessions, one session after the other.
pub open spec fn session_blocks(
    files: Seq<ProjectFile>,
    start_times: Seq<Seq<char>>,
    sessions: Seq<(int, int)>,
) -> Seq<Seq<char>>
    decreases sessions.len(),
{
    if sessions.len() == 0 {
        Seq::empty()
    } else {
        session_blocks(files, start_times, sessions.drop_last()) + session_block(
            files,
            start_times,
            sessions.last(),
        )
    }
}

/// The lines of the report on `files`, the creation time of file `i` being
/// shown as `start_times[i]`.
pub open spec fn summary_text(files: Seq<ProjectFile>, start_times: Seq<Seq<char>>) -> Seq<
    Seq<char>,
> {
    if files.len() == 0 {
        seq!["No project files found"@]
    } else {
        seq![heading_text()] + session_blocks(files, start_times, sessions_of(files)) + seq![
            "Total project time"@,
            duration_text(total_millis(files)),
        ]
    }
}

/// Whether every sum that the report shows is a `Duration`: the total, and
/// the subtotal of each session whose first file is versioned.
pub open spec fn can_be_summarized(files: Seq<ProjectFile>) -> bool {
    &&& representable(total_millis(files))
    &&& forall|k: int|
        0 <= k < sessions_of(files).len() && files[(#[trigger] sessions_of(files)[k]).0].version
            is Some ==> representable(total_millis(session_files(files)[k]))
}

/// Asks `chrono::Local` for the instant `millis` milliseconds after the Unix
/// epoch, with `timestamp_millis_opt`, and writes it out with
/// `chrono::DateTime::format`, in the time zone of this machine. Trusted, and
/// nothing is claimed of the text: it depends on that time zone. `None`
/// where the instant lies beyond the years that chrono counts, and where
/// chrono rejects `layout`.
#[verifier::external_body]
fn local_time_text(millis: i64, layout: &str) -> (text: Option<String>) {
    match chrono::Local.timestamp_millis_opt(millis) {
        chrono::LocalResult::Single(at) => {
            let mut text = String::new();
            match write!(text, "{}", at.format(layout)) {
                Ok(()) => Some(text),
                Err(_) => None,
            }
        },
        _ => None,
    }
}

/// The texts of some strings and one more.
proof fn lemma_texts_push(lines: Seq<String>, line: String)
    ensures
        texts(lines.push(line)) == texts(lines).push(line@),
{
    assert(texts(lines.push(line)) =~= texts(lines).push(line@));
}

/// The rows up to a file are the rows before it and its own.
proof fn lemma_rows_push(files: Seq<ProjectFile>, start_times: Seq<Seq<char>>, from: int, to: int)
    requires
        0 <= from <= to,
    ensures
        rows(files, start_times, from, to + 1) == rows(files, start_times, from, to).push(
            row_text(start_times[to], files[to]),
        ),
{
    assert(rows(files, start_times, from, to + 1) =~= rows(files, start_times, from, to).push(
        row_text(start_times[to], files[to]),
    ));
}

/// The line above the rows of a report.
pub fn heading() -> (line: String)
    ensures
        line@ == heading_text(),
{
    let mut line = String::new();
    push_left_aligned(&mut line, "Start time", START_TIME_WIDTH);
    line.push(' ');
    push_left_aligned(&mut line, "Duration", DURATION_WIDTH);
    line.append(" Name");
    assert(line@ =~= heading_text());
    line
}

/// The row of `file` in a report, with `start_time` in its first column.
pub fn format_row(file: &ProjectFile, start_time: &str) -> (row: String)
    ensures
        row@ == row_text(start_time@, *file),
{
    let mut row = String::new();
    push_left_aligned(&mut row, start_time, START_TIME_WIDTH);
    row.push(' ');
    let spent: String = format_duration(&file.time_spent);
    push_left_aligned(&mut row, spent.as_str(), DURATION_WIDTH);
    row.push(' ');
    row.append(file.name.as_str());
    assert(row@ =~= row_text(start_time@, *file));
    row
}

/// The line above the rows of a session of version `major.minor`.
pub fn session_heading(major: u64, minor: u64, subtotal: &Duration) -> (line: String)
    ensures
        line@ == session_heading_text(major, minor, subtotal.millis as int),
{
    let mut line = String::new();
    line.append("Version ");
    push_decimal(&mut line, major);
    line.push('.');
    push_decimal(&mut line, minor);
    line.append(".x - ");
    push_duration(&mut line, subtotal);
    assert(line@ =~= session_heading_text(major, minor, subtotal.millis as int));
    line
}

/// The creation time of `file` as the report shows it: in the time zone of
/// this machine, and empty where the instant cannot be shown.
pub fn start_time_text(file: &ProjectFile) -> (text: String) {
    match local_time_text(file.created_datetime.millis(), START_TIME_LAYOUT) {
        Some(text) => text,
        None => String::new(),
    }
}

impl ProjectFile {
    /// The row of the file in a report.
    pub fn to_text(&self) -> (row: String)
        ensures
            exists|start_time: Seq<char>| row@ == row_text(start_time, *self),
    {
        let start_time: String = start_time_text(self);
        format_row(self, start_time.as_str())
    }
}

/// Whether a report on the files can be written: whether every sum that it
/// shows is a `Duration`.
pub fn can_summarize(project_files: &[ProjectFile]) -> (possible: bool)
    ensures
        possible == can_be_summarized(project_files@),
{
    let n: usize = project_files.len();
    assert(project_files@.subrange(0, n as int) =~= project_files@);
    let total: i128 = millis_in_range(project_files, 0, n);
    if total < i64::MIN as i128 || total > i64::MAX as i128 {
        return false;
    }
    let sessions: Vec<Session> = split_sessions(project_files);
    proof {
        lemma_sessions_partition(project_files@);
    }
    let mut k: usize = 0;
    while k < sessions.len()
        invariant
            k <= sessions@.len(),
            n == project_files@.len(),
            spans(sessions@) == sessions_of(project_files@),
            is_partition(project_files@, sessions_of(project_files@)),
            representable(total_millis(project_files@)),
            forall|j: int|
                0 <= j < k && project_files@[(#[trigger] sessions_of(project_files@)[j]).0].version
                    is Some ==> representable(total_millis(session_files(project_files@)[j])),
        decreases sessions@.len() - k,
    {
        let session: Session = sessions[k];
        assert(session@ == spans(sessions@)[k as int]);
        assert(session@ == sessions_of(project_files@)[k as int]);
        if project_files[session.start].version.is_some() {
            let subtotal: i128 = millis_in_range(project_files, session.start, session.end);
            if subtotal < i64::MIN as i128 || subtotal > i64::MAX as i128 {
                return false;
            }
        }
        k += 1;
    }
    true
}

/// The lines of the report on the files, which stand in the order of their
/// creation: a heading, then session by session the rows of the files, and
/// the total at the end. `start_times[i]` is shown as the creation time of
/// file `i`.
pub fn summary_lines(project_files: &[ProjectFile], start_times: &[String]) -> (lines: Vec<String>)
    requires
        start_times@.len() == project_files@.len(),
        can_be_summarized(project_files@),
    ensures
        texts(lines@) == summary_text(project_files@, texts(start_times@)),
{
    let n: usize = project_files.len();
    let mut lines: Vec<String> = Vec::new();
    if n == 0 {
        lines.push(String::from_str("No project files found"));
        assert(texts(lines@) =~= summary_text(project_files@, texts(start_times@)));
        return lines;
    }
    let ghost files = project_files@;
    let ghost starts = texts(start_times@);
    let ghost all = sessions_of(files);
    lines.push(heading());
    let sessions: Vec<Session> = split_sessions(project_files);
    proof {
        lemma_sessions_partition(files);
        assert(all.take(0) =~= Seq::<(int, int)>::empty());
        assert(texts(lines@) =~= seq![heading_text()] + session_blocks(files, starts, all.take(0)));
    }
    let mut k: usize = 0;
    while k < sessions.len()
        invariant
            k <= sessions@.len(),
            n == files.len(),
            files == project_files@,
            starts == texts(start_times@),
            start_times@.len() == n,
            all == sessions_of(files),
            spans(sessions@) == all,
            is_partition(files, all),
            can_be_summarized(files),
            texts(lines@) == seq![heading_text()] + session_blocks(files, starts, all.take(k as int)),
        decreases sessions@.len() - k,
    {
        let session: Session = sessions[k];
        assert(session@ == spans(sessions@)[k as int]);
        assert(session@ == all[k as int]);
        let ghost before = texts(lines@);
        let ghost above = match files[session.start as int].major_minor() {
            Some((major, minor)) => seq![
                session_heading_text(
                    major,
                    minor,
                    total_millis(files.subrange(session.start as int, session.end as int)),
                ),
            ],
            None => Seq::<Seq<char>>::empty(),
        };
        match session_label(&project_files[session.start]) {
            Some((major, minor)) => {
                assert(session_files(files)[k as int] == files.subrange(
                    session.start as int,
                    session.end as int,
                ));
                let subtotal: i128 = millis_in_range(project_files, session.start, session.end);
                let subtotal = Duration { millis: subtotal as i64 };
                lines.push(session_heading(major, minor, &subtotal));
            },
            None => {},
        }
        assert(texts(lines@) =~= before + above);
        let mut i: usize = session.start;
        assert(texts(lines@) =~= before + above + rows(
            files,
            starts,
            session.start as int,
            i as int,
        ));
        while i < session.end
            invariant
                session.start <= i <= session.end <= n,
                n == files.len(),
                files == project_files@,
                starts == texts(start_times@),
                start_times@.len() == n,
                texts(lines@) == before + above + rows(
                    files,
                    starts,
                    session.start as int,
                    i as int,
                ),
            decreases session.end - i,
        {
            let row: String = format_row(&project_files[i], start_times[i].as_str());
            proof {
                lemma_texts_push(lines@, row);
                lemma_rows_push(files, starts, session.start as int, i as int);
                assert(starts[i as int] == start_times@[i as int]@);
            }
            lines.push(row);
            i += 1;
            assert(texts(lines@) =~= before + above + rows(
                files,
                starts,
                session.start as int,
                i as int,
            ));
        }
        let blank: String = String::new();
        proof {
            lemma_texts_push(lines@, blank);
        }
        lines.push(blank);
        proof {
            assert(all.take(k + 1).drop_last() =~= all.take(k as int));
            assert(all.take(k + 1).last() == all[k as int]);
            assert(session_block(files, starts, all[k as int]) == above + rows(
                files,
                starts,
                session.start as int,
                session.end as int,
            ) + seq![Seq::<char>::empty()]);
            assert(texts(lines@) =~= before + session_block(files, starts, all[k as int]));
            assert(texts(lines@) =~= seq![heading_text()] + session_blocks(
                files,
                starts,
                all.take(k + 1),
            ));
        }
        k += 1;
    }
    assert(all.take(k as int) =~= all);
    let ghost before = texts(lines@);
    lines.push(String::from_str("Total project time"));
    let total: Duration = sum_project_durations(project_files);
    lines.push(format_duration(&total));
    assert(texts(lines@) =~= before + seq![
        "Total project time"@,
        duration_text(total_millis(files)),
    ]);
    lines
}

/// The lines of the report on the files, with the creation time of each
/// file shown in the time zone of this machine.
pub fn project_summary(project_files: &[ProjectFile]) -> (lines: Vec<String>)
    requires
        can_be_summarized(project_files@),
    ensures
        exists|start_times: Seq<Seq<char>>|
            start_times.len() == project_files@.len() && texts(lines@) == summary_text(
                project_files@,
                start_times,
            ),
{
    let n: usize = project_files.len();
    let mut start_times: Vec<String> = Vec::new();
    let mut i: usize = 0;
    while i < n
        invariant
            i <= n,
            n == project_files@.len(),
            start_times@.len() == i,
        decreases n - i,
    {
        start_times.push(start_time_text(&project_files[i]));
        i += 1;
    }
    summary_lines(project_files, start_times.as_slice())
}

} // verus!
