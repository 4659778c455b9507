use abletime::engine::{ceiling_fits, millis_in_range};
use abletime::{
    calculate_time_spent, ceiling, split_sessions, sum_project_durations, Duration, ProjectFile,
    Timestamp, Version,
};
use chrono::Local;

fn at(millis: i64) -> Timestamp {
    Timestamp::from_millis(millis).unwrap()
}

fn file(name: &str, created: i64, modified: i64, version: Option<Version>) -> ProjectFile {
    ProjectFile::new(String::from(name), at(created), at(modified), version)
}

fn spent(project_files: &[ProjectFile]) -> Vec<i64> {
    project_files.iter().map(|f| f.time_spent.num_milliseconds()).collect()
}

#[test]
fn test_calculate_time_spent() {
    let mut project_files: Vec<ProjectFile> = Vec::new();

    // single file: project time is modified - created
    let created_datetime_a = at(Local::now().timestamp_millis());
    let modified_datetime_a = created_datetime_a.plus(Duration::seconds(1)).unwrap();
    let project_file_a = ProjectFile {
        created_datetime: created_datetime_a,
        modified_datetime: modified_datetime_a,
        time_spent: Duration::zero(),
        name: String::from("abletime 0.1.0.als"),
        version: Version::parse("0.1.0"),
    };
    project_files.push(project_file_a);
    calculate_time_spent(&mut project_files, Duration::max_value());
    assert_eq!(project_files[0].time_spent, modified_datetime_a.since(&created_datetime_a));

    // multiple files: project time is (file b created - file a created) + (file b modified - file b created)
    let created_datetime_b = at(Local::now().timestamp_millis());
    let modified_datetime_b = created_datetime_b.plus(Duration::seconds(1)).unwrap();
    let project_file_b = ProjectFile {
        created_datetime: created_datetime_b,
        modified_datetime: modified_datetime_b,
        time_spent: Duration::zero(),
        name: String::from("abletime 0.1.1.als"),
        version: Version::parse("0.1.1"),
    };
    project_files.push(project_file_b);
    calculate_time_spent(&mut project_files, Duration::max_value());
    assert_eq!(project_files[0].time_spent, created_datetime_b.since(&created_datetime_a));
    assert_eq!(project_files[1].time_spent, modified_datetime_b.since(&created_datetime_b));
}

#[test]
fn test_sum_project_durations() {
    let mut project_files: Vec<ProjectFile> = Vec::new();
    assert_eq!(sum_project_durations(&project_files), Duration::zero());

    let project_file_a = ProjectFile {
        created_datetime: at(Local::now().timestamp_millis()),
        modified_datetime: at(Local::now().timestamp_millis()),
        time_spent: Duration::seconds(1),
        name: String::from("abletime 0.1.0.als"),
        version: Version::parse("0.1.0"),
    };
    project_files.push(project_file_a);
    let project_file_b = ProjectFile {
        created_datetime: at(Local::now().timestamp_millis()),
        modified_datetime: at(Local::now().timestamp_millis()),
        time_spent: Duration::seconds(10),
        name: String::from("abletime 0.1.1.als"),
        version: Version::parse("0.1.1"),
    };
    project_files.push(project_file_b);
    assert_eq!(sum_project_durations(&project_files), Duration::seconds(11));
}

#[test]
fn single_file_takes_its_own_span() {
    let mut files = vec![file("only.als", 10_000, 11_000, None)];
    calculate_time_spent(&mut files, Duration::max_value());
    assert_eq!(files[0].time_spent, Duration::seconds(1));
}

#[test]
fn patch_bump_takes_the_span_to_the_next_file() {
    let mut files = vec![
        file("abletime 0.1.0.als", 10_000, 10_400, Version::parse("0.1.0")),
        file("abletime 0.1.1.als", 11_000, 12_000, Version::parse("0.1.1")),
    ];
    calculate_time_spent(&mut files, Duration::max_value());
    assert_eq!(spent(&files), vec![1000, 1000]);
}

#[test]
fn minor_bump_keeps_the_own_span() {
    let mut files = vec![
        file("abletime 0.1.0.als", 10_000, 10_400, Version::parse("0.1.0")),
        file("abletime 0.2.0.als", 11_000, 12_000, Version::parse("0.2.0")),
    ];
    calculate_time_spent(&mut files, Duration::max_value());
    assert_eq!(spent(&files), vec![400, 1000]);
}

#[test]
fn major_bump_keeps_the_own_span() {
    let mut files = vec![
        file("abletime 0.9.0.als", 10_000, 10_400, Version::parse("0.9.0")),
        file("abletime 1.0.0.als", 11_000, 12_000, Version::parse("1.0.0")),
    ];
    calculate_time_spent(&mut files, Duration::max_value());
    assert_eq!(spent(&files), vec![400, 1000]);
}

#[test]
fn unversioned_neighbour_takes_the_span_to_the_next_file() {
    // for the estimate a missing version is no boundary
    let mut files = vec![
        file("abletime 0.1.0.als", 10_000, 10_400, Version::parse("0.1.0")),
        file("untitled.als", 11_000, 12_000, None),
        file("abletime 0.2.0.als", 15_000, 15_100, Version::parse("0.2.0")),
    ];
    calculate_time_spent(&mut files, Duration::max_value());
    assert_eq!(spent(&files), vec![1000, 4000, 100]);
}

#[test]
fn span_to_next_at_the_ceiling_falls_back_to_the_own_span() {
    let minute = 60_000;
    let mut files = vec![
        file("a 0.1.0.als", 0, 5_000, Version::parse("0.1.0")),
        file("a 0.1.1.als", minute, minute + 7_000, Version::parse("0.1.1")),
    ];
    calculate_time_spent(&mut files, Duration::minutes(1));
    assert_eq!(spent(&files), vec![5_000, 7_000]);
}

#[test]
fn span_to_next_just_below_the_ceiling_counts() {
    let minute = 60_000;
    let mut files = vec![
        file("a 0.1.0.als", 0, 5_000, Version::parse("0.1.0")),
        file("a 0.1.1.als", minute - 1, minute + 7_000, Version::parse("0.1.1")),
    ];
    calculate_time_spent(&mut files, Duration::minutes(1));
    assert_eq!(spent(&files), vec![minute - 1, 7_001]);
}

#[test]
fn both_spans_at_the_ceiling_leave_the_time_as_it_was() {
    let minute = 60_000;
    let mut files = vec![
        file("a 0.1.0.als", 0, minute, Version::parse("0.1.0")),
        file("a 0.1.1.als", 2 * minute, 4 * minute, Version::parse("0.1.1")),
    ];
    calculate_time_spent(&mut files, Duration::minutes(1));
    assert_eq!(spent(&files), vec![0, 0]);

    files[0].time_spent = Duration::seconds(3);
    files[1].time_spent = Duration::seconds(4);
    calculate_time_spent(&mut files, Duration::minutes(1));
    assert_eq!(spent(&files), vec![3_000, 4_000]);
}

#[test]
fn own_span_at_the_ceiling_gives_way_to_the_span_to_next() {
    let minute = 60_000;
    let mut files = vec![
        file("a 0.1.0.als", 0, 10 * minute, Version::parse("0.1.0")),
        file("a 0.1.1.als", 30_000, 31_000, Version::parse("0.1.1")),
    ];
    calculate_time_spent(&mut files, Duration::minutes(1));
    assert_eq!(spent(&files), vec![30_000, 1_000]);
}

#[test]
fn negative_spans_are_kept_as_they_are() {
    let mut files = vec![
        file("a 0.1.0.als", 10_000, 9_000, Version::parse("0.1.0")),
        file("a 0.2.0.als", 5_000, 4_500, Version::parse("0.2.0")),
        file("a 0.2.1.als", 3_000, 3_000, Version::parse("0.2.1")),
    ];
    calculate_time_spent(&mut files, Duration::minutes(60));
    assert_eq!(spent(&files), vec![-1_000, -2_000, 0]);
    assert_eq!(sum_project_durations(&files), Duration::seconds(-3));
}

#[test]
fn estimate_changes_nothing_but_the_time_spent() {
    let before = vec![
        file("a 0.1.0.als", 10_000, 10_400, Version::parse("0.1.0")),
        file("b.als", 11_000, 12_000, None),
    ];
    let mut files = before.clone();
    calculate_time_spent(&mut files, Duration::max_value());
    assert_eq!(files.len(), 2);
    for (after, old) in files.iter().zip(before.iter()) {
        assert_eq!(after.name, old.name);
        assert_eq!(after.created_datetime, old.created_datetime);
        assert_eq!(after.modified_datetime, old.modified_datetime);
        assert_eq!(after.version, old.version);
    }
}

#[test]
fn estimate_of_no_files() {
    let mut files: Vec<ProjectFile> = Vec::new();
    calculate_time_spent(&mut files, Duration::max_value());
    assert!(files.is_empty());
    assert_eq!(sum_project_durations(&files), Duration::zero());
}

#[test]
fn estimating_twice_changes_nothing() {
    let minute = 60_000;
    let mut files = vec![
        file("a 0.1.0.als", 0, 5_000, Version::parse("0.1.0")),
        file("a 0.1.1.als", 30_000, 10 * minute, Version::parse("0.1.1")),
        file("a 0.2.0.als", 20 * minute, 40 * minute, Version::parse("0.2.0")),
        file("untitled.als", 41 * minute, 41 * minute + 10, None),
        file("a 0.2.1.als", 41 * minute + 500, 41 * minute + 900, Version::parse("0.2.1")),
    ];
    calculate_time_spent(&mut files, Duration::minutes(1));
    let once = files.clone();
    let sessions_once = split_sessions(&files);
    calculate_time_spent(&mut files, Duration::minutes(1));
    assert_eq!(files, once);
    assert_eq!(split_sessions(&files), sessions_once);
    assert_eq!(spent(&files), vec![30_000, 0, 0, 500, 400]);
}

#[test]
fn total_is_the_sum_of_the_time_spent() {
    let mut files = vec![
        file("a 0.1.0.als", 0, 5_000, Version::parse("0.1.0")),
        file("a 0.1.1.als", 30_000, 31_000, Version::parse("0.1.1")),
        file("a 0.2.0.als", 90_000, 94_000, Version::parse("0.2.0")),
    ];
    calculate_time_spent(&mut files, Duration::max_value());
    assert_eq!(spent(&files), vec![30_000, 1_000, 4_000]);
    assert_eq!(sum_project_durations(&files), Duration::milliseconds(35_000));
    let by_hand: i64 = spent(&files).iter().sum();
    assert_eq!(sum_project_durations(&files).num_milliseconds(), by_hand);
}

#[test]
fn total_is_the_sum_of_the_parts_however_cut() {
    let mut files = vec![
        file("a.als", 0, 0, None),
        file("b.als", 0, 0, None),
        file("c.als", 0, 0, None),
        file("d.als", 0, 0, None),
    ];
    let values = [7, -3, 1_000, 52];
    for (f, millis) in files.iter_mut().zip(values.iter()) {
        f.time_spent = Duration::milliseconds(*millis);
    }
    let total = sum_project_durations(&files).num_milliseconds();
    assert_eq!(total, 1_056);
    for first in 0..=files.len() {
        for second in first..=files.len() {
            let parts = [&files[..first], &files[first..second], &files[second..]];
            let sum: i64 =
                parts.iter().map(|part| sum_project_durations(part).num_milliseconds()).sum();
            assert_eq!(sum, total);
        }
    }
}

#[test]
fn total_up_to_the_longest_span() {
    let mut files = vec![file("a.als", 0, 0, None), file("b.als", 0, 0, None)];
    files[0].time_spent = Duration::milliseconds(i64::MAX - 5);
    files[1].time_spent = Duration::milliseconds(5);
    assert_eq!(sum_project_durations(&files), Duration::max_value());
}

#[test]
fn ceiling_of_a_limit_in_minutes() {
    assert_eq!(ceiling(60), Duration::milliseconds(3_600_000));
    assert_eq!(ceiling(1), Duration::minutes(1));
    assert_eq!(ceiling(153_722_867_280_912), Duration::milliseconds(9_223_372_036_854_720_000));
}

#[test]
fn ceiling_of_no_limit() {
    assert_eq!(ceiling(0), Duration::max_value());
    assert_eq!(ceiling(-1), Duration::max_value());
    assert_eq!(ceiling(i64::MIN), Duration::max_value());
}

#[test]
fn ceiling_fits_up_to_the_longest_span() {
    assert!(ceiling_fits(60));
    assert!(ceiling_fits(0));
    assert!(ceiling_fits(i64::MIN));
    assert!(ceiling_fits(153_722_867_280_912));
    assert!(!ceiling_fits(153_722_867_280_913));
    assert!(!ceiling_fits(i64::MAX));
}

#[test]
fn millis_in_range_sums_a_run_of_files() {
    let mut files = vec![
        file("a.als", 0, 0, None),
        file("b.als", 0, 0, None),
        file("c.als", 0, 0, None),
    ];
    files[0].time_spent = Duration::milliseconds(i64::MAX);
    files[1].time_spent = Duration::milliseconds(i64::MAX);
    files[2].time_spent = Duration::milliseconds(-4);
    assert_eq!(millis_in_range(&files, 0, 0), 0);
    assert_eq!(millis_in_range(&files, 3, 3), 0);
    assert_eq!(millis_in_range(&files, 0, 1), i64::MAX as i128);
    assert_eq!(millis_in_range(&files, 0, 2), 2 * (i64::MAX as i128));
    assert_eq!(millis_in_range(&files, 1, 3), i64::MAX as i128 - 4);
    assert_eq!(millis_in_range(&files, 0, 3), 2 * (i64::MAX as i128) - 4);
}
