use backup_freshness::backups::{
    choose_timestamp, discover_candidates, find_latest_backup_time, latest_backup_time,
    BackupCandidate, BackupParsingError, DirectoryEntry,
};
use backup_freshness::timestamp::Timestamp;
use chrono::{Local, LocalResult, TimeZone};

const PATTERN: &str = r".*-(?P<year>\d+)-(?P<month>\d+)-(?P<day>\d+)\.ext";

fn at(secs: i64) -> Option<Timestamp> {
    Some(Timestamp { secs, nanos: 0 })
}

fn entry(name: &str, created: Option<Timestamp>, modified: Option<Timestamp>) -> DirectoryEntry {
    DirectoryEntry { file_name: name.to_string(), created, modified }
}

fn listing(entries: Vec<DirectoryEntry>) -> Result<Vec<DirectoryEntry>, String> {
    Ok(entries)
}

fn candidate(name: &str, timestamp: Option<Timestamp>) -> BackupCandidate {
    BackupCandidate { file_name: name.to_string(), effective_timestamp: timestamp }
}

fn local(year: i32, month: u32, day: u32, hour: u32, minute: u32, second: u32) -> Timestamp {
    match Local.with_ymd_and_hms(year, month, day, hour, minute, second) {
        LocalResult::Single(instant) => Timestamp { secs: instant.timestamp(), nanos: 0 },
        _ => panic!("no single local instant"),
    }
}

#[test]
fn name_date_comes_before_created_before_modified() {
    assert_eq!(choose_timestamp(at(1), at(2), at(3)), at(1));
    assert_eq!(choose_timestamp(None, at(2), at(3)), at(2));
    assert_eq!(choose_timestamp(None, None, at(3)), at(3));
    assert_eq!(choose_timestamp(at(1), None, None), at(1));
    assert_eq!(choose_timestamp(None, None, None), None);
}

#[test]
fn latest_of_two_dated_files() {
    let entries = listing(vec![
        entry("a-2022-03-11.ext", at(5), at(6)),
        entry("a-2023-01-01.ext", at(1), at(2)),
    ]);
    assert_eq!(
        find_latest_backup_time(PATTERN, "/mnt/usb", &entries),
        Ok(local(2023, 1, 1, 0, 0, 0))
    );
}

#[test]
fn latest_of_three_in_every_listing_order() {
    let names = ["b-2021-05-01.ext", "b-2022-05-01.ext", "b-2023-05-01.ext"];
    let orders = [[0, 1, 2], [0, 2, 1], [1, 0, 2], [1, 2, 0], [2, 0, 1], [2, 1, 0]];
    for order in orders {
        let entries = listing(order.iter().map(|&i| entry(names[i], None, None)).collect());
        assert_eq!(
            find_latest_backup_time(PATTERN, "/mnt/usb", &entries),
            Ok(local(2023, 5, 1, 0, 0, 0))
        );
    }
}

#[test]
fn undated_candidates_fall_back_to_the_file_system() {
    let pattern = r"^backup.*\.ext$";
    let entries = listing(vec![
        entry("backup-one.ext", at(100), at(900)),
        entry("backup-two.ext", None, at(400)),
        entry("backup-three.ext", at(300), None),
    ]);
    assert_eq!(find_latest_backup_time(pattern, "/mnt/usb", &entries), Ok(Timestamp { secs: 400, nanos: 0 }));
}

#[test]
fn mixed_sources_pick_the_true_maximum() {
    let pattern = r"^backup(-(?P<year>\d+)-(?P<month>\d+)-(?P<day>\d+))?.*\.ext$";
    let dated = local(2022, 3, 11, 0, 0, 0);
    let newer = Timestamp { secs: dated.secs + 10, nanos: 5 };
    let older = Timestamp { secs: dated.secs - 10, nanos: 5 };

    let file_system_wins = listing(vec![
        entry("backup-2022-03-11.ext", at(dated.secs + 999), None),
        entry("backup-plain.ext", Some(newer), at(1)),
    ]);
    assert_eq!(find_latest_backup_time(pattern, "/mnt/usb", &file_system_wins), Ok(newer));

    let name_wins = listing(vec![
        entry("backup-plain.ext", None, Some(older)),
        entry("backup-2022-03-11.ext", at(dated.secs + 999), None),
    ]);
    assert_eq!(find_latest_backup_time(pattern, "/mnt/usb", &name_wins), Ok(dated));
}

#[test]
fn name_that_is_no_date_falls_back() {
    let pattern = r".*-(?P<year>\d+)-(?P<month>\w+)-(?P<day>\d+)\.ext";
    let entries = listing(vec![entry("a-2022-OCT-11.ext", at(77), at(99))]);
    assert_eq!(find_latest_backup_time(pattern, "/mnt/usb", &entries), Ok(Timestamp { secs: 77, nanos: 0 }));
    let impossible = listing(vec![entry("a-2022-13-45.ext", None, at(99))]);
    assert_eq!(find_latest_backup_time(pattern, "/mnt/usb", &impossible), Ok(Timestamp { secs: 99, nanos: 0 }));
}

#[test]
fn entries_that_do_not_match_are_no_candidates() {
    let entries = listing(vec![
        entry("notes.txt", at(9_999_999_999), at(9_999_999_999)),
        entry("a-2022-03-11.ext", None, None),
        entry("lost+found", at(9_999_999_999), None),
    ]);
    assert_eq!(
        find_latest_backup_time(PATTERN, "/mnt/usb", &entries),
        Ok(local(2022, 3, 11, 0, 0, 0))
    );
}

#[test]
fn empty_directory_has_no_backups() {
    assert_eq!(
        find_latest_backup_time(PATTERN, "/mnt/usb", &listing(vec![])),
        Err(BackupParsingError::NoBackupsFound {
            mount_path: "/mnt/usb".to_string(),
            pattern: PATTERN.to_string(),
        })
    );
}

#[test]
fn directory_without_a_match_has_no_backups() {
    let entries = listing(vec![entry("notes.txt", at(1), at(2)), entry("a-2022-03.ext", at(1), at(2))]);
    assert_eq!(
        find_latest_backup_time(PATTERN, "/mnt/usb", &entries),
        Err(BackupParsingError::NoBackupsFound {
            mount_path: "/mnt/usb".to_string(),
            pattern: PATTERN.to_string(),
        })
    );
}

#[test]
fn directory_that_could_not_be_read_has_no_backups() {
    let unreadable: Result<Vec<DirectoryEntry>, String> = Err("No such file or directory".to_string());
    assert_eq!(
        find_latest_backup_time(PATTERN, "/mnt/usb", &unreadable),
        Err(BackupParsingError::NoBackupsFound {
            mount_path: "/mnt/usb".to_string(),
            pattern: PATTERN.to_string(),
        })
    );
    assert_eq!(
        find_latest_backup_time("[", "/mnt/usb", &unreadable),
        Err(BackupParsingError::InvalidPattern { pattern: "[".to_string() })
    );
}

#[test]
fn pattern_that_does_not_compile_is_refused() {
    let entries = listing(vec![entry("a-2022-03-11.ext", at(1), at(2))]);
    assert_eq!(
        find_latest_backup_time(r"(?P<year>\d+", "/mnt/usb", &entries),
        Err(BackupParsingError::InvalidPattern { pattern: r"(?P<year>\d+".to_string() })
    );
    assert_eq!(
        find_latest_backup_time("[", "/mnt/usb", &listing(vec![])),
        Err(BackupParsingError::InvalidPattern { pattern: "[".to_string() })
    );
}

#[test]
fn candidates_without_any_time() {
    let pattern = r"^backup.*$";
    let entries = listing(vec![entry("backup-a", None, None), entry("backup-b", None, None)]);
    assert_eq!(
        find_latest_backup_time(pattern, "/mnt/usb", &entries),
        Err(BackupParsingError::TimestampUnavailable { file_name: "backup-b".to_string() })
    );
}

#[test]
fn candidate_without_a_time_loses_to_any_with_one() {
    let pattern = r"^backup.*$";
    let entries = listing(vec![
        entry("backup-a", None, at(-5_000)),
        entry("backup-b", None, None),
    ]);
    assert_eq!(find_latest_backup_time(pattern, "/mnt/usb", &entries), Ok(Timestamp { secs: -5_000, nanos: 0 }));
}

#[test]
fn discover_keeps_listing_order_and_names() {
    let pattern = r"^backup(-(?P<year>\d+)-(?P<month>\d+)-(?P<day>\d+))?.*\.ext$";
    let entries = listing(vec![
        entry("backup-plain.ext", at(10), at(20)),
        entry("other.txt", at(1), at(1)),
        entry("backup-2022-03-11.ext", at(10), at(20)),
        entry("backup-late.ext", None, at(30)),
    ]);
    assert_eq!(
        discover_candidates(pattern, &entries.unwrap()),
        vec![
            candidate("backup-plain.ext", at(10)),
            candidate("backup-2022-03-11.ext", Some(local(2022, 3, 11, 0, 0, 0))),
            candidate("backup-late.ext", at(30)),
        ]
    );
}

#[test]
fn selection_takes_the_maximum() {
    let candidates = vec![
        candidate("a", Some(Timestamp { secs: 10, nanos: 999_999_999 })),
        candidate("b", Some(Timestamp { secs: 11, nanos: 0 })),
        candidate("c", None),
        candidate("d", Some(Timestamp { secs: 10, nanos: 0 })),
    ];
    assert_eq!(
        latest_backup_time(&candidates, "/mnt/usb", "p"),
        Ok(Timestamp { secs: 11, nanos: 0 })
    );
}

#[test]
fn selection_compares_nanoseconds() {
    let candidates = vec![
        candidate("a", Some(Timestamp { secs: 10, nanos: 2 })),
        candidate("b", Some(Timestamp { secs: 10, nanos: 3 })),
        candidate("c", Some(Timestamp { secs: 10, nanos: 1 })),
    ];
    assert_eq!(
        latest_backup_time(&candidates, "/mnt/usb", "p"),
        Ok(Timestamp { secs: 10, nanos: 3 })
    );
}

#[test]
fn selection_errors() {
    assert_eq!(
        latest_backup_time(&vec![], "/mnt/usb", "p"),
        Err(BackupParsingError::NoBackupsFound {
            mount_path: "/mnt/usb".to_string(),
            pattern: "p".to_string(),
        })
    );
    assert_eq!(
        latest_backup_time(&vec![candidate("a", None), candidate("b", None)], "/mnt/usb", "p"),
        Err(BackupParsingError::TimestampUnavailable { file_name: "b".to_string() })
    );
}

#[test]
fn backup_error_messages() {
    assert_eq!(
        BackupParsingError::InvalidPattern { pattern: "[".to_string() }.message(),
        "Error parsing backup: Invalid backup file pattern: '['"
    );
    assert_eq!(
        BackupParsingError::NoBackupsFound {
            mount_path: "/mnt/usb".to_string(),
            pattern: ".*".to_string(),
        }
        .message(),
        "Error parsing backup: No backups found matching /mnt/usb/.*"
    );
    assert_eq!(
        BackupParsingError::TimestampUnavailable { file_name: "backup-b".to_string() }.message(),
        "Error parsing backup: Failed to retrieve backup metadata for backup-b"
    );
}
