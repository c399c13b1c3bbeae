use zip_extract::engine::Engine;
use zip_extract::engine::EntryEvent;
use zip_extract::engine::ErrorKind;
use zip_extract::engine::FileOutcome;
use zip_extract::plan::EntryPlan;
use zip_extract::plan::plan_entry;
use zip_extract::run::EntryFetch;
use zip_extract::run::EntryIo;
use zip_extract::run::extract_all;

fn file_entry(name: &str, outcome: FileOutcome) -> EntryFetch {
    EntryFetch::Entry {
        io: EntryIo {
            raw_name: String::from(name),
            enclosed: Some(String::from(name)),
            dir_failure: None,
            parent_failure: None,
            file_outcome: outcome,
        },
    }
}

fn dir_entry(name: &str, dir_failure: Option<String>) -> EntryFetch {
    EntryFetch::Entry {
        io: EntryIo {
            raw_name: String::from(name),
            enclosed: Some(String::from(name)),
            dir_failure,
            parent_failure: None,
            file_outcome: FileOutcome::Written { bytes: 0 },
        },
    }
}

#[test]
fn empty_archive_extracts_to_nothing() {
    let summary = extract_all("dest", Vec::new()).unwrap();
    assert_eq!(summary.total, 0);
    assert!(summary.errors.is_empty());
}

#[test]
fn round_trip_directory_and_file() {
    let fetches = vec![
        dir_entry("dir1/", None),
        file_entry("dir1/file.txt", FileOutcome::Written { bytes: 5 }),
    ];
    let summary = extract_all("dest", fetches).unwrap();
    assert_eq!(summary.total, 5);
    assert!(summary.errors.is_empty());
}

#[test]
fn rerun_against_populated_destination_is_clean() {
    for _ in 0..2 {
        let fetches = vec![
            dir_entry("dir1/", None),
            file_entry("dir1/file.txt", FileOutcome::Written { bytes: 5 }),
        ];
        let summary = extract_all("dest", fetches).unwrap();
        assert_eq!(summary.total, 5);
        assert!(summary.errors.is_empty());
    }
}

#[test]
fn total_is_sum_of_written_entries_only() {
    let fetches = vec![
        file_entry("a.txt", FileOutcome::Written { bytes: 10 }),
        file_entry(
            "b.txt",
            FileOutcome::CreateFailed { cause: String::from("permission denied") },
        ),
        file_entry("c.txt", FileOutcome::Written { bytes: 32 }),
        file_entry("d.txt", FileOutcome::WriteFailed { cause: String::from("disk full") }),
    ];
    let summary = extract_all("dest", fetches).unwrap();
    assert_eq!(summary.total, 42);
    assert_eq!(summary.errors.len(), 2);
}

#[test]
fn failure_isolation_second_entry_still_extracted() {
    let fetches = vec![
        file_entry(
            "blocked/one.txt",
            FileOutcome::CreateFailed { cause: String::from("parent is a file") },
        ),
        file_entry("two.txt", FileOutcome::Written { bytes: 7 }),
    ];
    let summary = extract_all("dest", fetches).unwrap();
    assert_eq!(summary.total, 7);
    assert_eq!(summary.errors.len(), 1);
    assert_eq!(summary.errors[0].kind, ErrorKind::FileCreate);
    assert_eq!(summary.errors[0].path, "dest/blocked/one.txt");
    assert_eq!(summary.errors[0].cause, "parent is a file");
}

#[test]
fn corrupt_record_is_fatal_before_any_entry() {
    let fetches = vec![
        EntryFetch::Corrupt { cause: String::from("truncated central directory") },
        file_entry("late.txt", FileOutcome::Written { bytes: 9 }),
    ];
    let fatal = extract_all("dest", fetches).unwrap_err();
    assert_eq!(fatal.index, 0);
    assert_eq!(fatal.cause, "truncated central directory");
}

#[test]
fn corrupt_record_mid_run_reports_its_index() {
    let fetches = vec![
        file_entry("ok.txt", FileOutcome::Written { bytes: 3 }),
        EntryFetch::Corrupt { cause: String::from("bad local header") },
        file_entry("late.txt", FileOutcome::Written { bytes: 9 }),
    ];
    let fatal = extract_all("dest", fetches).unwrap_err();
    assert_eq!(fatal.index, 1);
    assert_eq!(fatal.cause, "bad local header");
}

#[test]
fn undecodable_and_empty_names_are_skipped_silently() {
    let fetches = vec![
        EntryFetch::Entry {
            io: EntryIo {
                raw_name: String::from("\u{0}weird"),
                enclosed: None,
                dir_failure: None,
                parent_failure: None,
                file_outcome: FileOutcome::Written { bytes: 100 },
            },
        },
        EntryFetch::Entry {
            io: EntryIo {
                raw_name: String::from(""),
                enclosed: Some(String::from("")),
                dir_failure: None,
                parent_failure: None,
                file_outcome: FileOutcome::Written { bytes: 100 },
            },
        },
    ];
    let summary = extract_all("dest", fetches).unwrap();
    assert_eq!(summary.total, 0);
    assert!(summary.errors.is_empty());
}

#[test]
fn traversal_entry_is_rejected_with_its_own_kind() {
    let fetches = vec![file_entry("../evil.txt", FileOutcome::Written { bytes: 50 })];
    let summary = extract_all("dest", fetches).unwrap();
    assert_eq!(summary.total, 0);
    assert_eq!(summary.errors.len(), 1);
    assert_eq!(summary.errors[0].kind, ErrorKind::UnsafePath);
    assert_eq!(summary.errors[0].path, "../evil.txt");
}

#[test]
fn directory_create_failure_is_recorded_and_run_continues() {
    let fetches = vec![
        dir_entry("locked/", Some(String::from("read-only filesystem"))),
        file_entry("after.txt", FileOutcome::Written { bytes: 4 }),
    ];
    let summary = extract_all("dest", fetches).unwrap();
    assert_eq!(summary.total, 4);
    assert_eq!(summary.errors.len(), 1);
    assert_eq!(summary.errors[0].kind, ErrorKind::DirCreate);
    assert_eq!(summary.errors[0].path, "dest/locked");
    assert_eq!(summary.errors[0].cause, "read-only filesystem");
}

#[test]
fn parent_failure_then_file_failure_gives_two_records() {
    let fetches = vec![EntryFetch::Entry {
        io: EntryIo {
            raw_name: String::from("deep/tree/leaf.txt"),
            enclosed: Some(String::from("deep/tree/leaf.txt")),
            dir_failure: None,
            parent_failure: Some(String::from("quota exceeded")),
            file_outcome: FileOutcome::CreateFailed { cause: String::from("no such directory") },
        },
    }];
    let summary = extract_all("dest", fetches).unwrap();
    assert_eq!(summary.total, 0);
    assert_eq!(summary.errors.len(), 2);
    assert_eq!(summary.errors[0].kind, ErrorKind::DirCreate);
    assert_eq!(summary.errors[0].path, "dest/deep/tree");
    assert_eq!(summary.errors[0].cause, "quota exceeded");
    assert_eq!(summary.errors[1].kind, ErrorKind::FileCreate);
    assert_eq!(summary.errors[1].path, "dest/deep/tree/leaf.txt");
}

#[test]
fn write_failure_is_recorded_without_bytes() {
    let fetches = vec![file_entry(
        "partial.bin",
        FileOutcome::WriteFailed { cause: String::from("interrupted") },
    )];
    let summary = extract_all("dest", fetches).unwrap();
    assert_eq!(summary.total, 0);
    assert_eq!(summary.errors.len(), 1);
    assert_eq!(summary.errors[0].kind, ErrorKind::FileWrite);
    assert_eq!(summary.errors[0].path, "dest/partial.bin");
}

#[test]
fn engine_steps_accumulate_in_order() {
    let mut engine = Engine::new(3);
    engine.step(EntryEvent::Skipped);
    assert_eq!(engine.next, 1);
    assert_eq!(engine.total, 0);
    engine.step(EntryEvent::FileDone {
        path: String::from("dest/a"),
        parent_failure: None,
        outcome: FileOutcome::Written { bytes: 11 },
    });
    assert_eq!(engine.next, 2);
    assert_eq!(engine.total, 11);
    engine.step(EntryEvent::DirMade { path: String::from("dest/d"), failure: None });
    assert_eq!(engine.next, 3);
    assert_eq!(engine.total, 11);
    assert!(engine.errors.is_empty());
}

#[test]
fn planner_classifies_entries() {
    assert!(matches!(plan_entry("dest", "x", None), EntryPlan::Skip));
    assert!(matches!(plan_entry("dest", "", Some("")), EntryPlan::Skip));
    match plan_entry("dest", "dir1/", Some("dir1/")) {
        EntryPlan::MakeDir { dest } => assert_eq!(dest, "dest/dir1"),
        other => panic!("expected a directory plan, got {:?}", other),
    }
    match plan_entry("dest", "a/b/c.txt", Some("a/b/c.txt")) {
        EntryPlan::WriteFile { dest, parent } => {
            assert_eq!(dest, "dest/a/b/c.txt");
            assert_eq!(parent, "dest/a/b");
        },
        other => panic!("expected a file plan, got {:?}", other),
    }
    match plan_entry("dest", "../up", Some("../up")) {
        EntryPlan::Reject { name } => assert_eq!(name, "../up"),
        other => panic!("expected a rejection, got {:?}", other),
    }
}
