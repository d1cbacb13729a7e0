//! The export workflow: partitioning, copy decisions, the poll loop, and the
//! folder-path preparation.

use syno_photos_util::client::{FolderInfo, ItemInfo, TaskInfo, UserSettings};
use syno_photos_util::export::{export_summary_line, has_shared_space_access, is_terminal_status,
    partition_item_ids, run_poll, shared_copy_action, PollState, SharedCopyAction};
use syno_photos_util::paths::{normalize_folder_path, path_segments, segments_valid, CreateWalk};

fn item(id: u32, owner: u32) -> ItemInfo {
    ItemInfo { id, filename: format!("f{id}.jpg"), folder_id: 1, owner_user_id: owner }
}

fn task(id: u32, status: &str, total: u32, completion: u32, skip: u32, error: u32) -> TaskInfo {
    TaskInfo { id, status: status.to_string(), total, completion, skip, error }
}

#[test]
fn partition_is_total_and_disjoint() {
    let items = vec![
        item(1, 101),
        item(2, 0),
        item(3, 101),
        item(4, 102),
        item(5, 0),
        item(6, 101),
        item(7, 103),
        item(8, 104),
    ];
    let (personal, shared) = partition_item_ids(&items);
    assert_eq!(personal, [1, 3, 4, 6, 7, 8]);
    assert_eq!(shared, [2, 5]);
    assert_eq!(personal.len() + shared.len(), items.len());
}

#[test]
fn empty_partitions() {
    let (personal, shared) = partition_item_ids(&vec![]);
    assert!(personal.is_empty());
    assert!(shared.is_empty());
}

#[test]
fn shared_space_access_reads_the_permission() {
    let with = UserSettings {
        enable_home_service: true,
        enable_person: false,
        team_space_permission: "view".to_string(),
    };
    let without = UserSettings {
        enable_home_service: true,
        enable_person: false,
        team_space_permission: "none".to_string(),
    };
    assert!(has_shared_space_access(&with));
    assert!(!has_shared_space_access(&without));
}

#[test]
fn shared_partition_decision() {
    assert_eq!(shared_copy_action(0, true), SharedCopyAction::Nothing);
    assert_eq!(shared_copy_action(0, false), SharedCopyAction::Nothing);
    assert_eq!(shared_copy_action(2, true), SharedCopyAction::Submit);
    assert_eq!(shared_copy_action(2, false), SharedCopyAction::SkipNoAccess);
}

#[test]
fn pending_statuses() {
    assert!(!is_terminal_status("waiting"));
    assert!(!is_terminal_status("processing"));
    assert!(!is_terminal_status("aborting"));
    assert!(is_terminal_status("completed"));
    assert!(is_terminal_status("done"));
    assert!(is_terminal_status(""));
}

#[test]
fn poll_loop_settles_once_statuses_leave_the_pending_set() {
    // Two submitted tasks, 6 and 2 items: two waiting rounds, then done.
    let mut poll = PollState::new(vec![21, 22]);
    assert!(!poll.is_done());
    poll.poll_step(&vec![task(21, "waiting", 6, 0, 0, 0), task(22, "waiting", 2, 0, 0, 0)]);
    assert_eq!(poll.outstanding, [21, 22]);
    poll.poll_step(&vec![task(21, "waiting", 6, 3, 0, 0), task(22, "waiting", 2, 0, 0, 0)]);
    assert!(!poll.is_done());
    poll.poll_step(&vec![
        task(21, "completed", 6, 6, 0, 0),
        task(22, "completed", 2, 2, 0, 0),
    ]);
    assert!(poll.is_done());
    assert_eq!(
        export_summary_line(poll.copied, poll.skipped, poll.failed, poll.aborted),
        "Export summary: 8 copied, 0 skipped, 0 failed, 0 canceled"
    );
}

#[test]
fn poll_accounts_for_partial_outcomes() {
    let mut poll = PollState::new(vec![5, 6]);
    // Task 5 finishes with mixed outcomes, task 6 is still running.
    poll.poll_step(&vec![
        task(5, "completed", 10, 7, 2, 1),
        task(6, "processing", 4, 1, 0, 0),
    ]);
    assert_eq!(poll.outstanding, [6]);
    assert_eq!(poll.copied, 4); // completion - skip - error
    assert_eq!(poll.skipped, 2);
    assert_eq!(poll.failed, 1);
    assert_eq!(poll.aborted, 0); // total - (completion + skip + error)
    poll.poll_step(&vec![task(6, "aborted", 4, 1, 0, 0)]);
    assert!(poll.is_done());
    assert_eq!(poll.copied, 5);
    assert_eq!(poll.aborted, 3);
}

#[test]
fn scripted_poll_ends_once_statuses_settle() {
    let script = vec![
        vec![task(1, "waiting", 6, 0, 0, 0), task(2, "waiting", 2, 0, 0, 0)],
        vec![task(1, "waiting", 6, 5, 0, 0), task(2, "completed", 2, 2, 0, 0)],
        vec![task(1, "completed", 6, 6, 0, 0)],
    ];
    let settled = run_poll(vec![1, 2], &script).unwrap();
    assert!(settled.outstanding.is_empty());
    assert_eq!(settled.copied, 8);
    assert_eq!(settled.aborted, 0);
    // A script that never settles leaves the poll unfinished.
    let starved = run_poll(vec![1], &vec![vec![task(1, "waiting", 6, 0, 0, 0)]]);
    assert!(starved.is_err());
}

#[test]
fn no_tasks_means_the_poll_is_over_before_it_starts() {
    let poll = PollState::new(vec![]);
    assert!(poll.is_done());
    assert_eq!(
        export_summary_line(poll.copied, poll.skipped, poll.failed, poll.aborted),
        "Export summary: 0 copied, 0 skipped, 0 failed, 0 canceled"
    );
}

#[test]
fn folder_paths_are_normalized() {
    assert_eq!(normalize_folder_path(" /Trips/ "), "/Trips");
    assert_eq!(normalize_folder_path("Trips"), "/Trips");
    assert_eq!(normalize_folder_path("a/b/"), "/a/b");
    assert_eq!(normalize_folder_path(""), "/");
    assert_eq!(normalize_folder_path("///"), "/");
}

#[test]
fn paths_split_into_nonempty_segments() {
    assert_eq!(path_segments("/Trips"), ["Trips"]);
    assert_eq!(path_segments("/a//b/"), ["a", "b"]);
    assert_eq!(path_segments("a/b"), ["a", "b"]);
    assert!(path_segments("/").is_empty());
    assert!(path_segments("").is_empty());
}

#[test]
fn blank_segments_are_invalid() {
    assert!(segments_valid(&vec!["a".to_string(), "b".to_string()]));
    assert!(!segments_valid(&vec!["a".to_string(), " ".to_string()]));
}

#[test]
fn walk_creates_missing_segments_one_by_one() {
    let root = FolderInfo { id: 1, name: "/".to_string() };
    let segments = path_segments("/Trips/2024");
    let mut walk = CreateWalk::new(segments, root);
    assert!(!walk.is_done());
    assert!(walk.needs_lookup());
    assert_eq!(walk.lookup_path(), "/Trips");
    // "/Trips" exists already.
    walk.record_lookup(Some(FolderInfo { id: 7, name: "/Trips".to_string() }));
    assert!(walk.needs_lookup());
    assert_eq!(walk.lookup_path(), "/Trips/2024");
    // "/Trips/2024" is missing: from here on everything is created.
    walk.record_lookup(None);
    assert!(!walk.needs_lookup());
    assert!(!walk.is_done());
    let (name, parent) = walk.create_args();
    assert_eq!(name, "2024");
    assert_eq!(parent, 7);
    walk.record_created(FolderInfo { id: 9, name: "/Trips/2024".to_string() });
    assert!(walk.is_done());
    assert_eq!(walk.current.id, 9);
}
