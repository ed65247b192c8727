//! Rows and decisions of the service operations: message rows, download
//! lookups, menu deletion and the cron table.

use admin_api::edits::{menu_delete_target, menu_descendants};
use admin_api::files::{download_lookup, download_record, DownloadSelector, FileLookup};
use admin_api::messaging::new_message_row;
use admin_api::scheduler::cron_table;

#[test]
fn message_rows_are_published_with_their_type() {
    let row = new_message_row(4, 7, &Some("Hi".to_string()), "body", Some(2), 1);
    assert_eq!(row.tenant_id, 4);
    assert_eq!(row.sender_id, 7);
    assert_eq!(row.created_by, 7);
    assert_eq!(row.title.as_deref(), Some("Hi"));
    assert_eq!(row.content, "body");
    assert_eq!(row.category_id, Some(2));
    assert_eq!(row.status, "PUBLISHED");
    assert_eq!(row.kind, "PRIVATE");
    assert_eq!(new_message_row(4, 7, &None, "", None, 2).kind, "GROUP");
    assert_eq!(new_message_row(4, 7, &None, "", None, 0).kind, "NOTIFICATION");
    assert_eq!(new_message_row(4, 7, &None, "", None, 9).kind, "NOTIFICATION");
}

#[test]
fn download_selectors_pick_the_lookup() {
    assert!(matches!(download_lookup(&Some(DownloadSelector::FileId(3))), Ok(FileLookup::ById(3))));
    match download_lookup(&Some(DownloadSelector::StorageObject(Some("img".into()), None))) {
        Ok(FileLookup::ByObject(b, o)) => assert_eq!((b.as_str(), o.as_str()), ("img", "")),
        _ => panic!("expected an object lookup"),
    }
    let e = download_lookup(&Some(DownloadSelector::DownloadUrl("http://x".into()))).err().unwrap();
    assert_eq!((e.reason.as_str(), e.message.as_str()), ("UNIMPLEMENTED", "remote url download not wired"));
    let e = download_lookup(&None).err().unwrap();
    assert_eq!((e.reason.as_str(), e.message.as_str()), ("NOT_FOUND", "file not found"));
    assert_eq!(download_record(Some(5)).ok(), Some(5));
    let e = download_record::<u32>(None).err().unwrap();
    assert_eq!(e.reason, "NOT_FOUND");
}

#[test]
fn menu_deletion_takes_the_whole_subtree() {
    let rows = vec![(1, None), (3, Some(2)), (2, Some(1)), (4, Some(1)), (5, Some(9)), (6, Some(3))];
    let mut all = menu_descendants(1, &rows);
    all.sort();
    assert_eq!(all, vec![2, 3, 4, 6]);
    assert_eq!(menu_descendants(2, &vec![(2, Some(1)), (3, Some(2))]), vec![3]);
    assert_eq!(menu_descendants(6, &rows), Vec::<u32>::new());
    // A cycle through the menu itself does not collect it.
    let mut cyc = menu_descendants(1, &vec![(1, Some(2)), (2, Some(1))]);
    cyc.sort();
    assert_eq!(cyc, vec![2]);
    assert_eq!(menu_delete_target(Some(8)).ok(), Some(8));
    let e = menu_delete_target(None).err().unwrap();
    assert_eq!((e.reason.as_str(), e.message.as_str()), ("BAD_REQUEST", "query_by required"));
}

#[test]
fn cron_jobs_registered() {
    assert_eq!(
        cron_table(),
        vec![
            ("tenant_expiry_scan", "0 * * * *"),
            ("audit_log_archive", "30 3 * * *"),
            ("sys_tasks_periodic", "* * * * *"),
        ]
    );
}

#[test]
fn timestamp_roundtrip_is_identity() {
    // 2024-03-01T12:30:00Z as a stored instant.
    let naive = (1_709_296_200i64, 0u32);
    let ts = admin_api::instants::naive_to_ts(naive).unwrap();
    assert_eq!(admin_api::instants::ts_to_naive(ts.0, ts.1).unwrap(), naive);
}

#[test]
fn wire_timestamps_become_stored_instants() {
    assert_eq!(admin_api::instants::ts_to_naive(10, -5), Some((10, 0)));
    assert_eq!(admin_api::instants::ts_to_naive(59, 1_500_000_000), Some((59, 1_500_000_000)));
    assert_eq!(admin_api::instants::ts_to_naive(58, 1_500_000_000), None);
    assert_eq!(admin_api::instants::ts_to_naive(i64::MAX, 0), None);
    let last = admin_api::instants::LAST_UTC_SECOND;
    let first = admin_api::instants::FIRST_UTC_SECOND;
    assert_eq!(admin_api::instants::ts_to_naive(last, 999_999_999), Some((last, 999_999_999)));
    assert_eq!(admin_api::instants::ts_to_naive(last + 1, 0), None);
    assert_eq!(admin_api::instants::ts_to_naive(first, 0), Some((first, 0)));
    assert_eq!(admin_api::instants::ts_to_naive(first - 1, 0), None);
    assert_eq!(admin_api::instants::ts_to_naive(59, 2_000_000_000i64 as i32), None);
    assert_eq!(admin_api::instants::naive_to_ts((7, 3)), Some((7, 3)));
}
