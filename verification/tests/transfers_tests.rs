use loom::files_panel::{FilesKind, FilesUi};
use loom::transfers::{
    check_download, open_after_notice, safe_cache_name, short_failure, queued_download, queued_upload, transfer_status_parts, upload_label,
    Destination, JobEnd, JobReply, StatusPart, TransferDir, TransferProgress, TransferStatus, Transfers,
};

fn progress(id: u128, done: u64, total: Option<u64>) -> TransferProgress {
    TransferProgress { id, done, total, files_done: None, files_total: None, overall_done: None, overall_total: None }
}

#[test]
fn rows_are_kept_per_pane_newest_first() {
    let mut t = Transfers::new();
    assert!(t.insert(1, queued_download(10, String::from("a.txt"), false, false, 100)));
    assert!(t.insert(2, queued_download(11, String::from("b.txt"), false, false, 50)));
    assert!(t.insert(1, queued_upload(12, String::from("c"), String::from("/tmp/c"), true)));
    assert!(!t.insert(2, queued_download(10, String::from("dup"), false, false, 1)));
    let p1 = t.pane_transfers(1);
    assert_eq!(p1.iter().map(|r| r.id).collect::<Vec<_>>(), vec![12, 10]);
    assert_eq!(p1[0].direction, TransferDir::Upload);
    let p2 = t.current_transfers(Some(2));
    assert_eq!(p2.len(), 1);
    assert!(t.current_transfers(None).is_empty());
    assert!(t.has_transfer(11));
    assert!(!t.has_transfer(99));
}

#[test]
fn progress_then_finish_records_time_and_bytes() {
    let mut t = Transfers::new();
    t.insert(1, queued_download(10, String::from("a.txt"), false, true, 100));
    t.set_download_destination(10, String::from("/tmp/a.txt"));
    t.update_transfer_progress(progress(10, 40, None), 1_000);
    let row = t.find_transfer(10).unwrap();
    assert_eq!(row.started_ms, Some(1_000));
    assert_eq!(row.bytes_done, 40);
    assert_eq!(row.bytes_total, Some(100));
    assert!(matches!(row.status, TransferStatus::Running { done: 40, total: Some(100), .. }));
    t.update_transfer_progress(progress(10, 90, Some(100)), 2_000);
    assert_eq!(t.find_transfer(10).unwrap().started_ms, Some(1_000));
    let open = t.finish_transfer(10, None, Some(100), 3_500);
    assert_eq!(open, Some(String::from("/tmp/a.txt")));
    let row = t.find_transfer(10).unwrap();
    assert_eq!(row.elapsed_ms, Some(2_500));
    assert!(matches!(row.status, TransferStatus::Done { files: None }));
    assert_eq!(t.finish_transfer(99, None, None, 0), None);
}

#[test]
fn folder_progress_keeps_file_counts() {
    let mut t = Transfers::new();
    t.insert(1, queued_download(10, String::from("dir"), true, false, 0));
    let p = TransferProgress {
        id: 10,
        done: 5,
        total: Some(9),
        files_done: Some(1),
        files_total: Some(4),
        overall_done: Some(500),
        overall_total: Some(2_000),
    };
    t.update_transfer_progress(p, 10);
    t.update_transfer_progress(progress(10, 7, None), 20);
    let row = t.find_transfer(10).unwrap();
    assert!(matches!(row.status, TransferStatus::Running { files_done: Some(1), files_total: Some(4), .. }));
    assert_eq!(row.bytes_done, 500);
    assert_eq!(row.bytes_total, Some(2_000));
    t.finish_transfer(10, None, None, 30);
    assert!(matches!(t.find_transfer(10).unwrap().status, TransferStatus::Done { files: Some(1) }));
}

#[test]
fn fail_remove_clear_and_prune() {
    let mut t = Transfers::new();
    t.insert(1, queued_download(10, String::from("a"), false, false, 1));
    t.insert(1, queued_download(11, String::from("b"), false, false, 1));
    t.insert(2, queued_download(12, String::from("c"), false, false, 1));
    t.insert(3, queued_download(13, String::from("d"), false, false, 1));
    t.fail_transfer(10, String::from("boom"), 5);
    let row = t.find_transfer(10).unwrap();
    assert!(matches!(row.status, TransferStatus::Failed(ref m) if m == "boom"));
    assert_eq!(row.elapsed_ms, None);
    t.remove_transfer(10);
    assert!(t.find_transfer(10).is_none());
    assert_eq!(t.clear_transfers(Some(1)), vec![11]);
    assert!(t.pane_transfers(1).is_empty());
    assert!(t.clear_transfers(None).is_empty());
    assert_eq!(t.prune_closed_pane_transfers(&[3]), vec![12]);
    assert_eq!(t.pane_transfers(3).len(), 1);
}

#[test]
fn status_parts_follow_the_row_state() {
    let queued = queued_download(1, String::from("a"), false, false, 2048);
    let l = transfer_status_parts(&queued, 0);
    assert!(matches!(l.head.as_slice(), [StatusPart::Queued, StatusPart::Size(2048)]));
    assert!(l.size.is_none() && l.tail.is_empty());

    let mut t = Transfers::new();
    t.insert(1, queued_download(2, String::from("b"), false, false, 1000));
    t.update_transfer_progress(progress(2, 250, Some(1000)), 100);
    let row = t.find_transfer(2).unwrap();
    let l = transfer_status_parts(&row, 1_100);
    assert!(matches!(l.head.as_slice(), [StatusPart::Percent { done: 250, total: 1000 }]));
    assert!(matches!(l.size, Some(StatusPart::SizePair { done: 250, total: 1000 })));
    assert!(matches!(
        l.tail.as_slice(),
        [StatusPart::Rate { bytes: 250, elapsed_ms: 1000 }, StatusPart::Elapsed(1000)]
    ));

    t.fail_transfer(2, String::from("Transfer CANCELLED by user"), 1_200);
    let l = transfer_status_parts(&t.find_transfer(2).unwrap(), 1_300);
    assert!(matches!(l.head.as_slice(), [StatusPart::Cancelled]));
    assert!(matches!(l.tail.as_slice(), [StatusPart::Elapsed(1100)]));

    let mut t = Transfers::new();
    t.insert(1, queued_download(3, String::from("dir"), true, false, 0));
    let mut p = progress(3, 0, None);
    p.files_total = Some(12);
    t.update_transfer_progress(p, 0);
    let l = transfer_status_parts(&t.find_transfer(3).unwrap(), 0);
    assert!(matches!(l.head.as_slice(), [StatusPart::ScanningCount(12)]));

    t.fail_transfer(3, String::from("disk full"), 0);
    let l = transfer_status_parts(&t.find_transfer(3).unwrap(), 0);
    assert!(matches!(l.head.as_slice(), [StatusPart::Failed(ref m)] if m == "disk full"));
}

#[test]
fn download_checks_and_notices() {
    assert_eq!(check_download(false, false, false), Some("No SSH session"));
    assert_eq!(check_download(true, true, true), Some("Cannot open a remote folder this way"));
    assert_eq!(check_download(true, true, false), None);
    assert_eq!(check_download(true, false, true), None);
    assert_eq!(open_after_notice("a.pdf"), "Downloading “a.pdf” — opens when ready");
    assert_eq!(upload_label("/home/ann/report.txt"), "report.txt");
}

#[test]
fn destinations_and_job_replies() {
    let mut t = Transfers::new();
    t.insert(1, queued_download(10, String::from("a"), false, true, 5));
    t.insert(1, queued_download(11, String::from("b"), false, false, 5));
    t.insert(1, queued_download(12, String::from("c"), false, false, 5));
    t.insert(1, queued_upload(13, String::from("d"), String::from("/tmp/d"), true));
    t.download_destination(10, Destination::Chosen(String::from("/tmp/cache/a")), 0);
    assert_eq!(t.find_transfer(10).unwrap().local_path.as_deref(), Some("/tmp/cache/a"));
    t.download_destination(11, Destination::Dismissed, 0);
    assert!(matches!(&t.find_transfer(11).unwrap().status, TransferStatus::Failed(m) if m == "Cancelled"));
    t.download_destination(12, Destination::TempFolderFailed(String::from("denied")), 0);
    assert!(matches!(&t.find_transfer(12).unwrap().status, TransferStatus::Failed(m) if m == "Temp folder: denied"));

    match t.job_reply(10, false, false, JobReply::Done { files: 3, bytes: 5 }, 10) {
        JobEnd::Finished { open, reload } => {
            assert_eq!(open.as_deref(), Some("/tmp/cache/a"));
            assert!(!reload);
        }
        other => panic!("unexpected {other:?}"),
    }
    assert!(matches!(t.find_transfer(10).unwrap().status, TransferStatus::Done { files: None }));
    match t.job_reply(13, true, true, JobReply::Done { files: 3, bytes: 9 }, 10) {
        JobEnd::Finished { open, reload } => {
            assert_eq!(open, None);
            assert!(reload);
        }
        other => panic!("unexpected {other:?}"),
    }
    assert!(matches!(t.find_transfer(13).unwrap().status, TransferStatus::Done { files: Some(3) }));
    assert!(matches!(t.job_reply(11, false, false, JobReply::Failed(String::from("upload cancelled by user")), 1), JobEnd::Removed));
    assert!(!t.has_transfer(11));
    assert!(matches!(t.job_reply(11, false, false, JobReply::Dropped, 1), JobEnd::Gone));
    assert!(matches!(t.job_reply(12, false, false, JobReply::Dropped, 1), JobEnd::Failed));
    assert!(matches!(&t.find_transfer(12).unwrap().status, TransferStatus::Failed(m) if m == "Transfer cancelled"));
    assert!(matches!(t.job_reply(12, false, false, JobReply::Failed(String::from("disk full")), 1), JobEnd::Failed));
    assert!(matches!(&t.find_transfer(12).unwrap().status, TransferStatus::Failed(m) if m == "disk full"));
}

#[test]
fn uploads_need_an_open_remote_folder() {
    let mut ui = FilesUi::new();
    assert_eq!(ui.upload_target(true), None);
    assert_eq!(ui.error, None);
    ui.kind = Some(FilesKind::Sftp);
    assert_eq!(ui.upload_target(true), None);
    assert_eq!(ui.error.as_deref(), Some("Open a remote folder first"));
    ui.cwd = Some(String::from("/srv"));
    assert_eq!(ui.upload_target(false), None);
    assert_eq!(ui.error.as_deref(), Some("No SSH session"));
    assert_eq!(ui.upload_target(true).as_deref(), Some("/srv"));
}

#[test]
fn cache_names_are_made_safe() {
    assert_eq!(safe_cache_name("a/b\\c:d\0e.txt"), "a_b_c_d_e.txt");
    assert_eq!(safe_cache_name(""), "download");
    assert_eq!(safe_cache_name("report.pdf"), "report.pdf");
}

#[test]
fn upload_labels_and_failure_text() {
    assert_eq!(upload_label("/home/ann/report.pdf"), "report.pdf");
    assert_eq!(upload_label("notes"), "notes");
    assert_eq!(short_failure("disk full"), "disk full");
    assert_eq!(short_failure("0123456789012345678901234567"), "0123456789012345678901234567");
    assert_eq!(short_failure("0123456789012345678901234567X"), "0123456789012345678901234567…");
    // 27 ASCII bytes, then a two-byte letter that would cross the limit.
    assert_eq!(short_failure("012345678901234567890123456éé"), "012345678901234567890123456…");
}
