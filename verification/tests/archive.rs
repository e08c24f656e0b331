use canvas_replay::archive::{commit_due, is_archive_name, ROWS_PER_TRANSACTION};

#[test]
fn archives_end_in_csv_gzip() {
    assert!(is_archive_name("2023_place_canvas_history-000000000000.csv.gzip"));
    assert!(is_archive_name(".csv.gzip"));
    assert!(is_archive_name("é.csv.gzip"));
}

#[test]
fn other_files_are_not_archives() {
    for name in [
        "",
        "csv.gzip",
        "history.csv",
        "history.csv.gz",
        "history.csv.gzip ",
        "history.csv.gzip.part",
        "history.CSV.GZIP",
        "history_csv.gzip",
        "gzip",
    ] {
        assert!(!is_archive_name(name), "{:?}", name);
    }
}

#[test]
fn a_transaction_holds_a_hundred_thousand_rows() {
    assert_eq!(ROWS_PER_TRANSACTION, 100_000);
}

#[test]
fn a_commit_is_due_after_the_first_row_and_then_every_full_batch() {
    assert!(commit_due(0));
    assert!(!commit_due(1));
    assert!(!commit_due(99_999));
    assert!(commit_due(100_000));
    assert!(!commit_due(100_001));
    assert!(commit_due(200_000));
    assert!(!commit_due(u64::MAX));
}
