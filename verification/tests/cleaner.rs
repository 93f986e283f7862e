use endlessopt::common::EndlessOptError;
use endlessopt::utils::cleaner::{clean_temp_files, CleanStats, NetworkStats, SystemCleanStats};

#[test]
fn cleaner_test_format_bytes() {
    let stats = SystemCleanStats { total_bytes_freed: 1024 * 1024 * 100, ..Default::default() };

    let summary = stats.summary();
    assert!(summary.contains("100"));
}

#[test]
fn system_summary_exact() {
    let stats = SystemCleanStats {
        directories_cleaned: 3,
        total_files_deleted: 12,
        total_directories_deleted: 1,
        total_bytes_freed: 1536,
        errors: vec!["e".to_string()],
    };
    assert_eq!(stats.summary(), "Cleaned 3 directories | Deleted 12 files | Freed 1.50 KB | Errors: 1");
}

#[test]
fn aggregation_over_directories() {
    let a = CleanStats {
        files_deleted: 2,
        directories_deleted: 1,
        bytes_freed: 100,
        errors: vec!["x".to_string()],
    };
    let b = CleanStats { files_deleted: 3, directories_deleted: 0, bytes_freed: 50, errors: vec![] };
    let err = EndlessOptError::FileSystem {
        path: "/t".to_string(),
        operation: "read_directory".to_string(),
        details: "denied".to_string(),
    };
    let results = vec![("/a".to_string(), Ok(a)), ("/t".to_string(), Err(err)), ("/b".to_string(), Ok(b))];
    let total = clean_temp_files(&results);
    assert_eq!(total.directories_cleaned, 2);
    assert_eq!(total.total_files_deleted, 5);
    assert_eq!(total.total_directories_deleted, 1);
    assert_eq!(total.total_bytes_freed, 150);
    assert_eq!(
        total.errors,
        vec![
            "x".to_string(),
            "Failed to clean /t: File system error: read_directory (path: /t): denied".to_string()
        ]
    );
}

#[test]
fn directory_tally() {
    let mut s = CleanStats::new();
    s.record_deleted_file(10);
    s.record_deleted_file(5);
    s.record_error("Failed to delete a".to_string());
    let mut sub = CleanStats::new();
    sub.record_deleted_file(7);
    sub.record_error("lost".to_string());
    s.absorb_subdirectory(&sub, true);
    s.absorb_subdirectory(&CleanStats::new(), false);
    s.record_subdirectory_failure("/x/y");
    assert_eq!(s.files_deleted, 3);
    assert_eq!(s.bytes_freed, 22);
    assert_eq!(s.directories_deleted, 1);
    assert_eq!(s.errors, vec!["Failed to delete a", "Failed to clean directory: /x/y"]);
}

#[test]
fn network_summary() {
    let ok = NetworkStats { commands_executed: 1, successful: 1, errors: vec![] };
    assert_eq!(ok.summary(), "Executed 1 commands successfully");
    let bad = NetworkStats { commands_executed: 0, successful: 0, errors: vec!["e".to_string()] };
    assert_eq!(bad.summary(), "Executed: 0 | Successful: 0 | Errors: 1");
}

#[test]
fn deletion_failure_line() {
    let mut stats = CleanStats::new();
    stats.record_deletion_failure("C:\\Temp\\a.tmp", "Access is denied. (os error 5)");
    assert_eq!(stats.errors, vec!["Failed to delete C:\\Temp\\a.tmp: Access is denied. (os error 5)".to_string()]);
    assert_eq!(stats.files_deleted, 0);
}

#[test]
fn network_stats_from_flush_outcome() {
    let ok = NetworkStats::from_flush_outcome(Ok(true));
    assert_eq!((ok.commands_executed, ok.successful, ok.errors.len()), (1, 1, 0));
    assert_eq!(ok.summary(), "Executed 1 commands successfully");
    let failed = NetworkStats::from_flush_outcome(Ok(false));
    assert_eq!((failed.commands_executed, failed.successful), (1, 0));
    assert_eq!(failed.errors, vec!["Failed to flush DNS cache".to_string()]);
    assert_eq!(failed.summary(), "Executed: 1 | Successful: 0 | Errors: 1");
    let missing = NetworkStats::from_flush_outcome(Err("program not found".to_string()));
    assert_eq!((missing.commands_executed, missing.successful), (0, 0));
    assert_eq!(missing.errors, vec!["Failed to execute ipconfig: program not found".to_string()]);
}
