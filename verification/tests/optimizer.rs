use endlessopt::memory::optimizer::{
    classify_process, is_critical_system_process, pause_due, CleanEvent, CleanStats,
    OptimizationLevel, OptimizationResult, MIN_MEMORY_THRESHOLD_MB,
};

#[test]
fn test_critical_system_process() {
    assert!(is_critical_system_process("system"));
    assert!(is_critical_system_process("svchost.exe"));
    assert!(is_critical_system_process("lsass.exe"));
    assert!(!is_critical_system_process("chrome.exe"));
    assert!(!is_critical_system_process("notepad.exe"));
}

#[test]
fn test_memory_threshold() {
    assert_eq!(MIN_MEMORY_THRESHOLD_MB, 50);
}

#[test]
fn clean_stats_summary() {
    let stats = CleanStats {
        total_processed: 100,
        cleaned: 80,
        failed: 10,
        skipped: 5,
        blacklisted: 3,
        below_threshold: 1,
        critical_skipped: 1,
    };
    assert!(stats.summary().contains("80"));
    assert_eq!(
        stats.summary(),
        "Cleaned: 80 | Failed: 10 | Blacklisted: 3 | Small: 1 | Critical: 1"
    );
    assert_eq!(
        stats.detailed_summary(),
        "Total: 100 | Cleaned: 80 | Failed: 10 | Skipped: 5 | Blacklisted: 3 | Below Threshold: 1 | Critical Skipped: 1"
    );
    let plain = CleanStats::new();
    assert_eq!(plain.summary(), "Cleaned: 0 | Failed: 0");
}

#[test]
fn classification_order() {
    let blacklist = vec!["Chrome.exe".to_string()];
    let mb = 1024 * 1024;
    assert_eq!(classify_process("chrome.exe", 500 * mb, &blacklist), Some(CleanEvent::Blacklisted));
    assert_eq!(classify_process("svchost.exe", 10, &blacklist), Some(CleanEvent::BelowThreshold));
    assert_eq!(classify_process("SvcHost.exe", 100 * mb, &blacklist), Some(CleanEvent::Critical));
    assert_eq!(classify_process("game.exe", 100 * mb, &blacklist), None);
    // the threshold compares memory / 1024 with 50
    assert_eq!(classify_process("game.exe", 50 * 1024 - 1, &blacklist), Some(CleanEvent::BelowThreshold));
    assert_eq!(classify_process("game.exe", 50 * 1024, &blacklist), None);
}

#[test]
fn recording_keeps_total_as_sum() {
    let mut s = CleanStats::new();
    let events = [
        CleanEvent::Vanished,
        CleanEvent::Blacklisted,
        CleanEvent::BelowThreshold,
        CleanEvent::BelowThreshold,
        CleanEvent::Critical,
        CleanEvent::Cleaned,
        CleanEvent::NotOpened,
        CleanEvent::Failed,
    ];
    for e in events {
        s.record(e);
    }
    s.record_attempt(Ok(true));
    s.record_attempt(Ok(false));
    s.record_attempt(Err(()));
    assert_eq!(s.total_processed, 11);
    assert_eq!(s.cleaned, 2);
    assert_eq!(s.skipped, 3);
    assert_eq!(s.failed, 2);
    assert_eq!(s.blacklisted, 1);
    assert_eq!(s.below_threshold, 2);
    assert_eq!(s.critical_skipped, 1);
    assert_eq!(
        s.total_processed,
        s.cleaned + s.failed + s.skipped + s.blacklisted + s.below_threshold + s.critical_skipped
    );
}

#[test]
fn pauses_every_batch() {
    assert!(!pause_due(1));
    assert!(!pause_due(19));
    assert!(pause_due(20));
    assert!(pause_due(40));
}

#[test]
fn optimization_result_texts() {
    let r = OptimizationResult::from_measurements(OptimizationLevel::Aggressive, 1000, 1500, 12);
    assert_eq!(r.memory_gained_mb, 500);
    assert_eq!(
        r.summary(),
        "Level: Aggressive | Before: 1000 MB | After: 1500 MB | Gained: 500 MB | Processes: 12"
    );
    assert_eq!(
        r.user_friendly_summary(),
        "Memory optimization complete! Freed 500 MB of memory. Current available: 1500 MB"
    );
    let r = OptimizationResult::from_measurements(OptimizationLevel::Basic, 2000, 1500, 3);
    assert_eq!(r.memory_gained_mb, 0);
    assert_eq!(
        r.user_friendly_summary(),
        "Memory optimization complete! System already optimized. Current available: 1500 MB"
    );
    assert!(r.summary().starts_with("Level: Basic |"));
    assert_eq!(format!("{:?}", OptimizationLevel::Standard), OptimizationLevel::Standard.name());
}

#[test]
fn pass_totals_count_each_process_once() {
    let events = [
        CleanEvent::Cleaned,
        CleanEvent::Vanished,
        CleanEvent::NotOpened,
        CleanEvent::Blacklisted,
        CleanEvent::Cleaned,
        CleanEvent::BelowThreshold,
        CleanEvent::Critical,
        CleanEvent::Failed,
    ];
    let mut stats = CleanStats::new();
    for e in events {
        stats.record(e);
    }
    assert_eq!(stats.total_processed, 8);
    assert_eq!(stats.cleaned, 2);
    assert_eq!(stats.skipped, 2);
    assert_eq!(stats.blacklisted, 1);
    assert_eq!(stats.below_threshold, 1);
    assert_eq!(stats.critical_skipped, 1);
    assert_eq!(stats.failed, 1);
    assert_eq!(
        stats.total_processed,
        stats.cleaned + stats.failed + stats.skipped + stats.blacklisted + stats.below_threshold
            + stats.critical_skipped
    );
}
