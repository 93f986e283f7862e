use endlessopt::common::{EndlessOptError, PriorityClass};
use endlessopt::memory::optimizer::is_critical_system_process;
use endlessopt::process::manager::{
    check_kill, is_protected_process, kill_outcome, process_name_order, OptimizeStats,
};

#[test]
fn test_priority_class_conversion() {
    assert_eq!(PriorityClass::from_u32(0x00000040), Some(PriorityClass::Idle));
    assert_eq!(PriorityClass::from_u32(0x00000020), Some(PriorityClass::Normal));
    assert_eq!(PriorityClass::from_u32(0xFFFFFFFF), None);
}

#[test]
fn manager_test_priority_as_str() {
    assert_eq!(PriorityClass::High.as_str(), "High");
    assert_eq!(PriorityClass::Normal.as_str(), "Normal");
}

#[test]
fn test_protected_process() {
    assert!(is_protected_process("system"));
    assert!(is_protected_process("csrss.exe"));
    assert!(is_protected_process("explorer.exe"));
    assert!(!is_protected_process("notepad.exe"));
}

#[test]
fn critical_processes_are_protected() {
    for name in [
        "system", "registry", "smss.exe", "csrss.exe", "wininit.exe", "services.exe",
        "lsass.exe", "winlogon.exe", "svchost.exe", "lsm.exe", "dwm.exe", "audiodg.exe",
        "spoolsv.exe", "sched.exe", "systemsettingsbroker.exe", "sihost.exe", "taskhost.exe",
        "runtimebroker.exe", "dashost.exe",
    ] {
        assert!(is_critical_system_process(name));
        assert!(is_protected_process(name));
        assert!(is_protected_process(&name.to_uppercase()));
    }
    assert!(is_protected_process("EndlessOpt.exe"));
    assert!(is_protected_process("MsMpEng.exe"));
}

#[test]
fn kill_decisions() {
    assert!(check_kill(10, Some("notepad.exe")).is_ok());
    match check_kill(4, Some("System")) {
        Err(EndlessOptError::ProtectedProcess(m)) => {
            assert_eq!(m, "Cannot kill protected process: System (PID: 4)")
        }
        other => panic!("{:?}", other),
    }
    match check_kill(99, None) {
        Err(e @ EndlessOptError::Process { .. }) => {
            assert_eq!(e.to_string(), "Process operation failed: kill (PID: 99): Process not found")
        }
        other => panic!("{:?}", other),
    }
}

#[test]
fn optimize_planning() {
    let games = vec!["game.exe".to_string()];
    let blacklist = vec!["skip.exe".to_string()];
    let mut stats = OptimizeStats::new();
    let hi = PriorityClass::High;
    let lo = PriorityClass::BelowNormal;
    assert_eq!(stats.plan_process("GAME.exe", &games, &blacklist, hi, lo), Some(hi));
    assert_eq!(stats.plan_process("Skip.EXE", &games, &blacklist, hi, lo), None);
    assert_eq!(stats.plan_process("other.exe", &games, &blacklist, hi, lo), Some(lo));
    assert_eq!(stats.plan_process("other2.exe", &games, &blacklist, hi, lo), Some(lo));
    stats.record_failure();
    assert_eq!(stats.total_processed, 3);
    assert_eq!(stats.game_processes_optimized, 1);
    assert_eq!(stats.background_processes_optimized, 2);
    assert_eq!(stats.skipped, 1);
    assert_eq!(stats.failed, 1);
    assert_eq!(stats.summary(), "Total: 3 | Games: 1 | Background: 2 | Skipped: 1 | Failed: 1");
}

#[test]
fn kill_outcome_reports_failed_termination() {
    assert!(matches!(kill_outcome(42, "app.exe", true), Ok(true)));
    match kill_outcome(42, "app.exe", false) {
        Err(EndlessOptError::Process { pid, name, operation, details }) => {
            assert_eq!(pid, 42);
            assert_eq!(name.as_deref(), Some("app.exe"));
            assert_eq!(operation, "kill");
            assert_eq!(details, "Termination failed");
        }
        other => panic!("unexpected {:?}", other),
    }
}

#[test]
fn process_name_order_sorts_by_name() {
    let names: Vec<String> = ["svchost.exe", "Explorer.exe", "a.exe", "svchost.exe", "", "ab", "a", "é.exe", "z.exe"]
        .iter()
        .map(|s| s.to_string())
        .collect();
    let order = process_name_order(&names);
    assert_eq!(order, vec![4, 1, 6, 2, 5, 0, 3, 8, 7]);
    let mut by_std: Vec<usize> = (0..names.len()).collect();
    by_std.sort_by(|a, b| names[*a].cmp(&names[*b]));
    assert_eq!(order, by_std);
    assert!(process_name_order(&Vec::new()).is_empty());
}
