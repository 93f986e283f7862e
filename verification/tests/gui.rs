use endlessopt::gui::{
    join_process_list, optimization_report, parse_process_list, plan_monitoring,
    process_row_visible, str_contains, KillConfirmation, Tab,
};
use endlessopt::memory::optimizer::{OptimizationLevel, OptimizationResult};
use endlessopt::process::manager::OptimizeStats;
use endlessopt::utils::cleaner::{NetworkStats, SystemCleanStats};

#[test]
fn settings_list_parsing() {
    assert_eq!(parse_process_list("minecraft.exe, steam.exe"), vec!["minecraft.exe", "steam.exe"]);
    assert_eq!(parse_process_list(" a ,, b ,"), vec!["a", "b"]);
    assert!(parse_process_list("").is_empty());
    assert!(parse_process_list(" , ,").is_empty());
    let text = "x, y ,z,,\u{3000}w";
    let expected: Vec<String> = text
        .split(',')
        .map(|s| s.trim().to_string())
        .filter(|s| !s.is_empty())
        .collect();
    assert_eq!(parse_process_list(text), expected);
}

#[test]
fn settings_list_round_trip() {
    let names = vec!["minecraft.exe".to_string(), "league of legends.exe".to_string(), "a".to_string()];
    let text = join_process_list(&names);
    assert_eq!(text, "minecraft.exe, league of legends.exe, a");
    assert_eq!(parse_process_list(&text), names);
    assert_eq!(join_process_list(&vec![]), "");
}

#[test]
fn monitoring_schedule() {
    assert_eq!(plan_monitoring(Tab::Dashboard, 0, 9), (false, false));
    assert_eq!(plan_monitoring(Tab::Dashboard, 7, 7), (true, false));
    assert_eq!(plan_monitoring(Tab::Processes, 3, 3), (true, false));
    assert_eq!(plan_monitoring(Tab::Processes, 1, 5), (true, true));
    assert_eq!(plan_monitoring(Tab::Processes, 0, 5), (false, false));
    assert_eq!(plan_monitoring(Tab::Processes, 1, 4), (true, false));
}

#[test]
fn process_rows() {
    assert!(process_row_visible("Chrome.exe", "", false, false));
    assert!(process_row_visible("Chrome.exe", "CHR", false, false));
    assert!(!process_row_visible("Chrome.exe", "fire", false, false));
    assert!(!process_row_visible("Chrome.exe", "", true, false));
    assert!(process_row_visible("Chrome.exe", "ome", true, true));
    assert!(str_contains("abc", ""));
    assert!(str_contains("abc", "bc"));
    assert!(!str_contains("abc", "abcd"));
}

#[test]
fn full_optimization_report() {
    let memory = Some(OptimizationResult::from_measurements(OptimizationLevel::Aggressive, 10, 20, 3));
    let processes = Some(OptimizeStats::new());
    let temp: Option<SystemCleanStats> = None;
    let network = Some(NetworkStats { commands_executed: 1, successful: 1, errors: vec![] });
    assert_eq!(
        optimization_report(&memory, &processes, &temp, &network),
        "Memory: Level: Aggressive | Before: 10 MB | After: 20 MB | Gained: 10 MB | Processes: 3\n\
         Processes: Total: 0 | Games: 0 | Background: 0 | Skipped: 0 | Failed: 0\n\
         Network: Executed 1 commands successfully"
    );
    assert_eq!(optimization_report(&None, &None, &None, &None), "");
}

#[test]
fn kill_confirmation_steps() {
    let mut k = KillConfirmation::closed();
    assert!(!k.shown);
    assert_eq!(k.pending(), None);
    assert_eq!(k.confirm(), None);
    k.request(7, "app.exe".to_string());
    assert!(k.shown);
    assert_eq!(k.pending(), Some((7, "app.exe".to_string())));
    k.cancel();
    assert!(!k.shown && k.target.is_none());
    k.request(8, "b.exe".to_string());
    assert_eq!(k.confirm(), Some((8, "b.exe".to_string())));
    assert!(!k.shown && k.target.is_none());
}
