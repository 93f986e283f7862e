use endlessopt::common::{EndlessOptError, PriorityClass};
use endlessopt::memory::optimizer::CleanStats;
use endlessopt::process::gamemode::{detect_common_games, restore_priority, GameMode};
use endlessopt::process::manager::is_protected_process;
use endlessopt::validation::is_valid_executable_name;

#[test]
fn test_game_mode_creation() {
    let games = vec!["test.exe".to_string()];
    let gm = GameMode::new(games, PriorityClass::High, PriorityClass::BelowNormal, true, true);

    assert!(!gm.active);
    assert_eq!(gm.game_processes.len(), 1);
}

#[test]
fn test_is_game_process() {
    let games = vec!["minecraft.exe".to_string()];
    let gm = GameMode::new(games, PriorityClass::High, PriorityClass::BelowNormal, false, false);

    assert!(gm.is_game_process("minecraft.exe"));
    assert!(gm.is_game_process("Minecraft.exe"));
    assert!(!gm.is_game_process("notepad.exe"));
}

#[test]
fn test_detect_common_games() {
    let games = detect_common_games();
    assert!(!games.is_empty());
    assert!(games.iter().any(|g| g.contains("minecraft")));
}

#[test]
fn activation_round() {
    let mut gm = GameMode::new(
        vec!["game.exe".to_string(), "steam.exe".to_string()],
        PriorityClass::High,
        PriorityClass::BelowNormal,
        true,
        false,
    );
    let processes = vec![
        (1, "a.exe".to_string()),
        (2, "GAME.exe".to_string()),
        (3, "b.exe".to_string()),
        (4, "steam.exe".to_string()),
    ];
    let plan = gm.activation_plan(&processes);
    assert_eq!(
        plan,
        vec![
            (2, PriorityClass::High),
            (4, PriorityClass::High),
            (1, PriorityClass::BelowNormal),
            (3, PriorityClass::BelowNormal),
        ]
    );
    assert!(gm.are_games_running(&vec!["x".to_string(), "Steam.exe".to_string()]));
    assert!(!gm.are_games_running(&vec!["x".to_string()]));
    let outcomes = vec![true, false, true, false];
    let result = gm.finish_activation(&processes, &outcomes, Some(CleanStats::new()));
    assert!(gm.active);
    assert_eq!(result.games_detected, vec![(2, "GAME.exe".to_string()), (4, "steam.exe".to_string())]);
    assert_eq!(result.game_count, 2);
    assert_eq!(result.background_processes_optimized, 2);
    assert_eq!(result.failed_count, 2);
    assert_eq!(
        result.summary(),
        "Games detected: 2 | Background optimized: 2 | Memory: Cleaned: 0 | Failed: 0 | Failed: 2"
    );
    assert_eq!(restore_priority(), PriorityClass::Normal);
    let d = gm.finish_deactivation(&vec![true, true, false]);
    assert!(!gm.active);
    assert_eq!(d.processes_restored, 2);
    assert_eq!(d.failed_count, 1);
    assert_eq!(d.summary(), "Processes restored: 2 | Failed: 1");
}

#[test]
fn activation_without_memory_cleaning() {
    let mut gm = GameMode::new(vec![], PriorityClass::High, PriorityClass::Idle, false, false);
    let processes = vec![(9, "x.exe".to_string())];
    assert_eq!(gm.activation_plan(&processes), vec![(9, PriorityClass::Idle)]);
    let r = gm.finish_activation(&processes, &vec![true], None);
    assert_eq!(r.summary(), "Games detected: 0 | Background optimized: 1");
}

#[test]
fn activation_follows_memory_setting() {
    let mut gm = GameMode::new(vec!["g.exe".to_string()], PriorityClass::High, PriorityClass::Idle, true, false);
    assert!(gm.memory_cleaning_due());
    let processes = vec![(1, "g.exe".to_string()), (2, "x.exe".to_string())];
    let failed = gm.complete_activation(
        &processes,
        &vec![true, true],
        Some(Err(EndlessOptError::WindowsApi("cleaning failed".to_string()))),
    );
    assert!(matches!(failed, Err(EndlessOptError::WindowsApi(ref m)) if m == "cleaning failed"));
    assert!(!gm.active);
    let done = gm
        .complete_activation(&processes, &vec![false, true], Some(Ok(CleanStats::new())))
        .unwrap();
    assert!(gm.active);
    assert!(done.memory_cleaned.is_some());
    assert_eq!(done.game_count, 1);
    assert_eq!(done.failed_count, 1);

    let mut quiet = GameMode::new(vec![], PriorityClass::High, PriorityClass::Idle, false, false);
    assert!(!quiet.memory_cleaning_due());
    let r = quiet.complete_activation(&vec![(3, "y.exe".to_string())], &vec![true], None).unwrap();
    assert!(r.memory_cleaned.is_none());
    assert!(quiet.active);
}

#[test]
fn common_games_are_distinct_valid_and_unprotected() {
    let games = detect_common_games();
    assert_eq!(games.len(), 18);
    for (i, g) in games.iter().enumerate() {
        assert_eq!(g, &g.to_lowercase());
        assert!(g.ends_with(".exe"));
        assert!(is_valid_executable_name(g));
        assert!(!is_protected_process(g));
        for h in &games[i + 1..] {
            assert!(!g.eq_ignore_ascii_case(h));
        }
    }
}
