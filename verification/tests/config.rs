use endlessopt::common::PriorityClass;
use endlessopt::config::{config_path_parts, Config, Theme};
use endlessopt::process::gamemode::detect_common_games;
use endlessopt::validation::validate_config;

#[test]
fn default_configuration() {
    let c = Config::default();
    assert!(!c.auto_optimize);
    assert_eq!(c.auto_interval, 30);
    assert!(!c.auto_game_mode);
    assert_eq!(c.game_priority, PriorityClass::High);
    assert_eq!(c.bg_priority, PriorityClass::BelowNormal);
    assert!(c.mem_clean);
    assert!(c.net_optimize);
    assert_eq!(c.game_processes, vec!["minecraft.exe", "steam.exe", "javaw.exe"]);
    assert_eq!(c.blacklisted_processes, vec!["system", "svchost.exe", "explorer.exe"]);
    assert_eq!(c.theme, Theme::Dark);
}

#[test]
fn default_configuration_is_valid() {
    let c = Config::default();
    assert!(validate_config(&c.game_processes, &c.blacklisted_processes, c.auto_interval).is_ok());
    let common = detect_common_games();
    for g in &c.game_processes {
        assert!(common.contains(g));
    }
}

#[test]
fn membership_ignores_ascii_case() {
    let c = Config::default();
    assert!(c.is_process_blacklisted("SYSTEM"));
    assert!(c.is_process_blacklisted("Explorer.exe"));
    assert!(!c.is_process_blacklisted("notepad.exe"));
    assert!(c.is_game_process("Minecraft.EXE"));
    assert!(!c.is_game_process("minecraft"));
}

#[test]
fn theme_darkness() {
    assert!(Theme::Dark.uses_dark_mode(false));
    assert!(!Theme::Light.uses_dark_mode(true));
    assert!(Theme::System.uses_dark_mode(true));
    assert!(!Theme::System.uses_dark_mode(false));
}

#[test]
fn config_path_choice() {
    assert_eq!(
        config_path_parts(Some("C:\\Users\\me".to_string()), Some("/home/me".to_string())),
        vec!["C:\\Users\\me".to_string(), ".endlessopt".to_string(), "config.json".to_string()]
    );
    assert_eq!(
        config_path_parts(None, Some("/home/me".to_string())),
        vec!["/home/me".to_string(), ".endlessopt".to_string(), "config.json".to_string()]
    );
    assert_eq!(config_path_parts(None, None), vec!["config.json".to_string()]);
}

#[test]
fn network_cleanup_follows_setting() {
    let mut c = Config::default();
    assert!(c.network_cleanup_due());
    c.net_optimize = false;
    assert!(!c.network_cleanup_due());
}
