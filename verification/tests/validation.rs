use endlessopt::common::EndlessOptError;
use endlessopt::validation::{
    is_valid_executable_name, sanitize_process_name, validate_config, validate_file_path,
    validate_pid, validate_process_name,
};

fn message(r: Result<(), EndlessOptError>) -> String {
    match r {
        Ok(()) => String::new(),
        Err(EndlessOptError::InvalidInput(m)) => m,
        Err(e) => panic!("unexpected error {:?}", e),
    }
}

#[test]
fn test_validate_process_name_valid() {
    assert!(validate_process_name("notepad.exe").is_ok());
    assert!(validate_process_name("chrome.exe").is_ok());
    assert!(validate_process_name("MyApp.exe").is_ok());
}

#[test]
fn test_validate_process_name_invalid() {
    assert!(validate_process_name("").is_err());
    assert!(validate_process_name("   ").is_err());
    assert!(validate_process_name("test.exe").is_ok());
    assert!(validate_process_name("test/exe").is_err());
    assert!(validate_process_name("test*.exe").is_err());
}

#[test]
fn test_validate_pid() {
    assert!(validate_pid(1).is_ok());
    assert!(validate_pid(1000).is_ok());
    assert!(validate_pid(0).is_err());
    assert!(validate_pid(10_000_001).is_err());
}

#[test]
fn test_sanitize_process_name() {
    assert_eq!(sanitize_process_name("  Notepad.EXE  "), "notepad.exe");
    assert_eq!(sanitize_process_name("CHROME.EXE"), "chrome.exe");
}

#[test]
fn test_is_valid_executable_name() {
    assert!(is_valid_executable_name("notepad.exe"));
    assert!(is_valid_executable_name("chrome.exe"));
    assert!(!is_valid_executable_name("notepad"));
    assert!(!is_valid_executable_name("chrome.txt"));
}

#[test]
fn test_validate_config() {
    // Valid config
    assert!(validate_config(&["game.exe".to_string()], &["system.exe".to_string()], 30).is_ok());

    // Duplicate in game and blacklist
    assert!(validate_config(&["game.exe".to_string()], &["game.exe".to_string()], 30).is_err());

    // Invalid interval
    assert!(validate_config(&["game.exe".to_string()], &["system.exe".to_string()], 0).is_err());
}

#[test]
fn process_name_error_messages() {
    assert_eq!(message(validate_process_name("\t \u{3000}")), "Process name cannot be empty");
    let long = "a".repeat(261);
    assert_eq!(
        message(validate_process_name(&long)),
        "Process name too long: 261 characters (max 260)"
    );
    assert!(validate_process_name(&"a".repeat(260)).is_ok());
    // Length counts characters, not UTF-8 bytes.
    assert!(validate_process_name(&"é".repeat(200)).is_ok());
    assert!(validate_process_name(&"é".repeat(260)).is_ok());
    assert_eq!(
        message(validate_process_name(&"é".repeat(261))),
        "Process name too long: 261 characters (max 260)"
    );
    assert_eq!(
        message(validate_process_name("a\\b")),
        "Process name cannot contain path separators"
    );
    assert_eq!(
        message(validate_process_name("a<b")),
        "Process name contains invalid characters: a<b"
    );
    for c in ['<', '>', ':', '"', '|', '?', '*'] {
        assert!(validate_process_name(&format!("x{}y", c)).is_err());
    }
}

#[test]
fn pid_error_messages() {
    assert_eq!(message(validate_pid(0)), "PID cannot be 0 (System Idle Process)");
    assert_eq!(
        message(validate_pid(10_000_001)),
        "PID 10000001 is unreasonably large (max ~10,000,000)"
    );
    assert!(validate_pid(10_000_000).is_ok());
    assert!(validate_pid(u32::MAX).is_err());
}

#[test]
fn config_error_order_and_messages() {
    assert_eq!(
        message(validate_config(&["ok.exe".to_string(), "".to_string()], &[], 30)),
        "Process name cannot be empty"
    );
    assert_eq!(
        message(validate_config(&[], &["a/b".to_string()], 30)),
        "Process name cannot contain path separators"
    );
    assert_eq!(
        message(validate_config(&[], &[], 0)),
        "Auto-optimization interval must be at least 1 minute"
    );
    assert_eq!(
        message(validate_config(&[], &[], 1441)),
        "Auto-optimization interval cannot exceed 1440 minutes (24 hours)"
    );
    assert!(validate_config(&[], &[], 1440).is_ok());
    assert_eq!(
        message(validate_config(
            &["a.exe".to_string(), "Game.EXE".to_string()],
            &["game.exe".to_string()],
            30
        )),
        "Process Game.EXE cannot be both a game and blacklisted"
    );
}

#[test]
fn file_path_validation() {
    assert_eq!(message(validate_file_path("  ")), "File path cannot be empty");
    assert!(validate_file_path("/tmp/notes.txt").is_ok());
    assert!(validate_file_path("relative/dir/file").is_ok());
    assert_eq!(
        message(validate_file_path("/tmp/bad|name.txt")),
        "Path contains invalid characters: bad|name.txt"
    );
    // Only the file name is checked.
    assert!(validate_file_path("/tmp/a*b/file.txt").is_ok());
}

#[test]
fn executable_extensions() {
    for name in ["a.exe", "a.com", "a.bat", "a.cmd", "a.scr", "a.msi", "a.app", "a.appx", "A.EXE"] {
        assert!(is_valid_executable_name(name), "{}", name);
    }
    assert!(!is_valid_executable_name("a*.exe"));
    assert!(!is_valid_executable_name("   "));
    assert!(!is_valid_executable_name("exe"));
}

#[test]
fn sanitize_trims_unicode_white_space() {
    assert_eq!(sanitize_process_name("\u{2003}Steam.EXE\n"), "steam.exe");
    assert_eq!(sanitize_process_name("   "), "");
    assert_eq!(sanitize_process_name("ÄPFEL.exe"), "äpfel.exe");
}

#[test]
fn accepted_config_has_valid_parts() {
    let games = vec!["a.exe".to_string(), "b game.exe".to_string()];
    let blacklist = vec!["c.exe".to_string()];
    assert!(validate_config(&games, &blacklist, 60).is_ok());
    for n in games.iter().chain(blacklist.iter()) {
        assert!(validate_process_name(n).is_ok());
    }
    for g in &games {
        assert!(!blacklist.iter().any(|b| b.eq_ignore_ascii_case(g)));
    }
}

#[test]
fn sanitizing_ascii_names_is_idempotent() {
    for name in ["  Notepad.EXE  ", "CHROME.EXE", "\tMix Ed.Exe\n", "", "a"] {
        let once = sanitize_process_name(name);
        assert_eq!(once, name.trim().to_ascii_lowercase());
        assert_eq!(sanitize_process_name(&once), once);
    }
    assert!(is_valid_executable_name("GAME.EXE"));
    assert!(!is_valid_executable_name("GAME.TXT"));
}

#[test]
fn file_path_single_component_is_checked() {
    assert!(validate_file_path("report.txt").is_ok());
    assert_eq!(
        message(validate_file_path("a<b.txt")),
        "Path contains invalid characters: a<b.txt"
    );
    assert_eq!(message(validate_file_path("q?.log")), "Path contains invalid characters: q?.log");
    assert_eq!(message(validate_file_path("  ")), "File path cannot be empty");
}
