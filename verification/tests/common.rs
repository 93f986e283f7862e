use endlessopt::common::{EndlessOptError, PriorityClass};

#[test]
fn common_test_priority_from_u32() {
    assert_eq!(PriorityClass::from_u32(0x00000040), Some(PriorityClass::Idle));
    assert_eq!(PriorityClass::from_u32(0x00000020), Some(PriorityClass::Normal));
    assert_eq!(PriorityClass::from_u32(0xFFFFFFFF), None);
}

#[test]
fn common_test_priority_as_str() {
    assert_eq!(PriorityClass::High.as_str(), "High");
    assert_eq!(PriorityClass::Normal.as_str(), "Normal");
}

#[test]
fn common_test_priority_default() {
    assert_eq!(PriorityClass::default(), PriorityClass::Normal);
}

#[test]
fn common_test_error_display() {
    let err = EndlessOptError::PermissionDenied("Administrator access required".to_string());
    assert!(err.to_string().contains("Permission denied"));
    assert!(err.to_string().contains("Administrator"));

    let err = EndlessOptError::ProtectedProcess("system.exe".to_string());
    assert!(err.to_string().contains("Protected process"));
}

#[test]
fn priority_value_round_trip_for_every_class() {
    let all = [
        PriorityClass::Idle,
        PriorityClass::BelowNormal,
        PriorityClass::Normal,
        PriorityClass::AboveNormal,
        PriorityClass::High,
        PriorityClass::Realtime,
    ];
    for p in all {
        assert_eq!(PriorityClass::from_u32(p.value()), Some(p));
    }
    assert_eq!(PriorityClass::Idle.value(), 0x40);
    assert_eq!(PriorityClass::BelowNormal.value(), 0x4000);
    assert_eq!(PriorityClass::Normal.value(), 0x20);
    assert_eq!(PriorityClass::AboveNormal.value(), 0x8000);
    assert_eq!(PriorityClass::High.value(), 0x80);
    assert_eq!(PriorityClass::Realtime.value(), 0x100);
    assert_eq!(PriorityClass::from_u32(0), None);
    assert_eq!(PriorityClass::from_u32(0x41), None);
}

#[test]
fn priority_names() {
    assert_eq!(PriorityClass::Idle.as_str(), "Idle");
    assert_eq!(PriorityClass::BelowNormal.as_str(), "Below Normal");
    assert_eq!(PriorityClass::AboveNormal.as_str(), "Above Normal");
    assert_eq!(PriorityClass::Realtime.as_str(), "Realtime");
}

#[test]
fn error_messages_are_exact() {
    assert_eq!(
        EndlessOptError::WindowsApi("boom".to_string()).to_string(),
        "Windows API error: boom"
    );
    assert_eq!(
        EndlessOptError::Process {
            pid: 42,
            name: Some("a.exe".to_string()),
            operation: "kill".to_string(),
            details: "denied".to_string(),
        }
        .to_string(),
        "Process operation failed: kill (PID: 42, name: a.exe): denied"
    );
    assert_eq!(
        EndlessOptError::Process {
            pid: 7,
            name: None,
            operation: "set_priority".to_string(),
            details: "x".to_string(),
        }
        .to_string(),
        "Process operation failed: set_priority (PID: 7): x"
    );
    assert_eq!(
        EndlessOptError::FileSystem {
            path: "/tmp/a".to_string(),
            operation: "read_directory".to_string(),
            details: "gone".to_string(),
        }
        .to_string(),
        "File system error: read_directory (path: /tmp/a): gone"
    );
    assert_eq!(EndlessOptError::Config("bad".to_string()).to_string(), "Configuration error: bad");
    assert_eq!(
        EndlessOptError::InvalidInput("no".to_string()).to_string(),
        "Invalid input: no"
    );
}
