use endlessopt::memory::monitor::MemoryStatus;

fn reference(bytes: u64) -> String {
    const KB: u64 = 1024;
    const MB: u64 = 1024 * KB;
    const GB: u64 = 1024 * MB;
    if bytes >= GB {
        format!("{:.2} GB", bytes as f64 / GB as f64)
    } else if bytes >= MB {
        format!("{:.2} MB", bytes as f64 / MB as f64)
    } else if bytes >= KB {
        format!("{:.2} KB", bytes as f64 / KB as f64)
    } else {
        format!("{} B", bytes)
    }
}

#[test]
fn monitor_test_format_bytes() {
    assert_eq!(MemoryStatus::format_bytes(500), "500 B");
    assert!(MemoryStatus::format_bytes(2048).contains("KB"));
    assert!(MemoryStatus::format_bytes(1024 * 1024 * 2).contains("MB"));
    assert!(MemoryStatus::format_bytes(1024 * 1024 * 1024 * 2).contains("GB"));
}

#[test]
fn format_bytes_exact_values() {
    assert_eq!(MemoryStatus::format_bytes(0), "0 B");
    assert_eq!(MemoryStatus::format_bytes(1023), "1023 B");
    assert_eq!(MemoryStatus::format_bytes(1024), "1.00 KB");
    assert_eq!(MemoryStatus::format_bytes(1536), "1.50 KB");
    assert_eq!(MemoryStatus::format_bytes(1024 * 1024 * 2), "2.00 MB");
    assert_eq!(MemoryStatus::format_bytes(1048575), "1024.00 KB");
}

#[test]
fn format_bytes_agrees_with_float_formatting() {
    let mut samples: Vec<u64> = vec![
        1024, 1025, 1152, 1153, 1151, 1280, 1408, 2047, 5000, 65535, 1048575, 1048576,
        1048576 + 5242, 1048576 + 5243, 1073741823, 1073741824, 1073741824 + 5368709,
        1073741824 + 5368710, (1 << 53) - 1, 1 << 53, (1 << 53) + 1, (1 << 53) + 3,
        (1 << 54) + 2, (1 << 54) + 6, u64::MAX, u64::MAX - 1024, u64::MAX / 3,
        12345678901234567, 9007199254740993, 18014398509481985,
    ];
    let mut x: u64 = 0x9E37_79B9_7F4A_7C15;
    for _ in 0..5000 {
        x ^= x << 13;
        x ^= x >> 7;
        x ^= x << 17;
        samples.push(x);
        samples.push(x >> (x % 64));
        samples.push((x % 4096) * 128);
    }
    for k in 1..20u64 {
        // exact ties at the second decimal, in every unit
        samples.push(1024 * k + 128 * (2 * k + 1) % 1024);
        samples.push(1048576 * k + 131072 * (k % 8));
    }
    for b in samples {
        assert_eq!(MemoryStatus::format_bytes(b), reference(b), "bytes = {}", b);
    }
}

#[test]
fn memory_getters() {
    let status = MemoryStatus {
        memory_load: 42,
        total_phys: 8000,
        avail_phys: 3000,
        total_page_file: 0,
        avail_page_file: 0,
        total_virtual: 100,
        avail_virtual: 50,
        avail_extended_virtual: 0,
    };
    assert_eq!(status.get_available_memory(), 3000);
    assert_eq!(status.get_total_memory(), 8000);
    assert_eq!(status.get_memory_load_percent(), 42);
    assert_eq!(status.get_used_memory(), 5000);
}
