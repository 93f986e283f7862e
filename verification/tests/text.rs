use endlessopt::text::{decimal_string, str_eq_ignore_ascii_case, trim_str};

#[test]
fn trim_matches_std_trim() {
    let samples = [
        "", " ", "abc", "  abc  ", "\t\n\u{0B}\u{0C}\r x \r", "\u{85}a\u{A0}", "\u{1680}b\u{2000}",
        "\u{200A}c\u{2028}", "\u{2029}d\u{202F}", "\u{205F}e\u{3000}", "\u{200B}f\u{200B}",
        "a b", "  a  b  ", "é ", "\u{FEFF}g",
    ];
    for s in samples {
        assert_eq!(trim_str(s), s.trim(), "{:?}", s);
    }
}

#[test]
fn ascii_case_comparison_matches_std() {
    let pairs = [
        ("abc", "ABC"),
        ("abc", "abd"),
        ("Straße", "STRAßE"),
        ("straße", "STRASSE"),
        ("É", "é"),
        ("", ""),
        ("a", ""),
        ("Minecraft.exe", "minecraft.EXE"),
        ("[", "{"),
        ("@", "`"),
    ];
    for (a, b) in pairs {
        assert_eq!(str_eq_ignore_ascii_case(a, b), a.eq_ignore_ascii_case(b), "{} {}", a, b);
    }
}

#[test]
fn decimal_matches_to_string() {
    for n in [0u64, 1, 9, 10, 11, 99, 100, 1234567890, u64::MAX] {
        assert_eq!(decimal_string(n), n.to_string());
    }
}
