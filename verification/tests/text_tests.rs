use cast_away::text::{ends_with, format_decimal, parse_usize, replace_all, same_text};

#[test]
fn parse_usize_reads_plain_digits() {
    assert_eq!(parse_usize("8080"), Some(8080));
    assert_eq!(parse_usize("0"), Some(0));
    assert_eq!(parse_usize("007"), Some(7));
}

#[test]
fn parse_usize_takes_one_leading_plus() {
    assert_eq!(parse_usize("+42"), Some(42));
    assert_eq!(parse_usize("++42"), None);
    assert_eq!(parse_usize("+"), None);
}

#[test]
fn parse_usize_refuses_what_from_str_refuses() {
    for s in ["", "-1", "-0", "12a", " 1", "1 ", "٣", "0x10"] {
        assert_eq!(parse_usize(s), None, "{s:?}");
        assert!(s.parse::<usize>().is_err(), "{s:?}");
    }
}

#[test]
fn parse_usize_agrees_with_from_str() {
    for s in ["1", "+1", "65535", "000000000000000000001", "4294967296"] {
        assert_eq!(parse_usize(s), s.parse::<usize>().ok(), "{s:?}");
    }
}

#[test]
fn parse_usize_checks_the_upper_bound() {
    let max = usize::MAX.to_string();
    assert_eq!(parse_usize(&max), Some(usize::MAX));
    let over = format!("{}0", max);
    assert_eq!(parse_usize(&over), None);
    let just_over = (usize::MAX as u128 + 1).to_string();
    assert_eq!(parse_usize(&just_over), None);
}

#[test]
fn format_decimal_matches_to_string() {
    for n in [0usize, 7, 9, 10, 99, 100, 8080, 65535, usize::MAX] {
        assert_eq!(format_decimal(n), n.to_string());
    }
}

#[test]
fn decimal_text_parses_back() {
    for n in [0usize, 1, 12, 3000, 5353, usize::MAX - 1, usize::MAX] {
        assert_eq!(parse_usize(&format_decimal(n)), Some(n));
    }
}

#[test]
fn ends_with_compares_the_tail() {
    assert!(ends_with("manifest.mpd", ".mpd"));
    assert!(ends_with(".mpd", ".mpd"));
    assert!(!ends_with("mpd", ".mpd"));
    assert!(!ends_with("manifest.mpd.tmp", ".mpd"));
    assert!(ends_with("anything", ""));
}

#[test]
fn same_text_is_equality() {
    assert!(same_text("--kiosk", "--kiosk"));
    assert!(!same_text("--kiosk", "--kiosk "));
    assert!(!same_text("--kiosk", "--Kiosk"));
    assert!(same_text("", ""));
}

#[test]
fn replace_all_agrees_with_str_replace() {
    let cases = [
        ("a<<b<<c", "<<", "/"),
        ("<<<", "<<", "/"),
        ("<<<<", "<<", "\\"),
        ("no pattern", "<<", "/"),
        ("C:\\Users\\me\\film.mkv", "\\", "/"),
        ("C:C:x", "C:", ""),
        ("aaaa", "aa", "aaa"),
        ("é<<ü", "<<", "/"),
        ("", "<<", "/"),
        ("ab", "", "-"),
        ("", "", "-"),
        ("é", "", "<>"),
    ];
    for (s, p, r) in cases {
        assert_eq!(replace_all(s, p, r), s.replace(p, r), "{s:?} {p:?} {r:?}");
    }
}
