use dockerbeam::text::{
    chars_of, first_field_exec, is_whitespace_exec, join_path_exec, parse_usize_exec,
    second_field_exec, str_eq, str_starts_with, trim_exec, trim_start_char_exec, usize_to_string,
};

#[test]
fn whitespace_agrees_with_std() {
    for u in 0u32..0x110000 {
        if let Some(c) = char::from_u32(u) {
            assert_eq!(is_whitespace_exec(c), c.is_whitespace(), "char {:#x}", u);
        }
    }
}

#[test]
fn trim_agrees_with_std() {
    for s in ["", "   ", " a ", "\u{3000}x y\u{85}\n", "abc", "\t\r\n candidate:1 \u{2029}"] {
        let t: String = trim_exec(&chars_of(s)).into_iter().collect();
        assert_eq!(t, s.trim());
    }
}

#[test]
fn parse_usize_agrees_with_std() {
    let cases = [
        "", "+", "-", "0", "7", "+42", "-1", "007", "1a", "12 ", " 12", "٣",
        "4294967295", "4294967296", "18446744073709551615", "18446744073709551616",
        "99999999999999999999999", "+0",
    ];
    for s in cases {
        assert_eq!(parse_usize_exec(&chars_of(s)), s.parse::<usize>().ok(), "case {:?}", s);
    }
}

#[test]
fn decimal_text_agrees_with_std() {
    for n in [0usize, 1, 9, 10, 99, 100, 12345, usize::MAX] {
        assert_eq!(usize_to_string(n), n.to_string());
        assert_eq!(parse_usize_exec(&chars_of(&usize_to_string(n))), Some(n));
    }
}

#[test]
fn fields_agree_with_split() {
    for s in ["", "a", "a:b", ":b", "a:", "a:b:c", "FILE_SIZE:12", "::"] {
        assert_eq!(first_field_exec(s, ':'), s.split(':').next().unwrap());
        let second = second_field_exec(&chars_of(s), ':').map(|v| v.into_iter().collect::<String>());
        assert_eq!(second.as_deref(), s.split(':').nth(1));
    }
}

#[test]
fn prefixes_and_equality() {
    assert!(str_starts_with("@peer", "@"));
    assert!(!str_starts_with("peer", "@"));
    assert!(str_starts_with("x", ""));
    assert!(str_eq("NULL", "NULL"));
    assert!(!str_eq("NULL", "NUL"));
}

#[test]
fn trim_start_char_agrees_with_std() {
    for s in ["@@peer", "peer", "@", "", "@a@"] {
        assert_eq!(trim_start_char_exec(s, '@'), s.trim_start_matches('@'));
    }
}

#[test]
fn join_path_examples() {
    assert_eq!(join_path_exec("/home/u/.config/beamEngine", "beamfiles"), "/home/u/.config/beamEngine/beamfiles");
    assert_eq!(join_path_exec("/tmp/", "beamfiles/send.tar"), "/tmp/beamfiles/send.tar");
    assert_eq!(join_path_exec("", "beamfiles"), "beamfiles");
}
