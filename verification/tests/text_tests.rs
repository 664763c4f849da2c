use site_monitor::text::{contains_str, is_whitespace, to_chars, trimmed_fields};

#[test]
fn whitespace_agrees_with_std_on_every_char() {
    for u in 0u32..=0x10FFFF {
        if let Some(c) = char::from_u32(u) {
            assert_eq!(is_whitespace(c), c.is_whitespace(), "code point {:#x}", u);
        }
    }
}

#[test]
fn to_chars_keeps_every_character() {
    let s = "héllo, wörld ✓";
    assert_eq!(to_chars(s), s.chars().collect::<Vec<char>>());
    assert_eq!(to_chars(""), Vec::<char>::new());
}

#[test]
fn trimmed_fields_agrees_with_trim_and_split() {
    let cases = [
        "host:8080",
        "  host:8080:user:pass \n",
        "",
        "   ",
        ":",
        "a::b:",
        "\u{3000}x:y\u{2003}",
        "no separator here",
    ];
    for line in cases.iter() {
        let expected: Vec<String> = line.trim().split(':').map(String::from).collect();
        assert_eq!(trimmed_fields(line, ':'), expected, "line {:?}", line);
    }
}

#[test]
fn contains_str_finds_substrings() {
    assert!(contains_str("<h1>Error 1020</h1>", "Error 1020"));
    assert!(!contains_str("<h1>Error 102</h1>", "Error 1020"));
    assert!(contains_str("abc", ""));
    assert!(contains_str("", ""));
    assert!(!contains_str("", "a"));
    assert!(contains_str("Sold Out", "Sold Out"));
    assert!(!contains_str("Sold", "Sold Out"));
    assert!(contains_str("xxÄccess Denied Access Denied", "Access Denied"));
}
