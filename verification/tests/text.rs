use freezer_rs::text::{
    chars_of, decimal_exec, first_token_exec, lines_exec, parse_usize_exec, split_once_exec,
    string_of, trim_exec, trim_start_matches_exec, contains_exec, find_exec,
};

fn s(v: &[char]) -> String {
    string_of(v)
}

fn lines(t: &str) -> Vec<String> {
    lines_exec(&chars_of(t)).iter().map(|l| s(l)).collect()
}

#[test]
fn lines_split_at_lf_and_crlf() {
    assert_eq!(lines("foo\r\nbar\n\nbaz\r"), vec!["foo", "bar", "", "baz\r"]);
    assert_eq!(lines("a\n"), vec!["a"]);
    assert_eq!(lines(""), Vec::<String>::new());
    assert_eq!(lines("\n"), vec![""]);
    assert_eq!(lines("a\n\r"), vec!["a", "\r"]);
}

#[test]
fn lines_agree_with_std() {
    for t in ["x\ny\r\nz", "\r\n\r\n", "one", "a\rb\nc", "\n\n\n"] {
        let ours = lines(t);
        let theirs: Vec<String> = t.lines().map(|l| l.to_string()).collect();
        assert_eq!(ours, theirs, "text {:?}", t);
    }
}

#[test]
fn trim_removes_unicode_whitespace() {
    assert_eq!(s(&trim_exec(&chars_of(" \t com.a \u{3000}\n"))), "com.a");
    assert_eq!(s(&trim_exec(&chars_of("   "))), "");
    assert_eq!(s(&trim_exec(&chars_of("a b"))), "a b");
}

#[test]
fn trim_start_matches_removes_every_copy() {
    let p = chars_of("ab");
    assert_eq!(s(&trim_start_matches_exec(&chars_of("ababx"), &p)), "x");
    assert_eq!(s(&trim_start_matches_exec(&chars_of("xab"), &p)), "xab");
}

#[test]
fn first_token_is_first_word() {
    assert_eq!(s(&first_token_exec(&chars_of("  10123 gids:1"))), "10123");
    assert_eq!(s(&first_token_exec(&chars_of("   "))), "");
    assert_eq!(s(&first_token_exec(&chars_of("7"))), "7");
}

#[test]
fn split_once_at_first_occurrence() {
    let r = split_once_exec(&chars_of("package:a uid:1 uid:2"), &chars_of(" uid:")).unwrap();
    assert_eq!(s(&r.0), "package:a");
    assert_eq!(s(&r.1), "1 uid:2");
    assert!(split_once_exec(&chars_of("package:a"), &chars_of(" uid:")).is_none());
}

#[test]
fn find_and_contains() {
    assert_eq!(find_exec(&chars_of("visible=false visible=true"), &chars_of("visible=true")), Some(14));
    assert!(contains_exec(&chars_of("xx mActivityType=home yy"), &chars_of("mActivityType=home")));
    assert!(!contains_exec(&chars_of("visible"), &chars_of("visible=true")));
}

#[test]
fn parse_usize_like_from_str() {
    for t in ["0", "+5", "10123", "", "+", "-1", "12a", " 1", "18446744073709551615", "18446744073709551616", "007"] {
        assert_eq!(parse_usize_exec(&chars_of(t)), t.parse::<usize>().ok(), "text {:?}", t);
    }
}

#[test]
fn decimal_form() {
    assert_eq!(s(&decimal_exec(0)), "0");
    assert_eq!(s(&decimal_exec(10123)), "10123");
    assert_eq!(s(&decimal_exec(usize::MAX)), usize::MAX.to_string());
}

#[test]
fn decimal_reads_back() {
    for n in [0usize, 9, 10, 999, 10123, usize::MAX] {
        assert_eq!(parse_usize_exec(&decimal_exec(n)), Some(n));
    }
}
