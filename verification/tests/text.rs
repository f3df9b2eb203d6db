use presenterm::text::{chars_of, decimal, ilog10, replace_all, split_lines, strip_from, trim};

fn chars(s: &str) -> Vec<char> {
    s.chars().collect()
}

#[test]
fn decimal_writes_every_digit() {
    assert_eq!(decimal(0), "0");
    assert_eq!(decimal(9), "9");
    assert_eq!(decimal(10), "10");
    assert_eq!(decimal(1234567890), "1234567890");
    assert_eq!(decimal(usize::MAX), usize::MAX.to_string());
}

#[test]
fn logarithm_rounds_down() {
    assert_eq!(ilog10(0), 0);
    assert_eq!(ilog10(1), 0);
    assert_eq!(ilog10(9), 0);
    assert_eq!(ilog10(10), 1);
    assert_eq!(ilog10(99), 1);
    assert_eq!(ilog10(100), 2);
    assert_eq!(ilog10(12345), 12345usize.ilog10() as usize);
}

#[test]
fn lines_follow_line_feeds() {
    assert_eq!(split_lines(""), Vec::<String>::new());
    assert_eq!(split_lines("a"), vec!["a"]);
    assert_eq!(split_lines("a\n"), vec!["a"]);
    assert_eq!(split_lines("a\r\nb\r"), vec!["a", "b\r"]);
    assert_eq!(split_lines("\n\nb"), vec!["", "", "b"]);
    let text = "one\ntwo\r\n\r\nthree\r";
    let expected: Vec<String> = text.lines().map(|line| line.to_string()).collect();
    assert_eq!(split_lines(text), expected);
}

#[test]
fn trim_drops_outer_white_space() {
    let text = chars(" \t hello world\u{a0}\n");
    let (start, end) = trim(&text);
    let kept: String = text[start..end].iter().collect();
    assert_eq!(kept, "hello world");
    let blank = chars(" \n ");
    let (start, end) = trim(&blank);
    assert_eq!(start, end);
}

#[test]
fn replace_takes_occurrences_left_to_right() {
    let out: String = replace_all(&chars("aaa-{x}-{x}"), &chars("{x}"), &chars("12")).iter().collect();
    assert_eq!(out, "aaa-12-12");
    let out: String = replace_all(&chars("aaaa"), &chars("aa"), &chars("b")).iter().collect();
    assert_eq!(out, "aaaa".replace("aa", "b"));
    let out: String = replace_all(&chars("abc"), &chars("abcd"), &chars("x")).iter().collect();
    assert_eq!(out, "abc");
    let out: String = replace_all(&chars("abc"), &chars(""), &chars("x")).iter().collect();
    assert_eq!(out, "abc");
}

#[test]
fn strip_cuts_at_the_first_marker() {
    assert_eq!(strip_from(&chars("bad value at line 1 column 3"), &chars(" at line")), "bad value");
    assert_eq!(strip_from(&chars("no marker"), &chars(" at line")), "no marker");
    assert_eq!(strip_from(&chars(" at line at line"), &chars(" at line")), "");
}

#[test]
fn characters_round_trip() {
    assert_eq!(chars_of("héllo"), chars("héllo"));
}
