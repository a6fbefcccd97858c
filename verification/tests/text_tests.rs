use code_assistant::text::{
    dec_chars, join_nl, replace_chars, sort_strings, split_lines, string_from_chars, to_chars,
    trim_chars,
};

fn chars(s: &str) -> Vec<char> {
    s.chars().collect()
}

fn s(v: Vec<char>) -> String {
    v.into_iter().collect()
}

#[test]
fn replace_is_global_and_non_overlapping() {
    let r = replace_chars(&chars("xaaaay"), &chars("aa"), &chars("b"));
    assert_eq!(s(r), "xbby");
    let r2 = replace_chars(&chars("abab"), &chars("ab"), &chars("ba"));
    assert_eq!(s(r2), "baba");
    let r3 = replace_chars(&chars("abc"), &chars("z"), &chars("q"));
    assert_eq!(s(r3), "abc");
}

#[test]
fn replace_with_empty_pattern_interleaves() {
    let r = replace_chars(&chars("abc"), &chars(""), &chars("-"));
    assert_eq!(s(r), "-a-b-c-");
    let r2 = replace_chars(&chars(""), &chars(""), &chars("-"));
    assert_eq!(s(r2), "-");
}

#[test]
fn lines_split_like_the_standard_library() {
    let got: Vec<String> = split_lines(&chars("a\nb\r\nc\n")).into_iter().map(s).collect();
    assert_eq!(got, vec!["a", "b", "c"]);
    let empty: Vec<Vec<char>> = split_lines(&chars(""));
    assert!(empty.is_empty());
    let blank: Vec<String> = split_lines(&chars("\n\n")).into_iter().map(s).collect();
    assert_eq!(blank, vec!["", ""]);
}

#[test]
fn join_inserts_line_feeds_between_pieces() {
    let joined = join_nl(&vec![chars("a"), chars(""), chars("c")]);
    assert_eq!(s(joined), "a\n\nc");
    let one = join_nl(&vec![chars("solo")]);
    assert_eq!(s(one), "solo");
    let none = join_nl(&Vec::new());
    assert_eq!(s(none), "");
}

#[test]
fn decimal_rendering() {
    assert_eq!(s(dec_chars(0)), "0");
    assert_eq!(s(dec_chars(7)), "7");
    assert_eq!(s(dec_chars(105)), "105");
    assert_eq!(s(dec_chars(u64::MAX)), "18446744073709551615");
}

#[test]
fn sorting_is_lexicographic_by_code_point() {
    let mut v = vec![chars("pear"), chars("Apple"), chars("apple"), chars("app")];
    sort_strings(&mut v);
    let got: Vec<String> = v.into_iter().map(s).collect();
    assert_eq!(got, vec!["Apple", "app", "apple", "pear"]);
}

#[test]
fn trim_strips_surrounding_whitespace() {
    assert_eq!(s(trim_chars(&chars("  hi \t"))), "hi");
    assert_eq!(s(trim_chars(&chars(""))), "");
    assert_eq!(s(trim_chars(&chars(" \n "))), "");
}

#[test]
fn string_round_trip() {
    let v = to_chars("héllo");
    assert_eq!(string_from_chars(&v), "héllo");
}

#[test]
fn lines_keep_a_bare_trailing_carriage_return() {
    // A carriage return is stripped only as part of a `\r\n` ending; one at
    // the very end of the text, with no line feed after it, stays.
    let got: Vec<String> = split_lines(&chars("a\r\nb\r")).into_iter().map(s).collect();
    assert_eq!(got, vec!["a", "b\r"]);
    let single: Vec<String> = split_lines(&chars("x\r")).into_iter().map(s).collect();
    assert_eq!(single, vec!["x\r"]);
}
