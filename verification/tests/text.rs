use price_sync::text::{chars_of, cut_between, find, push_chars, push_decimal, push_two_places};

fn chars(s: &str) -> Vec<char> {
    s.chars().collect()
}

fn two_places(hundredths: u64) -> String {
    let mut out = String::new();
    push_two_places(&mut out, hundredths);
    out
}

#[test]
fn chars_of_gives_each_character() {
    assert_eq!(chars_of("a/é"), vec!['a', '/', 'é']);
    assert_eq!(chars_of(""), Vec::<char>::new());
}

#[test]
fn push_chars_appends_the_range() {
    let mut out = "x".to_string();
    push_chars(&mut out, &chars("hello"), 1, 4);
    assert_eq!(out, "xell");
    push_chars(&mut out, &chars("hello"), 2, 2);
    assert_eq!(out, "xell");
}

#[test]
fn find_gives_the_first_place() {
    assert_eq!(find(&chars("abcabc"), &chars("bc"), 0), Some(1));
    assert_eq!(find(&chars("abcabc"), &chars("bc"), 2), Some(4));
    assert_eq!(find(&chars("abcabc"), &chars("bc"), 5), None);
    assert_eq!(find(&chars("abc"), &chars("abcd"), 0), None);
    assert_eq!(find(&chars("abc"), &chars("x"), 0), None);
    assert_eq!(find(&chars("abc"), &chars("c"), 7), None);
}

#[test]
fn find_meets_the_empty_pattern_where_it_starts() {
    assert_eq!(find(&chars("abc"), &chars(""), 0), Some(0));
    assert_eq!(find(&chars("abc"), &chars(""), 3), Some(3));
    assert_eq!(find(&chars(""), &chars(""), 0), Some(0));
}

#[test]
fn cut_between_takes_what_the_markers_enclose() {
    assert_eq!(cut_between("a<Key>k</Key>b", "<Key>", "</Key>"), Some("k".to_string()));
    assert_eq!(cut_between("<Key></Key>", "<Key>", "</Key>"), Some(String::new()));
    assert_eq!(
        cut_between("<Key>1</Key><Key>2</Key>", "<Key>", "</Key>"),
        Some("1".to_string())
    );
}

#[test]
fn cut_between_needs_both_markers_in_order() {
    assert_eq!(cut_between("no markers", "<Key>", "</Key>"), None);
    assert_eq!(cut_between("<Key>open only", "<Key>", "</Key>"), None);
    assert_eq!(cut_between("</Key>x<Key>", "<Key>", "</Key>"), None);
}

#[test]
fn push_decimal_writes_numerals_without_leading_zeros() {
    let mut out = String::new();
    push_decimal(&mut out, 0);
    out.push(' ');
    push_decimal(&mut out, 7);
    out.push(' ');
    push_decimal(&mut out, 10);
    out.push(' ');
    push_decimal(&mut out, 907);
    out.push(' ');
    push_decimal(&mut out, u64::MAX);
    assert_eq!(out, "0 7 10 907 18446744073709551615");
}

#[test]
fn push_two_places_writes_hundredths_as_a_decimal() {
    assert_eq!(two_places(0), "0.00");
    assert_eq!(two_places(5), "0.05");
    assert_eq!(two_places(50), "0.50");
    assert_eq!(two_places(999), "9.99");
    assert_eq!(two_places(1050), "10.50");
    assert_eq!(two_places(123456), "1234.56");
    assert_eq!(two_places(u64::MAX), "184467440737095516.15");
}

#[test]
fn push_two_places_agrees_with_formatting_to_two_places() {
    assert_eq!(two_places(1050), format!("{:.2}", 10.5f64));
    assert_eq!(two_places(999), format!("{:.2}", 9.99f64));
    assert_eq!(two_places(100), format!("{:.2}", 1f64));
}
