use rpaper::text::{
    chars_of, contains, ends_with, find_from, join, lines, replace, rfind_char, split, starts_with,
    trim,
};

fn c(s: &str) -> Vec<char> {
    s.chars().collect()
}

fn s(v: &Vec<char>) -> String {
    v.iter().collect()
}

#[test]
fn chars_of_keeps_every_character() {
    assert_eq!(chars_of("héllo"), vec!['h', 'é', 'l', 'l', 'o']);
    assert_eq!(chars_of(""), Vec::<char>::new());
}

#[test]
fn find_gives_the_first_occurrence() {
    assert_eq!(find_from(&c("abcabc"), &c("bc"), 0), Some(1));
    assert_eq!(find_from(&c("abcabc"), &c("bc"), 2), Some(4));
    assert_eq!(find_from(&c("abcabc"), &c("x"), 0), None);
    assert_eq!(find_from(&c("abc"), &c(""), 3), Some(3));
}

#[test]
fn prefix_suffix_and_containment() {
    assert!(starts_with(&c("Color(a)"), &c("Color(")));
    assert!(!starts_with(&c("Col"), &c("Color(")));
    assert!(ends_with(&c("Color(a)"), &c(")")));
    assert!(!ends_with(&c(""), &c(")")));
    assert!(contains(&c("a{br}b"), &c("{br}")));
    assert!(!contains(&c("a{b}r"), &c("{br}")));
}

#[test]
fn trim_removes_white_space_at_both_ends_only() {
    assert_eq!(s(&trim(&c("  a b\t\n"))), "a b");
    assert_eq!(s(&trim(&c("\u{3000}x\u{a0}"))), "x");
    assert_eq!(s(&trim(&c("   "))), "");
    assert_eq!(s(&trim(&c(""))), "");
}

#[test]
fn split_gives_the_pieces_between_separators() {
    let pieces: Vec<String> = split(&c("a:b::c"), ':').iter().map(s).collect();
    assert_eq!(pieces, vec!["a", "b", "", "c"]);
    let one: Vec<String> = split(&c(""), ':').iter().map(s).collect();
    assert_eq!(one, vec![""]);
    let ends: Vec<String> = split(&c(":"), ':').iter().map(s).collect();
    assert_eq!(ends, vec!["", ""]);
}

#[test]
fn lines_are_those_of_the_standard_library() {
    for text in ["", "a", "a\n", "a\n\nb", "a\r\nb\r", "\n", "a\r\n", "\r\n\r\n", "x\n\r"] {
        let mine: Vec<String> = lines(&c(text)).iter().map(s).collect();
        let std: Vec<String> = text.lines().map(|l| l.to_string()).collect();
        assert_eq!(mine, std, "lines of {:?}", text);
    }
}

#[test]
fn join_puts_the_separator_between_neighbours() {
    assert_eq!(s(&join(&vec![c("a"), c("b"), c("")], &c("\n"))), "a\nb\n");
    assert_eq!(s(&join(&vec![], &c("\n"))), "");
    assert_eq!(s(&join(&vec![c("a")], &c(", "))), "a");
}

#[test]
fn replace_is_that_of_the_standard_library() {
    let cases = [
        ("aaa", "aa", "b"),
        ("abcabc", "bc", ""),
        ("abc", "", "-"),
        ("", "", "-"),
        ("", "a", "b"),
        ("{R},{G}", "{R}", "12"),
        ("aab", "ab", "b"),
        ("xyz", "q", "r"),
    ];
    for (text, from, to) in cases {
        assert_eq!(
            s(&replace(&c(text), &c(from), &c(to))),
            text.replace(from, to),
            "{:?} {:?} {:?}",
            text,
            from,
            to
        );
    }
}

#[test]
fn rfind_char_gives_the_last_occurrence() {
    assert_eq!(rfind_char(&c("/a/b/c.png"), '/'), Some(4));
    assert_eq!(rfind_char(&c("c.png"), '/'), None);
    assert_eq!(rfind_char(&c(""), '/'), None);
}
