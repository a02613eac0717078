use music_file_playlist_online_sync::text::{
    chars_of, contains, ends_with, find_from, parse_decimal, replace_all, rfind, rfind_char,
    rsplit_once, same_str, split_char, split_once, starts_with, string_of, strip_char,
    to_ascii_lowercase, trim, trim_end,
};

fn c(s: &str) -> Vec<char> {
    chars_of(s)
}

#[test]
fn strings_become_characters_and_back() {
    assert_eq!(c("aé😀"), vec!['a', 'é', '😀']);
    assert_eq!(string_of(&vec!['a', 'é', '😀']), "aé😀");
    assert_eq!(string_of(&Vec::new()), "");
    assert!(same_str("abc", "abc"));
    assert!(!same_str("abc", "abd"));
    assert!(!same_str("abc", "ab"));
}

#[test]
fn replace_takes_occurrences_from_the_left() {
    assert_eq!(string_of(&replace_all(&c("aaa"), &c("aa"), &c("b"))), "ba");
    assert_eq!(string_of(&replace_all(&c("a/b/c"), &c("/"), &c(" | "))), "a | b | c");
    assert_eq!(string_of(&replace_all(&c("abc"), &c(""), &c("x"))), "abc");
    assert_eq!(string_of(&replace_all(&c("abc"), &c("abcd"), &c("x"))), "abc");
    assert_eq!(string_of(&replace_all(&c(""), &c("a"), &c("x"))), "");
    assert_eq!(string_of(&replace_all(&c("xyx"), &c("x"), &c(""))), "y");
}

#[test]
fn searching_finds_first_and_last() {
    assert_eq!(find_from(&c("abcabc"), &c("bc"), 0), Some(1));
    assert_eq!(find_from(&c("abcabc"), &c("bc"), 2), Some(4));
    assert_eq!(find_from(&c("abcabc"), &c("bc"), 5), None);
    assert_eq!(find_from(&c("abc"), &c(""), 3), Some(3));
    assert_eq!(find_from(&c("abc"), &c(""), 4), None);
    assert_eq!(rfind(&c("abcabc"), &c("bc")), Some(4));
    assert_eq!(rfind(&c("abcabc"), &c("x")), None);
    assert_eq!(rfind_char(&c("a.b.c"), '.'), Some(3));
    assert_eq!(rfind_char(&c("abc"), '.'), None);
    assert!(contains(&c("hello"), &c("ell")));
    assert!(!contains(&c("hello"), &c("elo")));
    assert!(starts_with(&c("hello"), &c("he")));
    assert!(!starts_with(&c("hello"), &c("el")));
    assert!(ends_with(&c("hello"), &c("llo")));
    assert!(!ends_with(&c("lo"), &c("llo")));
}

#[test]
fn splitting_cuts_at_the_separator() {
    assert_eq!(split_once(&c("a - b - c"), &c(" - ")), Some((c("a"), c("b - c"))));
    assert_eq!(split_once(&c("abc"), &c(" - ")), None);
    assert_eq!(rsplit_once(&c("a/b/c"), '/'), Some((c("a/b"), c("c"))));
    assert_eq!(rsplit_once(&c("abc"), '/'), None);
    assert_eq!(split_char(&c("a:b::c"), ':'), vec![c("a"), c("b"), c(""), c("c")]);
    assert_eq!(split_char(&c(""), ':'), vec![c("")]);
    assert_eq!(split_char(&c(":"), ':'), vec![c(""), c("")]);
}

#[test]
fn trimming_takes_white_space_from_the_ends() {
    assert_eq!(string_of(&trim(&c("  a b \t\n"))), "a b");
    assert_eq!(string_of(&trim(&c("\u{a0}x\u{3000}"))), "x");
    assert_eq!(string_of(&trim(&c("   "))), "");
    assert_eq!(string_of(&trim(&c(""))), "");
    assert_eq!(string_of(&trim_end(&c("  a  "))), "  a");
    assert_eq!(string_of(&strip_char(&c("//a/b//"), '/')), "a/b");
    assert_eq!(string_of(&strip_char(&c("///"), '/')), "");
    assert_eq!(string_of(&to_ascii_lowercase(&c("AbC-É9"))), "abc-É9");
}

#[test]
fn numbers_are_read_in_base_ten() {
    assert_eq!(parse_decimal(&c("0")), Some(0));
    assert_eq!(parse_decimal(&c("007")), Some(7));
    assert_eq!(parse_decimal(&c("18446744073709551615")), Some(u64::MAX));
    assert_eq!(parse_decimal(&c("18446744073709551616")), None);
    assert_eq!(parse_decimal(&c("99999999999999999999999")), None);
    assert_eq!(parse_decimal(&c("")), None);
    assert_eq!(parse_decimal(&c("12a")), None);
    assert_eq!(parse_decimal(&c("+5")), None);
}
