use dns_manager::text::{
    chars_of, contains, dedup, find, is_whitespace, join, matches_at, same_text, slice_of, split,
    split_lines, split_words, str_concat, str_contains, str_equal, str_split, str_trim,
    string_of, strings_of, trim,
};

fn v(s: &str) -> Vec<char> {
    s.chars().collect()
}

fn texts(parts: Vec<Vec<char>>) -> Vec<String> {
    parts.into_iter().map(|p| p.into_iter().collect()).collect()
}

#[test]
fn strings_and_their_characters() {
    assert_eq!(chars_of("aж€😀"), vec!['a', 'ж', '€', '😀']);
    assert_eq!(string_of(&v("aж€😀")), "aж€😀");
    assert_eq!(chars_of(""), Vec::<char>::new());
    assert_eq!(slice_of(&v("hello"), 1, 3), v("el"));
    assert_eq!(slice_of(&v("hello"), 2, 2), v(""));
    assert!(same_text(&v("ab"), &v("ab")));
    assert!(!same_text(&v("ab"), &v("ac")));
    assert!(!same_text(&v("ab"), &v("abc")));
    assert_eq!(str_concat("ab", "cd"), "abcd");
    assert!(str_equal("x", "x"));
    assert!(!str_equal("x", "X"));
}

#[test]
fn whitespace_is_what_the_standard_library_calls_whitespace() {
    for code in 0..=0x11_0000u32 {
        if let Some(c) = char::from_u32(code) {
            assert_eq!(is_whitespace(c), c.is_whitespace(), "{:x}", code);
        }
    }
}

#[test]
fn trimming_agrees_with_the_standard_library() {
    for s in ["", " ", "a", " a", "a ", "  a b  ", "\t\r\n x \u{a0}\u{3000}", "\u{2003}y\u{85}", " \n "] {
        assert_eq!(string_of(&trim(&v(s))), s.trim(), "{:?}", s);
        assert_eq!(str_trim(s), s.trim(), "{:?}", s);
    }
}

#[test]
fn searching_agrees_with_the_standard_library() {
    let cases = [
        ("hello world", "o w"), ("hello", "l"), ("hello", ""), ("", ""), ("", "a"), ("aaa", "aa"),
        ("abc", "abcd"), ("abc", "c"), ("abc", "d"), ("192.168.1.1", "168."), ("ab", "ba"),
    ];
    for (s, pat) in cases {
        let expected = s.find(pat).map(|byte| s[..byte].chars().count());
        assert_eq!(find(&v(s), &v(pat)), expected, "{:?} {:?}", s, pat);
        assert_eq!(contains(&v(s), &v(pat)), s.contains(pat));
        assert_eq!(str_contains(s, pat), s.contains(pat));
    }
    assert!(matches_at(&v("abc"), &v("bc"), 1));
    assert!(!matches_at(&v("abc"), &v("bc"), 2));
    assert!(matches_at(&v("abc"), &v(""), 3));
    assert!(!matches_at(&v("abc"), &v(""), 4));
    assert!(!matches_at(&v("abc"), &v("c"), usize::MAX));
}

#[test]
fn splitting_agrees_with_the_standard_library() {
    let cases = [
        ("a,b,c", ","), ("", ","), (",", ","), (",,", ","), ("a,", ","), (",a", ","), ("abc", ","),
        ("a, b, c", ", "), ("a,b, c", ", "), ("aaaa", "aa"), ("aaa", "aa"), ("1::2", "::"),
        (":::", "::"), ("a--b---c", "--"),
    ];
    for (s, sep) in cases {
        let expected: Vec<String> = s.split(sep).map(|p| p.to_string()).collect();
        assert_eq!(texts(split(&v(s), &v(sep))), expected, "{:?} {:?}", s, sep);
        assert_eq!(str_split(s, sep), expected, "{:?} {:?}", s, sep);
    }
    assert_eq!(texts(split(&v("abc"), &v(""))), vec!["abc"]);
}

#[test]
fn words_agree_with_the_standard_library() {
    for s in ["", " ", "a", " a ", "a b", "  a \t b\r\nc  ", "x\u{a0}y", "8.8.8.8\r\n1.1.1.1\r\n"] {
        let expected: Vec<String> = s.split_whitespace().map(|p| p.to_string()).collect();
        assert_eq!(texts(split_words(&v(s))), expected, "{:?}", s);
    }
}

#[test]
fn lines_agree_with_the_standard_library() {
    for s in ["", "\n", "a", "a\n", "a\nb", "a\r\nb\r\n", "a\rb", "a\r", "\r\n", "\n\n", "a\n\r\nb\n\r", "\r\r\n"] {
        let expected: Vec<String> = s.lines().map(|p| p.to_string()).collect();
        assert_eq!(texts(split_lines(&v(s))), expected, "{:?}", s);
    }
}

#[test]
fn joining_agrees_with_the_standard_library() {
    let cases: [&[&str]; 5] = [&[], &["a"], &["a", "b"], &["", "", ""], &["1.1.1.1", "8.8.8.8", "9.9.9.9"]];
    for parts in cases {
        let input: Vec<Vec<char>> = parts.iter().map(|p| v(p)).collect();
        assert_eq!(string_of(&join(&input, &v(", "))), parts.join(", "));
        assert_eq!(string_of(&join(&input, &v(""))), parts.join(""));
        assert_eq!(strings_of(&input), parts.iter().map(|p| p.to_string()).collect::<Vec<_>>());
    }
}

#[test]
fn repetitions_are_dropped_where_they_come_again() {
    let input: Vec<Vec<char>> = ["b", "a", "b", "c", "a", "b", ""].iter().map(|p| v(p)).collect();
    assert_eq!(texts(dedup(&input)), vec!["b", "a", "c", ""]);
    assert!(dedup(&Vec::new()).is_empty());
}
