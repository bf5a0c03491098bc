use gavin::text::{
    chars_of, char_is_space, join_two, count_char, find_from, has_prefix, has_suffix, has_within,
    holds_text, joined, only_digits, push_decimal, same_ignoring_case, same_str, split,
    split_lines, string_of, stripped, tail_after, tail_after_first, text_less, trimmed,
    without_prefix_all, without_suffix_all, CharSet,
};

fn trim(s: &str) -> String {
    string_of(&trimmed(&chars_of(s)))
}

fn lines(s: &str) -> Vec<String> {
    split_lines(&chars_of(s)).iter().map(string_of).collect()
}

fn pieces(s: &str, c: char) -> Vec<String> {
    split(&chars_of(s), c).iter().map(string_of).collect()
}

const SAMPLES: [&str; 16] = [
    "",
    " ",
    "a",
    "  a  ",
    "\t\n x y \r\n",
    "a\nb",
    "a\nb\n",
    "a\r\nb\r\n",
    "a\rb",
    "a\r",
    "\n",
    "\n\n",
    "\r\n\r\n",
    "x\n\ny",
    "\u{a0}wide\u{3000}",
    "ends with cr\r\nlast\r",
];

#[test]
fn strings_and_characters_convert_both_ways() {
    for s in SAMPLES {
        assert_eq!(string_of(&chars_of(s)), s);
        assert_eq!(chars_of(s), s.chars().collect::<Vec<char>>());
    }
    assert_eq!(chars_of("héllo ✓"), vec!['h', 'é', 'l', 'l', 'o', ' ', '✓']);
}

#[test]
fn trimming_is_that_of_the_standard_library() {
    for s in SAMPLES {
        assert_eq!(trim(s), s.trim());
    }
    assert_eq!(trim("  a b  "), "a b");
    assert_eq!(trim("\u{2003}x\u{2028}"), "x");
    assert_eq!(trim("\u{200b}x"), "\u{200b}x");
}

#[test]
fn white_space_is_that_of_the_standard_library() {
    let mut c = 0u32;
    while c < 0x3100 {
        if let Some(ch) = char::from_u32(c) {
            assert_eq!(char_is_space(ch), ch.is_whitespace(), "character {}", c);
        }
        c += 1;
    }
}

#[test]
fn lines_are_those_of_the_standard_library() {
    for s in SAMPLES {
        let expected: Vec<String> = s.lines().map(|l| l.to_string()).collect();
        assert_eq!(lines(s), expected, "for {:?}", s);
    }
    assert_eq!(lines("a\r\nb\n\nc"), vec!["a", "b", "", "c"]);
    assert_eq!(lines("a\r"), vec!["a\r"]);
    assert_eq!(lines(""), Vec::<String>::new());
}

#[test]
fn splitting_keeps_empty_pieces() {
    assert_eq!(pieces("a,b,c", ','), vec!["a", "b", "c"]);
    assert_eq!(pieces("", ','), vec![""]);
    assert_eq!(pieces(",", ','), vec!["", ""]);
    assert_eq!(pieces("a,,b,", ','), vec!["a", "", "b", ""]);
    for s in SAMPLES {
        let expected: Vec<String> = s.split('\n').map(|l| l.to_string()).collect();
        assert_eq!(pieces(s, '\n'), expected);
    }
}

#[test]
fn stripping_one_character_from_both_ends() {
    let strip = |s: &str, c: char| string_of(&stripped(&chars_of(s), &CharSet::Only(c)));
    assert_eq!(strip("'6.0.3'", '\''), "6.0.3");
    assert_eq!(strip("''a'b''", '\''), "a'b");
    assert_eq!(strip("\"x\"", '"'), "x");
    assert_eq!(strip("'''", '\''), "");
    assert_eq!(strip("abc", '\''), "abc");
    for s in ["'a'", "a''", "''", "x'y", ""] {
        assert_eq!(strip(s, '\''), s.trim_matches('\''));
    }
}

#[test]
fn searching_for_a_text() {
    let within = |s: &str, p: &str| has_within(&chars_of(s), &chars_of(p));
    assert!(within("task: copyfiles@1", "task:"));
    assert!(within("abc", ""));
    assert!(within("", ""));
    assert!(!within("", "a"));
    assert!(!within("tas k:", "task:"));
    assert!(within("xxversionSpec: 1", "versionSpec:"));
    assert!(has_prefix(&chars_of("# note"), &chars_of("#")));
    assert!(!has_prefix(&chars_of(" # note"), &chars_of("#")));
    assert!(has_prefix(&chars_of("// note"), &chars_of("//")));
    assert!(!has_prefix(&chars_of("/ note"), &chars_of("//")));
    assert!(has_suffix(&chars_of("ci.yml"), &chars_of(".yml")));
    assert!(!has_suffix(&chars_of("yml"), &chars_of(".yml")));
    for s in SAMPLES {
        for p in ["a", "\n", "\r\n", " ", "last", ""] {
            assert_eq!(within(s, p), s.contains(p));
            assert_eq!(has_prefix(&chars_of(s), &chars_of(p)), s.starts_with(p));
            assert_eq!(has_suffix(&chars_of(s), &chars_of(p)), s.ends_with(p));
        }
    }
}

#[test]
fn finding_and_counting_a_character() {
    assert_eq!(find_from(&chars_of("a:b:c"), ':', 0), 1);
    assert_eq!(find_from(&chars_of("a:b:c"), ':', 2), 3);
    assert_eq!(find_from(&chars_of("a:b:c"), ':', 4), 5);
    assert_eq!(find_from(&chars_of("abc"), ':', 0), 3);
    assert_eq!(count_char(&chars_of("1.2.3"), '.'), 2);
    assert_eq!(count_char(&chars_of(""), '.'), 0);
    assert!(only_digits(&chars_of("0123456789")));
    assert!(only_digits(&chars_of("")));
    assert!(!only_digits(&chars_of("12a")));
    assert!(!only_digits(&chars_of("١٢")));
}

#[test]
fn tails_after_a_character() {
    let last = |s: &str| string_of(&tail_after(&chars_of(s), '/'));
    assert_eq!(last("https://host/org/repo"), "repo");
    assert_eq!(last("repo"), "repo");
    assert_eq!(last("a/b/"), "");
    assert_eq!(last(""), "");
    let first = |s: &str| string_of(&tail_after_first(&chars_of(s), '@'));
    assert_eq!(first("user@host@x"), "host@x");
    assert_eq!(first("nohost"), "");
    assert_eq!(first("@"), "");
    for s in ["a/b/c", "/", "", "abc", "a//"] {
        assert_eq!(last(s), s.split('/').last().unwrap());
    }
}

#[test]
fn repeated_prefixes_and_suffixes_are_removed() {
    let pre = |s: &str, p: &str| string_of(&without_prefix_all(&chars_of(s), &chars_of(p)));
    let suf = |s: &str, p: &str| string_of(&without_suffix_all(&chars_of(s), &chars_of(p)));
    assert_eq!(pre("https://https://host", "https://"), "host");
    assert_eq!(pre("http://host", "https://"), "http://host");
    assert_eq!(suf("repo.git", ".git"), "repo");
    assert_eq!(suf("repo.git.git", ".git"), "repo");
    assert_eq!(suf("repo.gitx", ".git"), "repo.gitx");
    assert_eq!(suf(".git", ".git"), "");
    for s in ["a.git", ".git.git", "git", "", "x.git.", "https://a", "https://"] {
        assert_eq!(suf(s, ".git"), s.trim_end_matches(".git"));
        assert_eq!(pre(s, "https://"), s.trim_start_matches("https://"));
    }
}

#[test]
fn comparing_texts() {
    assert!(same_str("abc", "abc"));
    assert!(!same_str("abc", "abd"));
    assert!(!same_str("abc", "ab"));
    let fold = |a: &str, b: &str| same_ignoring_case(&chars_of(a), &chars_of(b));
    assert!(fold("GitVersion", "gitversion"));
    assert!(fold("GITVERSION", "gitversion"));
    assert!(!fold("gitversion ", "gitversion"));
    assert!(!fold("gitversi0n", "gitversion"));
    for (a, b) in [("É", "é"), ("k", "K"), ("[", "{"), ("@", "`"), ("Z", "z")] {
        assert_eq!(fold(a, b), a.eq_ignore_ascii_case(b));
    }
    let names = ["", "a", "ab", "b", "B", "a.git", "é", "z", "repo-10", "repo-2"];
    for a in names {
        for b in names {
            assert_eq!(text_less(&chars_of(a), &chars_of(b)), a < b, "{:?} {:?}", a, b);
        }
    }
}

#[test]
fn joining_and_concatenating() {
    let parts: Vec<Vec<char>> = vec![chars_of("a"), chars_of(""), chars_of("c")];
    assert_eq!(string_of(&joined(&parts, &chars_of("\n"))), "a\n\nc");
    assert_eq!(string_of(&joined(&Vec::new(), &chars_of(", "))), "");
    assert_eq!(string_of(&joined(&vec![chars_of("x")], &chars_of(", "))), "x");
    assert_eq!(join_two("origin/", "main"), "origin/main");
    assert!(holds_text(&vec!["a".to_string(), "b".to_string()], "b"));
    assert!(!holds_text(&vec!["a".to_string(), "b".to_string()], "c"));
}

#[test]
fn numbers_in_decimal() {
    for n in [0u128, 1, 9, 10, 11, 99, 100, 12345, 18446744073709551615, u128::MAX] {
        let mut out = chars_of("n=");
        push_decimal(&mut out, n);
        assert_eq!(string_of(&out), format!("n={}", n));
    }
}
