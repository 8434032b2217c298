use worktree_manager::order::{insert_ascending, text_precedes};
use worktree_manager::path::{
    file_name_of, join_paths, parent_of, path_starts_with, paths_equal, split_components,
    strip_base,
};
use worktree_manager::text::{
    align_columns, append_chars, char_is_space, chars_of, contains_text, count_text,
    cut_leading_space, cut_space, cut_trailing_space, decimal_text, find_char, find_text, is_word,
    join_strings, mentions, pad_to, same_text, split_lines, split_text, starts_with, string_of,
    without_prefix,
};

fn chars(s: &str) -> Vec<char> {
    s.chars().collect()
}

fn strings(items: &[&str]) -> Vec<String> {
    items.iter().map(|s| s.to_string()).collect()
}

fn texts(pieces: Vec<&[char]>) -> Vec<String> {
    pieces.into_iter().map(|p| p.iter().collect()).collect()
}

#[test]
fn chars_and_strings_round_trip() {
    let s = "a\u{e9}\u{65e5}\u{1f600} z";
    assert_eq!(chars_of(s), chars(s));
    assert_eq!(string_of(&chars_of(s)), s);
    assert_eq!(string_of(&[]), "");
    let mut t = "x".to_string();
    append_chars(&mut t, &chars("yz"));
    assert_eq!(t, "xyz");
}

#[test]
fn white_space_is_unicode_white_space() {
    for c in ['\t', '\n', '\u{b}', '\u{c}', '\r', ' ', '\u{85}', '\u{a0}', '\u{1680}', '\u{2000}',
        '\u{200a}', '\u{2028}', '\u{2029}', '\u{202f}', '\u{205f}', '\u{3000}']
    {
        assert!(char_is_space(c));
        assert!(c.is_whitespace());
    }
    for c in ['a', '0', '\u{8}', '\u{e}', '\u{200b}', '\u{feff}', '\u{180e}', '_'] {
        assert!(!char_is_space(c));
        assert!(!c.is_whitespace());
    }
}

#[test]
fn white_space_agrees_on_every_character() {
    let mut n = 0u32;
    while n <= 0x10ffff {
        if let Some(c) = char::from_u32(n) {
            assert_eq!(char_is_space(c), c.is_whitespace());
        }
        n += 1;
    }
}

#[test]
fn trimming() {
    assert_eq!(string_of(cut_trailing_space(&chars("  a b \t\r\n"))), "  a b");
    assert_eq!(string_of(cut_leading_space(&chars(" \n a b "))), "a b ");
    assert_eq!(string_of(cut_space(&chars(" \u{a0}a b\u{3000} "))), "a b");
    assert_eq!(string_of(cut_space(&chars(" \n\t "))), "");
    assert_eq!(string_of(cut_space(&chars(""))), "");
}

#[test]
fn searching() {
    assert_eq!(find_char(&chars("abcabc"), 'c'), 2);
    assert_eq!(find_char(&chars("abc"), 'x'), 3);
    assert_eq!(find_char(&[], 'x'), 0);
    assert_eq!(find_text(&chars("a  b  c"), &chars("  ")), 1);
    assert_eq!(find_text(&chars("abc"), &chars("cd")), 3);
    assert_eq!(find_text(&chars("abc"), &[]), 0);
    assert!(contains_text(&chars("xx uncommitted changes"), &chars("uncommitted changes")));
    assert!(!contains_text(&chars("uncommitted change"), &chars("uncommitted changes")));
    assert!(contains_text(&chars("abc"), &[]));
    assert!(mentions(&chars("/usr/bin/zsh"), "zsh"));
    assert!(!mentions(&chars("/usr/bin/sh"), "zsh"));
}

#[test]
fn comparing() {
    assert!(same_text(&chars("ab"), &chars("ab")));
    assert!(!same_text(&chars("ab"), &chars("abc")));
    assert!(!same_text(&chars("ab"), &chars("ac")));
    assert!(is_word(&chars("HEAD"), "HEAD"));
    assert!(!is_word(&chars("head"), "HEAD"));
    assert!(starts_with(&chars("refs/heads/x"), &chars("refs/heads/")));
    assert!(!starts_with(&chars("refs"), &chars("refs/heads/")));
    assert!(starts_with(&chars("x"), &[]));
    assert_eq!(without_prefix(&chars("refs/heads/x"), "refs/heads/").map(string_of), Some("x".to_string()));
    assert_eq!(without_prefix(&chars("refs/heads/"), "refs/heads/").map(string_of), Some(String::new()));
    assert_eq!(without_prefix(&chars("refs/tags/x"), "refs/heads/"), None);
}

#[test]
fn splitting() {
    assert_eq!(texts(split_text(&chars("a  b  c"), &chars("  "))), strings(&["a", "b", "c"]));
    assert_eq!(texts(split_text(&chars("a   b"), &chars("  "))), strings(&["a", " b"]));
    assert_eq!(texts(split_text(&chars("a  "), &chars("  "))), strings(&["a", ""]));
    assert_eq!(texts(split_text(&chars(""), &chars("  "))), strings(&[""]));
    assert_eq!(texts(split_text(&chars("ab"), &[])), strings(&["ab"]));
    assert_eq!(texts(split_lines(&chars("a\nb\r\n\nc"))), strings(&["a", "b", "", "c"]));
    assert_eq!(texts(split_lines(&chars("a\n"))), strings(&["a"]));
    assert_eq!(texts(split_lines(&chars("a\r"))), strings(&["a\r"]));
    assert_eq!(texts(split_lines(&chars("\n"))), strings(&[""]));
    assert_eq!(texts(split_lines(&chars(""))), Vec::<String>::new());
}

#[test]
fn lines_agree_with_the_standard_library() {
    for s in ["", "\n", "a", "a\n", "a\r\n", "a\r", "\r\n\r\n", "a\n\nb", "a\r\r\nb\n\r", "x\ny\nz\n"] {
        let want: Vec<String> = s.lines().map(|l| l.to_string()).collect();
        assert_eq!(texts(split_lines(&chars(s))), want);
    }
}

#[test]
fn joining_and_padding() {
    assert_eq!(join_strings(&strings(&["a", "b", "c"]), ", "), "a, b, c");
    assert_eq!(join_strings(&strings(&["a"]), ", "), "a");
    assert_eq!(join_strings(&Vec::new(), ", "), "");
    assert_eq!(pad_to("ab", 5), "ab   ");
    assert_eq!(pad_to("abcdef", 5), "abcdef");
    assert_eq!(pad_to("\u{e9}", 3), "\u{e9}  ");
    assert_eq!(
        align_columns(&strings(&["a", "bcd"]), &strings(&["x", "y"])),
        strings(&["a    x", "bcd  y"])
    );
    assert_eq!(align_columns(&strings(&["a", "bcd"]), &strings(&["x"])), strings(&["a    x", "bcd  "]));
}

#[test]
fn numbers_in_decimal() {
    assert_eq!(decimal_text(0), "0");
    assert_eq!(decimal_text(7), "7");
    assert_eq!(decimal_text(130), "130");
    assert_eq!(decimal_text(-1), "-1");
    assert_eq!(decimal_text(i32::MAX), "2147483647");
    assert_eq!(decimal_text(i32::MIN), "-2147483648");
    assert_eq!(count_text(0), "0");
    assert_eq!(count_text(1234567890), "1234567890");
}

#[test]
fn components_of_paths() {
    assert_eq!(texts(split_components(&chars("/home//user/./proj/"))), strings(&["home", "user", "proj"]));
    assert_eq!(texts(split_components(&chars("./a/../b"))), strings(&[".", "a", "..", "b"]));
    assert_eq!(texts(split_components(&chars("a/./b"))), strings(&["a", "b"]));
    assert_eq!(texts(split_components(&chars("/"))), Vec::<String>::new());
    assert_eq!(texts(split_components(&chars(""))), Vec::<String>::new());
    assert_eq!(texts(split_components(&chars("."))), strings(&["."]));
    assert_eq!(texts(split_components(&chars("/."))), Vec::<String>::new());
}

#[test]
fn paths_agree_with_the_standard_library() {
    let samples = [
        "", "/", "//", ".", "..", "./", "/.", "a", "a/", "a/b", "/a/b", "/a//b/", "/a/./b", "./a",
        "a/.", "a/..", "/a/b/..", ".git", "/x/.git", "a//", "./.", "../a", "/home/user/proj",
    ];
    for a in samples {
        let p = std::path::Path::new(a);
        assert_eq!(
            file_name_of(a),
            p.file_name().map(|n| n.to_string_lossy().into_owned()),
            "file name of {:?}",
            a
        );
        assert_eq!(parent_of(a).is_some(), p.parent().is_some(), "parent of {:?}", a);
        if let (Some(mine), Some(theirs)) = (parent_of(a), p.parent()) {
            assert!(std::path::Path::new(&mine) == theirs, "parent of {:?}", a);
        }
        for b in samples {
            let q = std::path::Path::new(b);
            assert_eq!(paths_equal(a, b), p == q, "{:?} == {:?}", a, b);
            assert_eq!(path_starts_with(a, b), p.starts_with(q), "{:?} starts with {:?}", a, b);
            assert_eq!(join_paths(a, b), p.join(q).to_string_lossy(), "{:?} joined {:?}", a, b);
            match (strip_base(a, b), p.strip_prefix(q)) {
                (Some(mine), Ok(theirs)) => {
                    assert!(std::path::Path::new(&mine) == theirs, "{:?} from {:?}", a, b)
                }
                (None, Err(_)) => {}
                (mine, theirs) => panic!("{:?} from {:?}: {:?} and {:?}", a, b, mine, theirs),
            }
        }
    }
}

#[test]
fn joining_paths() {
    assert_eq!(join_paths("/home/u", ".zshrc"), "/home/u/.zshrc");
    assert_eq!(join_paths("/home/u/", ".zshrc"), "/home/u/.zshrc");
    assert_eq!(join_paths("", "x"), "x");
    assert_eq!(join_paths("/home/u", "/etc/x"), "/etc/x");
    assert_eq!(join_paths("/", "x"), "/x");
}

#[test]
fn order_of_texts() {
    assert!(text_precedes(&chars("a"), &chars("b")));
    assert!(text_precedes(&chars("a"), &chars("ab")));
    assert!(text_precedes(&chars(""), &chars("a")));
    assert!(!text_precedes(&chars("a"), &chars("a")));
    assert!(!text_precedes(&chars("b"), &chars("a")));
    assert!(text_precedes(&chars("Z"), &chars("a")));
    assert!(text_precedes(&chars("a-b"), &chars("a/b")));
    assert!(text_precedes(&chars("z"), &chars("\u{e9}")));
    for (a, b) in [("a", "b"), ("ab", "a"), ("", ""), ("\u{e9}", "z"), ("a\u{1f600}", "a\u{ffff}")] {
        assert_eq!(text_precedes(&chars(a), &chars(b)), a < b);
    }
}

#[test]
fn ascending_lists_stay_ascending() {
    let mut v: Vec<String> = Vec::new();
    for item in ["m", "a", "z", "m", "b", "a", "mm", ""] {
        insert_ascending(&mut v, item.to_string());
    }
    assert_eq!(v, strings(&["", "a", "b", "m", "mm", "z"]));
}
