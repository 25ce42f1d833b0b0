use native_targets::order::{order_by_keys, order_unique_by_keys};
use native_targets::path::{
    components_of, extension_of, file_name_of, file_stem_of, has_extension, is_same_path,
    join_path, parent_of, sort_paths, sort_texts, strip_prefix, strip_prefix_or_whole,
    with_extension, with_file_name,
};
use native_targets::text::{
    blank_text, contains_text, hex16, is_space_char, join_list, lowercase_ascii, replace_char, split_lines,
    split_once_char, starts_with_text, trim_text, uppercase,
};
use std::path::Path;

fn strings(list: &[&str]) -> Vec<String> {
    list.iter().map(|s| s.to_string()).collect()
}

const PATHS: &[&str] = &[
    "", "/", ".", "..", "a", "a/", "a/b", "a//b", "a/./b", "./a", "/a", "/a/", "//a", "a/..",
    "a/../b", "../a", "/..", "a.c", ".c", "a.b.c", "a.", "x/.hidden", "x/a.tar.gz", "/x/y.c/",
    "./.", "a/.", "\u{e9}/\u{df}.c",
];

fn text(path: &Path) -> String {
    path.to_str().unwrap().to_string()
}

#[test]
fn paths_are_taken_apart_as_the_standard_library_does() {
    for s in PATHS {
        let p = Path::new(s);
        let parts: Vec<String> =
            p.components().map(|c| c.as_os_str().to_str().unwrap().to_string()).collect();
        assert_eq!(components_of(s), parts, "{s}");
        assert_eq!(file_name_of(s), p.file_name().map(|n| n.to_str().unwrap().to_string()), "{s}");
        assert_eq!(file_stem_of(s), p.file_stem().map(|n| n.to_str().unwrap().to_string()), "{s}");
        assert_eq!(extension_of(s), p.extension().map(|n| n.to_str().unwrap().to_string()), "{s}");
        assert_eq!(parent_of(s), p.parent().map(text), "{s}");
        assert_eq!(with_extension(s, "o"), text(&p.with_extension("o")), "{s}");
        assert_eq!(with_file_name(s, "n.d"), text(&p.with_file_name("n.d")), "{s}");
    }
    assert!(has_extension("a/b.c", "c") && !has_extension("a/b.c", "cc"));
}

#[test]
fn pairs_of_paths_are_treated_as_the_standard_library_does() {
    for s in PATHS {
        for t in PATHS {
            let (p, q) = (Path::new(s), Path::new(t));
            assert_eq!(join_path(s, t), text(&p.join(q)), "{s} {t}");
            assert_eq!(is_same_path(s, t), p == q, "{s} {t}");
            assert_eq!(strip_prefix(s, t), p.strip_prefix(q).ok().map(text), "{s} {t}");
        }
    }
    assert_eq!(strip_prefix_or_whole("/ws/a/b.c", "/ws"), "a/b.c");
    assert_eq!(strip_prefix_or_whole("/other/b.c", "/ws"), "/other/b.c");
}

#[test]
fn what_is_left_names_the_path_again() {
    for s in PATHS {
        for t in PATHS {
            if let Some(rest) = strip_prefix(s, t) {
                assert!(is_same_path(&join_path(t, &rest), s), "{s} {t}");
            }
        }
    }
}

#[test]
fn paths_are_sorted_by_components() {
    let list = strings(&["a-b/x", "a/x", "a", "/z", "a/./x", "..", "b", "./a"]);
    let mut want: Vec<std::path::PathBuf> = list.iter().map(std::path::PathBuf::from).collect();
    want.sort();
    want.dedup();
    let got: Vec<std::path::PathBuf> =
        sort_paths(&list).iter().map(std::path::PathBuf::from).collect();
    assert_eq!(got, want);
    assert_eq!(sort_paths(&strings(&["b", "a", "b"])), strings(&["a", "b"]));
}

#[test]
fn texts_are_sorted_by_code_points() {
    assert_eq!(
        sort_texts(&strings(&["b", "\u{e9}", "a", "B", "a"])),
        strings(&["B", "a", "b", "\u{e9}"])
    );
}

#[test]
fn orders_are_stable() {
    let keys = vec![vec![vec![2]], vec![vec![1]], vec![vec![2]], vec![], vec![vec![1], vec![0]]];
    assert_eq!(order_by_keys(&keys), vec![3, 1, 4, 0, 2]);
    assert_eq!(order_unique_by_keys(&keys), vec![3, 1, 4, 0]);
}

#[test]
fn lines_are_split_as_the_standard_library_does() {
    for s in ["", "a", "a\n", "a\r\nb", "\n\n", "a\r", "a\r\n", "x\ny\r\n\r\nz"] {
        let want: Vec<String> = s.lines().map(String::from).collect();
        assert_eq!(split_lines(s), want, "{s:?}");
    }
}

#[test]
fn texts_are_trimmed_as_the_standard_library_does() {
    for s in ["", " ", "a", " a b\t", "\u{a0}x\u{2003}", "\r\n q \u{85}"] {
        assert_eq!(trim_text(s), s.trim(), "{s:?}");
        assert_eq!(blank_text(s), s.trim().is_empty(), "{s:?}");
    }
}

#[test]
fn white_space_is_what_the_standard_library_says() {
    for c in '\0'..=char::MAX {
        assert_eq!(is_space_char(c), c.is_whitespace(), "{c:?}");
    }
}

#[test]
fn upper_case_is_what_the_standard_library_says() {
    let all: String = ('\0'..='\u{ffff}').collect();
    let want: String = all.chars().flat_map(|c| c.to_uppercase()).collect();
    assert_eq!(uppercase(&all), want);
}

#[test]
fn small_changes_to_texts() {
    assert_eq!(join_list(&strings(&["a", "b", "c"]), ", "), "a, b, c");
    assert_eq!(join_list(&strings(&[]), ", "), "");
    assert_eq!(replace_char("a-b-c", '-', '_'), "a_b_c");
    assert_eq!(lowercase_ascii("AbC\u{c9}"), "abc\u{c9}");
    assert_eq!(uppercase("ab\u{e9}\u{df}\u{149}"), "ab\u{e9}\u{df}\u{149}".to_uppercase());
    assert_eq!(split_once_char("a=b=c", '='), Some(("a".to_string(), "b=c".to_string())));
    assert_eq!(split_once_char("abc", '='), None);
    assert!(contains_text("abcd", "bc") && contains_text("x", "") && !contains_text("b", "bc"));
    assert!(starts_with_text("abc", "ab") && !starts_with_text("abc", "b"));
}

#[test]
fn hashes_have_sixteen_digits() {
    for n in [0u64, 1, 0xdead_beef, u64::MAX] {
        assert_eq!(hex16(n), format!("{n:016x}"));
    }
}
