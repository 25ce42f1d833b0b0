use native_targets::discover::{
    collect_native_candidates, infer_any, infer_bin_sources, infer_file, infer_non_bin_targets,
    infer_subdirectory, inferred_bins, inferred_lib, is_header_only_native_path, is_not_dotfile,
    order_conflicting_targets, target_language_priority,
};
use native_targets::fs::{DirEntry, FsView, PathFact, PathKind};

fn tree(files: &[&str], dirs: &[&str]) -> FsView {
    let mut facts = Vec::new();
    for path in files {
        facts.push(PathFact { path: path.to_string(), kind: PathKind::File });
    }
    for path in dirs {
        facts.push(PathFact { path: path.to_string(), kind: PathKind::Dir });
    }
    FsView { facts }
}

fn entries(files: &[&str], dirs: &[&str]) -> Option<Vec<DirEntry>> {
    let mut list = Vec::new();
    for name in files {
        list.push(DirEntry { file_name: Some(name.to_string()), is_dir: false });
    }
    for name in dirs {
        list.push(DirEntry { file_name: Some(name.to_string()), is_dir: true });
    }
    Some(list)
}

fn strings(list: &[&str]) -> Vec<String> {
    list.iter().map(|s| s.to_string()).collect()
}

fn pairs(list: &[(&str, &str)]) -> Vec<(String, String)> {
    list.iter().map(|(a, b)| (a.to_string(), b.to_string())).collect()
}

#[test]
fn a_library_is_rust_native_or_headers() {
    assert_eq!(inferred_lib("/p", &tree(&["/p/src/lib.rs"], &[])), Ok(Some("src/lib.rs".to_string())));
    assert_eq!(inferred_lib("/p", &tree(&["/p/src/lib.cc"], &[])), Ok(Some("src/lib.cc".to_string())));
    assert_eq!(inferred_lib("/p", &tree(&[], &["/p/include"])), Ok(Some("include".to_string())));
    assert_eq!(
        inferred_lib("/p", &tree(&["/p/src/lib.c"], &["/p/include"])),
        Ok(Some("src/lib.c".to_string()))
    );
    assert_eq!(inferred_lib("/p", &tree(&["/p/include"], &[])), Ok(None));
    assert_eq!(inferred_lib("/p", &tree(&[], &[])), Ok(None));
}

#[test]
fn a_library_in_two_languages_is_refused() {
    assert_eq!(
        inferred_lib("/p", &tree(&["/p/src/lib.rs", "/p/src/lib.cpp"], &[])),
        Err("found conflicting library targets at `src/lib.rs` and `src/lib.cpp`; \
             a package cannot define both a Rust and C++ default library target"
            .to_string())
    );
}

#[test]
fn several_native_sources_for_one_target_are_refused() {
    let fs = tree(&["/p/src/lib.cc", "/p/src/lib.c"], &[]);
    assert_eq!(
        collect_native_candidates("/p", &fs, "src", "lib", false),
        Err("found multiple native C/C++ targets for `lib` at `src/lib.c`, `src/lib.cc`; \
             please keep only one default source file"
            .to_string())
    );
    assert_eq!(
        collect_native_candidates("/p", &fs, "src", "lib", true),
        Ok(strings(&["src/lib.c", "src/lib.cc"]))
    );
    assert_eq!(collect_native_candidates("/p", &fs, "src", "main", false), Ok(strings(&[])));
}

#[test]
fn binaries_stand_in_main_and_in_the_directory() {
    let fs = tree(&["/p/src/main.cpp", "/p/src/bin/two/main.c"], &["/p/src/bin", "/p/src/bin/two"]);
    assert_eq!(
        inferred_bins("/p", "pkg", &fs, &entries(&["one.rs", ".x.rs", "t.txt"], &["two"])),
        Ok(pairs(&[
            ("pkg", "src/main.cpp"),
            ("one", "src/bin/one.rs"),
            ("two", "src/bin/two/main.c"),
        ]))
    );
    assert_eq!(inferred_bins("/p", "pkg", &tree(&[], &[]), &None), Ok(pairs(&[])));
    assert_eq!(
        inferred_bins("/p", "pkg", &tree(&["/p/src/main.rs", "/p/src/main.c"], &[]), &None),
        Err("found conflicting binary targets at `src/main.rs` and `src/main.c`; \
             a package cannot define both a Rust and C++ default binary target"
            .to_string())
    );
}

#[test]
fn targets_come_sorted_by_name() {
    let fs = tree(&[], &["/p/tests"]);
    assert_eq!(
        infer_non_bin_targets("/p", &fs, "tests", &entries(&["b.cc", "c.rs", "a.c"], &[])),
        Ok(pairs(&[("a", "tests/a.c"), ("b", "tests/b.cc"), ("c", "tests/c.rs")]))
    );
    assert_eq!(infer_non_bin_targets("/p", &fs, "tests", &None), Ok(pairs(&[])));
}

#[test]
fn two_targets_with_one_name_are_refused() {
    let fs = tree(&[], &[]);
    let message = "found conflicting targets `a` at `tests/a.rs` and `tests/a.cpp`; \
                   a package cannot define both a Rust and C++ target with the same name";
    for list in [["a.rs", "a.cpp"], ["a.cpp", "a.rs"]] {
        assert_eq!(
            infer_non_bin_targets("/p", &fs, "tests", &entries(&list, &[])),
            Err(message.to_string())
        );
    }
    assert_eq!(
        infer_bin_sources("/p", &fs, "src/bin", &entries(&["a.cc", "a.c"], &[])),
        Err("found conflicting binary targets `a` at `src/bin/a.c` and `src/bin/a.cc`; \
             a package cannot define both a C and C++ target with the same name"
            .to_string())
    );
}

#[test]
fn a_directory_in_two_languages_is_refused() {
    let fs = tree(&["/p/examples/e/main.rs", "/p/examples/e/main.cxx"], &["/p/examples/e"]);
    let tail = "`e` at `examples/e/main.rs` and `examples/e/main.cxx`; \
                a package cannot define both a Rust and native C/C++ target with the same name";
    assert_eq!(
        infer_non_bin_targets("/p", &fs, "examples", &entries(&[], &["e"])),
        Err(format!("found conflicting targets {tail}"))
    );
    assert_eq!(
        infer_bin_sources("/p", &fs, "examples", &entries(&[], &["e"])),
        Err(format!("found conflicting binary targets {tail}"))
    );
}

#[test]
fn single_entries() {
    let f = infer_file("/p", "/p/tests/x.cc", "C++").unwrap();
    assert_eq!((f.name.as_str(), f.path.as_str(), f.language), ("x", "tests/x.cc", "C++"));
    assert!(infer_file("/p", "/p/tests/..", "Rust").is_none());
    let fs = tree(&["/p/tests/d/main.c"], &["/p/tests/d"]);
    let f = infer_subdirectory("/p", &fs, "/p/tests/d", "targets").unwrap().unwrap();
    assert_eq!((f.name.as_str(), f.path.as_str(), f.language), ("d", "tests/d/main.c", "C"));
    assert!(infer_subdirectory("/p", &fs, "/p/tests/e", "targets").unwrap().is_none());
    assert!(infer_any("/p", &fs, "/p/tests/readme.md", false, "targets").unwrap().is_none());
    assert_eq!(infer_any("/p", &fs, "/p/tests/d", true, "targets").unwrap().unwrap().name, "d");
    assert_eq!(infer_any("/p", &fs, "/p/tests/y.rs", false, "targets").unwrap().unwrap().language, "Rust");
}

#[test]
fn hidden_entries_are_left_out() {
    let entry = |name: Option<&str>| DirEntry { file_name: name.map(String::from), is_dir: false };
    assert!(is_not_dotfile(&entry(Some("a.rs"))));
    assert!(!is_not_dotfile(&entry(Some(".a.rs"))));
    assert!(!is_not_dotfile(&entry(None)));
}

#[test]
fn conflicts_are_ordered_by_language_and_path() {
    assert_eq!(target_language_priority("Rust"), 0);
    assert_eq!(target_language_priority("C"), 1);
    assert_eq!(target_language_priority("C++"), 1);
    assert_eq!(target_language_priority("Zig"), 2);
    let left = ("a.cc".to_string(), "C++");
    let right = ("z.rs".to_string(), "Rust");
    let (first, second) = order_conflicting_targets(left.clone(), right.clone());
    assert_eq!((first.0.as_str(), second.0.as_str()), ("z.rs", "a.cc"));
    let (first, second) = order_conflicting_targets(right, left);
    assert_eq!((first.0.as_str(), second.0.as_str()), ("z.rs", "a.cc"));
    let (first, _) =
        order_conflicting_targets(("b.c".to_string(), "C"), ("a.c".to_string(), "C"));
    assert_eq!(first.0, "a.c");
}

#[test]
fn header_only_paths_are_directories_or_headers() {
    let fs = tree(&["/p/include/x.hpp"], &["/p/include"]);
    assert!(is_header_only_native_path("/p/include", &fs));
    assert!(is_header_only_native_path("/p/include/x.hpp", &fs));
    assert!(!is_header_only_native_path("/p/src/lib.rs", &fs));
}
