use native_targets::manifest::{parse_edition, Edition, TomlTarget};
use native_targets::validate::{
    deprecated_underscore, is_conflicting_artifact_name, is_windows_reserved,
    validate_bin_crate_types, validate_bin_name, validate_bin_proc_macro, validate_crate_types,
    validate_lib_name, validate_proc_macro, validate_target_name, validate_unique_build_scripts,
    validate_unique_names,
};

fn named(name: &str) -> TomlTarget {
    let mut t = TomlTarget::new();
    t.name = Some(name.to_string());
    t
}

fn strings(list: &[&str]) -> Vec<String> {
    list.iter().map(|s| s.to_string()).collect()
}

#[test]
fn editions_are_parsed() {
    assert_eq!(parse_edition("2015"), Some(Edition::Edition2015));
    assert_eq!(parse_edition("2018"), Some(Edition::Edition2018));
    assert_eq!(parse_edition("2021"), Some(Edition::Edition2021));
    assert_eq!(parse_edition("2024"), Some(Edition::Edition2024));
    assert_eq!(parse_edition("1999"), None);
    assert_eq!(parse_edition(""), None);
}

#[test]
fn names_are_required() {
    let mut w = vec![];
    let t = TomlTarget::new();
    assert_eq!(
        validate_target_name(&t, "example", "example", false, &mut w),
        Err("example target example.name is required".to_string())
    );
    assert_eq!(
        validate_target_name(&named(" \t"), "test", "test", false, &mut w),
        Err("test target names cannot be empty".to_string())
    );
    assert!(w.is_empty());
}

#[test]
fn reserved_names_are_warned_of_on_windows() {
    let mut w = vec![];
    assert!(validate_target_name(&named("CoN"), "binary", "bin", false, &mut w).is_ok());
    assert!(w.is_empty());
    assert!(validate_target_name(&named("CoN"), "binary", "bin", true, &mut w).is_ok());
    assert_eq!(
        w,
        strings(&[
            "binary target `CoN` is a reserved Windows filename, this target will not work on Windows platforms"
        ])
    );
    for name in ["con", "PRN", "aux", "nul", "com1", "LPT9"] {
        assert!(is_windows_reserved(name), "{name}");
    }
    for name in ["com", "com0", "com10", "console"] {
        assert!(!is_windows_reserved(name), "{name}");
    }
}

#[test]
fn libraries_have_no_hyphens() {
    let mut w = vec![];
    assert_eq!(
        validate_lib_name(&named("a-b"), false, &mut w),
        Err("library target names cannot contain hyphens: a-b".to_string())
    );
    assert_eq!(validate_lib_name(&named("a_b"), false, &mut w), Ok(()));
}

#[test]
fn binaries_are_not_named_like_build_directories() {
    let mut w = vec![];
    for name in ["deps", "examples", "build", "incremental"] {
        assert!(is_conflicting_artifact_name(name));
        assert_eq!(
            validate_bin_name(&named(name), false, &mut w),
            Err(format!(
                "the binary target name `{name}` is forbidden, it conflicts with cargo's build directory names"
            ))
        );
    }
    assert_eq!(validate_bin_name(&named("dep"), false, &mut w), Ok(()));
}

#[test]
fn keys_with_underscores_grow_old() {
    let mut w = vec![];
    let check = |old: bool, new: bool, edition: Edition, w: &mut Vec<String>| {
        deprecated_underscore(old, new, "crate-type", "x", "library target", edition, w)
    };
    assert_eq!(check(false, true, Edition::Edition2024, &mut w), Ok(()));
    assert!(w.is_empty());
    assert_eq!(
        check(true, false, Edition::Edition2024, &mut w),
        Err("`crate_type` is unsupported as of the 2024 edition; instead use `crate-type`\n(in the `x` library target)".to_string())
    );
    assert_eq!(check(true, true, Edition::Edition2021, &mut w), Ok(()));
    assert_eq!(check(true, false, Edition::Edition2015, &mut w), Ok(()));
    assert_eq!(
        w,
        strings(&[
            "`crate_type` is redundant with `crate-type`, preferring `crate-type` in the `x` library target",
            "`crate_type` is deprecated in favor of `crate-type` and will not work in the 2024 edition\n(in the `x` library target)",
        ])
    );
}

#[test]
fn macros_and_crate_types_of_libraries() {
    let mut w = vec![];
    let mut t = named("m");
    t.proc_macro2 = Some(true);
    t.crate_type2 = Some(strings(&["lib"]));
    assert!(validate_proc_macro(&t, "library", Edition::Edition2024, &mut w).is_err());
    assert!(validate_crate_types(&t, "library", Edition::Edition2024, &mut w).is_err());
    assert!(validate_proc_macro(&t, "library", Edition::Edition2021, &mut w).is_ok());
    assert!(validate_crate_types(&t, "library", Edition::Edition2021, &mut w).is_ok());
    assert_eq!(w.len(), 2);
    assert!(w[0].contains("`proc_macro` is deprecated in favor of `proc-macro`"));
    assert!(w[1].contains("`crate_type` is deprecated in favor of `crate-type`"));
}

#[test]
fn macros_and_crate_types_of_binaries() {
    let (mut w, mut e) = (vec![], vec![]);
    let mut t = named("b");
    t.proc_macro = Some(true);
    t.crate_type = Some(strings(&["cdylib", "lib"]));
    assert!(validate_bin_proc_macro(&t, Edition::Edition2021, &mut w, &mut e).is_ok());
    assert!(validate_bin_crate_types(&t, Edition::Edition2021, &mut w, &mut e).is_ok());
    assert!(w.is_empty());
    assert_eq!(
        e,
        strings(&[
            "the target `b` is a binary and can't have `proc-macro` set `true`",
            "the target `b` is a binary and can't have any crate-types set (currently \"cdylib, lib\")",
        ])
    );
}

#[test]
fn names_are_unique() {
    let list = vec![named("a"), named("b"), named("a"), named("b")];
    assert_eq!(
        validate_unique_names(&list, "binary"),
        Err("found duplicate binary name a, but all binary targets must have a unique name".to_string())
    );
    assert_eq!(validate_unique_names(&vec![named("a"), named("b")], "test"), Ok(()));
}

#[test]
fn file_stems_of_scripts_are_unique() {
    assert_eq!(validate_unique_build_scripts(&strings(&["a.rs", "x/b.rs"])), Ok(()));
    assert_eq!(
        validate_unique_build_scripts(&strings(&["a.rs", "b.rs", "x/a.rs", "y/b.rs", "c.rs"])),
        Err("found build scripts with duplicate file stems, but all build scripts must have a unique file stem\n  \
             for stem `a`: a.rs, x/a.rs\n  for stem `b`: b.rs, y/b.rs"
            .to_string())
    );
}
