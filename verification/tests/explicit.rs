use native_targets::fs::{DirEntry, FsView, PathFact, PathKind};
use native_targets::manifest::{
    normalize_manifest_paths, normalize_native_manifest_paths, normalized_build, Edition,
    TomlPackageBuild, TomlTarget,
};
use native_targets::normalize::{
    are_normalized, inferred_to_toml_targets, is_normalized, legacy_bin_path, normalize_benches,
    normalize_bins, normalize_build, normalize_examples, normalize_lib, normalize_tests,
    possible_target_paths, target_path, target_path_not_found_error_message,
    toml_targets_and_inferred, KindWords, LegacyRule, PackageFiles, PathRules,
};

fn tree(files: &[&str], dirs: &[&str]) -> FsView {
    let mut facts = Vec::new();
    for path in files {
        facts.push(PathFact { path: path.to_string(), kind: PathKind::File });
    }
    for path in dirs {
        facts.push(PathFact { path: path.to_string(), kind: PathKind::Dir });
    }
    FsView { facts }
}

fn entries(files: &[&str]) -> Option<Vec<DirEntry>> {
    Some(
        files
            .iter()
            .map(|name| DirEntry { file_name: Some(name.to_string()), is_dir: false })
            .collect(),
    )
}

fn strings(list: &[&str]) -> Vec<String> {
    list.iter().map(|s| s.to_string()).collect()
}

fn pairs(list: &[(&str, &str)]) -> Vec<(String, String)> {
    list.iter().map(|(a, b)| (a.to_string(), b.to_string())).collect()
}

fn target(name: Option<&str>, path: Option<&str>) -> TomlTarget {
    let mut t = TomlTarget::new();
    t.name = name.map(String::from);
    t.path = path.map(String::from);
    t
}

fn rules<'a>(
    kind: &'a str,
    edition: Edition,
    legacy: LegacyRule,
    fs: &'a FsView,
    hints: &'a Vec<(String, String)>,
) -> PathRules<'a> {
    PathRules { kind, package_root: "/p", edition, legacy, fs, hints }
}

fn package<'a>(
    edition: Edition,
    fs: &'a FsView,
    hints: &'a Vec<(String, String)>,
) -> PackageFiles<'a> {
    PackageFiles { root: "/p", edition, fs, hints }
}

fn shown(list: &[TomlTarget]) -> Vec<(Option<&str>, Option<&str>)> {
    list.iter().map(|t| (t.name.as_deref(), t.path.as_deref())).collect()
}

#[test]
fn paths_of_a_manifest_are_normalized() {
    let mut t = target(Some("x"), Some("./src/../lib//x.c"));
    t.native_include_root = Some("a/./b/..".to_string());
    t.native_include_dirs = Some(strings(&["../x", "y/../../z", "/../r"]));
    t.native_link_search = Some(strings(&["libs/"]));
    t.native_defines = Some(strings(&["./A"]));
    normalize_native_manifest_paths(&mut t);
    assert_eq!(t.path.as_deref(), Some("./src/../lib//x.c"));
    normalize_manifest_paths(&mut t);
    assert_eq!(t.path.as_deref(), Some("lib/x.c"));
    assert_eq!(t.native_include_root.as_deref(), Some("a"));
    assert_eq!(t.native_include_dirs, Some(strings(&["../x", "../z", "/r"])));
    assert_eq!(t.native_link_search, Some(strings(&["libs"])));
    assert_eq!(t.native_defines, Some(strings(&["./A"])));
    let before = format!("{t:?}");
    normalize_manifest_paths(&mut t);
    assert_eq!(format!("{t:?}"), before);
}

#[test]
fn a_target_is_normalized_with_name_and_path() {
    assert!(is_normalized(&None, Some(false)));
    assert!(!is_normalized(&None, None));
    assert!(!is_normalized(&None, Some(true)));
    assert!(is_normalized(&Some(target(Some("a"), Some("p"))), Some(false)));
    assert!(!is_normalized(&Some(target(Some("a"), None)), Some(false)));
    assert!(!are_normalized(&Some(vec![target(None, Some("p"))]), Some(false)));
    assert!(are_normalized(&Some(vec![]), Some(false)));
}

fn lib(
    original: Option<TomlTarget>,
    edition: Edition,
    autodiscover: Option<bool>,
    fs: &FsView,
    w: &mut Vec<String>,
) -> Result<Option<TomlTarget>, String> {
    normalize_lib(&original, "/p", "my-pkg", edition, autodiscover, fs, false, w)
}

#[test]
fn a_library_is_named_after_the_package() {
    let mut w = vec![];
    let fs = tree(&["/p/src/lib.cpp"], &[]);
    let t = lib(None, Edition::Edition2021, None, &fs, &mut w).unwrap().unwrap();
    assert_eq!((t.name.as_deref(), t.path.as_deref()), (Some("my_pkg"), Some("src/lib.cpp")));
    let t = lib(Some(target(Some("own"), Some("./x/lib.c"))), Edition::Edition2021, None, &fs, &mut w)
        .unwrap()
        .unwrap();
    assert_eq!((t.name.as_deref(), t.path.as_deref()), (Some("own"), Some("x/lib.c")));
    assert!(lib(None, Edition::Edition2021, None, &tree(&[], &[]), &mut w).unwrap().is_none());
    assert!(lib(None, Edition::Edition2021, Some(false), &fs, &mut w).unwrap().is_none());
    assert!(w.is_empty());
}

#[test]
fn a_library_that_was_made_explicit_stays() {
    let mut w = vec![];
    let fs = tree(&[], &["/p/include"]);
    let once = lib(None, Edition::Edition2021, None, &fs, &mut w).unwrap();
    let text = format!("{once:?}");
    let twice = lib(once, Edition::Edition2021, Some(false), &fs, &mut w).unwrap();
    assert_eq!(format!("{twice:?}"), text);
}

#[test]
fn a_library_that_is_not_found_is_told() {
    let mut w = vec![];
    let e = lib(Some(target(Some("own"), None)), Edition::Edition2021, None, &tree(&[], &[]), &mut w);
    assert_eq!(
        e.unwrap_err(),
        "can't find library `own`, rename file to `src/lib.rs` or `src/lib.cpp`, \
         add `include/` for a header-only library, or specify lib.path"
    );
    let fs = tree(&["/p/src/own.rs"], &[]);
    assert!(lib(Some(target(Some("own"), None)), Edition::Edition2018, None, &fs, &mut w).is_err());
    let t = lib(Some(target(Some("own"), None)), Edition::Edition2015, None, &fs, &mut w)
        .unwrap()
        .unwrap();
    assert_eq!(t.path.as_deref(), Some("src/own.rs"));
    assert_eq!(
        w,
        strings(&[
            "path `src/own.rs` was erroneously implicitly accepted for library `own`,\n\
             please rename the file to `src/lib.rs` or set lib.path in Cargo.toml"
        ])
    );
}

#[test]
fn a_library_in_two_places_is_refused_even_when_explicit() {
    let mut w = vec![];
    let fs = tree(&["/p/src/lib.rs", "/p/src/lib.c"], &[]);
    let t = Some(target(Some("a"), Some("src/lib.rs")));
    assert!(lib(t, Edition::Edition2021, Some(false), &fs, &mut w).is_err());
}

#[test]
fn legacy_binaries() {
    let fs = tree(&["/p/src/x.rs", "/p/src/bin/main.rs"], &[]);
    assert_eq!(legacy_bin_path("/p", "x", false, &fs), Some("src/x.rs".to_string()));
    assert_eq!(legacy_bin_path("/p", "x", true, &fs), Some("src/bin/main.rs".to_string()));
    let fs = tree(&["/p/src/main.rs", "/p/src/bin/main.rs"], &[]);
    assert_eq!(legacy_bin_path("/p", "x", true, &fs), Some("src/main.rs".to_string()));
    assert_eq!(legacy_bin_path("/p", "x", false, &tree(&[], &[])), None);
}

#[test]
fn possible_places_of_targets() {
    let both = |kind: &str, wrong: bool| possible_target_paths("x", kind, wrong);
    let two = |a: &str, b: &str| (a.to_string(), b.to_string());
    assert_eq!(both("test", false), two("tests/x.rs", "tests/x/main.rs"));
    assert_eq!(both("test", true), two("test/x.rs", "test/x/main.rs"));
    assert_eq!(both("bench", false), two("benches/x.rs", "benches/x/main.rs"));
    assert_eq!(both("example", false), two("examples/x.rs", "examples/x/main.rs"));
    assert_eq!(both("bin", false), two("src/bin/x.rs", "src/bin/x/main.rs"));
    assert_eq!(both("bin", true), two("src/bins/x.rs", "src/bins/x/main.rs"));
}

#[test]
fn messages_for_targets_that_are_not_found() {
    assert_eq!(
        target_path_not_found_error_message("/p", "x", "test", &tree(&[], &[]), ""),
        "can't find `x` test at `tests/x.rs` or `tests/x/main.rs`. \
         Please specify test.path if you want to use a non-default path."
    );
    assert_eq!(
        target_path_not_found_error_message("/p", "x", "bin", &tree(&["/p/src/bins/x.rs"], &[]), "!"),
        "can't find `x` bin at default paths, but found a file at `src/bins/x.rs`.\n\
         Perhaps rename the file to `src/bin/x.rs` for target auto-discovery, \
         or specify bin.path if you want to use a non-default path.!"
    );
    assert_eq!(
        target_path_not_found_error_message("/p", "x", "example", &tree(&["/p/example/x/main.rs"], &[]), ""),
        "can't find `x` example at default paths, but found a file at `example/x/main.rs`.\n\
         Perhaps rename the file to `examples/x/main.rs` for target auto-discovery, \
         or specify example.path if you want to use a non-default path."
    );
}

#[test]
fn paths_of_targets() {
    let fs = tree(&["/p/src/bench.rs"], &[]);
    let hints = pairs(&[("y", "\n\n\thelp: a target with a similar name exists: `x`")]);
    let mut w = vec![];
    let inferred = pairs(&[("x", "benches/x.rs"), ("z", "/p/benches/z.rs"), ("z", "benches/z/main.rs")]);
    let r = rules("bench", Edition::Edition2015, LegacyRule::Bench, &fs, &hints);
    assert_eq!(target_path(&target(Some("x"), Some("own.rs")), &inferred, &r, &mut w), Ok("own.rs".to_string()));
    assert_eq!(target_path(&target(Some("x"), None), &inferred, &r, &mut w), Ok("benches/x.rs".to_string()));
    assert_eq!(
        target_path(&target(Some("z"), None), &inferred, &r, &mut w),
        Err("cannot infer path for `z` bench\nCargo doesn't know which to use because \
             multiple target files found at `benches/z.rs` and `benches/z/main.rs`."
            .to_string())
    );
    assert_eq!(
        target_path(&target(Some("y"), None), &inferred, &r, &mut w),
        Err("can't find `y` bench at `benches/y.rs` or `benches/y/main.rs`. Please specify bench.path \
             if you want to use a non-default path.\n\n\thelp: a target with a similar name exists: `x`"
            .to_string())
    );
    assert!(w.is_empty());
    assert_eq!(target_path(&target(Some("bench"), None), &inferred, &r, &mut w), Ok("src/bench.rs".to_string()));
    assert_eq!(
        w,
        strings(&[
            "path `src/bench.rs` was erroneously implicitly accepted for benchmark `bench`,\n\
             please set bench.path in Cargo.toml"
        ])
    );
    let r = rules("bench", Edition::Edition2018, LegacyRule::Bench, &fs, &hints);
    assert!(target_path(&target(Some("bench"), None), &inferred, &r, &mut w).is_err());
}

fn merge(
    list: Option<Vec<TomlTarget>>,
    inferred: &Vec<(String, String)>,
    autodiscover: Option<bool>,
    edition: Edition,
    w: &mut Vec<String>,
) -> Vec<TomlTarget> {
    let words = KindWords { human: "test", kind: "test", flag: "autotests" };
    toml_targets_and_inferred(&list, inferred, "/p", autodiscover, edition, &words, w)
}

#[test]
fn manifest_and_inferred_targets_are_merged() {
    let mut w = vec![];
    let inferred = pairs(&[("a", "tests/a.rs"), ("b", "tests/b.rs"), ("c", "tests/c.rs")]);
    let own = || Some(vec![target(Some("z"), Some("tests/a.rs")), target(Some("b"), Some("x.rs"))]);
    let both = vec![(Some("b"), Some("x.rs")), (Some("c"), Some("tests/c.rs")), (Some("z"), Some("tests/a.rs"))];
    let alone = vec![(Some("b"), Some("x.rs")), (Some("z"), Some("tests/a.rs"))];
    assert_eq!(shown(&merge(own(), &inferred, None, Edition::Edition2021, &mut w)), both);
    assert_eq!(shown(&merge(own(), &inferred, Some(true), Edition::Edition2015, &mut w)), both);
    assert_eq!(shown(&merge(own(), &inferred, Some(false), Edition::Edition2021, &mut w)), alone);
    assert!(w.is_empty());
    assert_eq!(shown(&merge(own(), &inferred, None, Edition::Edition2015, &mut w)), alone);
    assert_eq!(w.len(), 1);
    assert!(w[0].starts_with(
        "An explicit [[test]] section is specified in Cargo.toml which currently\n\
         disables Cargo from automatically inferring other test targets.\n"
    ));
    assert!(w[0].contains("files will be included as a test target:\n\n* tests/c.rs\n\nThis is likely"));
    assert!(w[0].contains("disable this warning by adding `autotests = false` to your [package]\n"));
    let all = inferred_to_toml_targets(&inferred);
    assert_eq!(shown(&merge(None, &inferred, None, Edition::Edition2015, &mut w)), shown(&all));
    assert!(merge(None, &inferred, Some(false), Edition::Edition2021, &mut w).is_empty());
}

#[test]
fn binaries_are_made_explicit() {
    let (mut w, mut e) = (vec![], vec![]);
    let fs = tree(&["/p/src/main.c"], &["/p/src/bin"]);
    let hints = vec![];
    let p = package(Edition::Edition2021, &fs, &hints);
    let listing = entries(&["tool.cpp"]);
    let list = normalize_bins(&None, &p, "pkg", None, &listing, false, &mut w, &mut e, false).unwrap();
    assert_eq!(
        shown(&list),
        vec![(Some("pkg"), Some("src/main.c")), (Some("tool"), Some("src/bin/tool.cpp"))]
    );
    let text = format!("{list:?}");
    let again = normalize_bins(&Some(list), &p, "pkg", Some(false), &listing, false, &mut w, &mut e, false).unwrap();
    assert_eq!(format!("{again:?}"), text);
    assert!(w.is_empty() && e.is_empty());
    let lost = Some(vec![target(Some("lost"), None)]);
    let err = normalize_bins(&lost, &p, "pkg", None, &listing, false, &mut w, &mut e, false).unwrap_err();
    assert!(err.starts_with("can't find `lost` bin at `src/bin/lost.rs`"), "{err}");
    let unnamed = Some(vec![target(None, None)]);
    assert_eq!(
        normalize_bins(&unnamed, &p, "pkg", None, &listing, false, &mut w, &mut e, false).unwrap_err(),
        "binary target bin.name is required"
    );
}

#[test]
fn old_binaries_are_warned_of() {
    let (mut w, mut e) = (vec![], vec![]);
    let fs = tree(&["/p/src/tool.rs"], &[]);
    let hints = vec![];
    let p = package(Edition::Edition2015, &fs, &hints);
    let list = Some(vec![target(Some("tool"), None)]);
    let list = normalize_bins(&list, &p, "pkg", None, &None, false, &mut w, &mut e, false).unwrap();
    assert_eq!(shown(&list), vec![(Some("tool"), Some("src/tool.rs"))]);
    assert_eq!(
        w,
        strings(&[
            "path `src/tool.rs` was erroneously implicitly accepted for binary `tool`,\n\
             please set bin.path in Cargo.toml"
        ])
    );
}

#[test]
fn a_lost_example_does_not_stop_the_others() {
    let (mut w, mut e) = (vec![], vec![]);
    let fs = tree(&[], &[]);
    let hints = vec![];
    let p = package(Edition::Edition2021, &fs, &hints);
    let list = Some(vec![target(Some("lost"), None), target(Some("own"), Some("./x/../own.c"))]);
    let list = normalize_examples(&list, &p, &entries(&["demo.cc"]), None, false, &mut w, &mut e).unwrap();
    assert_eq!(
        shown(&list),
        vec![(Some("demo"), Some("examples/demo.cc")), (Some("own"), Some("own.c"))]
    );
    assert_eq!(e.len(), 1);
    assert!(e[0].starts_with("can't find `lost` example"));
    let text = format!("{list:?}");
    let again = normalize_examples(&Some(list), &p, &None, Some(false), false, &mut w, &mut e).unwrap();
    assert_eq!(format!("{again:?}"), text);
}

#[test]
fn tests_and_benchmarks_are_made_explicit() {
    let (mut w, mut e) = (vec![], vec![]);
    let fs = tree(&["/p/src/bench.rs"], &[]);
    let hints = vec![];
    let p = package(Edition::Edition2021, &fs, &hints);
    let list = normalize_tests(&None, &p, &entries(&["t.c"]), None, false, &mut w, &mut e).unwrap();
    assert_eq!(shown(&list), vec![(Some("t"), Some("tests/t.c"))]);
    let p = package(Edition::Edition2015, &fs, &hints);
    let own = Some(vec![target(Some("bench"), None)]);
    let list = normalize_benches(&own, &p, &entries(&["b.cc"]), None, false, &mut w, &mut e).unwrap();
    assert_eq!(shown(&list), vec![(Some("bench"), Some("src/bench.rs"))]);
    assert_eq!(w.len(), 2);
    assert!(w[0].starts_with("An explicit [[bench]] section"));
    assert!(w[0].contains("* benches/b.cc\n"));
    assert!(w[1].starts_with("path `src/bench.rs` was erroneously implicitly accepted for benchmark `bench`"));
    assert!(e.is_empty());
}

#[test]
fn build_scripts_are_made_explicit() {
    let with = tree(&["/p/build.rs"], &[]);
    let without = tree(&[], &["/p/build.rs"]);
    let show = |b: &TomlPackageBuild| format!("{b:?}");
    let single = |s: &str| show(&TomlPackageBuild::SingleScript(s.to_string()));
    assert_eq!(show(&normalize_build(&None, "/p", &with)), single("build.rs"));
    assert_eq!(show(&normalize_build(&None, "/p", &without)), show(&TomlPackageBuild::Auto(false)));
    let on = Some(TomlPackageBuild::Auto(true));
    assert_eq!(show(&normalize_build(&on, "/p", &without)), single("build.rs"));
    let off = Some(TomlPackageBuild::Auto(false));
    assert_eq!(show(&normalize_build(&off, "/p", &with)), show(&TomlPackageBuild::Auto(false)));
    let one = normalize_build(&Some(TomlPackageBuild::SingleScript("./x/../b.rs".to_string())), "/p", &with);
    assert_eq!(show(&one), single("b.rs"));
    assert_eq!(show(&normalize_build(&Some(one), "/p", &with)), single("b.rs"));
    let many = Some(TomlPackageBuild::MultipleScript(strings(&["./a.rs", "b.rs"])));
    assert_eq!(
        normalized_build(&Some(normalize_build(&many, "/p", &with))),
        Some(strings(&["./a.rs", "b.rs"]))
    );
    assert_eq!(normalized_build(&Some(TomlPackageBuild::Auto(false))), None);
}
