use native_targets::fs::{FsView, PathFact, PathKind};
use native_targets::manifest::{Edition, TomlPackageBuild, TomlTarget};
use native_targets::targets::{
    apply_native_manifest_overrides, configure, to_bench_targets, to_bin_targets,
    to_example_targets, to_lib_target, to_targets, to_test_targets, Manifest, ScrapeExamples,
    Target, TargetShape, TomlPackage,
};

const ED: Edition = Edition::Edition2021;

fn tree(files: &[&str], dirs: &[&str]) -> FsView {
    let mut facts = Vec::new();
    for path in files {
        facts.push(PathFact { path: path.to_string(), kind: PathKind::File });
    }
    for path in dirs {
        facts.push(PathFact { path: path.to_string(), kind: PathKind::Dir });
    }
    FsView { facts }
}

fn strings(list: &[&str]) -> Vec<String> {
    list.iter().map(|s| s.to_string()).collect()
}

fn toml(name: &str, path: &str) -> TomlTarget {
    let mut t = TomlTarget::new();
    t.name = Some(name.to_string());
    t.path = Some(path.to_string());
    t
}

fn lib(t: TomlTarget, fs: &FsView) -> Result<Target, String> {
    let mut w = vec![];
    to_lib_target(&None, &Some(t), "/p", ED, fs, &mut w).map(|t| t.unwrap())
}

#[test]
fn switches_of_the_manifest_are_set() {
    let mut t = toml("x", "src/x.rs");
    t.test = Some(false);
    t.harness = Some(true);
    t.proc_macro2 = Some(true);
    t.doc_scrape_examples = Some(false);
    t.edition = Some("2018".to_string());
    let mut target = Target::plain(TargetShape::Bin, "x", None, Some(ED));
    target.tested = Some(true);
    target.doctested = Some(true);
    let mut w = vec![];
    configure(&t, &mut target, "binary", &mut w).unwrap();
    assert_eq!(target.tested, Some(false));
    assert_eq!(target.doctested, Some(true));
    assert_eq!(target.benched, None);
    assert_eq!(target.harness, Some(true));
    assert_eq!((target.proc_macro, target.for_host), (Some(true), Some(true)));
    assert_eq!(target.doc_scrape_examples, ScrapeExamples::Disabled);
    assert_eq!(target.edition, Some(Edition::Edition2018));
    assert_eq!(w, strings(&["`edition` is set on binary `x` which is deprecated"]));
    t.edition = Some("x".to_string());
    assert_eq!(
        configure(&t, &mut target, "binary", &mut w),
        Err("failed to parse the `edition` key".to_string())
    );
    assert_eq!(w.len(), 2);
}

#[test]
fn native_keys_are_joined_to_the_package() {
    let fs = tree(&[], &["/p/inc", "/p/more", "/p/priv", "/p/libs"]);
    let mut t = toml("x", "src/x.c");
    t.native_include_root = Some("inc".to_string());
    t.native_sources_root = Some("more".to_string());
    t.native_include_dirs = Some(strings(&["priv", "inc"]));
    t.native_defines = Some(strings(&["A=1"]));
    t.native_link_search = Some(strings(&["libs"]));
    t.native_link_libraries = Some(strings(&["z"]));
    t.native_link_args = Some(strings(&["-Wl,-x"]));
    let mut target = Target::plain(TargetShape::NativeBin, "x", Some("/p/src/x.c".to_string()), Some(ED));
    apply_native_manifest_overrides(&t, &mut target, "/p", &fs).unwrap();
    assert_eq!(target.native_include_root.as_deref(), Some("/p/inc"));
    assert_eq!(target.native_sources_root.as_deref(), Some("/p/more"));
    assert_eq!(target.native_include_dirs, strings(&["/p/priv", "/p/inc"]));
    assert_eq!(target.native_defines, strings(&["A=1"]));
    assert_eq!(target.native_link_search, strings(&["/p/libs"]));
    assert_eq!(target.native_link_libraries, strings(&["z"]));
    assert_eq!(target.native_link_args, strings(&["-Wl,-x"]));
}

fn refused(t: &TomlTarget, mut target: Target, fs: &FsView) -> String {
    apply_native_manifest_overrides(t, &mut target, "/p", fs).unwrap_err()
}

fn native() -> Target {
    Target::plain(TargetShape::NativeBin, "x", Some("/p/src/x.c".to_string()), Some(ED))
}

fn headers() -> Target {
    Target::plain(TargetShape::HeaderOnlyLib, "x", Some("/p/include".to_string()), Some(ED))
}

fn archive() -> Target {
    let mut t = Target::plain(TargetShape::NativeLib, "x", Some("/p/src/x.c".to_string()), Some(ED));
    t.crate_types = strings(&["staticlib"]);
    t
}

#[test]
fn native_keys_that_do_not_fit_are_refused() {
    let fs = tree(&["/p/file"], &["/p/dir"]);
    let mut t = toml("x", "src/x.rs");
    t.native_defines = Some(vec![]);
    let rust = Target::plain(TargetShape::Bin, "x", Some("/p/src/x.rs".to_string()), Some(ED));
    assert_eq!(
        refused(&t, rust, &fs),
        "target `x` sets native-only manifest keys, but those keys are only supported for native C/C++ targets"
    );
    assert_eq!(refused(&t, headers(), &fs), "header-only native library `x` cannot set `native-defines`");
    t.native_defines = Some(strings(&["A", ""]));
    assert_eq!(
        refused(&t, native(), &fs),
        "target `x` specifies `native-defines`, but defines cannot be empty strings"
    );

    let mut t = toml("x", "src/x.c");
    t.native_include_root = Some("file".to_string());
    assert_eq!(
        refused(&t, native(), &fs),
        "target `x` specifies `native-include-root = \"file\"`, but that path is not a directory"
    );
    t.native_include_root = Some("missing".to_string());
    assert!(apply_native_manifest_overrides(&t, &mut native(), "/p", &fs).is_ok());
    let mut unnamed = toml("x", "src/lib.c");
    unnamed.name = None;
    unnamed.native_defines = Some(vec!["A=1".to_string()]);
    let mut target = native();
    assert!(apply_native_manifest_overrides(&unnamed, &mut target, "/p", &fs).is_ok());
    assert_eq!(target.native_defines, vec!["A=1".to_string()]);

    let mut t = toml("x", "src/x.c");
    t.native_sources_root = Some("missing".to_string());
    assert_eq!(
        refused(&t, native(), &fs),
        "target `x` specifies `native-sources-root = \"missing\"`, but that path is not a directory"
    );
    assert_eq!(refused(&t, headers(), &fs), "header-only native library `x` cannot set `native-sources-root`");

    let mut t = toml("x", "src/x.c");
    t.native_include_dirs = Some(strings(&["dir", "file"]));
    assert_eq!(
        refused(&t, native(), &fs),
        "target `x` specifies `native-include-dirs = [\"file\"]`, but that path is not a directory"
    );
    assert_eq!(refused(&t, headers(), &fs), "header-only native library `x` cannot set `native-include-dirs`");

    let mut t = toml("x", "src/x.c");
    t.native_link_search = Some(strings(&["missing"]));
    assert_eq!(refused(&t, headers(), &fs), "header-only native library `x` cannot set native link manifest keys");
    assert_eq!(
        refused(&t, archive(), &fs),
        "static native library `x` cannot set native link manifest keys because static libraries are archived rather than linked"
    );
    assert_eq!(
        refused(&t, native(), &fs),
        "target `x` specifies `native-link-search = [\"missing\"]`, but that path is not a directory"
    );

    let mut t = toml("x", "src/x.c");
    t.native_link_libraries = Some(strings(&[""]));
    assert_eq!(
        refused(&t, native(), &fs),
        "target `x` specifies `native-link-libraries`, but library names cannot be empty strings"
    );
    let mut t = toml("x", "src/x.c");
    t.native_link_args = Some(strings(&["a", ""]));
    assert_eq!(
        refused(&t, native(), &fs),
        "target `x` specifies `native-link-args`, but linker arguments cannot be empty strings"
    );
}

#[test]
fn a_refused_target_stays_as_it_was() {
    let fs = tree(&[], &[]);
    let mut t = toml("x", "src/x.c");
    t.native_include_root = Some("inc".to_string());
    t.native_defines = Some(strings(&[""]));
    let mut target = native();
    let before = format!("{target:?}");
    assert!(apply_native_manifest_overrides(&t, &mut target, "/p", &fs).is_err());
    assert_eq!(format!("{target:?}"), before);
}

#[test]
fn without_native_keys_nothing_changes() {
    let mut target = Target::plain(TargetShape::Bin, "x", Some("/p/x.rs".to_string()), Some(ED));
    let before = format!("{target:?}");
    apply_native_manifest_overrides(&toml("x", "x.rs"), &mut target, "/p", &tree(&[], &[])).unwrap();
    assert_eq!(format!("{target:?}"), before);
}

#[test]
fn native_libraries_are_static_or_shared() {
    let fs = tree(&[], &[]);
    let t = lib(toml("x", "src/lib.c"), &fs).unwrap();
    assert_eq!((t.shape, t.crate_types.clone()), (TargetShape::NativeLib, strings(&["staticlib"])));
    assert_eq!(t.path.as_deref(), Some("/p/src/lib.c"));
    assert!(t.is_native() && t.is_staticlib() && !t.is_header_only() && t.name_inferred);
    let with = |types: &[&str]| {
        let mut t = toml("x", "src/lib.cc");
        t.crate_type = Some(strings(types));
        lib(t, &fs)
    };
    assert_eq!(with(&[]).unwrap().crate_types, strings(&["staticlib"]));
    let shared = with(&["cdylib"]).unwrap();
    assert_eq!(shared.crate_types, strings(&["cdylib"]));
    assert!(!shared.is_staticlib());
    assert_eq!(
        with(&["dylib"]).unwrap_err(),
        "C++ library `x` only supports crate-type `staticlib` or `cdylib`, found `dylib`"
    );
    assert_eq!(
        with(&["staticlib", "cdylib"]).unwrap_err(),
        "C++ library `x` must specify at most one crate-type, found `staticlib, cdylib`"
    );
}

#[test]
fn libraries_of_headers_have_no_crate_type() {
    let fs = tree(&[], &["/p/include"]);
    let t = lib(toml("x", "include"), &fs).unwrap();
    assert_eq!(t.shape, TargetShape::HeaderOnlyLib);
    assert!(t.is_native() && t.is_header_only() && t.crate_types.is_empty());
    let mut t = toml("x", "include");
    t.crate_type = Some(strings(&["staticlib"]));
    assert_eq!(
        lib(t, &fs).unwrap_err(),
        "header-only native library `x` cannot set `crate-type`; remove it or point `lib.path` to a compilable source file"
    );
}

#[test]
fn rust_libraries_keep_their_crate_types() {
    let fs = tree(&[], &[]);
    let with = |types: &[&str]| {
        let mut t = toml("x", "src/lib.rs");
        t.crate_type = Some(strings(types));
        let mut w = vec![];
        let own = Some(toml("x", "src/lib.rs"));
        (to_lib_target(&own, &Some(t), "/p", ED, &fs, &mut w).map(|t| t.unwrap()), w)
    };
    let t = lib(toml("x", "src/lib.rs"), &fs).unwrap();
    assert_eq!((t.shape, t.crate_types.clone()), (TargetShape::Lib, strings(&["lib"])));
    assert!(!t.is_native());
    let (t, _) = with(&["rlib", "cdylib"]);
    let t = t.unwrap();
    assert_eq!(t.crate_types, strings(&["rlib", "cdylib"]));
    assert!(!t.name_inferred);
    let (e, w) = with(&["dylib", "cdylib"]);
    assert_eq!(e.unwrap_err(), "library `x` cannot set the crate type of both `dylib` and `cdylib`");
    assert!(w.is_empty());
    let (t, w) = with(&["proc-macro"]);
    let t = t.unwrap();
    assert_eq!(t.crate_types, strings(&["proc-macro"]));
    assert_eq!((t.proc_macro, t.for_host), (Some(true), Some(true)));
    let warning = "library `x` should only specify `proc-macro = true` instead of setting `crate-type`";
    assert_eq!(w, strings(&[warning]));
    let (e, w) = with(&["proc-macro", "lib"]);
    assert_eq!(e.unwrap_err(), "cannot mix `proc-macro` crate type with others");
    assert_eq!(w, strings(&[warning]));
    let mut t = toml("x", "src/lib.rs");
    t.proc_macro = Some(true);
    assert_eq!(lib(t, &fs).unwrap().crate_types, strings(&["proc-macro"]));
    assert!(to_lib_target(&None, &None, "/p", ED, &fs, &mut vec![]).unwrap().is_none());
}

#[test]
fn native_keys_of_a_rust_library_are_not_looked_at() {
    let mut t = toml("x", "src/lib.rs");
    t.native_defines = Some(strings(&[""]));
    let t = lib(t, &tree(&[], &[])).unwrap();
    assert!(t.native_defines.is_empty());
}

#[test]
fn binaries_are_native_or_not() {
    let fs = tree(&[], &[]);
    let mut w = vec![];
    let mut named = toml("b", "src/b.rs");
    named.filename = Some("other".to_string());
    named.required_features = Some(strings(&["f"]));
    let list = vec![toml("a", "src/a.cpp"), named];
    let made = to_bin_targets(&None, &list, "/p", ED, &fs, &mut w).unwrap();
    assert_eq!((made[0].shape, made[1].shape), (TargetShape::NativeBin, TargetShape::Bin));
    assert_eq!(made[1].filename.as_deref(), Some("other"));
    assert_eq!(made[1].required_features, Some(strings(&["f"])));
    assert_eq!(made[0].edition, Some(ED));
    let gate = Some("feature `different-binary-name` is required".to_string());
    assert_eq!(
        to_bin_targets(&gate, &list, "/p", ED, &fs, &mut w).unwrap_err(),
        "feature `different-binary-name` is required"
    );
    assert!(to_bin_targets(&gate, &vec![toml("a", "a.c")], "/p", ED, &fs, &mut w).is_ok());
    assert_eq!(
        to_bin_targets(&None, &vec![toml("a", "a.c"), toml("a", "b.c")], "/p", ED, &fs, &mut w).unwrap_err(),
        "found duplicate binary name a, but all binary targets must have a unique name"
    );
}

#[test]
fn native_examples_can_be_run() {
    let fs = tree(&[], &[]);
    let mut w = vec![];
    let with = |path: &str, types: Option<&[&str]>, w: &mut Vec<String>| {
        let mut t = toml("e", path);
        t.crate_type = types.map(strings);
        to_example_targets(&vec![t], "/p", ED, &fs, w)
    };
    assert_eq!(with("examples/e.c", None, &mut w).unwrap()[0].shape, TargetShape::Example);
    assert!(with("examples/e.c", Some(&[]), &mut w).is_ok());
    assert!(with("examples/e.c", Some(&["bin", "bin"]), &mut w).is_ok());
    assert_eq!(
        with("examples/e.c", Some(&["bin", "lib"]), &mut w).unwrap_err(),
        "native C/C++ example `e` must be an executable target; remove `crate-type` or use only `bin`"
    );
    assert_eq!(
        with("examples/e.rs", Some(&["cdylib"]), &mut w).unwrap()[0].crate_types,
        strings(&["cdylib"])
    );
}

#[test]
fn tests_and_benchmarks_become_targets() {
    let fs = tree(&[], &[]);
    let mut w = vec![];
    let mut t = toml("t", "tests/t.cc");
    t.edition = Some("2018".to_string());
    let made = to_test_targets(&vec![t], "/p", ED, &fs, &mut w).unwrap();
    assert_eq!(made[0].shape, TargetShape::Test);
    assert!(made[0].is_native());
    let mut b = toml("b", "benches/b.rs");
    b.edition = Some("2015".to_string());
    let made = to_bench_targets(&vec![b], "/p", ED, &fs, &mut w).unwrap();
    assert_eq!(made[0].shape, TargetShape::Bench);
    assert_eq!(
        w,
        strings(&[
            "`edition` is set on test `t` which is deprecated",
            "`edition` is set on benchmark `b` which is deprecated",
        ])
    );
    assert_eq!(
        to_bench_targets(&vec![toml("x", "x.rs"), toml("x", "y.rs")], "/p", ED, &fs, &mut w).unwrap_err(),
        "found duplicate bench name x, but all bench targets must have a unique name"
    );
}

fn manifest(build: TomlPackageBuild) -> Manifest {
    Manifest {
        package: Some(TomlPackage { name: "pkg".to_string(), build: Some(build) }),
        lib: Some(toml("pkg", "src/lib.c")),
        bin: vec![toml("pkg", "src/main.cpp")],
        example: vec![toml("e", "examples/e.rs")],
        test: vec![toml("t", "tests/t.c")],
        bench: vec![toml("b", "benches/b.rs")],
        build_dependencies: strings(&["gen"]),
    }
}

fn all(m: &Manifest, metabuild: &Option<Vec<String>>) -> Result<Vec<Target>, String> {
    to_targets(&None, &None, m, "/p", ED, metabuild, &tree(&[], &[]), &mut vec![])
}

#[test]
fn all_targets_come_in_order() {
    let m = manifest(TomlPackageBuild::MultipleScript(strings(&["build.rs", "x/gen.rs"])));
    let list = all(&m, &None).unwrap();
    let shown: Vec<(TargetShape, &str)> = list.iter().map(|t| (t.shape, t.name.as_str())).collect();
    assert_eq!(
        shown,
        vec![
            (TargetShape::NativeLib, "pkg"),
            (TargetShape::NativeBin, "pkg"),
            (TargetShape::Example, "e"),
            (TargetShape::Test, "t"),
            (TargetShape::Bench, "b"),
            (TargetShape::CustomBuild, "build-script-build"),
            (TargetShape::CustomBuild, "build-script-gen"),
        ]
    );
    assert_eq!(list[6].path.as_deref(), Some("/p/x/gen.rs"));
}

#[test]
fn metabuild_stands_for_build_scripts() {
    let m = manifest(TomlPackageBuild::Auto(false));
    let list = all(&m, &Some(strings(&["gen"]))).unwrap();
    let last = list.last().unwrap();
    assert_eq!((last.shape, last.name.as_str(), last.path.is_none()), (TargetShape::Metabuild, "metabuild-pkg", true));
    assert_eq!(
        all(&m, &Some(strings(&["gen", "other"]))).unwrap_err(),
        "metabuild package `other` must be specified in `build-dependencies`"
    );
    let m = manifest(TomlPackageBuild::SingleScript("build.rs".to_string()));
    assert_eq!(
        all(&m, &Some(strings(&["gen"]))).unwrap_err(),
        "cannot specify both `metabuild` and `build`"
    );
}

#[test]
fn a_manifest_needs_a_package() {
    let mut m = manifest(TomlPackageBuild::Auto(false));
    m.package = None;
    assert_eq!(all(&m, &None).unwrap_err(), "manifest has no `package` (or `project`)");
    let m = manifest(TomlPackageBuild::MultipleScript(strings(&["a.rs", "x/a.rs"])));
    assert!(all(&m, &None).unwrap_err().starts_with("found build scripts with duplicate file stems"));
}
