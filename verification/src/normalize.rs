//! Targets of a manifest made explicit: each gets a name and a path, out of the
//! manifest or out of where files stand.
use vstd::prelude::*;

use crate::discover::{bin_paths, dir_targets, infer_non_bin_targets, inferred_bins, inferred_lib};
use crate::discover::lib_path;
use crate::fs::{DirEntry, FsView};
use crate::manifest::{copy_tomls, is_normalized_build, normalize_manifest_paths};
use crate::manifest::{normalize_native_manifest_paths, opt_build, opt_tomls, push_toml, tomls_view};
use crate::manifest::{Edition, TomlBuildView, TomlPackageBuild, TomlTarget, TomlTargetView};
use crate::order::{key_view, keys_view, lemma_keys_push, order_by_keys, pick, places_view};
use crate::order::{sorted_by, Key};
use crate::path::{is_same_path, join_path, joined, normalize_path, normalized, same_path};
use crate::path::{strip_prefix_or_whole, stripped_or_whole, text_key, text_key_of};
use crate::report::{lemma_and_behind, reported, reported_warnings, Report};
use crate::text::lemma_append_associative;
use crate::text::{copy_list, opt_text, push_text, replace_char, replaced, res_text, same_text};
use crate::text::{text2, text3, text5, text7, text_pairs, texts, Text};
use crate::validate::{bin_crate_types_report, bin_name_report, bin_proc_macro_report};
use crate::validate::{crate_types_report, lib_name_report, name_report, proc_macro_report};
use crate::validate::{validate_bin_crate_types, validate_bin_name, validate_bin_proc_macro};
use crate::validate::{validate_crate_types, validate_lib_name, validate_proc_macro};
use crate::validate::validate_target_name;

verus! {

/// Nothing is inferred, and each target has a name and a path.
pub open spec fn all_explicit(
    targets: Option<Seq<TomlTargetView>>,
    autodiscover: Option<bool>,
) -> bool {
    &&& autodiscover == Some(false)
    &&& targets matches Some(list) ==> forall|i: int|
        0 <= i < list.len() ==> (#[trigger] list[i]).name is Some && list[i].path is Some
}

/// Nothing is inferred, and the target, if any, has a name and a path.
pub open spec fn is_explicit(target: Option<TomlTargetView>, autodiscover: Option<bool>) -> bool {
    &&& autodiscover == Some(false)
    &&& target matches Some(t) ==> t.name is Some && t.path is Some
}

/// Whether nothing is inferred, and the target, if any, has a name and a path.
pub fn is_normalized(target: &Option<TomlTarget>, autodiscover: Option<bool>) -> (r: bool)
    ensures
        r == is_explicit(opt_toml(*target), autodiscover),
{
    if autodiscover != Some(false) {
        return false;
    }
    match target {
        Some(t) => t.name.is_some() && t.path.is_some(),
        None => true,
    }
}

/// What a target that may be missing holds.
pub open spec fn opt_toml(target: Option<TomlTarget>) -> Option<TomlTargetView> {
    match target {
        Some(t) => Some(t@),
        None => None,
    }
}

/// Whether nothing is inferred, and each target has a name and a path.
pub fn are_normalized(targets: &Option<Vec<TomlTarget>>, autodiscover: Option<bool>) -> (r: bool)
    ensures
        r == all_explicit(opt_tomls(*targets), autodiscover),
{
    if autodiscover != Some(false) {
        return false;
    }
    match targets {
        None => true,
        Some(list) => {
            let ghost all = tomls_view(list@);
            let mut i: usize = 0;
            while i < list.len()
                invariant
                    i <= list@.len(),
                    all == tomls_view(list@),
                    opt_tomls(*targets) == Some(all),
                    forall|k: int|
                        0 <= k < i ==> (#[trigger] all[k]).name is Some && all[k].path is Some,
                decreases list@.len() - i,
            {
                assert(all[i as int] == list@[i as int]@);
                if !(list[i].name.is_some() && list[i].path.is_some()) {
                    return false;
                }
                i = i + 1;
            }
            true
        },
    }
}

/// What is reported of a library.
pub open spec fn lib_report(target: TomlTargetView, edition: Edition, on_windows: bool) -> Report {
    lib_name_report(target, on_windows).and(
        proc_macro_report(target, "library"@, edition),
    ).and(crate_types_report(target, "library"@, edition))
}

fn validate_lib(
    target: &TomlTarget,
    edition: Edition,
    on_windows: bool,
    warnings: &mut Vec<String>,
) -> (r: Result<(), String>)
    ensures
        reported_warnings(
            r,
            old(warnings)@,
            final(warnings)@,
            lib_report(target@, edition, on_windows),
        ),
        r is Ok ==> target@.name is Some,
{
    let ghost start = texts(warnings@);
    match validate_lib_name(target, on_windows, warnings) {
        Ok(_) => {},
        Err(e) => {
            return Err(e);
        },
    }
    match validate_proc_macro(target, "library", edition, warnings) {
        Ok(_) => {},
        Err(e) => {
            assert(texts(warnings@) =~= start + lib_report(target@, edition, on_windows).warnings);
            return Err(e);
        },
    }
    let r = validate_crate_types(target, "library", edition, warnings);
    assert(texts(warnings@) =~= start + lib_report(target@, edition, on_windows).warnings);
    r
}

/// Where a library was found at a path that is accepted for old editions only.
pub open spec fn legacy_lib_warning(name: Text) -> Text {
    "path `"@ + joined("src"@, name + ".rs"@)
        + "` was erroneously implicitly accepted for library `"@ + name
        + "`,\nplease rename the file to `src/lib.rs` or set lib.path in Cargo.toml"@
}

/// Where no library is found.
pub open spec fn no_lib_message(name: Text) -> Text {
    "can't find library `"@ + name
        + "`, rename file to `src/lib.rs` or `src/lib.cpp`, add `include/` for a header-only library, or specify lib.path"@
}

/// The path of a library: its own, else the inferred one, else, in the 2015 edition,
/// the source with its name. With it comes what is warned of.
pub open spec fn lib_path_of(
    lib: TomlTargetView,
    inferred: Option<Text>,
    package_root: Text,
    edition: Edition,
    fs: FsView,
) -> (Result<Text, Text>, Seq<Text>) {
    match lib.path {
        Some(path) => (Ok(path), Seq::empty()),
        None => match inferred {
            Some(path) => (Ok(path), Seq::empty()),
            None => {
                let legacy = joined("src"@, lib.name_text() + ".rs"@);
                if edition == Edition::Edition2015 && fs.has(joined(package_root, legacy)) {
                    (Ok(legacy), seq![legacy_lib_warning(lib.name_text())])
                } else {
                    (Err(no_lib_message(lib.name_text())), Seq::empty())
                }
            },
        },
    }
}

/// The library that a manifest has in mind, before its path is told: the one that
/// it describes, else one at the inferred path; without a name of its own it has
/// that of the package, with underscores.
pub open spec fn intended_lib(
    original: Option<TomlTargetView>,
    inferred: Option<Text>,
    package_name: Text,
) -> Option<TomlTargetView> {
    let lib = match original {
        Some(lib) => Some(lib),
        None => match inferred {
            Some(path) => Some(TomlTargetView { path: Some(path), ..TomlTargetView::unset() }),
            None => None,
        },
    };
    match lib {
        None => None,
        Some(lib) => Some(
            TomlTargetView {
                name: match lib.name {
                    Some(name) => Some(name),
                    None => Some(replaced(package_name, '-', '_')),
                },
                ..lib
            },
        ),
    }
}

/// The library of a package, made explicit, and what is warned of on the way.
pub open spec fn explicit_lib(
    original: Option<TomlTargetView>,
    package_root: Text,
    package_name: Text,
    edition: Edition,
    autodiscover: Option<bool>,
    fs: FsView,
    on_windows: bool,
) -> (Result<Option<TomlTargetView>, Text>, Seq<Text>) {
    match lib_path(package_root, fs) {
        Err(e) => (Err(e), Seq::empty()),
        Ok(inferred) => if is_explicit(original, autodiscover) {
            match original {
                None => (Ok(None), Seq::empty()),
                Some(lib) => {
                    let report = lib_report(lib, edition, on_windows);
                    match report.failure {
                        Some(e) => (Err(e), report.warnings),
                        None => (Ok(Some(lib.with_paths())), report.warnings),
                    }
                },
            }
        } else {
            match intended_lib(original, inferred, package_name) {
                None => (Ok(None), Seq::empty()),
                Some(lib) => {
                    let report = lib_report(lib, edition, on_windows);
                    match report.failure {
                        Some(e) => (Err(e), report.warnings),
                        None => {
                            let (path, more) = lib_path_of(
                                lib,
                                inferred,
                                package_root,
                                edition,
                                fs,
                            );
                            match path {
                                Err(e) => (Err(e), report.warnings + more),
                                Ok(path) => (
                                    Ok(
                                        Some(
                                            TomlTargetView {
                                                path: Some(path),
                                                ..lib
                                            }.with_paths(),
                                        ),
                                    ),
                                    report.warnings + more,
                                ),
                            }
                        },
                    }
                },
            }
        },
    }
}

/// What a result that is a target, if any, or a message holds.
pub open spec fn toml_result(r: Result<Option<TomlTarget>, String>) -> Result<
    Option<TomlTargetView>,
    Text,
> {
    match r {
        Ok(t) => Ok(opt_toml(t)),
        Err(e) => Err(e@),
    }
}

/// The library of a package, made explicit.
pub fn normalize_lib(
    original_lib: &Option<TomlTarget>,
    package_root: &str,
    package_name: &str,
    edition: Edition,
    autodiscover: Option<bool>,
    fs: &FsView,
    on_windows: bool,
    warnings: &mut Vec<String>,
) -> (r: Result<Option<TomlTarget>, String>)
    ensures
        toml_result(r) == explicit_lib(
            opt_toml(*original_lib),
            package_root@,
            package_name@,
            edition,
            autodiscover,
            *fs,
            on_windows,
        ).0,
        texts(final(warnings)@) == texts(old(warnings)@) + explicit_lib(
            opt_toml(*original_lib),
            package_root@,
            package_name@,
            edition,
            autodiscover,
            *fs,
            on_windows,
        ).1,
{
    let ghost start = texts(warnings@);
    assert(start + Seq::<Text>::empty() =~= start);
    let inferred = match inferred_lib(package_root, fs) {
        Ok(inferred) => inferred,
        Err(e) => {
            return Err(e);
        },
    };
    if is_normalized(original_lib, autodiscover) {
        let mut lib = match original_lib {
            Some(lib) => lib.copy(),
            None => {
                return Ok(None);
            },
        };
        match validate_lib(&lib, edition, on_windows, warnings) {
            Ok(_) => {},
            Err(e) => {
                return Err(e);
            },
        }
        normalize_manifest_paths(&mut lib);
        return Ok(Some(lib));
    }
    let ghost want = intended_lib(
        opt_toml(*original_lib),
        opt_text(inferred),
        package_name@,
    );
    let mut lib = match original_lib {
        Some(lib) => lib.copy(),
        None => match &inferred {
            Some(path) => {
                let mut lib = TomlTarget::new();
                lib.path = Some(path.clone());
                lib
            },
            None => {
                return Ok(None);
            },
        },
    };
    if lib.name.is_none() {
        lib.name = Some(replace_char(package_name, '-', '_'));
    }
    assert(want == Some(lib@));
    match validate_lib(&lib, edition, on_windows, warnings) {
        Ok(_) => {},
        Err(e) => {
            return Err(e);
        },
    }
    let ghost mid = texts(warnings@);
    assert(mid + Seq::<Text>::empty() =~= mid);
    let ghost checked = lib_report(lib@, edition, on_windows).warnings;
    assert(checked + Seq::<Text>::empty() =~= checked);
    if lib.path.is_none() {
        match inferred {
            Some(path) => {
                lib.path = Some(path);
            },
            None => {
                let name = lib.name_str();
                let file = text2(name, ".rs");
                let legacy = join_path("src", file.as_str());
                let at = join_path(package_root, legacy.as_str());
                if edition == Edition::Edition2015 && fs.exists_at(at.as_str()) {
                    let warning = text5(
                        "path `",
                        legacy.as_str(),
                        "` was erroneously implicitly accepted for library `",
                        name,
                        "`,\nplease rename the file to `src/lib.rs` or set lib.path in Cargo.toml",
                    );
                    push_text(warnings, warning);
                    assert(texts(warnings@) =~= start + (checked + seq![
                        legacy_lib_warning(lib@.name_text()),
                    ]));
                    lib.path = Some(legacy);
                } else {
                    return Err(
                        text3(
                            "can't find library `",
                            name,
                            "`, rename file to `src/lib.rs` or `src/lib.cpp`, add `include/` for a header-only library, or specify lib.path",
                        ),
                    );
                }
            },
        }
    }
    normalize_manifest_paths(&mut lib);
    Ok(Some(lib))
}

/// Where sources of old packages stand that are accepted in the 2015 edition only.
#[derive(Clone, Copy, Debug, PartialEq, Eq, Structural)]
pub enum LegacyRule {
    /// Nowhere.
    Nowhere,
    /// Those of binaries, in a package with or without a library.
    Bin {
        /// Whether the package has a library.
        has_lib: bool,
    },
    /// That of the benchmark `bench`.
    Bench,
}

/// Where the source of a binary of an old package stands.
pub open spec fn legacy_bin(package_root: Text, name: Text, has_lib: bool, fs: FsView) -> Option<
    Text,
> {
    let named = joined("src"@, name + ".rs"@);
    let main = joined("src"@, "main.rs"@);
    let bin_main = joined(joined("src"@, "bin"@), "main.rs"@);
    if !has_lib && fs.has(joined(package_root, named)) {
        Some(named)
    } else if fs.has(joined(package_root, main)) {
        Some(main)
    } else if fs.has(joined(package_root, bin_main)) {
        Some(bin_main)
    } else {
        None
    }
}

/// Where the source of a binary of an old package stands.
pub fn legacy_bin_path(package_root: &str, name: &str, has_lib: bool, fs: &FsView) -> (r: Option<
    String,
>)
    ensures
        opt_text(r) == legacy_bin(package_root@, name@, has_lib, *fs),
{
    if !has_lib {
        let file = text2(name, ".rs");
        let named = join_path("src", file.as_str());
        let at = join_path(package_root, named.as_str());
        if fs.exists_at(at.as_str()) {
            return Some(named);
        }
    }
    let main = join_path("src", "main.rs");
    let at = join_path(package_root, main.as_str());
    if fs.exists_at(at.as_str()) {
        return Some(main);
    }
    let bin_dir = join_path("src", "bin");
    let bin_main = join_path(bin_dir.as_str(), "main.rs");
    let at = join_path(package_root, bin_main.as_str());
    if fs.exists_at(at.as_str()) {
        return Some(bin_main);
    }
    None
}

/// Where a target was found at a path that is accepted for old editions only.
pub open spec fn legacy_warning(path: Text, human: Text, name: Text, key: Text) -> Text {
    "path `"@ + path + "` was erroneously implicitly accepted for "@ + human + " `"@ + name
        + "`,\nplease set "@ + key + ".path in Cargo.toml"@
}

/// Where the source of a target of an old package stands, and what is warned of.
pub open spec fn legacy_path(rule: LegacyRule, package_root: Text, name: Text, fs: FsView) -> Option<
    (Text, Text),
> {
    match rule {
        LegacyRule::Nowhere => None,
        LegacyRule::Bin { has_lib } => match legacy_bin(package_root, name, has_lib, fs) {
            Some(path) => Some((path, legacy_warning(path, "binary"@, name, "bin"@))),
            None => None,
        },
        LegacyRule::Bench => {
            let path = joined("src"@, "bench.rs"@);
            if name == "bench"@ && fs.has(joined(package_root, path)) {
                Some((path, legacy_warning(path, "benchmark"@, name, "bench"@)))
            } else {
                None
            }
        },
    }
}

fn legacy_warning_of(path: &str, human: &str, name: &str, key: &str) -> (r: String)
    ensures
        r@ == legacy_warning(path@, human@, name@, key@),
{
    let mut r = text7(
        "path `",
        path,
        "` was erroneously implicitly accepted for ",
        human,
        " `",
        name,
        "`,\nplease set ",
    );
    r.append(key);
    r.append(".path in Cargo.toml");
    r
}

fn find_legacy_path(rule: LegacyRule, package_root: &str, name: &str, fs: &FsView) -> (r: Option<
    (String, String),
>)
    ensures
        match r {
            Some(p) => legacy_path(rule, package_root@, name@, *fs) == Some((p.0@, p.1@)),
            None => legacy_path(rule, package_root@, name@, *fs) is None,
        },
{
    match rule {
        LegacyRule::Nowhere => None,
        LegacyRule::Bin { has_lib } => match legacy_bin_path(package_root, name, has_lib, fs) {
            Some(path) => {
                let warning = legacy_warning_of(path.as_str(), "binary", name, "bin");
                Some((path, warning))
            },
            None => None,
        },
        LegacyRule::Bench => {
            let path = join_path("src", "bench.rs");
            let at = join_path(package_root, path.as_str());
            if same_text(name, "bench") && fs.exists_at(at.as_str()) {
                let warning = legacy_warning_of(path.as_str(), "benchmark", name, "bench");
                Some((path, warning))
            } else {
                None
            }
        },
    }
}

/// One of the kinds of targets that can be inferred.
pub open spec fn is_target_kind(kind: Text) -> bool {
    kind == "test"@ || kind == "bench"@ || kind == "example"@ || kind == "bin"@
}

/// The directory of a kind of targets, or the one that is commonly taken for it.
pub open spec fn kind_dir(kind: Text, commonly_wrong: bool) -> Text {
    if commonly_wrong {
        if kind == "bin"@ {
            joined("src"@, "bins"@)
        } else {
            kind
        }
    } else {
        if kind == "test"@ {
            "tests"@
        } else if kind == "bench"@ {
            "benches"@
        } else if kind == "example"@ {
            "examples"@
        } else {
            joined("src"@, "bin"@)
        }
    }
}

fn kind_dir_of(kind: &str, commonly_wrong: bool) -> (r: String)
    ensures
        r@ == kind_dir(kind@, commonly_wrong),
{
    if commonly_wrong {
        if same_text(kind, "bin") {
            join_path("src", "bins")
        } else {
            kind.to_owned()
        }
    } else {
        if same_text(kind, "test") {
            "tests".to_owned()
        } else if same_text(kind, "bench") {
            "benches".to_owned()
        } else if same_text(kind, "example") {
            "examples".to_owned()
        } else {
            join_path("src", "bin")
        }
    }
}

/// The file that a target could stand in.
pub open spec fn possible_file(name: Text, kind: Text, commonly_wrong: bool) -> Text {
    joined(kind_dir(kind, commonly_wrong), name + ".rs"@)
}

/// The file in a directory of its own that a target could stand in.
pub open spec fn possible_dir_file(name: Text, kind: Text, commonly_wrong: bool) -> Text {
    joined(joined(kind_dir(kind, commonly_wrong), name), "main.rs"@)
}

/// The two files that a target could stand in.
pub fn possible_target_paths(name: &str, kind: &str, commonly_wrong: bool) -> (r: (String, String))
    requires
        is_target_kind(kind@),
    ensures
        r.0@ == possible_file(name@, kind@, commonly_wrong),
        r.1@ == possible_dir_file(name@, kind@, commonly_wrong),
{
    let dir = kind_dir_of(kind, commonly_wrong);
    let file = text2(name, ".rs");
    let own = join_path(dir.as_str(), name);
    (join_path(dir.as_str(), file.as_str()), join_path(own.as_str(), "main.rs"))
}

/// Where a target stands in a directory that is commonly taken for the right one.
pub open spec fn wrong_place_message(
    name: Text,
    kind: Text,
    wrong: Text,
    right: Text,
    hint: Text,
) -> Text {
    "can't find `"@ + name + "` "@ + kind + " at default paths, but found a file at `"@ + wrong
        + "`.\nPerhaps rename the file to `"@ + right
        + "` for target auto-discovery, or specify "@ + kind
        + ".path if you want to use a non-default path."@ + hint
}

/// Where a target stands nowhere.
pub open spec fn no_place_message(name: Text, kind: Text, hint: Text) -> Text {
    "can't find `"@ + name + "` "@ + kind + " at `"@ + possible_file(name, kind, false)
        + "` or `"@ + possible_dir_file(name, kind, false) + "`. Please specify "@ + kind
        + ".path if you want to use a non-default path."@ + hint
}

/// What is said where the source of a target is not found. `hint` names a target
/// with a similar name, if there is one.
pub open spec fn not_found_message(
    package_root: Text,
    name: Text,
    kind: Text,
    fs: FsView,
    hint: Text,
) -> Text {
    if fs.has(joined(package_root, possible_file(name, kind, true))) {
        wrong_place_message(
            name,
            kind,
            possible_file(name, kind, true),
            possible_file(name, kind, false),
            hint,
        )
    } else if fs.has(joined(package_root, possible_dir_file(name, kind, true))) {
        wrong_place_message(
            name,
            kind,
            possible_dir_file(name, kind, true),
            possible_dir_file(name, kind, false),
            hint,
        )
    } else {
        no_place_message(name, kind, hint)
    }
}

fn wrong_place_text(name: &str, kind: &str, wrong: &str, right: &str, hint: &str) -> (r: String)
    ensures
        r@ == wrong_place_message(name@, kind@, wrong@, right@, hint@),
{
    let mut r = text7(
        "can't find `",
        name,
        "` ",
        kind,
        " at default paths, but found a file at `",
        wrong,
        "`.\nPerhaps rename the file to `",
    );
    r.append(right);
    r.append("` for target auto-discovery, or specify ");
    r.append(kind);
    r.append(".path if you want to use a non-default path.");
    r.append(hint);
    r
}

/// What is said where the source of a target is not found.
pub fn target_path_not_found_error_message(
    package_root: &str,
    name: &str,
    kind: &str,
    fs: &FsView,
    hint: &str,
) -> (r: String)
    requires
        is_target_kind(kind@),
    ensures
        r@ == not_found_message(package_root@, name@, kind@, *fs, hint@),
{
    let (wrong_file, wrong_dir) = possible_target_paths(name, kind, true);
    let (right_file, right_dir) = possible_target_paths(name, kind, false);
    let file_at = join_path(package_root, wrong_file.as_str());
    let dir_at = join_path(package_root, wrong_dir.as_str());
    if fs.exists_at(file_at.as_str()) {
        wrong_place_text(name, kind, wrong_file.as_str(), right_file.as_str(), hint)
    } else if fs.exists_at(dir_at.as_str()) {
        wrong_place_text(name, kind, wrong_dir.as_str(), right_dir.as_str(), hint)
    } else {
        let mut r = text7(
            "can't find `",
            name,
            "` ",
            kind,
            " at `",
            right_file.as_str(),
            "` or `",
        );
        r.append(right_dir.as_str());
        r.append("`. Please specify ");
        r.append(kind);
        r.append(".path if you want to use a non-default path.");
        r.append(hint);
        r
    }
}

/// The paths of the inferred targets with a name.
pub open spec fn paths_named(inferred: Seq<(Text, Text)>, name: Text) -> Seq<Text>
    decreases inferred.len(),
{
    if inferred.len() == 0 {
        Seq::empty()
    } else {
        let rest = paths_named(inferred.drop_last(), name);
        if inferred.last().0 == name {
            rest.push(inferred.last().1)
        } else {
            rest
        }
    }
}

fn collect_named(inferred: &Vec<(String, String)>, name: &str) -> (r: Vec<String>)
    ensures
        texts(r@) == paths_named(text_pairs(inferred@), name@),
{
    let ghost all = text_pairs(inferred@);
    let mut r: Vec<String> = Vec::new();
    let mut i: usize = 0;
    assert(all.take(0) =~= Seq::empty());
    assert(texts(r@) =~= Seq::empty());
    while i < inferred.len()
        invariant
            i <= inferred@.len(),
            all == text_pairs(inferred@),
            texts(r@) == paths_named(all.take(i as int), name@),
        decreases inferred@.len() - i,
    {
        assert(all.take(i + 1).drop_last() =~= all.take(i as int));
        assert(all[i as int] == (inferred@[i as int].0@, inferred@[i as int].1@));
        if same_text(inferred[i].0.as_str(), name) {
            push_text(&mut r, inferred[i].1.clone());
        }
        i = i + 1;
    }
    assert(all.take(i as int) =~= all);
    r
}

/// Where two inferred targets have one name.
pub open spec fn ambiguous_message(
    package_root: Text,
    name: Text,
    kind: Text,
    first: Text,
    second: Text,
) -> Text {
    "cannot infer path for `"@ + name + "` "@ + kind
        + "\nCargo doesn't know which to use because multiple target files found at `"@
        + stripped_or_whole(first, package_root) + "` and `"@ + stripped_or_whole(
        second,
        package_root,
    ) + "`."@
}

/// What the path of a target is told from.
#[derive(Debug)]
pub struct PathRules<'a> {
    /// The kind of the target.
    pub kind: &'a str,
    /// The directory of the package.
    pub package_root: &'a str,
    /// The edition of the package.
    pub edition: Edition,
    /// Where sources of old packages stand.
    pub legacy: LegacyRule,
    /// What stands at paths.
    pub fs: &'a FsView,
    /// For names of targets what names a similar one, if there is one.
    pub hints: &'a Vec<(String, String)>,
}

/// A package whose targets are looked for.
#[derive(Debug)]
pub struct PackageFiles<'a> {
    /// Its directory.
    pub root: &'a str,
    /// Its edition.
    pub edition: Edition,
    /// What stands at paths.
    pub fs: &'a FsView,
    /// For names of targets what names a similar one, if there is one.
    pub hints: &'a Vec<(String, String)>,
}

impl<'a> PackageFiles<'a> {
    /// What the paths of targets of a kind are told from.
    pub open spec fn rules_for(self, kind: &'a str, legacy: LegacyRule) -> PathRules<'a> {
        PathRules {
            kind,
            package_root: self.root,
            edition: self.edition,
            legacy,
            fs: self.fs,
            hints: self.hints,
        }
    }

    fn rules(&self, kind: &'a str, legacy: LegacyRule) -> (r: PathRules<'a>)
        ensures
            r == self.rules_for(kind, legacy),
    {
        PathRules {
            kind,
            package_root: self.root,
            edition: self.edition,
            legacy,
            fs: self.fs,
            hints: self.hints,
        }
    }
}

/// The hint for a name: the first in the list, else none.
pub open spec fn hint_for(hints: Seq<(String, String)>, name: Text) -> Text
    decreases hints.len(),
{
    if hints.len() == 0 {
        Seq::empty()
    } else if hints[0].0@ == name {
        hints[0].1@
    } else {
        hint_for(hints.skip(1), name)
    }
}

fn find_hint(hints: &Vec<(String, String)>, name: &str) -> (r: String)
    ensures
        r@ == hint_for(hints@, name@),
{
    let mut i: usize = 0;
    assert(hints@.skip(0) =~= hints@);
    while i < hints.len()
        invariant
            i <= hints@.len(),
            hint_for(hints@, name@) == hint_for(hints@.skip(i as int), name@),
        decreases hints@.len() - i,
    {
        if same_text(hints[i].0.as_str(), name) {
            return hints[i].1.clone();
        }
        assert(hints@.skip(i as int).skip(1) =~= hints@.skip(i + 1));
        i = i + 1;
    }
    String::new()
}

/// The path of a target, and what is warned of: its own path, else that of the one
/// inferred target with its name. Where there is none or more than one, it is that
/// of an old package in the 2015 edition.
pub open spec fn path_of(target: TomlTargetView, inferred: Seq<(Text, Text)>, rules: PathRules) -> (
    Result<Text, Text>,
    Seq<Text>,
) {
    match target.path {
        Some(path) => (Ok(path), Seq::empty()),
        None => {
            let name = target.name_text();
            let matching = paths_named(inferred, name);
            let legacy = if rules.edition == Edition::Edition2015 {
                legacy_path(rules.legacy, rules.package_root@, name, *rules.fs)
            } else {
                None
            };
            if matching.len() == 1 {
                (Ok(matching[0]), Seq::empty())
            } else {
                match legacy {
                    Some((path, warning)) => (Ok(path), seq![warning]),
                    None => if matching.len() == 0 {
                        (
                            Err(
                                not_found_message(
                                    rules.package_root@,
                                    name,
                                    rules.kind@,
                                    *rules.fs,
                                    hint_for(rules.hints@, name),
                                ),
                            ),
                            Seq::empty(),
                        )
                    } else {
                        (
                            Err(
                                ambiguous_message(
                                    rules.package_root@,
                                    name,
                                    rules.kind@,
                                    matching[0],
                                    matching[1],
                                ),
                            ),
                            Seq::empty(),
                        )
                    },
                }
            }
        },
    }
}

/// The path of a target.
pub fn target_path(
    target: &TomlTarget,
    inferred: &Vec<(String, String)>,
    rules: &PathRules,
    warnings: &mut Vec<String>,
) -> (r: Result<String, String>)
    requires
        target@.path is Some || target@.name is Some,
        is_target_kind(rules.kind@),
    ensures
        res_text(r) == path_of(target@, text_pairs(inferred@), *rules).0,
        texts(final(warnings)@) == texts(old(warnings)@) + path_of(
            target@,
            text_pairs(inferred@),
            *rules,
        ).1,
{
    let ghost start = texts(warnings@);
    assert(start + Seq::<Text>::empty() =~= start);
    match &target.path {
        Some(path) => {
            return Ok(path.clone());
        },
        None => {},
    }
    let name = target.name_str();
    let matching = collect_named(inferred, name);
    assert(texts(matching@).len() == matching@.len());
    if matching.len() == 1 {
        return Ok(matching[0].clone());
    }
    if rules.edition == Edition::Edition2015 {
        match find_legacy_path(rules.legacy, rules.package_root, name, rules.fs) {
            Some((path, warning)) => {
                push_text(warnings, warning);
                assert(texts(warnings@) =~= start + seq![texts(warnings@).last()]);
                return Ok(path);
            },
            None => {},
        }
    }
    if matching.len() == 0 {
        let hint = find_hint(rules.hints, name);
        Err(
            target_path_not_found_error_message(
                rules.package_root,
                name,
                rules.kind,
                rules.fs,
                hint.as_str(),
            ),
        )
    } else {
        let first = strip_prefix_or_whole(matching[0].as_str(), rules.package_root);
        let second = strip_prefix_or_whole(matching[1].as_str(), rules.package_root);
        let mut message = text7(
            "cannot infer path for `",
            name,
            "` ",
            rules.kind,
            "\nCargo doesn't know which to use because multiple target files found at `",
            first.as_str(),
            "` and `",
        );
        message.append(second.as_str());
        message.append("`.");
        Err(message)
    }
}

/// Inferred targets as a manifest would describe them.
pub open spec fn as_tomls(inferred: Seq<(Text, Text)>) -> Seq<TomlTargetView> {
    inferred.map_values(
        |p: (Text, Text)|
            TomlTargetView { name: Some(p.0), path: Some(p.1), ..TomlTargetView::unset() },
    )
}

/// Inferred targets as a manifest would describe them.
pub fn inferred_to_toml_targets(inferred: &Vec<(String, String)>) -> (r: Vec<TomlTarget>)
    ensures
        tomls_view(r@) == as_tomls(text_pairs(inferred@)),
{
    let ghost want = as_tomls(text_pairs(inferred@));
    let mut r: Vec<TomlTarget> = Vec::new();
    let mut i: usize = 0;
    while i < inferred.len()
        invariant
            i <= inferred@.len(),
            want == as_tomls(text_pairs(inferred@)),
            tomls_view(r@) == want.take(i as int),
        decreases inferred@.len() - i,
    {
        let mut target = TomlTarget::new();
        target.name = Some(inferred[i].0.clone());
        target.path = Some(inferred[i].1.clone());
        proof {
            assert(text_pairs(inferred@)[i as int] == (
                inferred@[i as int].0@,
                inferred@[i as int].1@,
            ));
            assert(target@ == want[i as int]);
            assert(want.take(i + 1) =~= want.take(i as int).push(want[i as int]));
        }
        push_toml(&mut r, target);
        i = i + 1;
    }
    assert(want.take(i as int) =~= want);
    r
}

/// Where the source of a target stands, if it says so.
pub open spec fn place_of(package_root: Text, target: TomlTargetView) -> Option<Text> {
    match target.path {
        Some(path) => Some(joined(package_root, path)),
        None => None,
    }
}

/// Two targets have one name, or their sources stand in one place.
pub open spec fn is_same_target(
    package_root: Text,
    a: TomlTargetView,
    b: TomlTargetView,
) -> bool {
    ||| a.name == b.name
    ||| match (place_of(package_root, a), place_of(package_root, b)) {
        (Some(p), Some(q)) => same_path(p, q),
        (None, None) => true,
        _ => false,
    }
}

/// Some target of a list has the name or the place of the target.
pub open spec fn is_taken(
    package_root: Text,
    targets: Seq<TomlTargetView>,
    target: TomlTargetView,
) -> bool {
    exists|i: int|
        0 <= i < targets.len() && is_same_target(package_root, #[trigger] targets[i], target)
}

/// The targets that the manifest does not have: no target of the manifest has their
/// name or their place.
pub open spec fn remaining(
    package_root: Text,
    targets: Seq<TomlTargetView>,
    inferred: Seq<TomlTargetView>,
) -> Seq<TomlTargetView>
    decreases inferred.len(),
{
    if inferred.len() == 0 {
        Seq::empty()
    } else {
        let rest = remaining(package_root, targets, inferred.drop_last());
        if is_taken(package_root, targets, inferred.last()) {
            rest
        } else {
            rest.push(inferred.last())
        }
    }
}

fn same_opt(a: &Option<String>, b: &Option<String>) -> (r: bool)
    ensures
        r == (opt_text(*a) == opt_text(*b)),
{
    match (a, b) {
        (Some(a), Some(b)) => same_text(a.as_str(), b.as_str()),
        (None, None) => true,
        _ => false,
    }
}

fn is_same(package_root: &str, a: &TomlTarget, b: &TomlTarget) -> (r: bool)
    ensures
        r == is_same_target(package_root@, a@, b@),
{
    if same_opt(&a.name, &b.name) {
        return true;
    }
    match (&a.path, &b.path) {
        (Some(p), Some(q)) => {
            let p = join_path(package_root, p.as_str());
            let q = join_path(package_root, q.as_str());
            is_same_path(p.as_str(), q.as_str())
        },
        (None, None) => true,
        _ => false,
    }
}

fn taken(package_root: &str, targets: &Vec<TomlTarget>, target: &TomlTarget) -> (r: bool)
    ensures
        r == is_taken(package_root@, tomls_view(targets@), target@),
{
    let ghost all = tomls_view(targets@);
    let mut i: usize = 0;
    while i < targets.len()
        invariant
            i <= targets@.len(),
            all == tomls_view(targets@),
            forall|k: int|
                0 <= k < i ==> !is_same_target(package_root@, #[trigger] all[k], target@),
        decreases targets@.len() - i,
    {
        assert(all[i as int] == targets@[i as int]@);
        if is_same(package_root, &targets[i], target) {
            return true;
        }
        i = i + 1;
    }
    false
}

fn collect_remaining(
    package_root: &str,
    targets: &Vec<TomlTarget>,
    inferred: &Vec<TomlTarget>,
) -> (r: Vec<TomlTarget>)
    ensures
        tomls_view(r@) == remaining(package_root@, tomls_view(targets@), tomls_view(inferred@)),
{
    let ghost all = tomls_view(inferred@);
    let mut r: Vec<TomlTarget> = Vec::new();
    let mut i: usize = 0;
    assert(all.take(0) =~= Seq::empty());
    assert(tomls_view(r@) =~= Seq::empty());
    while i < inferred.len()
        invariant
            i <= inferred@.len(),
            all == tomls_view(inferred@),
            tomls_view(r@) == remaining(
                package_root@,
                tomls_view(targets@),
                all.take(i as int),
            ),
        decreases inferred@.len() - i,
    {
        assert(all.take(i + 1).drop_last() =~= all.take(i as int));
        assert(all.take(i + 1).last() == inferred@[i as int]@);
        if !taken(package_root, targets, &inferred[i]) {
            push_toml(&mut r, inferred[i].copy());
        }
        i = i + 1;
    }
    assert(all.take(i as int) =~= all);
    r
}

/// A line for the path of each target that has one.
pub open spec fn path_lines(targets: Seq<TomlTargetView>) -> Text
    decreases targets.len(),
{
    if targets.len() == 0 {
        Seq::empty()
    } else {
        let rest = path_lines(targets.drop_last());
        match targets.last().path {
            Some(path) => rest + "* "@ + path + "\n"@,
            None => rest,
        }
    }
}

/// Where targets are not inferred in the 2015 edition, though they would be later.
pub open spec fn not_inferred_warning(
    targets: Seq<TomlTargetView>,
    human: Text,
    kind: Text,
    flag: Text,
) -> Text {
    "An explicit [["@ + kind
        + "]] section is specified in Cargo.toml which currently\ndisables Cargo from automatically inferring other "@
        + human
        + " targets.\nThis inference behavior will change in the Rust 2018 edition and the following\nfiles will be included as a "@
        + human + " target:\n\n"@ + path_lines(targets)
        + "\nThis is likely to break cargo build or cargo test as these files may not be\nready to be compiled as a "@
        + human
        + " target today. You can future-proof yourself\nand disable this warning by adding `"@
        + flag
        + " = false` to your [package]\nsection. You may also move the files to a location where Cargo would not\nautomatically infer them to be a target, such as in subfolders.\n\nFor more information on this warning you can consult\nhttps://github.com/rust-lang/cargo/issues/5330"@
}

fn path_lines_of(targets: &Vec<TomlTarget>) -> (r: String)
    ensures
        r@ == path_lines(tomls_view(targets@)),
{
    let ghost all = tomls_view(targets@);
    let mut r: String = String::new();
    let mut i: usize = 0;
    assert(all.take(0) =~= Seq::empty());
    while i < targets.len()
        invariant
            i <= targets@.len(),
            all == tomls_view(targets@),
            r@ == path_lines(all.take(i as int)),
        decreases targets@.len() - i,
    {
        assert(all.take(i + 1).drop_last() =~= all.take(i as int));
        assert(all.take(i + 1).last() == targets@[i as int]@);
        match &targets[i].path {
            Some(path) => {
                r.append("* ");
                r.append(path.as_str());
                r.append("\n");
            },
            None => {},
        }
        i = i + 1;
    }
    assert(all.take(i as int) =~= all);
    r
}

fn not_inferred_text(targets: &Vec<TomlTarget>, human: &str, kind: &str, flag: &str) -> (r: String)
    ensures
        r@ == not_inferred_warning(tomls_view(targets@), human@, kind@, flag@),
{
    let lines = path_lines_of(targets);
    let mut r = text7(
        "An explicit [[",
        kind,
        "]] section is specified in Cargo.toml which currently\ndisables Cargo from automatically inferring other ",
        human,
        " targets.\nThis inference behavior will change in the Rust 2018 edition and the following\nfiles will be included as a ",
        human,
        " target:\n\n",
    );
    r.append(lines.as_str());
    r.append(
        "\nThis is likely to break cargo build or cargo test as these files may not be\nready to be compiled as a ",
    );
    r.append(human);
    r.append(
        " target today. You can future-proof yourself\nand disable this warning by adding `",
    );
    r.append(flag);
    r.append(
        " = false` to your [package]\nsection. You may also move the files to a location where Cargo would not\nautomatically infer them to be a target, such as in subfolders.\n\nFor more information on this warning you can consult\nhttps://github.com/rust-lang/cargo/issues/5330",
    );
    r
}

/// What a target in a manifest is ordered by: its name; those without one come
/// first.
pub open spec fn opt_name_key(target: TomlTargetView) -> Key {
    match target.name {
        Some(name) => text_key(name),
        None => Seq::empty(),
    }
}

/// What targets in a manifest are ordered by.
pub open spec fn opt_name_keys(targets: Seq<TomlTargetView>) -> Seq<Key> {
    targets.map_values(|t: TomlTargetView| opt_name_key(t))
}

/// The targets in the order of their names.
pub open spec fn by_name(targets: Seq<TomlTargetView>) -> Seq<TomlTargetView> {
    sorted_by(targets, opt_name_keys(targets))
}

fn sort_by_name(targets: &Vec<TomlTarget>) -> (r: Vec<TomlTarget>)
    ensures
        tomls_view(r@) == by_name(tomls_view(targets@)),
{
    let ghost all = tomls_view(targets@);
    let ghost want_keys = opt_name_keys(all);
    let mut keys: Vec<Vec<Vec<u32>>> = Vec::new();
    let mut i: usize = 0;
    while i < targets.len()
        invariant
            i <= targets@.len(),
            all == tomls_view(targets@),
            want_keys == opt_name_keys(all),
            keys_view(keys@) == want_keys.take(i as int),
        decreases targets@.len() - i,
    {
        let key: Vec<Vec<u32>> = match &targets[i].name {
            Some(name) => text_key_of(name.as_str()),
            None => Vec::new(),
        };
        proof {
            assert(all[i as int] == targets@[i as int]@);
            assert(key_view(key@) =~= opt_name_key(all[i as int]));
            lemma_keys_push(keys@, key);
            assert(want_keys.take(i + 1) =~= want_keys.take(i as int).push(want_keys[i as int]));
        }
        keys.push(key);
        i = i + 1;
    }
    assert(keys_view(keys@) =~= want_keys);
    assert(keys@.len() == keys_view(keys@).len());
    let places = order_by_keys(&keys);
    let ghost want = pick(all, places_view(places@));
    let mut r: Vec<TomlTarget> = Vec::new();
    let mut j: usize = 0;
    while j < places.len()
        invariant
            j <= places@.len(),
            all == tomls_view(targets@),
            forall|a: int| 0 <= a < places@.len() ==> #[trigger] places@[a] < targets@.len(),
            want == pick(all, places_view(places@)),
            tomls_view(r@) == want.take(j as int),
        decreases places@.len() - j,
    {
        let at = places[j];
        proof {
            assert(want[j as int] == all[at as int]);
            assert(all[at as int] == targets@[at as int]@);
            assert(want.take(j + 1) =~= want.take(j as int).push(want[j as int]));
        }
        push_toml(&mut r, targets[at].copy());
        j = j + 1;
    }
    assert(want.take(j as int) =~= want);
    r
}

/// The words for a kind of targets.
#[derive(Debug)]
pub struct KindWords<'a> {
    /// What targets of the kind are called.
    pub human: &'a str,
    /// The key of the kind in a manifest.
    pub kind: &'a str,
    /// The key that switches inferring off.
    pub flag: &'a str,
}

/// Targets that are not inferred are left out in the 2015 edition, unless the
/// manifest asks for them.
pub open spec fn discovers(autodiscover: Option<bool>, edition: Edition) -> bool {
    match autodiscover {
        Some(on) => on,
        None => edition != Edition::Edition2015,
    }
}

/// The targets of a manifest together with the inferred ones that it does not have,
/// in the order of their names.
pub open spec fn merged(
    targets: Option<Seq<TomlTargetView>>,
    inferred: Seq<(Text, Text)>,
    package_root: Text,
    autodiscover: Option<bool>,
    edition: Edition,
) -> Seq<TomlTargetView> {
    by_name(
        match targets {
            None => if autodiscover == Some(false) {
                Seq::empty()
            } else {
                as_tomls(inferred)
            },
            Some(list) => if discovers(autodiscover, edition) {
                list + remaining(package_root, list, as_tomls(inferred))
            } else {
                list
            },
        },
    )
}

/// What is warned of where targets are left out.
pub open spec fn merge_warnings(
    targets: Option<Seq<TomlTargetView>>,
    inferred: Seq<(Text, Text)>,
    package_root: Text,
    autodiscover: Option<bool>,
    edition: Edition,
    human: Text,
    kind: Text,
    flag: Text,
) -> Seq<Text> {
    match targets {
        None => Seq::empty(),
        Some(list) => {
            let left = remaining(package_root, list, as_tomls(inferred));
            if autodiscover is None && edition == Edition::Edition2015 && left.len() > 0 {
                seq![not_inferred_warning(left, human, kind, flag)]
            } else {
                Seq::empty()
            }
        },
    }
}

/// The targets of a manifest together with the inferred ones that it does not have.
pub fn toml_targets_and_inferred(
    toml_targets: &Option<Vec<TomlTarget>>,
    inferred: &Vec<(String, String)>,
    package_root: &str,
    autodiscover: Option<bool>,
    edition: Edition,
    words: &KindWords,
    warnings: &mut Vec<String>,
) -> (r: Vec<TomlTarget>)
    ensures
        tomls_view(r@) == merged(
            opt_tomls(*toml_targets),
            text_pairs(inferred@),
            package_root@,
            autodiscover,
            edition,
        ),
        texts(final(warnings)@) == texts(old(warnings)@) + merge_warnings(
            opt_tomls(*toml_targets),
            text_pairs(inferred@),
            package_root@,
            autodiscover,
            edition,
            words.human@,
            words.kind@,
            words.flag@,
        ),
{
    let ghost start = texts(warnings@);
    assert(start + Seq::<Text>::empty() =~= start);
    let inferred_targets = inferred_to_toml_targets(inferred);
    match toml_targets {
        None => {
            if autodiscover == Some(false) {
                let none: Vec<TomlTarget> = Vec::new();
                assert(tomls_view(none@) =~= Seq::empty());
                sort_by_name(&none)
            } else {
                sort_by_name(&inferred_targets)
            }
        },
        Some(targets) => {
            let mut all = copy_tomls(targets);
            let mut left = collect_remaining(package_root, targets, &inferred_targets);
            assert(tomls_view(left@).len() == left@.len());
            let discover = match autodiscover {
                Some(on) => on,
                None => {
                    if edition == Edition::Edition2015 {
                        if left.len() > 0 {
                            push_text(
                                warnings,
                                not_inferred_text(&left, words.human, words.kind, words.flag),
                            );
                            assert(texts(warnings@) =~= start + seq![texts(warnings@).last()]);
                        }
                        false
                    } else {
                        true
                    }
                },
            };
            if discover {
                let ghost before = all@;
                let ghost added = left@;
                all.append(&mut left);
                assert(all@ =~= before + added);
                assert(tomls_view(all@) =~= tomls_view(before) + tomls_view(added));
            }
            sort_by_name(&all)
        },
    }
}

/// What is reported of a binary.
pub open spec fn bin_report(target: TomlTargetView, edition: Edition, on_windows: bool) -> Report {
    bin_name_report(target, on_windows).and(bin_crate_types_report(target, edition)).and(
        bin_proc_macro_report(target, edition),
    )
}

fn validate_bin(
    target: &TomlTarget,
    edition: Edition,
    on_windows: bool,
    warnings: &mut Vec<String>,
    errors: &mut Vec<String>,
) -> (r: Result<(), String>)
    ensures
        reported(
            r,
            old(warnings)@,
            final(warnings)@,
            old(errors)@,
            final(errors)@,
            bin_report(target@, edition, on_windows),
        ),
        r is Ok ==> target@.name is Some,
{
    let ghost start = texts(warnings@);
    let ghost start_errors = texts(errors@);
    let ghost report = bin_report(target@, edition, on_windows);
    match validate_bin_name(target, on_windows, warnings) {
        Ok(_) => {},
        Err(e) => {
            assert(texts(errors@) =~= start_errors + report.errors);
            return Err(e);
        },
    }
    match validate_bin_crate_types(target, edition, warnings, errors) {
        Ok(_) => {},
        Err(e) => {
            assert(texts(warnings@) =~= start + report.warnings);
            assert(texts(errors@) =~= start_errors + report.errors);
            return Err(e);
        },
    }
    let r = validate_bin_proc_macro(target, edition, warnings, errors);
    assert(texts(warnings@) =~= start + report.warnings);
    assert(texts(errors@) =~= start_errors + report.errors);
    r
}

/// What is reported of binaries, one behind the other.
pub open spec fn bins_report(
    targets: Seq<TomlTargetView>,
    edition: Edition,
    on_windows: bool,
) -> Report
    decreases targets.len(),
{
    if targets.len() == 0 {
        Report::clean()
    } else {
        bins_report(targets.drop_last(), edition, on_windows).and(
            bin_report(targets.last(), edition, on_windows),
        )
    }
}

proof fn lemma_bins_failed(
    targets: Seq<TomlTargetView>,
    edition: Edition,
    on_windows: bool,
    k: int,
)
    requires
        0 <= k <= targets.len(),
        bins_report(targets.take(k), edition, on_windows).failure is Some,
    ensures
        bins_report(targets, edition, on_windows) == bins_report(
            targets.take(k),
            edition,
            on_windows,
        ),
    decreases targets.len() - k,
{
    if k == targets.len() {
        assert(targets.take(k) =~= targets);
    } else {
        assert(targets.take(k + 1).drop_last() =~= targets.take(k));
        lemma_bins_failed(targets, edition, on_windows, k + 1);
    }
}

/// Targets with their paths normalized.
pub open spec fn all_with_paths(targets: Seq<TomlTargetView>) -> Seq<TomlTargetView> {
    targets.map_values(|t: TomlTargetView| t.with_paths())
}

/// What a list of targets that may be missing stands for.
pub open spec fn listed(targets: Option<Seq<TomlTargetView>>) -> Seq<TomlTargetView> {
    match targets {
        Some(list) => list,
        None => Seq::empty(),
    }
}

fn copy_listed(targets: &Option<Vec<TomlTarget>>) -> (r: Vec<TomlTarget>)
    ensures
        tomls_view(r@) == listed(opt_tomls(*targets)),
{
    match targets {
        Some(list) => copy_tomls(list),
        None => {
            let none: Vec<TomlTarget> = Vec::new();
            assert(tomls_view(none@) =~= Seq::empty());
            none
        },
    }
}

fn with_all_paths(targets: &Vec<TomlTarget>) -> (r: Vec<TomlTarget>)
    ensures
        tomls_view(r@) == all_with_paths(tomls_view(targets@)),
{
    let ghost want = all_with_paths(tomls_view(targets@));
    let mut r: Vec<TomlTarget> = Vec::new();
    let mut i: usize = 0;
    while i < targets.len()
        invariant
            i <= targets@.len(),
            want == all_with_paths(tomls_view(targets@)),
            tomls_view(r@) == want.take(i as int),
        decreases targets@.len() - i,
    {
        let mut t = targets[i].copy();
        normalize_manifest_paths(&mut t);
        proof {
            assert(tomls_view(targets@)[i as int] == targets@[i as int]@);
            assert(want[i as int] == t@);
            assert(want.take(i + 1) =~= want.take(i as int).push(want[i as int]));
        }
        push_toml(&mut r, t);
        i = i + 1;
    }
    assert(want.take(i as int) =~= want);
    r
}

/// A target that gets a path, and has its native paths normalized.
pub open spec fn placed(target: TomlTargetView, path: Text) -> TomlTargetView {
    TomlTargetView { path: Some(normalized(path)), ..target }.with_native_paths()
}

/// What is reported of a binary and of its path.
pub open spec fn bin_path_report(
    target: TomlTargetView,
    inferred: Seq<(Text, Text)>,
    rules: PathRules,
    on_windows: bool,
) -> Report {
    let (path, warnings) = path_of(target, inferred, rules);
    bin_report(target, rules.edition, on_windows).and(
        Report {
            failure: match path {
                Ok(_) => None,
                Err(e) => Some(e),
            },
            warnings,
            errors: Seq::empty(),
        },
    )
}

/// The target with its path, as far as it can be told.
pub open spec fn with_path_told(
    target: TomlTargetView,
    inferred: Seq<(Text, Text)>,
    rules: PathRules,
) -> TomlTargetView {
    match path_of(target, inferred, rules).0 {
        Ok(path) => placed(target, path),
        Err(_) => target,
    }
}

/// What is reported of binaries and of their paths, one behind the other.
pub open spec fn bin_paths_report(
    targets: Seq<TomlTargetView>,
    inferred: Seq<(Text, Text)>,
    rules: PathRules,
    on_windows: bool,
) -> Report
    decreases targets.len(),
{
    if targets.len() == 0 {
        Report::clean()
    } else {
        bin_paths_report(targets.drop_last(), inferred, rules, on_windows).and(
            bin_path_report(targets.last(), inferred, rules, on_windows),
        )
    }
}

proof fn lemma_bin_paths_failed(
    targets: Seq<TomlTargetView>,
    inferred: Seq<(Text, Text)>,
    rules: PathRules,
    on_windows: bool,
    k: int,
)
    requires
        0 <= k <= targets.len(),
        bin_paths_report(targets.take(k), inferred, rules, on_windows).failure is Some,
    ensures
        bin_paths_report(targets, inferred, rules, on_windows) == bin_paths_report(
            targets.take(k),
            inferred,
            rules,
            on_windows,
        ),
    decreases targets.len() - k,
{
    if k == targets.len() {
        assert(targets.take(k) =~= targets);
    } else {
        assert(targets.take(k + 1).drop_last() =~= targets.take(k));
        lemma_bin_paths_failed(targets, inferred, rules, on_windows, k + 1);
    }
}

/// Targets with their paths, as far as they can be told.
pub open spec fn all_with_paths_told(
    targets: Seq<TomlTargetView>,
    inferred: Seq<(Text, Text)>,
    rules: PathRules,
) -> Seq<TomlTargetView> {
    targets.map_values(|t: TomlTargetView| with_path_told(t, inferred, rules))
}

/// What a normalization leaves behind: the targets, or the message of the failure;
/// what is warned of; and the errors that did not stop it.
pub struct Normalized {
    /// The targets, or the message of the failure.
    pub targets: Result<Seq<TomlTargetView>, Text>,
    /// What is warned of.
    pub warnings: Seq<Text>,
    /// The errors that did not stop it.
    pub errors: Seq<Text>,
}

/// The targets that come with a report, unless that tells of a failure.
pub open spec fn with_report(targets: Seq<TomlTargetView>, report: Report) -> Normalized {
    Normalized {
        targets: match report.failure {
            Some(e) => Err(e),
            None => Ok(targets),
        },
        warnings: report.warnings,
        errors: report.errors,
    }
}

/// The words for binaries.
pub open spec fn bin_words() -> (Text, Text, Text) {
    ("binary"@, "bin"@, "autobins"@)
}

/// The binaries of a package, made explicit.
pub open spec fn explicit_bins(
    targets: Option<Seq<TomlTargetView>>,
    package_name: Text,
    autodiscover: Option<bool>,
    listing: Option<Vec<DirEntry>>,
    rules: PathRules,
    on_windows: bool,
) -> Normalized {
    let root = rules.package_root@;
    if all_explicit(targets, autodiscover) {
        let list = listed(targets);
        with_report(all_with_paths(list), bins_report(list, rules.edition, on_windows))
    } else {
        match bin_paths(root, package_name, *rules.fs, listing) {
            Err(e) => Normalized {
                targets: Err(e),
                warnings: Seq::empty(),
                errors: Seq::empty(),
            },
            Ok(inferred) => {
                let list = merged(targets, inferred, root, autodiscover, rules.edition);
                let report = bin_paths_report(list, inferred, rules, on_windows);
                let (human, kind, flag) = bin_words();
                with_report(
                    all_with_paths_told(list, inferred, rules),
                    Report {
                        warnings: merge_warnings(
                            targets,
                            inferred,
                            root,
                            autodiscover,
                            rules.edition,
                            human,
                            kind,
                            flag,
                        ) + report.warnings,
                        ..report
                    },
                )
            },
        }
    }
}

/// What a result that is targets or a message holds.
pub open spec fn tomls_result(r: Result<Vec<TomlTarget>, String>) -> Result<
    Seq<TomlTargetView>,
    Text,
> {
    match r {
        Ok(list) => Ok(tomls_view(list@)),
        Err(e) => Err(e@),
    }
}

/// A normalization left behind what it should: what it reports stands behind what
/// the lists held before.
pub open spec fn left_behind(
    r: Result<Vec<TomlTarget>, String>,
    old_warnings: Seq<String>,
    warnings: Seq<String>,
    old_errors: Seq<String>,
    errors: Seq<String>,
    n: Normalized,
) -> bool {
    &&& tomls_result(r) == n.targets
    &&& texts(warnings) == texts(old_warnings) + n.warnings
    &&& texts(errors) == texts(old_errors) + n.errors
}

fn validate_bins(
    targets: &Vec<TomlTarget>,
    edition: Edition,
    on_windows: bool,
    warnings: &mut Vec<String>,
    errors: &mut Vec<String>,
) -> (r: Result<(), String>)
    ensures
        reported(
            r,
            old(warnings)@,
            final(warnings)@,
            old(errors)@,
            final(errors)@,
            bins_report(tomls_view(targets@), edition, on_windows),
        ),
{
    let ghost start = texts(warnings@);
    let ghost start_errors = texts(errors@);
    let ghost all = tomls_view(targets@);
    let mut i: usize = 0;
    assert(all.take(0) =~= Seq::empty());
    assert(start + Seq::<Text>::empty() =~= start);
    assert(start_errors + Seq::<Text>::empty() =~= start_errors);
    while i < targets.len()
        invariant
            i <= targets@.len(),
            all == tomls_view(targets@),
            start == texts(old(warnings)@),
            start_errors == texts(old(errors)@),
            bins_report(all.take(i as int), edition, on_windows).failure is None,
            texts(warnings@) == start + bins_report(
                all.take(i as int),
                edition,
                on_windows,
            ).warnings,
            texts(errors@) == start_errors + bins_report(
                all.take(i as int),
                edition,
                on_windows,
            ).errors,
        decreases targets@.len() - i,
    {
        assert(all.take(i + 1).drop_last() =~= all.take(i as int));
        assert(all.take(i + 1).last() == targets@[i as int]@);
        let r = validate_bin(&targets[i], edition, on_windows, warnings, errors);
        proof {
            let before = bins_report(all.take(i as int), edition, on_windows);
            let step = bin_report(all[i as int], edition, on_windows);
            lemma_and_behind(start, before, step);
            lemma_and_behind(start_errors, before, step);
        }
        match r {
            Ok(_) => {},
            Err(e) => {
                proof {
                    lemma_bins_failed(all, edition, on_windows, i + 1);
                }
                return Err(e);
            },
        }
        i = i + 1;
    }
    assert(all.take(i as int) =~= all);
    Ok(())
}

fn place_bin(
    bin: &TomlTarget,
    inferred: &Vec<(String, String)>,
    rules: &PathRules,
    on_windows: bool,
    warnings: &mut Vec<String>,
    errors: &mut Vec<String>,
) -> (r: Result<TomlTarget, String>)
    requires
        rules.kind@ == "bin"@,
    ensures
        ({
            let report = bin_path_report(bin@, text_pairs(inferred@), *rules, on_windows);
            &&& match r {
                Ok(t) => report.failure is None && t@ == with_path_told(
                    bin@,
                    text_pairs(inferred@),
                    *rules,
                ),
                Err(e) => report.failure == Some(e@),
            }
            &&& texts(final(warnings)@) == texts(old(warnings)@) + report.warnings
            &&& texts(final(errors)@) == texts(old(errors)@) + report.errors
        }),
{
    let ghost start = texts(warnings@);
    let ghost start_errors = texts(errors@);
    let ghost report = bin_path_report(bin@, text_pairs(inferred@), *rules, on_windows);
    match validate_bin(bin, rules.edition, on_windows, warnings, errors) {
        Ok(_) => {},
        Err(e) => {
            return Err(e);
        },
    }
    let path = target_path(bin, inferred, rules, warnings);
    assert(texts(warnings@) =~= start + report.warnings);
    assert(texts(errors@) =~= start_errors + report.errors);
    match path {
        Ok(path) => {
            let mut t = bin.copy();
            t.path = Some(normalize_path(path.as_str()));
            normalize_native_manifest_paths(&mut t);
            Ok(t)
        },
        Err(e) => Err(e),
    }
}

fn place_bins(
    bins: &Vec<TomlTarget>,
    inferred: &Vec<(String, String)>,
    rules: &PathRules,
    on_windows: bool,
    warnings: &mut Vec<String>,
    errors: &mut Vec<String>,
) -> (r: Result<Vec<TomlTarget>, String>)
    requires
        rules.kind@ == "bin"@,
    ensures
        left_behind(
            r,
            old(warnings)@,
            final(warnings)@,
            old(errors)@,
            final(errors)@,
            with_report(
                all_with_paths_told(tomls_view(bins@), text_pairs(inferred@), *rules),
                bin_paths_report(
                    tomls_view(bins@),
                    text_pairs(inferred@),
                    *rules,
                    on_windows,
                ),
            ),
        ),
{
    let ghost start = texts(warnings@);
    let ghost start_errors = texts(errors@);
    let ghost all = tomls_view(bins@);
    let ghost pairs = text_pairs(inferred@);
    let ghost want = all_with_paths_told(all, pairs, *rules);
    let mut result: Vec<TomlTarget> = Vec::new();
    let mut i: usize = 0;
    assert(all.take(0) =~= Seq::empty());
    assert(start + Seq::<Text>::empty() =~= start);
    assert(start_errors + Seq::<Text>::empty() =~= start_errors);
    assert(tomls_view(result@) =~= want.take(0));
    while i < bins.len()
        invariant
            i <= bins@.len(),
            rules.kind@ == "bin"@,
            all == tomls_view(bins@),
            pairs == text_pairs(inferred@),
            want == all_with_paths_told(all, pairs, *rules),
            start == texts(old(warnings)@),
            start_errors == texts(old(errors)@),
            bin_paths_report(all.take(i as int), pairs, *rules, on_windows).failure is None,
            texts(warnings@) == start + bin_paths_report(
                all.take(i as int),
                pairs,
                *rules,
                on_windows,
            ).warnings,
            texts(errors@) == start_errors + bin_paths_report(
                all.take(i as int),
                pairs,
                *rules,
                on_windows,
            ).errors,
            tomls_view(result@) == want.take(i as int),
        decreases bins@.len() - i,
    {
        let ghost before = bin_paths_report(all.take(i as int), pairs, *rules, on_windows);
        let ghost now = bin_paths_report(all.take(i + 1), pairs, *rules, on_windows);
        let ghost step = bin_path_report(all[i as int], pairs, *rules, on_windows);
        proof {
            assert(all.take(i + 1).drop_last() =~= all.take(i as int));
            assert(all.take(i + 1).last() == all[i as int]);
            assert(all[i as int] == bins@[i as int]@);
            assert(now == before.and(step));
            assert(want[i as int] == with_path_told(all[i as int], pairs, *rules));
            assert(want.take(i + 1) =~= want.take(i as int).push(want[i as int]));
        }
        let placed = place_bin(&bins[i], inferred, rules, on_windows, warnings, errors);
        proof {
            lemma_and_behind(start, before, step);
            lemma_and_behind(start_errors, before, step);
        }
        match placed {
            Ok(t) => push_toml(&mut result, t),
            Err(e) => {
                proof {
                    lemma_bin_paths_failed(all, pairs, *rules, on_windows, i + 1);
                }
                return Err(e);
            },
        }
        i = i + 1;
    }
    proof {
        assert(all.take(i as int) =~= all);
        assert(want.take(i as int) =~= want);
    }
    Ok(result)
}

fn make_bins_explicit(
    toml_bins: &Option<Vec<TomlTarget>>,
    package_name: &str,
    autodiscover: Option<bool>,
    listing: &Option<Vec<DirEntry>>,
    rules: &PathRules,
    on_windows: bool,
    warnings: &mut Vec<String>,
    errors: &mut Vec<String>,
) -> (r: Result<Vec<TomlTarget>, String>)
    requires
        rules.kind@ == "bin"@,
    ensures
        left_behind(
            r,
            old(warnings)@,
            final(warnings)@,
            old(errors)@,
            final(errors)@,
            explicit_bins(
                opt_tomls(*toml_bins),
                package_name@,
                autodiscover,
                *listing,
                *rules,
                on_windows,
            ),
        ),
{
    let ghost start = texts(warnings@);
    let ghost start_errors = texts(errors@);
    assert(start + Seq::<Text>::empty() =~= start);
    assert(start_errors + Seq::<Text>::empty() =~= start_errors);
    if are_normalized(toml_bins, autodiscover) {
        let bins = copy_listed(toml_bins);
        return match validate_bins(&bins, rules.edition, on_windows, warnings, errors) {
            Ok(_) => Ok(with_all_paths(&bins)),
            Err(e) => Err(e),
        };
    }
    let inferred = match inferred_bins(rules.package_root, package_name, rules.fs, listing) {
        Ok(inferred) => inferred,
        Err(e) => {
            return Err(e);
        },
    };
    let ghost pairs = text_pairs(inferred@);
    let words = KindWords { human: "binary", kind: "bin", flag: "autobins" };
    let bins = toml_targets_and_inferred(
        toml_bins,
        &inferred,
        rules.package_root,
        autodiscover,
        rules.edition,
        &words,
        warnings,
    );
    let ghost first = texts(warnings@);
    let r = place_bins(&bins, &inferred, rules, on_windows, warnings, errors);
    proof {
        let list = merged(
            opt_tomls(*toml_bins),
            text_pairs(inferred@),
            rules.package_root@,
            autodiscover,
            rules.edition,
        );
        let told = bin_paths_report(list, text_pairs(inferred@), *rules, on_windows);
        let left_out = merge_warnings(
            opt_tomls(*toml_bins),
            text_pairs(inferred@),
            rules.package_root@,
            autodiscover,
            rules.edition,
            "binary"@,
            "bin"@,
            "autobins"@,
        );
        lemma_append_associative(start, left_out, told.warnings);
    }
    r
}

/// The binaries of a package, made explicit. `listing` holds the entries of
/// `src/bin`.
pub fn normalize_bins(
    toml_bins: &Option<Vec<TomlTarget>>,
    package: &PackageFiles,
    package_name: &str,
    autodiscover: Option<bool>,
    listing: &Option<Vec<DirEntry>>,
    on_windows: bool,
    warnings: &mut Vec<String>,
    errors: &mut Vec<String>,
    has_lib: bool,
) -> (r: Result<Vec<TomlTarget>, String>)
    ensures
        left_behind(
            r,
            old(warnings)@,
            final(warnings)@,
            old(errors)@,
            final(errors)@,
            explicit_bins(
                opt_tomls(*toml_bins),
                package_name@,
                autodiscover,
                *listing,
                package.rules_for("bin", LegacyRule::Bin { has_lib }),
                on_windows,
            ),
        ),
{
    let rules = package.rules("bin", LegacyRule::Bin { has_lib });
    make_bins_explicit(
        toml_bins,
        package_name,
        autodiscover,
        listing,
        &rules,
        on_windows,
        warnings,
        errors,
    )
}

/// What is reported of an example, a test or a benchmark.
pub open spec fn other_report(
    target: TomlTargetView,
    human: Text,
    kind: Text,
    edition: Edition,
    on_windows: bool,
) -> Report {
    name_report(target, human, kind, on_windows).and(
        proc_macro_report(target, human, edition),
    ).and(crate_types_report(target, human, edition))
}

fn validate_other(
    target: &TomlTarget,
    words: &KindWords,
    edition: Edition,
    on_windows: bool,
    warnings: &mut Vec<String>,
) -> (r: Result<(), String>)
    ensures
        reported_warnings(
            r,
            old(warnings)@,
            final(warnings)@,
            other_report(target@, words.human@, words.kind@, edition, on_windows),
        ),
        r is Ok ==> target@.name is Some,
{
    let ghost start = texts(warnings@);
    let ghost report = other_report(target@, words.human@, words.kind@, edition, on_windows);
    match validate_target_name(target, words.human, words.kind, on_windows, warnings) {
        Ok(_) => {},
        Err(e) => {
            return Err(e);
        },
    }
    match validate_proc_macro(target, words.human, edition, warnings) {
        Ok(_) => {},
        Err(e) => {
            assert(texts(warnings@) =~= start + report.warnings);
            return Err(e);
        },
    }
    let r = validate_crate_types(target, words.human, edition, warnings);
    assert(texts(warnings@) =~= start + report.warnings);
    r
}

/// What is reported of examples, tests or benchmarks, one behind the other.
pub open spec fn others_report(
    targets: Seq<TomlTargetView>,
    human: Text,
    kind: Text,
    edition: Edition,
    on_windows: bool,
) -> Report
    decreases targets.len(),
{
    if targets.len() == 0 {
        Report::clean()
    } else {
        others_report(targets.drop_last(), human, kind, edition, on_windows).and(
            other_report(targets.last(), human, kind, edition, on_windows),
        )
    }
}

proof fn lemma_others_failed(
    targets: Seq<TomlTargetView>,
    human: Text,
    kind: Text,
    edition: Edition,
    on_windows: bool,
    k: int,
)
    requires
        0 <= k <= targets.len(),
        others_report(targets.take(k), human, kind, edition, on_windows).failure is Some,
    ensures
        others_report(targets, human, kind, edition, on_windows) == others_report(
            targets.take(k),
            human,
            kind,
            edition,
            on_windows,
        ),
    decreases targets.len() - k,
{
    if k == targets.len() {
        assert(targets.take(k) =~= targets);
    } else {
        assert(targets.take(k + 1).drop_last() =~= targets.take(k));
        lemma_others_failed(targets, human, kind, edition, on_windows, k + 1);
    }
}

fn validate_others(
    targets: &Vec<TomlTarget>,
    words: &KindWords,
    edition: Edition,
    on_windows: bool,
    warnings: &mut Vec<String>,
) -> (r: Result<(), String>)
    ensures
        reported_warnings(
            r,
            old(warnings)@,
            final(warnings)@,
            others_report(
                tomls_view(targets@),
                words.human@,
                words.kind@,
                edition,
                on_windows,
            ),
        ),
        r is Ok ==> forall|i: int|
            0 <= i < targets@.len() ==> (#[trigger] targets@[i])@.name is Some,
{
    let ghost start = texts(warnings@);
    let ghost all = tomls_view(targets@);
    let ghost human = words.human@;
    let ghost kind = words.kind@;
    let mut i: usize = 0;
    assert(all.take(0) =~= Seq::empty());
    assert(start + Seq::<Text>::empty() =~= start);
    while i < targets.len()
        invariant
            i <= targets@.len(),
            all == tomls_view(targets@),
            start == texts(old(warnings)@),
            human == words.human@,
            kind == words.kind@,
            others_report(all.take(i as int), human, kind, edition, on_windows).failure is None,
            others_report(
                all.take(i as int),
                human,
                kind,
                edition,
                on_windows,
            ).errors.len() == 0,
            texts(warnings@) == start + others_report(
                all.take(i as int),
                human,
                kind,
                edition,
                on_windows,
            ).warnings,
            forall|k: int| 0 <= k < i ==> (#[trigger] targets@[k])@.name is Some,
        decreases targets@.len() - i,
    {
        assert(all.take(i + 1).drop_last() =~= all.take(i as int));
        assert(all.take(i + 1).last() == targets@[i as int]@);
        let r = validate_other(&targets[i], words, edition, on_windows, warnings);
        proof {
            let now = others_report(all.take(i + 1), human, kind, edition, on_windows);
            assert(texts(warnings@) =~= start + now.warnings);
        }
        match r {
            Ok(_) => {},
            Err(e) => {
                proof {
                    lemma_others_failed(all, human, kind, edition, on_windows, i + 1);
                }
                return Err(e);
            },
        }
        i = i + 1;
    }
    assert(all.take(i as int) =~= all);
    Ok(())
}

/// The targets whose paths can be told, with their paths.
pub open spec fn placed_targets(
    targets: Seq<TomlTargetView>,
    inferred: Seq<(Text, Text)>,
    rules: PathRules,
) -> Seq<TomlTargetView>
    decreases targets.len(),
{
    if targets.len() == 0 {
        Seq::empty()
    } else {
        let rest = placed_targets(targets.drop_last(), inferred, rules);
        match path_of(targets.last(), inferred, rules).0 {
            Ok(path) => rest.push(placed(targets.last(), path)),
            Err(_) => rest,
        }
    }
}

/// What is reported of the paths of targets: a path that cannot be told is an error
/// that does not stop the others.
pub open spec fn paths_report(
    targets: Seq<TomlTargetView>,
    inferred: Seq<(Text, Text)>,
    rules: PathRules,
) -> Report
    decreases targets.len(),
{
    if targets.len() == 0 {
        Report::clean()
    } else {
        let (path, warnings) = path_of(targets.last(), inferred, rules);
        paths_report(targets.drop_last(), inferred, rules).and(
            Report {
                failure: None,
                warnings,
                errors: match path {
                    Ok(_) => Seq::empty(),
                    Err(e) => seq![e],
                },
            },
        )
    }
}

/// The examples, tests or benchmarks of a package, made explicit.
pub open spec fn explicit_others(
    targets: Option<Seq<TomlTargetView>>,
    human: Text,
    kind: Text,
    flag: Text,
    rel_dir: Text,
    autodiscover: Option<bool>,
    listing: Option<Vec<DirEntry>>,
    rules: PathRules,
    on_windows: bool,
) -> Normalized {
    let root = rules.package_root@;
    let edition = rules.edition;
    if all_explicit(targets, autodiscover) {
        let list = listed(targets);
        with_report(
            all_with_paths(list),
            others_report(list, human, kind, edition, on_windows),
        )
    } else {
        match dir_targets(root, *rules.fs, rel_dir, listing, "targets"@) {
            Err(e) => Normalized {
                targets: Err(e),
                warnings: Seq::empty(),
                errors: Seq::empty(),
            },
            Ok(inferred) => {
                let list = merged(targets, inferred, root, autodiscover, edition);
                let report = others_report(list, human, kind, edition, on_windows).and(
                    paths_report(list, inferred, rules),
                );
                with_report(
                    placed_targets(list, inferred, rules),
                    Report {
                        warnings: merge_warnings(
                            targets,
                            inferred,
                            root,
                            autodiscover,
                            edition,
                            human,
                            kind,
                            flag,
                        ) + report.warnings,
                        ..report
                    },
                )
            },
        }
    }
}

fn place_targets(
    targets: &Vec<TomlTarget>,
    inferred: &Vec<(String, String)>,
    rules: &PathRules,
    warnings: &mut Vec<String>,
    errors: &mut Vec<String>,
) -> (r: Vec<TomlTarget>)
    requires
        is_target_kind(rules.kind@),
        forall|i: int| 0 <= i < targets@.len() ==> (#[trigger] targets@[i])@.name is Some,
    ensures
        tomls_view(r@) == placed_targets(tomls_view(targets@), text_pairs(inferred@), *rules),
        reported(
            Ok(()),
            old(warnings)@,
            final(warnings)@,
            old(errors)@,
            final(errors)@,
            paths_report(tomls_view(targets@), text_pairs(inferred@), *rules),
        ),
{
    let ghost start = texts(warnings@);
    let ghost start_errors = texts(errors@);
    let ghost all = tomls_view(targets@);
    let ghost pairs = text_pairs(inferred@);
    let mut r: Vec<TomlTarget> = Vec::new();
    let mut i: usize = 0;
    assert(all.take(0) =~= Seq::empty());
    assert(tomls_view(r@) =~= Seq::empty());
    assert(start + Seq::<Text>::empty() =~= start);
    assert(start_errors + Seq::<Text>::empty() =~= start_errors);
    while i < targets.len()
        invariant
            i <= targets@.len(),
            is_target_kind(rules.kind@),
            forall|i: int| 0 <= i < targets@.len() ==> (#[trigger] targets@[i])@.name is Some,
            all == tomls_view(targets@),
            pairs == text_pairs(inferred@),
            paths_report(all.take(i as int), pairs, *rules).failure is None,
            tomls_view(r@) == placed_targets(all.take(i as int), pairs, *rules),
            texts(warnings@) == start + paths_report(
                all.take(i as int),
                pairs,
                *rules,
            ).warnings,
            texts(errors@) == start_errors + paths_report(
                all.take(i as int),
                pairs,
                *rules,
            ).errors,
        decreases targets@.len() - i,
    {
        let ghost now = paths_report(all.take(i + 1), pairs, *rules);
        assert(all.take(i + 1).drop_last() =~= all.take(i as int));
        assert(all.take(i + 1).last() == targets@[i as int]@);
        let path = target_path(&targets[i], inferred, rules, warnings);
        assert(texts(warnings@) =~= start + now.warnings);
        match path {
            Ok(path) => {
                let mut t = targets[i].copy();
                t.path = Some(normalize_path(path.as_str()));
                normalize_native_manifest_paths(&mut t);
                push_toml(&mut r, t);
            },
            Err(e) => {
                push_text(errors, e);
            },
        }
        assert(texts(errors@) =~= start_errors + now.errors);
        i = i + 1;
    }
    assert(all.take(i as int) =~= all);
    r
}

fn check_and_place(
    targets: &Vec<TomlTarget>,
    inferred: &Vec<(String, String)>,
    words: &KindWords,
    rules: &PathRules,
    on_windows: bool,
    warnings: &mut Vec<String>,
    errors: &mut Vec<String>,
) -> (r: Result<Vec<TomlTarget>, String>)
    requires
        is_target_kind(rules.kind@),
    ensures
        left_behind(
            r,
            old(warnings)@,
            final(warnings)@,
            old(errors)@,
            final(errors)@,
            with_report(
                placed_targets(tomls_view(targets@), text_pairs(inferred@), *rules),
                others_report(
                    tomls_view(targets@),
                    words.human@,
                    words.kind@,
                    rules.edition,
                    on_windows,
                ).and(paths_report(tomls_view(targets@), text_pairs(inferred@), *rules)),
            ),
        ),
{
    let ghost start = texts(warnings@);
    let ghost start_errors = texts(errors@);
    let ghost checks = others_report(
        tomls_view(targets@),
        words.human@,
        words.kind@,
        rules.edition,
        on_windows,
    );
    let ghost told = paths_report(tomls_view(targets@), text_pairs(inferred@), *rules);
    match validate_others(targets, words, rules.edition, on_windows, warnings) {
        Ok(_) => {},
        Err(e) => {
            assert(start_errors + checks.errors =~= start_errors);
            return Err(e);
        },
    }
    let r = place_targets(targets, inferred, rules, warnings, errors);
    proof {
        assert(start_errors + checks.errors =~= start_errors);
        lemma_and_behind(start, checks, told);
        lemma_and_behind(start_errors, checks, told);
    }
    Ok(r)
}

/// The examples, tests or benchmarks of a package, made explicit. `listing` holds
/// the entries of the directory `rel_dir`, where targets of the kind stand.
pub fn normalize_targets_with_legacy_path(
    words: &KindWords,
    toml_targets: &Option<Vec<TomlTarget>>,
    rel_dir: &str,
    listing: &Option<Vec<DirEntry>>,
    autodiscover: Option<bool>,
    rules: &PathRules,
    on_windows: bool,
    warnings: &mut Vec<String>,
    errors: &mut Vec<String>,
) -> (r: Result<Vec<TomlTarget>, String>)
    requires
        is_target_kind(rules.kind@),
    ensures
        left_behind(
            r,
            old(warnings)@,
            final(warnings)@,
            old(errors)@,
            final(errors)@,
            explicit_others(
                opt_tomls(*toml_targets),
                words.human@,
                words.kind@,
                words.flag@,
                rel_dir@,
                autodiscover,
                *listing,
                *rules,
                on_windows,
            ),
        ),
{
    let ghost start = texts(warnings@);
    let ghost start_errors = texts(errors@);
    assert(start + Seq::<Text>::empty() =~= start);
    assert(start_errors + Seq::<Text>::empty() =~= start_errors);
    if are_normalized(toml_targets, autodiscover) {
        let targets = copy_listed(toml_targets);
        let ghost report = others_report(
            tomls_view(targets@),
            words.human@,
            words.kind@,
            rules.edition,
            on_windows,
        );
        let r = validate_others(&targets, words, rules.edition, on_windows, warnings);
        assert(start_errors + report.errors =~= start_errors);
        return match r {
            Ok(_) => Ok(with_all_paths(&targets)),
            Err(e) => Err(e),
        };
    }
    let inferred = match infer_non_bin_targets(
        rules.package_root,
        rules.fs,
        rel_dir,
        listing,
    ) {
        Ok(inferred) => inferred,
        Err(e) => {
            return Err(e);
        },
    };
    let targets = toml_targets_and_inferred(
        toml_targets,
        &inferred,
        rules.package_root,
        autodiscover,
        rules.edition,
        words,
        warnings,
    );
    let r = check_and_place(&targets, &inferred, words, rules, on_windows, warnings, errors);
    proof {
        let list = merged(
            opt_tomls(*toml_targets),
            text_pairs(inferred@),
            rules.package_root@,
            autodiscover,
            rules.edition,
        );
        let told = others_report(
            list,
            words.human@,
            words.kind@,
            rules.edition,
            on_windows,
        ).and(paths_report(list, text_pairs(inferred@), *rules));
        let left_out = merge_warnings(
            opt_tomls(*toml_targets),
            text_pairs(inferred@),
            rules.package_root@,
            autodiscover,
            rules.edition,
            words.human@,
            words.kind@,
            words.flag@,
        );
        lemma_append_associative(start, left_out, told.warnings);
    }
    r
}

/// The examples, tests or benchmarks of a package, made explicit, where no sources
/// of old packages are accepted.
pub fn normalize_targets(
    words: &KindWords,
    toml_targets: &Option<Vec<TomlTarget>>,
    rel_dir: &str,
    listing: &Option<Vec<DirEntry>>,
    autodiscover: Option<bool>,
    rules: &PathRules,
    on_windows: bool,
    warnings: &mut Vec<String>,
    errors: &mut Vec<String>,
) -> (r: Result<Vec<TomlTarget>, String>)
    requires
        is_target_kind(rules.kind@),
        rules.legacy == LegacyRule::Nowhere,
    ensures
        left_behind(
            r,
            old(warnings)@,
            final(warnings)@,
            old(errors)@,
            final(errors)@,
            explicit_others(
                opt_tomls(*toml_targets),
                words.human@,
                words.kind@,
                words.flag@,
                rel_dir@,
                autodiscover,
                *listing,
                *rules,
                on_windows,
            ),
        ),
{
    normalize_targets_with_legacy_path(
        words,
        toml_targets,
        rel_dir,
        listing,
        autodiscover,
        rules,
        on_windows,
        warnings,
        errors,
    )
}

/// The examples of a package, made explicit. `listing` holds the entries of
/// `examples`.
pub fn normalize_examples(
    toml_examples: &Option<Vec<TomlTarget>>,
    package: &PackageFiles,
    listing: &Option<Vec<DirEntry>>,
    autodiscover: Option<bool>,
    on_windows: bool,
    warnings: &mut Vec<String>,
    errors: &mut Vec<String>,
) -> (r: Result<Vec<TomlTarget>, String>)
    ensures
        left_behind(
            r,
            old(warnings)@,
            final(warnings)@,
            old(errors)@,
            final(errors)@,
            explicit_others(
                opt_tomls(*toml_examples),
                "example"@,
                "example"@,
                "autoexamples"@,
                "examples"@,
                autodiscover,
                *listing,
                package.rules_for("example", LegacyRule::Nowhere),
                on_windows,
            ),
        ),
{
    let rules = package.rules("example", LegacyRule::Nowhere);
    let words = KindWords { human: "example", kind: "example", flag: "autoexamples" };
    normalize_targets(
        &words,
        toml_examples,
        "examples",
        listing,
        autodiscover,
        &rules,
        on_windows,
        warnings,
        errors,
    )
}

/// The tests of a package, made explicit. `listing` holds the entries of `tests`.
pub fn normalize_tests(
    toml_tests: &Option<Vec<TomlTarget>>,
    package: &PackageFiles,
    listing: &Option<Vec<DirEntry>>,
    autodiscover: Option<bool>,
    on_windows: bool,
    warnings: &mut Vec<String>,
    errors: &mut Vec<String>,
) -> (r: Result<Vec<TomlTarget>, String>)
    ensures
        left_behind(
            r,
            old(warnings)@,
            final(warnings)@,
            old(errors)@,
            final(errors)@,
            explicit_others(
                opt_tomls(*toml_tests),
                "test"@,
                "test"@,
                "autotests"@,
                "tests"@,
                autodiscover,
                *listing,
                package.rules_for("test", LegacyRule::Nowhere),
                on_windows,
            ),
        ),
{
    let rules = package.rules("test", LegacyRule::Nowhere);
    let words = KindWords { human: "test", kind: "test", flag: "autotests" };
    normalize_targets(
        &words,
        toml_tests,
        "tests",
        listing,
        autodiscover,
        &rules,
        on_windows,
        warnings,
        errors,
    )
}

/// The benchmarks of a package, made explicit. `listing` holds the entries of
/// `benches`.
pub fn normalize_benches(
    toml_benches: &Option<Vec<TomlTarget>>,
    package: &PackageFiles,
    listing: &Option<Vec<DirEntry>>,
    autodiscover: Option<bool>,
    on_windows: bool,
    warnings: &mut Vec<String>,
    errors: &mut Vec<String>,
) -> (r: Result<Vec<TomlTarget>, String>)
    ensures
        left_behind(
            r,
            old(warnings)@,
            final(warnings)@,
            old(errors)@,
            final(errors)@,
            explicit_others(
                opt_tomls(*toml_benches),
                "benchmark"@,
                "bench"@,
                "autobenches"@,
                "benches"@,
                autodiscover,
                *listing,
                package.rules_for("bench", LegacyRule::Bench),
                on_windows,
            ),
        ),
{
    let rules = package.rules("bench", LegacyRule::Bench);
    let words = KindWords { human: "benchmark", kind: "bench", flag: "autobenches" };
    normalize_targets_with_legacy_path(
        &words,
        toml_benches,
        "benches",
        listing,
        autodiscover,
        &rules,
        on_windows,
        warnings,
        errors,
    )
}

/// The build scripts of a package, made explicit: where the manifest says nothing,
/// `build.rs` is one if it is a file.
pub open spec fn explicit_build(
    build: Option<TomlBuildView>,
    package_root: Text,
    fs: FsView,
) -> TomlBuildView {
    match build {
        None => if fs.has_file(joined(package_root, "build.rs"@)) {
            TomlBuildView::SingleScript("build.rs"@)
        } else {
            TomlBuildView::Auto(false)
        },
        Some(TomlBuildView::Auto(on)) => if on {
            TomlBuildView::SingleScript("build.rs"@)
        } else {
            TomlBuildView::Auto(false)
        },
        Some(TomlBuildView::SingleScript(script)) => TomlBuildView::SingleScript(
            normalized(script),
        ),
        Some(TomlBuildView::MultipleScript(scripts)) => TomlBuildView::MultipleScript(scripts),
    }
}

/// The build scripts of a package, made explicit.
pub fn normalize_build(
    build: &Option<TomlPackageBuild>,
    package_root: &str,
    fs: &FsView,
) -> (r: TomlPackageBuild)
    ensures
        r@ == explicit_build(opt_build(*build), package_root@, *fs),
        is_normalized_build(Some(r@)),
{
    match build {
        None => {
            let at = join_path(package_root, "build.rs");
            if fs.is_file(at.as_str()) {
                TomlPackageBuild::SingleScript("build.rs".to_owned())
            } else {
                TomlPackageBuild::Auto(false)
            }
        },
        Some(TomlPackageBuild::Auto(on)) => {
            if *on {
                TomlPackageBuild::SingleScript("build.rs".to_owned())
            } else {
                TomlPackageBuild::Auto(false)
            }
        },
        Some(TomlPackageBuild::SingleScript(script)) => TomlPackageBuild::SingleScript(
            normalize_path(script.as_str()),
        ),
        Some(TomlPackageBuild::MultipleScript(scripts)) => TomlPackageBuild::MultipleScript(
            copy_list(scripts),
        ),
    }
}

} // verus!
