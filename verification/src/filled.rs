//! What the targets of a manifest become once all is explicit.
use vstd::prelude::*;

use crate::discover::{bin_paths, dir_targets, lib_path};
use crate::fs::{DirEntry, FsView};
use crate::manifest::{Edition, TomlBuildView, TomlTargetView};
use crate::normalize::{all_explicit, all_with_paths, all_with_paths_told, as_tomls};
use crate::normalize::{bin_path_report, bin_paths_report, discovers, explicit_bins};
use crate::normalize::{explicit_build, explicit_lib, explicit_others, is_explicit};
use crate::normalize::{is_same_target, is_taken, possible_file};
use crate::normalize::{legacy_path, merge_warnings, merged, others_report, path_of, remaining};
use crate::normalize::{ paths_named, paths_report};
use crate::normalize::{placed, placed_targets, LegacyRule, PathRules};
use crate::path::{joined, normalized, same_path};
use crate::settled::{lemma_by_name, lemma_merged, lemma_remaining};
use crate::text::{replaced, Text};
use crate::validate::{bin_crate_types_report, bin_name_report, bin_proc_macro_report};
use crate::validate::{crate_types_report, lib_name_report, name_report, proc_macro_report};

verus! {

/// The paths are those of the other list, each without what can be left out.
pub open spec fn are_normalized(paths: Option<Seq<Text>>, of: Option<Seq<Text>>) -> bool {
    match (paths, of) {
        (Some(paths), Some(of)) => {
            &&& paths.len() == of.len()
            &&& forall|i: int|
                #![trigger paths[i]]
                0 <= i < paths.len() ==> paths[i] == normalized(of[i])
        },
        (None, None) => true,
        _ => false,
    }
}

/// The path is the other one, without what can be left out.
pub open spec fn is_normalized_path(path: Option<Text>, of: Option<Text>) -> bool {
    match (path, of) {
        (Some(path), Some(of)) => path == normalized(of),
        (None, None) => true,
        _ => false,
    }
}

/// The target has what is set for the other one, but for its name and its path; the paths
/// among that are without what can be left out.
pub open spec fn keeps_settings(target: TomlTargetView, of: TomlTargetView) -> bool {
    &&& target.crate_type == of.crate_type
    &&& target.crate_type2 == of.crate_type2
    &&& target.filename == of.filename
    &&& target.test == of.test
    &&& target.doctest == of.doctest
    &&& target.bench == of.bench
    &&& target.doc == of.doc
    &&& target.doc_scrape_examples == of.doc_scrape_examples
    &&& target.proc_macro == of.proc_macro
    &&& target.proc_macro2 == of.proc_macro2
    &&& target.harness == of.harness
    &&& target.required_features == of.required_features
    &&& target.edition == of.edition
    &&& is_normalized_path(target.native_include_root, of.native_include_root)
    &&& is_normalized_path(target.native_sources_root, of.native_sources_root)
    &&& are_normalized(target.native_include_dirs, of.native_include_dirs)
    &&& target.native_defines == of.native_defines
    &&& are_normalized(target.native_link_search, of.native_link_search)
    &&& target.native_link_libraries == of.native_link_libraries
    &&& target.native_link_args == of.native_link_args
}

/// Nothing is set but a name and a path.
pub open spec fn sets_no_more(target: TomlTargetView) -> bool {
    &&& target.crate_type is None
    &&& target.crate_type2 is None
    &&& target.filename is None
    &&& target.test is None
    &&& target.doctest is None
    &&& target.bench is None
    &&& target.doc is None
    &&& target.doc_scrape_examples is None
    &&& target.proc_macro is None
    &&& target.proc_macro2 is None
    &&& target.harness is None
    &&& target.required_features is None
    &&& target.edition is None
    &&& target.native_include_root is None
    &&& target.native_sources_root is None
    &&& target.native_include_dirs is None
    &&& target.native_defines is None
    &&& target.native_link_search is None
    &&& target.native_link_libraries is None
    &&& target.native_link_args is None
}

proof fn lemma_placed(target: TomlTargetView, path: Text)
    ensures
        placed(target, path).name == target.name,
        placed(target, path).path == Some(normalized(path)),
        keeps_settings(placed(target, path), target),
        target.with_paths().name == target.name,
        keeps_settings(target.with_paths(), target),
        is_normalized_path(target.with_paths().path, target.path),
{
}

/// The library of a package has the name that is set for it, else that of the package
/// with underscores where there are hyphens, and the path that is set for it, else the one
/// that was found; in the edition of 2015 it may also be the source in `src` with its
/// name. All else is as the manifest sets it.
pub proof fn lemma_lib_filled(
    original: Option<TomlTargetView>,
    package_root: Text,
    package_name: Text,
    edition: Edition,
    autodiscover: Option<bool>,
    fs: FsView,
    on_windows: bool,
    lib: TomlTargetView,
)
    requires
        explicit_lib(
            original,
            package_root,
            package_name,
            edition,
            autodiscover,
            fs,
            on_windows,
        ).0 == Ok::<Option<TomlTargetView>, Text>(Some(lib)),
    ensures
        lib_path(package_root, fs) is Ok,
        lib.name is Some,
        lib.path is Some,
        match original {
            Some(set) => {
                &&& keeps_settings(lib, set)
                &&& set.name is Some ==> lib.name == set.name
                &&& set.path is Some ==> lib.path == Some(normalized(set.path->0))
            },
            None => sets_no_more(lib) && autodiscover != Some(false),
        },
        (original is None || original->0.name is None) ==> {
            &&& lib.name->0.len() == package_name.len()
            &&& forall|i: int|
                0 <= i < package_name.len() ==> #[trigger] lib.name->0[i] == if package_name[i]
                    == '-' {
                    '_'
                } else {
                    package_name[i]
                }
        },
        (original is None || original->0.path is None) ==> match lib_path(package_root, fs)->Ok_0 {
            Some(found) => lib.path->0 == normalized(found),
            None => {
                &&& edition == Edition::Edition2015
                &&& fs.has(joined(package_root, joined("src"@, lib.name->0 + ".rs"@)))
                &&& lib.path->0 == normalized(joined("src"@, lib.name->0 + ".rs"@))
            },
        },
{
    if let Some(set) = original {
        lemma_placed(set, set.path->0);
    }
    assert(replaced(package_name, '-', '_').len() == package_name.len());
}

/// A package has no library exactly where the manifest describes none, and none was found
/// or nothing is to be inferred.
pub proof fn lemma_no_lib(
    original: Option<TomlTargetView>,
    package_root: Text,
    package_name: Text,
    edition: Edition,
    autodiscover: Option<bool>,
    fs: FsView,
    on_windows: bool,
)
    requires
        lib_path(package_root, fs) is Ok,
    ensures
        explicit_lib(
            original,
            package_root,
            package_name,
            edition,
            autodiscover,
            fs,
            on_windows,
        ).0 == Ok::<Option<TomlTargetView>, Text>(None) <==> original is None && (autodiscover
            == Some(false) || lib_path(package_root, fs)->Ok_0 is None),
{
}

/// What a path that is the one of its name is, among those that were found.
pub open spec fn is_only_named(
    inferred: Seq<(Text, Text)>,
    name: Text,
    k: int,
) -> bool {
    &&& 0 <= k < inferred.len()
    &&& inferred[k].0 == name
    &&& forall|j: int| 0 <= j < inferred.len() && j != k ==> (#[trigger] inferred[j]).0 != name
}

proof fn lemma_none_named(inferred: Seq<(Text, Text)>, name: Text)
    ensures
        paths_named(inferred, name).len() == 0 <==> forall|j: int|
            0 <= j < inferred.len() ==> (#[trigger] inferred[j]).0 != name,
    decreases inferred.len(),
{
    if inferred.len() > 0 {
        let front = inferred.drop_last();
        lemma_none_named(front, name);
        assert(inferred.last() == inferred[inferred.len() - 1]);
        if paths_named(inferred, name).len() == 0 {
            assert forall|j: int| 0 <= j < inferred.len() implies (#[trigger] inferred[j]).0
                != name by {
                if j < front.len() {
                    assert(front[j] == inferred[j]);
                }
            }
        } else if paths_named(front, name).len() > 0 {
            let j = choose|j: int| 0 <= j < front.len() && (#[trigger] front[j]).0 == name;
            assert(inferred[j] == front[j]);
        }
    }
}

proof fn lemma_only_named(inferred: Seq<(Text, Text)>, name: Text)
    ensures
        forall|k: int| #[trigger]
            is_only_named(inferred, name, k) ==> paths_named(inferred, name) == seq![inferred[k].1],
        paths_named(inferred, name).len() == 1 ==> exists|k: int| #[trigger]
            is_only_named(inferred, name, k),
    decreases inferred.len(),
{
    if inferred.len() > 0 {
        let front = inferred.drop_last();
        let n = inferred.len() - 1;
        lemma_none_named(front, name);
        lemma_only_named(front, name);
        assert(inferred.last() == inferred[n]);
        assert forall|k: int| #[trigger] is_only_named(inferred, name, k) implies paths_named(
            inferred,
            name,
        ) == seq![inferred[k].1] by {
            if k < n {
                assert(front[k] == inferred[k]);
                assert forall|j: int| 0 <= j < front.len() && j != k implies (
                #[trigger] front[j]).0 != name by {
                    assert(front[j] == inferred[j]);
                }
                assert(is_only_named(front, name, k));
            } else {
                assert forall|j: int| 0 <= j < front.len() implies (#[trigger] front[j]).0
                    != name by {
                    assert(front[j] == inferred[j]);
                }
                assert(paths_named(inferred, name) =~= seq![inferred[k].1]);
            }
        }
        if paths_named(inferred, name).len() == 1 {
            if inferred[n].0 == name {
                assert forall|j: int| 0 <= j < inferred.len() && j != n implies (
                #[trigger] inferred[j]).0 != name by {
                    assert(front[j] == inferred[j]);
                }
                assert(is_only_named(inferred, name, n));
            } else {
                let k = choose|k: int| #[trigger] is_only_named(front, name, k);
                assert(inferred[k] == front[k]);
                assert forall|j: int| 0 <= j < inferred.len() && j != k implies (
                #[trigger] inferred[j]).0 != name by {
                    if j < n {
                        assert(front[j] == inferred[j]);
                    }
                }
                assert(is_only_named(inferred, name, k));
            }
        }
    }
}

/// A path that is set stands; else the path is the one that was found under the name, if
/// it is the only one. In the edition of 2015 alone it may be an old one. Any other target
/// has none, and is refused.
pub proof fn lemma_target_path(
    target: TomlTargetView,
    inferred: Seq<(Text, Text)>,
    rules: PathRules,
    k: int,
)
    requires
        target.name is Some,
    ensures
        target.path matches Some(path) ==> path_of(target, inferred, rules).0 == Ok::<Text, Text>(
            path,
        ),
        target.path is None && is_only_named(inferred, target.name->0, k) ==> path_of(
            target,
            inferred,
            rules,
        ).0 == Ok::<Text, Text>(inferred[k].1),
        target.path is None && rules.edition != Edition::Edition2015 && path_of(
            target,
            inferred,
            rules,
        ).0 is Ok ==> exists|j: int| #[trigger] is_only_named(inferred, target.name->0, j),
        target.path is None && (forall|j: int| !#[trigger]
            is_only_named(inferred, target.name->0, j)) && rules.edition == Edition::Edition2015
            ==> match legacy_path(rules.legacy, rules.package_root@, target.name->0, *rules.fs) {
            Some((path, warning)) => path_of(target, inferred, rules) == (
                Ok::<Text, Text>(path),
                seq![warning],
            ),
            None => path_of(target, inferred, rules).0 is Err,
        },
{
    lemma_only_named(inferred, target.name->0);
}

/// In the edition of 2015 a binary may be the source in `src` with its name, where there
/// is no library, or else `src/main.rs`, or else `src/bin/main.rs`, and a benchmark may be
/// `src/bench.rs`: the first of these that is there.
pub proof fn lemma_old_paths(package_root: Text, name: Text, has_lib: bool, fs: FsView)
    ensures
        ({
            let own = joined("src"@, name + ".rs"@);
            let has_own = !has_lib && fs.has(joined(package_root, own));
            let has_main = fs.has(joined(package_root, "src/main.rs"@));
            let has_bin = fs.has(joined(package_root, "src/bin/main.rs"@));
            let old_path = legacy_path(LegacyRule::Bin { has_lib }, package_root, name, fs);
            &&& has_own ==> old_path is Some && (old_path->0).0 == own
            &&& !has_own && has_main ==> old_path is Some && (old_path->0).0 == "src/main.rs"@
            &&& !has_own && !has_main && has_bin ==> old_path is Some && (old_path->0).0
                == "src/bin/main.rs"@
            &&& !has_own && !has_main && !has_bin ==> old_path is None
            &&& legacy_path(LegacyRule::Nowhere, package_root, name, fs) is None
        }),
        ({
            let old_path = legacy_path(LegacyRule::Bench, package_root, name, fs);
            if name == "bench"@ && fs.has(joined(package_root, "src/bench.rs"@)) {
                old_path is Some && (old_path->0).0 == "src/bench.rs"@
            } else {
                old_path is None
            }
        }),
{
    reveal_strlit("src");
    reveal_strlit("bin");
    reveal_strlit("main.rs");
    reveal_strlit("bench.rs");
    reveal_strlit("src/main.rs");
    reveal_strlit("src/bin/main.rs");
    reveal_strlit("src/bench.rs");
    assert("src"@.last() == 'c');
    assert(joined("src"@, "main.rs"@) =~= "src/main.rs"@);
    assert(joined("src"@, "bench.rs"@) =~= "src/bench.rs"@);
    let dir = joined("src"@, "bin"@);
    assert(dir.last() == 'n');
    assert(joined(dir, "main.rs"@) =~= "src/bin/main.rs"@);
}

/// Targets are looked for as the manifest says; where it does not, they are, but in the
/// edition of 2015.
pub proof fn lemma_discovers(autodiscover: Option<bool>, edition: Edition)
    ensures
        autodiscover matches Some(on) ==> discovers(autodiscover, edition) == on,
        autodiscover is None ==> (discovers(autodiscover, edition) <==> edition
            != Edition::Edition2015),
{
}

/// The target was found: it has a name and a path, and no more is set for it.
pub open spec fn was_found(target: TomlTargetView, inferred: Seq<(Text, Text)>) -> bool {
    &&& sets_no_more(target)
    &&& target.name is Some
    &&& target.path is Some
    &&& inferred.contains((target.name->0, target.path->0))
}

proof fn lemma_as_tomls(inferred: Seq<(Text, Text)>, t: TomlTargetView)
    ensures
        as_tomls(inferred).contains(t) <==> was_found(t, inferred),
{
    let all = as_tomls(inferred);
    assert(all.len() == inferred.len());
    if all.contains(t) {
        let k = choose|k: int| 0 <= k < all.len() && all[k] == t;
        assert(inferred[k] == (t.name->0, t.path->0));
        assert(inferred.contains(inferred[k]));
    }
    if was_found(t, inferred) {
        let k = choose|k: int|
            0 <= k < inferred.len() && inferred[k] == (t.name->0, t.path->0);
        assert(all[k] == t);
    }
}

/// The targets that are taken up: those of the manifest, and of those that were found the
/// ones that stand beside them, where targets are looked for.
pub open spec fn is_taken_up(
    t: TomlTargetView,
    targets: Option<Seq<TomlTargetView>>,
    inferred: Seq<(Text, Text)>,
    package_root: Text,
    autodiscover: Option<bool>,
    edition: Edition,
) -> bool {
    match targets {
        None => autodiscover != Some(false) && was_found(t, inferred),
        Some(list) => {
            ||| list.contains(t)
            ||| {
                &&& autodiscover == Some(true) || (autodiscover is None && edition
                    != Edition::Edition2015)
                &&& was_found(t, inferred)
                &&& !is_taken(package_root, list, t)
            }
        },
    }
}

proof fn lemma_taken_up(
    t: TomlTargetView,
    targets: Option<Seq<TomlTargetView>>,
    inferred: Seq<(Text, Text)>,
    package_root: Text,
    autodiscover: Option<bool>,
    edition: Edition,
)
    ensures
        merged(targets, inferred, package_root, autodiscover, edition).contains(t) <==> is_taken_up(
            t,
            targets,
            inferred,
            package_root,
            autodiscover,
            edition,
        ),
{
    lemma_as_tomls(inferred, t);
    match targets {
        None => {
            lemma_by_name(as_tomls(inferred), t);
            lemma_by_name(Seq::empty(), t);
        },
        Some(list) => lemma_merged(list, inferred, package_root, autodiscover, edition, t),
    }
}

/// The target is the other one with its path told.
pub open spec fn is_filled(
    target: TomlTargetView,
    of: TomlTargetView,
    inferred: Seq<(Text, Text)>,
    rules: PathRules,
) -> bool {
    &&& target.name == of.name
    &&& keeps_settings(target, of)
    &&& path_of(of, inferred, rules).0 matches Ok(path) && target.path == Some(normalized(path))
}

/// Each of the lists of targets stands for the other.
pub open spec fn fills(
    list: Seq<TomlTargetView>,
    targets: Option<Seq<TomlTargetView>>,
    inferred: Seq<(Text, Text)>,
    autodiscover: Option<bool>,
    rules: PathRules,
) -> bool {
    &&& forall|i: int|
        0 <= i < list.len() ==> #[trigger] comes_of(list[i], targets, inferred, autodiscover, rules)
    &&& forall|t: TomlTargetView|
        is_taken_up(t, targets, inferred, rules.package_root@, autodiscover, rules.edition)
            ==> #[trigger] is_among(t, list, inferred, rules)
}

/// The target comes of one that is taken up.
pub open spec fn comes_of(
    target: TomlTargetView,
    targets: Option<Seq<TomlTargetView>>,
    inferred: Seq<(Text, Text)>,
    autodiscover: Option<bool>,
    rules: PathRules,
) -> bool {
    exists|t: TomlTargetView|
        is_taken_up(t, targets, inferred, rules.package_root@, autodiscover, rules.edition)
            && #[trigger] is_filled(target, t, inferred, rules)
}

/// The target is among the list, with its path told.
pub open spec fn is_among(
    t: TomlTargetView,
    list: Seq<TomlTargetView>,
    inferred: Seq<(Text, Text)>,
    rules: PathRules,
) -> bool {
    exists|i: int| 0 <= i < list.len() && is_filled(#[trigger] list[i], t, inferred, rules)
}

proof fn lemma_bins_told(
    targets: Seq<TomlTargetView>,
    inferred: Seq<(Text, Text)>,
    rules: PathRules,
    on_windows: bool,
)
    requires
        bin_paths_report(targets, inferred, rules, on_windows).failure is None,
    ensures
        forall|i: int|
            0 <= i < targets.len() ==> path_of(#[trigger] targets[i], inferred, rules).0 is Ok,
    decreases targets.len(),
{
    if targets.len() > 0 {
        let front = targets.drop_last();
        let before = bin_paths_report(front, inferred, rules, on_windows);
        let own = bin_path_report(targets.last(), inferred, rules, on_windows);
        assert(before.failure is None);
        assert(own.failure is None);
        lemma_bins_told(front, inferred, rules, on_windows);
        assert forall|i: int| 0 <= i < targets.len() implies path_of(
            #[trigger] targets[i],
            inferred,
            rules,
        ).0 is Ok by {
            if i < front.len() {
                assert(front[i] == targets[i]);
            }
        }
    }
}

/// The binaries of a package are those of its manifest and those that were found beside
/// them, with their paths, and with all that the manifest sets. None is lost, and none is
/// made up.
pub proof fn lemma_bins_filled(
    targets: Option<Seq<TomlTargetView>>,
    package_name: Text,
    autodiscover: Option<bool>,
    listing: Option<Vec<DirEntry>>,
    rules: PathRules,
    on_windows: bool,
    list: Seq<TomlTargetView>,
)
    requires
        !all_explicit(targets, autodiscover),
        explicit_bins(targets, package_name, autodiscover, listing, rules, on_windows).targets
            == Ok::<Seq<TomlTargetView>, Text>(list),
    ensures
        bin_paths(rules.package_root@, package_name, *rules.fs, listing) matches Ok(inferred)
            && fills(list, targets, inferred, autodiscover, rules),
{
    let root = rules.package_root@;
    let inferred = bin_paths(root, package_name, *rules.fs, listing)->Ok_0;
    let all = merged(targets, inferred, root, autodiscover, rules.edition);
    assert(list == all_with_paths_told(all, inferred, rules));
    assert(list.len() == all.len());
    lemma_bins_told(all, inferred, rules, on_windows);
    lemma_each_filled(list, all, targets, inferred, autodiscover, rules);
}

proof fn lemma_each_filled(
    list: Seq<TomlTargetView>,
    all: Seq<TomlTargetView>,
    targets: Option<Seq<TomlTargetView>>,
    inferred: Seq<(Text, Text)>,
    autodiscover: Option<bool>,
    rules: PathRules,
)
    requires
        all == merged(targets, inferred, rules.package_root@, autodiscover, rules.edition),
        list.len() == all.len(),
        forall|i: int|
            0 <= i < all.len() ==> path_of(#[trigger] all[i], inferred, rules).0 is Ok,
        forall|i: int|
            #![trigger list[i]]
            0 <= i < all.len() ==> list[i] == placed(
                all[i],
                path_of(all[i], inferred, rules).0->Ok_0,
            ),
    ensures
        fills(list, targets, inferred, autodiscover, rules),
{
    let root = rules.package_root@;
    assert forall|i: int| 0 <= i < list.len() implies #[trigger] comes_of(
        list[i],
        targets,
        inferred,
        autodiscover,
        rules,
    ) by {
        let t = all[i];
        assert(all.contains(t));
        lemma_taken_up(t, targets, inferred, root, autodiscover, rules.edition);
        lemma_placed(t, path_of(t, inferred, rules).0->Ok_0);
        assert(is_filled(list[i], t, inferred, rules));
    }
    assert forall|t: TomlTargetView|
        is_taken_up(t, targets, inferred, root, autodiscover, rules.edition) implies
        #[trigger] is_among(t, list, inferred, rules) by {
        lemma_taken_up(t, targets, inferred, root, autodiscover, rules.edition);
        let i = choose|i: int| 0 <= i < all.len() && all[i] == t;
        lemma_placed(t, path_of(t, inferred, rules).0->Ok_0);
        assert(is_filled(list[i], t, inferred, rules));
    }
}

proof fn lemma_placed_targets(
    targets: Seq<TomlTargetView>,
    inferred: Seq<(Text, Text)>,
    rules: PathRules,
)
    requires
        forall|i: int|
            0 <= i < targets.len() ==> path_of(#[trigger] targets[i], inferred, rules).0 is Ok,
    ensures
        placed_targets(targets, inferred, rules).len() == targets.len(),
        forall|i: int|
            #![trigger placed_targets(targets, inferred, rules)[i]]
            0 <= i < targets.len() ==> placed_targets(targets, inferred, rules)[i] == placed(
                targets[i],
                path_of(targets[i], inferred, rules).0->Ok_0,
            ),
    decreases targets.len(),
{
    if targets.len() > 0 {
        let front = targets.drop_last();
        assert forall|i: int| 0 <= i < front.len() implies path_of(
            #[trigger] front[i],
            inferred,
            rules,
        ).0 is Ok by {
            assert(front[i] == targets[i]);
        }
        lemma_placed_targets(front, inferred, rules);
        assert(targets.last() == targets[targets.len() - 1]);
        assert(path_of(targets[targets.len() - 1], inferred, rules).0 is Ok);
        let rest = placed_targets(front, inferred, rules);
        let all = placed_targets(targets, inferred, rules);
        assert forall|i: int| #![trigger all[i]] 0 <= i < targets.len() implies all[i] == placed(
            targets[i],
            path_of(targets[i], inferred, rules).0->Ok_0,
        ) by {
            if i < front.len() {
                assert(all[i] == rest[i]);
                assert(front[i] == targets[i]);
            }
        }
    }
}

/// The examples, tests or benchmarks of a package are those of its manifest and those that
/// were found beside them, with their paths, and with all that the manifest sets, where
/// each of them has a path. None is lost, and none is made up.
pub proof fn lemma_others_filled(
    targets: Option<Seq<TomlTargetView>>,
    human: Text,
    kind: Text,
    flag: Text,
    rel_dir: Text,
    autodiscover: Option<bool>,
    listing: Option<Vec<DirEntry>>,
    rules: PathRules,
    on_windows: bool,
    inferred: Seq<(Text, Text)>,
    list: Seq<TomlTargetView>,
)
    requires
        !all_explicit(targets, autodiscover),
        dir_targets(rules.package_root@, *rules.fs, rel_dir, listing, "targets"@) == Ok::<
            Seq<(Text, Text)>,
            Text,
        >(inferred),
        explicit_others(
            targets,
            human,
            kind,
            flag,
            rel_dir,
            autodiscover,
            listing,
            rules,
            on_windows,
        ).targets == Ok::<Seq<TomlTargetView>, Text>(list),
        forall|t: TomlTargetView|
            is_taken_up(t, targets, inferred, rules.package_root@, autodiscover, rules.edition)
                ==> (#[trigger] path_of(t, inferred, rules)).0 is Ok,
    ensures
        fills(list, targets, inferred, autodiscover, rules),
{
    let root = rules.package_root@;
    let all = merged(targets, inferred, root, autodiscover, rules.edition);
    assert forall|i: int| 0 <= i < all.len() implies path_of(
        #[trigger] all[i],
        inferred,
        rules,
    ).0 is Ok by {
        assert(all.contains(all[i]));
        lemma_taken_up(all[i], targets, inferred, root, autodiscover, rules.edition);
    }
    lemma_placed_targets(all, inferred, rules);
    lemma_each_filled(list, all, targets, inferred, autodiscover, rules);
}

/// Where a manifest is explicit already, its targets are taken as they stand.
pub proof fn lemma_explicit_kept(
    targets: Seq<TomlTargetView>,
    package_name: Text,
    listing: Option<Vec<DirEntry>>,
    rules: PathRules,
    on_windows: bool,
    list: Seq<TomlTargetView>,
)
    requires
        forall|i: int|
            0 <= i < targets.len() ==> (#[trigger] targets[i]).name is Some && targets[i].path
                is Some,
        explicit_bins(
            Some(targets),
            package_name,
            Some(false),
            listing,
            rules,
            on_windows,
        ).targets == Ok::<Seq<TomlTargetView>, Text>(list),
    ensures
        list.len() == targets.len(),
        forall|i: int|
            #![trigger list[i]]
            0 <= i < list.len() ==> {
                &&& list[i].name == targets[i].name
                &&& list[i].path == Some(normalized(targets[i].path->0))
                &&& keeps_settings(list[i], targets[i])
            },
{
    assert(list == all_with_paths(targets));
    assert forall|i: int| #![trigger list[i]] 0 <= i < list.len() implies {
        &&& list[i].name == targets[i].name
        &&& list[i].path == Some(normalized(targets[i].path->0))
        &&& keeps_settings(list[i], targets[i])
    } by {
        lemma_placed(targets[i], targets[i].path->0);
    }
}

/// The build script of a package is the one that is set, or `build.rs` where the manifest
/// asks for it, or where it says nothing and that is there.
pub proof fn lemma_build_filled(build: Option<TomlBuildView>, package_root: Text, fs: FsView)
    ensures
        match (build, explicit_build(build, package_root, fs)) {
            (None, TomlBuildView::SingleScript(script)) => script == "build.rs"@ && fs.has_file(
                joined(package_root, "build.rs"@),
            ),
            (None, TomlBuildView::Auto(on)) => !on && !fs.has_file(
                joined(package_root, "build.rs"@),
            ),
            (Some(TomlBuildView::Auto(true)), TomlBuildView::SingleScript(script)) => script
                == "build.rs"@,
            (Some(TomlBuildView::Auto(false)), TomlBuildView::Auto(on)) => !on,
            (
                Some(TomlBuildView::SingleScript(set)),
                TomlBuildView::SingleScript(script),
            ) => script == normalized(set),
            (
                Some(TomlBuildView::MultipleScript(set)),
                TomlBuildView::MultipleScript(scripts),
            ) => scripts == set,
            _ => false,
        },
{
}

/// A target that was found is not taken up where one of the manifest has its name, or
/// stands at its place in the package.
pub proof fn lemma_taken(package_root: Text, targets: Seq<TomlTargetView>, found: TomlTargetView)
    requires
        found.name is Some,
        found.path is Some,
    ensures
        is_taken(package_root, targets, found) <==> exists|i: int|
            0 <= i < targets.len() && ((#[trigger] targets[i]).name == found.name || (
            targets[i].path is Some && same_path(
                joined(package_root, targets[i].path->0),
                joined(package_root, found.path->0),
            ))),
{
    if is_taken(package_root, targets, found) {
        let i = choose|i: int|
            0 <= i < targets.len() && is_same_target(package_root, #[trigger] targets[i], found);
        assert(targets[i].name == found.name || targets[i].path is Some);
    }
    if exists|i: int|
        0 <= i < targets.len() && ((#[trigger] targets[i]).name == found.name || (targets[i].path
            is Some && same_path(
            joined(package_root, targets[i].path->0),
            joined(package_root, found.path->0),
        ))) {
        let i = choose|i: int|
            0 <= i < targets.len() && ((#[trigger] targets[i]).name == found.name || (
            targets[i].path is Some && same_path(
                joined(package_root, targets[i].path->0),
                joined(package_root, found.path->0),
            )));
        assert(is_same_target(package_root, targets[i], found));
    }
}

proof fn lemma_bins_report(
    targets: Seq<TomlTargetView>,
    inferred: Seq<(Text, Text)>,
    rules: PathRules,
    on_windows: bool,
)
    ensures
        bin_paths_report(targets, inferred, rules, on_windows).failure is None <==> forall|i: int|
            0 <= i < targets.len() ==> is_fit(#[trigger] targets[i], inferred, rules, on_windows),
    decreases targets.len(),
{
    if targets.len() > 0 {
        let front = targets.drop_last();
        lemma_bins_report(front, inferred, rules, on_windows);
        assert(targets.last() == targets[targets.len() - 1]);
        if forall|i: int|
            0 <= i < targets.len() ==> is_fit(#[trigger] targets[i], inferred, rules, on_windows) {
            assert forall|i: int| 0 <= i < front.len() implies is_fit(
                #[trigger] front[i],
                inferred,
                rules,
                on_windows,
            ) by {
                assert(front[i] == targets[i]);
            }
            assert(is_fit(targets[targets.len() - 1], inferred, rules, on_windows));
        }
        if bin_paths_report(targets, inferred, rules, on_windows).failure is None {
            assert forall|i: int| 0 <= i < targets.len() implies is_fit(
                #[trigger] targets[i],
                inferred,
                rules,
                on_windows,
            ) by {
                if i < front.len() {
                    assert(front[i] == targets[i]);
                }
            }
        }
    }
}

/// The binary is refused neither for its name nor for a deprecated key, and has a path.
pub open spec fn is_fit(
    target: TomlTargetView,
    inferred: Seq<(Text, Text)>,
    rules: PathRules,
    on_windows: bool,
) -> bool {
    &&& bin_name_report(target, on_windows).failure is None
    &&& bin_crate_types_report(target, rules.edition).failure is None
    &&& bin_proc_macro_report(target, rules.edition).failure is None
    &&& path_of(target, inferred, rules).0 is Ok
}

/// The binaries of a package are refused exactly where one of them is.
pub proof fn lemma_bins_refused(
    targets: Option<Seq<TomlTargetView>>,
    package_name: Text,
    autodiscover: Option<bool>,
    listing: Option<Vec<DirEntry>>,
    rules: PathRules,
    on_windows: bool,
)
    requires
        !all_explicit(targets, autodiscover),
        bin_paths(rules.package_root@, package_name, *rules.fs, listing) is Ok,
    ensures
        ({
            let inferred = bin_paths(rules.package_root@, package_name, *rules.fs, listing)->Ok_0;
            explicit_bins(
                targets,
                package_name,
                autodiscover,
                listing,
                rules,
                on_windows,
            ).targets is Ok <==> forall|t: TomlTargetView| #[trigger]
                is_taken_up(
                    t,
                    targets,
                    inferred,
                    rules.package_root@,
                    autodiscover,
                    rules.edition,
                ) ==> is_fit(t, inferred, rules, on_windows)
        }),
{
    let root = rules.package_root@;
    let inferred = bin_paths(root, package_name, *rules.fs, listing)->Ok_0;
    let all = merged(targets, inferred, root, autodiscover, rules.edition);
    lemma_bins_report(all, inferred, rules, on_windows);
    let report = bin_paths_report(all, inferred, rules, on_windows);
    if report.failure is None {
        assert forall|t: TomlTargetView| #[trigger]
            is_taken_up(t, targets, inferred, root, autodiscover, rules.edition) implies is_fit(
            t,
            inferred,
            rules,
            on_windows,
        ) by {
            lemma_taken_up(t, targets, inferred, root, autodiscover, rules.edition);
            let i = choose|i: int| 0 <= i < all.len() && all[i] == t;
            assert(is_fit(all[i], inferred, rules, on_windows));
        }
    }
    if forall|t: TomlTargetView| #[trigger]
        is_taken_up(t, targets, inferred, root, autodiscover, rules.edition) ==> is_fit(
            t,
            inferred,
            rules,
            on_windows,
        ) {
        assert forall|i: int| 0 <= i < all.len() implies is_fit(
            #[trigger] all[i],
            inferred,
            rules,
            on_windows,
        ) by {
            assert(all.contains(all[i]));
            lemma_taken_up(all[i], targets, inferred, root, autodiscover, rules.edition);
        }
    }
}

/// A library that is explicit is refused exactly where its name is, or a deprecated key
/// that it sets.
pub proof fn lemma_lib_refused(
    lib: TomlTargetView,
    package_root: Text,
    package_name: Text,
    edition: Edition,
    autodiscover: Option<bool>,
    fs: FsView,
    on_windows: bool,
)
    requires
        lib.name is Some,
        lib.path is Some,
        lib_path(package_root, fs) is Ok,
    ensures
        explicit_lib(
            Some(lib),
            package_root,
            package_name,
            edition,
            autodiscover,
            fs,
            on_windows,
        ).0 is Ok <==> {
            &&& lib_name_report(lib, on_windows).failure is None
            &&& proc_macro_report(lib, "library"@, edition).failure is None
            &&& crate_types_report(lib, "library"@, edition).failure is None
        },
{
    assert((TomlTargetView { name: Some(lib.name->0), ..lib }) == lib);
}

proof fn lemma_paths_report(
    targets: Seq<TomlTargetView>,
    inferred: Seq<(Text, Text)>,
    rules: PathRules,
)
    ensures
        paths_report(targets, inferred, rules).failure is None,
        paths_report(targets, inferred, rules).errors.len() == 0 <==> forall|i: int|
            0 <= i < targets.len() ==> path_of(#[trigger] targets[i], inferred, rules).0 is Ok,
    decreases targets.len(),
{
    if targets.len() > 0 {
        let front = targets.drop_last();
        lemma_paths_report(front, inferred, rules);
        assert(targets.last() == targets[targets.len() - 1]);
        if forall|i: int|
            0 <= i < targets.len() ==> path_of(#[trigger] targets[i], inferred, rules).0 is Ok {
            assert forall|i: int| 0 <= i < front.len() implies path_of(
                #[trigger] front[i],
                inferred,
                rules,
            ).0 is Ok by {
                assert(front[i] == targets[i]);
            }
            assert(path_of(targets[targets.len() - 1], inferred, rules).0 is Ok);
        }
        if paths_report(targets, inferred, rules).errors.len() == 0 {
            assert forall|i: int| 0 <= i < targets.len() implies path_of(
                #[trigger] targets[i],
                inferred,
                rules,
            ).0 is Ok by {
                if i < front.len() {
                    assert(front[i] == targets[i]);
                }
            }
        }
    }
}

/// The example, test or benchmark is refused neither for its name nor for a deprecated key.
pub open spec fn is_sound(
    target: TomlTargetView,
    human: Text,
    kind: Text,
    edition: Edition,
    on_windows: bool,
) -> bool {
    &&& name_report(target, human, kind, on_windows).failure is None
    &&& proc_macro_report(target, human, edition).failure is None
    &&& crate_types_report(target, human, edition).failure is None
}

proof fn lemma_others_report(
    targets: Seq<TomlTargetView>,
    human: Text,
    kind: Text,
    edition: Edition,
    on_windows: bool,
)
    ensures
        others_report(targets, human, kind, edition, on_windows).failure is None <==> forall|i: int|
            0 <= i < targets.len() ==> is_sound(
                #[trigger] targets[i],
                human,
                kind,
                edition,
                on_windows,
            ),
        others_report(targets, human, kind, edition, on_windows).errors.len() == 0,
    decreases targets.len(),
{
    if targets.len() > 0 {
        let front = targets.drop_last();
        lemma_others_report(front, human, kind, edition, on_windows);
        assert(targets.last() == targets[targets.len() - 1]);
        if forall|i: int|
            0 <= i < targets.len() ==> is_sound(
                #[trigger] targets[i],
                human,
                kind,
                edition,
                on_windows,
            ) {
            assert forall|i: int| 0 <= i < front.len() implies is_sound(
                #[trigger] front[i],
                human,
                kind,
                edition,
                on_windows,
            ) by {
                assert(front[i] == targets[i]);
            }
            assert(is_sound(targets[targets.len() - 1], human, kind, edition, on_windows));
        }
        if others_report(targets, human, kind, edition, on_windows).failure is None {
            assert forall|i: int| 0 <= i < targets.len() implies is_sound(
                #[trigger] targets[i],
                human,
                kind,
                edition,
                on_windows,
            ) by {
                if i < front.len() {
                    assert(front[i] == targets[i]);
                }
            }
        }
    }
}

/// The examples, tests or benchmarks of a package are refused exactly where one of them
/// is for its name or a key; one without a path is an error that is told.
pub proof fn lemma_others_refused(
    targets: Option<Seq<TomlTargetView>>,
    human: Text,
    kind: Text,
    flag: Text,
    rel_dir: Text,
    autodiscover: Option<bool>,
    listing: Option<Vec<DirEntry>>,
    rules: PathRules,
    on_windows: bool,
    inferred: Seq<(Text, Text)>,
)
    requires
        !all_explicit(targets, autodiscover),
        dir_targets(rules.package_root@, *rules.fs, rel_dir, listing, "targets"@) == Ok::<
            Seq<(Text, Text)>,
            Text,
        >(inferred),
    ensures
        ({
            let root = rules.package_root@;
            let all = merged(targets, inferred, root, autodiscover, rules.edition);
            let made = explicit_others(
                targets,
                human,
                kind,
                flag,
                rel_dir,
                autodiscover,
                listing,
                rules,
                on_windows,
            );
            &&& made.targets is Ok <==> forall|i: int|
                0 <= i < all.len() ==> is_sound(
                    #[trigger] all[i],
                    human,
                    kind,
                    rules.edition,
                    on_windows,
                )
            &&& made.targets is Ok ==> (made.errors.len() == 0 <==> forall|i: int|
                0 <= i < all.len() ==> path_of(#[trigger] all[i], inferred, rules).0 is Ok)
        }),
{
    let root = rules.package_root@;
    let all = merged(targets, inferred, root, autodiscover, rules.edition);
    lemma_others_report(all, human, kind, rules.edition, on_windows);
    lemma_paths_report(all, inferred, rules);
}

/// In the edition of 2015 there is one warning where targets were found that the manifest
/// keeps out by describing others, unless it says whether to look for them; there is none
/// in any other case.
pub proof fn lemma_left_out_warned(
    targets: Option<Seq<TomlTargetView>>,
    inferred: Seq<(Text, Text)>,
    package_root: Text,
    autodiscover: Option<bool>,
    edition: Edition,
    human: Text,
    kind: Text,
    flag: Text,
)
    ensures
        ({
            let warnings = merge_warnings(
                targets,
                inferred,
                package_root,
                autodiscover,
                edition,
                human,
                kind,
                flag,
            );
            &&& warnings.len() <= 1
            &&& warnings.len() == 1 <==> {
                &&& edition == Edition::Edition2015
                &&& autodiscover is None
                &&& targets matches Some(list) && exists|t: TomlTargetView| #[trigger]
                    was_found(t, inferred) && !is_taken(package_root, list, t)
            }
        }),
{
    if let Some(list) = targets {
        let left = remaining(package_root, list, as_tomls(inferred));
        if left.len() > 0 {
            let t = left[0];
            assert(left.contains(t));
            lemma_remaining(package_root, list, as_tomls(inferred), t);
            lemma_as_tomls(inferred, t);
        }
        if exists|t: TomlTargetView| #[trigger]
            was_found(t, inferred) && !is_taken(package_root, list, t) {
            let t = choose|t: TomlTargetView| #[trigger]
                was_found(t, inferred) && !is_taken(package_root, list, t);
            lemma_as_tomls(inferred, t);
            lemma_remaining(package_root, list, as_tomls(inferred), t);
        }
    }
}

/// Targets are explicit where nothing is to be inferred and each has a name and a path.
pub proof fn lemma_explicit(
    targets: Option<Seq<TomlTargetView>>,
    target: Option<TomlTargetView>,
    autodiscover: Option<bool>,
)
    ensures
        all_explicit(targets, autodiscover) <==> autodiscover == Some(false) && (targets matches Some(
            list,
        ) ==> forall|i: int|
            0 <= i < list.len() ==> (#[trigger] list[i]).name is Some && list[i].path is Some),
        is_explicit(target, autodiscover) <==> autodiscover == Some(false) && (target matches Some(t)
            ==> t.name is Some && t.path is Some),
{
}

/// Where targets of a kind stand that have no path: by their names, in the directory of
/// the kind.
pub proof fn lemma_default_places(name: Text)
    requires
        name.len() > 0,
        name[0] != '/',
    ensures
        possible_file(name, "test"@, false) == "tests/"@ + name + ".rs"@,
        possible_file(name, "bench"@, false) == "benches/"@ + name + ".rs"@,
        possible_file(name, "example"@, false) == "examples/"@ + name + ".rs"@,
        possible_file(name, "bin"@, false) == "src/bin/"@ + name + ".rs"@,
        possible_file(name, "test"@, true) == "test/"@ + name + ".rs"@,
        possible_file(name, "bench"@, true) == "bench/"@ + name + ".rs"@,
        possible_file(name, "example"@, true) == "example/"@ + name + ".rs"@,
        possible_file(name, "bin"@, true) == "src/bins/"@ + name + ".rs"@,
{
    reveal_strlit("test");
    reveal_strlit("bench");
    reveal_strlit("example");
    reveal_strlit("bin");
    reveal_strlit("bins");
    reveal_strlit("src");
    reveal_strlit("tests");
    reveal_strlit("benches");
    reveal_strlit("examples");
    reveal_strlit("tests/");
    reveal_strlit("benches/");
    reveal_strlit("examples/");
    reveal_strlit("src/bin/");
    reveal_strlit("test/");
    reveal_strlit("bench/");
    reveal_strlit("example/");
    reveal_strlit("src/bins/");
    assert("test"@.len() == 4 && "bench"@.len() == 5 && "example"@.len() == 7 && "bin"@.len() == 3);
    let file = name + ".rs"@;
    assert(file[0] == name[0]);
    lemma_in_dir("tests"@, "tests/"@, name);
    lemma_in_dir("benches"@, "benches/"@, name);
    lemma_in_dir("examples"@, "examples/"@, name);
    lemma_in_dir("test"@, "test/"@, name);
    lemma_in_dir("bench"@, "bench/"@, name);
    lemma_in_dir("example"@, "example/"@, name);
    assert("src"@.last() == 'c');
    lemma_in_dir(joined("src"@, "bin"@), "src/bin/"@, name);
    lemma_in_dir(joined("src"@, "bins"@), "src/bins/"@, name);
}

proof fn lemma_in_dir(dir: Text, lead: Text, name: Text)
    requires
        dir.len() > 0,
        dir[dir.len() - 1] != '/',
        lead =~= dir.push('/'),
        name.len() > 0,
        name[0] != '/',
    ensures
        joined(dir, name + ".rs"@) == lead + name + ".rs"@,
{
    assert((name + ".rs"@)[0] == name[0]);
    assert(dir.last() == dir[dir.len() - 1]);
    assert(joined(dir, name + ".rs"@) =~= lead + name + ".rs"@);
}

} // verus!
