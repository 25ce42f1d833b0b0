//! What holds of the targets of a manifest that was made explicit: which they are, and
//! that to make it explicit once more changes nothing.
use vstd::prelude::*;

use crate::discover::{bin_paths, dir_targets, lib_path};
use crate::fs::{DirEntry, FsView};
use crate::manifest::{all_normalized, is_normalized_build, opt_normalized, Edition, TomlBuildView};
use crate::manifest::TomlTargetView;
use crate::normalize::{all_explicit, all_with_paths, all_with_paths_told, as_tomls};
use crate::normalize::{bin_path_report, bin_paths_report, bin_report, bins_report, by_name};
use crate::normalize::{discovers, explicit_bins, explicit_build, explicit_lib, explicit_others};
use crate::normalize::{intended_lib, is_explicit, is_taken, lib_path_of, lib_report, listed};
use crate::normalize::{merged, opt_name_keys, other_report, others_report, path_of, placed};
use crate::normalize::{placed_targets, remaining, with_path_told, PathRules};
use crate::order::{lemma_stable_order, stable_order};
use crate::path::{is_clean, is_walk_end, lemma_normalized_again, lemma_text_components};
use crate::path::{lemma_walk_end_again, normalized, path_text};
use crate::text::Text;
use crate::validate::{bin_crate_types_report, bin_name_report, bin_proc_macro_report};
use crate::validate::{crate_types_report, lib_name_report, name_report, proc_macro_report};

verus! {

proof fn lemma_opt_normalized(path: Option<Text>)
    ensures
        opt_normalized(opt_normalized(path)) == opt_normalized(path),
{
    match path {
        Some(path) => lemma_normalized_again(path),
        None => {},
    }
}

proof fn lemma_all_normalized(paths: Option<Seq<Text>>)
    ensures
        all_normalized(all_normalized(paths)) == all_normalized(paths),
{
    match paths {
        Some(paths) => {
            let once = paths.map_values(|p: Text| normalized(p));
            let twice = once.map_values(|p: Text| normalized(p));
            assert forall|i: int| 0 <= i < once.len() implies #[trigger] twice[i] == once[i] by {
                lemma_normalized_again(paths[i]);
            }
            assert(twice =~= once);
        },
        None => {},
    }
}

proof fn lemma_native_paths(target: TomlTargetView)
    ensures
        target.with_native_paths().with_native_paths() == target.with_native_paths(),
{
    lemma_opt_normalized(target.native_include_root);
    lemma_opt_normalized(target.native_sources_root);
    lemma_all_normalized(target.native_include_dirs);
    lemma_all_normalized(target.native_link_search);
}

proof fn lemma_with_paths(target: TomlTargetView)
    ensures
        target.with_paths().with_paths() == target.with_paths(),
{
    lemma_native_paths(target);
    lemma_opt_normalized(target.path);
}

proof fn lemma_placed(target: TomlTargetView, path: Text)
    ensures
        placed(target, path).with_paths() == placed(target, path),
{
    lemma_native_paths(target);
    lemma_normalized_again(path);
}

/// A library that was made explicit has a name and a path, and to make it explicit
/// once more, without inferring anything, gives the same library.
pub proof fn lemma_lib_settled(
    original: Option<TomlTargetView>,
    package_root: Text,
    package_name: Text,
    edition: Edition,
    autodiscover: Option<bool>,
    fs: FsView,
    on_windows: bool,
)
    ensures
        explicit_lib(
            original,
            package_root,
            package_name,
            edition,
            autodiscover,
            fs,
            on_windows,
        ).0 matches Ok(lib) ==> {
            &&& lib matches Some(lib) ==> lib.name is Some && lib.path is Some
            &&& explicit_lib(
                lib,
                package_root,
                package_name,
                edition,
                Some(false),
                fs,
                on_windows,
            ).0 == Ok::<Option<TomlTargetView>, Text>(lib)
        },
{
    match explicit_lib(
        original,
        package_root,
        package_name,
        edition,
        autodiscover,
        fs,
        on_windows,
    ).0 {
        Ok(Some(lib)) => {
            if is_explicit(original, autodiscover) {
                lemma_with_paths(original->0);
                lemma_libs_alike(lib, original->0, edition, on_windows);
            } else {
                let inferred = lib_path(package_root, fs)->Ok_0;
                let meant = intended_lib(original, inferred, package_name)->0;
                let path = lib_path_of(meant, inferred, package_root, edition, fs).0->Ok_0;
                lemma_with_paths(TomlTargetView { path: Some(path), ..meant });
                lemma_libs_alike(lib, meant, edition, on_windows);
            }
        },
        _ => {},
    }
}

proof fn lemma_bins_checked(targets: Seq<TomlTargetView>, edition: Edition, on_windows: bool)
    ensures
        bins_report(targets, edition, on_windows).failure is None <==> forall|i: int|
            0 <= i < targets.len() ==> bin_report(
                #[trigger] targets[i],
                edition,
                on_windows,
            ).failure is None,
    decreases targets.len(),
{
    if targets.len() > 0 {
        let front = targets.drop_last();
        lemma_bins_checked(front, edition, on_windows);
        assert forall|i: int| 0 <= i < front.len() implies #[trigger] front[i] == targets[i] by {}
        assert(targets.last() == targets[targets.len() - 1]);
        if forall|i: int|
            0 <= i < front.len() ==> bin_report(
                #[trigger] front[i],
                edition,
                on_windows,
            ).failure is None {
            assert forall|i: int| 0 <= i < targets.len() - 1 implies bin_report(
                #[trigger] targets[i],
                edition,
                on_windows,
            ).failure is None by {
                assert(front[i] == targets[i]);
            }
        }
    }
}

proof fn lemma_bin_paths_checked(
    targets: Seq<TomlTargetView>,
    inferred: Seq<(Text, Text)>,
    rules: PathRules,
    on_windows: bool,
)
    requires
        bin_paths_report(targets, inferred, rules, on_windows).failure is None,
    ensures
        forall|i: int|
            0 <= i < targets.len() ==> bin_path_report(
                #[trigger] targets[i],
                inferred,
                rules,
                on_windows,
            ).failure is None,
    decreases targets.len(),
{
    if targets.len() > 0 {
        let front = targets.drop_last();
        lemma_bin_paths_checked(front, inferred, rules, on_windows);
        assert forall|i: int| 0 <= i < targets.len() implies bin_path_report(
            #[trigger] targets[i],
            inferred,
            rules,
            on_windows,
        ).failure is None by {
            if i < front.len() {
                assert(front[i] == targets[i]);
            }
        }
    }
}

proof fn lemma_bin_named(target: TomlTargetView, edition: Edition, on_windows: bool)
    requires
        bin_report(target, edition, on_windows).failure is None,
    ensures
        target.name is Some,
{
}

/// Two targets have all in common that is checked.
spec fn checked_alike(a: TomlTargetView, b: TomlTargetView) -> bool {
    &&& a.name == b.name
    &&& a.proc_macro == b.proc_macro
    &&& a.proc_macro2 == b.proc_macro2
    &&& a.crate_type == b.crate_type
    &&& a.crate_type2 == b.crate_type2
}

proof fn lemma_names_alike(
    a: TomlTargetView,
    b: TomlTargetView,
    human: Text,
    kind: Text,
    edition: Edition,
    on_windows: bool,
)
    requires
        checked_alike(a, b),
    ensures
        name_report(a, human, kind, on_windows).failure == name_report(
            b,
            human,
            kind,
            on_windows,
        ).failure,
        proc_macro_report(a, human, edition).failure == proc_macro_report(
            b,
            human,
            edition,
        ).failure,
        crate_types_report(a, human, edition).failure == crate_types_report(
            b,
            human,
            edition,
        ).failure,
{
}

proof fn lemma_libs_alike(a: TomlTargetView, b: TomlTargetView, edition: Edition, on_windows: bool)
    requires
        checked_alike(a, b),
    ensures
        lib_report(a, edition, on_windows).failure == lib_report(b, edition, on_windows).failure,
{
    lemma_names_alike(a, b, "library"@, "lib"@, edition, on_windows);
    assert(lib_name_report(a, on_windows).failure == lib_name_report(b, on_windows).failure);
}

proof fn lemma_bins_alike(a: TomlTargetView, b: TomlTargetView, edition: Edition, on_windows: bool)
    requires
        checked_alike(a, b),
    ensures
        bin_report(a, edition, on_windows).failure == bin_report(b, edition, on_windows).failure,
{
    lemma_names_alike(a, b, "binary"@, "bin"@, edition, on_windows);
    assert(bin_name_report(a, on_windows).failure == bin_name_report(b, on_windows).failure);
    assert(bin_crate_types_report(a, edition).failure == bin_crate_types_report(
        b,
        edition,
    ).failure);
    assert(bin_proc_macro_report(a, edition).failure == bin_proc_macro_report(
        b,
        edition,
    ).failure);
}

proof fn lemma_others_alike(
    a: TomlTargetView,
    b: TomlTargetView,
    human: Text,
    kind: Text,
    edition: Edition,
    on_windows: bool,
)
    requires
        checked_alike(a, b),
    ensures
        other_report(a, human, kind, edition, on_windows).failure == other_report(
            b,
            human,
            kind,
            edition,
            on_windows,
        ).failure,
{
    lemma_names_alike(a, b, human, kind, edition, on_windows);
}

proof fn lemma_bins_again(
    list: Seq<TomlTargetView>,
    package_name: Text,
    listing: Option<Vec<DirEntry>>,
    rules: PathRules,
    on_windows: bool,
)
    requires
        forall|i: int|
            0 <= i < list.len() ==> (#[trigger] list[i]).name is Some && list[i].path is Some
                && list[i].with_paths() == list[i] && bin_report(
                list[i],
                rules.edition,
                on_windows,
            ).failure is None,
    ensures
        all_explicit(Some(list), Some(false)),
        explicit_bins(
            Some(list),
            package_name,
            Some(false),
            listing,
            rules,
            on_windows,
        ).targets == Ok::<Seq<TomlTargetView>, Text>(list),
{
    lemma_bins_checked(list, rules.edition, on_windows);
    assert(all_with_paths(list) =~= list);
}

/// Binaries that were made explicit have names and paths, and to make them explicit
/// once more, without inferring anything, gives the same binaries.
pub proof fn lemma_bins_settled(
    targets: Option<Seq<TomlTargetView>>,
    package_name: Text,
    autodiscover: Option<bool>,
    listing: Option<Vec<DirEntry>>,
    rules: PathRules,
    on_windows: bool,
)
    ensures
        explicit_bins(
            targets,
            package_name,
            autodiscover,
            listing,
            rules,
            on_windows,
        ).targets matches Ok(list) ==> {
            &&& all_explicit(Some(list), Some(false))
            &&& explicit_bins(
                Some(list),
                package_name,
                Some(false),
                listing,
                rules,
                on_windows,
            ).targets == Ok::<Seq<TomlTargetView>, Text>(list)
        },
{
    let root = rules.package_root@;
    let n = explicit_bins(targets, package_name, autodiscover, listing, rules, on_windows);
    match n.targets {
        Err(_) => {},
        Ok(list) => {
            if all_explicit(targets, autodiscover) {
                let before = listed(targets);
                lemma_bins_checked(before, rules.edition, on_windows);
                assert(list == all_with_paths(before));
                assert forall|i: int| 0 <= i < list.len() implies (#[trigger] list[i]).name is Some
                    && list[i].path is Some && list[i].with_paths() == list[i] && bin_report(
                    list[i],
                    rules.edition,
                    on_windows,
                ).failure is None by {
                    assert(list[i] == before[i].with_paths());
                    lemma_with_paths(before[i]);
                    lemma_bins_alike(before[i], list[i], rules.edition, on_windows);
                }
            } else {
                let inferred = bin_paths(root, package_name, *rules.fs, listing)->Ok_0;
                let before = merged(targets, inferred, root, autodiscover, rules.edition);
                lemma_bin_paths_checked(before, inferred, rules, on_windows);
                assert(list == all_with_paths_told(before, inferred, rules));
                assert forall|i: int| 0 <= i < list.len() implies (#[trigger] list[i]).name is Some
                    && list[i].path is Some && list[i].with_paths() == list[i] && bin_report(
                    list[i],
                    rules.edition,
                    on_windows,
                ).failure is None by {
                    let t = before[i];
                    assert(list[i] == with_path_told(t, inferred, rules));
                    assert(bin_path_report(t, inferred, rules, on_windows).failure is None);
                    let path = path_of(t, inferred, rules).0->Ok_0;
                    assert(list[i] == placed(t, path));
                    lemma_placed(t, path);
                    lemma_bin_named(t, rules.edition, on_windows);
                    lemma_bins_alike(t, list[i], rules.edition, on_windows);
                }
            }
            lemma_bins_again(list, package_name, listing, rules, on_windows);
        },
    }
}

proof fn lemma_others_checked(
    targets: Seq<TomlTargetView>,
    human: Text,
    kind: Text,
    edition: Edition,
    on_windows: bool,
)
    ensures
        others_report(targets, human, kind, edition, on_windows).failure is None <==> forall|i: int|
            0 <= i < targets.len() ==> other_report(
                #[trigger] targets[i],
                human,
                kind,
                edition,
                on_windows,
            ).failure is None,
    decreases targets.len(),
{
    if targets.len() > 0 {
        let front = targets.drop_last();
        lemma_others_checked(front, human, kind, edition, on_windows);
        assert forall|i: int| 0 <= i < front.len() implies #[trigger] front[i] == targets[i] by {}
        assert(targets.last() == targets[targets.len() - 1]);
        if forall|i: int|
            0 <= i < front.len() ==> other_report(
                #[trigger] front[i],
                human,
                kind,
                edition,
                on_windows,
            ).failure is None {
            assert forall|i: int| 0 <= i < targets.len() - 1 implies other_report(
                #[trigger] targets[i],
                human,
                kind,
                edition,
                on_windows,
            ).failure is None by {
                assert(front[i] == targets[i]);
            }
        }
    }
}

proof fn lemma_other_named(
    target: TomlTargetView,
    human: Text,
    kind: Text,
    edition: Edition,
    on_windows: bool,
)
    requires
        other_report(target, human, kind, edition, on_windows).failure is None,
    ensures
        target.name is Some,
{
}

/// A target is as one is that was made explicit.
spec fn is_settled(
    target: TomlTargetView,
    human: Text,
    kind: Text,
    edition: Edition,
    on_windows: bool,
) -> bool {
    &&& target.name is Some
    &&& target.path is Some
    &&& target.with_paths() == target
    &&& other_report(target, human, kind, edition, on_windows).failure is None
}

proof fn lemma_placed_targets(
    targets: Seq<TomlTargetView>,
    inferred: Seq<(Text, Text)>,
    rules: PathRules,
    human: Text,
    kind: Text,
    on_windows: bool,
)
    requires
        others_report(targets, human, kind, rules.edition, on_windows).failure is None,
    ensures
        forall|i: int|
            0 <= i < placed_targets(targets, inferred, rules).len() ==> is_settled(
                #[trigger] placed_targets(targets, inferred, rules)[i],
                human,
                kind,
                rules.edition,
                on_windows,
            ),
    decreases targets.len(),
{
    if targets.len() > 0 {
        let t = targets.last();
        let rest = placed_targets(targets.drop_last(), inferred, rules);
        let all = placed_targets(targets, inferred, rules);
        lemma_placed_targets(targets.drop_last(), inferred, rules, human, kind, on_windows);
        assert forall|i: int| 0 <= i < all.len() implies is_settled(
            #[trigger] all[i],
            human,
            kind,
            rules.edition,
            on_windows,
        ) by {
            if i < rest.len() {
                assert(all[i] == rest[i]);
            } else {
                let path = path_of(t, inferred, rules).0->Ok_0;
                assert(all[i] == placed(t, path));
                lemma_placed(t, path);
                lemma_other_named(t, human, kind, rules.edition, on_windows);
                lemma_others_alike(t, all[i], human, kind, rules.edition, on_windows);
            }
        }
    }
}

/// Examples, tests or benchmarks that were made explicit have names and paths, and
/// to make them explicit once more, without inferring anything, gives the same
/// targets.
pub proof fn lemma_others_settled(
    targets: Option<Seq<TomlTargetView>>,
    human: Text,
    kind: Text,
    flag: Text,
    rel_dir: Text,
    autodiscover: Option<bool>,
    listing: Option<Vec<DirEntry>>,
    rules: PathRules,
    on_windows: bool,
)
    ensures
        explicit_others(
            targets,
            human,
            kind,
            flag,
            rel_dir,
            autodiscover,
            listing,
            rules,
            on_windows,
        ).targets matches Ok(list) ==> {
            &&& all_explicit(Some(list), Some(false))
            &&& explicit_others(
                Some(list),
                human,
                kind,
                flag,
                rel_dir,
                Some(false),
                listing,
                rules,
                on_windows,
            ).targets == Ok::<Seq<TomlTargetView>, Text>(list)
        },
{
    let root = rules.package_root@;
    let edition = rules.edition;
    let n = explicit_others(
        targets,
        human,
        kind,
        flag,
        rel_dir,
        autodiscover,
        listing,
        rules,
        on_windows,
    );
    match n.targets {
        Err(_) => {},
        Ok(list) => {
            if all_explicit(targets, autodiscover) {
                let before = listed(targets);
                lemma_others_checked(before, human, kind, edition, on_windows);
                assert(list == all_with_paths(before));
                assert forall|i: int| 0 <= i < list.len() implies is_settled(
                    #[trigger] list[i],
                    human,
                    kind,
                    edition,
                    on_windows,
                ) by {
                    assert(list[i] == before[i].with_paths());
                    lemma_with_paths(before[i]);
                    lemma_others_alike(
                        before[i],
                        list[i],
                        human,
                        kind,
                        edition,
                        on_windows,
                    );
                }
            } else {
                let inferred = dir_targets(root, *rules.fs, rel_dir, listing, "targets"@)->Ok_0;
                let before = merged(targets, inferred, root, autodiscover, edition);
                lemma_placed_targets(before, inferred, rules, human, kind, on_windows);
            }
            lemma_others_checked(list, human, kind, edition, on_windows);
            assert(all_with_paths(list) =~= list);
        },
    }
}

proof fn lemma_build_rs()
    ensures
        normalized("build.rs"@) == "build.rs"@,
{
    reveal_strlit("build.rs");
    let name = "build.rs"@;
    let parts = seq![name];
    assert(!name.contains('/'));
    assert(is_clean(parts));
    assert(is_walk_end(parts));
    assert(path_text(parts) == name);
    lemma_text_components(parts);
    lemma_walk_end_again(parts);
}

/// To make build scripts explicit once more changes nothing.
pub proof fn lemma_build_settled(build: Option<TomlBuildView>, package_root: Text, fs: FsView)
    ensures
        is_normalized_build(Some(explicit_build(build, package_root, fs))),
        explicit_build(
            Some(explicit_build(build, package_root, fs)),
            package_root,
            fs,
        ) == explicit_build(build, package_root, fs),
{
    lemma_build_rs();
    match build {
        Some(TomlBuildView::SingleScript(script)) => lemma_normalized_again(script),
        _ => {},
    }
}

/// What remains of the inferred targets are those that are not taken.
pub proof fn lemma_remaining(
    package_root: Text,
    targets: Seq<TomlTargetView>,
    inferred: Seq<TomlTargetView>,
    t: TomlTargetView,
)
    ensures
        remaining(package_root, targets, inferred).contains(t) <==> inferred.contains(t)
            && !is_taken(package_root, targets, t),
    decreases inferred.len(),
{
    if inferred.len() > 0 {
        let front = inferred.drop_last();
        let last = inferred.last();
        let rest = remaining(package_root, targets, front);
        lemma_remaining(package_root, targets, front, t);
        assert(front.push(last) =~= inferred);
        lemma_push_contains(front, last, t);
        lemma_push_contains(rest, last, t);
    }
}

proof fn lemma_push_contains(list: Seq<TomlTargetView>, last: TomlTargetView, t: TomlTargetView)
    ensures
        list.push(last).contains(t) <==> list.contains(t) || t == last,
{
    if list.contains(t) {
        let i = choose|i: int| 0 <= i < list.len() && list[i] == t;
        assert(list.push(last)[i] == t);
    }
    assert(list.push(last)[list.len() as int] == last);
}

/// Sorting targets by their names loses none and makes up none.
pub proof fn lemma_by_name(targets: Seq<TomlTargetView>, t: TomlTargetView)
    ensures
        by_name(targets).contains(t) <==> targets.contains(t),
{
    let keys = opt_name_keys(targets);
    let order = stable_order(keys);
    let sorted = by_name(targets);
    lemma_stable_order(keys);
    if targets.contains(t) {
        let k = choose|k: int| 0 <= k < targets.len() && targets[k] == t;
        assert(order.contains(k));
        let a = choose|a: int| 0 <= a < order.len() && order[a] == k;
        assert(sorted[a] == t);
    }
    if sorted.contains(t) {
        let a = choose|a: int| 0 <= a < sorted.len() && sorted[a] == t;
        assert(targets[order[a]] == t);
    }
}

/// The targets of a package are those that its manifest describes and, where targets
/// are inferred, those inferred ones of which no target of the manifest has the name
/// or the place. None is lost, and none is made up.
pub proof fn lemma_merged(
    targets: Seq<TomlTargetView>,
    inferred: Seq<(Text, Text)>,
    package_root: Text,
    autodiscover: Option<bool>,
    edition: Edition,
    t: TomlTargetView,
)
    ensures
        merged(Some(targets), inferred, package_root, autodiscover, edition).contains(t) <==> {
            ||| targets.contains(t)
            ||| discovers(autodiscover, edition) && as_tomls(inferred).contains(t) && !is_taken(
                package_root,
                targets,
                t,
            )
        },
{
    let more = remaining(package_root, targets, as_tomls(inferred));
    lemma_by_name(targets, t);
    lemma_by_name(targets + more, t);
    lemma_remaining(package_root, targets, as_tomls(inferred), t);
    let all = targets + more;
    if targets.contains(t) {
        let i = choose|i: int| 0 <= i < targets.len() && targets[i] == t;
        assert(all[i] == t);
    }
    if more.contains(t) {
        let i = choose|i: int| 0 <= i < more.len() && more[i] == t;
        assert(all[targets.len() + i] == t);
    }
    if all.contains(t) {
        let i = choose|i: int| 0 <= i < all.len() && all[i] == t;
        if i < targets.len() {
            assert(targets[i] == t);
        } else {
            assert(more[i - targets.len()] == t);
        }
    }
}

} // verus!
