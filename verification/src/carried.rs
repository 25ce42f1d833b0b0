//! What the targets of a package carry over from the entries of its manifest.
use vstd::prelude::*;

use crate::discover::is_header_only;
use crate::fs::FsView;
use crate::manifest::{build_scripts, opt_build, tomls_view, Edition, TomlTarget};
use crate::manifest::{TomlBuildView, TomlTargetView};
use crate::native::{is_native_source, language_label};
use crate::normalize::opt_toml;
use crate::path::joined;
use crate::refused::lemma_duplicates_refused;
use crate::targets::{all_group_targets, all_joined, all_ready, base_target, bin_targets};
use crate::targets::{build_targets, configure_warnings, configured, each_bin, finished, first_missing};
use crate::targets::{first_not_dir, followed_by, group_target};
use crate::targets::{group_targets, is_ready, lib_name_inferred, lib_target, lib_targets};
use crate::targets::{manifest_targets, native_crate_type, opt_lib_target, rust_crate_types};
use crate::targets::{some_empty, targets_result, targets_view, Manifest, ScrapeExamples, Target};
use crate::targets::{TargetGroup, TargetShape, TargetView};
use crate::text::{opt_text, opt_texts, texts, Text};
use crate::validate::{script_stem, unique_scripts};

verus! {

/// The same texts, in the same order.
pub open spec fn same_texts(a: Seq<String>, b: Seq<String>) -> bool {
    &&& a.len() == b.len()
    &&& forall|i: int| #![trigger a[i], b[i]] 0 <= i < a.len() ==> a[i]@ == b[i]@
}

/// The path is there, under a directory: behind its name and a slash, unless the path
/// starts at the root.
pub open spec fn is_under(at: Text, dir: Text, path: Text) -> bool {
    if path.len() > 0 && path[0] == '/' {
        at == path
    } else if dir.len() == 0 || dir[dir.len() - 1] == '/' {
        at == dir + path
    } else {
        at == dir + seq!['/'] + path
    }
}

/// Each of the paths is there, under a directory, in the same order.
pub open spec fn all_under(at: Seq<String>, dir: Text, paths: Seq<String>) -> bool {
    &&& at.len() == paths.len()
    &&& forall|i: int|
        #![trigger at[i], paths[i]]
        0 <= i < at.len() ==> is_under(at[i]@, dir, paths[i]@)
}

/// A path that an entry may set, under the directory of the package.
pub open spec fn path_carried(at: Option<String>, root: Text, path: Option<String>) -> bool {
    match (at, path) {
        (Some(at), Some(path)) => is_under(at@, root, path@),
        (None, None) => true,
        _ => false,
    }
}

/// Paths that an entry may set, under the directory of the package.
pub open spec fn paths_carried(at: Seq<String>, root: Text, paths: Option<Vec<String>>) -> bool {
    match paths {
        Some(paths) => all_under(at, root, paths@),
        None => at.len() == 0,
    }
}

/// Texts that an entry may set.
pub open spec fn texts_carried(list: Seq<String>, set: Option<Vec<String>>) -> bool {
    match set {
        Some(set) => same_texts(list, set@),
        None => list.len() == 0,
    }
}

/// The target has the native keys of the entry, and no others.
pub open spec fn carries_native_keys(target: Target, entry: TomlTarget, root: Text) -> bool {
    &&& path_carried(target.native_include_root, root, entry.native_include_root)
    &&& path_carried(target.native_sources_root, root, entry.native_sources_root)
    &&& paths_carried(target.native_include_dirs@, root, entry.native_include_dirs)
    &&& texts_carried(target.native_defines@, entry.native_defines)
    &&& paths_carried(target.native_link_search@, root, entry.native_link_search)
    &&& texts_carried(target.native_link_libraries@, entry.native_link_libraries)
    &&& texts_carried(target.native_link_args@, entry.native_link_args)
}

/// The edition of a target: the one that its entry sets, else that of the package.
pub open spec fn has_edition(target: Target, entry: TomlTarget, edition: Edition) -> bool {
    match entry.edition {
        None => target.edition == Some(edition),
        Some(set) => match target.edition {
            Some(Edition::Edition2015) => set@ == "2015"@,
            Some(Edition::Edition2018) => set@ == "2018"@,
            Some(Edition::Edition2021) => set@ == "2021"@,
            Some(Edition::Edition2024) => set@ == "2024"@,
            Some(Edition::EditionFuture) => set@ == "future"@,
            None => false,
        },
    }
}

/// The kinds of crates that an entry sets, under either spelling; the one with a hyphen
/// comes first.
pub open spec fn kinds_of(entry: TomlTarget) -> Option<Seq<String>> {
    match (entry.crate_type, entry.crate_type2) {
        (Some(kinds), _) => Some(kinds@),
        (None, Some(kinds)) => Some(kinds@),
        (None, None) => None,
    }
}

/// The text is among the list.
pub open spec fn has_kind(kinds: Seq<String>, kind: Text) -> bool {
    exists|i: int| 0 <= i < kinds.len() && (#[trigger] kinds[i])@ == kind
}

/// Whether an entry is for procedural macros: as it sets, under either spelling, or where
/// that is one of its kinds.
pub open spec fn macros_set(entry: TomlTarget) -> Option<bool> {
    match (entry.proc_macro, entry.proc_macro2) {
        (Some(on), _) => Some(on),
        (None, Some(on)) => Some(on),
        (None, None) => if kinds_of(entry) matches Some(kinds) && has_kind(kinds, "proc-macro"@) {
            Some(true)
        } else {
            None
        },
    }
}

/// The target has the name, the source and the switches of the entry.
pub open spec fn carries_settings(
    target: Target,
    entry: TomlTarget,
    root: Text,
    edition: Edition,
) -> bool {
    &&& entry.name matches Some(name) ==> target.name@ == name@
    &&& entry.path matches Some(path) ==> target.path is Some && is_under(
        target.path->0@,
        root,
        path@,
    )
    &&& target.tested == entry.test
    &&& target.documented == entry.doc
    &&& target.doctested == entry.doctest
    &&& target.benched == entry.bench
    &&& target.harness == entry.harness
    &&& target.proc_macro == macros_set(entry)
    &&& target.for_host == macros_set(entry)
    &&& target.doc_scrape_examples == match entry.doc_scrape_examples {
        None => ScrapeExamples::Unset,
        Some(true) => ScrapeExamples::Enabled,
        Some(false) => ScrapeExamples::Disabled,
    }
    &&& has_edition(target, entry, edition)
}

/// Features that are set the same.
pub open spec fn same_features(a: Option<Vec<String>>, b: Option<Vec<String>>) -> bool {
    match (a, b) {
        (Some(a), Some(b)) => same_texts(a@, b@),
        (None, None) => true,
        _ => false,
    }
}

/// The source is in C or C++, by its extension.
pub open spec fn in_native_language(target: Target) -> bool {
    target.path is Some && is_native_source(target.path->0@)
}

/// A target of a kind that there can be many of is what its entry says.
pub open spec fn comes_from(
    target: Target,
    group: TargetGroup,
    entry: TomlTarget,
    root: Text,
    edition: Edition,
) -> bool {
    &&& carries_native_keys(target, entry, root)
    &&& carries_settings(target, entry, root, edition)
    &&& same_features(target.required_features, entry.required_features)
    &&& match group {
        TargetGroup::Bins => {
            &&& target.shape == if in_native_language(target) {
                TargetShape::NativeBin
            } else {
                TargetShape::Bin
            }
            &&& match (target.filename, entry.filename) {
                (Some(a), Some(b)) => a@ == b@,
                (None, None) => true,
                _ => false,
            }
        },
        TargetGroup::Examples => {
            &&& target.shape == TargetShape::Example
            &&& match kinds_of(entry) {
                Some(kinds) => same_texts(target.crate_types@, kinds),
                None => target.crate_types@.len() == 0,
            }
        },
        TargetGroup::Tests => target.shape == TargetShape::Test,
        TargetGroup::Benches => target.shape == TargetShape::Bench,
    }
}

/// The library is what its entry says.
pub open spec fn library_comes_from(
    target: Target,
    entry: TomlTarget,
    root: Text,
    edition: Edition,
) -> bool {
    &&& carries_settings(target, entry, root, edition)
    &&& target.shape == TargetShape::NativeLib <==> in_native_language(target)
    &&& match target.shape {
        TargetShape::NativeLib => {
            &&& carries_native_keys(target, entry, root)
            &&& target.crate_types@.len() == 1
            &&& target.crate_types@[0]@ == "staticlib"@ || target.crate_types@[0]@ == "cdylib"@
            &&& match kinds_of(entry) {
                Some(kinds) => if kinds.len() == 0 {
                    target.crate_types@[0]@ == "staticlib"@
                } else {
                    same_texts(target.crate_types@, kinds)
                },
                None => target.crate_types@[0]@ == "staticlib"@,
            }
        },
        TargetShape::HeaderOnlyLib => {
            &&& carries_native_keys(target, entry, root)
            &&& target.crate_types@.len() == 0
        },
        TargetShape::Lib => match kinds_of(entry) {
            Some(kinds) => same_texts(target.crate_types@, kinds),
            None => target.crate_types@.len() == 1 && target.crate_types@[0]@ == if macros_set(
                entry,
            ) == Some(true) {
                "proc-macro"@
            } else {
                "lib"@
            },
        },
        _ => false,
    }
}

proof fn lemma_kinds(entry: TomlTarget)
    ensures
        entry@.crate_types() == match kinds_of(entry) {
            Some(kinds) => Some(texts(kinds)),
            None => None,
        },
        entry@.is_proc_macro() == macros_set(entry),
        kinds_of(entry) matches Some(kinds) ==> texts(kinds).len() == kinds.len() && forall|
            kind: Text,
        | #[trigger] texts(kinds).contains(kind) <==> has_kind(kinds, kind),
{
    if let Some(kinds) = kinds_of(entry) {
        assert forall|kind: Text| #[trigger] texts(kinds).contains(kind) <==> has_kind(
            kinds,
            kind,
        ) by {
            if texts(kinds).contains(kind) {
                let i = choose|i: int| 0 <= i < texts(kinds).len() && texts(kinds)[i] == kind;
                assert(kinds[i]@ == kind);
            }
            if has_kind(kinds, kind) {
                let i = choose|i: int| 0 <= i < kinds.len() && (#[trigger] kinds[i])@ == kind;
                assert(texts(kinds)[i] == kind);
            }
        }
    }
}

proof fn lemma_joined(root: Text, path: Text)
    ensures
        is_under(joined(root, path), root, path),
{
    if root.len() > 0 {
        assert(root.last() == root[root.len() - 1]);
        assert(root.push('/') =~= root + seq!['/']);
    }
}

proof fn lemma_same_texts(a: Seq<String>, b: Seq<String>)
    requires
        texts(a) == texts(b),
    ensures
        same_texts(a, b),
{
    assert(texts(a).len() == a.len() && texts(b).len() == b.len());
    assert forall|i: int| #![trigger a[i], b[i]] 0 <= i < a.len() implies a[i]@ == b[i]@ by {
        assert(texts(a)[i] == a[i]@ && texts(b)[i] == b[i]@);
    }
}

proof fn lemma_all_joined(at: Seq<String>, root: Text, paths: Seq<String>)
    requires
        texts(at) == all_joined(root, texts(paths)),
    ensures
        all_under(at, root, paths),
{
    assert(texts(at).len() == at.len() && texts(paths).len() == paths.len());
    assert forall|i: int| #![trigger at[i], paths[i]] 0 <= i < at.len() implies is_under(
        at[i]@,
        root,
        paths[i]@,
    ) by {
        assert(texts(at)[i] == at[i]@ && texts(paths)[i] == paths[i]@);
        assert(all_joined(root, texts(paths))[i] == joined(root, texts(paths)[i]));
        lemma_joined(root, paths[i]@);
    }
}

/// Lists that are empty as lists of texts are empty.
proof fn lemma_no_texts(list: Seq<String>)
    requires
        texts(list) == Seq::<Text>::empty(),
    ensures
        list.len() == 0,
{
    assert(texts(list).len() == list.len());
}

proof fn lemma_paths_carried(at: Seq<String>, root: Text, paths: Option<Vec<String>>)
    requires
        texts(at) == match opt_texts(paths) {
            Some(paths) => all_joined(root, paths),
            None => Seq::<Text>::empty(),
        },
    ensures
        paths_carried(at, root, paths),
{
    match paths {
        Some(paths) => lemma_all_joined(at, root, paths@),
        None => lemma_no_texts(at),
    }
}

proof fn lemma_texts_carried(list: Seq<String>, set: Option<Vec<String>>)
    requires
        texts(list) == match opt_texts(set) {
            Some(set) => set,
            None => Seq::<Text>::empty(),
        },
    ensures
        texts_carried(list, set),
{
    match set {
        Some(set) => lemma_same_texts(list, set@),
        None => lemma_no_texts(list),
    }
}

proof fn lemma_path_carried(at: Option<String>, root: Text, path: Option<String>)
    requires
        opt_text(at) == match opt_text(path) {
            Some(path) => Some(joined(root, path)),
            None => None,
        },
    ensures
        path_carried(at, root, path),
{
    if let Some(p) = path {
        lemma_joined(root, p@);
    }
}

/// Without any native key.
spec fn is_bare(target: TargetView) -> bool {
    &&& target.native_include_root is None
    &&& target.native_sources_root is None
    &&& target.native_include_dirs.len() == 0
    &&& target.native_defines.len() == 0
    &&& target.native_link_search.len() == 0
    &&& target.native_link_libraries.len() == 0
    &&& target.native_link_args.len() == 0
}

/// Without any switch.
spec fn is_unset(target: TargetView) -> bool {
    &&& target.tested is None
    &&& target.documented is None
    &&& target.doctested is None
    &&& target.benched is None
    &&& target.harness is None
    &&& target.proc_macro is None
    &&& target.for_host is None
}

proof fn lemma_keys_carried(
    target: Target,
    start: TargetView,
    entry: TomlTarget,
    root: Text,
    fs: FsView,
)
    requires
        is_bare(start),
        finished(entry@, start, root, fs) == Ok::<TargetView, Text>(target@),
    ensures
        carries_native_keys(target, entry, root),
{
    assert(start.native_include_dirs =~= Seq::<Text>::empty());
    assert(start.native_defines =~= Seq::<Text>::empty());
    assert(start.native_link_search =~= Seq::<Text>::empty());
    assert(start.native_link_libraries =~= Seq::<Text>::empty());
    assert(start.native_link_args =~= Seq::<Text>::empty());
    lemma_path_carried(target.native_include_root, root, entry.native_include_root);
    lemma_path_carried(target.native_sources_root, root, entry.native_sources_root);
    lemma_paths_carried(target.native_include_dirs@, root, entry.native_include_dirs);
    lemma_texts_carried(target.native_defines@, entry.native_defines);
    lemma_paths_carried(target.native_link_search@, root, entry.native_link_search);
    lemma_texts_carried(target.native_link_libraries@, entry.native_link_libraries);
    lemma_texts_carried(target.native_link_args@, entry.native_link_args);
}

proof fn lemma_settings_carried(
    target: Target,
    start: TargetView,
    entry: TomlTarget,
    root: Text,
    edition: Edition,
)
    requires
        is_unset(start),
        start.edition == Some(edition),
        entry.name is Some,
        entry.path is Some,
        start.name == entry.name->0@,
        start.path == Some(joined(root, entry.path->0@)),
        configured(entry@, start) is Ok,
        ({
            let t = configured(entry@, start)->Ok_0;
            &&& target@.name == t.name
            &&& target@.path == t.path
            &&& target@.tested == t.tested
            &&& target@.documented == t.documented
            &&& target@.doctested == t.doctested
            &&& target@.benched == t.benched
            &&& target@.harness == t.harness
            &&& target@.proc_macro == t.proc_macro
            &&& target@.for_host == t.for_host
            &&& target@.doc_scrape_examples == t.doc_scrape_examples
            &&& target@.edition == t.edition
        }),
    ensures
        carries_settings(target, entry, root, edition),
{
    lemma_joined(root, entry.path->0@);
    lemma_kinds(entry);
}

/// Each target of a group comes from its entry, in the order of the entries.
proof fn lemma_group(
    group: TargetGroup,
    entries: Seq<TomlTarget>,
    root: Text,
    edition: Edition,
    fs: FsView,
    n: nat,
    i: int,
    target: Target,
)
    requires
        n <= entries.len(),
        0 <= i < n,
        all_ready(entries),
        group_targets(group, tomls_view(entries), root, edition, fs, n).0 is Ok,
        group_targets(group, tomls_view(entries), root, edition, fs, n).0->Ok_0[i] == target@,
    ensures
        comes_from(target, group, entries[i], root, edition),
    decreases n,
{
    let all = tomls_view(entries);
    lemma_group_len(group, all, root, edition, fs, (n - 1) as nat);
    let before = group_targets(group, all, root, edition, fs, (n - 1) as nat).0->Ok_0;
    let list = group_targets(group, all, root, edition, fs, n).0->Ok_0;
    if i < n - 1 {
        assert(list[i] == before[i]);
        lemma_group(group, entries, root, edition, fs, (n - 1) as nat, i, target);
    } else {
        let entry = entries[i];
        assert(all[i] == entry@);
        assert(is_ready(entry@));
        let start = base_target(group, entry@, root, edition)->Ok_0;
        assert(finished(entry@, start, root, fs) == Ok::<TargetView, Text>(target@));
        lemma_keys_carried(target, start, entry, root, fs);
        lemma_settings_carried(target, start, entry, root, edition);
        match (target.required_features, entry.required_features) {
            (Some(a), Some(b)) => {
                assert(target@.required_features == entry@.required_features);
                lemma_same_texts(a@, b@);
            },
            _ => {},
        }
        if group == TargetGroup::Examples {
            lemma_kinds(entry);
            match kinds_of(entry) {
                Some(kinds) => {
                    assert(texts(target.crate_types@) == texts(kinds));
                    lemma_same_texts(target.crate_types@, kinds);
                },
                None => lemma_no_texts(target.crate_types@),
            }
        }
    }
}

proof fn lemma_group_len(
    group: TargetGroup,
    entries: Seq<TomlTargetView>,
    root: Text,
    edition: Edition,
    fs: FsView,
    n: nat,
)
    requires
        group_targets(group, entries, root, edition, fs, n).0 is Ok,
    ensures
        group_targets(group, entries, root, edition, fs, n).0->Ok_0.len() == n,
    decreases n,
{
    if n > 0 {
        lemma_group_len(group, entries, root, edition, fs, (n - 1) as nat);
    }
}

/// Each target of a group comes from its entry, in the order of the entries.
pub proof fn lemma_group_comes_from(
    group: TargetGroup,
    entries: Seq<TomlTarget>,
    root: Text,
    edition: Edition,
    fs: FsView,
    list: Vec<Target>,
)
    requires
        all_ready(entries),
        targets_result(Ok::<Vec<Target>, String>(list)) == all_group_targets(
            group,
            tomls_view(entries),
            root,
            edition,
            fs,
        ).0,
    ensures
        list@.len() == entries.len(),
        forall|i: int|
            #![trigger list@[i], entries[i]]
            0 <= i < list@.len() ==> comes_from(list@[i], group, entries[i], root, edition),
{
    let n = entries.len();
    let all = tomls_view(entries);
    assert(all.len() == n);
    lemma_group_len(group, all, root, edition, fs, n);
    assert(targets_view(list@).len() == list@.len());
    assert forall|i: int| #![trigger list@[i], entries[i]] 0 <= i < list@.len() implies comes_from(
        list@[i],
        group,
        entries[i],
        root,
        edition,
    ) by {
        assert(targets_view(list@)[i] == list@[i]@);
        lemma_group(group, entries, root, edition, fs, n, i, list@[i]);
    }
}

/// The library comes from its entry.
pub proof fn lemma_library_comes_from(
    name_inferred: bool,
    entry: TomlTarget,
    root: Text,
    edition: Edition,
    fs: FsView,
    target: Target,
)
    requires
        entry.name is Some,
        entry.path is Some,
        lib_target(name_inferred, entry@, root, edition, fs).0 == Ok::<TargetView, Text>(target@),
    ensures
        library_comes_from(target, entry, root, edition),
        target.name_inferred == name_inferred,
{
    let lib = entry@;
    let path = joined(root, lib.path->0);
    let name = lib.name_text();
    assert(target.name_inferred == target@.name_inferred);
    if is_native_source(path) {
        let start = TargetView {
            crate_types: seq![
                native_crate_type(lib, language_label(path))->Ok_0,
            ],
            ..TargetView::plain(TargetShape::NativeLib, name, Some(path), Some(edition))
        };
        let made = finished(lib, start, root, fs)->Ok_0;
        let same = Target { name_inferred: made.name_inferred, ..target };
        assert(same@ == made);
        lemma_keys_carried(same, start, entry, root, fs);
        lemma_settings_carried(same, start, entry, root, edition);
        let kind = start.crate_types[0];
        assert(texts(target.crate_types@) == start.crate_types);
        assert(texts(target.crate_types@).len() == target.crate_types@.len());
        assert(texts(target.crate_types@)[0] == target.crate_types@[0]@);
        lemma_kinds(entry);
        if let Some(kinds) = kinds_of(entry) {
            if kinds.len() > 0 {
                assert(texts(kinds)[0] == kinds[0]@);
            }
        }
    } else if is_header_only(path, fs) {
        let start = TargetView::plain(
            TargetShape::HeaderOnlyLib,
            name,
            Some(path),
            Some(edition),
        );
        let made = finished(lib, start, root, fs)->Ok_0;
        let same = Target { name_inferred: made.name_inferred, ..target };
        assert(same@ == made);
        lemma_keys_carried(same, start, entry, root, fs);
        lemma_settings_carried(same, start, entry, root, edition);
        assert(texts(target.crate_types@).len() == target.crate_types@.len());
    } else {
        let start = TargetView {
            crate_types: rust_crate_types(lib).0->Ok_0,
            ..TargetView::plain(TargetShape::Lib, name, Some(path), Some(edition))
        };
        lemma_settings_carried(target, start, entry, root, edition);
        lemma_kinds(entry);
        match kinds_of(entry) {
            Some(kinds) => {
                let types = texts(kinds);
                assert(texts(target.crate_types@) =~= types) by {
                    if types.contains("proc-macro"@) {
                        let k = choose|k: int| 0 <= k < types.len() && types[k] == "proc-macro"@;
                        assert(types.len() == 1);
                    }
                }
                lemma_same_texts(target.crate_types@, kinds);
            },
            None => {
                let types = texts(target.crate_types@);
                assert(types.len() == target.crate_types@.len());
                assert(types[0] == target.crate_types@[0]@);
            },
        }
    }
}

/// Where the targets of a kind start among the targets of a package: the library comes
/// first, then the binaries, the examples, the tests and the benchmarks.
pub open spec fn starts_at(manifest: Manifest, group: TargetGroup) -> int {
    let lib: int = if manifest.lib is Some {
        1
    } else {
        0
    };
    match group {
        TargetGroup::Bins => lib,
        TargetGroup::Examples => lib + manifest.bin@.len(),
        TargetGroup::Tests => lib + manifest.bin@.len() + manifest.example@.len(),
        TargetGroup::Benches => lib + manifest.bin@.len() + manifest.example@.len()
            + manifest.test@.len(),
    }
}

/// The entries of a kind.
pub open spec fn entries_of(manifest: Manifest, group: TargetGroup) -> Seq<TomlTarget> {
    match group {
        TargetGroup::Bins => manifest.bin@,
        TargetGroup::Examples => manifest.example@,
        TargetGroup::Tests => manifest.test@,
        TargetGroup::Benches => manifest.bench@,
    }
}

/// Where lists that follow each other are found in the whole.
proof fn lemma_followed(
    a: (Result<Seq<TargetView>, Text>, Seq<Text>),
    b: (Result<Seq<TargetView>, Text>, Seq<Text>),
)
    requires
        followed_by(a, b).0 is Ok,
    ensures
        a.0 is Ok,
        b.0 is Ok,
        followed_by(a, b).0->Ok_0 == a.0->Ok_0 + b.0->Ok_0,
{
}

/// Each target of a package comes from an entry of its manifest: the library from the
/// library's, and the others each from the entry at its place among those of its kind.
pub proof fn lemma_targets_come_from(
    filename_gate: Option<Text>,
    original_lib: Option<TomlTargetView>,
    manifest: Manifest,
    root: Text,
    edition: Edition,
    metabuild: Option<Seq<Text>>,
    fs: FsView,
    list: Vec<Target>,
    group: TargetGroup,
    i: int,
)
    requires
        manifest.is_explicit(),
        targets_result(Ok::<Vec<Target>, String>(list)) == manifest_targets(
            filename_gate,
            original_lib,
            manifest,
            root,
            edition,
            metabuild,
            fs,
        ).0,
        0 <= i < entries_of(manifest, group).len(),
    ensures
        manifest.lib matches Some(lib) ==> list@.len() > 0 && library_comes_from(
            list@[0],
            lib,
            root,
            edition,
        ),
        starts_at(manifest, group) + i < list@.len(),
        comes_from(
            list@[starts_at(manifest, group) + i],
            group,
            entries_of(manifest, group)[i],
            root,
            edition,
        ),
{
    lemma_library_first(filename_gate, original_lib, manifest, root, edition, metabuild, fs, list);
    let b0 = lib_targets(opt_lib_target(original_lib, opt_toml(manifest.lib), root, edition, fs));
    let b1 = bin_targets(filename_gate, tomls_view(manifest.bin@), root, edition, fs);
    let b2 = all_group_targets(
        TargetGroup::Examples,
        tomls_view(manifest.example@),
        root,
        edition,
        fs,
    );
    let b3 = all_group_targets(TargetGroup::Tests, tomls_view(manifest.test@), root, edition, fs);
    let b4 = all_group_targets(
        TargetGroup::Benches,
        tomls_view(manifest.bench@),
        root,
        edition,
        fs,
    );
    let package = manifest.package->0;
    let b5 = (
        build_targets(
            build_scripts(opt_build(package.build)),
            metabuild,
            texts(manifest.build_dependencies@),
            package.name@,
            root,
            edition,
        ),
        Seq::<Text>::empty(),
    );
    let c1 = followed_by(b0, b1);
    let c2 = followed_by(c1, b2);
    let c3 = followed_by(c2, b3);
    let c4 = followed_by(c3, b4);
    lemma_followed(c4, b5);
    lemma_followed(c3, b4);
    lemma_followed(c2, b3);
    lemma_followed(c1, b2);
    lemma_followed(b0, b1);
    let bins = tomls_view(manifest.bin@);
    let examples = tomls_view(manifest.example@);
    let tests = tomls_view(manifest.test@);
    let benches = tomls_view(manifest.bench@);
    assert(bins.len() == manifest.bin@.len() && examples.len() == manifest.example@.len());
    assert(tests.len() == manifest.test@.len() && benches.len() == manifest.bench@.len());
    lemma_group_len(TargetGroup::Bins, bins, root, edition, fs, bins.len());
    lemma_group_len(TargetGroup::Examples, examples, root, edition, fs, examples.len());
    lemma_group_len(TargetGroup::Tests, tests, root, edition, fs, tests.len());
    lemma_group_len(TargetGroup::Benches, benches, root, edition, fs, benches.len());
    let whole = targets_view(list@);
    assert(whole.len() == list@.len());
    let k = starts_at(manifest, group) + i;
    let own = match group {
        TargetGroup::Bins => b1.0->Ok_0,
        TargetGroup::Examples => b2.0->Ok_0,
        TargetGroup::Tests => b3.0->Ok_0,
        TargetGroup::Benches => b4.0->Ok_0,
    };
    assert(whole[k] == own[i]);
    assert(whole[k] == list@[k]@);
    let entries = entries_of(manifest, group);
    lemma_group(group, entries, root, edition, fs, entries.len(), i, list@[k]);
}

/// Where a package has a library, that is its first target, and it comes from its entry.
pub proof fn lemma_library_first(
    filename_gate: Option<Text>,
    original_lib: Option<TomlTargetView>,
    manifest: Manifest,
    root: Text,
    edition: Edition,
    metabuild: Option<Seq<Text>>,
    fs: FsView,
    list: Vec<Target>,
)
    requires
        manifest.is_explicit(),
        targets_result(Ok::<Vec<Target>, String>(list)) == manifest_targets(
            filename_gate,
            original_lib,
            manifest,
            root,
            edition,
            metabuild,
            fs,
        ).0,
    ensures
        manifest.lib matches Some(lib) ==> {
            &&& list@.len() > 0
            &&& library_comes_from(list@[0], lib, root, edition)
            &&& list@[0].name_inferred == (original_lib is None || original_lib->0.name is None)
        },
{
    let b0 = lib_targets(opt_lib_target(original_lib, opt_toml(manifest.lib), root, edition, fs));
    let whole = targets_view(list@);
    assert(whole.len() == list@.len());
    if let Some(lib) = manifest.lib {
        assert(is_ready(lib@));
        let inferred = lib_name_inferred(original_lib);
        assert(b0.0 is Ok);
        let first = b0.0->Ok_0;
        assert(first.len() == 1);
        assert(whole[0] == first[0]);
        assert(whole[0] == list@[0]@);
        lemma_library_comes_from(inferred, lib, root, edition, fs, list@[0]);
    }
}

/// What the native keys of an entry may be, of a native target: directories that are
/// there, and no empty texts; of headers only, no sources, and of what is not linked,
/// nothing for the linker.
pub open spec fn keys_fit(entry: TomlTargetView, start: TargetView, root: Text, fs: FsView) -> bool {
    let headers = start.shape == TargetShape::HeaderOnlyLib;
    let linked = !headers && !start.is_staticlib();
    &&& entry.native_include_root matches Some(path) ==> !fs.has(joined(root, path)) || fs.has_dir(
        joined(root, path),
    )
    &&& entry.native_sources_root matches Some(path) ==> !headers && fs.has_dir(joined(root, path))
    &&& entry.native_include_dirs matches Some(dirs) ==> !headers && forall|i: int|
        0 <= i < dirs.len() ==> fs.has_dir(joined(root, #[trigger] dirs[i]))
    &&& entry.native_defines matches Some(list) ==> !headers && forall|i: int|
        0 <= i < list.len() ==> (#[trigger] list[i]).len() > 0
    &&& entry.native_link_search matches Some(dirs) ==> linked && forall|i: int|
        0 <= i < dirs.len() ==> fs.has_dir(joined(root, #[trigger] dirs[i]))
    &&& entry.native_link_libraries matches Some(list) ==> linked && forall|i: int|
        0 <= i < list.len() ==> (#[trigger] list[i]).len() > 0
    &&& entry.native_link_args matches Some(list) ==> linked && forall|i: int|
        0 <= i < list.len() ==> (#[trigger] list[i]).len() > 0
}

/// An entry without a native key.
pub open spec fn has_no_native_keys(entry: TomlTargetView) -> bool {
    &&& entry.native_include_root is None
    &&& entry.native_sources_root is None
    &&& entry.native_include_dirs is None
    &&& entry.native_defines is None
    &&& entry.native_link_search is None
    &&& entry.native_link_libraries is None
    &&& entry.native_link_args is None
}

/// A name of an edition.
pub open spec fn names_edition(text: Text) -> bool {
    ||| text == "2015"@
    ||| text == "2018"@
    ||| text == "2021"@
    ||| text == "2024"@
    ||| text == "future"@
}

proof fn lemma_all_dirs(root: Text, fs: FsView, paths: Seq<Text>)
    ensures
        first_not_dir(root, fs, paths) is None <==> forall|i: int|
            0 <= i < paths.len() ==> fs.has_dir(joined(root, #[trigger] paths[i])),
    decreases paths.len(),
{
    if paths.len() > 0 {
        let rest = paths.skip(1);
        lemma_all_dirs(root, fs, rest);
        if first_not_dir(root, fs, paths) is None {
            assert forall|i: int| 0 <= i < paths.len() implies fs.has_dir(
                joined(root, #[trigger] paths[i]),
            ) by {
                if i > 0 {
                    assert(rest[i - 1] == paths[i]);
                }
            }
        } else if fs.has_dir(joined(root, paths[0])) {
            let k = choose|k: int|
                0 <= k < rest.len() && !fs.has_dir(joined(root, #[trigger] rest[k]));
            assert(paths[k + 1] == rest[k]);
        }
    }
}

/// An entry is taken if and only if its edition is one, and it has no native keys, or
/// its target is native and they fit.
pub proof fn lemma_entry_taken(entry: TomlTargetView, start: TargetView, root: Text, fs: FsView)
    ensures
        finished(entry, start, root, fs) is Ok <==> {
            &&& entry.edition matches Some(edition) ==> names_edition(edition)
            &&& has_no_native_keys(entry) || {
                &&& start.shape == TargetShape::HeaderOnlyLib || (start.path is Some
                    && is_native_source(start.path->0))
                &&& keys_fit(entry, start, root, fs)
            }
        },
{
    if let Some(dirs) = entry.native_include_dirs {
        lemma_all_dirs(root, fs, dirs);
    }
    if let Some(dirs) = entry.native_link_search {
        lemma_all_dirs(root, fs, dirs);
    }
    lemma_filled(entry.native_defines);
    lemma_filled(entry.native_link_libraries);
    lemma_filled(entry.native_link_args);
}

proof fn lemma_filled(list: Option<Seq<Text>>)
    ensures
        list matches Some(list) ==> (some_empty(list) <==> !(forall|i: int|
            0 <= i < list.len() ==> (#[trigger] list[i]).len() > 0)),
{
}

/// The kinds that a library can have: one of two for a native one, none for one of
/// headers, and for one in Rust neither two kinds of shared libraries nor procedural
/// macros beside another.
pub open spec fn kinds_fit(entry: TomlTarget, path: Text, fs: FsView) -> bool {
    kinds_of(entry) matches Some(kinds) ==> if is_native_source(path) {
        kinds.len() == 0 || (kinds.len() == 1 && (kinds[0]@ == "staticlib"@ || kinds[0]@
            == "cdylib"@))
    } else if is_header_only(path, fs) {
        kinds.len() == 0
    } else {
        &&& !(has_kind(kinds, "dylib"@) && has_kind(kinds, "cdylib"@))
        &&& has_kind(kinds, "proc-macro"@) ==> kinds.len() == 1
    }
}

/// A library whose kinds do not fit is refused, as is one whose edition is none.
pub proof fn lemma_library_refused(
    name_inferred: bool,
    entry: TomlTarget,
    root: Text,
    edition: Edition,
    fs: FsView,
)
    requires
        entry.path is Some,
    ensures
        ({
            let path = joined(root, entry.path->0@);
            let made = lib_target(name_inferred, entry@, root, edition, fs).0;
            &&& made is Ok ==> kinds_fit(entry, path, fs)
            &&& made is Ok ==> (entry.edition matches Some(set) ==> names_edition(set@))
            &&& !is_native_source(path) && !is_header_only(path, fs) ==> (made is Ok
                <==> kinds_fit(entry, path, fs) && (entry.edition matches Some(set)
                ==> names_edition(set@)))
            &&& (is_native_source(path) || is_header_only(path, fs)) && kinds_fit(entry, path, fs)
                && has_no_native_keys(entry@) ==> (made is Ok <==> (entry.edition matches Some(set)
                ==> names_edition(set@)))
        }),
{
    let lib = entry@;
    let path = joined(root, entry.path->0@);
    lemma_kinds(entry);
    if let Some(kinds) = kinds_of(entry) {
        if kinds.len() > 0 {
            assert(texts(kinds)[0] == kinds[0]@);
        }
        assert(texts(kinds).contains("dylib"@) <==> has_kind(kinds, "dylib"@));
        assert(texts(kinds).contains("cdylib"@) <==> has_kind(kinds, "cdylib"@));
        assert(texts(kinds).contains("proc-macro"@) <==> has_kind(kinds, "proc-macro"@));
    }
    if is_native_source(path) {
        let made = native_crate_type(lib, language_label(path));
        if made is Ok {
            lemma_entry_taken(
                lib,
                TargetView {
                    crate_types: seq![made->Ok_0],
                    ..TargetView::plain(
                        TargetShape::NativeLib,
                        lib.name_text(),
                        Some(path),
                        Some(edition),
                    )
                },
                root,
                fs,
            );
        }
    } else if is_header_only(path, fs) {
        lemma_entry_taken(
            lib,
            TargetView::plain(
                TargetShape::HeaderOnlyLib,
                lib.name_text(),
                Some(path),
                Some(edition),
            ),
            root,
            fs,
        );
    }
}

/// A native example is an executable: any kind but `bin` is refused. Nothing else is
/// refused before its keys are looked at.
pub proof fn lemma_example_kinds(
    group: TargetGroup,
    entry: TomlTarget,
    root: Text,
    edition: Edition,
)
    requires
        entry.path is Some,
    ensures
        base_target(group, entry@, root, edition) is Err <==> {
            &&& group == TargetGroup::Examples
            &&& is_native_source(joined(root, entry.path->0@))
            &&& kinds_of(entry) matches Some(kinds) && exists|i: int|
                0 <= i < kinds.len() && (#[trigger] kinds[i])@ != "bin"@
        },
{
    lemma_kinds(entry);
    if let Some(kinds) = kinds_of(entry) {
        let types = texts(kinds);
        if !each_bin(types) {
            let i = choose|i: int| 0 <= i < types.len() && #[trigger] types[i] != "bin"@;
            assert(kinds[i]@ != "bin"@);
        }
        if exists|i: int| 0 <= i < kinds.len() && (#[trigger] kinds[i])@ != "bin"@ {
            let i = choose|i: int| 0 <= i < kinds.len() && (#[trigger] kinds[i])@ != "bin"@;
            assert(types[i] != "bin"@);
        }
    }
}

/// The targets of a kind are refused exactly where two have one name or one of them is
/// refused.
pub proof fn lemma_group_taken(
    group: TargetGroup,
    entries: Seq<TomlTargetView>,
    root: Text,
    edition: Edition,
    fs: FsView,
)
    ensures
        all_group_targets(group, entries, root, edition, fs).0 is Ok <==> {
            &&& forall|i: int, j: int|
                0 <= i < j < entries.len() ==> (#[trigger] entries[i]).name_text() != (
                #[trigger] entries[j]).name_text()
            &&& forall|i: int|
                0 <= i < entries.len() ==> (base_target(group, #[trigger] entries[i], root, edition)
                    matches Ok(start) && finished(entries[i], start, root, fs) is Ok)
        },
{
    lemma_duplicates_refused(entries, group.unique_kind());
    lemma_each_taken(group, entries, root, edition, fs, entries.len());
}

proof fn lemma_each_taken(
    group: TargetGroup,
    entries: Seq<TomlTargetView>,
    root: Text,
    edition: Edition,
    fs: FsView,
    n: nat,
)
    requires
        n <= entries.len(),
    ensures
        group_targets(group, entries, root, edition, fs, n).0 is Ok <==> forall|i: int|
            0 <= i < n ==> (base_target(group, #[trigger] entries[i], root, edition)
                matches Ok(start) && finished(entries[i], start, root, fs) is Ok),
    decreases n,
{
    if n > 0 {
        lemma_each_taken(group, entries, root, edition, fs, (n - 1) as nat);
        let entry = entries[n - 1];
        assert(group_target(group, entry, root, edition, fs).0 is Ok <==> (base_target(
            group,
            entry,
            root,
            edition,
        ) matches Ok(start) && finished(entry, start, root, fs) is Ok));
    }
}

/// Where the name of the file of a binary may not be set, a package that sets one is
/// refused, and else it is as if it could be.
pub proof fn lemma_filename_gate(
    message: Text,
    bins: Seq<TomlTargetView>,
    root: Text,
    edition: Edition,
    fs: FsView,
)
    ensures
        (exists|i: int| 0 <= i < bins.len() && (#[trigger] bins[i]).filename is Some)
            ==> bin_targets(Some(message), bins, root, edition, fs).0 == Err::<
            Seq<TargetView>,
            Text,
        >(message),
        (forall|i: int| 0 <= i < bins.len() ==> (#[trigger] bins[i]).filename is None)
            ==> bin_targets(Some(message), bins, root, edition, fs) == bin_targets(
            None,
            bins,
            root,
            edition,
            fs,
        ),
{
}

/// The build scripts of a package are targets that are named for their stems, at their
/// places in the package, in their order; two with one stem are refused. Packages that
/// build in its place are one target, and each of them is a dependency of the build. A
/// package cannot have both.
pub proof fn lemma_script_targets(
    scripts: Option<Seq<Text>>,
    metabuild: Option<Seq<Text>>,
    build_dependencies: Seq<Text>,
    package_name: Text,
    root: Text,
    edition: Edition,
)
    ensures
        match build_targets(
            scripts,
            metabuild,
            build_dependencies,
            package_name,
            root,
            edition,
        ) {
            Ok(list) => match (scripts, metabuild) {
                (Some(_), Some(_)) => false,
                (Some(scripts), None) => {
                    &&& list.len() == scripts.len()
                    &&& forall|i: int|
                        #![trigger list[i]]
                        0 <= i < list.len() ==> {
                            &&& list[i].shape == TargetShape::CustomBuild
                            &&& list[i].name == "build-script-"@ + script_stem(scripts[i])
                            &&& list[i].path is Some
                            &&& is_under(list[i].path->0, root, scripts[i])
                            &&& list[i].edition == Some(edition)
                        }
                },
                (None, Some(names)) => {
                    &&& list.len() == 1
                    &&& list[0].shape == TargetShape::Metabuild
                    &&& list[0].name == "metabuild-"@ + package_name
                    &&& forall|i: int|
                        0 <= i < names.len() ==> build_dependencies.contains(#[trigger] names[i])
                },
                (None, None) => list.len() == 0,
            },
            Err(_) => match (scripts, metabuild) {
                (Some(_), Some(_)) => true,
                (Some(scripts), None) => unique_scripts(scripts) is Err,
                (None, Some(names)) => exists|i: int|
                    0 <= i < names.len() && !build_dependencies.contains(#[trigger] names[i]),
                (None, None) => false,
            },
        },
{
    if let Some(names) = metabuild {
        lemma_first_missing(names, build_dependencies);
    }
    if let Some(scripts) = scripts {
        assert forall|i: int| 0 <= i < scripts.len() implies is_under(
            joined(root, #[trigger] scripts[i]),
            root,
            scripts[i],
        ) by {
            lemma_joined(root, scripts[i]);
        }
    }
}

proof fn lemma_first_missing(names: Seq<Text>, list: Seq<Text>)
    ensures
        first_missing(names, list) is None <==> forall|i: int|
            0 <= i < names.len() ==> list.contains(#[trigger] names[i]),
    decreases names.len(),
{
    if names.len() > 0 {
        let rest = names.skip(1);
        lemma_first_missing(rest, list);
        if first_missing(names, list) is None {
            assert forall|i: int| 0 <= i < names.len() implies list.contains(#[trigger] names[i]) by {
                if i > 0 {
                    assert(rest[i - 1] == names[i]);
                }
            }
        } else if list.contains(names[0]) {
            let i = choose|i: int| 0 <= i < rest.len() && !list.contains(#[trigger] rest[i]);
            assert(names[i + 1] == rest[i]);
        }
    }
}

/// Behind the targets that come from entries stand the build scripts of a package, and
/// nothing else.
pub proof fn lemma_scripts_last(
    filename_gate: Option<Text>,
    original_lib: Option<TomlTargetView>,
    manifest: Manifest,
    root: Text,
    edition: Edition,
    metabuild: Option<Seq<Text>>,
    fs: FsView,
)
    ensures
        manifest_targets(
            filename_gate,
            original_lib,
            manifest,
            root,
            edition,
            metabuild,
            fs,
        ).0 matches Ok(list) ==> (manifest.package matches Some(package) && build_targets(
            build_scripts(opt_build(package.build)),
            metabuild,
            texts(manifest.build_dependencies@),
            package.name@,
            root,
            edition,
        ) matches Ok(scripts) && {
            let start = starts_at(manifest, TargetGroup::Benches) + manifest.bench@.len();
            &&& list.len() == start + scripts.len()
            &&& forall|i: int| 0 <= i < scripts.len() ==> list[start + i] == #[trigger] scripts[i]
        }),
{
    let b0 = lib_targets(opt_lib_target(original_lib, opt_toml(manifest.lib), root, edition, fs));
    let b1 = bin_targets(filename_gate, tomls_view(manifest.bin@), root, edition, fs);
    let b2 = all_group_targets(
        TargetGroup::Examples,
        tomls_view(manifest.example@),
        root,
        edition,
        fs,
    );
    let b3 = all_group_targets(TargetGroup::Tests, tomls_view(manifest.test@), root, edition, fs);
    let b4 = all_group_targets(
        TargetGroup::Benches,
        tomls_view(manifest.bench@),
        root,
        edition,
        fs,
    );
    let made = manifest_targets(
        filename_gate,
        original_lib,
        manifest,
        root,
        edition,
        metabuild,
        fs,
    ).0;
    if made is Ok {
        let package = manifest.package->0;
        let b5 = (
            build_targets(
                build_scripts(opt_build(package.build)),
                metabuild,
                texts(manifest.build_dependencies@),
                package.name@,
                root,
                edition,
            ),
            Seq::<Text>::empty(),
        );
        let c1 = followed_by(b0, b1);
        let c2 = followed_by(c1, b2);
        let c3 = followed_by(c2, b3);
        let c4 = followed_by(c3, b4);
        lemma_followed(c4, b5);
        lemma_followed(c3, b4);
        lemma_followed(c2, b3);
        lemma_followed(c1, b2);
        lemma_followed(b0, b1);
        let bins = tomls_view(manifest.bin@);
        let examples = tomls_view(manifest.example@);
        let tests = tomls_view(manifest.test@);
        let benches = tomls_view(manifest.bench@);
        assert(bins.len() == manifest.bin@.len() && examples.len() == manifest.example@.len());
        assert(tests.len() == manifest.test@.len() && benches.len() == manifest.bench@.len());
        lemma_group_len(TargetGroup::Bins, bins, root, edition, fs, bins.len());
        lemma_group_len(TargetGroup::Examples, examples, root, edition, fs, examples.len());
        lemma_group_len(TargetGroup::Tests, tests, root, edition, fs, tests.len());
        lemma_group_len(TargetGroup::Benches, benches, root, edition, fs, benches.len());
    }
}

/// A target that sets its edition is warned about once, and no other is.
pub proof fn lemma_edition_warned(entry: TomlTargetView, name: Text, human: Text)
    ensures
        configure_warnings(entry, name, human).len() == if entry.edition is Some {
            1nat
        } else {
            0
        },
{
}

/// The build scripts of a package are the one or the several that are set.
pub proof fn lemma_scripts_set(build: Option<TomlBuildView>)
    ensures
        match build {
            Some(TomlBuildView::SingleScript(script)) => build_scripts(build) == Some(seq![script]),
            Some(TomlBuildView::MultipleScript(scripts)) => build_scripts(build) == Some(scripts),
            Some(TomlBuildView::Auto(_)) => build_scripts(build) is None,
            None => build_scripts(build) is None,
        },
{
}

} // verus!
