//! Where the include directories of a native target come from.
use vstd::prelude::*;

use crate::carried::is_under;
use crate::env::first_filled;
use crate::fs::FsView;
use crate::layout::{own_include_dir, source_dirs};
use crate::link::CompileMode;
use crate::outputs::{declared_includes, dependency_includes, descriptor_includes, find_output};
use crate::outputs::{includes_in, includes_of, with_paths, BuildOutput, BuildScriptOutputs};
use crate::outputs::DescriptorView;
use crate::path::{holds_path, joined, lemma_sorted_paths, parent, same_path};
use crate::plan::{work_of, BuildContext, WorkView};
use crate::propagate::{gives_library, lemma_descriptors, lemma_includes_propagate};
use crate::text::{opt_text, texts, Text};
use crate::units::{descriptor_of, primary_output, Unit, UnitGraph};

verus! {

/// A unit that others can be compiled or linked against: a native library that is
/// built, or one of headers only.
pub open spec fn is_usable(unit: Unit) -> bool {
    &&& unit.target.is_native
    &&& unit.target.is_linkable || unit.target.is_header_only
    &&& match unit.mode {
        CompileMode::Doc => false,
        CompileMode::RunCustomBuild => false,
        _ => true,
    }
}

/// Each unit of the path depends on the next one, which is usable.
pub open spec fn is_chain(graph: UnitGraph, u: int, path: Seq<int>) -> bool {
    &&& path.len() > 1
    &&& path[0] == u
    &&& forall|i: int|
        #![trigger path[i]]
        1 <= i < path.len() ==> is_usable(graph.units@[path[i]]) && has_dep(
            graph.units@[path[i - 1]],
            path[i],
        )
}

/// A unit is among the dependencies.
pub open spec fn has_dep(unit: Unit, x: int) -> bool {
    exists|k: int| 0 <= k < unit.deps@.len() && #[trigger] unit.deps@[k] == x
}

/// A unit is reached from another over usable dependencies, and in no other way.
pub proof fn lemma_reaches(graph: UnitGraph, u: int, x: int)
    ensures
        graph.reaches(u, x) <==> exists|path: Seq<int>| #[trigger]
            is_chain(graph, u, path) && path[path.len() - 1] == x,
{
    assert forall|path: Seq<int>| path.len() > 1 implies (graph.is_path(u, path) <==> is_chain(
        graph,
        u,
        path,
    )) by {
        assert forall|a: int, b: int| graph.uses(a, b) <==> is_usable(graph.units@[b]) && has_dep(
            graph.units@[a],
            b,
        ) by {
            let unit = graph.units@[a];
            if has_dep(unit, b) {
                let k = choose|k: int| 0 <= k < unit.deps@.len() && #[trigger] unit.deps@[k] == b;
                assert(graph.dep(a, k) == b);
            }
        }
        if graph.is_path(u, path) {
            assert forall|i: int| #![trigger path[i]] 1 <= i < path.len() implies is_usable(
                graph.units@[path[i]],
            ) && has_dep(graph.units@[path[i - 1]], path[i]) by {
                assert(graph.uses(path[i - 1], path[i]));
            }
        }
        if is_chain(graph, u, path) {
            assert forall|i: int| #![trigger path[i]] 1 <= i < path.len() implies graph.uses(
                path[i - 1],
                path[i],
            ) by {
                assert(is_usable(graph.units@[path[i]]));
            }
        }
    }
    if graph.reaches(u, x) {
        let path = choose|path: Seq<int>| #[trigger]
            graph.is_path(u, path) && path.len() > 1 && path.last() == x;
        assert(is_chain(graph, u, path) && path[path.len() - 1] == x);
    }
    if exists|path: Seq<int>| #[trigger] is_chain(graph, u, path) && path[path.len() - 1] == x {
        let path = choose|path: Seq<int>| #[trigger]
            is_chain(graph, u, path) && path[path.len() - 1] == x;
        assert(graph.is_path(u, path) && path.len() > 1 && path.last() == x);
    }
}

/// What the build script of that number has printed. It is the first entry of the
/// number that counts.
pub open spec fn is_output_of(outputs: BuildScriptOutputs, number: u64, o: BuildOutput) -> bool {
    exists|i: int|
        #![trigger outputs.outputs@[i]]
        0 <= i < outputs.outputs@.len() && outputs.outputs@[i].0 == number && outputs.outputs@[i].1
            == o && forall|j: int| 0 <= j < i ==> (#[trigger] outputs.outputs@[j]).0 != number
}

/// One of the build scripts of the unit has printed the output.
pub open spec fn has_printed(outputs: BuildScriptOutputs, unit: Unit, o: BuildOutput) -> bool {
    unit.build_script_metadatas matches Some(numbers) && exists|h: int|
        0 <= h < numbers@.len() && is_output_of(outputs, #[trigger] numbers@[h], o)
}

/// The output names the directory under the key `include`.
pub open spec fn names_include(o: BuildOutput, dir: Text) -> bool {
    exists|m: int|
        0 <= m < o.metadata@.len() && (#[trigger] o.metadata@[m]).0@ == "include"@
            && o.metadata@[m].1@ == dir
}

/// A build script of the unit names the directory.
pub open spec fn declares_now(outputs: BuildScriptOutputs, unit: Unit, dir: Text) -> bool {
    exists|o: BuildOutput| #[trigger] has_printed(outputs, unit, o) && names_include(o, dir)
}

/// A build script of the unit named the directory in the build before.
pub open spec fn declared_before(unit: Unit, dir: Text) -> bool {
    exists|k: int|
        0 <= k < unit.previous_build_outputs@.len() && names_include(
            #[trigger] unit.previous_build_outputs@[k],
            dir,
        )
}

/// The directory is declared by the build scripts of the unit: now, or, where they name
/// none now, in the build before.
pub open spec fn declares(outputs: BuildScriptOutputs, unit: Unit, dir: Text) -> bool {
    ||| declares_now(outputs, unit, dir)
    ||| declared_before(unit, dir) && forall|d: Text| !#[trigger] declares_now(outputs, unit, d)
}

/// The directory is what the unit offers to those that depend on it: what its build
/// scripts declare, or, where they declare nothing, its include root if that is there.
pub open spec fn offers(outputs: BuildScriptOutputs, fs: FsView, unit: Unit, dir: Text) -> bool {
    ||| declares(outputs, unit, dir)
    ||| {
        &&& forall|d: Text| !#[trigger] declares(outputs, unit, d)
        &&& unit.target.native_include_root matches Some(root) && root@ == dir
        &&& fs.has_dir(dir)
    }
}

/// The directory is one of the unit's own: its include root or else the directory
/// `include` of the package if that is there, one that the manifest sets, or that of a
/// source.
pub open spec fn is_own(unit: Unit, sources: Seq<Text>, fs: FsView, dir: Text) -> bool {
    ||| match unit.target.native_include_root {
        Some(root) => dir == root@,
        None => is_under(dir, unit.package_root@, "include"@) && fs.has_dir(dir),
    }
    ||| exists|i: int|
        0 <= i < unit.target.native_include_dirs@.len() && (
        #[trigger] unit.target.native_include_dirs@[i])@ == dir
    ||| exists|i: int| 0 <= i < sources.len() && parent(#[trigger] sources[i]) == Some(dir)
}

/// The directory comes from somewhere.
pub open spec fn is_included(
    graph: UnitGraph,
    u: int,
    outputs: BuildScriptOutputs,
    fs: FsView,
    sources: Seq<Text>,
    dir: Text,
) -> bool {
    ||| is_own(graph.units@[u], sources, fs, dir)
    ||| declares(outputs, graph.units@[u], dir)
    ||| exists|x: int| #[trigger] graph.reaches(u, x) && offers(outputs, fs, graph.units@[x], dir)
}

proof fn lemma_find_output(list: Seq<(u64, BuildOutput)>, number: u64)
    ensures
        match find_output(list, number) {
            Some(o) => exists|i: int|
                #![trigger list[i]]
                0 <= i < list.len() && list[i].0 == number && list[i].1 == o && forall|j: int|
                    0 <= j < i ==> (#[trigger] list[j]).0 != number,
            None => forall|i: int| 0 <= i < list.len() ==> (#[trigger] list[i]).0 != number,
        },
    decreases list.len(),
{
    if list.len() > 0 && list[0].0 != number {
        let rest = list.skip(1);
        lemma_find_output(rest, number);
        match find_output(rest, number) {
            Some(o) => {
                let i = choose|i: int|
                    #![trigger rest[i]]
                    0 <= i < rest.len() && rest[i].0 == number && rest[i].1 == o && forall|j: int|
                        0 <= j < i ==> (#[trigger] rest[j]).0 != number;
                assert(list[i + 1] == rest[i]);
                assert forall|j: int| 0 <= j < i + 1 implies (#[trigger] list[j]).0 != number by {
                    if j > 0 {
                        assert(rest[j - 1] == list[j]);
                    }
                }
            },
            None => {
                assert forall|i: int| 0 <= i < list.len() implies (#[trigger] list[i]).0
                    != number by {
                    if i > 0 {
                        assert(rest[i - 1] == list[i]);
                    }
                }
            },
        }
    } else if list.len() > 0 {
        assert(list[0].1 == find_output(list, number)->0);
    }
}

/// The output of a build script is found under its number.
pub proof fn lemma_output_found(outputs: BuildScriptOutputs, number: u64, o: BuildOutput)
    ensures
        outputs.output_of(number) == Some(o) <==> is_output_of(outputs, number, o),
{
    let list = outputs.outputs@;
    lemma_find_output(list, number);
    if is_output_of(outputs, number, o) {
        let i = choose|i: int|
            #![trigger list[i]]
            0 <= i < list.len() && list[i].0 == number && list[i].1 == o && forall|j: int|
                0 <= j < i ==> (#[trigger] list[j]).0 != number;
        match find_output(list, number) {
            Some(p) => {
                let k = choose|k: int|
                    #![trigger list[k]]
                    0 <= k < list.len() && list[k].0 == number && list[k].1 == p && forall|j: int|
                        0 <= j < k ==> (#[trigger] list[j]).0 != number;
                assert(i == k);
            },
            None => {},
        }
    }
}

proof fn lemma_outputs_of(outputs: BuildScriptOutputs, numbers: Seq<u64>, o: BuildOutput)
    ensures
        outputs.outputs_of(numbers).contains(o) <==> exists|h: int|
            0 <= h < numbers.len() && is_output_of(outputs, #[trigger] numbers[h], o),
    decreases numbers.len(),
{
    if numbers.len() > 0 {
        let front = numbers.drop_last();
        let before = outputs.outputs_of(front);
        let all = outputs.outputs_of(numbers);
        lemma_outputs_of(outputs, front, o);
        lemma_output_found(outputs, numbers.last(), o);
        assert(numbers.last() == numbers[numbers.len() - 1]);
        if all.contains(o) {
            let k = choose|k: int| 0 <= k < all.len() && all[k] == o;
            if k < before.len() {
                assert(before[k] == o);
                let h = choose|h: int|
                    0 <= h < front.len() && is_output_of(outputs, #[trigger] front[h], o);
                assert(numbers[h] == front[h]);
            }
        }
        if exists|h: int| 0 <= h < numbers.len() && is_output_of(outputs, #[trigger] numbers[h], o) {
            let h = choose|h: int|
                0 <= h < numbers.len() && is_output_of(outputs, #[trigger] numbers[h], o);
            if h < front.len() {
                assert(front[h] == numbers[h]);
                let k = choose|k: int| 0 <= k < before.len() && before[k] == o;
                assert(all[k] == o);
            } else {
                assert(all[all.len() - 1] == o);
            }
        }
    }
}

/// What is known of the build scripts of a unit is what they have printed.
pub proof fn lemma_known_outputs(outputs: BuildScriptOutputs, unit: Unit, o: BuildOutput)
    ensures
        outputs.known_outputs(unit.build_script_metadatas).contains(o) <==> has_printed(
            outputs,
            unit,
            o,
        ),
{
    if let Some(numbers) = unit.build_script_metadatas {
        lemma_outputs_of(outputs, numbers@, o);
    }
}

proof fn lemma_includes_in(metadata: Seq<(String, String)>, dir: Text)
    ensures
        includes_in(metadata).contains(dir) <==> exists|m: int|
            0 <= m < metadata.len() && (#[trigger] metadata[m]).0@ == "include"@ && metadata[m].1@
                == dir,
    decreases metadata.len(),
{
    if metadata.len() > 0 {
        let front = metadata.drop_last();
        let before = includes_in(front);
        let all = includes_in(metadata);
        lemma_includes_in(front, dir);
        assert(metadata.last() == metadata[metadata.len() - 1]);
        if all.contains(dir) {
            let k = choose|k: int| 0 <= k < all.len() && all[k] == dir;
            if k < before.len() {
                assert(before[k] == dir);
                let m = choose|m: int|
                    0 <= m < front.len() && (#[trigger] front[m]).0@ == "include"@ && front[m].1@
                        == dir;
                assert(metadata[m] == front[m]);
            }
        }
        if exists|m: int|
            0 <= m < metadata.len() && (#[trigger] metadata[m]).0@ == "include"@ && metadata[m].1@
                == dir {
            let m = choose|m: int|
                0 <= m < metadata.len() && (#[trigger] metadata[m]).0@ == "include"@
                    && metadata[m].1@ == dir;
            if m < front.len() {
                assert(front[m] == metadata[m]);
                let k = choose|k: int| 0 <= k < before.len() && before[k] == dir;
                assert(all[k] == dir);
            } else {
                assert(all[all.len() - 1] == dir);
            }
        }
    }
}

proof fn lemma_includes_of(list: Seq<BuildOutput>, dir: Text)
    ensures
        includes_of(list).contains(dir) <==> exists|k: int|
            0 <= k < list.len() && names_include(#[trigger] list[k], dir),
    decreases list.len(),
{
    if list.len() > 0 {
        let front = list.drop_last();
        let last = list.last();
        let before = includes_of(front);
        let more = includes_in(last.metadata@);
        let all = includes_of(list);
        lemma_includes_of(front, dir);
        lemma_includes_in(last.metadata@, dir);
        assert(last == list[list.len() - 1]);
        if all.contains(dir) {
            let k = choose|k: int| 0 <= k < all.len() && all[k] == dir;
            if k < before.len() {
                assert(before[k] == dir);
                let h = choose|h: int| 0 <= h < front.len() && names_include(#[trigger] front[h], dir);
                assert(list[h] == front[h]);
            } else {
                assert(more[k - before.len()] == dir);
                assert(names_include(last, dir));
            }
        }
        if exists|k: int| 0 <= k < list.len() && names_include(#[trigger] list[k], dir) {
            let h = choose|h: int| 0 <= h < list.len() && names_include(#[trigger] list[h], dir);
            if h < front.len() {
                assert(front[h] == list[h]);
                let k = choose|k: int| 0 <= k < before.len() && before[k] == dir;
                assert(all[k] == dir);
            } else {
                let k = choose|k: int| 0 <= k < more.len() && more[k] == dir;
                assert(all[before.len() + k] == dir);
            }
        }
    }
}

/// The directories that the build scripts of a unit declare are in a list, and the list
/// holds no others.
proof fn lemma_declared(outputs: BuildScriptOutputs, unit: Unit, dir: Text)
    ensures
        ({
            let list = declared_includes(
                outputs,
                unit.build_script_metadatas,
                unit.previous_build_outputs@,
            );
            &&& declares(outputs, unit, dir) ==> holds_path(list, dir)
            &&& list.contains(dir) ==> declares(outputs, unit, dir)
            &&& list.len() == 0 <==> forall|d: Text| !#[trigger] declares(outputs, unit, d)
        }),
{
    let known = outputs.known_outputs(unit.build_script_metadatas);
    let previous = unit.previous_build_outputs@;
    let now = includes_of(known);
    let before = includes_of(previous);
    let raw = first_filled(now, before);
    let list = declared_includes(
        outputs,
        unit.build_script_metadatas,
        unit.previous_build_outputs@,
    );
    lemma_sorted_paths(raw);
    assert forall|d: Text| now.contains(d) <==> #[trigger] declares_now(outputs, unit, d) by {
        lemma_includes_of(known, d);
        if now.contains(d) {
            let k = choose|k: int| 0 <= k < known.len() && names_include(#[trigger] known[k], d);
            assert(known.contains(known[k]));
            lemma_known_outputs(outputs, unit, known[k]);
        }
        if declares_now(outputs, unit, d) {
            let o = choose|o: BuildOutput| #[trigger]
                has_printed(outputs, unit, o) && names_include(o, d);
            lemma_known_outputs(outputs, unit, o);
            let k = choose|k: int| 0 <= k < known.len() && known[k] == o;
            assert(names_include(known[k], d));
        }
    }
    if now.len() > 0 {
        assert(now.contains(now[0]));
        assert(declares_now(outputs, unit, now[0]));
    } else {
        assert forall|d: Text| !#[trigger] declares_now(outputs, unit, d) by {
            if now.contains(d) {
            }
        }
    }
    assert forall|d: Text| raw.contains(d) <==> #[trigger] declares(outputs, unit, d) by {
        lemma_includes_of(previous, d);
        assert(now.contains(d) <==> declares_now(outputs, unit, d));
    }
    assert(raw.contains(dir) <==> declares(outputs, unit, dir));
    if raw.contains(dir) {
        let k = choose|k: int| 0 <= k < raw.len() && raw[k] == dir;
        assert(holds_path(list, raw[k]));
    }
    if list.contains(dir) {
        let k = choose|k: int| 0 <= k < list.len() && list[k] == dir;
        assert(raw.contains(list[k]));
    }
    if list.len() > 0 {
        assert(raw.contains(list[0]));
        assert(declares(outputs, unit, list[0]));
    } else {
        assert forall|d: Text| !#[trigger] declares(outputs, unit, d) by {
            if raw.contains(d) {
                let k = choose|k: int| 0 <= k < raw.len() && raw[k] == d;
                assert(holds_path(list, raw[k]));
            }
        }
    }
}

/// What a unit offers is in what its descriptor holds, and that holds no more.
proof fn lemma_offered(outputs: BuildScriptOutputs, fs: FsView, unit: Unit, d: DescriptorView, dir: Text)
    requires
        descriptor_of(unit) == Ok::<DescriptorView, Text>(d),
    ensures
        offers(outputs, fs, unit, dir) ==> holds_path(descriptor_includes(outputs, fs, d), dir),
        descriptor_includes(outputs, fs, d).contains(dir) ==> offers(outputs, fs, unit, dir),
{
    lemma_declared(outputs, unit, dir);
    let list = descriptor_includes(outputs, fs, d);
    if list.len() == 1 {
        assert(list[0] == list[0]);
        if offers(outputs, fs, unit, dir) && !declares(outputs, unit, dir) {
            assert(list[0] == dir);
            assert(same_path(list[0], dir));
        }
    }
}

proof fn lemma_with_paths_from(list: Seq<Text>, paths: Seq<Text>, path: Text)
    requires
        with_paths(list, paths).contains(path),
    ensures
        list.contains(path) || paths.contains(path),
    decreases paths.len(),
{
    let all = with_paths(list, paths);
    if paths.len() > 0 {
        let front = paths.drop_last();
        let before = with_paths(list, front);
        let k = choose|k: int| 0 <= k < all.len() && all[k] == path;
        if k < before.len() {
            assert(before[k] == path);
            lemma_with_paths_from(list, front, path);
            if front.contains(path) {
                let i = choose|i: int| 0 <= i < front.len() && front[i] == path;
                assert(paths[i] == path);
            }
        } else {
            assert(paths[paths.len() - 1] == path);
        }
    }
}

proof fn lemma_dependency_includes_from(
    outputs: BuildScriptOutputs,
    fs: FsView,
    list: Seq<DescriptorView>,
    dir: Text,
)
    requires
        dependency_includes(outputs, fs, list).contains(dir),
    ensures
        exists|i: int|
            0 <= i < list.len() && descriptor_includes(outputs, fs, #[trigger] list[i]).contains(
                dir,
            ),
    decreases list.len(),
{
    if list.len() > 0 {
        let front = list.drop_last();
        let before = dependency_includes(outputs, fs, front);
        let more = descriptor_includes(outputs, fs, list.last());
        lemma_with_paths_from(before, more, dir);
        if more.contains(dir) {
            assert(descriptor_includes(outputs, fs, list[list.len() - 1]).contains(dir));
        } else {
            lemma_dependency_includes_from(outputs, fs, front, dir);
            let i = choose|i: int|
                0 <= i < front.len() && descriptor_includes(
                    outputs,
                    fs,
                    #[trigger] front[i],
                ).contains(dir);
            assert(list[i] == front[i]);
        }
    } else {
        assert(false);
    }
}

proof fn lemma_source_dirs(sources: Seq<Text>, dir: Text)
    ensures
        source_dirs(sources).contains(dir) <==> exists|i: int|
            0 <= i < sources.len() && parent(#[trigger] sources[i]) == Some(dir),
    decreases sources.len(),
{
    if sources.len() > 0 {
        let front = sources.drop_last();
        let before = source_dirs(front);
        let all = source_dirs(sources);
        lemma_source_dirs(front, dir);
        assert(sources.last() == sources[sources.len() - 1]);
        if all.contains(dir) {
            let k = choose|k: int| 0 <= k < all.len() && all[k] == dir;
            if k < before.len() {
                assert(before[k] == dir);
                let i = choose|i: int|
                    0 <= i < front.len() && parent(#[trigger] front[i]) == Some(dir);
                assert(sources[i] == front[i]);
            }
        }
        if exists|i: int| 0 <= i < sources.len() && parent(#[trigger] sources[i]) == Some(dir) {
            let i = choose|i: int|
                0 <= i < sources.len() && parent(#[trigger] sources[i]) == Some(dir);
            if i < front.len() {
                assert(front[i] == sources[i]);
                let k = choose|k: int| 0 <= k < before.len() && before[k] == dir;
                assert(all[k] == dir);
            } else {
                assert(all[all.len() - 1] == dir);
            }
        }
    }
}

proof fn lemma_own(unit: Unit, sources: Seq<Text>, fs: FsView, dir: Text)
    ensures
        is_own(unit, sources, fs, dir) <==> {
            ||| own_include_dir(
                unit.package_root@,
                fs,
                opt_text(unit.target.native_include_root),
            ).contains(dir)
            ||| texts(unit.target.native_include_dirs@).contains(dir)
            ||| source_dirs(sources).contains(dir)
        },
{
    lemma_source_dirs(sources, dir);
    let set = unit.target.native_include_dirs@;
    let named = texts(set);
    assert(named.len() == set.len());
    if named.contains(dir) {
        let k = choose|k: int| 0 <= k < named.len() && named[k] == dir;
        assert(set[k]@ == dir);
    }
    if exists|i: int| 0 <= i < set.len() && (#[trigger] set[i])@ == dir {
        let i = choose|i: int| 0 <= i < set.len() && (#[trigger] set[i])@ == dir;
        assert(named[i] == dir);
    }
    let root = unit.package_root@;
    let at = joined(root, "include"@);
    reveal_strlit("include");
    if root.len() > 0 {
        assert(root.last() == root[root.len() - 1]);
        assert(root.push('/') =~= root + seq!['/']);
    }
    assert(is_under(at, root, "include"@));
    let own = own_include_dir(root, fs, opt_text(unit.target.native_include_root));
    if own.len() > 0 {
        assert(own[0] == own[0]);
        assert(own.contains(own[0]));
    }
}

/// A unit is compiled with each include directory that is its own, that its build
/// scripts declare or that a unit offers which it reaches, and with no others.
pub proof fn lemma_include_dirs(
    ctx: BuildContext,
    graph: UnitGraph,
    u: int,
    work: WorkView,
    outputs: BuildScriptOutputs,
    fs: FsView,
    dir: Text,
)
    requires
        graph.wf(),
        0 <= u < graph.size(),
        work_of(ctx, graph, u) == Ok::<Option<WorkView>, Text>(Some(work)),
    ensures
        is_included(graph, u, outputs, fs, work.sources, dir) ==> holds_path(
            work.include_dirs(outputs, fs),
            dir,
        ),
        work.include_dirs(outputs, fs).contains(dir) ==> is_included(
            graph,
            u,
            outputs,
            fs,
            work.sources,
            dir,
        ),
{
    let unit = graph.units@[u];
    let units = graph.native_dependencies(u);
    let list = work.dependency_descriptors;
    graph.lemma_native_dependencies(u);
    lemma_descriptors(graph, units);
    lemma_own(unit, work.sources, fs, dir);
    lemma_declared(outputs, unit, dir);
    let s0 = declared_includes(
        outputs,
        unit.build_script_metadatas,
        unit.previous_build_outputs@,
    );
    let s1 = own_include_dir(
        unit.package_root@,
        fs,
        opt_text(unit.target.native_include_root),
    );
    let s2 = texts(unit.target.native_include_dirs@);
    let s3 = source_dirs(work.sources);
    let s4 = dependency_includes(outputs, fs, list);
    let none = Seq::<Text>::empty();
    let all = s0 + s1 + s2 + s3 + s4;
    assert(all =~= s0 + s1 + s2 + s3 + s4 + none + none);
    crate::flagged::lemma_seven(s0, s1, s2, s3, s4, none, none);
    lemma_sorted_paths(all);
    let sorted = work.include_dirs(outputs, fs);
    if is_included(graph, u, outputs, fs, work.sources, dir) {
        if is_own(unit, work.sources, fs, dir) {
            assert(all.contains(dir));
            lemma_sorted_holds(all, sorted, dir);
        } else if declares(outputs, unit, dir) {
            let k = choose|k: int| 0 <= k < s0.len() && same_path(#[trigger] s0[k], dir);
            assert(s0.contains(s0[k]));
            assert(all.contains(s0[k]));
            lemma_sorted_holds(all, sorted, s0[k]);
            let n = choose|n: int| 0 <= n < sorted.len() && same_path(#[trigger] sorted[n], s0[k]);
            assert(same_path(sorted[n], dir));
        } else {
            let x = choose|x: int| #[trigger]
                graph.reaches(u, x) && offers(outputs, fs, graph.units@[x], dir);
            assert(units.contains(x));
            let i = choose|i: int| 0 <= i < units.len() && units[i] == x;
            lemma_offered(outputs, fs, graph.units@[x], list[i], dir);
            let given = descriptor_includes(outputs, fs, list[i]);
            let k = choose|k: int| 0 <= k < given.len() && same_path(#[trigger] given[k], dir);
            assert(given.contains(given[k]));
            lemma_includes_propagate(ctx, graph, u, x, work, outputs, fs, given[k]);
            let n = choose|n: int|
                0 <= n < sorted.len() && same_path(#[trigger] sorted[n], given[k]);
            assert(same_path(sorted[n], dir));
        }
    }
    if sorted.contains(dir) {
        let n = choose|n: int| 0 <= n < sorted.len() && sorted[n] == dir;
        assert(all.contains(sorted[n]));
        if s4.contains(dir) {
            lemma_dependency_includes_from(outputs, fs, list, dir);
            let i = choose|i: int|
                0 <= i < list.len() && descriptor_includes(outputs, fs, #[trigger] list[i]).contains(
                    dir,
                );
            let x = units[i];
            assert(units.contains(x));
            assert(graph.reaches(u, x));
            lemma_offered(outputs, fs, graph.units@[x], list[i], dir);
        }
    }
}

proof fn lemma_sorted_holds(all: Seq<Text>, sorted: Seq<Text>, dir: Text)
    requires
        forall|k: int| 0 <= k < all.len() ==> holds_path(sorted, #[trigger] all[k]),
        all.contains(dir),
    ensures
        holds_path(sorted, dir),
{
    let k = choose|k: int| 0 <= k < all.len() && all[k] == dir;
    assert(holds_path(sorted, all[k]));
}

/// The library that a unit gives to those that depend on it is what it builds: the first
/// of its files that is one to use.
pub proof fn lemma_library_given(unit: Unit, path: Text)
    ensures
        gives_library(unit, path) <==> (unit.outputs matches Ok(files) && primary_output(files@)
            matches Some(library) && same_path(library, path)),
{
}

} // verus!
