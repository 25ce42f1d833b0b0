//! What reaches a native target from its dependencies, and what does not.
use vstd::prelude::*;

use crate::fs::FsView;
use crate::layout::{own_include_dir, source_dirs};
use crate::link::dependency_libraries;
use crate::outputs::{declared_includes, dependency_includes, descriptor_includes, with_paths};
use crate::outputs::{BuildScriptOutputs, DescriptorView};
use crate::path::{holds_path, lemma_sorted_paths, same_path};
use crate::plan::{work_of, BuildContext, WorkView};
use crate::text::{opt_text, texts, Text};
use crate::units::{descriptor_of, descriptors_of, Unit, UnitGraph};

verus! {

/// There is one descriptor for each of the units, in their order.
pub proof fn lemma_descriptors(graph: UnitGraph, units: Seq<int>)
    requires
        descriptors_of(graph, units) is Ok,
    ensures
        ({
            let list = descriptors_of(graph, units)->Ok_0;
            &&& list.len() == units.len()
            &&& forall|i: int|
                0 <= i < units.len() ==> descriptor_of(graph.units@[#[trigger] units[i]]) == Ok::<
                    DescriptorView,
                    Text,
                >(list[i])
        }),
    decreases units.len(),
{
    if units.len() > 0 {
        let front = units.drop_last();
        lemma_descriptors(graph, front);
        let list = descriptors_of(graph, units)->Ok_0;
        let before = descriptors_of(graph, front)->Ok_0;
        assert forall|i: int| 0 <= i < units.len() implies descriptor_of(
            graph.units@[#[trigger] units[i]],
        ) == Ok::<DescriptorView, Text>(list[i]) by {
            if i < front.len() {
                assert(front[i] == units[i]);
                assert(list[i] == before[i]);
            }
        }
    }
}

proof fn lemma_with_paths_hold(list: Seq<Text>, paths: Seq<Text>, path: Text)
    ensures
        holds_path(list, path) ==> holds_path(with_paths(list, paths), path),
        paths.contains(path) ==> holds_path(with_paths(list, paths), path),
    decreases paths.len(),
{
    if paths.len() > 0 {
        let front = paths.drop_last();
        let before = with_paths(list, front);
        let all = with_paths(list, paths);
        lemma_with_paths_hold(list, front, path);
        if holds_path(before, path) {
            let i = choose|i: int| 0 <= i < before.len() && same_path(#[trigger] before[i], path);
            assert(all[i] == before[i]);
        }
        if paths.contains(path) {
            let i = choose|i: int| 0 <= i < paths.len() && paths[i] == path;
            if i < front.len() {
                assert(front[i] == path);
            } else if !holds_path(before, path) {
                assert(all.last() == path);
                assert(same_path(all[all.len() - 1], path));
            }
        }
    }
}

proof fn lemma_includes_hold(
    outputs: BuildScriptOutputs,
    fs: FsView,
    list: Seq<DescriptorView>,
    i: int,
    dir: Text,
)
    requires
        0 <= i < list.len(),
        descriptor_includes(outputs, fs, list[i]).contains(dir),
    ensures
        holds_path(dependency_includes(outputs, fs, list), dir),
    decreases list.len(),
{
    let front = list.drop_last();
    if i < front.len() {
        assert(front[i] == list[i]);
        lemma_includes_hold(outputs, fs, front, i, dir);
    }
    lemma_with_paths_hold(
        dependency_includes(outputs, fs, front),
        descriptor_includes(outputs, fs, list.last()),
        dir,
    );
}

/// What a dependency gives is a library that stands at the path.
pub open spec fn is_library_at(d: DescriptorView, path: Text) -> bool {
    d.output_path matches Some(library) && same_path(library, path)
}

proof fn lemma_libraries(list: Seq<DescriptorView>, path: Text)
    ensures
        holds_path(dependency_libraries(list), path) <==> exists|i: int|
            0 <= i < list.len() && is_library_at(#[trigger] list[i], path),
    decreases list.len(),
{
    if list.len() > 0 {
        let front = list.drop_last();
        let before = dependency_libraries(front);
        let all = dependency_libraries(list);
        let last = list.last();
        lemma_libraries(front, path);
        assert(last == list[list.len() - 1]);
        if holds_path(before, path) {
            let i = choose|i: int| 0 <= i < front.len() && is_library_at(#[trigger] front[i], path);
            assert(is_library_at(list[i], path));
            let k = choose|k: int| 0 <= k < before.len() && same_path(#[trigger] before[k], path);
            assert(all[k] == before[k]);
        }
        if is_library_at(last, path) {
            let library = last.output_path->0;
            if holds_path(before, library) {
                let k = choose|k: int|
                    0 <= k < before.len() && same_path(#[trigger] before[k], library);
                assert(same_path(all[k], path));
            } else {
                assert(same_path(all[all.len() - 1], path));
            }
        }
        if holds_path(all, path) {
            let k = choose|k: int| 0 <= k < all.len() && same_path(#[trigger] all[k], path);
            if k < before.len() {
                assert(same_path(before[k], path));
            } else {
                assert(is_library_at(last, path));
            }
        }
        if exists|i: int| 0 <= i < list.len() && is_library_at(#[trigger] list[i], path) {
            let i = choose|i: int| 0 <= i < list.len() && is_library_at(#[trigger] list[i], path);
            if i < front.len() {
                assert(is_library_at(front[i], path));
            }
        }
    }
}

/// The include directories that a dependency gives are those that a unit is compiled
/// with, however many dependencies lie between the two.
pub proof fn lemma_includes_propagate(
    ctx: BuildContext,
    graph: UnitGraph,
    u: int,
    x: int,
    work: WorkView,
    outputs: BuildScriptOutputs,
    fs: FsView,
    dir: Text,
)
    requires
        graph.wf(),
        0 <= u < graph.size(),
        work_of(ctx, graph, u) == Ok::<Option<WorkView>, Text>(Some(work)),
        graph.reaches(u, x),
        descriptor_of(graph.units@[x]) matches Ok(d) && descriptor_includes(
            outputs,
            fs,
            d,
        ).contains(dir),
    ensures
        holds_path(work.include_dirs(outputs, fs), dir),
{
    let units = graph.native_dependencies(u);
    let list = work.dependency_descriptors;
    graph.lemma_native_dependencies(u);
    assert(units.contains(x));
    let i = choose|i: int| 0 <= i < units.len() && units[i] == x;
    lemma_descriptors(graph, units);
    lemma_includes_hold(outputs, fs, list, i, dir);
    let dirs = dependency_includes(outputs, fs, list);
    let lead = declared_includes(
        outputs,
        work.unit.build_script_metadatas,
        work.unit.previous_build_outputs@,
    ) + own_include_dir(
        work.unit.package_root@,
        fs,
        opt_text(work.unit.target.native_include_root),
    ) + texts(work.unit.target.native_include_dirs@) + source_dirs(work.sources);
    let all = lead + dirs;
    let a = choose|a: int| 0 <= a < dirs.len() && same_path(#[trigger] dirs[a], dir);
    assert(all[lead.len() + a] == dirs[a]);
    lemma_sorted_paths(all);
    let sorted = work.include_dirs(outputs, fs);
    assert(holds_path(sorted, all[lead.len() + a]));
    let b = choose|b: int| 0 <= b < sorted.len() && same_path(#[trigger] sorted[b], dirs[a]);
    assert(same_path(sorted[b], dir));
}

/// The libraries that a unit is linked with are those of the units that are reached
/// from it, and no others.
pub proof fn lemma_libraries_propagate(
    ctx: BuildContext,
    graph: UnitGraph,
    u: int,
    work: WorkView,
    outputs: BuildScriptOutputs,
    path: Text,
)
    requires
        graph.wf(),
        0 <= u < graph.size(),
        work_of(ctx, graph, u) == Ok::<Option<WorkView>, Text>(Some(work)),
    ensures
        holds_path(work.link_inputs(outputs).dependency_libraries, path) <==> exists|x: int|
            #[trigger] graph.reaches(u, x) && gives_library(graph.units@[x], path),
{
    let units = graph.native_dependencies(u);
    let list = work.dependency_descriptors;
    graph.lemma_native_dependencies(u);
    lemma_descriptors(graph, units);
    lemma_libraries(list, path);
    if holds_path(work.link_inputs(outputs).dependency_libraries, path) {
        let i = choose|i: int| 0 <= i < list.len() && is_library_at(#[trigger] list[i], path);
        assert(units.contains(units[i]));
        assert(gives_library(graph.units@[units[i]], path));
    }
    if exists|x: int| #[trigger] graph.reaches(u, x) && gives_library(graph.units@[x], path) {
        let x = choose|x: int| #[trigger]
            graph.reaches(u, x) && gives_library(graph.units@[x], path);
        assert(units.contains(x));
        let i = choose|i: int| 0 <= i < units.len() && units[i] == x;
        assert(is_library_at(list[i], path));
    }
}

/// What a unit gives to those that depend on it is a library that stands at the path.
pub open spec fn gives_library(unit: Unit, path: Text) -> bool {
    descriptor_of(unit) matches Ok(d) && is_library_at(d, path)
}

/// Two units show the same to those that depend on them: neither macros nor include
/// directories of the manifest, nor what it sets for the linker, are among that.
pub open spec fn seen_alike(a: Unit, b: Unit) -> bool {
    &&& a.mode == b.mode
    &&& a.deps@ == b.deps@
    &&& a.outputs == b.outputs
    &&& a.build_script_metadatas == b.build_script_metadatas
    &&& a.previous_build_outputs == b.previous_build_outputs
    &&& a.target.is_native == b.target.is_native
    &&& a.target.is_linkable == b.target.is_linkable
    &&& a.target.is_header_only == b.target.is_header_only
    &&& a.target.native_include_root == b.target.native_include_root
}

/// Two graphs of which the units are seen alike.
pub open spec fn graphs_alike(a: UnitGraph, b: UnitGraph) -> bool {
    &&& a.units@.len() == b.units@.len()
    &&& forall|x: int|
        0 <= x < a.units@.len() ==> seen_alike(#[trigger] a.units@[x], b.units@[x])
}

proof fn lemma_visit_alike(
    a: UnitGraph,
    b: UnitGraph,
    depth: nat,
    u: int,
    k: int,
    units: Seq<int>,
)
    requires
        a.wf(),
        graphs_alike(a, b),
        0 <= u < a.size(),
        0 <= k,
    ensures
        a.visit(depth, u, k, units) == b.visit(depth, u, k, units),
    decreases depth, a.units@[u].deps@.len() - k,
{
    assert(seen_alike(a.units@[u], b.units@[u]));
    if k < a.units@[u].deps@.len() {
        let d = a.dep(u, k);
        assert(a.units@[u].deps@[k] < a.units@.len());
        assert(b.dep(u, k) == d);
        assert(seen_alike(a.units@[d], b.units@[d]));
        assert(a.gives(d) == b.gives(d));
        let next = if a.gives(d) && !units.contains(d) && depth > 0 {
            lemma_visit_alike(a, b, (depth - 1) as nat, d, 0, units.push(d));
            a.visit((depth - 1) as nat, d, 0, units.push(d))
        } else {
            units
        };
        lemma_visit_alike(a, b, depth, u, k + 1, next);
    }
}

proof fn lemma_descriptors_alike(a: UnitGraph, b: UnitGraph, units: Seq<int>)
    requires
        graphs_alike(a, b),
        forall|i: int| 0 <= i < units.len() ==> 0 <= #[trigger] units[i] < a.size(),
    ensures
        descriptors_of(a, units) == descriptors_of(b, units),
    decreases units.len(),
{
    if units.len() > 0 {
        let front = units.drop_last();
        assert forall|i: int| 0 <= i < front.len() implies 0 <= #[trigger] front[i] < a.size() by {
            assert(front[i] == units[i]);
        }
        lemma_descriptors_alike(a, b, front);
        assert(units.last() == units[units.len() - 1]);
        assert(seen_alike(a.units@[units.last()], b.units@[units.last()]));
    }
}

/// What the manifest of a dependency sets for its own compiling and linking does not
/// reach those that depend on it: their work stays the same.
pub proof fn lemma_settings_are_local(ctx: BuildContext, a: UnitGraph, b: UnitGraph, u: int)
    requires
        a.wf(),
        graphs_alike(a, b),
        0 <= u < a.size(),
        a.units@[u] == b.units@[u],
    ensures
        work_of(ctx, a, u) == work_of(ctx, b, u),
{
    let units = a.native_dependencies(u);
    lemma_visit_alike(a, b, a.size(), u, 0, Seq::empty());
    a.lemma_native_dependencies(u);
    lemma_descriptors_alike(a, b, units);
}

/// For a library of headers nothing is compiled or linked.
pub proof fn lemma_header_only(ctx: BuildContext, graph: UnitGraph, u: int)
    requires
        graph.units@[u].target.is_header_only,
    ensures
        work_of(ctx, graph, u) == Ok::<Option<WorkView>, Text>(None),
{
}

} // verus!
