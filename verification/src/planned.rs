//! When a native target can be built, of which sources, and in what order.
use vstd::prelude::*;

use crate::compiled::{lemma_steps, succeeds};
use crate::database::{graph_candidates, graph_database, is_compiled, unit_candidates};
use crate::env::EnvVars;
use crate::flagged::{lemma_config_options, table_flags};
use crate::fs::FsView;
use crate::layout::{companions, WalkEntry, WalkKind};
use crate::native::{is_native_source, language_of};
use crate::outputs::BuildScriptOutputs;
use crate::path::{holds_path, lemma_sorted_paths, parent, same_path, sorted_paths};
use crate::plan::{dir_step, file_dir_steps, files_of, native_lead, object_dir_steps, work_of};
use crate::plan::{BuildContext, StepView, WorkView};
use crate::text::{opt_text, Text};
use crate::units::{descriptors_of, primary_output, FileFlavor, OutputFile, Unit};
use crate::units::UnitGraph;

verus! {

/// What is below the directory of sources is known, if the unit has one.
pub open spec fn can_gather(unit: Unit, fs: FsView) -> bool {
    unit.target.native_sources_root matches Some(root) ==> {
        &&& fs.has_dir(root@)
        &&& forall|i: int|
            0 <= i < unit.target.native_sources_walk@.len() ==> (
            #[trigger] unit.target.native_sources_walk@[i]).kind != WalkKind::Failed
    }
}

/// The files of each unit that is reached are known.
pub open spec fn knows_files(graph: UnitGraph, u: int) -> bool {
    forall|x: int| #[trigger] graph.reaches(u, x) ==> graph.units@[x].outputs is Ok
}

proof fn lemma_descriptors_ok(graph: UnitGraph, units: Seq<int>)
    ensures
        descriptors_of(graph, units) is Ok <==> forall|i: int|
            0 <= i < units.len() ==> graph.units@[#[trigger] units[i]].outputs is Ok,
    decreases units.len(),
{
    if units.len() > 0 {
        let front = units.drop_last();
        lemma_descriptors_ok(graph, front);
        assert(units.last() == units[units.len() - 1]);
        if descriptors_of(graph, units) is Ok {
            assert forall|i: int| 0 <= i < units.len() implies graph.units@[
                #[trigger] units[i]
            ].outputs is Ok by {
                if i < front.len() {
                    assert(front[i] == units[i]);
                }
            }
        }
        if forall|i: int|
            0 <= i < units.len() ==> graph.units@[#[trigger] units[i]].outputs is Ok {
            assert forall|i: int| 0 <= i < front.len() implies graph.units@[
                #[trigger] front[i]
            ].outputs is Ok by {
                assert(front[i] == units[i]);
            }
        }
    }
}

/// There is work on a unit, unless it consists of headers, exactly where its tools, its
/// files and those of the units it reaches, its source, all of its sources and its
/// configuration are known. The work is that on the unit, with the tools and the options
/// of what it is built for.
pub proof fn lemma_work_told(ctx: BuildContext, graph: UnitGraph, u: int)
    requires
        graph.wf(),
        0 <= u < graph.size(),
        !graph.units@[u].target.is_header_only,
    ensures
        ({
            let unit = graph.units@[u];
            let kind = ctx.kinds@[unit.kind as int];
            match work_of(ctx, graph, u) {
                Ok(Some(work)) => {
                    &&& work.unit == unit
                    &&& work.kind == kind
                    &&& ctx.toolchain(kind) == Ok::<_, Text>(work.toolchain)
                    &&& kind.config.build matches Ok(build) && kind.config.target matches Ok(target)
                        && {
                        &&& work.cpp_config_args == table_flags(build.native_cppflags)
                            + table_flags(target.native_cppflags)
                        &&& work.c_config_args == table_flags(build.native_cflags) + table_flags(
                            target.native_cflags,
                        )
                        &&& work.cxx_config_args == table_flags(build.native_cxxflags)
                            + table_flags(target.native_cxxflags)
                        &&& work.link_config_args == table_flags(build.native_ldflags)
                            + table_flags(target.native_ldflags)
                    }
                },
                Ok(None) => false,
                Err(_) => true,
            }
        }),
        work_of(ctx, graph, u) is Ok <==> {
            let unit = graph.units@[u];
            let kind = ctx.kinds@[unit.kind as int];
            &&& ctx.toolchain(kind) is Ok
            &&& unit.outputs is Ok
            &&& knows_files(graph, u)
            &&& unit.target.source is Some
            &&& can_gather(unit, ctx.fs)
            &&& kind.config.build is Ok
            &&& kind.config.target is Ok
        },
{
    let unit = graph.units@[u];
    let kind = ctx.kinds@[unit.kind as int];
    lemma_config_options(kind.config);
    let units = graph.native_dependencies(u);
    graph.lemma_native_dependencies(u);
    lemma_descriptors_ok(graph, units);
    if knows_files(graph, u) {
        assert forall|i: int| 0 <= i < units.len() implies graph.units@[
            #[trigger] units[i]
        ].outputs is Ok by {
            assert(units.contains(units[i]));
            assert(graph.reaches(u, units[i]));
        }
    }
    if descriptors_of(graph, units) is Ok {
        assert forall|x: int| #[trigger] graph.reaches(u, x) implies graph.units@[x].outputs
            is Ok by {
            assert(units.contains(x));
            let i = choose|i: int| 0 <= i < units.len() && units[i] == x;
            assert(graph.units@[units[i]].outputs is Ok);
        }
    }
}

proof fn lemma_companions(source: Text, walk: Seq<WalkEntry>, path: Text)
    ensures
        companions(source, walk).contains(path) <==> exists|i: int|
            0 <= i < walk.len() && (#[trigger] walk[i]).kind == WalkKind::File && walk[i].path@
                == path && is_native_source(path) && !same_path(path, source),
    decreases walk.len(),
{
    if walk.len() > 0 {
        let front = walk.drop_last();
        let before = companions(source, front);
        let all = companions(source, walk);
        lemma_companions(source, front, path);
        assert(walk.last() == walk[walk.len() - 1]);
        if all.contains(path) {
            let k = choose|k: int| 0 <= k < all.len() && all[k] == path;
            if k < before.len() {
                assert(before[k] == path);
                let i = choose|i: int|
                    0 <= i < front.len() && (#[trigger] front[i]).kind == WalkKind::File
                        && front[i].path@ == path && is_native_source(path) && !same_path(
                        path,
                        source,
                    );
                assert(walk[i] == front[i]);
            }
        }
        if exists|i: int|
            0 <= i < walk.len() && (#[trigger] walk[i]).kind == WalkKind::File && walk[i].path@
                == path && is_native_source(path) && !same_path(path, source) {
            let i = choose|i: int|
                0 <= i < walk.len() && (#[trigger] walk[i]).kind == WalkKind::File && walk[i].path@
                    == path && is_native_source(path) && !same_path(path, source);
            if i < front.len() {
                assert(front[i] == walk[i]);
                let k = choose|k: int| 0 <= k < before.len() && before[k] == path;
                assert(all[k] == path);
            } else {
                assert(all[all.len() - 1] == path);
            }
        }
    }
}

/// A file that is a source of the unit: the one that it is made of, or a native source
/// below its directory of sources, if it has one.
pub open spec fn is_source_of(unit: Unit, path: Text) -> bool {
    ||| unit.target.source matches Some(source) && source@ == path
    ||| {
        &&& unit.target.native_sources_root is Some
        &&& is_native_source(path)
        &&& exists|i: int|
            0 <= i < unit.target.native_sources_walk@.len() && (
            #[trigger] unit.target.native_sources_walk@[i]).kind == WalkKind::File
                && unit.target.native_sources_walk@[i].path@ == path
    }
}

/// The sources of a unit are those that are its own, each once, and no others.
pub proof fn lemma_sources(ctx: BuildContext, graph: UnitGraph, u: int, work: WorkView, path: Text)
    requires
        work_of(ctx, graph, u) == Ok::<Option<WorkView>, Text>(Some(work)),
    ensures
        is_source_of(graph.units@[u], path) ==> holds_path(work.sources, path),
        work.sources.contains(path) ==> is_source_of(graph.units@[u], path),
        forall|i: int, j: int|
            0 <= i < j < work.sources.len() ==> !same_path(
                #[trigger] work.sources[i],
                #[trigger] work.sources[j],
            ),
{
    let unit = graph.units@[u];
    let source = unit.target.source->0@;
    let walk = unit.target.native_sources_walk@;
    let more = if unit.target.native_sources_root is Some {
        companions(source, walk)
    } else {
        Seq::<Text>::empty()
    };
    let all = seq![source] + more;
    assert(all =~= if unit.target.native_sources_root is Some {
        seq![source] + companions(source, walk)
    } else {
        seq![source]
    });
    assert(work.sources == sorted_paths(all));
    lemma_sorted_paths(all);
    lemma_companions(source, walk, path);
    assert(all[0] == source);
    if is_source_of(unit, path) {
        if path == source {
            assert(holds_path(work.sources, all[0]));
        } else if same_path(path, source) {
            assert(holds_path(work.sources, all[0]));
            let k = choose|k: int|
                0 <= k < work.sources.len() && same_path(#[trigger] work.sources[k], source);
            assert(same_path(work.sources[k], path));
        } else {
            let k = choose|k: int| 0 <= k < more.len() && more[k] == path;
            assert(all[k + 1] == path);
            assert(holds_path(work.sources, all[k + 1]));
        }
    }
    if work.sources.contains(path) {
        let k = choose|k: int| 0 <= k < work.sources.len() && work.sources[k] == path;
        assert(all.contains(work.sources[k]));
        let n = choose|n: int| 0 <= n < all.len() && all[n] == path;
        if n > 0 {
            assert(more[n - 1] == path);
        }
    }
}

/// What is built is the first file of the unit that is one to use.
pub proof fn lemma_primary(files: Seq<OutputFile>)
    ensures
        match primary_output(files) {
            Some(path) => exists|i: int|
                0 <= i < files.len() && (#[trigger] files[i]).flavor == FileFlavor::Normal
                    && files[i].path@ == path && forall|j: int|
                    0 <= j < i ==> (#[trigger] files[j]).flavor != FileFlavor::Normal,
            None => forall|i: int|
                0 <= i < files.len() ==> (#[trigger] files[i]).flavor != FileFlavor::Normal,
        },
    decreases files.len(),
{
    if files.len() > 0 {
        if files[0].flavor == FileFlavor::Normal {
            assert(files[0].path@ == primary_output(files)->0);
        } else {
            let rest = files.skip(1);
            lemma_primary(rest);
            match primary_output(rest) {
                Some(path) => {
                    let i = choose|i: int|
                        0 <= i < rest.len() && (#[trigger] rest[i]).flavor == FileFlavor::Normal
                            && rest[i].path@ == path && forall|j: int|
                            0 <= j < i ==> (#[trigger] rest[j]).flavor != FileFlavor::Normal;
                    assert(files[i + 1] == rest[i]);
                    assert forall|j: int| 0 <= j < i + 1 implies (#[trigger] files[j]).flavor
                        != FileFlavor::Normal by {
                        if j > 0 {
                            assert(rest[j - 1] == files[j]);
                        }
                    }
                },
                None => {
                    assert forall|i: int| 0 <= i < files.len() implies (#[trigger] files[i]).flavor
                        != FileFlavor::Normal by {
                        if i > 0 {
                            assert(rest[i - 1] == files[i]);
                        }
                    }
                },
            }
        }
    }
}

proof fn lemma_file_dirs(files: Seq<OutputFile>)
    ensures
        forall|k: int|
            0 <= k < file_dir_steps(files).len() ==> #[trigger] file_dir_steps(files)[k]
                is CreateDir,
    decreases files.len(),
{
    if files.len() > 0 {
        lemma_file_dirs(files.drop_last());
    }
}

proof fn lemma_object_dirs(objects: Seq<Text>)
    ensures
        forall|k: int|
            0 <= k < object_dir_steps(objects).len() ==> #[trigger] object_dir_steps(objects)[k]
                is CreateDir,
    decreases objects.len(),
{
    if objects.len() > 0 {
        lemma_object_dirs(objects.drop_last());
    }
}

proof fn lemma_lead_all(sources: Seq<Text>)
    ensures
        native_lead(sources) <= sources.len(),
        native_lead(sources) == sources.len() <==> forall|i: int|
            0 <= i < sources.len() ==> language_of(#[trigger] sources[i]) is Some,
    decreases sources.len(),
{
    if sources.len() > 0 {
        let rest = sources.skip(1);
        lemma_lead_all(rest);
        if native_lead(sources) == sources.len() {
            assert forall|i: int| 0 <= i < sources.len() implies language_of(
                #[trigger] sources[i],
            ) is Some by {
                if i > 0 {
                    assert(rest[i - 1] == sources[i]);
                }
            }
        }
        if forall|i: int|
            0 <= i < sources.len() ==> language_of(#[trigger] sources[i]) is Some {
            assert(language_of(sources[0]) is Some);
            assert forall|i: int| 0 <= i < rest.len() implies language_of(#[trigger] rest[i])
                is Some by {
                assert(sources[i + 1] == rest[i]);
            }
        }
    }
}

/// A build does not fail exactly where there is something to build, all sources are native
/// ones, and there is an archiver if a static library is to be made.
pub proof fn lemma_build_succeeds(
    work: WorkView,
    env: EnvVars,
    outputs: BuildScriptOutputs,
    fs: FsView,
)
    ensures
        succeeds(work.steps(env, outputs, fs)) <==> {
            &&& primary_output(files_of(work.unit)) is Some
            &&& forall|i: int|
                0 <= i < work.sources.len() ==> language_of(#[trigger] work.sources[i]) is Some
            &&& work.unit.target.is_staticlib ==> work.toolchain.ar is Some
        },
{
    let steps = work.steps(env, outputs, fs);
    let files = file_dir_steps(files_of(work.unit));
    lemma_file_dirs(files_of(work.unit));
    lemma_lead_all(work.sources);
    if succeeds(steps) {
        lemma_steps(work, env, outputs, fs);
        assert(!(steps[steps.len() - 1] is Fail));
    }
    if primary_output(files_of(work.unit)) is Some {
        let primary = primary_output(files_of(work.unit))->0;
        let n = native_lead(work.sources);
        let objects = object_dir_steps(work.objects(primary));
        let dirs = work.include_dirs(outputs, fs);
        let compiled = work.compile_steps(env, primary, dirs, n);
        lemma_object_dirs(work.objects(primary));
        if n == work.sources.len() && (work.unit.target.is_staticlib ==> work.toolchain.ar
            is Some) {
            assert forall|k: int| 0 <= k < steps.len() implies !(#[trigger] steps[k] is Fail) by {
                if k < files.len() {
                    assert(steps[k] == files[k]);
                } else if k < files.len() + objects.len() {
                    assert(steps[k] == objects[k - files.len()]);
                } else if k < files.len() + objects.len() + n {
                    assert(steps[k] == compiled[k - files.len() - objects.len()]);
                } else {
                    assert(steps[k] == work.final_step(env, outputs, primary));
                }
            }
        }
    }
}

/// A directory is made among the first steps.
pub open spec fn is_made(steps: Seq<StepView>, before: int, dir: Text) -> bool {
    exists|k: int|
        0 <= k < before && k < steps.len() && #[trigger] steps[k] == StepView::CreateDir(dir)
}

proof fn lemma_file_dir_made(files: Seq<OutputFile>, i: int, path: Text, dir: Text)
    requires
        0 <= i < files.len(),
        path == files[i].path@ || opt_text(files[i].hardlink) == Some(path) || opt_text(
            files[i].export_path,
        ) == Some(path),
        parent(path) == Some(dir),
    ensures
        is_made(file_dir_steps(files), file_dir_steps(files).len() as int, dir),
    decreases files.len(),
{
    let front = files.drop_last();
    let before = file_dir_steps(front);
    let all = file_dir_steps(files);
    let file = files.last();
    if i < front.len() {
        assert(front[i] == files[i]);
        lemma_file_dir_made(front, i, path, dir);
        let k = choose|k: int|
            0 <= k < before.len() && k < before.len() && #[trigger] before[k]
                == StepView::CreateDir(dir);
        assert(all[k] == before[k]);
    } else {
        let a = dir_step(Some(file.path@));
        let b = dir_step(opt_text(file.hardlink));
        let c = dir_step(opt_text(file.export_path));
        let n = before.len() as int;
        assert(all == before + a + b + c);
        if path == file.path@ {
            assert(all[n] == a[0]);
        } else if opt_text(file.hardlink) == Some(path) {
            assert(all[n + a.len()] == b[0]);
        } else {
            assert(all[n + a.len() + b.len()] == c[0]);
        }
    }
}

proof fn lemma_object_dir_made(objects: Seq<Text>, i: int, dir: Text)
    requires
        0 <= i < objects.len(),
        parent(objects[i]) == Some(dir),
    ensures
        is_made(object_dir_steps(objects), object_dir_steps(objects).len() as int, dir),
    decreases objects.len(),
{
    let front = objects.drop_last();
    let before = object_dir_steps(front);
    let all = object_dir_steps(objects);
    if i < front.len() {
        assert(front[i] == objects[i]);
        lemma_object_dir_made(front, i, dir);
        let k = choose|k: int|
            0 <= k < before.len() && k < before.len() && #[trigger] before[k]
                == StepView::CreateDir(dir);
        assert(all[k] == before[k]);
    } else {
        assert(all[before.len() as int] == StepView::CreateDir(dir));
    }
}

/// Before anything is compiled, the directories of all files that are written are made:
/// of the files of the unit, of what they are linked or copied to, and of the objects.
pub proof fn lemma_dirs_made(
    work: WorkView,
    env: EnvVars,
    outputs: BuildScriptOutputs,
    fs: FsView,
    path: Text,
    dir: Text,
)
    requires
        succeeds(work.steps(env, outputs, fs)),
        parent(path) == Some(dir),
        is_written(work, path),
    ensures
        is_made(
            work.steps(env, outputs, fs),
            work.steps(env, outputs, fs).len() - work.sources.len() - 1,
            dir,
        ),
{
    lemma_steps(work, env, outputs, fs);
    let steps = work.steps(env, outputs, fs);
    let primary = primary_output(files_of(work.unit))->0;
    let files = files_of(work.unit);
    let a = file_dir_steps(files);
    let objects = work.objects(primary);
    let b = object_dir_steps(objects);
    if is_file_of(files, path) {
        let i = choose|i: int| 0 <= i < files.len() && is_place_of(#[trigger] files[i], path);
        lemma_file_dir_made(files, i, path, dir);
        let k = choose|k: int|
            0 <= k < a.len() && k < a.len() && #[trigger] a[k] == StepView::CreateDir(dir);
        assert(steps[k] == a[k]);
    } else {
        let i = choose|i: int| 0 <= i < objects.len() && objects[i] == path;
        lemma_object_dir_made(objects, i, dir);
        let k = choose|k: int|
            0 <= k < b.len() && k < b.len() && #[trigger] b[k] == StepView::CreateDir(dir);
        assert(steps[a.len() + k] == b[k]);
    }
}

/// Where a file of a unit is written, linked or copied to.
pub open spec fn is_place_of(file: OutputFile, path: Text) -> bool {
    ||| file.path@ == path
    ||| file.hardlink matches Some(link) && link@ == path
    ||| file.export_path matches Some(export) && export@ == path
}

/// Where one of the files is written, linked or copied to.
pub open spec fn is_file_of(files: Seq<OutputFile>, path: Text) -> bool {
    exists|i: int| 0 <= i < files.len() && is_place_of(#[trigger] files[i], path)
}

/// A file that a build writes.
pub open spec fn is_written(work: WorkView, path: Text) -> bool {
    ||| is_file_of(files_of(work.unit), path)
    ||| primary_output(files_of(work.unit)) matches Some(primary) && work.objects(primary).contains(
        path,
    )
}

/// Where a unit can be built, it has entries for the database.
pub proof fn lemma_listed_where_built(
    ctx: BuildContext,
    outputs: BuildScriptOutputs,
    graph: UnitGraph,
    u: int,
    work: WorkView,
)
    requires
        work_of(ctx, graph, u) == Ok::<Option<WorkView>, Text>(Some(work)),
        succeeds(work.steps(ctx.env, outputs, ctx.fs)),
    ensures
        unit_candidates(ctx, outputs, graph, u) is Ok,
{
    lemma_steps(work, ctx.env, outputs, ctx.fs);
}

/// Where each native unit that is compiled has entries, there is a database.
pub proof fn lemma_database_told(
    ctx: BuildContext,
    outputs: BuildScriptOutputs,
    graph: UnitGraph,
)
    ensures
        graph_database(ctx, outputs, graph) is Ok <==> forall|u: int|
            0 <= u < graph.size() && is_compiled(graph.units@[u]) ==> #[trigger] unit_candidates(
                ctx,
                outputs,
                graph,
                u,
            ) is Ok,
{
    lemma_candidates_told(ctx, outputs, graph, graph.size());
}

proof fn lemma_candidates_told(
    ctx: BuildContext,
    outputs: BuildScriptOutputs,
    graph: UnitGraph,
    n: nat,
)
    ensures
        graph_candidates(ctx, outputs, graph, n) is Ok <==> forall|u: int|
            0 <= u < n && is_compiled(graph.units@[u]) ==> #[trigger] unit_candidates(
                ctx,
                outputs,
                graph,
                u,
            ) is Ok,
    decreases n,
{
    if n > 0 {
        lemma_candidates_told(ctx, outputs, graph, (n - 1) as nat);
    }
}

} // verus!
