//! The compilation database tells what the build does.
use vstd::prelude::*;

use crate::command::command_line;
use crate::compiled::{follows, lemma_command_holds, lemma_unit_told, lemma_within, tells_dirs};
use crate::compiled::{tells_files, tells_unit};
use crate::database::{candidate_of, chosen_candidates, database_args, entry_key, graph_candidates};
use crate::database::{graph_database, is_served, lemma_database_unique, lemma_entry_key};
use crate::database::makes_objects;
use crate::database::{priority_key, unit_candidates, unit_parts, CandidateView};
use crate::database::CompileCommandView;
use crate::flagged::lemma_seven;
use crate::layout::depfiles_of;
use crate::link::CompileMode;
use crate::native::{language_of, NativeCompilerFamily};
use crate::order::{key_less, part_less};
use crate::outputs::{descriptor_includes, BuildScriptOutputs};
use crate::path::{path_key, same_path};
use crate::plan::{files_of, work_of, BuildContext, StepView, WorkView};
use crate::profile::{profile_compile_args, shared_compile_args};
use crate::propagate::lemma_includes_propagate;
use crate::text::Text;
use crate::tools::{compile_command, compiler_of};
use crate::units::{descriptor_of, primary_output, UnitGraph};

verus! {

/// Each source of a unit has one entry: for the same source, the same object and the
/// same directories of headers as in the build, run in the directory of the package.
/// Where the compiler takes options as `gcc` does, the entry is the command of the
/// build.
pub proof fn lemma_entries_match_build(
    ctx: BuildContext,
    outputs: BuildScriptOutputs,
    graph: UnitGraph,
    u: int,
    work: WorkView,
    list: Seq<CandidateView>,
    i: int,
)
    requires
        work_of(ctx, graph, u) == Ok::<Option<WorkView>, Text>(Some(work)),
        unit_candidates(ctx, outputs, graph, u) == Ok::<Seq<CandidateView>, Text>(list),
        0 <= i < work.sources.len(),
    ensures
        list.len() == work.sources.len(),
        primary_output(files_of(work.unit)) matches Some(primary) && {
            let entry = list[i].command;
            let family = work.toolchain.family;
            let dirs = work.include_dirs(outputs, ctx.fs);
            &&& entry.directory == work.unit.package_root@
            &&& entry.file == work.sources[i]
            &&& entry.output == Some(work.objects(primary)[i])
            &&& entry.arguments.len() > 0
            &&& language_of(work.sources[i]) matches Some(language) && entry.arguments[0]
                == compiler_of(work.toolchain, language).text
            &&& tells_files(entry.arguments, work.sources[i], work.objects(primary)[i], family)
            &&& tells_dirs(entry.arguments, dirs, family)
            &&& tells_unit(entry.arguments, work.unit, work.kind, family)
            &&& family == NativeCompilerFamily::GnuLike ==> (work.compile_step(
                ctx.env,
                primary,
                dirs,
                i,
            ) matches StepView::Run(cmd) && entry.arguments == command_line(cmd))
        },
{
    let unit = graph.units@[u];
    let parts = unit_parts(ctx, outputs, graph, u)->Ok_0;
    let family = work.toolchain.family;
    let primary = primary_output(files_of(work.unit))->0;
    let source = work.sources[i];
    let dirs = work.include_dirs(outputs, ctx.fs);
    assert(parts.dirs == dirs);
    assert(list[i] == candidate_of(ctx, unit, parts, i));
    let language = language_of(source)->0;
    let objects = work.objects(primary);
    let args = database_args(
        unit,
        work.kind,
        family,
        ctx.env,
        language,
        parts.cpp,
        parts.c,
        parts.cxx,
    );
    let cmd = compile_command(
        work.toolchain,
        args,
        language,
        source,
        objects[i],
        depfiles_of(objects, family)[i],
        dirs,
    );
    let entry = list[i].command;
    assert(entry.arguments == seq![cmd.program.text] + cmd.args);
    lemma_command_holds(
        work.toolchain,
        args,
        language,
        source,
        objects[i],
        depfiles_of(objects, family)[i],
        dirs,
    );
    let none = Seq::<Text>::empty();
    assert(entry.arguments =~= seq![cmd.program.text] + cmd.args + none);
    lemma_within(seq![cmd.program.text], cmd.args, none);
    let a = profile_compile_args(unit.profile, family);
    let b = shared_compile_args(unit.target.is_cdylib || unit.target.is_dylib, family);
    assert(args.all() =~= a + b + args.env_args + args.feature_args + args.cfg_args
        + args.native_define_args + none);
    lemma_seven(
        a,
        b,
        args.env_args,
        args.feature_args,
        args.cfg_args,
        args.native_define_args,
        none,
    );
    assert forall|x: Text| args.all().contains(x) implies #[trigger] entry.arguments.contains(x) by {
        assert(cmd.args.contains(x));
    }
    lemma_unit_told(args.all(), unit, work.kind, family, entry.arguments);
    assert(tells_dirs(entry.arguments, dirs, family)) by {
        assert forall|k: int| 0 <= k < dirs.len() implies match family {
            NativeCompilerFamily::GnuLike => follows(entry.arguments, "-I"@, #[trigger] dirs[k]),
            NativeCompilerFamily::MsvcLike => entry.arguments.contains("/I"@ + dirs[k]),
        } by {
            match family {
                NativeCompilerFamily::GnuLike => {
                    assert(follows(cmd.args, "-I"@, dirs[k]));
                },
                NativeCompilerFamily::MsvcLike => {
                    assert(dirs[k] == dirs[k]);
                    assert(cmd.args.contains("/I"@ + dirs[k]));
                },
            }
        }
    }
    if family == NativeCompilerFamily::GnuLike {
        let built = work.compile_args(ctx.env, language);
        assert(built.profile_args =~= args.profile_args);
        assert(built == args);
    }
}

/// The include directories that a dependency gives stand in each entry of those that
/// depend on it, however many dependencies lie between the two.
pub proof fn lemma_entries_name_dependencies(
    ctx: BuildContext,
    outputs: BuildScriptOutputs,
    graph: UnitGraph,
    u: int,
    x: int,
    work: WorkView,
    list: Seq<CandidateView>,
    i: int,
    dir: Text,
)
    requires
        graph.wf(),
        0 <= u < graph.size(),
        work_of(ctx, graph, u) == Ok::<Option<WorkView>, Text>(Some(work)),
        unit_candidates(ctx, outputs, graph, u) == Ok::<Seq<CandidateView>, Text>(list),
        0 <= i < work.sources.len(),
        graph.reaches(u, x),
        descriptor_of(graph.units@[x]) matches Ok(d) && descriptor_includes(
            outputs,
            ctx.fs,
            d,
        ).contains(dir),
    ensures
        exists|at: Text| #[trigger]
            same_path(at, dir) && match work.toolchain.family {
                NativeCompilerFamily::GnuLike => follows(list[i].command.arguments, "-I"@, at),
                NativeCompilerFamily::MsvcLike => list[i].command.arguments.contains("/I"@ + at),
            },
{
    lemma_entries_match_build(ctx, outputs, graph, u, work, list, i);
    lemma_includes_propagate(ctx, graph, u, x, work, outputs, ctx.fs, dir);
    let dirs = work.include_dirs(outputs, ctx.fs);
    let k = choose|k: int| 0 <= k < dirs.len() && same_path(#[trigger] dirs[k], dir);
    assert(tells_dirs(list[i].command.arguments, dirs, work.toolchain.family));
    let at = dirs[k];
    assert(same_path(at, dir));
}

proof fn lemma_graph_holds(
    ctx: BuildContext,
    outputs: BuildScriptOutputs,
    graph: UnitGraph,
    n: nat,
)
    requires
        n <= graph.size(),
        graph_candidates(ctx, outputs, graph, n) is Ok,
    ensures
        ({
            let all = graph_candidates(ctx, outputs, graph, n)->Ok_0;
            &&& forall|u: int, i: int| #![trigger unit_candidates(ctx, outputs, graph, u)->Ok_0[i]]
                0 <= u < n && makes_objects(graph.units@[u]) && 0 <= i < (unit_candidates(
                    ctx,
                    outputs,
                    graph,
                    u,
                )->Ok_0).len() ==> all.contains(unit_candidates(ctx, outputs, graph, u)->Ok_0[i])
            &&& forall|u: int|
                0 <= u < n && makes_objects(#[trigger] graph.units@[u]) ==> unit_candidates(
                    ctx,
                    outputs,
                    graph,
                    u,
                ) is Ok
            &&& forall|k: int| 0 <= k < all.len() ==> #[trigger] comes_of(ctx, outputs, graph, all[k])
        }),
    decreases n,
{
    if n > 0 {
        let m = (n - 1) as nat;
        lemma_graph_holds(ctx, outputs, graph, m);
        let before = graph_candidates(ctx, outputs, graph, m)->Ok_0;
        let all = graph_candidates(ctx, outputs, graph, n)->Ok_0;
        let last = graph.units@[m as int];
        let more = unit_candidates(ctx, outputs, graph, m as int)->Ok_0;
        assert forall|u: int, i: int| #![trigger unit_candidates(ctx, outputs, graph, u)->Ok_0[i]]
            0 <= u < n && makes_objects(graph.units@[u]) && 0 <= i < (unit_candidates(
                ctx,
                outputs,
                graph,
                u,
            )->Ok_0).len() implies all.contains(unit_candidates(ctx, outputs, graph, u)->Ok_0[i]) by {
            let c = unit_candidates(ctx, outputs, graph, u)->Ok_0[i];
            if u < m {
                let k = choose|k: int| 0 <= k < before.len() && before[k] == c;
                assert(all[k] == c);
            } else {
                assert(all[before.len() + i] == c);
            }
        }
        assert forall|k: int| 0 <= k < all.len() implies #[trigger] comes_of(
            ctx,
            outputs,
            graph,
            all[k],
        ) by {
            if k < before.len() {
                assert(comes_of(ctx, outputs, graph, before[k]));
            } else {
                assert(all[k] == more[k - before.len()]);
                assert(is_entry_of(ctx, outputs, graph, all[k], m as int));
            }
        }
    }
}

/// The candidate is one of the unit `u`, which is compiled.
pub open spec fn is_entry_of(
    ctx: BuildContext,
    outputs: BuildScriptOutputs,
    graph: UnitGraph,
    c: CandidateView,
    u: int,
) -> bool {
    &&& 0 <= u < graph.size()
    &&& graph.units@[u].target.is_native
    &&& graph.units@[u].mode != CompileMode::Doc
    &&& graph.units@[u].mode != CompileMode::RunCustomBuild
    &&& unit_candidates(ctx, outputs, graph, u) matches Ok(list) && list.contains(c)
}

/// The candidate is one of some unit that is compiled.
pub open spec fn comes_of(
    ctx: BuildContext,
    outputs: BuildScriptOutputs,
    graph: UnitGraph,
    c: CandidateView,
) -> bool {
    exists|u: int| #[trigger] is_entry_of(ctx, outputs, graph, c, u)
}

/// Some entry is for the source in the directory.
pub open spec fn has_entry(list: Seq<CompileCommandView>, directory: Text, file: Text) -> bool {
    exists|k: int|
        0 <= k < list.len() && same_path((#[trigger] list[k]).directory, directory) && same_path(
            list[k].file,
            file,
        )
}

/// The database has an entry for each source of each native unit that is compiled.
pub proof fn lemma_each_source_listed(
    ctx: BuildContext,
    outputs: BuildScriptOutputs,
    graph: UnitGraph,
    list: Seq<CompileCommandView>,
    u: int,
    work: WorkView,
    i: int,
)
    requires
        graph_database(ctx, outputs, graph) == Ok::<Seq<CompileCommandView>, Text>(list),
        0 <= u < graph.size(),
        graph.units@[u].target.is_native,
        graph.units@[u].mode != CompileMode::Doc,
        graph.units@[u].mode != CompileMode::RunCustomBuild,
        work_of(ctx, graph, u) == Ok::<Option<WorkView>, Text>(Some(work)),
        0 <= i < work.sources.len(),
    ensures
        has_entry(list, graph.units@[u].package_root@, work.sources[i]),
{
    let all = graph_candidates(ctx, outputs, graph, graph.size())->Ok_0;
    let chosen = chosen_candidates(all);
    lemma_graph_holds(ctx, outputs, graph, graph.size());
    assert(makes_objects(graph.units@[u]));
    let mine = unit_candidates(ctx, outputs, graph, u)->Ok_0;
    lemma_entries_match_build(ctx, outputs, graph, u, work, mine, i);
    let c = unit_candidates(ctx, outputs, graph, u)->Ok_0[i];
    assert(all.contains(c));
    let j = choose|j: int| 0 <= j < all.len() && all[j] == c;
    lemma_database_unique(all);
    assert(is_served(chosen, all[j]));
    let k = choose|k: int|
        0 <= k < chosen.len() && entry_key(#[trigger] chosen[k]) == entry_key(c) && !key_less(
            priority_key(c),
            priority_key(chosen[k]),
        );
    lemma_entry_key(chosen[k], c);
    assert(list[k] == chosen[k].command);
    assert(all.contains(chosen[k]));
    let m = choose|m: int| 0 <= m < all.len() && all[m] == chosen[k];
    assert(comes_of(ctx, outputs, graph, all[m]));
    lemma_keyed(ctx, outputs, graph, chosen[k]);
    assert(comes_of(ctx, outputs, graph, all[j]));
    lemma_keyed(ctx, outputs, graph, c);
    assert(same_path(list[k].directory, graph.units@[u].package_root@));
}

/// Each entry of the database is that of a native unit that is compiled.
pub proof fn lemma_each_entry_built(
    ctx: BuildContext,
    outputs: BuildScriptOutputs,
    graph: UnitGraph,
    list: Seq<CompileCommandView>,
    k: int,
)
    requires
        graph_database(ctx, outputs, graph) == Ok::<Seq<CompileCommandView>, Text>(list),
        0 <= k < list.len(),
    ensures
        exists|c: CandidateView| #[trigger]
            comes_of(ctx, outputs, graph, c) && c.command == list[k],
{
    let all = graph_candidates(ctx, outputs, graph, graph.size())->Ok_0;
    let chosen = chosen_candidates(all);
    lemma_graph_holds(ctx, outputs, graph, graph.size());
    lemma_database_unique(all);
    assert(list[k] == chosen[k].command);
    assert(all.contains(chosen[k]));
    let m = choose|m: int| 0 <= m < all.len() && all[m] == chosen[k];
    assert(comes_of(ctx, outputs, graph, all[m]));
}

proof fn lemma_keyed(
    ctx: BuildContext,
    outputs: BuildScriptOutputs,
    graph: UnitGraph,
    c: CandidateView,
)
    requires
        comes_of(ctx, outputs, graph, c),
    ensures
        c.key.0 == c.command.directory,
        c.key.1 == c.command.file,
{
    let u = choose|u: int| #[trigger] is_entry_of(ctx, outputs, graph, c, u);
    let list = unit_candidates(ctx, outputs, graph, u)->Ok_0;
    let i = choose|i: int| 0 <= i < list.len() && list[i] == c;
    let parts = unit_parts(ctx, outputs, graph, u)->Ok_0;
    assert(list[i] == candidate_of(ctx, graph.units@[u], parts, i));
}

/// The smaller rank: packages that the build was asked for come first, and among the
/// modes a build comes before a test, a check, the check of a test, and documentation.
pub proof fn lemma_entry_ranks(
    ctx: BuildContext,
    outputs: BuildScriptOutputs,
    graph: UnitGraph,
    u: int,
    list: Seq<CandidateView>,
    i: int,
)
    requires
        unit_candidates(ctx, outputs, graph, u) == Ok::<Seq<CandidateView>, Text>(list),
        0 <= i < list.len(),
    ensures
        ctx.root_packages@.contains(graph.units@[u].package_id) <==> list[i].priority.0 == 0,
        !ctx.root_packages@.contains(graph.units@[u].package_id) <==> list[i].priority.0 == 1,
        graph.units@[u].mode == CompileMode::Build <==> list[i].priority.1 == 0,
        graph.units@[u].mode == CompileMode::Test <==> list[i].priority.1 == 1,
        graph.units@[u].mode == (CompileMode::Check { test: false }) <==> list[i].priority.1 == 2,
        graph.units@[u].mode == (CompileMode::Check { test: true }) <==> list[i].priority.1 == 3,
        graph.units@[u].mode == CompileMode::Doctest <==> list[i].priority.1 == 4,
{
    let parts = unit_parts(ctx, outputs, graph, u)->Ok_0;
    if !graph.units@[u].target.is_header_only {
        assert(list[i] == candidate_of(ctx, graph.units@[u], parts, i));
    }
}

/// Of candidates for one source the one with the smallest ranks is in the database: that
/// of the package, then that of the mode.
pub proof fn lemma_preferred_entry(list: Seq<CandidateView>, k: int)
    requires
        0 <= k < list.len(),
    ensures
        exists|c: CandidateView| #[trigger]
            chosen_candidates(list).contains(c) && same_path(c.key.0, list[k].key.0) && same_path(
                c.key.1,
                list[k].key.1,
            ) && (c.priority.0 < list[k].priority.0 || c.priority.0 == list[k].priority.0
                && c.priority.1 <= list[k].priority.1),
{
    lemma_database_unique(list);
    let chosen = chosen_candidates(list);
    assert(is_served(chosen, list[k]));
    let i = choose|i: int|
        0 <= i < chosen.len() && entry_key(#[trigger] chosen[i]) == entry_key(list[k]) && !key_less(
            priority_key(list[k]),
            priority_key(chosen[i]),
        );
    let c = chosen[i];
    lemma_entry_key(c, list[k]);
    lemma_ranked(list[k], c);
    assert(chosen.contains(c));
}

proof fn lemma_ranked(a: CandidateView, b: CandidateView)
    requires
        !key_less(priority_key(a), priority_key(b)),
    ensures
        b.priority.0 < a.priority.0 || b.priority.0 == a.priority.0 && b.priority.1
            <= a.priority.1,
{
    let x = priority_key(a);
    let y = priority_key(b);
    reveal_with_fuel(key_less, 3);
    reveal_with_fuel(part_less, 2);
    let px = path_key(a.priority.2);
    let py = path_key(b.priority.2);
    assert(x[0] == seq![a.priority.0 as u32] && y[0] == seq![b.priority.0 as u32]);
    assert(x[0][0] == a.priority.0 && y[0][0] == b.priority.0);
    assert(x.skip(1)[0] == seq![a.priority.1 as u32] && y.skip(1)[0] == seq![b.priority.1 as u32]);
    assert(x.skip(1)[0][0] == a.priority.1 && y.skip(1)[0][0] == b.priority.1);
    if a.priority.0 == b.priority.0 {
        assert(x[0] =~= y[0]);
    }
}

} // verus!
