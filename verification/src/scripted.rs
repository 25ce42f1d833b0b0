//! How what build scripts print reaches the linker.
use vstd::prelude::*;

use crate::compiled::succeeds;
use crate::fs::FsView;
use crate::included::{has_printed, lemma_known_outputs};
use crate::link::{arg_applies, dependency_outputs, library_name};
use crate::link::CompileMode;
use crate::linked::{last_command, lemma_outputs_linked, links, path_in, searches};
use crate::outputs::{given_outputs, holds_each_once, is_kept, lemma_outputs_kept, outputs_from};
use crate::outputs::{printed, ranks_fit, sorted_outputs, BuildOutput, BuildScriptOutputs};
use crate::outputs::{DescriptorView, LinkArgTarget};
use crate::plan::{work_of, BuildContext, WorkView};
use crate::propagate::lemma_descriptors;
use crate::text::Text;
use crate::units::{descriptor_of, Unit, UnitGraph};

verus! {

/// The output counts for the unit: one of its build scripts has printed it, or, where
/// none of them has printed anything, it is one of the build before.
pub open spec fn counts_for(outputs: BuildScriptOutputs, unit: Unit, o: BuildOutput) -> bool {
    ||| has_printed(outputs, unit, o)
    ||| {
        &&& unit.previous_build_outputs@.contains(o)
        &&& forall|p: BuildOutput| !#[trigger] has_printed(outputs, unit, p)
    }
}

/// The output counts for the unit or for one that it reaches.
pub open spec fn counts_below(
    outputs: BuildScriptOutputs,
    graph: UnitGraph,
    u: int,
    o: BuildOutput,
) -> bool {
    ||| counts_for(outputs, graph.units@[u], o)
    ||| exists|x: int| #[trigger] graph.reaches(u, x) && counts_for(outputs, graph.units@[x], o)
}

/// Among the outputs that count, ranks are the same where what is printed is.
pub open spec fn ranks_agree(outputs: BuildScriptOutputs, graph: UnitGraph, u: int) -> bool {
    forall|a: BuildOutput, b: BuildOutput|
        #![trigger counts_below(outputs, graph, u, a), counts_below(outputs, graph, u, b)]
        counts_below(outputs, graph, u, a) && counts_below(outputs, graph, u, b) ==> (a.rank
            == b.rank <==> printed(a) == printed(b))
}

proof fn lemma_given(outputs: BuildScriptOutputs, unit: Unit, o: BuildOutput)
    ensures
        given_outputs(
            outputs,
            unit.build_script_metadatas,
            unit.previous_build_outputs@,
        ).contains(o) <==> counts_for(outputs, unit, o),
{
    let known = outputs.known_outputs(unit.build_script_metadatas);
    lemma_known_outputs(outputs, unit, o);
    if known.len() > 0 {
        assert(known.contains(known[0]));
        lemma_known_outputs(outputs, unit, known[0]);
    } else {
        assert forall|p: BuildOutput| !#[trigger] has_printed(outputs, unit, p) by {
            lemma_known_outputs(outputs, unit, p);
        }
    }
}

proof fn lemma_fit(outputs: BuildScriptOutputs, graph: UnitGraph, u: int, list: Seq<BuildOutput>)
    requires
        ranks_agree(outputs, graph, u),
        forall|i: int|
            0 <= i < list.len() ==> counts_below(outputs, graph, u, #[trigger] list[i]),
    ensures
        ranks_fit(list),
{
}

proof fn lemma_own_outputs(outputs: BuildScriptOutputs, graph: UnitGraph, u: int, x: int)
    requires
        ranks_agree(outputs, graph, u),
        x == u || graph.reaches(u, x),
    ensures
        ({
            let unit = graph.units@[x];
            let kept = outputs_from(
                outputs,
                unit.build_script_metadatas,
                unit.previous_build_outputs@,
            );
            &&& forall|k: int|
                0 <= k < kept.len() ==> counts_below(outputs, graph, u, #[trigger] kept[k])
            &&& forall|o: BuildOutput|
                counts_for(outputs, unit, o) ==> #[trigger] is_kept(kept, o)
        }),
{
    let unit = graph.units@[x];
    let list = given_outputs(
        outputs,
        unit.build_script_metadatas,
        unit.previous_build_outputs@,
    );
    let kept = sorted_outputs(list);
    assert forall|i: int| 0 <= i < list.len() implies counts_below(
        outputs,
        graph,
        u,
        #[trigger] list[i],
    ) by {
        assert(list.contains(list[i]));
        lemma_given(outputs, unit, list[i]);
    }
    lemma_fit(outputs, graph, u, list);
    lemma_outputs_kept(list);
    assert(holds_each_once(kept, list));
    assert forall|k: int| 0 <= k < kept.len() implies counts_below(
        outputs,
        graph,
        u,
        #[trigger] kept[k],
    ) by {
        assert(list.contains(kept[k]));
        lemma_given(outputs, unit, kept[k]);
    }
    assert forall|o: BuildOutput| counts_for(outputs, unit, o) implies #[trigger] is_kept(
        kept,
        o,
    ) by {
        lemma_given(outputs, unit, o);
        let i = choose|i: int| 0 <= i < list.len() && list[i] == o;
        assert(is_kept(kept, list[i]));
    }
}

proof fn lemma_kept_through(all: Seq<BuildOutput>, part: Seq<BuildOutput>, at: int, o: BuildOutput)
    requires
        is_kept(part, o),
        0 <= at,
        at + part.len() <= all.len(),
        forall|k: int| 0 <= k < part.len() ==> all[at + k] == #[trigger] part[k],
    ensures
        is_kept(all, o),
{
    let k = choose|k: int| 0 <= k < part.len() && printed(#[trigger] part[k]) == printed(o);
    assert(all[at + k] == part[k]);
}

proof fn lemma_dependency_outputs(
    outputs: BuildScriptOutputs,
    graph: UnitGraph,
    u: int,
    units: Seq<int>,
    list: Seq<DescriptorView>,
)
    requires
        ranks_agree(outputs, graph, u),
        list.len() == units.len(),
        forall|i: int| 0 <= i < units.len() ==> graph.reaches(u, #[trigger] units[i]),
        forall|i: int|
            0 <= i < units.len() ==> descriptor_of(graph.units@[#[trigger] units[i]]) == Ok::<
                DescriptorView,
                Text,
            >(list[i]),
    ensures
        ({
            let all = dependency_outputs(outputs, list);
            &&& forall|k: int|
                0 <= k < all.len() ==> counts_below(outputs, graph, u, #[trigger] all[k])
            &&& forall|i: int, o: BuildOutput|
                0 <= i < units.len() && counts_for(outputs, graph.units@[units[i]], o)
                    ==> #[trigger] is_kept_of(all, units[i], o)
        }),
    decreases units.len(),
{
    let all = dependency_outputs(outputs, list);
    if units.len() > 0 {
        let front = units.drop_last();
        let before = dependency_outputs(outputs, list.drop_last());
        let x = units.last();
        let d = list.last();
        assert(x == units[units.len() - 1]);
        assert(descriptor_of(graph.units@[x]) == Ok::<DescriptorView, Text>(d));
        assert forall|i: int| 0 <= i < front.len() implies graph.reaches(
            u,
            #[trigger] front[i],
        ) && descriptor_of(graph.units@[front[i]]) == Ok::<DescriptorView, Text>(
            list.drop_last()[i],
        ) by {
            assert(front[i] == units[i]);
        }
        lemma_dependency_outputs(outputs, graph, u, front, list.drop_last());
        lemma_own_outputs(outputs, graph, u, x);
        let more = outputs_from(outputs, d.build_script_metadatas, d.previous_build_outputs);
        assert forall|k: int| 0 <= k < all.len() implies counts_below(
            outputs,
            graph,
            u,
            #[trigger] all[k],
        ) by {
            if k < before.len() {
                assert(all[k] == before[k]);
            } else {
                assert(all[k] == more[k - before.len()]);
            }
        }
        assert forall|i: int, o: BuildOutput|
            0 <= i < units.len() && counts_for(outputs, graph.units@[units[i]], o) implies
            #[trigger] is_kept_of(all, units[i], o) by {
            if i < front.len() {
                assert(front[i] == units[i]);
                assert(is_kept_of(before, front[i], o));
                lemma_kept_through(all, before, 0, o);
            } else {
                assert(is_kept(more, o));
                lemma_kept_through(all, more, before.len() as int, o);
            }
        }
    }
}

/// An output of a unit is in a list by what it prints.
spec fn is_kept_of(kept: Seq<BuildOutput>, x: int, o: BuildOutput) -> bool {
    is_kept(kept, o)
}

/// Each output that counts for a unit or for one that it reaches is among those that it
/// is linked with, and no other is.
pub proof fn lemma_outputs_counted(
    ctx: BuildContext,
    graph: UnitGraph,
    u: int,
    work: WorkView,
    outputs: BuildScriptOutputs,
)
    requires
        graph.wf(),
        0 <= u < graph.size(),
        work_of(ctx, graph, u) == Ok::<Option<WorkView>, Text>(Some(work)),
        ranks_agree(outputs, graph, u),
    ensures
        ({
            let given = work.link_inputs(outputs).build_outputs;
            &&& forall|k: int|
                0 <= k < given.len() ==> counts_below(outputs, graph, u, #[trigger] given[k])
            &&& forall|o: BuildOutput|
                counts_below(outputs, graph, u, o) ==> #[trigger] is_kept(given, o)
        }),
{
    let units = graph.native_dependencies(u);
    let list = work.dependency_descriptors;
    let unit = graph.units@[u];
    graph.lemma_native_dependencies(u);
    lemma_descriptors(graph, units);
    assert forall|i: int| 0 <= i < units.len() implies graph.reaches(u, #[trigger] units[i]) by {
        assert(units.contains(units[i]));
    }
    lemma_dependency_outputs(outputs, graph, u, units, list);
    lemma_own_outputs(outputs, graph, u, u);
    let before = dependency_outputs(outputs, list);
    let own = outputs_from(outputs, unit.build_script_metadatas, unit.previous_build_outputs@);
    let all = before + own;
    assert forall|k: int| 0 <= k < all.len() implies counts_below(
        outputs,
        graph,
        u,
        #[trigger] all[k],
    ) by {
        if k < before.len() {
            assert(all[k] == before[k]);
        } else {
            assert(all[k] == own[k - before.len()]);
        }
    }
    lemma_fit(outputs, graph, u, all);
    lemma_outputs_kept(all);
    let given = work.link_inputs(outputs).build_outputs;
    assert(given == sorted_outputs(all));
    assert forall|k: int| 0 <= k < given.len() implies counts_below(
        outputs,
        graph,
        u,
        #[trigger] given[k],
    ) by {
        assert(all.contains(given[k]));
        let n = choose|n: int| 0 <= n < all.len() && all[n] == given[k];
        assert(counts_below(outputs, graph, u, all[n]));
    }
    assert forall|o: BuildOutput| counts_below(outputs, graph, u, o) implies #[trigger] is_kept(
        given,
        o,
    ) by {
        if counts_for(outputs, unit, o) {
            assert(is_kept(own, o));
            lemma_kept_through(all, own, before.len() as int, o);
        } else {
            let x = choose|x: int| #[trigger]
                graph.reaches(u, x) && counts_for(outputs, graph.units@[x], o);
            assert(units.contains(x));
            let i = choose|i: int| 0 <= i < units.len() && units[i] == x;
            assert(is_kept_of(before, units[i], o));
            lemma_kept_through(all, before, 0, o);
        }
        let n = choose|n: int| 0 <= n < all.len() && printed(#[trigger] all[n]) == printed(o);
        assert(is_kept(given, all[n]));
        let k = choose|k: int| 0 <= k < given.len() && printed(#[trigger] given[k]) == printed(all[n]);
        assert(printed(given[k]) == printed(o));
    }
}

/// For what kind of target an option of a build script is: all, the one that is named, or
/// those of one kind. One for `cdylib` targets is not for their tests.
pub open spec fn is_for(target: LinkArgTarget, unit: Unit) -> bool {
    match target {
        LinkArgTarget::All => true,
        LinkArgTarget::Cdylib => unit.target.is_cdylib && match unit.mode {
            CompileMode::Test => false,
            CompileMode::Check { test } => !test,
            _ => true,
        },
        LinkArgTarget::Bin => unit.target.is_bin,
        LinkArgTarget::SingleBin(name) => unit.target.is_bin && unit.target.name@ == name@,
        LinkArgTarget::Test => unit.target.is_test,
        LinkArgTarget::Bench => unit.target.is_bench,
        LinkArgTarget::Example => unit.target.is_exe_example,
    }
}

/// An option of a build script applies where it is for the target.
pub proof fn lemma_applies(target: LinkArgTarget, work: WorkView)
    ensures
        arg_applies(target, work.link_context()) <==> is_for(target, work.unit),
{
}

/// What an output declares that counts for a unit, or for one that it reaches, the linker
/// of the unit is told: the directories, the libraries, and the options that are for the
/// unit.
pub proof fn lemma_declared_linked(
    ctx: BuildContext,
    graph: UnitGraph,
    u: int,
    work: WorkView,
    outputs: BuildScriptOutputs,
    fs: FsView,
    o: BuildOutput,
)
    requires
        graph.wf(),
        0 <= u < graph.size(),
        work_of(ctx, graph, u) == Ok::<Option<WorkView>, Text>(Some(work)),
        ranks_agree(outputs, graph, u),
        succeeds(work.steps(ctx.env, outputs, fs)),
        !work.unit.target.is_staticlib,
        counts_below(outputs, graph, u, o),
    ensures
        ({
            let args = last_command(work.steps(ctx.env, outputs, fs)).args;
            let family = work.toolchain.family;
            &&& forall|i: int|
                0 <= i < o.library_paths@.len() ==> searches(
                    args,
                    path_in(#[trigger] o.library_paths@[i]),
                    family,
                )
            &&& forall|i: int|
                0 <= i < o.library_links@.len() ==> links(
                    args,
                    library_name((#[trigger] o.library_links@[i])@),
                    family,
                )
            &&& forall|i: int|
                0 <= i < o.linker_args@.len() && is_for((#[trigger] o.linker_args@[i]).0, work.unit)
                    ==> args.contains(o.linker_args@[i].1@)
        }),
{
    lemma_outputs_counted(ctx, graph, u, work, outputs);
    let given = work.link_inputs(outputs).build_outputs;
    assert(is_kept(given, o));
    let k = choose|k: int| 0 <= k < given.len() && printed(#[trigger] given[k]) == printed(o);
    let p = given[k];
    lemma_outputs_linked(work, ctx.env, outputs, fs, k);
    let args = last_command(work.steps(ctx.env, outputs, fs)).args;
    let family = work.toolchain.family;
    assert(printed(p).library_paths.len() == p.library_paths@.len());
    assert(printed(o).library_paths.len() == o.library_paths@.len());
    assert(printed(p).library_links.len() == p.library_links@.len());
    assert(printed(o).library_links.len() == o.library_links@.len());
    assert(printed(p).linker_args.len() == p.linker_args@.len());
    assert(printed(o).linker_args.len() == o.linker_args@.len());
    assert forall|i: int| 0 <= i < o.library_paths@.len() implies searches(
        args,
        path_in(#[trigger] o.library_paths@[i]),
        family,
    ) by {
        assert(printed(p).library_paths[i] == p.library_paths@[i]@);
        assert(printed(o).library_paths[i] == o.library_paths@[i]@);
        assert(path_in(p.library_paths@[i]) == path_in(o.library_paths@[i]));
    }
    assert forall|i: int| 0 <= i < o.library_links@.len() implies links(
        args,
        library_name((#[trigger] o.library_links@[i])@),
        family,
    ) by {
        assert(printed(p).library_links[i] == p.library_links@[i]@);
        assert(printed(o).library_links[i] == o.library_links@[i]@);
    }
    assert forall|i: int|
        0 <= i < o.linker_args@.len() && is_for(
            (#[trigger] o.linker_args@[i]).0,
            work.unit,
        ) implies args.contains(o.linker_args@[i].1@) by {
        assert(printed(p).linker_args[i] == (p.linker_args@[i].0@, p.linker_args@[i].1@));
        assert(printed(o).linker_args[i] == (o.linker_args@[i].0@, o.linker_args@[i].1@));
        lemma_applies(p.linker_args@[i].0, work);
        assert(is_for(p.linker_args@[i].0, work.unit));
    }
}

} // verus!
