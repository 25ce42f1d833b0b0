//! The database of compile commands: for each source the command that compiles it.
use vstd::prelude::*;

use crate::command::{command_arguments, command_line};
use crate::config::{config_flags, native_c_compile_config_flags, native_cppflags_config_flags};
use crate::config::native_cxx_compile_config_flags;
use crate::env::{compile_env_flags, native_compile_env_flags, EnvVars};
use crate::fs::FsView;
use crate::layout::{all_include_dirs, collect_target_sources, depfile_paths, depfiles_of};
use crate::layout::{include_dirs, object_paths, objects_dir, objects_dir_of, objects_of, opt_paths};
use crate::link::CompileMode;
use crate::native::{language_of, source_language, NativeCompilerFamily, NativeSourceLanguage};
use crate::order::{goes_before, is_covered, key_less, key_view, keys_view, lemma_key_total};
use crate::order::{lemma_keys_push, lemma_stable_order, lemma_unique_order, order_by_keys};
use crate::order::{order_unique_by_keys, pick, places_view, sorted_by, sorted_unique_by};
use crate::order::{stable_order, without_repeats, Key};
use crate::outputs::{declared_include_dirs_from_metadata, declared_includes};
use crate::outputs::{dependency_include_dirs_from_descriptors, dependency_includes};
use crate::outputs::{BuildScriptOutputs, DescriptorView};
use crate::path::{lemma_path_key, path_key, path_key_of, same_path};
use crate::plan::{foreign_source_message, has_file_name, no_output_message, no_source_message};
use crate::plan::{unit_sources, BuildContext, KindContext};
use crate::profile::{cfg_args, define_args, feature_args, native_cfg_args, native_define_args};
use crate::profile::{native_feature_args, native_profile_compile_args, native_shared_compile_args};
use crate::profile::{profile_compile_args, shared_compile_args};
use crate::text::{append_list, copy_list, copy_opt, opt_text, texts, Text};
use crate::toolchain::{detect_toolchain, ToolchainView};
use crate::tools::{build_compile_object_command, compile_command, CompileArgs, CompileArgsView};
use crate::units::{descriptors_of, primary_output, primary_output_of};
use crate::units::{transitive_native_dependency_descriptors, Unit, UnitGraph};

verus! {

/// An entry of the database.
#[derive(Debug)]
pub struct CompileCommand {
    /// The directory that the command runs in.
    pub directory: String,
    /// The source.
    pub file: String,
    /// The program and its arguments.
    pub arguments: Vec<String>,
    /// What the command makes.
    pub output: Option<String>,
}

/// What an entry holds.
#[verifier::ext_equal]
pub struct CompileCommandView {
    /// The directory that the command runs in.
    pub directory: Text,
    /// The source.
    pub file: Text,
    /// The program and its arguments.
    pub arguments: Seq<Text>,
    /// What the command makes.
    pub output: Option<Text>,
}

impl View for CompileCommand {
    type V = CompileCommandView;

    open spec fn view(&self) -> CompileCommandView {
        CompileCommandView {
            directory: self.directory@,
            file: self.file@,
            arguments: texts(self.arguments@),
            output: opt_text(self.output),
        }
    }
}

/// What entries hold.
pub open spec fn commands_view(list: Seq<CompileCommand>) -> Seq<CompileCommandView> {
    list.map_values(|c: CompileCommand| c@)
}

/// An entry that may go into the database. Of the entries with one key the one with
/// the least priority goes in.
#[derive(Debug)]
pub struct CompileCommandCandidate {
    /// The directory of the package, and the source.
    pub key: (String, String),
    /// The entry.
    pub command: CompileCommand,
    /// The rank of the package, the rank of the mode, and the object.
    pub priority: (u8, u8, String),
}

/// What a candidate holds.
#[verifier::ext_equal]
pub struct CandidateView {
    /// The directory of the package, and the source.
    pub key: (Text, Text),
    /// The entry.
    pub command: CompileCommandView,
    /// The rank of the package, the rank of the mode, and the object.
    pub priority: (u8, u8, Text),
}

impl View for CompileCommandCandidate {
    type V = CandidateView;

    open spec fn view(&self) -> CandidateView {
        CandidateView {
            key: (self.key.0@, self.key.1@),
            command: self.command@,
            priority: (self.priority.0, self.priority.1, self.priority.2@),
        }
    }
}

/// What candidates hold.
pub open spec fn candidates_view(list: Seq<CompileCommandCandidate>) -> Seq<CandidateView> {
    list.map_values(|c: CompileCommandCandidate| c@)
}

/// The rank of a mode: the command of a build comes before that of a test, and that
/// before those of checks.
pub open spec fn mode_rank(mode: CompileMode) -> u8 {
    match mode {
        CompileMode::Build => 0,
        CompileMode::Test => 1,
        CompileMode::Check { test } => if test {
            3
        } else {
            2
        },
        CompileMode::Doctest => 4,
        CompileMode::Doc => 5,
        CompileMode::Docscrape => 5,
        CompileMode::RunCustomBuild => 5,
    }
}

/// The rank of a mode.
pub fn compile_mode_priority(mode: CompileMode) -> (r: u8)
    ensures
        r == mode_rank(mode),
{
    match mode {
        CompileMode::Build => 0,
        CompileMode::Test => 1,
        CompileMode::Check { test } => if test {
            3
        } else {
            2
        },
        CompileMode::Doctest => 4,
        CompileMode::Doc => 5,
        CompileMode::Docscrape => 5,
        CompileMode::RunCustomBuild => 5,
    }
}

/// The rank of a package: those that the build was asked for come first.
pub open spec fn package_rank(root_packages: Seq<u64>, package: u64) -> u8 {
    if root_packages.contains(package) {
        0
    } else {
        1
    }
}

fn package_priority(root_packages: &Vec<u64>, package: u64) -> (r: u8)
    ensures
        r == package_rank(root_packages@, package),
{
    let mut i: usize = 0;
    while i < root_packages.len()
        invariant
            i <= root_packages@.len(),
            forall|k: int| 0 <= k < i ==> #[trigger] root_packages@[k] != package,
        decreases root_packages@.len() - i,
    {
        if root_packages[i] == package {
            assert(root_packages@[i as int] == package);
            return 0;
        }
        i = i + 1;
    }
    1
}

/// The options for compiling a source that go into the database: all but those for
/// the C runtime.
pub open spec fn database_args(
    unit: Unit,
    kind: KindContext,
    family: NativeCompilerFamily,
    env: EnvVars,
    language: NativeSourceLanguage,
    cpp: Seq<Text>,
    c: Seq<Text>,
    cxx: Seq<Text>,
) -> CompileArgsView {
    CompileArgsView {
        profile_args: profile_compile_args(unit.profile, family) + shared_compile_args(
            unit.target.is_cdylib || unit.target.is_dylib,
            family,
        ),
        env_args: compile_env_flags(env, kind.target_triple@, language, cpp, c, cxx),
        feature_args: feature_args(texts(unit.features@), family),
        cfg_args: cfg_args(unit.profile.debug_assertions, kind.cfgs@, family),
        native_define_args: define_args(texts(unit.target.native_defines@), family),
    }
}

/// The directories that headers of a unit are looked for in.
pub open spec fn unit_include_dirs(
    unit: Unit,
    sources: Seq<Text>,
    descriptors: Seq<DescriptorView>,
    outputs: BuildScriptOutputs,
    fs: FsView,
) -> Seq<Text> {
    all_include_dirs(
        unit.package_root@,
        fs,
        sources,
        opt_text(unit.target.native_include_root),
        texts(unit.target.native_include_dirs@),
        declared_includes(outputs, unit.build_script_metadatas, unit.previous_build_outputs@),
        dependency_includes(outputs, fs, descriptors),
    )
}

/// What the commands of a unit are made of.
pub struct UnitParts {
    /// The tools.
    pub toolchain: ToolchainView,
    /// The sources.
    pub sources: Seq<Text>,
    /// The directories that headers are looked for in.
    pub dirs: Seq<Text>,
    /// What is built.
    pub primary: Text,
    /// Options of the configuration for the preprocessor.
    pub cpp: Seq<Text>,
    /// Options of the configuration for the C compiler.
    pub c: Seq<Text>,
    /// Options of the configuration for the C++ compiler.
    pub cxx: Seq<Text>,
}

/// The candidate for the source in place `i`.
pub open spec fn candidate_of(ctx: BuildContext, unit: Unit, parts: UnitParts, i: int) -> CandidateView {
    let kind = ctx.kinds@[unit.kind as int];
    let family = parts.toolchain.family;
    let source = parts.sources[i];
    let language = match language_of(source) {
        Some(language) => language,
        None => NativeSourceLanguage::C,
    };
    let objects = objects_of(
        unit.package_root@,
        parts.sources,
        objects_dir_of(parts.primary),
        family,
    );
    CandidateView {
        key: (unit.package_root@, source),
        command: CompileCommandView {
            directory: unit.package_root@,
            file: source,
            arguments: command_line(
                compile_command(
                    parts.toolchain,
                    database_args(
                        unit,
                        kind,
                        family,
                        ctx.env,
                        language,
                        parts.cpp,
                        parts.c,
                        parts.cxx,
                    ),
                    language,
                    source,
                    objects[i],
                    depfiles_of(objects, family)[i],
                    parts.dirs,
                ),
            ),
            output: Some(objects[i]),
        },
        priority: (
            package_rank(ctx.root_packages@, unit.package_id),
            mode_rank(unit.mode),
            objects[i],
        ),
    }
}

/// What the commands of a unit are made of, or the first of the messages that say
/// why there are none.
pub open spec fn unit_parts(
    ctx: BuildContext,
    outputs: BuildScriptOutputs,
    graph: UnitGraph,
    u: int,
) -> Result<UnitParts, Text> {
    let unit = graph.units@[u];
    let kind = ctx.kinds@[unit.kind as int];
    match ctx.toolchain(kind) {
        Err(e) => Err(e),
        Ok(toolchain) => match unit.outputs {
            Err(e) => Err(e@),
            Ok(files) => match unit.target.source {
                None => Err(no_source_message()),
                Some(source) => match unit_sources(unit, source@, ctx.fs) {
                    Err(e) => Err(e),
                    Ok(sources) => match descriptors_of(graph, graph.native_dependencies(u)) {
                        Err(e) => Err(e),
                        Ok(descriptors) => match primary_output(files@) {
                            None => Err(no_output_message()),
                            Some(primary) => match (
                                config_flags(kind.config, "native-cppflags"@),
                                config_flags(kind.config, "native-cflags"@),
                                config_flags(kind.config, "native-cxxflags"@),
                            ) {
                                (Ok(cpp), Ok(c), Ok(cxx)) => Ok(
                                    UnitParts {
                                        toolchain,
                                        sources,
                                        dirs: unit_include_dirs(
                                            unit,
                                            sources,
                                            descriptors,
                                            outputs,
                                            ctx.fs,
                                        ),
                                        primary,
                                        cpp,
                                        c,
                                        cxx,
                                    },
                                ),
                                (Err(e), _, _) => Err(e),
                                (_, Err(e), _) => Err(e),
                                (_, _, Err(e)) => Err(e),
                            },
                        },
                    },
                },
            },
        },
    }
}

/// Each source is native.
pub open spec fn all_native(sources: Seq<Text>) -> bool {
    forall|i: int| 0 <= i < sources.len() ==> language_of(#[trigger] sources[i]) is Some
}

/// The candidates of a unit: one for each source, none for a unit of headers.
pub open spec fn unit_candidates(
    ctx: BuildContext,
    outputs: BuildScriptOutputs,
    graph: UnitGraph,
    u: int,
) -> Result<Seq<CandidateView>, Text> {
    let unit = graph.units@[u];
    if unit.target.is_header_only {
        Ok(Seq::empty())
    } else {
        match unit_parts(ctx, outputs, graph, u) {
            Err(e) => Err(e),
            Ok(parts) => if all_native(parts.sources) {
                Ok(
                    Seq::new(
                        parts.sources.len(),
                        |i: int| candidate_of(ctx, unit, parts, i),
                    ),
                )
            } else {
                Err(foreign_source_message())
            },
        }
    }
}

/// What a result that is candidates or a message holds.
pub open spec fn candidates_result(r: Result<Vec<CompileCommandCandidate>, String>) -> Result<
    Seq<CandidateView>,
    Text,
> {
    match r {
        Ok(list) => Ok(candidates_view(list@)),
        Err(e) => Err(e@),
    }
}

fn push_candidate(list: &mut Vec<CompileCommandCandidate>, candidate: CompileCommandCandidate)
    ensures
        candidates_view(final(list)@) == candidates_view(old(list)@).push(candidate@),
{
    let ghost before = list@;
    list.push(candidate);
    assert(candidates_view(list@) =~= candidates_view(before).push(candidate@));
}

/// The candidates of a unit.
pub fn compile_commands_for_unit(
    ctx: &BuildContext,
    outputs: &BuildScriptOutputs,
    graph: &UnitGraph,
    unit: usize,
) -> (r: Result<Vec<CompileCommandCandidate>, String>)
    requires
        graph.wf(),
        ctx.knows(*graph),
        unit < graph.units@.len(),
        graph.units@[unit as int].target.is_header_only || has_file_name(graph.units@[unit as int]),
    ensures
        candidates_result(r) == unit_candidates(*ctx, *outputs, *graph, unit as int),
{
    let it = &graph.units[unit];
    assert(graph.units@[unit as int].kind < ctx.kinds@.len());
    let kind = &ctx.kinds[it.kind];
    let mut list: Vec<CompileCommandCandidate> = Vec::new();
    assert(candidates_view(list@) =~= Seq::empty());
    if it.target.is_header_only {
        return Ok(list);
    }
    let toolchain = match detect_toolchain(
        kind.target_triple.as_str(),
        &ctx.env,
        &kind.config,
        &ctx.found,
        &ctx.fs,
        &kind.msvc,
        ctx.rule,
    ) {
        Ok(toolchain) => toolchain,
        Err(e) => {
            return Err(e);
        },
    };
    let files = match &it.outputs {
        Ok(files) => files,
        Err(e) => {
            return Err(e.clone());
        },
    };
    let source = match &it.target.source {
        Some(source) => source,
        None => {
            return Err("native targets require a source path".to_owned());
        },
    };
    let sources = match collect_target_sources(
        source.as_str(),
        &it.target.native_sources_root,
        &ctx.fs,
        &it.target.native_sources_walk,
    ) {
        Ok(sources) => sources,
        Err(e) => {
            return Err(e);
        },
    };
    let declared = declared_include_dirs_from_metadata(
        outputs,
        &it.build_script_metadatas,
        &it.previous_build_outputs,
    );
    let descriptors = match transitive_native_dependency_descriptors(graph, unit) {
        Ok(descriptors) => descriptors,
        Err(e) => {
            return Err(e);
        },
    };
    let dependency = dependency_include_dirs_from_descriptors(outputs, &ctx.fs, &descriptors);
    let dirs = include_dirs(
        it.package_root.as_str(),
        &ctx.fs,
        &sources,
        &it.target.native_include_root,
        &it.target.native_include_dirs,
        &declared,
        &dependency,
    );
    let primary = match primary_output_of(files) {
        Some(primary) => primary,
        None => {
            return Err("native target is missing a primary output".to_owned());
        },
    };
    let family = toolchain.family;
    let objects_dir = objects_dir(primary.as_str());
    let objects = object_paths(
        it.package_root.as_str(),
        &sources,
        objects_dir.as_str(),
        family,
    );
    let depfiles = depfile_paths(&objects, family);
    let mut profile_args = native_profile_compile_args(&it.profile, family);
    append_list(
        &mut profile_args,
        &native_shared_compile_args(it.target.is_cdylib || it.target.is_dylib, family),
    );
    let define_list = native_define_args(&it.target.native_defines, family);
    let feature_list = native_feature_args(&it.features, family);
    let cfg_list = native_cfg_args(it.profile.debug_assertions, &kind.cfgs, family);
    let cpp = match native_cppflags_config_flags(&kind.config) {
        Ok(args) => args,
        Err(e) => {
            return Err(e);
        },
    };
    let c = match native_c_compile_config_flags(&kind.config) {
        Ok(args) => args,
        Err(e) => {
            return Err(e);
        },
    };
    let cxx = match native_cxx_compile_config_flags(&kind.config) {
        Ok(args) => args,
        Err(e) => {
            return Err(e);
        },
    };
    let package_rank = package_priority(&ctx.root_packages, it.package_id);
    let mode_rank = compile_mode_priority(it.mode);
    let ghost parts = UnitParts {
        toolchain: toolchain@,
        sources: texts(sources@),
        dirs: texts(dirs@),
        primary: primary@,
        cpp: texts(cpp@),
        c: texts(c@),
        cxx: texts(cxx@),
    };
    let ghost want = Seq::new(
        parts.sources.len(),
        |i: int| candidate_of(*ctx, graph.units@[unit as int], parts, i),
    );
    assert(unit_parts(*ctx, *outputs, *graph, unit as int) == Ok::<UnitParts, Text>(parts));
    assert(texts(objects@).len() == objects@.len());
    assert(opt_paths(depfiles@).len() == depfiles@.len());
    assert(texts(sources@).len() == sources@.len());
    let mut i: usize = 0;
    assert(candidates_view(list@) =~= want.take(0));
    while i < sources.len()
        invariant
            i <= sources@.len(),
            sources@.len() == objects@.len(),
            sources@.len() == depfiles@.len(),
            unit < graph.units@.len(),
            *it == graph.units@[unit as int],
            it.kind < ctx.kinds@.len(),
            *kind == ctx.kinds@[it.kind as int],
            !it.target.is_header_only,
            unit_parts(*ctx, *outputs, *graph, unit as int) == Ok::<UnitParts, Text>(parts),
            parts.toolchain == toolchain@,
            parts.sources == texts(sources@),
            parts.dirs == texts(dirs@),
            parts.primary == primary@,
            parts.cpp == texts(cpp@),
            parts.c == texts(c@),
            parts.cxx == texts(cxx@),
            family == toolchain.family,
            texts(objects@) == objects_of(
                it.package_root@,
                parts.sources,
                objects_dir_of(parts.primary),
                family,
            ),
            opt_paths(depfiles@) == depfiles_of(texts(objects@), family),
            texts(profile_args@) == profile_compile_args(it.profile, family)
                + shared_compile_args(it.target.is_cdylib || it.target.is_dylib, family),
            texts(feature_list@) == feature_args(texts(it.features@), family),
            texts(cfg_list@) == cfg_args(it.profile.debug_assertions, kind.cfgs@, family),
            texts(define_list@) == define_args(texts(it.target.native_defines@), family),
            package_rank == self::package_rank(ctx.root_packages@, it.package_id),
            mode_rank == self::mode_rank(it.mode),
            want == Seq::new(
                parts.sources.len(),
                |i: int| candidate_of(*ctx, graph.units@[unit as int], parts, i),
            ),
            forall|k: int| 0 <= k < i ==> language_of(#[trigger] parts.sources[k]) is Some,
            candidates_view(list@) == want.take(i as int),
        decreases sources@.len() - i,
    {
        assert(parts.sources[i as int] == sources@[i as int]@);
        assert(texts(objects@)[i as int] == objects@[i as int]@);
        assert(opt_paths(depfiles@)[i as int] == opt_text(depfiles@[i as int]));
        let language = match source_language(sources[i].as_str()) {
            Some(language) => language,
            None => {
                return Err("native target contains a non-native source file".to_owned());
            },
        };
        let env_args = native_compile_env_flags(
            &ctx.env,
            kind.target_triple.as_str(),
            language,
            &cpp,
            &c,
            &cxx,
        );
        let args = CompileArgs {
            profile_args: &profile_args,
            env_args: &env_args,
            feature_args: &feature_list,
            cfg_args: &cfg_list,
            native_define_args: &define_list,
        };
        let cmd = build_compile_object_command(
            &toolchain,
            &args,
            language,
            sources[i].as_str(),
            objects[i].as_str(),
            &depfiles[i],
            &dirs,
        );
        let candidate = CompileCommandCandidate {
            key: (it.package_root.clone(), sources[i].clone()),
            command: CompileCommand {
                directory: it.package_root.clone(),
                file: sources[i].clone(),
                arguments: command_arguments(&cmd),
                output: Some(objects[i].clone()),
            },
            priority: (package_rank, mode_rank, objects[i].clone()),
        };
        proof {
            assert(args@ == database_args(
                *it,
                *kind,
                family,
                ctx.env,
                language,
                parts.cpp,
                parts.c,
                parts.cxx,
            ));
            assert(want[i as int] == candidate_of(*ctx, *it, parts, i as int));
            assert(candidate@ =~= want[i as int]);
            assert(want.take(i + 1) =~= want.take(i as int).push(want[i as int]));
        }
        push_candidate(&mut list, candidate);
        i = i + 1;
    }
    assert(want.take(i as int) =~= want);
    Ok(list)
}

/// What candidates are ordered by first: their priority.
pub open spec fn priority_key(c: CandidateView) -> Key {
    seq![seq![c.priority.0 as u32], seq![c.priority.1 as u32]] + path_key(c.priority.2)
}

/// What entries are ordered and told apart by: the directory, and then the source.
pub open spec fn entry_key(c: CandidateView) -> Key {
    path_key(c.key.0) + seq![seq![1u32]] + path_key(c.key.1)
}

/// What candidates are ordered by first.
pub open spec fn priority_keys(list: Seq<CandidateView>) -> Seq<Key> {
    list.map_values(|c: CandidateView| priority_key(c))
}

/// What entries are ordered and told apart by.
pub open spec fn entry_keys(list: Seq<CandidateView>) -> Seq<Key> {
    list.map_values(|c: CandidateView| entry_key(c))
}

/// Of the candidates with one key the one with the least priority, in the order of
/// the keys.
pub open spec fn chosen_candidates(list: Seq<CandidateView>) -> Seq<CandidateView> {
    let sorted = sorted_by(list, priority_keys(list));
    sorted_unique_by(sorted, entry_keys(sorted))
}

/// The entries of the database.
pub open spec fn database_of(list: Seq<CandidateView>) -> Seq<CompileCommandView> {
    chosen_candidates(list).map_values(|c: CandidateView| c.command)
}

fn append_key(key: &mut Vec<Vec<u32>>, more: Vec<Vec<u32>>)
    ensures
        key_view(final(key)@) == key_view(old(key)@) + key_view(more@),
{
    let ghost before = key@;
    let mut more = more;
    let ghost added = more@;
    key.append(&mut more);
    assert(key@ =~= before + added);
    assert(key_view(key@) =~= key_view(before) + key_view(added));
}

fn one_part(n: u32) -> (r: Vec<Vec<u32>>)
    ensures
        key_view(r@) == seq![seq![n]],
{
    let part: Vec<u32> = vec![n];
    assert(part@ =~= seq![n]);
    let r: Vec<Vec<u32>> = vec![part];
    assert(key_view(r@) =~= seq![seq![n]]);
    r
}

fn priority_key_of(c: &CompileCommandCandidate) -> (r: Vec<Vec<u32>>)
    ensures
        key_view(r@) == priority_key(c@),
{
    let mut r = one_part(c.priority.0 as u32);
    append_key(&mut r, one_part(c.priority.1 as u32));
    append_key(&mut r, path_key_of(c.priority.2.as_str()));
    assert(key_view(r@) =~= priority_key(c@));
    r
}

fn entry_key_of(c: &CompileCommandCandidate) -> (r: Vec<Vec<u32>>)
    ensures
        key_view(r@) == entry_key(c@),
{
    let mut r = path_key_of(c.key.0.as_str());
    append_key(&mut r, one_part(1));
    append_key(&mut r, path_key_of(c.key.1.as_str()));
    r
}

fn copy_command(c: &CompileCommand) -> (r: CompileCommand)
    ensures
        r@ == c@,
{
    CompileCommand {
        directory: c.directory.clone(),
        file: c.file.clone(),
        arguments: copy_list(&c.arguments),
        output: copy_opt(&c.output),
    }
}

/// The entries of the database, out of all candidates.
pub fn choose_compile_commands(candidates: &Vec<CompileCommandCandidate>) -> (r: Vec<
    CompileCommand,
>)
    ensures
        commands_view(r@) == database_of(candidates_view(candidates@)),
{
    let ghost all = candidates_view(candidates@);
    let ghost first = priority_keys(all);
    let mut keys: Vec<Vec<Vec<u32>>> = Vec::new();
    let mut i: usize = 0;
    while i < candidates.len()
        invariant
            i <= candidates@.len(),
            all == candidates_view(candidates@),
            first == priority_keys(all),
            keys_view(keys@) == first.take(i as int),
        decreases candidates@.len() - i,
    {
        let key = priority_key_of(&candidates[i]);
        proof {
            lemma_keys_push(keys@, key);
            assert(all[i as int] == candidates@[i as int]@);
            assert(first.take(i + 1) =~= first.take(i as int).push(first[i as int]));
        }
        keys.push(key);
        i = i + 1;
    }
    assert(keys_view(keys@) =~= first);
    assert(keys@.len() == keys_view(keys@).len());
    let order = order_by_keys(&keys);
    let ghost sorted = sorted_by(all, first);
    let ghost second = entry_keys(sorted);
    let mut keys: Vec<Vec<Vec<u32>>> = Vec::new();
    let mut i: usize = 0;
    assert(sorted == pick(all, places_view(order@)));
    while i < order.len()
        invariant
            i <= order@.len(),
            all == candidates_view(candidates@),
            forall|a: int| 0 <= a < order@.len() ==> #[trigger] order@[a] < candidates@.len(),
            sorted == pick(all, places_view(order@)),
            second == entry_keys(sorted),
            keys_view(keys@) == second.take(i as int),
        decreases order@.len() - i,
    {
        let at = order[i];
        let key = entry_key_of(&candidates[at]);
        proof {
            lemma_keys_push(keys@, key);
            assert(sorted[i as int] == all[at as int]);
            assert(all[at as int] == candidates@[at as int]@);
            assert(second.take(i + 1) =~= second.take(i as int).push(second[i as int]));
        }
        keys.push(key);
        i = i + 1;
    }
    assert(keys_view(keys@) =~= second);
    assert(keys@.len() == keys_view(keys@).len());
    let unique = order_unique_by_keys(&keys);
    let ghost want = database_of(all);
    let ghost chosen = pick(sorted, places_view(unique@));
    assert(chosen == chosen_candidates(all));
    let mut r: Vec<CompileCommand> = Vec::new();
    let mut j: usize = 0;
    assert(commands_view(r@) =~= want.take(0));
    while j < unique.len()
        invariant
            j <= unique@.len(),
            all == candidates_view(candidates@),
            forall|a: int| 0 <= a < order@.len() ==> #[trigger] order@[a] < candidates@.len(),
            forall|a: int| 0 <= a < unique@.len() ==> #[trigger] unique@[a] < order@.len(),
            sorted == pick(all, places_view(order@)),
            chosen == pick(sorted, places_view(unique@)),
            want == chosen.map_values(|c: CandidateView| c.command),
            commands_view(r@) == want.take(j as int),
        decreases unique@.len() - j,
    {
        let at = order[unique[j]];
        let command = copy_command(&candidates[at].command);
        proof {
            let k = unique@[j as int] as int;
            assert(chosen[j as int] == sorted[k]);
            assert(sorted[k] == all[at as int]);
            assert(all[at as int] == candidates@[at as int]@);
            assert(want.take(j + 1) =~= want.take(j as int).push(want[j as int]));
        }
        let ghost before = r@;
        r.push(command);
        assert(commands_view(r@) =~= commands_view(before).push(command@));
        j = j + 1;
    }
    assert(want.take(j as int) =~= want);
    r
}

/// The unit is compiled by a command.
pub open spec fn is_compiled(unit: Unit) -> bool {
    unit.target.is_native && unit.mode != CompileMode::Doc && unit.mode
        != CompileMode::RunCustomBuild
}

/// The unit is compiled, and not only headers.
pub open spec fn makes_objects(unit: Unit) -> bool {
    is_compiled(unit) && !unit.target.is_header_only
}

/// The candidates of the first `n` units, or the message of the first of them that
/// has none.
pub open spec fn graph_candidates(
    ctx: BuildContext,
    outputs: BuildScriptOutputs,
    graph: UnitGraph,
    n: nat,
) -> Result<Seq<CandidateView>, Text>
    decreases n,
{
    if n == 0 {
        Ok(Seq::empty())
    } else {
        match graph_candidates(ctx, outputs, graph, (n - 1) as nat) {
            Err(e) => Err(e),
            Ok(list) => if is_compiled(graph.units@[n - 1]) {
                match unit_candidates(ctx, outputs, graph, n - 1) {
                    Ok(more) => Ok(list + more),
                    Err(e) => Err(e),
                }
            } else {
                Ok(list)
            },
        }
    }
}

proof fn lemma_graph_err(
    ctx: BuildContext,
    outputs: BuildScriptOutputs,
    graph: UnitGraph,
    k: nat,
    n: nat,
)
    requires
        k <= n,
        graph_candidates(ctx, outputs, graph, k) is Err,
    ensures
        graph_candidates(ctx, outputs, graph, n) == graph_candidates(ctx, outputs, graph, k),
    decreases n,
{
    if k < n {
        lemma_graph_err(ctx, outputs, graph, k, (n - 1) as nat);
    }
}

/// The database of a build.
pub open spec fn graph_database(
    ctx: BuildContext,
    outputs: BuildScriptOutputs,
    graph: UnitGraph,
) -> Result<Seq<CompileCommandView>, Text> {
    match graph_candidates(ctx, outputs, graph, graph.size()) {
        Ok(list) => Ok(database_of(list)),
        Err(e) => Err(e),
    }
}

/// What a result that is entries or a message holds.
pub open spec fn commands_result(r: Result<Vec<CompileCommand>, String>) -> Result<
    Seq<CompileCommandView>,
    Text,
> {
    match r {
        Ok(list) => Ok(commands_view(list@)),
        Err(e) => Err(e@),
    }
}

/// The database of a build.
pub fn write_compile_commands(
    ctx: &BuildContext,
    outputs: &BuildScriptOutputs,
    graph: &UnitGraph,
) -> (r: Result<Vec<CompileCommand>, String>)
    requires
        graph.wf(),
        ctx.knows(*graph),
        forall|u: int|
            0 <= u < graph.units@.len() && makes_objects(#[trigger] graph.units@[u])
                ==> has_file_name(graph.units@[u]),
    ensures
        commands_result(r) == graph_database(*ctx, *outputs, *graph),
{
    let mut all: Vec<CompileCommandCandidate> = Vec::new();
    let mut u: usize = 0;
    assert(candidates_view(all@) =~= Seq::empty());
    while u < graph.units.len()
        invariant
            u <= graph.units@.len(),
            graph.wf(),
            ctx.knows(*graph),
            forall|u: int|
                0 <= u < graph.units@.len() && makes_objects(#[trigger] graph.units@[u])
                    ==> has_file_name(graph.units@[u]),
            graph_candidates(*ctx, *outputs, *graph, u as nat) == Ok::<Seq<CandidateView>, Text>(
                candidates_view(all@),
            ),
        decreases graph.units@.len() - u,
    {
        let it = &graph.units[u];
        if it.target.is_native && it.mode != CompileMode::Doc && it.mode
            != CompileMode::RunCustomBuild {
            match compile_commands_for_unit(ctx, outputs, graph, u) {
                Ok(more) => {
                    let ghost before = all@;
                    let mut more = more;
                    let ghost added = more@;
                    all.append(&mut more);
                    assert(all@ =~= before + added);
                    assert(candidates_view(all@) =~= candidates_view(before) + candidates_view(
                        added,
                    ));
                },
                Err(e) => {
                    proof {
                        lemma_graph_err(
                            *ctx,
                            *outputs,
                            *graph,
                            (u + 1) as nat,
                            graph.size(),
                        );
                    }
                    return Err(e);
                },
            }
        }
        u = u + 1;
    }
    Ok(choose_compile_commands(&all))
}

proof fn lemma_keys_split(a: Key, b: Key, x: Key, y: Key)
    requires
        a + seq![seq![1u32]] + b == x + seq![seq![1u32]] + y,
        forall|i: int| 0 <= i < a.len() ==> #[trigger] a[i] != seq![1u32],
        forall|i: int| 0 <= i < x.len() ==> #[trigger] x[i] != seq![1u32],
    ensures
        a == x,
        b == y,
{
    let p = a + seq![seq![1u32]] + b;
    let q = x + seq![seq![1u32]] + y;
    assert(p[a.len() as int] == seq![1u32]);
    assert(q[x.len() as int] == seq![1u32]);
    if a.len() < x.len() {
        assert(q[a.len() as int] == x[a.len() as int]);
    } else if x.len() < a.len() {
        assert(p[x.len() as int] == a[x.len() as int]);
    }
    assert(a.len() == x.len());
    assert(p.take(a.len() as int) =~= a);
    assert(q.take(x.len() as int) =~= x);
    assert(p.skip(a.len() as int + 1) =~= b);
    assert(q.skip(x.len() as int + 1) =~= y);
}

proof fn lemma_path_key_parts(s: Text)
    ensures
        forall|i: int| 0 <= i < path_key(s).len() ==> #[trigger] path_key(s)[i] != seq![1u32],
{
    assert forall|i: int| 0 <= i < path_key(s).len() implies #[trigger] path_key(s)[i]
        != seq![1u32] by {
        assert(path_key(s)[i][0] >= 2);
        assert(seq![1u32][0] == 1);
    }
}

/// Two candidates have one key exactly where they are for the same source of the
/// same directory.
pub proof fn lemma_entry_key(a: CandidateView, b: CandidateView)
    ensures
        entry_key(a) == entry_key(b) <==> same_path(a.key.0, b.key.0) && same_path(
            a.key.1,
            b.key.1,
        ),
{
    lemma_path_key(a.key.0, b.key.0);
    lemma_path_key(a.key.1, b.key.1);
    lemma_path_key_parts(a.key.0);
    lemma_path_key_parts(b.key.0);
    if entry_key(a) == entry_key(b) {
        lemma_keys_split(
            path_key(a.key.0),
            path_key(a.key.1),
            path_key(b.key.0),
            path_key(b.key.1),
        );
    }
}

/// Among the chosen ones there is one with the key of `c` whose priority is not
/// behind that of `c`.
pub open spec fn is_served(chosen: Seq<CandidateView>, c: CandidateView) -> bool {
    exists|i: int|
        0 <= i < chosen.len() && entry_key(#[trigger] chosen[i]) == entry_key(c) && !key_less(
            priority_key(c),
            priority_key(chosen[i]),
        )
}

/// No two entries of the database are for the same source of the same directory,
/// each of them is one of the candidates, and for each candidate there is an entry
/// for its source whose priority is not behind its own.
pub proof fn lemma_database_unique(list: Seq<CandidateView>)
    ensures
        forall|i: int, j: int|
            0 <= i < j < chosen_candidates(list).len() ==> !(same_path(
                (#[trigger] chosen_candidates(list)[i]).key.0,
                (#[trigger] chosen_candidates(list)[j]).key.0,
            ) && same_path(chosen_candidates(list)[i].key.1, chosen_candidates(list)[j].key.1)),
        forall|i: int|
            0 <= i < chosen_candidates(list).len() ==> list.contains(
                #[trigger] chosen_candidates(list)[i],
            ),
        forall|k: int|
            0 <= k < list.len() ==> is_served(chosen_candidates(list), #[trigger] list[k]),
{
    let first = priority_keys(list);
    let order = stable_order(first);
    lemma_stable_order(first);
    let sorted = sorted_by(list, first);
    let second = entry_keys(sorted);
    let places = without_repeats(second, stable_order(second));
    lemma_unique_order(second);
    let r = chosen_candidates(list);
    assert forall|i: int, j: int| 0 <= i < j < r.len() implies !(same_path(
        (#[trigger] r[i]).key.0,
        (#[trigger] r[j]).key.0,
    ) && same_path(r[i].key.1, r[j].key.1)) by {
        assert(r[i] == sorted[places[i]] && r[j] == sorted[places[j]]);
        assert(second[places[i]] == entry_key(r[i]) && second[places[j]] == entry_key(r[j]));
        lemma_key_total(entry_key(r[i]), entry_key(r[j]));
        lemma_entry_key(r[i], r[j]);
    }
    assert forall|i: int| 0 <= i < r.len() implies list.contains(#[trigger] r[i]) by {
        assert(r[i] == sorted[places[i]]);
        assert(sorted[places[i]] == list[order[places[i]]]);
    }
    assert forall|k: int| 0 <= k < list.len() implies is_served(r, #[trigger] list[k]) by {
        assert(order.contains(k));
        let s = choose|s: int| 0 <= s < order.len() && order[s] == k;
        assert(sorted[s] == list[k]);
        assert(is_covered(second, places, s));
        let a = choose|a: int|
            0 <= a < places.len() && second[#[trigger] places[a]] == second[s] && places[a] <= s;
        assert(r[a] == sorted[places[a]]);
        assert(entry_key(r[a]) == entry_key(list[k]));
        assert(sorted[places[a]] == list[order[places[a]]]);
        assert(first[order[places[a]]] == priority_key(r[a]));
        assert(first[order[s]] == priority_key(list[k]));
        lemma_key_total(priority_key(r[a]), priority_key(list[k]));
        if places[a] < s {
            assert(goes_before(first, order[places[a]], order[s]));
        }
    }
}

} // verus!
