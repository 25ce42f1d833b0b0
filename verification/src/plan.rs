//! What a native build does: the steps that compile and link a unit.
use vstd::prelude::*;

use crate::command::{Command, CommandView};
use crate::config::{config_flags, native_c_compile_config_flags, native_cppflags_config_flags};
use crate::config::{native_cxx_compile_config_flags, native_link_config_flags, NativeConfig};
use crate::env::{compile_env_flags, link_env_flags, native_compile_env_flags};
use crate::env::{native_link_env_flags, EnvVars};
use crate::fs::FsView;
use crate::layout::{all_include_dirs, collect_target_sources, depfile_paths, depfiles_of};
use crate::layout::{include_dirs, object_paths, objects_dir, objects_dir_of, objects_of, opt_paths};
use crate::layout::target_sources;
use crate::link::{link_inputs_of, native_link_inputs_from_descriptors, LinkInputsView};
use crate::link::NativeLinkContext;
use crate::native::{language_of, source_language, NativeSourceLanguage};
use crate::outputs::{declared_include_dirs_from_metadata, declared_includes};
use crate::outputs::{dependency_include_dirs_from_descriptors, dependency_includes};
use crate::outputs::{descriptors_view, BuildScriptOutputs, DescriptorView};
use crate::outputs::NativeDependencyDescriptor;
use crate::path::{file_name, parent, parent_of, PathRule};
use crate::profile::{cfg_args, crt_compile_args, crt_link_args, crt_static, define_args};
use crate::profile::{feature_args, native_cfg_args, native_crt_compile_args, native_crt_link_args};
use crate::profile::{native_crt_static_enabled, native_define_args, native_feature_args};
use crate::profile::{native_profile_compile_args, native_profile_link_args};
use crate::profile::{native_shared_compile_args, profile_compile_args, profile_link_args};
use crate::profile::{shared_compile_args, Cfg};
use crate::text::{append_list, opt_text, texts, Text};
use crate::toolchain::{detect_toolchain, toolchain_of, FoundTools, MsvcEnvironment};
use crate::toolchain::{NativeToolchain, ToolchainView};
use crate::tools::{archive_command, archive_library, build_compile_object_command, compile_command};
use crate::tools::{link_binary, link_binary_command, link_shared_command, link_shared_library};
use crate::tools::{CompileArgs, CompileArgsView};
use crate::units::{descriptors_of, primary_output, primary_output_of};
use crate::units::{transitive_native_dependency_descriptors, OutputFile, Unit, UnitGraph};

verus! {

/// A compilation target.
#[derive(Debug)]
pub struct KindContext {
    /// Its triple.
    pub target_triple: String,
    /// The configuration for it.
    pub config: NativeConfig,
    /// Its configuration values.
    pub cfgs: Vec<Cfg>,
    /// The compiler environment for it, where one was loaded.
    pub msvc: Option<MsvcEnvironment>,
}

/// What a build finds around it.
#[derive(Debug)]
pub struct BuildContext {
    /// The environment variables.
    pub env: EnvVars,
    /// The tools on the search path.
    pub found: FoundTools,
    /// What stands at paths.
    pub fs: FsView,
    /// How the paths of programs are written.
    pub rule: PathRule,
    /// The compilation targets.
    pub kinds: Vec<KindContext>,
    /// The packages that the build was asked for.
    pub root_packages: Vec<u64>,
}

impl BuildContext {
    /// The compilation target of each unit is known.
    pub open spec fn knows(self, graph: UnitGraph) -> bool {
        forall|u: int|
            0 <= u < graph.units@.len() ==> (#[trigger] graph.units@[u]).kind < self.kinds@.len()
    }

    /// The tools for a compilation target.
    pub open spec fn toolchain(self, kind: KindContext) -> Result<ToolchainView, Text> {
        toolchain_of(
            kind.target_triple@,
            self.env,
            kind.config,
            self.found,
            self.fs,
            kind.msvc,
            self.rule,
        )
    }
}

/// The files that a unit leaves behind, as far as they can be told.
pub open spec fn files_of(unit: Unit) -> Seq<OutputFile> {
    match unit.outputs {
        Ok(files) => files@,
        Err(_) => Seq::empty(),
    }
}

/// What is built has a name.
pub open spec fn has_file_name(unit: Unit) -> bool {
    primary_output(files_of(unit)) matches Some(path) ==> file_name(path) is Some
}

/// The compilation of a unit, ready to run once the build scripts have run.
#[derive(Debug)]
pub struct CompileWork<'a> {
    /// The unit.
    pub unit: &'a Unit,
    /// The compilation target.
    pub kind: &'a KindContext,
    /// The tools.
    pub toolchain: NativeToolchain,
    /// What its native dependencies give.
    pub dependency_descriptors: Vec<NativeDependencyDescriptor<'a>>,
    /// The sources.
    pub sources: Vec<String>,
    /// Options of the configuration for the preprocessor.
    pub cpp_config_args: Vec<String>,
    /// Options of the configuration for the C compiler.
    pub c_config_args: Vec<String>,
    /// Options of the configuration for the C++ compiler.
    pub cxx_config_args: Vec<String>,
    /// Options of the configuration for the linker.
    pub link_config_args: Vec<String>,
}

/// What the compilation of a unit holds.
pub struct WorkView {
    /// The unit.
    pub unit: Unit,
    /// The compilation target.
    pub kind: KindContext,
    /// The tools.
    pub toolchain: ToolchainView,
    /// What its native dependencies give.
    pub dependency_descriptors: Seq<DescriptorView>,
    /// The sources.
    pub sources: Seq<Text>,
    /// Options of the configuration for the preprocessor.
    pub cpp_config_args: Seq<Text>,
    /// Options of the configuration for the C compiler.
    pub c_config_args: Seq<Text>,
    /// Options of the configuration for the C++ compiler.
    pub cxx_config_args: Seq<Text>,
    /// Options of the configuration for the linker.
    pub link_config_args: Seq<Text>,
}

impl<'a> View for CompileWork<'a> {
    type V = WorkView;

    open spec fn view(&self) -> WorkView {
        WorkView {
            unit: *self.unit,
            kind: *self.kind,
            toolchain: self.toolchain@,
            dependency_descriptors: descriptors_view(self.dependency_descriptors@),
            sources: texts(self.sources@),
            cpp_config_args: texts(self.cpp_config_args@),
            c_config_args: texts(self.c_config_args@),
            cxx_config_args: texts(self.cxx_config_args@),
            link_config_args: texts(self.link_config_args@),
        }
    }
}

/// Where a native target has no source.
pub open spec fn no_source_message() -> Text {
    "native targets require a source path"@
}

/// The sources of a unit.
pub open spec fn unit_sources(unit: Unit, source: Text, fs: FsView) -> Result<Seq<Text>, Text> {
    target_sources(
        source,
        opt_text(unit.target.native_sources_root),
        fs,
        unit.target.native_sources_walk@,
    )
}

/// What the options of the configuration are for the four tools, or the message
/// that says why they cannot be told.
pub open spec fn config_args(config: NativeConfig) -> Result<
    (Seq<Text>, Seq<Text>, Seq<Text>, Seq<Text>),
    Text,
> {
    match (
        config_flags(config, "native-cppflags"@),
        config_flags(config, "native-cflags"@),
        config_flags(config, "native-cxxflags"@),
        config_flags(config, "native-ldflags"@),
    ) {
        (Ok(cpp), Ok(c), Ok(cxx), Ok(link)) => Ok((cpp, c, cxx, link)),
        (Err(e), _, _, _) => Err(e),
        (_, Err(e), _, _) => Err(e),
        (_, _, Err(e), _) => Err(e),
        (_, _, _, Err(e)) => Err(e),
    }
}

/// The compilation of a unit: none for a unit of headers, else the work, or the
/// first of the messages that say why it cannot be done. The tools come first, then
/// the files, the dependencies, the source, all the sources, and the options.
pub open spec fn work_of(ctx: BuildContext, graph: UnitGraph, u: int) -> Result<
    Option<WorkView>,
    Text,
> {
    let unit = graph.units@[u];
    let kind = ctx.kinds@[unit.kind as int];
    if unit.target.is_header_only {
        Ok(None)
    } else {
        match ctx.toolchain(kind) {
            Err(e) => Err(e),
            Ok(toolchain) => match unit.outputs {
                Err(e) => Err(e@),
                Ok(_) => match descriptors_of(graph, graph.native_dependencies(u)) {
                    Err(e) => Err(e),
                    Ok(descriptors) => match unit.target.source {
                        None => Err(no_source_message()),
                        Some(source) => match unit_sources(unit, source@, ctx.fs) {
                            Err(e) => Err(e),
                            Ok(sources) => match config_args(kind.config) {
                                Err(e) => Err(e),
                                Ok((cpp, c, cxx, link)) => Ok(
                                    Some(
                                        WorkView {
                                            unit,
                                            kind,
                                            toolchain,
                                            dependency_descriptors: descriptors,
                                            sources,
                                            cpp_config_args: cpp,
                                            c_config_args: c,
                                            cxx_config_args: cxx,
                                            link_config_args: link,
                                        },
                                    ),
                                ),
                            },
                        },
                    },
                },
            },
        }
    }
}

/// What a result that is a compilation, if any, or a message holds.
pub open spec fn work_result(r: Result<Option<CompileWork>, String>) -> Result<
    Option<WorkView>,
    Text,
> {
    match r {
        Ok(Some(work)) => Ok(Some(work@)),
        Ok(None) => Ok(None),
        Err(e) => Err(e@),
    }
}

/// The compilation of a unit; none for a unit of headers.
pub fn compile<'a>(ctx: &'a BuildContext, graph: &'a UnitGraph, unit: usize) -> (r: Result<
    Option<CompileWork<'a>>,
    String,
>)
    requires
        graph.wf(),
        ctx.knows(*graph),
        unit < graph.units@.len(),
    ensures
        work_result(r) == work_of(*ctx, *graph, unit as int),
{
    let it = &graph.units[unit];
    assert(graph.units@[unit as int].kind < ctx.kinds@.len());
    let kind = &ctx.kinds[it.kind];
    if it.target.is_header_only {
        return Ok(None);
    }
    let toolchain = match detect_toolchain(
        kind.target_triple.as_str(),
        &ctx.env,
        &kind.config,
        &ctx.found,
        &ctx.fs,
        &kind.msvc,
        ctx.rule,
    ) {
        Ok(toolchain) => toolchain,
        Err(e) => {
            return Err(e);
        },
    };
    match &it.outputs {
        Ok(_) => {},
        Err(e) => {
            return Err(e.clone());
        },
    }
    let dependency_descriptors = match transitive_native_dependency_descriptors(graph, unit) {
        Ok(descriptors) => descriptors,
        Err(e) => {
            return Err(e);
        },
    };
    let source = match &it.target.source {
        Some(source) => source,
        None => {
            return Err("native targets require a source path".to_owned());
        },
    };
    let sources = match collect_target_sources(
        source.as_str(),
        &it.target.native_sources_root,
        &ctx.fs,
        &it.target.native_sources_walk,
    ) {
        Ok(sources) => sources,
        Err(e) => {
            return Err(e);
        },
    };
    let cpp_config_args = match native_cppflags_config_flags(&kind.config) {
        Ok(args) => args,
        Err(e) => {
            return Err(e);
        },
    };
    let c_config_args = match native_c_compile_config_flags(&kind.config) {
        Ok(args) => args,
        Err(e) => {
            return Err(e);
        },
    };
    let cxx_config_args = match native_cxx_compile_config_flags(&kind.config) {
        Ok(args) => args,
        Err(e) => {
            return Err(e);
        },
    };
    let link_config_args = match native_link_config_flags(&kind.config) {
        Ok(args) => args,
        Err(e) => {
            return Err(e);
        },
    };
    Ok(
        Some(
            CompileWork {
                unit: it,
                kind,
                toolchain,
                dependency_descriptors,
                sources,
                cpp_config_args,
                c_config_args,
                cxx_config_args,
                link_config_args,
            },
        ),
    )
}

/// One step of a build.
#[derive(Debug)]
pub enum Step {
    /// A directory is made, with those above it, unless it is there.
    CreateDir(String),
    /// A command is run.
    Run(Command),
    /// The build ends with a message.
    Fail(String),
}

/// What a step holds.
pub enum StepView {
    /// A directory is made, with those above it, unless it is there.
    CreateDir(Text),
    /// A command is run.
    Run(CommandView),
    /// The build ends with a message.
    Fail(Text),
}

impl View for Step {
    type V = StepView;

    open spec fn view(&self) -> StepView {
        match *self {
            Step::CreateDir(dir) => StepView::CreateDir(dir@),
            Step::Run(cmd) => StepView::Run(cmd@),
            Step::Fail(message) => StepView::Fail(message@),
        }
    }
}

/// What steps hold.
pub open spec fn steps_view(steps: Seq<Step>) -> Seq<StepView> {
    steps.map_values(|step: Step| step@)
}

fn push_step(steps: &mut Vec<Step>, step: Step)
    ensures
        steps_view(final(steps)@) == steps_view(old(steps)@).push(step@),
{
    let ghost before = steps@;
    steps.push(step);
    assert(steps_view(steps@) =~= steps_view(before).push(step@));
}

/// The directory above a path is made, where it has one.
pub open spec fn dir_step(path: Option<Text>) -> Seq<StepView> {
    match path {
        Some(path) => match parent(path) {
            Some(dir) => seq![StepView::CreateDir(dir)],
            None => Seq::empty(),
        },
        None => Seq::empty(),
    }
}

fn push_dir_step(steps: &mut Vec<Step>, path: &str)
    ensures
        steps_view(final(steps)@) == steps_view(old(steps)@) + dir_step(Some(path@)),
{
    let ghost before = steps_view(steps@);
    match parent_of(path) {
        Some(dir) => push_step(steps, Step::CreateDir(dir)),
        None => {},
    }
    assert(steps_view(steps@) =~= before + dir_step(Some(path@)));
}

fn push_opt_dir_step(steps: &mut Vec<Step>, path: &Option<String>)
    ensures
        steps_view(final(steps)@) == steps_view(old(steps)@) + dir_step(opt_text(*path)),
{
    match path {
        Some(path) => push_dir_step(steps, path.as_str()),
        None => {
            assert(steps_view(steps@) =~= steps_view(steps@) + dir_step(None));
        },
    }
}

/// The directories of files are made: where each of them is made, linked to and
/// copied to.
pub open spec fn file_dir_steps(files: Seq<OutputFile>) -> Seq<StepView>
    decreases files.len(),
{
    if files.len() == 0 {
        Seq::empty()
    } else {
        let file = files.last();
        file_dir_steps(files.drop_last()) + dir_step(Some(file.path@)) + dir_step(
            opt_text(file.hardlink),
        ) + dir_step(opt_text(file.export_path))
    }
}

fn push_file_dir_steps(steps: &mut Vec<Step>, files: &Vec<OutputFile>)
    ensures
        steps_view(final(steps)@) == steps_view(old(steps)@) + file_dir_steps(files@),
{
    let ghost start = steps_view(steps@);
    let mut i: usize = 0;
    assert(files@.take(0) =~= Seq::empty());
    assert(start + file_dir_steps(files@.take(0)) =~= start);
    while i < files.len()
        invariant
            i <= files@.len(),
            steps_view(steps@) == start + file_dir_steps(files@.take(i as int)),
        decreases files@.len() - i,
    {
        assert(files@.take(i + 1).drop_last() =~= files@.take(i as int));
        push_dir_step(steps, files[i].path.as_str());
        push_opt_dir_step(steps, &files[i].hardlink);
        push_opt_dir_step(steps, &files[i].export_path);
        assert(steps_view(steps@) =~= start + file_dir_steps(files@.take(i + 1)));
        i = i + 1;
    }
    assert(files@.take(i as int) =~= files@);
}

/// The directories of objects are made.
pub open spec fn object_dir_steps(objects: Seq<Text>) -> Seq<StepView>
    decreases objects.len(),
{
    if objects.len() == 0 {
        Seq::empty()
    } else {
        object_dir_steps(objects.drop_last()) + dir_step(Some(objects.last()))
    }
}

fn push_object_dir_steps(steps: &mut Vec<Step>, objects: &Vec<String>)
    ensures
        steps_view(final(steps)@) == steps_view(old(steps)@) + object_dir_steps(texts(objects@)),
{
    let ghost start = steps_view(steps@);
    let ghost all = texts(objects@);
    let mut i: usize = 0;
    assert(all.take(0) =~= Seq::empty());
    assert(start + object_dir_steps(all.take(0)) =~= start);
    while i < objects.len()
        invariant
            i <= objects@.len(),
            all == texts(objects@),
            steps_view(steps@) == start + object_dir_steps(all.take(i as int)),
        decreases objects@.len() - i,
    {
        assert(all.take(i + 1).drop_last() =~= all.take(i as int));
        assert(all.take(i + 1).last() == objects@[i as int]@);
        push_dir_step(steps, objects[i].as_str());
        assert(steps_view(steps@) =~= start + object_dir_steps(all.take(i + 1)));
        i = i + 1;
    }
    assert(all.take(i as int) =~= all);
}

/// The number of native sources before the first source that is not native.
pub open spec fn native_lead(sources: Seq<Text>) -> nat
    decreases sources.len(),
{
    if sources.len() == 0 || language_of(sources[0]) is None {
        0
    } else {
        1 + native_lead(sources.skip(1))
    }
}

proof fn lemma_native_lead(sources: Seq<Text>, k: nat)
    requires
        k <= sources.len(),
        forall|i: int| 0 <= i < k ==> language_of(#[trigger] sources[i]) is Some,
    ensures
        native_lead(sources) == k + native_lead(sources.skip(k as int)),
    decreases k,
{
    if k > 0 {
        assert(language_of(sources[0]) is Some);
        let rest = sources.skip(1);
        assert forall|i: int| 0 <= i < k - 1 implies language_of(#[trigger] rest[i]) is Some by {
            assert(rest[i] == sources[i + 1]);
        }
        lemma_native_lead(rest, (k - 1) as nat);
        assert(rest.skip(k - 1) =~= sources.skip(k as int));
    } else {
        assert(sources.skip(0) =~= sources);
    }
}

/// Some source is a C++ source.
pub open spec fn has_cpp(sources: Seq<Text>) -> bool {
    exists|i: int|
        0 <= i < sources.len() && language_of(#[trigger] sources[i]) == Some(
            NativeSourceLanguage::Cpp,
        )
}

/// Whether some source is a C++ source.
pub fn has_cpp_sources(sources: &Vec<String>) -> (r: bool)
    ensures
        r == has_cpp(texts(sources@)),
{
    let ghost all = texts(sources@);
    let mut i: usize = 0;
    while i < sources.len()
        invariant
            i <= sources@.len(),
            all == texts(sources@),
            forall|k: int|
                0 <= k < i ==> language_of(#[trigger] all[k]) != Some(NativeSourceLanguage::Cpp),
        decreases sources@.len() - i,
    {
        assert(all[i as int] == sources@[i as int]@);
        if source_language(sources[i].as_str()) == Some(NativeSourceLanguage::Cpp) {
            return true;
        }
        i = i + 1;
    }
    false
}

/// Where a source is not native.
pub open spec fn foreign_source_message() -> Text {
    "native target contains a non-native source file"@
}

/// Where a unit leaves behind nothing that it is built for.
pub open spec fn no_output_message() -> Text {
    "native target is missing a primary output"@
}

impl WorkView {
    /// The unit is built as a shared library.
    pub open spec fn is_sharedlib(self) -> bool {
        self.unit.target.is_cdylib || self.unit.target.is_dylib
    }

    /// The options for compiling a source.
    pub open spec fn compile_args(
        self,
        env: EnvVars,
        language: NativeSourceLanguage,
    ) -> CompileArgsView {
        let family = self.toolchain.family;
        let profile = self.unit.profile;
        CompileArgsView {
            profile_args: profile_compile_args(profile, family) + crt_compile_args(
                crt_static(self.kind.cfgs@),
                profile.debug_assertions,
                family,
            ) + shared_compile_args(self.is_sharedlib(), family),
            env_args: compile_env_flags(
                env,
                self.kind.target_triple@,
                language,
                self.cpp_config_args,
                self.c_config_args,
                self.cxx_config_args,
            ),
            feature_args: feature_args(texts(self.unit.features@), family),
            cfg_args: cfg_args(profile.debug_assertions, self.kind.cfgs@, family),
            native_define_args: define_args(texts(self.unit.target.native_defines@), family),
        }
    }

    /// The directories that headers are looked for in.
    pub open spec fn include_dirs(self, outputs: BuildScriptOutputs, fs: FsView) -> Seq<Text> {
        all_include_dirs(
            self.unit.package_root@,
            fs,
            self.sources,
            opt_text(self.unit.target.native_include_root),
            texts(self.unit.target.native_include_dirs@),
            declared_includes(
                outputs,
                self.unit.build_script_metadatas,
                self.unit.previous_build_outputs@,
            ),
            dependency_includes(outputs, fs, self.dependency_descriptors),
        )
    }

    /// What goes into the link.
    pub open spec fn link_inputs(self, outputs: BuildScriptOutputs) -> LinkInputsView {
        LinkInputsView {
            manifest_library_search_dirs: texts(self.unit.target.native_link_search@),
            manifest_library_links: texts(self.unit.target.native_link_libraries@),
            manifest_link_args: texts(self.unit.target.native_link_args@),
            ..link_inputs_of(
                outputs,
                self.dependency_descriptors,
                self.unit.build_script_metadatas,
                self.unit.previous_build_outputs@,
            )
        }
    }

    /// How the unit is linked.
    pub open spec fn link_context(self) -> NativeLinkContext {
        NativeLinkContext {
            is_bin: self.unit.target.is_bin,
            is_cdylib: self.unit.target.is_cdylib,
            is_test: self.unit.target.is_test,
            is_bench: self.unit.target.is_bench,
            is_example: self.unit.target.is_exe_example,
            target_name: self.unit.target.name,
            mode: self.unit.mode,
        }
    }

    /// The objects, once it is told what is built.
    pub open spec fn objects(self, primary: Text) -> Seq<Text> {
        objects_of(
            self.unit.package_root@,
            self.sources,
            objects_dir_of(primary),
            self.toolchain.family,
        )
    }

    /// The step that compiles the source in place `i`.
    pub open spec fn compile_step(
        self,
        env: EnvVars,
        primary: Text,
        dirs: Seq<Text>,
        i: int,
    ) -> StepView {
        let language = match language_of(self.sources[i]) {
            Some(language) => language,
            None => NativeSourceLanguage::C,
        };
        let objects = self.objects(primary);
        StepView::Run(
            compile_command(
                self.toolchain,
                self.compile_args(env, language),
                language,
                self.sources[i],
                objects[i],
                depfiles_of(objects, self.toolchain.family)[i],
                dirs,
            ),
        )
    }

    /// The step that makes a library or a binary of the objects.
    pub open spec fn final_step(
        self,
        env: EnvVars,
        outputs: BuildScriptOutputs,
        primary: Text,
    ) -> StepView {
        let target = self.unit.target;
        let triple = self.kind.target_triple@;
        let family = self.toolchain.family;
        let cpp = has_cpp(self.sources);
        let profile_args = profile_link_args(self.unit.profile, family) + crt_link_args(
            crt_static(self.kind.cfgs@),
            triple,
            family,
            cpp,
        );
        let env_args = link_env_flags(env, triple, self.link_config_args);
        if target.is_staticlib {
            match archive_command(self.toolchain, self.objects(primary), primary, target.name@) {
                Ok(cmd) => StepView::Run(cmd),
                Err(e) => StepView::Fail(e),
            }
        } else if self.is_sharedlib() {
            StepView::Run(
                link_shared_command(
                    self.toolchain,
                    profile_args,
                    env_args,
                    cpp,
                    self.objects(primary),
                    primary,
                    self.link_inputs(outputs),
                    self.link_context(),
                ),
            )
        } else {
            StepView::Run(
                link_binary_command(
                    self.toolchain,
                    profile_args,
                    env_args,
                    cpp,
                    self.objects(primary),
                    primary,
                    self.link_inputs(outputs),
                    self.link_context(),
                ),
            )
        }
    }

    /// The steps that compile the first `n` sources.
    pub open spec fn compile_steps(
        self,
        env: EnvVars,
        primary: Text,
        dirs: Seq<Text>,
        n: nat,
    ) -> Seq<StepView> {
        Seq::new(n, |i: int| self.compile_step(env, primary, dirs, i))
    }

    /// The steps of the build, from the first to the last: the directories are made,
    /// each source is compiled, and the objects are put together. The build ends at
    /// a source that is not native.
    pub open spec fn steps(
        self,
        env: EnvVars,
        outputs: BuildScriptOutputs,
        fs: FsView,
    ) -> Seq<StepView> {
        let dirs = self.include_dirs(outputs, fs);
        let files = file_dir_steps(files_of(self.unit));
        match primary_output(files_of(self.unit)) {
            None => files.push(StepView::Fail(no_output_message())),
            Some(primary) => {
                let lead = native_lead(self.sources);
                files + object_dir_steps(self.objects(primary)) + self.compile_steps(
                    env,
                    primary,
                    dirs,
                    lead,
                ) + seq![
                    if lead < self.sources.len() {
                        StepView::Fail(foreign_source_message())
                    } else {
                        self.final_step(env, outputs, primary)
                    },
                ]
            },
        }
    }

    /// Where the compiler writes what the sources include.
    pub open spec fn depfiles(self) -> Seq<Option<Text>> {
        match primary_output(files_of(self.unit)) {
            None => Seq::empty(),
            Some(primary) => depfiles_of(self.objects(primary), self.toolchain.family),
        }
    }
}

/// What a native build does.
#[derive(Debug)]
pub struct NativePlan {
    /// The steps, from the first to the last.
    pub steps: Vec<Step>,
    /// Where the compiler writes what the sources include.
    pub depfiles: Vec<Option<String>>,
    /// The directories that headers are looked for in.
    pub include_dirs: Vec<String>,
}

impl<'a> CompileWork<'a> {
    fn profile_compile_args_with_crt(&self) -> (r: Vec<String>)
        ensures
            texts(r@) == profile_compile_args(self.unit.profile, self.toolchain.family)
                + crt_compile_args(
                crt_static(self.kind.cfgs@),
                self.unit.profile.debug_assertions,
                self.toolchain.family,
            ) + shared_compile_args(self@.is_sharedlib(), self.toolchain.family),
    {
        let family = self.toolchain.family;
        let crt = native_crt_static_enabled(&self.kind.cfgs);
        let mut args = native_profile_compile_args(&self.unit.profile, family);
        append_list(&mut args, &native_crt_compile_args(crt, &self.unit.profile, family));
        append_list(
            &mut args,
            &native_shared_compile_args(
                self.unit.target.is_cdylib || self.unit.target.is_dylib,
                family,
            ),
        );
        args
    }

    fn plan_include_dirs(&self, outputs: &BuildScriptOutputs, fs: &FsView) -> (r: Vec<String>)
        ensures
            texts(r@) == self@.include_dirs(*outputs, *fs),
    {
        let declared = declared_include_dirs_from_metadata(
            outputs,
            &self.unit.build_script_metadatas,
            &self.unit.previous_build_outputs,
        );
        let dependency = dependency_include_dirs_from_descriptors(
            outputs,
            fs,
            &self.dependency_descriptors,
        );
        include_dirs(
            self.unit.package_root.as_str(),
            fs,
            &self.sources,
            &self.unit.target.native_include_root,
            &self.unit.target.native_include_dirs,
            &declared,
            &dependency,
        )
    }

    fn plan_final_step(
        &self,
        env: &EnvVars,
        outputs: &BuildScriptOutputs,
        primary: &str,
        objects: &Vec<String>,
    ) -> (r: Step)
        requires
            texts(objects@) == self@.objects(primary@),
        ensures
            r@ == self@.final_step(*env, *outputs, primary@),
    {
        let target = &self.unit.target;
        if target.is_staticlib {
            return match archive_library(
                &self.toolchain,
                objects,
                primary,
                target.name.as_str(),
            ) {
                Ok(cmd) => Step::Run(cmd),
                Err(e) => Step::Fail(e),
            };
        }
        let triple = self.kind.target_triple.as_str();
        let family = self.toolchain.family;
        let cpp = has_cpp_sources(&self.sources);
        let crt = native_crt_static_enabled(&self.kind.cfgs);
        let mut profile_args = native_profile_link_args(&self.unit.profile, family);
        append_list(&mut profile_args, &native_crt_link_args(crt, triple, family, cpp));
        let env_args = native_link_env_flags(env, triple, &self.link_config_args);
        let mut inputs = native_link_inputs_from_descriptors(
            outputs,
            &self.dependency_descriptors,
            &self.unit.build_script_metadatas,
            &self.unit.previous_build_outputs,
        );
        append_list(&mut inputs.manifest_library_search_dirs, &target.native_link_search);
        append_list(&mut inputs.manifest_library_links, &target.native_link_libraries);
        append_list(&mut inputs.manifest_link_args, &target.native_link_args);
        assert(inputs@ =~= self@.link_inputs(*outputs));
        let context = NativeLinkContext {
            is_bin: target.is_bin,
            is_cdylib: target.is_cdylib,
            is_test: target.is_test,
            is_bench: target.is_bench,
            is_example: target.is_exe_example,
            target_name: target.name.clone(),
            mode: self.unit.mode,
        };
        if target.is_cdylib || target.is_dylib {
            Step::Run(
                link_shared_library(
                    &self.toolchain,
                    &profile_args,
                    &env_args,
                    cpp,
                    objects,
                    primary,
                    &inputs,
                    &context,
                ),
            )
        } else {
            Step::Run(
                link_binary(
                    &self.toolchain,
                    &profile_args,
                    &env_args,
                    cpp,
                    objects,
                    primary,
                    &inputs,
                    &context,
                ),
            )
        }
    }

    /// What the build does, once it is known what the build scripts printed.
    pub fn plan(&self, env: &EnvVars, outputs: &BuildScriptOutputs, fs: &FsView) -> (r: NativePlan)
        requires
            has_file_name(*self.unit),
        ensures
            steps_view(r.steps@) == self@.steps(*env, *outputs, *fs),
            opt_paths(r.depfiles@) == self@.depfiles(),
            texts(r.include_dirs@) == self@.include_dirs(*outputs, *fs),
    {
        let dirs = self.plan_include_dirs(outputs, fs);
        let mut steps: Vec<Step> = Vec::new();
        assert(steps_view(steps@) =~= Seq::empty());
        let none: Vec<OutputFile> = Vec::new();
        let files = match &self.unit.outputs {
            Ok(files) => files,
            Err(_) => &none,
        };
        assert(files@ =~= files_of(*self.unit));
        push_file_dir_steps(&mut steps, files);
        assert(steps_view(steps@) =~= file_dir_steps(files@));
        let primary = match primary_output_of(files) {
            Some(primary) => primary,
            None => {
                push_step(
                    &mut steps,
                    Step::Fail("native target is missing a primary output".to_owned()),
                );
                let depfiles: Vec<Option<String>> = Vec::new();
                assert(opt_paths(depfiles@) =~= Seq::empty());
                return NativePlan { steps, depfiles, include_dirs: dirs };
            },
        };
        let family = self.toolchain.family;
        let objects_dir = objects_dir(primary.as_str());
        let objects = object_paths(
            self.unit.package_root.as_str(),
            &self.sources,
            objects_dir.as_str(),
            family,
        );
        let depfiles = depfile_paths(&objects, family);
        assert(texts(objects@).len() == objects@.len());
        assert(opt_paths(depfiles@).len() == depfiles@.len());
        assert(texts(self.sources@).len() == self.sources@.len());
        push_object_dir_steps(&mut steps, &objects);
        let profile_args = self.profile_compile_args_with_crt();
        let feature_list = native_feature_args(&self.unit.features, family);
        let cfg_list = native_cfg_args(
            self.unit.profile.debug_assertions,
            &self.kind.cfgs,
            family,
        );
        let define_list = native_define_args(&self.unit.target.native_defines, family);
        let ghost sources = texts(self.sources@);
        let ghost start = steps_view(steps@);
        let mut i: usize = 0;
        assert(start + self@.compile_steps(*env, primary@, texts(dirs@), 0) =~= start);
        while i < self.sources.len()
            invariant
                i <= self.sources@.len() == objects@.len() == depfiles@.len(),
                family == self.toolchain.family,
                sources == texts(self.sources@),
                texts(objects@) == self@.objects(primary@),
                opt_paths(depfiles@) == depfiles_of(self@.objects(primary@), family),
                texts(dirs@) == self@.include_dirs(*outputs, *fs),
                primary_output(files_of(*self.unit)) == Some(primary@),
                start == file_dir_steps(files_of(*self.unit)) + object_dir_steps(
                    self@.objects(primary@),
                ),
                texts(profile_args@) == profile_compile_args(self.unit.profile, family)
                    + crt_compile_args(
                    crt_static(self.kind.cfgs@),
                    self.unit.profile.debug_assertions,
                    family,
                ) + shared_compile_args(self@.is_sharedlib(), family),
                texts(feature_list@) == feature_args(texts(self.unit.features@), family),
                texts(cfg_list@) == cfg_args(
                    self.unit.profile.debug_assertions,
                    self.kind.cfgs@,
                    family,
                ),
                texts(define_list@) == define_args(
                    texts(self.unit.target.native_defines@),
                    family,
                ),
                forall|k: int| 0 <= k < i ==> language_of(#[trigger] sources[k]) is Some,
                steps_view(steps@) == start + self@.compile_steps(
                    *env,
                    primary@,
                    texts(dirs@),
                    i as nat,
                ),
            decreases self.sources@.len() - i,
        {
            assert(sources[i as int] == self.sources@[i as int]@);
            assert(texts(objects@)[i as int] == objects@[i as int]@);
            assert(opt_paths(depfiles@)[i as int] == opt_text(depfiles@[i as int]));
            let language = match source_language(self.sources[i].as_str()) {
                Some(language) => language,
                None => {
                    push_step(
                        &mut steps,
                        Step::Fail("native target contains a non-native source file".to_owned()),
                    );
                    proof {
                        lemma_native_lead(sources, i as nat);
                        assert(sources.skip(i as int)[0] == sources[i as int]);
                        assert(steps_view(steps@) =~= self@.steps(*env, *outputs, *fs));
                    }
                    return NativePlan { steps, depfiles, include_dirs: dirs };
                },
            };
            let env_args = native_compile_env_flags(
                env,
                self.kind.target_triple.as_str(),
                language,
                &self.cpp_config_args,
                &self.c_config_args,
                &self.cxx_config_args,
            );
            let args = CompileArgs {
                profile_args: &profile_args,
                env_args: &env_args,
                feature_args: &feature_list,
                cfg_args: &cfg_list,
                native_define_args: &define_list,
            };
            let cmd = build_compile_object_command(
                &self.toolchain,
                &args,
                language,
                self.sources[i].as_str(),
                objects[i].as_str(),
                &depfiles[i],
                &dirs,
            );
            push_step(&mut steps, Step::Run(cmd));
            proof {
                let want = self@.compile_steps(*env, primary@, texts(dirs@), (i + 1) as nat);
                assert(want[i as int] == self@.compile_step(
                    *env,
                    primary@,
                    texts(dirs@),
                    i as int,
                ));
                assert(args@ == self@.compile_args(*env, language));
                assert(steps_view(steps@) =~= start + want);
            }
            i = i + 1;
        }
        proof {
            lemma_native_lead(sources, i as nat);
            assert(native_lead(sources.skip(i as int)) == 0);
        }
        let step = self.plan_final_step(env, outputs, primary.as_str(), &objects);
        push_step(&mut steps, step);
        assert(steps_view(steps@) =~= self@.steps(*env, *outputs, *fs));
        NativePlan { steps, depfiles, include_dirs: dirs }
    }
}

/// In a target of C and C++ sources each source is compiled by the compiler for its
/// language.
pub proof fn lemma_mixed_languages(
    work: WorkView,
    env: EnvVars,
    primary: Text,
    dirs: Seq<Text>,
    i: int,
)
    ensures
        work.compile_step(env, primary, dirs, i) matches StepView::Run(cmd) && {
            &&& language_of(work.sources[i]) == Some(NativeSourceLanguage::C) ==> cmd.program
                == work.toolchain.cc
            &&& language_of(work.sources[i]) == Some(NativeSourceLanguage::Cpp) ==> cmd.program
                == work.toolchain.cxx
        },
{
}

/// A binary or a shared library is linked by the C++ compiler where some source is
/// C++, and else by the C compiler.
pub proof fn lemma_linker(
    work: WorkView,
    env: EnvVars,
    outputs: BuildScriptOutputs,
    primary: Text,
)
    requires
        !work.unit.target.is_staticlib,
    ensures
        work.final_step(env, outputs, primary) matches StepView::Run(cmd) && cmd.program == if has_cpp(
            work.sources,
        ) {
            work.toolchain.cxx
        } else {
            work.toolchain.cc
        },
{
}

/// A build whose steps hold no failure compiles each of its sources.
pub proof fn lemma_each_source_compiled(
    work: WorkView,
    env: EnvVars,
    outputs: BuildScriptOutputs,
    fs: FsView,
    i: int,
)
    requires
        0 <= i < work.sources.len(),
        forall|k: int|
            0 <= k < work.steps(env, outputs, fs).len() ==> !(#[trigger] work.steps(
                env,
                outputs,
                fs,
            )[k] is Fail),
    ensures
        primary_output(files_of(work.unit)) matches Some(primary) && work.steps(
            env,
            outputs,
            fs,
        ).contains(work.compile_step(env, primary, work.include_dirs(outputs, fs), i)),
{
    let steps = work.steps(env, outputs, fs);
    let files = file_dir_steps(files_of(work.unit));
    let dirs = work.include_dirs(outputs, fs);
    assert(!(steps[steps.len() - 1] is Fail));
    match primary_output(files_of(work.unit)) {
        None => {},
        Some(primary) => {
            let lead = native_lead(work.sources);
            let before = files + object_dir_steps(work.objects(primary));
            let compiled = work.compile_steps(env, primary, dirs, lead);
            assert(lead >= work.sources.len());
            assert(compiled[i] == work.compile_step(env, primary, dirs, i));
            assert(steps[before.len() + i] == compiled[i]);
        },
    }
}

} // verus!
