//! The command lines of compilers, archivers and linkers.
use vstd::prelude::*;

use crate::command::{Command, CommandView};
use crate::link::{apply_build_output_link_inputs, link_input_args, LinkInputsView};
use crate::link::{NativeLinkContext, NativeLinkInputs};
use crate::native::{NativeCompilerFamily, NativeSourceLanguage};
use crate::os_text::{OsText, OsTextView};
use crate::text::{opt_text, text2, text3, texts, Text};
use crate::toolchain::{NativeToolchain, ToolchainView};

verus! {

/// The compiler for a language.
pub open spec fn compiler_of(toolchain: ToolchainView, language: NativeSourceLanguage) -> OsTextView {
    match language {
        NativeSourceLanguage::C => toolchain.cc,
        NativeSourceLanguage::Cpp => toolchain.cxx,
    }
}

/// The compiler for a language.
pub fn compiler_for_source(toolchain: &NativeToolchain, language: NativeSourceLanguage) -> (r:
    &OsText)
    ensures
        r@ == compiler_of(toolchain@, language),
{
    match language {
        NativeSourceLanguage::C => &toolchain.cc,
        NativeSourceLanguage::Cpp => &toolchain.cxx,
    }
}

/// What links a target: the C++ compiler where there are C++ sources.
pub open spec fn linker_of(toolchain: ToolchainView, has_cpp_sources: bool) -> OsTextView {
    if has_cpp_sources {
        toolchain.cxx
    } else {
        toolchain.cc
    }
}

/// What links a target.
pub fn linker_for_target(toolchain: &NativeToolchain, has_cpp_sources: bool) -> (r: &OsText)
    ensures
        r@ == linker_of(toolchain@, has_cpp_sources),
{
    if has_cpp_sources {
        &toolchain.cxx
    } else {
        &toolchain.cc
    }
}

/// The options for include directories.
pub open spec fn include_args(dirs: Seq<Text>, family: NativeCompilerFamily) -> Seq<Text>
    decreases dirs.len(),
{
    if dirs.len() == 0 {
        Seq::empty()
    } else {
        let rest = include_args(dirs.drop_last(), family);
        match family {
            NativeCompilerFamily::GnuLike => rest.push("-I"@).push(dirs.last()),
            NativeCompilerFamily::MsvcLike => rest.push("/I"@ + dirs.last()),
        }
    }
}

fn push_include_args(cmd: &mut Command, dirs: &Vec<String>, family: NativeCompilerFamily)
    ensures
        final(cmd)@ == (CommandView {
            args: old(cmd)@.args + include_args(texts(dirs@), family),
            ..old(cmd)@
        }),
{
    let ghost all = texts(dirs@);
    let ghost start = cmd@;
    let mut i: usize = 0;
    assert(all.take(0) =~= Seq::empty());
    assert(start.args + include_args(all.take(0), family) =~= start.args);
    while i < dirs.len()
        invariant
            i <= dirs@.len(),
            all == texts(dirs@),
            cmd@ == (CommandView {
                args: start.args + include_args(all.take(i as int), family),
                ..start
            }),
        decreases dirs@.len() - i,
    {
        assert(all.take(i + 1).drop_last() =~= all.take(i as int));
        assert(all.take(i + 1).last() == dirs@[i as int]@);
        match family {
            NativeCompilerFamily::GnuLike => {
                cmd.arg("-I");
                cmd.arg(dirs[i].as_str());
            },
            NativeCompilerFamily::MsvcLike => {
                cmd.arg(text2("/I", dirs[i].as_str()).as_str());
            },
        }
        assert(cmd@.args =~= start.args + include_args(all.take(i + 1), family));
        i = i + 1;
    }
    assert(all.take(i as int) =~= all);
}

/// The options that a compilation takes from the profile, the configuration and
/// environment, the features, the configuration values and the manifest.
#[derive(Debug)]
pub struct CompileArgs<'a> {
    /// Those of the profile.
    pub profile_args: &'a Vec<String>,
    /// Those of the configuration and the environment.
    pub env_args: &'a Vec<String>,
    /// Those that tell of features.
    pub feature_args: &'a Vec<String>,
    /// Those that tell of configuration values.
    pub cfg_args: &'a Vec<String>,
    /// Those of the manifest.
    pub native_define_args: &'a Vec<String>,
}

/// What compile options hold.
pub struct CompileArgsView {
    /// Those of the profile.
    pub profile_args: Seq<Text>,
    /// Those of the configuration and the environment.
    pub env_args: Seq<Text>,
    /// Those that tell of features.
    pub feature_args: Seq<Text>,
    /// Those that tell of configuration values.
    pub cfg_args: Seq<Text>,
    /// Those of the manifest.
    pub native_define_args: Seq<Text>,
}

impl<'a> View for CompileArgs<'a> {
    type V = CompileArgsView;

    open spec fn view(&self) -> CompileArgsView {
        CompileArgsView {
            profile_args: texts(self.profile_args@),
            env_args: texts(self.env_args@),
            feature_args: texts(self.feature_args@),
            cfg_args: texts(self.cfg_args@),
            native_define_args: texts(self.native_define_args@),
        }
    }
}

impl CompileArgsView {
    /// All the options in their order.
    pub open spec fn all(self) -> Seq<Text> {
        self.profile_args + self.env_args + self.feature_args + self.cfg_args
            + self.native_define_args
    }
}

/// The option that makes the compiler write what a source includes.
pub open spec fn depfile_args(depfile: Option<Text>) -> Seq<Text> {
    match depfile {
        Some(depfile) => seq!["-MMD"@, "-MF"@, depfile],
        None => Seq::empty(),
    }
}

/// The command that compiles a source to an object.
pub open spec fn compile_command(
    toolchain: ToolchainView,
    args: CompileArgsView,
    language: NativeSourceLanguage,
    source: Text,
    object: Text,
    depfile: Option<Text>,
    include_dirs: Seq<Text>,
) -> CommandView {
    CommandView {
        program: compiler_of(toolchain, language),
        args: match toolchain.family {
            NativeCompilerFamily::GnuLike => args.all() + seq!["-c"@, source, "-o"@, object]
                + depfile_args(depfile) + include_args(include_dirs, toolchain.family),
            NativeCompilerFamily::MsvcLike => seq!["/nologo"@] + args.all() + seq![
                "/c"@,
                source,
                "/Fo"@ + object,
            ] + include_args(include_dirs, toolchain.family),
        },
        env: toolchain.env,
    }
}

fn push_compile_args(cmd: &mut Command, args: &CompileArgs)
    ensures
        final(cmd)@ == (CommandView { args: old(cmd)@.args + args@.all(), ..old(cmd)@ }),
{
    let ghost start = cmd@;
    cmd.append_args(args.profile_args);
    cmd.append_args(args.env_args);
    cmd.append_args(args.feature_args);
    cmd.append_args(args.cfg_args);
    cmd.append_args(args.native_define_args);
    assert(cmd@.args =~= start.args + args@.all());
}

/// The command that compiles a source to an object.
pub fn build_compile_object_command(
    toolchain: &NativeToolchain,
    args: &CompileArgs,
    language: NativeSourceLanguage,
    source: &str,
    object: &str,
    depfile: &Option<String>,
    include_dirs: &Vec<String>,
) -> (r: Command)
    ensures
        r@ == compile_command(
            toolchain@,
            args@,
            language,
            source@,
            object@,
            opt_text(*depfile),
            texts(include_dirs@),
        ),
{
    let mut cmd = Command::new(compiler_for_source(toolchain, language), &toolchain.env);
    match toolchain.family {
        NativeCompilerFamily::GnuLike => {
            push_compile_args(&mut cmd, args);
            cmd.arg("-c");
            cmd.arg(source);
            cmd.arg("-o");
            cmd.arg(object);
            match depfile {
                Some(depfile) => {
                    cmd.arg("-MMD");
                    cmd.arg("-MF");
                    cmd.arg(depfile.as_str());
                },
                None => {},
            }
        },
        NativeCompilerFamily::MsvcLike => {
            cmd.arg("/nologo");
            push_compile_args(&mut cmd, args);
            cmd.arg("/c");
            cmd.arg(source);
            cmd.arg(text2("/Fo", object).as_str());
        },
    }
    push_include_args(&mut cmd, include_dirs, toolchain.family);
    assert(cmd@ =~= compile_command(
        toolchain@,
        args@,
        language,
        source@,
        object@,
        opt_text(*depfile),
        texts(include_dirs@),
    ));
    cmd
}

/// Where there is no archiver.
pub open spec fn no_archiver_message(target_name: Text) -> Text {
    "failed to find an archiver for native C++ target `"@ + target_name
        + "`; set the AR environment variable"@
}

/// What a result that is a command or a message holds.
pub open spec fn command_result(r: Result<Command, String>) -> Result<CommandView, Text> {
    match r {
        Ok(cmd) => Ok(cmd@),
        Err(e) => Err(e@),
    }
}

/// The command that puts objects into a static library.
pub open spec fn archive_command(
    toolchain: ToolchainView,
    objects: Seq<Text>,
    library: Text,
    target_name: Text,
) -> Result<CommandView, Text> {
    match toolchain.ar {
        None => Err(no_archiver_message(target_name)),
        Some(ar) => Ok(
            CommandView {
                program: ar,
                args: match toolchain.family {
                    NativeCompilerFamily::GnuLike => seq!["crs"@, library] + objects,
                    NativeCompilerFamily::MsvcLike => seq!["/nologo"@, "/OUT:"@ + library]
                        + objects,
                },
                env: toolchain.env,
            },
        ),
    }
}

/// The command that puts objects into a static library.
pub fn archive_library(
    toolchain: &NativeToolchain,
    objects: &Vec<String>,
    library: &str,
    target_name: &str,
) -> (r: Result<Command, String>)
    ensures
        command_result(r) == archive_command(toolchain@, texts(objects@), library@, target_name@),
{
    match &toolchain.ar {
        None => Err(
            text3(
                "failed to find an archiver for native C++ target `",
                target_name,
                "`; set the AR environment variable",
            ),
        ),
        Some(ar) => {
            let mut cmd = Command::new(ar, &toolchain.env);
            match toolchain.family {
                NativeCompilerFamily::GnuLike => {
                    cmd.arg("crs");
                    cmd.arg(library);
                },
                NativeCompilerFamily::MsvcLike => {
                    cmd.arg("/nologo");
                    cmd.arg(text2("/OUT:", library).as_str());
                },
            }
            cmd.append_args(objects);
            assert(archive_command(toolchain@, texts(objects@), library@, target_name@) matches Ok(
                want,
            ) && cmd@ =~= want);
            Ok(cmd)
        },
    }
}

/// The command that links a binary.
pub open spec fn link_binary_command(
    toolchain: ToolchainView,
    profile_args: Seq<Text>,
    env_args: Seq<Text>,
    has_cpp_sources: bool,
    objects: Seq<Text>,
    executable: Text,
    inputs: LinkInputsView,
    context: NativeLinkContext,
) -> CommandView {
    CommandView {
        program: linker_of(toolchain, has_cpp_sources),
        args: match toolchain.family {
            NativeCompilerFamily::GnuLike => objects + profile_args + env_args + link_input_args(
                toolchain.family,
                inputs,
                context,
            ) + seq!["-o"@, executable] + inputs.dependency_libraries,
            NativeCompilerFamily::MsvcLike => seq!["/nologo"@] + objects + profile_args + env_args
                + link_input_args(toolchain.family, inputs, context) + seq!["/Fe"@ + executable]
                + inputs.dependency_libraries,
        },
        env: toolchain.env,
    }
}

/// The command that links a binary.
pub fn link_binary(
    toolchain: &NativeToolchain,
    profile_args: &Vec<String>,
    env_args: &Vec<String>,
    has_cpp_sources: bool,
    objects: &Vec<String>,
    executable: &str,
    link_inputs: &NativeLinkInputs,
    link_context: &NativeLinkContext,
) -> (r: Command)
    ensures
        r@ == link_binary_command(
            toolchain@,
            texts(profile_args@),
            texts(env_args@),
            has_cpp_sources,
            texts(objects@),
            executable@,
            link_inputs@,
            *link_context,
        ),
{
    let mut cmd = Command::new(linker_for_target(toolchain, has_cpp_sources), &toolchain.env);
    match toolchain.family {
        NativeCompilerFamily::GnuLike => {
            cmd.append_args(objects);
            cmd.append_args(profile_args);
            cmd.append_args(env_args);
            apply_build_output_link_inputs(
                &mut cmd,
                toolchain.family,
                link_inputs,
                link_context,
            );
            cmd.arg("-o");
            cmd.arg(executable);
        },
        NativeCompilerFamily::MsvcLike => {
            cmd.arg("/nologo");
            cmd.append_args(objects);
            cmd.append_args(profile_args);
            cmd.append_args(env_args);
            apply_build_output_link_inputs(
                &mut cmd,
                toolchain.family,
                link_inputs,
                link_context,
            );
            cmd.arg(text2("/Fe", executable).as_str());
        },
    }
    cmd.append_args(&link_inputs.dependency_libraries);
    assert(cmd@ =~= link_binary_command(
        toolchain@,
        texts(profile_args@),
        texts(env_args@),
        has_cpp_sources,
        texts(objects@),
        executable@,
        link_inputs@,
        *link_context,
    ));
    cmd
}

/// The command that links a shared library.
pub open spec fn link_shared_command(
    toolchain: ToolchainView,
    profile_args: Seq<Text>,
    env_args: Seq<Text>,
    has_cpp_sources: bool,
    objects: Seq<Text>,
    library: Text,
    inputs: LinkInputsView,
    context: NativeLinkContext,
) -> CommandView {
    CommandView {
        program: linker_of(toolchain, has_cpp_sources),
        args: match toolchain.family {
            NativeCompilerFamily::GnuLike => objects + profile_args + env_args + link_input_args(
                toolchain.family,
                inputs,
                context,
            ) + seq!["-shared"@, "-o"@, library] + inputs.dependency_libraries,
            NativeCompilerFamily::MsvcLike => seq!["/nologo"@, "/LD"@] + objects + profile_args
                + env_args + link_input_args(toolchain.family, inputs, context) + seq![
                "/Fe"@ + library,
            ] + inputs.dependency_libraries,
        },
        env: toolchain.env,
    }
}

/// The command that links a shared library.
pub fn link_shared_library(
    toolchain: &NativeToolchain,
    profile_args: &Vec<String>,
    env_args: &Vec<String>,
    has_cpp_sources: bool,
    objects: &Vec<String>,
    library: &str,
    link_inputs: &NativeLinkInputs,
    link_context: &NativeLinkContext,
) -> (r: Command)
    ensures
        r@ == link_shared_command(
            toolchain@,
            texts(profile_args@),
            texts(env_args@),
            has_cpp_sources,
            texts(objects@),
            library@,
            link_inputs@,
            *link_context,
        ),
{
    let mut cmd = Command::new(linker_for_target(toolchain, has_cpp_sources), &toolchain.env);
    match toolchain.family {
        NativeCompilerFamily::GnuLike => {
            cmd.append_args(objects);
            cmd.append_args(profile_args);
            cmd.append_args(env_args);
            apply_build_output_link_inputs(
                &mut cmd,
                toolchain.family,
                link_inputs,
                link_context,
            );
            cmd.arg("-shared");
            cmd.arg("-o");
            cmd.arg(library);
        },
        NativeCompilerFamily::MsvcLike => {
            cmd.arg("/nologo");
            cmd.arg("/LD");
            cmd.append_args(objects);
            cmd.append_args(profile_args);
            cmd.append_args(env_args);
            apply_build_output_link_inputs(
                &mut cmd,
                toolchain.family,
                link_inputs,
                link_context,
            );
            cmd.arg(text2("/Fe", library).as_str());
        },
    }
    cmd.append_args(&link_inputs.dependency_libraries);
    assert(cmd@ =~= link_shared_command(
        toolchain@,
        texts(profile_args@),
        texts(env_args@),
        has_cpp_sources,
        texts(objects@),
        library@,
        link_inputs@,
        *link_context,
    ));
    cmd
}

} // verus!
